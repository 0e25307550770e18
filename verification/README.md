# josh_link

Links between repositories. A link is a directory with a `.link.josh` file in it. The file records
which repository is linked, which branch of it the link follows, and which commit it is pinned to.
The library adds links, fetches the commits that they name, moves them to newer commits, and exports
and pushes what was changed at them.

## Layout

- `src/` is the library. Nothing in it touches a repository. An operation is a value that asks for
  one action at a time (`step.rs`) and is handed the reply; what it asks next, and what it returns in
  the end, is a function of its arguments and of all replies so far. That function stands next to
  each operation (`update_links_step`, `push_step`, ...), and the contracts are stated over it.
- `src/command/` holds the four commands. A command is a chain of operations (`turn.rs`) that also
  tells the user what it does.
- `src/laws/` holds the laws that span several operations on one repository. The repository that they
  speak of, and the answers that they count on, are in `repository.rs`.
- `app/` runs the operations on a josh transaction: it carries out the actions, prints the notices,
  and reads the command line.
- `tests/` runs every operation and every command, with replies given by hand and on a small
  repository in memory.

## What is believed without proof

- `oid.rs`: the null identifier, the hexadecimal form and the reading of identifiers come from
  `gix_hash`.
- `text.rs`: `str::parse::<i64>` of std.
- `path.rs`: `String::from_utf8_lossy` and `std::str::from_utf8` of std.
