//! What an update of materialized links makes of a repository.

use crate::command::update::updating;
use crate::laws::failing::updating_materialized;
use crate::laws::operations::content_is_taken_out_first;
use crate::laws::updating::{
    can_move, last_at, last_at_is_among, moved_entries, overwritten, overwritten_at,
    update_commit_is_child_of_head, update_overwrites_link_files,
};
use crate::laws::words::built_in;
use crate::link::MaterializedLinkUpdateResult;
use crate::materialize::update_materialized_step;
use crate::oid::ObjectId;
use crate::path::names;
use crate::repository::{leads_through, link_key, Files, Key, Numbers, Repository};
use crate::step::{Expected, ReplyModel};
use crate::update::UpdateArgs;
use vstd::prelude::*;

verus! {

/// Whether the tree holds nothing in the directory of a link but its link file.
pub open spec fn holds_no_projected_file(repo: Repository, tree: ObjectId) -> bool {
    forall|dir: Key, key: Key|
        #![trigger repo.has_link_at(tree, dir), (repo.files)(tree).contains_key(key)]
        repo.has_link_at(tree, dir) && (repo.files)(tree).contains_key(key) && leads_through(
            dir,
            key,
        ) ==> key == link_key(dir)
}

proof fn materialized_update_starts(
    repo: Repository,
    numbers: Numbers,
    args: UpdateArgs,
    replies: Seq<ReplyModel>,
)
    requires
        repo.answers(numbers, updating_materialized(args), replies),
        update_materialized_step(args, replies) is Done,
    ensures
        ({
            let unlink = (repo.meaning)(built_in(":unlink"@, "Failed to parse :unlink filter"@));
            let link = (repo.meaning)(built_in(":link"@, "Failed to parse :link filter"@));
            let canonical = (repo.filtered)(unlink, args.head);
            let previous = (repo.filtered)(link, canonical);
            let rest = replies.skip(2);
            &&& replies.len() >= 2
            &&& replies =~= seq![ReplyModel::Id(canonical), ReplyModel::Id(previous)] + rest
            &&& repo.answers(numbers, updating(UpdateArgs { head: canonical, ..args }), rest)
        }),
{
    let step = updating_materialized(args);
    let unlink = (repo.meaning)(built_in(":unlink"@, "Failed to parse :unlink filter"@));
    let link = (repo.meaning)(built_in(":link"@, "Failed to parse :link filter"@));
    let canonical = (repo.filtered)(unlink, args.head);
    let previous = (repo.filtered)(link, canonical);
    let first = seq![ReplyModel::Id(canonical), ReplyModel::Id(previous)];
    let none = Seq::<ReplyModel>::empty();
    content_is_taken_out_first(args, canonical, previous, none);
    if replies.len() == 0 {
        assert(replies =~= none);
    }
    assert(replies.take(0) =~= none);
    assert(step(replies.take(0)) is Ask);
    assert(replies[0] == ReplyModel::Id(canonical));
    if replies.len() == 1 {
        assert(replies =~= seq![ReplyModel::Id(canonical)]);
    }
    assert(replies.take(1) =~= seq![ReplyModel::Id(canonical)]);
    assert(step(replies.take(1)) is Ask);
    assert(replies[1] == ReplyModel::Id(previous));
    let rest = replies.skip(2);
    let inner = UpdateArgs { head: canonical, ..args };
    assert(replies =~= first + rest);
    assert forall|i: int| 0 <= i < rest.len() implies (#[trigger] updating(inner)(
        rest.take(i),
    ) matches Expected::Ask { request } && repo.fits(numbers, request.action, rest[i])) by {
        assert(replies.take(i + 2) =~= first + rest.take(i));
        content_is_taken_out_first(args, canonical, previous, rest.take(i));
        assert(step(replies.take(i + 2)) is Ask);
        assert(rest[i] == replies[i + 2]);
    }
}

/// In a repository where taking the linked content out of the head leaves no projected file, the
/// commit with the updated link files holds no projected file either, however many links were
/// updated. It is a child of the head without the linked content. The result stands next to what it
/// replaces, either with the content of its links brought in.
pub proof fn updated_links_hold_no_projected_file(
    repo: Repository,
    numbers: Numbers,
    args: UpdateArgs,
    replies: Seq<ReplyModel>,
    result: MaterializedLinkUpdateResult,
)
    requires
        repo.sound(),
        repo.answers(numbers, updating_materialized(args), replies),
        update_materialized_step(args, replies) == (Expected::Done { value: Some(result) }),
        holds_no_projected_file(
            repo,
            (repo.tree)(
                (repo.filtered)(
                    (repo.meaning)(built_in(":unlink"@, "Failed to parse :unlink filter"@)),
                    args.head,
                ),
            ),
        ),
    ensures
        holds_no_projected_file(repo, (repo.tree)(result.update.commit_with_updates)),
        ({
            let unlink = (repo.meaning)(built_in(":unlink"@, "Failed to parse :unlink filter"@));
            let link = (repo.meaning)(built_in(":link"@, "Failed to parse :link filter"@));
            let canonical = (repo.filtered)(unlink, args.head);
            let updated = result.update.commit_with_updates;
            &&& (repo.history)(updated) == (repo.history)(canonical).insert(updated)
            &&& result.previous_materialized_commit == (repo.filtered)(link, canonical)
            &&& result.update.filtered_commit == (repo.filtered)(link, updated)
        }),
{
    let unlink = (repo.meaning)(built_in(":unlink"@, "Failed to parse :unlink filter"@));
    let link = (repo.meaning)(built_in(":link"@, "Failed to parse :link filter"@));
    let canonical = (repo.filtered)(unlink, args.head);
    let previous = (repo.filtered)(link, canonical);
    let rest = replies.skip(2);
    let inner = UpdateArgs { head: canonical, ..args };
    materialized_update_starts(repo, numbers, args, replies);
    content_is_taken_out_first(args, canonical, previous, rest);
    assert(inner == UpdateArgs {
        head: canonical,
        updates: args.updates,
        signature: args.signature,
    });
    update_commit_is_child_of_head(repo, numbers, inner, rest, result.update);
    update_overwrites_link_files(repo, numbers, inner, rest);
    assert(updating(inner)(rest.take(rest.len() - 1)) is Ask);
    let old = (repo.tree)(canonical);
    let new = (repo.tree)(result.update.commit_with_updates);
    let files = (repo.files)(old);
    let entries = moved_entries(repo, files, args.updates);
    assert((repo.files)(new) == overwritten(files, entries));
    assert forall|dir: Key, key: Key|
        #![trigger repo.has_link_at(new, dir), (repo.files)(new).contains_key(key)]
        repo.has_link_at(new, dir) && (repo.files)(new).contains_key(key) && leads_through(
            dir,
            key,
        ) implies key == link_key(dir) by {
        old_file_is_there(repo, files, args.updates, key);
        old_file_is_there(repo, files, args.updates, link_key(dir));
        assert(repo.has_link_at(old, dir));
        assert((repo.files)(old).contains_key(key));
    }
}

proof fn old_file_is_there(
    repo: Repository,
    files: Files,
    updates: Seq<(Seq<u8>, ObjectId)>,
    key: Key,
)
    requires
        can_move(repo, files, updates),
        overwritten(files, moved_entries(repo, files, updates)).contains_key(key),
    ensures
        files.contains_key(key),
        (repo.record)(overwritten(files, moved_entries(repo, files, updates))[key].0) is Some
            ==> (repo.record)(files[key].0) is Some,
{
    let entries = moved_entries(repo, files, updates);
    overwritten_at(files, entries, key);
    last_at_is_among(entries, key);
    if let Some(entry) = last_at(entries, key) {
        let i = choose|i: int| 0 <= i < entries.len() && #[trigger] entries[i] == (key, entry);
        let (path, commit) = updates[i];
        assert(link_key(names(updates[i].0)) == key);
    }
}

} // verus!
