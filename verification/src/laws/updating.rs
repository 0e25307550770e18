//! What an update makes of the link files of a tree.

use crate::command::update::updating;
use crate::filter::MetaKey;
use crate::link::{
    find_link, first_link_is_found, LinkFileModel, SignatureModel, UpdateLinksResult,
};
use crate::oid::ObjectId;
use crate::path::{anchor, link_file, link_file_is_in_directory, names, same_place};
use crate::repository::{
    files_are_leaves, link_key, placed, replacing_keeps_other_files, Files, Key, Numbers, Record,
    Repository,
};
use crate::step::{ActionOf, Expected, ReplyModel};
use crate::update::{
    first_missing, missing_link_is_named, repinned, tree_after,
    update_commits_exactly_what_changed, update_links_step, UpdateArgs,
    LINK_FILE_MODE,
};
use vstd::prelude::*;
use vstd::seq_lib::*;

verus! {

/// A file that is put somewhere.
pub type Entry = (Key, (ObjectId, u32));

/// `files` with the entries put in, one after the other.
pub open spec fn overwritten(files: Files, entries: Seq<Entry>) -> Files
    decreases entries.len(),
{
    if entries.len() == 0 {
        files
    } else {
        let (key, entry) = entries.last();
        overwritten(files, entries.drop_last()).insert(key, entry)
    }
}

/// What is put last at `key`.
pub open spec fn last_at(entries: Seq<Entry>, key: Key) -> Option<(ObjectId, u32)>
    decreases entries.len(),
{
    if entries.len() == 0 {
        None
    } else if entries.last().0 == key {
        Some(entries.last().1)
    } else {
        last_at(entries.drop_last(), key)
    }
}

pub(crate) proof fn overwritten_at(files: Files, entries: Seq<Entry>, key: Key)
    ensures
        overwritten(files, entries).contains_key(key) <==> (files.contains_key(key) || last_at(
            entries,
            key,
        ) is Some),
        overwritten(files, entries)[key] == match last_at(entries, key) {
            Some(entry) => entry,
            None => files[key],
        },
    decreases entries.len(),
{
    if entries.len() > 0 {
        overwritten_at(files, entries.drop_last(), key);
    }
}

pub(crate) proof fn last_at_is_among(entries: Seq<Entry>, key: Key)
    ensures
        match last_at(entries, key) {
            Some(entry) => exists|i: int|
                0 <= i < entries.len() && #[trigger] entries[i] == (key, entry),
            None => forall|i: int| 0 <= i < entries.len() ==> (#[trigger] entries[i]).0 != key,
        },
    decreases entries.len(),
{
    if entries.len() > 0 {
        let front = entries.drop_last();
        last_at_is_among(front, key);
        if entries.last().0 == key {
            assert(entries[entries.len() - 1] == (key, entries.last().1));
        } else if let Some(entry) = last_at(front, key) {
            let i = choose|i: int| 0 <= i < front.len() && #[trigger] front[i] == (key, entry);
            assert(entries[i] == (key, entry));
        } else {
            assert forall|i: int| 0 <= i < entries.len() implies (#[trigger] entries[i]).0
                != key by {
                if i < front.len() {
                    assert(entries[i] == front[i]);
                }
            }
        }
    }
}

/// The link file at `path` in `files`, pinned to `commit`.
pub open spec fn pinned_record(
    repo: Repository,
    files: Files,
    path: Seq<u8>,
    commit: ObjectId,
) -> Record {
    (repo.record)(files[link_key(names(path))].0)->0.with(MetaKey::Commit, commit.hex())
}

/// The object that `record` is stored as.
pub open spec fn stored_as(repo: Repository, record: Record) -> ObjectId {
    choose|blob: ObjectId| #[trigger] (repo.stored)(blob) && (repo.record)(blob) == Some(record)
}

/// Whether `record` is stored.
pub open spec fn is_stored(repo: Repository, record: Record) -> bool {
    exists|blob: ObjectId| #[trigger] (repo.stored)(blob) && (repo.record)(blob) == Some(record)
}

/// The link files that an update puts into `files`.
pub open spec fn moved_entries(
    repo: Repository,
    files: Files,
    updates: Seq<(Seq<u8>, ObjectId)>,
) -> Seq<Entry> {
    Seq::new(
        updates.len(),
        |i: int|
            (
                link_key(names(updates[i].0)),
                (
                    stored_as(repo, pinned_record(repo, files, updates[i].0, updates[i].1)),
                    LINK_FILE_MODE,
                ),
            ),
    )
}

/// Whether the link files that an update is for are in `files`, and are stored once they are moved.
pub open spec fn can_move(
    repo: Repository,
    files: Files,
    updates: Seq<(Seq<u8>, ObjectId)>,
) -> bool {
    forall|i: int|
        0 <= i < updates.len() ==> {
            let (path, commit) = #[trigger] updates[i];
            &&& anchor(path) is Free
            &&& files.contains_key(link_key(names(path)))
            &&& (repo.record)(files[link_key(names(path))].0) is Some
            &&& is_stored(repo, pinned_record(repo, files, path, commit))
        }
}

pub(crate) proof fn found_link_is_held(
    repo: Repository,
    numbers: Numbers,
    tree: ObjectId,
    files: Seq<LinkFileModel>,
    path: Seq<u8>,
)
    requires
        repo.lists_links(numbers, tree, files),
        find_link(files, path) is Some,
    ensures
        repo.holds_link(numbers, tree, find_link(files, path)->0),
        same_place(find_link(files, path)->0.path, path),
        anchor(path) is Free,
        repo.has_link_at(tree, names(path)),
{
    first_link_is_found(files, path);
    let link = find_link(files, path)->0;
    let i = choose|i: int|
        0 <= i < files.len() && #[trigger] files[i] == link && same_place(link.path, path)
            && forall|j: int| 0 <= j < i ==> !same_place(#[trigger] files[j].path, path);
    assert(repo.holds_link(numbers, tree, files[i]));
}

pub(crate) proof fn held_link_is_found(
    repo: Repository,
    numbers: Numbers,
    tree: ObjectId,
    files: Seq<LinkFileModel>,
    path: Seq<u8>,
)
    requires
        repo.lists_links(numbers, tree, files),
        repo.has_link_at(tree, names(path)),
        anchor(path) is Free,
    ensures
        find_link(files, path) is Some,
{
    let i = choose|i: int| 0 <= i < files.len() && names((#[trigger] files[i]).path) == names(path);
    assert(repo.holds_link(numbers, tree, files[i]));
    assert(same_place(files[i].path, path));
    first_link_is_found(files, path);
}

/// What an update of links asked for and was given, up to the update number `i`.
spec fn written_up_to(
    repo: Repository,
    args: UpdateArgs,
    replies: Seq<ReplyModel>,
    i: int,
) -> bool {
    let tree = (repo.tree)(args.head);
    let files = (repo.files)(tree);
    &&& can_move(repo, files, args.updates.take(i))
    &&& (repo.files)(tree_after(replies, i)) == overwritten(
        files,
        moved_entries(repo, files, args.updates).take(i),
    )
    &&& files_are_leaves((repo.files)(tree_after(replies, i)))
}

pub(crate) proof fn update_starts(repo: Repository,
    numbers: Numbers, args: UpdateArgs, replies: Seq<ReplyModel>)
    requires
        repo.sound(),
        repo.answers(numbers, updating(args), replies),
        replies.len() >= 2,
        !(update_links_step(args, replies) is Fail),
    ensures
        replies[0] == ReplyModel::Id((repo.tree)(args.head)),
        replies[1] is Links,
        repo.lists_links(numbers, (repo.tree)(args.head), replies[1]->Links_0),
        first_missing(replies[1]->Links_0, args.updates) is None,
{
    let step = updating(args);
    assert(step(replies.take(0)) is Ask);
    assert(step(replies.take(1)) is Ask);
    assert(replies.take(1)[0] == replies[0]);
    if replies.len() > 2 {
        assert(step(replies.take(2)) is Ask);
        assert(replies.take(2)[1] == replies[1]);
    } else {
        assert(replies.take(2) =~= replies);
    }
}

proof fn update_writes(repo: Repository,
    numbers: Numbers, args: UpdateArgs, replies: Seq<ReplyModel>, i: int)
    requires
        repo.sound(),
        repo.answers(numbers, updating(args), replies),
        !(update_links_step(args, replies) is Fail),
        0 <= i <= args.updates.len(),
        replies.len() >= 2 * i + 2,
    ensures
        written_up_to(repo, args, replies, i),
    decreases i,
{
    update_starts(repo, numbers, args, replies);
    let step = updating(args);
    let tree = (repo.tree)(args.head);
    let files = (repo.files)(tree);
    let found = replies[1]->Links_0;
    let entries = moved_entries(repo, files, args.updates);
    if i == 0 {
        assert(entries.take(0) =~= Seq::empty());
        assert(files_are_leaves(files));
    } else {
        update_writes(repo, numbers, args, replies, i - 1);
        let (path, commit) = args.updates[i - 1];
        let key = link_key(names(path));
        missing_link_is_named(found, args.updates);
        assert(find_link(found, args.updates[i - 1].0) is Some);
        found_link_is_held(repo, numbers, tree, found, path);
        let link = find_link(found, path)->0;
        assert((repo.record)(files[key].0) == Some(numbers(link.filter)));

        let asked = replies.take(2 * i);
        assert(step(asked) is Ask);
        assert(asked[1] == replies[1]);
        assert((asked.len() - 2) / 2 == i - 1 && (asked.len() - 2) % 2 == 0);
        let blob = replies[2 * i]->Id_0;
        let record = pinned_record(repo, files, path, commit);
        assert(repo.record_of(numbers, repinned(link, commit)) == record) by {
            reveal_with_fuel(Repository::record_of, 3);
        }
        assert(repo.fits(
            numbers,
            ActionOf::WriteFilter { filter: repinned(link, commit) },
            replies[2 * i],
        ));
        assert((repo.stored)(blob) && (repo.record)(blob) == Some(record));
        assert(is_stored(repo, record));
        let chosen = stored_as(repo, record);
        assert((repo.stored)(chosen) && (repo.record)(chosen) == Some(record));
        assert(blob == chosen);

        let wrote = replies.take(2 * i + 1);
        assert(step(wrote) is Ask);
        assert(wrote[1] == replies[1]);
        assert((wrote.len() - 2) / 2 == i - 1 && (wrote.len() - 2) % 2 == 1);
        assert(wrote.last() == replies[2 * i]);
        assert(tree_after(wrote, i - 1) == tree_after(replies, i - 1));
        let before = tree_after(replies, i - 1);
        assert(repo.fits(
            numbers,
            ActionOf::InsertBlob {
                tree: before,
                path: link_file(path),
                blob,
                mode: LINK_FILE_MODE,
            },
            replies[2 * i + 1],
        ));
        link_file_is_in_directory(path);
        let new = tree_after(replies, i);
        assert((repo.files)(new) == placed((repo.files)(before), key, (blob, LINK_FILE_MODE)));
        overwritten_at(files, entries.take(i - 1), key);
        replacing_keeps_other_files((repo.files)(before), key, (blob, LINK_FILE_MODE));
        assert(entries.take(i).drop_last() =~= entries.take(i - 1));
        assert(entries.take(i).last() == (key, (blob, LINK_FILE_MODE)));
        assert forall|j: int| 0 <= j < i implies {
            let (path, commit) = #[trigger] args.updates.take(i)[j];
            &&& anchor(path) is Free
            &&& files.contains_key(link_key(names(path)))
            &&& (repo.record)(files[link_key(names(path))].0) is Some
            &&& is_stored(repo, pinned_record(repo, files, path, commit))
        } by {
            if j < i - 1 {
                assert(args.updates.take(i)[j] == args.updates.take(i - 1)[j]);
            }
        }
    }
}

/// An update that is not refused puts the moved link files into the files of the head, and leaves
/// the other files alone.
pub proof fn update_overwrites_link_files(
    repo: Repository,
    numbers: Numbers,
    args: UpdateArgs,
    replies: Seq<ReplyModel>,
)
    requires
        repo.sound(),
        repo.answers(numbers, updating(args), replies),
        !(update_links_step(args, replies) is Fail),
        replies.len() >= 2 * args.updates.len() + 2,
    ensures
        ({
            let n = args.updates.len() as int;
            let files = (repo.files)((repo.tree)(args.head));
            &&& replies[0] == ReplyModel::Id((repo.tree)(args.head))
            &&& can_move(repo, files, args.updates)
            &&& (repo.files)(tree_after(replies, n)) == overwritten(
                files,
                moved_entries(repo, files, args.updates),
            )
        }),
{
    let n = args.updates.len() as int;
    let files = (repo.files)((repo.tree)(args.head));
    update_starts(repo, numbers, args, replies);
    update_writes(repo, numbers, args, replies, n);
    assert(args.updates.take(n) =~= args.updates);
    let entries = moved_entries(repo, files, args.updates);
    assert(entries.take(n) =~= entries);
}

proof fn update_is_refused_for_missing_links_only(
    repo: Repository,
    numbers: Numbers,
    args: UpdateArgs,
    replies: Seq<ReplyModel>,
)
    requires
        repo.answers(numbers, updating(args), replies),
        update_links_step(args, replies) is Fail,
    ensures
        replies.len() >= 2,
        repo.lists_links(numbers, (repo.tree)(args.head), replies[1]->Links_0),
        exists|i: int|
            0 <= i < args.updates.len() && find_link(
                replies[1]->Links_0,
                (#[trigger] args.updates[i]).0,
            ) is None,
{
    let step = updating(args);
    let last = replies.len() - 1;
    assert(step(Seq::empty()) is Ask);
    assert(replies.len() > 0);
    assert(step(replies.take(0)) is Ask);
    assert(step(replies.take(last)) is Ask);
    assert(replies.take(last + 1) =~= replies);
    if replies.len() >= 2 {
        assert(step(replies.take(1)) is Ask);
        assert(replies.take(1)[0] == replies[0]);
        missing_link_is_named(replies[1]->Links_0, args.updates);
    }
    if replies.len() > 2 {
        assert(step(replies.take(2)) is Ask);
        assert(replies.take(2)[1] == replies[1]);
        assert(replies.take(last)[1] == replies[1]);
    }
}

proof fn update_is_a_run(repo: Repository,
    numbers: Numbers, args: UpdateArgs, replies: Seq<ReplyModel>)
    requires
        repo.answers(numbers, updating(args), replies),
    ensures
        forall|i: int|
            0 <= i < replies.len() ==> #[trigger] update_links_step(args, replies.take(i)) is Ask,
{
    let step = updating(args);
    assert forall|i: int| 0 <= i < replies.len() implies #[trigger] update_links_step(
        args,
        replies.take(i),
    ) is Ask by {
        assert(step(replies.take(i)) is Ask);
    }
}

/// The commit that an update gives is a child of the head, with the tree of the update.
pub proof fn update_commit_is_child_of_head(
    repo: Repository,
    numbers: Numbers,
    args: UpdateArgs,
    replies: Seq<ReplyModel>,
    result: UpdateLinksResult,
)
    requires
        repo.answers(numbers, updating(args), replies),
        update_links_step(args, replies) == (Expected::Done { value: Some(result) }),
    ensures
        replies.len() == 2 * args.updates.len() + 4,
        (repo.tree)(result.commit_with_updates) == tree_after(
            replies,
            args.updates.len() as int,
        ),
        (repo.history)(result.commit_with_updates) == (repo.history)(args.head).insert(
            result.commit_with_updates,
        ),
{
    let n = args.updates.len() as int;
    let step = updating(args);
    update_is_a_run(repo, numbers, args, replies);
    update_commits_exactly_what_changed(args, replies);
    assert(step(replies.take(2 * n + 2)) is Ask);
}

proof fn moved_link_is_there(
    repo: Repository,
    files: Files,
    updates: Seq<(Seq<u8>, ObjectId)>,
    i: int,
)
    requires
        can_move(repo, files, updates),
        0 <= i < updates.len(),
    ensures
        ({
            let key = link_key(names(updates[i].0));
            let after = overwritten(files, moved_entries(repo, files, updates));
            &&& after.contains_key(key)
            &&& exists|j: int|
                0 <= j < updates.len() && link_key(names((#[trigger] updates[j]).0)) == key
                    && after[key].0 == stored_as(
                    repo,
                    pinned_record(repo, files, updates[j].0, updates[j].1),
                ) && (repo.record)(after[key].0) == Some(
                    pinned_record(repo, files, updates[j].0, updates[j].1),
                )
        }),
{
    let key = link_key(names(updates[i].0));
    let entries = moved_entries(repo, files, updates);
    let after = overwritten(files, entries);
    overwritten_at(files, entries, key);
    last_at_is_among(entries, key);
    assert(entries[i].0 == key);
    let entry = last_at(entries, key)->0;
    let j = choose|j: int| 0 <= j < entries.len() && #[trigger] entries[j] == (key, entry);
    let (path, commit) = updates[j];
    let record = pinned_record(repo, files, path, commit);
    assert(is_stored(repo, record));
    assert((repo.stored)(stored_as(repo, record)));
    assert(link_key(names(updates[j].0)) == key);
}

/// The same update, applied to its own result, changes nothing.
pub proof fn update_of_its_result_changes_nothing(
    repo: Repository,
    numbers: Numbers,
    args: UpdateArgs,
    replies: Seq<ReplyModel>,
    result: UpdateLinksResult,
    signature: SignatureModel,
    other_numbers: Numbers,
    again: Seq<ReplyModel>,
)
    requires
        repo.sound(),
        repo.answers(numbers, updating(args), replies),
        update_links_step(args, replies) == (Expected::Done { value: Some(result) }),
        ({
            let next = UpdateArgs {
                head: result.commit_with_updates,
                updates: args.updates,
                signature,
            };
            &&& repo.answers(other_numbers, updating(next), again)
            &&& !(update_links_step(next, again) is Ask)
        }),
    ensures
        update_links_step(
            UpdateArgs { head: result.commit_with_updates, updates: args.updates, signature },
            again,
        ) == (Expected::Done { value: None::<UpdateLinksResult> }),
{
    let updates = args.updates;
    let n = updates.len() as int;
    let next = UpdateArgs { head: result.commit_with_updates, updates, signature };
    let files = (repo.files)((repo.tree)(args.head));
    let entries = moved_entries(repo, files, updates);
    update_commit_is_child_of_head(repo, numbers, args, replies, result);
    update_overwrites_link_files(repo, numbers, args, replies);
    let tree = (repo.tree)(next.head);
    let after = (repo.files)(tree);
    assert(after == overwritten(files, entries));

    if update_links_step(next, again) is Fail {
        update_is_refused_for_missing_links_only(repo, other_numbers, next, again);
        let found = again[1]->Links_0;
        let i = choose|i: int|
            0 <= i < updates.len() && find_link(found, (#[trigger] updates[i]).0) is None;
        moved_link_is_there(repo, files, updates, i);
        assert(repo.has_link_at(tree, names(updates[i].0)));
        held_link_is_found(repo, other_numbers, tree, found, updates[i].0);
    }
    update_overwrites_link_files(repo, other_numbers, next, again);
    let anew = moved_entries(repo, after, updates);
    assert forall|i: int| 0 <= i < n implies anew[i] == entries[i] by {
        moved_link_is_there(repo, files, updates, i);
        let (path, commit) = updates[i];
        let key = link_key(names(path));
        let j = choose|j: int|
            0 <= j < updates.len() && link_key(names((#[trigger] updates[j]).0)) == key
                && after[key].0 == stored_as(
                repo,
                pinned_record(repo, files, updates[j].0, updates[j].1),
            ) && (repo.record)(after[key].0) == Some(
                pinned_record(repo, files, updates[j].0, updates[j].1),
            );
        let first = (repo.record)(files[key].0)->0;
        assert(pinned_record(repo, after, path, commit).values =~= pinned_record(
            repo,
            files,
            path,
            commit,
        ).values);
    }
    assert(anew =~= entries);
    let twice = overwritten(after, entries);
    assert forall|k: Key|
        #![trigger twice.dom().contains(k)]
        #![trigger twice[k]]
        twice.dom().contains(k) == after.dom().contains(k) && twice[k] == after[k] by {
        overwritten_at(files, entries, k);
        overwritten_at(after, entries, k);
    }
    assert(twice =~= after);
    update_is_a_run(repo, other_numbers, next, again);
    update_commits_exactly_what_changed(next, again);
}

/// Whether no two of `updates` are for the same place.
pub open spec fn at_different_places(updates: Seq<(Seq<u8>, ObjectId)>) -> bool {
    forall|i: int, j: int|
        0 <= i < j < updates.len() ==> !same_place(
            (#[trigger] updates[i]).0,
            (#[trigger] updates[j]).0,
        )
}

pub(crate) proof fn different_places_have_different_keys(
    repo: Repository,
    files: Files,
    updates: Seq<(Seq<u8>, ObjectId)>,
    i: int,
    j: int,
)
    requires
        can_move(repo, files, updates),
        at_different_places(updates),
        0 <= i < updates.len(),
        0 <= j < updates.len(),
        link_key(names(updates[i].0)) == link_key(names(updates[j].0)),
    ensures
        i == j,
{
    let a = names(updates[i].0);
    let b = names(updates[j].0);
    assert(link_key(a).drop_last() =~= a);
    assert(link_key(b).drop_last() =~= b);
    assert(anchor(updates[i].0) is Free && anchor(updates[j].0) is Free);
    assert(same_place(updates[i].0, updates[j].0));
    assert(same_place(updates[j].0, updates[i].0));
}

/// Updates of links at different places give the same tree in any order.
pub proof fn order_of_updates_does_not_matter(
    repo: Repository,
    numbers: Numbers,
    args: UpdateArgs,
    replies: Seq<ReplyModel>,
    result: UpdateLinksResult,
    other: UpdateArgs,
    other_numbers: Numbers,
    others: Seq<ReplyModel>,
)
    requires
        repo.sound(),
        at_different_places(args.updates),
        other.head == args.head,
        other.updates.to_multiset() == args.updates.to_multiset(),
        repo.answers(numbers, updating(args), replies),
        update_links_step(args, replies) == (Expected::Done { value: Some(result) }),
        repo.answers(other_numbers, updating(other), others),
        !(update_links_step(other, others) is Ask),
    ensures
        update_links_step(other, others) matches Expected::Done { value: Some(second) }
            && (repo.tree)(second.commit_with_updates) == (repo.tree)(result.commit_with_updates),
{
    let tree = (repo.tree)(args.head);
    let files = (repo.files)(tree);
    let one = moved_entries(repo, files, args.updates);
    let two = moved_entries(repo, files, other.updates);
    update_commit_is_child_of_head(repo, numbers, args, replies, result);
    update_overwrites_link_files(repo, numbers, args, replies);
    update_is_a_run(repo, numbers, args, replies);
    update_commits_exactly_what_changed(args, replies);
    assert forall|u: (Seq<u8>, ObjectId)| #[trigger]
        args.updates.contains(u) == other.updates.contains(u) by {
        to_multiset_contains(args.updates, u);
        to_multiset_contains(other.updates, u);
    }

    if update_links_step(other, others) is Fail {
        update_is_refused_for_missing_links_only(repo, other_numbers, other, others);
        let found = others[1]->Links_0;
        let i = choose|i: int|
            0 <= i < other.updates.len() && find_link(
                found,
                (#[trigger] other.updates[i]).0,
            ) is None;
        assert(other.updates.contains(other.updates[i]));
        assert(args.updates.contains(other.updates[i]));
        let j = choose|j: int| 0 <= j < args.updates.len() && args.updates[j] == other.updates[i];
        assert(repo.has_link_at(tree, names(args.updates[j].0)));
        held_link_is_found(repo, other_numbers, tree, found, other.updates[i].0);
    }
    update_overwrites_link_files(repo, other_numbers, other, others);

    let first = overwritten(files, one);
    let second = overwritten(files, two);
    assert forall|k: Key|
        #![trigger first.dom().contains(k)]
        #![trigger first[k]]
        first.dom().contains(k) == second.dom().contains(k) && first[k] == second[k] by {
        overwritten_at(files, one, k);
        overwritten_at(files, two, k);
        last_at_is_among(one, k);
        last_at_is_among(two, k);
        if let Some(entry) = last_at(one, k) {
            let i = choose|i: int| 0 <= i < one.len() && #[trigger] one[i] == (k, entry);
            assert(args.updates.contains(args.updates[i]));
            let j = choose|j: int|
                0 <= j < other.updates.len() && other.updates[j] == args.updates[i];
            assert(two[j] == one[i]);
        }
        if let Some(entry) = last_at(two, k) {
            let j = choose|j: int| 0 <= j < two.len() && #[trigger] two[j] == (k, entry);
            assert(other.updates.contains(other.updates[j]));
            assert(args.updates.contains(other.updates[j]));
            let i = choose|i: int|
                0 <= i < args.updates.len() && args.updates[i] == other.updates[j];
            assert(one[i] == two[j]);
            let top = last_at(one, k)->0;
            let l = choose|l: int| 0 <= l < one.len() && #[trigger] one[l] == (k, top);
            different_places_have_different_keys(repo, files, args.updates, i, l);
        }
    }
    assert(first =~= second);
    update_is_a_run(repo, other_numbers, other, others);
    update_commits_exactly_what_changed(other, others);
    if let Expected::Done { value: Some(r) } = update_links_step(other, others) {
        update_commit_is_child_of_head(repo, other_numbers, other, others, r);
    }
}

proof fn last_at_is_last(entries: Seq<Entry>, key: Key)
    requires
        last_at(entries, key) is Some,
    ensures
        exists|i: int|
            0 <= i < entries.len() && #[trigger] entries[i] == (key, last_at(entries, key)->0)
                && forall|j: int| i < j < entries.len() ==> (#[trigger] entries[j]).0 != key,
    decreases entries.len(),
{
    if entries.last().0 == key {
        let i = entries.len() - 1;
        assert(entries[i] == (key, last_at(entries, key)->0));
    } else {
        let front = entries.drop_last();
        last_at_is_last(front, key);
        let i = choose|i: int|
            0 <= i < front.len() && #[trigger] front[i] == (key, last_at(front, key)->0)
                && forall|j: int| i < j < front.len() ==> (#[trigger] front[j]).0 != key;
        assert(entries[i] == front[i]);
        assert forall|j: int| i < j < entries.len() implies (#[trigger] entries[j]).0 != key by {
            if j < front.len() {
                assert(entries[j] == front[j]);
            }
        }
    }
}

/// Whether no later one of `updates` is for the same place as the one with the number `i`.
pub open spec fn is_last_for_its_place(updates: Seq<(Seq<u8>, ObjectId)>, i: int) -> bool {
    forall|j: int|
        i < j < updates.len() ==> !same_place((#[trigger] updates[j]).0, updates[i].0)
}

/// Whether the link files that `updates` are for are stored as an update stores them.
pub open spec fn stored_as_usual(
    repo: Repository,
    files: Files,
    updates: Seq<(Seq<u8>, ObjectId)>,
) -> bool {
    forall|i: int|
        0 <= i < updates.len() ==> {
            let entry = files[link_key(names((#[trigger] updates[i]).0))];
            (repo.stored)(entry.0) && entry.1 == LINK_FILE_MODE
        }
}

/// Whether the last commit that `updates` give for each place is the one that is recorded there.
pub open spec fn pins_stand(
    repo: Repository,
    files: Files,
    updates: Seq<(Seq<u8>, ObjectId)>,
) -> bool {
    forall|i: int|
        0 <= i < updates.len() && is_last_for_its_place(updates, i) ==> (repo.record)(
            files[link_key(names((#[trigger] updates[i]).0))].0,
        )->0.value(MetaKey::Commit) == Some(updates[i].1.hex())
}

/// An update of link files that are stored as usual gives no commit exactly where the last commit
/// that it is given for each place is the one that is recorded there.
pub proof fn update_is_none_exactly_where_pins_stand(
    repo: Repository,
    numbers: Numbers,
    args: UpdateArgs,
    replies: Seq<ReplyModel>,
)
    requires
        repo.sound(),
        repo.answers(numbers, updating(args), replies),
        update_links_step(args, replies) is Done,
        stored_as_usual(repo, (repo.files)((repo.tree)(args.head)), args.updates),
    ensures
        update_links_step(args, replies)->value is None <==> pins_stand(
            repo,
            (repo.files)((repo.tree)(args.head)),
            args.updates,
        ),
{
    let updates = args.updates;
    let files = (repo.files)((repo.tree)(args.head));
    let entries = moved_entries(repo, files, updates);
    update_is_a_run(repo, numbers, args, replies);
    update_commits_exactly_what_changed(args, replies);
    update_overwrites_link_files(repo, numbers, args, replies);
    let after = overwritten(files, entries);
    if update_links_step(args, replies)->value is None {
        assert forall|i: int| 0 <= i < updates.len() && is_last_for_its_place(updates, i) implies (
        repo.record)(files[link_key(names((#[trigger] updates[i]).0))].0)->0.value(MetaKey::Commit)
            == Some(updates[i].1.hex()) by {
            let (path, commit) = updates[i];
            let key = link_key(names(path));
            assert(entries[i].0 == key);
            last_at_is_among(entries, key);
            last_at_is_last(entries, key);
            let j = choose|j: int|
                0 <= j < entries.len() && #[trigger] entries[j] == (
                    key,
                    last_at(entries, key)->0,
                ) && forall|l: int| j < l < entries.len() ==> (#[trigger] entries[l]).0 != key;
            assert(i <= j);
            if i < j {
                assert(link_key(names(updates[j].0)).drop_last() =~= names(updates[j].0));
                assert(key.drop_last() =~= names(path));
                assert(anchor(updates[i].0) is Free && anchor(updates[j].0) is Free);
                assert(same_place(updates[j].0, updates[i].0));
            }
            overwritten_at(files, entries, key);
            let record = pinned_record(repo, files, path, commit);
            assert(is_stored(repo, record));
            assert((repo.stored)(stored_as(repo, record)));
            assert((repo.record)(files[key].0) == Some(record));
        }
    }
    if pins_stand(repo, files, updates) {
        assert forall|k: Key|
            #![trigger after.dom().contains(k)]
            #![trigger after[k]]
            after.dom().contains(k) == files.dom().contains(k) && after[k] == files[k] by {
            overwritten_at(files, entries, k);
            if last_at(entries, k) is Some {
                last_at_is_last(entries, k);
                let i = choose|i: int|
                    0 <= i < entries.len() && #[trigger] entries[i] == (k, last_at(entries, k)->0)
                        && forall|l: int| i < l < entries.len() ==> (#[trigger] entries[l]).0 != k;
                let (path, commit) = updates[i];
                assert forall|j: int| i < j < updates.len() implies !same_place(
                    (#[trigger] updates[j]).0,
                    updates[i].0,
                ) by {
                    assert(entries[j].0 != k);
                }
                assert(is_last_for_its_place(updates, i));
                let old = (repo.record)(files[k].0)->0;
                let record = pinned_record(repo, files, path, commit);
                assert(old.value(MetaKey::Commit) == Some(commit.hex()));
                assert(record.values =~= old.values);
                assert(is_stored(repo, record));
                assert((repo.stored)(stored_as(repo, record)) && (repo.record)(
                    stored_as(repo, record),
                ) == Some(record));
                assert((repo.stored)(files[k].0));
            }
        }
        assert(after =~= files);
    }
}

} // verus!
