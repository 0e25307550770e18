//! What a collection finds in the history of a repository.

use crate::collect::{
    collect_step, collected_are_those_named, link_files_filter, named_at, ref_of,
};
use crate::command::update::updating;
use crate::filter::MetaKey;
use crate::laws::updating::{
    at_different_places, different_places_have_different_keys, found_link_is_held,
    is_stored, last_at, last_at_is_among, moved_entries, overwritten_at,
    pinned_record, stored_as, update_commit_is_child_of_head, update_overwrites_link_files,
    update_starts,
};
use crate::link::{find_link, LinkFileModel, LinkRefModel, UpdateLinksResult};
use crate::oid::ObjectId;
use crate::path::names;
use crate::repository::{link_key, Key, Numbers, Repository};
use crate::step::{Expected, ReplyModel};
use crate::turn::Operation;
use crate::update::{missing_link_is_named, tree_after, update_links_step, UpdateArgs};
use vstd::prelude::*;

verus! {

/// The collection of linked commits, as an operation.
pub open spec fn gathering(commit: ObjectId) -> Operation<Seq<LinkRefModel>> {
    |replies: Seq<ReplyModel>| collect_step(commit, replies)
}

/// Whether the link file of the directory `dir` names the linked commit `found`.
pub open spec fn file_names(
    repo: Repository,
    tree: ObjectId,
    dir: Key,
    found: LinkRefModel,
) -> bool {
    let record = (repo.record)((repo.files)(tree)[link_key(dir)].0)->0;
    &&& repo.has_link_at(tree, dir)
    &&& record.value(MetaKey::Remote) == Some(found.remote)
    &&& record.value(MetaKey::Commit) == Some(found.commit)
}

/// Whether some link file of the tree names the linked commit `found`.
pub open spec fn tree_names(repo: Repository, tree: ObjectId, found: LinkRefModel) -> bool {
    exists|dir: Key| #[trigger] file_names(repo, tree, dir, found)
}

/// Whether some link file of some commit that is reachable from `commit` names `found`.
pub open spec fn history_names(repo: Repository, commit: ObjectId, found: LinkRefModel) -> bool {
    exists|c: ObjectId| #[trigger]
        (repo.history)(commit).contains(c) && tree_names(repo, (repo.tree)(c), found)
}

/// The commit with link files alone.
pub open spec fn kept_links(repo: Repository, commit: ObjectId) -> ObjectId {
    (repo.filtered)((repo.meaning)(link_files_filter()), commit)
}

/// Whether the filter that keeps link files alone keeps it that the history of `commit` names
/// `found`, or does not.
pub open spec fn filter_keeps_link(
    repo: Repository,
    commit: ObjectId,
    found: LinkRefModel,
) -> bool {
    let kept = kept_links(repo, commit);
    history_names(repo, commit, found) == (!kept.is_zero() && history_names(repo, kept, found))
}

/// Whether the filter that keeps link files alone loses none of what they name in the history of a
/// commit, and adds nothing.
pub open spec fn filter_keeps_links(repo: Repository) -> bool {
    forall|commit: ObjectId, found: LinkRefModel| #[trigger]
        filter_keeps_link(repo, commit, found)
}

proof fn collection_looks_everywhere(
    repo: Repository,
    numbers: Numbers,
    commit: ObjectId,
    replies: Seq<ReplyModel>,
    j: int,
)
    requires
        repo.answers(numbers, gathering(commit), replies),
        collect_step(commit, replies) is Done,
        replies.len() >= 2,
        0 <= j,
        2 * j + 3 < replies.len(),
    ensures
        replies[1] is Ids,
        j < replies[1]->Ids_0.len(),
        replies[2 * j + 3] is Links,
        repo.lists_links(numbers, (repo.tree)(replies[1]->Ids_0[j]), replies[2 * j + 3]->Links_0),
{
    let step = gathering(commit);
    assert(step(replies.take(1)) is Ask);
    assert(replies.take(1)[0] == replies[0]);
    let before = replies.take(2 * j + 2);
    assert(step(before) is Ask);
    assert(before[1] == replies[1]);
    assert((before.len() - 2) / 2 == j && (before.len() - 2) % 2 == 0);
    let within = replies.take(2 * j + 3);
    assert(step(within) is Ask);
    assert((within.len() - 2) % 2 == 1);
    assert(within.last() == replies[2 * j + 2]);
}

/// What is collected from a commit is what the link files name in the history of the commit with
/// link files alone.
pub proof fn collected_is_what_kept_history_names(
    repo: Repository,
    numbers: Numbers,
    commit: ObjectId,
    replies: Seq<ReplyModel>,
    refs: Seq<LinkRefModel>,
    found: LinkRefModel,
)
    requires
        repo.answers(numbers, gathering(commit), replies),
        collect_step(commit, replies) == (Expected::Done { value: refs }),
    ensures
        refs.contains(found) <==> (!kept_links(repo, commit).is_zero() && history_names(
            repo,
            kept_links(repo, commit),
            found,
        )),
{
    let step = gathering(commit);
    let kept = kept_links(repo, commit);
    assert(replies.len() > 0);
    assert(step(replies.take(0)) is Ask);
    assert(replies[0] == ReplyModel::Id(kept));
    if replies.len() == 1 {
        assert(replies.last() == replies[0]);
    } else {
        assert(step(replies.take(1)) is Ask);
        assert(replies.take(1)[0] == replies[0]);
        assert(!kept.is_zero());
        let commits = replies[1]->Ids_0;
        collected_are_those_named(commit, replies, found);
        if refs.contains(found) {
            let (j, f) = choose|j: int, f: int|
                0 <= j < (replies.len() - 2) / 2 && #[trigger] named_at(replies, j, f, found);
            collection_looks_everywhere(repo, numbers, commit, replies, j);
            let tree = (repo.tree)(commits[j]);
            let file = replies[2 * j + 3]->Links_0[f];
            assert(repo.holds_link(numbers, tree, file));
            assert(file_names(repo, tree, names(file.path), found));
            assert(commits.contains(commits[j]));
            assert((repo.history)(kept).contains(commits[j]));
        }
        if history_names(repo, kept, found) {
            let c = choose|c: ObjectId| #[trigger]
                (repo.history)(kept).contains(c) && tree_names(repo, (repo.tree)(c), found);
            let tree = (repo.tree)(c);
            let dir = choose|dir: Key| #[trigger] file_names(repo, tree, dir, found);
            assert(commits.contains(c));
            let j = choose|j: int| 0 <= j < commits.len() && commits[j] == c;
            collection_looks_everywhere(repo, numbers, commit, replies, j);
            let files = replies[2 * j + 3]->Links_0;
            assert(repo.has_link_at(tree, dir));
            let f = choose|f: int| 0 <= f < files.len() && names((#[trigger] files[f]).path) == dir;
            assert(repo.holds_link(numbers, tree, files[f]));
            assert(ref_of(files[f]) == Some(found));
            assert(named_at(replies, j, f, found));
        }
    }
}

/// What is collected from a commit is what the link files of its history name.
pub proof fn collected_is_what_history_names(
    repo: Repository,
    numbers: Numbers,
    commit: ObjectId,
    replies: Seq<ReplyModel>,
    refs: Seq<LinkRefModel>,
    found: LinkRefModel,
)
    requires
        filter_keeps_links(repo),
        repo.answers(numbers, gathering(commit), replies),
        collect_step(commit, replies) == (Expected::Done { value: refs }),
    ensures
        refs.contains(found) <==> history_names(repo, commit, found),
{
    collected_is_what_kept_history_names(repo, numbers, commit, replies, refs, found);
    assert(filter_keeps_link(repo, commit, found));
}

/// Where the filter that keeps link files alone makes an ancestor of an ancestor, what is collected
/// from the ancestor is among what is collected from its descendant.
pub proof fn kept_ancestors_are_collected(
    repo: Repository,
    numbers: Numbers,
    ancestor: ObjectId,
    replies: Seq<ReplyModel>,
    refs: Seq<LinkRefModel>,
    descendant: ObjectId,
    other_numbers: Numbers,
    others: Seq<ReplyModel>,
    more: Seq<LinkRefModel>,
)
    requires
        repo.sound(),
        !kept_links(repo, ancestor).is_zero() ==> !kept_links(repo, descendant).is_zero() && (
        repo.history)(kept_links(repo, descendant)).contains(kept_links(repo, ancestor)),
        repo.answers(numbers, gathering(ancestor), replies),
        collect_step(ancestor, replies) == (Expected::Done { value: refs }),
        repo.answers(other_numbers, gathering(descendant), others),
        collect_step(descendant, others) == (Expected::Done { value: more }),
    ensures
        forall|found: LinkRefModel| refs.contains(found) ==> #[trigger] more.contains(found),
{
    let old = kept_links(repo, ancestor);
    let new = kept_links(repo, descendant);
    assert forall|found: LinkRefModel| refs.contains(found) implies #[trigger] more.contains(
        found,
    ) by {
        collected_is_what_kept_history_names(repo, numbers, ancestor, replies, refs, found);
        collected_is_what_kept_history_names(
            repo,
            other_numbers,
            descendant,
            others,
            more,
            found,
        );
        let c = choose|c: ObjectId| #[trigger]
            (repo.history)(old).contains(c) && tree_names(repo, (repo.tree)(c), found);
        assert((repo.history)(old).subset_of((repo.history)(new)));
        assert((repo.history)(new).contains(c));
    }
}

/// What is collected from an ancestor is among what is collected from its descendant.
pub proof fn descendants_name_what_ancestors_name(
    repo: Repository,
    numbers: Numbers,
    ancestor: ObjectId,
    replies: Seq<ReplyModel>,
    refs: Seq<LinkRefModel>,
    descendant: ObjectId,
    other_numbers: Numbers,
    others: Seq<ReplyModel>,
    more: Seq<LinkRefModel>,
)
    requires
        repo.sound(),
        filter_keeps_links(repo),
        (repo.history)(descendant).contains(ancestor),
        repo.answers(numbers, gathering(ancestor), replies),
        collect_step(ancestor, replies) == (Expected::Done { value: refs }),
        repo.answers(other_numbers, gathering(descendant), others),
        collect_step(descendant, others) == (Expected::Done { value: more }),
    ensures
        forall|found: LinkRefModel| refs.contains(found) ==> #[trigger] more.contains(found),
{
    assert forall|found: LinkRefModel| refs.contains(found) implies #[trigger] more.contains(
        found,
    ) by {
        collected_is_what_history_names(repo, numbers, ancestor, replies, refs, found);
        collected_is_what_history_names(repo, other_numbers, descendant, others, more, found);
        let c = choose|c: ObjectId| #[trigger]
            (repo.history)(ancestor).contains(c) && tree_names(repo, (repo.tree)(c), found);
        assert((repo.history)(ancestor).subset_of((repo.history)(descendant)));
        assert((repo.history)(descendant).contains(c));
    }
}

/// Whether one of `updates` moves a link of `files` so that it names `found`.
pub open spec fn moved_to(
    files: Seq<LinkFileModel>,
    updates: Seq<(Seq<u8>, ObjectId)>,
    found: LinkRefModel,
) -> bool {
    exists|i: int|
        0 <= i < updates.len() && find_link(files, (#[trigger] updates[i]).0)->0.remote == Some(
            found.remote,
        ) && updates[i].1.hex() == found.commit
}

proof fn moved_tree_names(
    repo: Repository,
    numbers: Numbers,
    args: UpdateArgs,
    replies: Seq<ReplyModel>,
    found: LinkRefModel,
)
    requires
        repo.sound(),
        at_different_places(args.updates),
        repo.answers(numbers, updating(args), replies),
        !(update_links_step(args, replies) is Fail),
        replies.len() >= 2 * args.updates.len() + 2,
    ensures
        ({
            let tree = tree_after(replies, args.updates.len() as int);
            let moved = moved_to(replies[1]->Links_0, args.updates, found);
            &&& moved ==> tree_names(repo, tree, found)
            &&& tree_names(repo, tree, found) ==> moved || tree_names(
                repo,
                (repo.tree)(args.head),
                found,
            )
        }),
{
    let updates = args.updates;
    let head_tree = (repo.tree)(args.head);
    let tree = tree_after(replies, updates.len() as int);
    let links = replies[1]->Links_0;
    let files = (repo.files)(head_tree);
    let after = (repo.files)(tree);
    let entries = moved_entries(repo, files, updates);
    update_starts(repo, numbers, args, replies);
    update_overwrites_link_files(repo, numbers, args, replies);
    missing_link_is_named(links, updates);
    if moved_to(links, updates, found) {
        let i = choose|i: int|
            0 <= i < updates.len() && find_link(links, (#[trigger] updates[i]).0)->0.remote
                == Some(found.remote) && updates[i].1.hex() == found.commit;
        let (path, commit) = updates[i];
        let key = link_key(names(path));
        found_link_is_held(repo, numbers, head_tree, links, path);
        overwritten_at(files, entries, key);
        last_at_is_among(entries, key);
        assert(entries[i].0 == key);
        let entry = last_at(entries, key)->0;
        let j = choose|j: int| 0 <= j < entries.len() && #[trigger] entries[j] == (key, entry);
        different_places_have_different_keys(repo, files, updates, i, j);
        let record = pinned_record(repo, files, path, commit);
        assert(is_stored(repo, record));
        assert((repo.stored)(stored_as(repo, record)));
        assert(file_names(repo, tree, names(path), found));
    }
    if tree_names(repo, tree, found) {
        let dir = choose|dir: Key| #[trigger] file_names(repo, tree, dir, found);
        let key = link_key(dir);
        overwritten_at(files, entries, key);
        last_at_is_among(entries, key);
        if let Some(entry) = last_at(entries, key) {
            let j = choose|j: int| 0 <= j < entries.len() && #[trigger] entries[j] == (key, entry);
            let (path, commit) = updates[j];
            assert(find_link(links, updates[j].0) is Some);
            found_link_is_held(repo, numbers, head_tree, links, path);
            let record = pinned_record(repo, files, path, commit);
            assert(is_stored(repo, record));
            assert((repo.stored)(stored_as(repo, record)));
            assert(moved_to(links, updates, found));
        } else {
            assert(file_names(repo, head_tree, dir, found));
        }
    }
}

/// What is collected after an update of links at different places is what was collected before it,
/// and the commits that the links were moved to, where they have a remote.
pub proof fn update_adds_the_new_pins(
    repo: Repository,
    numbers: Numbers,
    args: UpdateArgs,
    replies: Seq<ReplyModel>,
    result: UpdateLinksResult,
    numbers_before: Numbers,
    before: Seq<ReplyModel>,
    refs: Seq<LinkRefModel>,
    numbers_after: Numbers,
    after: Seq<ReplyModel>,
    more: Seq<LinkRefModel>,
    found: LinkRefModel,
)
    requires
        repo.sound(),
        filter_keeps_links(repo),
        at_different_places(args.updates),
        repo.answers(numbers, updating(args), replies),
        update_links_step(args, replies) == (Expected::Done { value: Some(result) }),
        repo.answers(numbers_before, gathering(args.head), before),
        collect_step(args.head, before) == (Expected::Done { value: refs }),
        repo.answers(numbers_after, gathering(result.commit_with_updates), after),
        collect_step(result.commit_with_updates, after) == (Expected::Done { value: more }),
    ensures
        repo.lists_links(numbers, (repo.tree)(args.head), replies[1]->Links_0),
        more.contains(found) <==> (refs.contains(found) || moved_to(
            replies[1]->Links_0,
            args.updates,
            found,
        )),
{
    let new = result.commit_with_updates;
    update_commit_is_child_of_head(repo, numbers, args, replies, result);
    update_starts(repo, numbers, args, replies);
    collected_is_what_history_names(repo, numbers_before, args.head, before, refs, found);
    collected_is_what_history_names(repo, numbers_after, new, after, more, found);
    moved_tree_names(repo, numbers, args, replies, found);
    assert((repo.history)(args.head).contains(args.head));
    assert((repo.history)(new).contains(new));
    if history_names(repo, args.head, found) {
        let c = choose|c: ObjectId| #[trigger]
            (repo.history)(args.head).contains(c) && tree_names(repo, (repo.tree)(c), found);
        assert((repo.history)(new).contains(c));
    }
    if history_names(repo, new, found) {
        let c = choose|c: ObjectId| #[trigger]
            (repo.history)(new).contains(c) && tree_names(repo, (repo.tree)(c), found);
        assert(c == new || (repo.history)(args.head).contains(c));
    }
}

} // verus!
