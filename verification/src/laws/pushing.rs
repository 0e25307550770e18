//! What a push takes from a tree, and what the linked repository gives back of it.

use crate::export::normalized;
use crate::filter::{FilterModel, FilterOf};
use crate::laws::adding::{pushed_link_is_held, pushing};
use crate::link::{find_link, PreparedLinkPushModel};
use crate::oid::ObjectId;
use crate::path::{names, outer_slashes_add_no_names, LINK_FILE};
use crate::push::{local_filter, pinned, push_step, source_filter};
use crate::repository::{leads_through, link_key, Files, Key, Numbers, Repository};
use crate::step::{Expected, ReplyModel};
use vstd::prelude::*;
use vstd::utf8::*;

verus! {

/// The files of the directory `dir`, without its link file.
pub open spec fn content_at(files: Files, dir: Key) -> Files {
    Map::new(
        |k: Key| files.contains_key(k) && leads_through(dir, k) && k != link_key(dir),
        |k: Key| files[k],
    )
}

/// The files that a filter makes of a commit.
pub open spec fn made_files(repo: Repository, filter: int, commit: ObjectId) -> Files {
    (repo.files)((repo.tree)((repo.filtered)(filter, commit)))
}

/// `files`, all moved into the directory `dir`.
pub open spec fn moved_into(dir: Key, files: Files) -> Files {
    Map::new(
        |k: Key| leads_through(dir, k) && files.contains_key(k.skip(dir.len() as int)),
        |k: Key| files[k.skip(dir.len() as int)],
    )
}

/// The files of the directory `dir`, taken out of it.
pub open spec fn taken_out(dir: Key, files: Files) -> Files {
    Map::new(|k: Key| files.contains_key(dir + k), |k: Key| files[dir + k])
}

/// The files of `files` that are not among `others`.
pub open spec fn without_files(files: Files, others: Files) -> Files {
    Map::new(|k: Key| files.contains_key(k) && !others.contains_key(k), |k: Key| files[k])
}

/// The file `name` of `files` alone.
pub open spec fn only_file(files: Files, name: Seq<char>) -> Files {
    Map::new(
        |k: Key| files.contains_key(k) && k == seq![encode_utf8(name)],
        |k: Key| files[k],
    )
}

/// What a filter that picks and moves files makes of `files`. Of other filters nothing is said.
pub open spec fn picked(filter: FilterModel, files: Files) -> Option<Files>
    decreases filter,
{
    match filter {
        FilterOf::Identity => Some(files),
        FilterOf::Subdir { base, path } => match picked(*base, files) {
            Some(made) => Some(taken_out(names(path), made)),
            None => None,
        },
        FilterOf::File { base, name } => match picked(*base, files) {
            Some(made) => Some(only_file(made, name)),
            None => None,
        },
        FilterOf::Prefix { base, path } => match picked(*base, files) {
            Some(made) => Some(moved_into(names(path), made)),
            None => None,
        },
        FilterOf::Exclude { base, other } => match picked(*base, files) {
            Some(made) => match picked(*other, made) {
                Some(others) => Some(without_files(made, others)),
                None => None,
            },
            None => None,
        },
        _ => None,
    }
}

/// Whether a filter that picks and moves files makes of `commit` what it is said to make.
pub open spec fn picks_files(repo: Repository, filter: FilterModel, commit: ObjectId) -> bool {
    picked(filter, (repo.files)((repo.tree)(commit))) == Some(
        made_files(repo, (repo.meaning)(filter), commit),
    )
}

/// The filter that isolates the content at a path keeps just that, without the link file.
pub proof fn content_is_isolated(files: Files, path: Seq<u8>)
    requires
        normalized(path) is Ok,
    ensures
        picked(local_filter(normalized(path)->Ok_0), files) == Some(
            content_at(files, names(path)),
        ),
{
    reveal_with_fuel(picked, 5);
    let name = normalized(path)->Ok_0;
    let dir = names(path);
    decode_utf8_encode_utf8(path);
    outer_slashes_add_no_names(decode_utf8(path));
    assert(names(encode_utf8(name)) == dir);
    let inside = taken_out(dir, files);
    let kept = without_files(inside, only_file(inside, LINK_FILE@));
    let made = moved_into(dir, kept);
    assert forall|k: Key|
        #![trigger made.dom().contains(k)]
        #![trigger made[k]]
        made.dom().contains(k) == content_at(files, dir).dom().contains(k) && (
        made.dom().contains(k) ==> made[k] == content_at(files, dir)[k]) by {
        if leads_through(dir, k) {
            let rest = k.skip(dir.len() as int);
            assert(dir + rest =~= k);
            assert(rest == seq![encode_utf8(LINK_FILE@)] <==> k == link_key(dir)) by {
                assert(dir + seq![encode_utf8(LINK_FILE@)] =~= link_key(dir));
                assert(link_key(dir).skip(dir.len() as int) =~= seq![encode_utf8(LINK_FILE@)]);
            }
        }
    }
    assert(made =~= content_at(files, dir));
}

/// Whether a filter can be reversed: of anything that it can make, the reversal gives a commit that
/// it makes that of again.
pub open spec fn can_be_reversed(repo: Repository, filter: int) -> bool {
    forall|original: ObjectId, changed: ObjectId, source: ObjectId|
        #![trigger (repo.reversed)(
            filter,
            original,
            (repo.filtered)(filter, original),
            changed,
        ), (repo.filtered)(filter, source)]
        (repo.files)((repo.tree)(changed)) == made_files(repo, filter, source) ==> made_files(
            repo,
            filter,
            (repo.reversed)(filter, original, (repo.filtered)(filter, original), changed),
        ) == (repo.files)((repo.tree)(changed))
}

/// The filter of the link in the directory `dir` of a tree, without its metadata.
pub open spec fn link_filter_at(repo: Repository, tree: ObjectId, dir: Key) -> int {
    (repo.record)((repo.files)(tree)[link_key(dir)].0)->0.filter
}

/// The filter of a link, applied to the commit that a push exports, gives back the content at the
/// path of the link without the link file, provided that the filter can be reversed and that the
/// content is something that it makes, of the commit `source`.
pub proof fn exported_commit_gives_content_back(
    repo: Repository,
    numbers: Numbers,
    head: ObjectId,
    path: Seq<u8>,
    replies: Seq<ReplyModel>,
    push: PreparedLinkPushModel,
    source: ObjectId,
)
    requires
        repo.answers(numbers, pushing(head, path), replies),
        push_step(head, path, replies) == (Expected::Done { value: push }),
        picks_files(repo, local_filter(normalized(path)->Ok_0), head),
        can_be_reversed(repo, link_filter_at(repo, (repo.tree)(head), names(path))),
        made_files(repo, link_filter_at(repo, (repo.tree)(head), names(path)), source)
            == content_at((repo.files)((repo.tree)(head)), names(path)),
    ensures
        made_files(
            repo,
            link_filter_at(repo, (repo.tree)(head), names(path)),
            push.exported_commit,
        ) == content_at((repo.files)((repo.tree)(head)), names(path)),
{
    let step = pushing(head, path);
    let link = find_link(replies[1]->Links_0, encode_utf8(normalized(path)->Ok_0))->0;
    let filter = link_filter_at(repo, (repo.tree)(head), names(path));
    pushed_link_is_held(repo, numbers, head, path, replies, push);
    assert(step(replies.take(2)) is Ask);
    assert(replies.take(2)[1] == replies[1]);
    assert(step(replies.take(3)) is Ask);
    assert(replies.take(3)[1] == replies[1]);
    assert(step(replies.take(4)) is Ask);
    let asked = replies.take(4);
    assert(asked[1] == replies[1] && asked[2] == replies[2] && asked[3] == replies[3]);
    let pin = pinned(link)->Ok_0.commit;
    let local = (repo.filtered)((repo.meaning)(local_filter(normalized(path)->Ok_0)), head);
    assert(repo.filter_of(numbers, source_filter(link)) == filter) by {
        reveal_with_fuel(Repository::record_of, 2);
    }
    assert(replies[2] == ReplyModel::Id((repo.filtered)(filter, pin)));
    assert(replies[3] == ReplyModel::Id(local));
    assert(replies[4] == ReplyModel::Id(
        (repo.reversed)(filter, pin, (repo.filtered)(filter, pin), local),
    ));
    content_is_isolated((repo.files)((repo.tree)(head)), path);
    assert((repo.files)((repo.tree)(local)) == made_files(repo, filter, source));
}

/// A push of a link that brings in the whole linked repository exports the content at the path of
/// the link, taken out of its directory, and not the link file.
pub proof fn whole_repository_is_exported_as_it_is(
    repo: Repository,
    numbers: Numbers,
    head: ObjectId,
    path: Seq<u8>,
    replies: Seq<ReplyModel>,
    push: PreparedLinkPushModel,
    source: ObjectId,
)
    requires
        repo.answers(numbers, pushing(head, path), replies),
        push_step(head, path, replies) == (Expected::Done { value: push }),
        picks_files(repo, local_filter(normalized(path)->Ok_0), head),
        can_be_reversed(repo, link_filter_at(repo, (repo.tree)(head), names(path))),
        made_files(repo, link_filter_at(repo, (repo.tree)(head), names(path)), source)
            == content_at((repo.files)((repo.tree)(head)), names(path)),
        made_files(
            repo,
            link_filter_at(repo, (repo.tree)(head), names(path)),
            push.exported_commit,
        ) == moved_into(names(path), (repo.files)((repo.tree)(push.exported_commit))),
    ensures
        ({
            let dir = names(path);
            let local = content_at((repo.files)((repo.tree)(head)), dir);
            let exported = (repo.files)((repo.tree)(push.exported_commit));
            forall|k: Key|
                #![trigger exported.contains_key(k)]
                #![trigger exported[k]]
                exported.contains_key(k) == local.contains_key(dir + k) && (
                exported.contains_key(k) ==> exported[k] == local[dir + k])
        }),
{
    let dir = names(path);
    let local = content_at((repo.files)((repo.tree)(head)), dir);
    let exported = (repo.files)((repo.tree)(push.exported_commit));
    exported_commit_gives_content_back(repo, numbers, head, path, replies, push, source);
    assert forall|k: Key|
        #![trigger exported.contains_key(k)]
        #![trigger exported[k]]
        exported.contains_key(k) == local.contains_key(dir + k) && (exported.contains_key(k)
            ==> exported[k] == local[dir + k]) by {
        assert((dir + k).take(dir.len() as int) =~= dir);
        assert((dir + k).skip(dir.len() as int) =~= k);
        assert(moved_into(dir, exported).contains_key(dir + k) == local.contains_key(dir + k));
    }
}

} // verus!
