//! What an addition makes of a tree, and what a push reads of it.

use crate::add::{
    commit_add_step, new_link, new_link_reads_back, prepare_add_step, AddArgs, CommitArgs,
    PreparedLinkAddModel,
};
use crate::command::add::{adding, committing};
use crate::export::normalized;
use crate::filter::MetaKey;
use crate::laws::updating::{found_link_is_held, is_stored, stored_as};
use crate::link::{find_link, PreparedLinkPushModel, SignatureModel};
use crate::oid::ObjectId;
use crate::path::{
    anchor, link_file, link_file_is_in_directory, names, outer_slashes_add_no_names,
    root_is_stripped, without_root,
};
use crate::push::push_step;
use crate::repository::{link_key, placed, placing_again_replaces, Numbers, Repository};
use crate::step::{ActionOf, Expected, ReplyModel};
use crate::turn::Operation;
use crate::update::LINK_FILE_MODE;
use vstd::prelude::*;
use vstd::utf8::*;

verus! {

/// The preparation of a push, as an operation.
pub open spec fn pushing(head: ObjectId, path: Seq<u8>) -> Operation<PreparedLinkPushModel> {
    |replies: Seq<ReplyModel>| push_step(head, path, replies)
}

/// An addition puts the record of the new link into the directory of the link.
pub proof fn addition_places_record(
    repo: Repository,
    numbers: Numbers,
    args: AddArgs,
    replies: Seq<ReplyModel>,
    added: PreparedLinkAddModel,
)
    requires
        repo.sound(),
        repo.answers(numbers, adding(args), replies),
        prepare_add_step(args, replies) == (Expected::Done { value: added }),
    ensures
        is_stored(repo, repo.record_of(numbers, new_link(args))),
        (repo.files)(added.tree_oid) == placed(
            (repo.files)(args.head_tree),
            link_key(names(args.path)),
            (stored_as(repo, repo.record_of(numbers, new_link(args))), LINK_FILE_MODE),
        ),
{
    let step = adding(args);
    let record = repo.record_of(numbers, new_link(args));
    assert(replies.len() > 0);
    assert(step(replies.take(0)) is Ask);
    assert(replies.len() >= 2);
    assert(step(replies.take(1)) is Ask);
    assert(replies.take(1).last() == replies[0]);
    if replies.len() > 2 {
        assert(step(replies.take(2)) is Ask);
    }
    assert(replies.last() == replies[1]);
    let blob = replies[0]->Id_0;
    assert((repo.stored)(blob) && (repo.record)(blob) == Some(record));
    assert((repo.stored)(stored_as(repo, record)));
    assert(blob == stored_as(repo, record));
    link_file_is_in_directory(without_root(args.path));
    if anchor(args.path) is Root {
        root_is_stripped(args.path);
    }
    assert(names(link_file(without_root(args.path))) == link_key(names(args.path)));
}

proof fn new_link_has_no_numbers(repo: Repository, a: Numbers, b: Numbers, args: AddArgs)
    ensures
        repo.record_of(a, new_link(args)) == repo.record_of(b, new_link(args)),
{
    reveal_with_fuel(Repository::record_of, 8);
}

/// Adding a link again at a path leaves nothing of what the first addition recorded there: the tree
/// is the one that the second addition alone makes.
pub proof fn adding_again_replaces_the_record(
    repo: Repository,
    numbers: Numbers,
    first: AddArgs,
    replies: Seq<ReplyModel>,
    added: PreparedLinkAddModel,
    second: AddArgs,
    numbers_again: Numbers,
    again: Seq<ReplyModel>,
    added_again: PreparedLinkAddModel,
    numbers_alone: Numbers,
    alone: Seq<ReplyModel>,
    added_alone: PreparedLinkAddModel,
)
    requires
        repo.sound(),
        second.path == first.path,
        second.head_tree == added.tree_oid,
        repo.answers(numbers, adding(first), replies),
        prepare_add_step(first, replies) == (Expected::Done { value: added }),
        repo.answers(numbers_again, adding(second), again),
        prepare_add_step(second, again) == (Expected::Done { value: added_again }),
        repo.answers(
            numbers_alone,
            adding(AddArgs { head_tree: first.head_tree, ..second }),
            alone,
        ),
        prepare_add_step(AddArgs { head_tree: first.head_tree, ..second }, alone) == (
        Expected::Done { value: added_alone }),
    ensures
        added_again.tree_oid == added_alone.tree_oid,
{
    let fresh = AddArgs { head_tree: first.head_tree, ..second };
    addition_places_record(repo, numbers, first, replies, added);
    addition_places_record(repo, numbers_again, second, again, added_again);
    addition_places_record(repo, numbers_alone, fresh, alone, added_alone);
    new_link_has_no_numbers(repo, numbers_again, numbers_alone, second);
    new_link_has_no_numbers(repo, numbers_alone, numbers_alone, fresh);
    assert(new_link(fresh) == new_link(second));
    placing_again_replaces(
        (repo.files)(first.head_tree),
        link_key(names(first.path)),
        (stored_as(repo, repo.record_of(numbers, new_link(first))), LINK_FILE_MODE),
        (stored_as(repo, repo.record_of(numbers_again, new_link(second))), LINK_FILE_MODE),
    );
}

/// The link that a push is for is one of the tree of its head, at the path of the push.
pub proof fn pushed_link_is_held(
    repo: Repository,
    numbers: Numbers,
    head: ObjectId,
    path: Seq<u8>,
    replies: Seq<ReplyModel>,
    push: PreparedLinkPushModel,
)
    requires
        repo.answers(numbers, pushing(head, path), replies),
        push_step(head, path, replies) == (Expected::Done { value: push }),
    ensures
        replies.len() == 5,
        replies[1] is Links,
        normalized(path) is Ok,
        ({
            let found = find_link(replies[1]->Links_0, encode_utf8(normalized(path)->Ok_0));
            &&& found is Some
            &&& repo.holds_link(numbers, (repo.tree)(head), found->0)
            &&& names(found->0.path) == names(path)
        }),
{
    let step = pushing(head, path);
    assert(replies.len() > 0);
    assert(step(replies.take(0)) is Ask);
    assert(step(replies.take(1)) is Ask);
    assert(replies.take(1)[0] == replies[0]);
    if replies.len() > 5 {
        assert(step(replies.take(5)) is Ask);
    }
    let name = normalized(path)->Ok_0;
    found_link_is_held(repo, numbers, (repo.tree)(head), replies[1]->Links_0, encode_utf8(name));
    decode_utf8_encode_utf8(path);
    outer_slashes_add_no_names(decode_utf8(path));
}

/// What was given when a link was added is what a push of that link reads back, from the commit
/// that the addition made: where it is pushed to, and which commit its history starts from.
pub proof fn added_link_is_pushed_as_given(
    repo: Repository,
    numbers: Numbers,
    args: AddArgs,
    replies: Seq<ReplyModel>,
    added: PreparedLinkAddModel,
    head: ObjectId,
    signature: SignatureModel,
    numbers_committed: Numbers,
    committed: Seq<ReplyModel>,
    commit: ObjectId,
    numbers_pushed: Numbers,
    pushed: Seq<ReplyModel>,
    push: PreparedLinkPushModel,
)
    requires
        repo.sound(),
        repo.answers(numbers, adding(args), replies),
        prepare_add_step(args, replies) == (Expected::Done { value: added }),
        repo.answers(
            numbers_committed,
            committing(CommitArgs { added, head, signature }),
            committed,
        ),
        commit_add_step(CommitArgs { added, head, signature }, committed) == (Expected::Done {
            value: commit,
        }),
        repo.answers(numbers_pushed, pushing(commit, args.path), pushed),
        push_step(commit, args.path, pushed) == (Expected::Done { value: push }),
    ensures
        push == (PreparedLinkPushModel {
            remote: args.url,
            push_remote: args.push_url,
            configured_target: args.target,
            configured_push_target: args.push_target,
            exported_commit: push.exported_commit,
        }),
        push_step(commit, args.path, pushed.take(2)) matches Expected::Ask { request }
            && request.action matches ActionOf::FilterCommit { filter, commit: pin } && pin
            == args.fetched_commit,
{
    let step = committing(CommitArgs { added, head, signature });
    addition_places_record(repo, numbers, args, replies, added);
    assert(committed.len() > 0);
    assert(step(committed.take(0)) is Ask);
    if committed.len() > 1 {
        assert(step(committed.take(1)) is Ask);
        assert(committed.take(1).last() == committed[0]);
    }
    assert(committed.last() == committed[0]);
    assert((repo.tree)(commit) == added.tree_oid);

    pushed_link_is_held(repo, numbers_pushed, commit, args.path, pushed, push);
    let link = find_link(pushed[1]->Links_0, encode_utf8(normalized(args.path)->Ok_0))->0;
    let record = repo.record_of(numbers, new_link(args));
    assert((repo.stored)(stored_as(repo, record)));
    assert(numbers_pushed(link.filter) == record);
    repo.stored_values_are_recorded(numbers, new_link(args), MetaKey::Remote);
    repo.stored_values_are_recorded(numbers, new_link(args), MetaKey::Target);
    repo.stored_values_are_recorded(numbers, new_link(args), MetaKey::Commit);
    repo.stored_values_are_recorded(numbers, new_link(args), MetaKey::Push);
    repo.stored_values_are_recorded(numbers, new_link(args), MetaKey::PushTarget);
    new_link_reads_back(args, link, repo.recorded(numbers), push.exported_commit);
    let asked = pushing(commit, args.path);
    assert(asked(pushed.take(2)) is Ask);
    assert(pushed.take(2)[1] == pushed[1]);
}

} // verus!
