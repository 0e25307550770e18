//! What becomes of an operation or a command when an action fails.

use crate::add::{AddArgs, CommitArgs};
use crate::command::add::{
    add_args, add_turn, added_branch_request, adding, base_tree_request, committing, export_args,
    exporting, fetched_request, mode_request, pin, seed_request, then_add, then_added,
    then_branch, then_commit, then_export, then_mode, then_resolve, then_seed, then_tree,
    then_use_fetched,
};
use crate::command::args::{LinkAddModel, LinkCommandModel};
use crate::command::fetch::{
    asking_for, collecting, fetch_each, fetch_each_asks, fetch_request, fetch_turn, then_collect,
    then_fetch_all, then_fetched, then_present, then_select,
};
use crate::command::handle::link_turn;
use crate::command::push::{preparing, push_request, push_turn, then_prepare, then_push};
use crate::command::shared::{head_request, select_request, signing, then_end};
use crate::command::update as all;
use crate::command::update::{
    update_each, update_each_fetches, update_turn, updating, UpdateContext,
};
use crate::error::LinkErrorOf;
use crate::export::ExportArgs;
use crate::laws::adding::pushing;
use crate::laws::collecting::gathering;
use crate::laws::words::{just_fails, reason_for};
use crate::link::{
    LinkFileModel, LinkRefModel, MaterializedLinkUpdateResult, PreparedLinkPushModel,
    SignatureModel, UpdateLinksResult,
};
use crate::materialize::update_materialized_step;
use crate::notice::NoticeModel;
use crate::oid::{hex_reading, ObjectId};
use crate::step::{
    failure_of, part_context, ActionModel, ActionOf, Expected, Part, ReplyModel, RequestModel,
};
use crate::turn::{
    chained, for_finish, for_id, for_links, for_text, going, told, Continuation, Operation, Whole,
};
use crate::update::UpdateArgs;
use vstd::prelude::*;
use vstd::utf8::*;

verus! {

/// Whether `reply` is an answer to `action`, by its kind.
pub open spec fn is_answer(action: ActionModel, reply: ReplyModel) -> bool {
    match action {
        ActionOf::FindLinks { .. } => reply is Links,
        ActionOf::WalkHistory { .. } => reply is Ids,
        ActionOf::Git { .. } => reply is Finished,
        ActionOf::UpdateRef { .. } => reply is Finished,
        ActionOf::HasObject { .. } => reply is Flag,
        ActionOf::ReadSignature => reply is Signature,
        ActionOf::ParseMode { .. } => reply is Text,
        _ => reply is Id,
    }
}

/// Whether something is asked for, and `reply` is no answer to that: a failure, or anything else
/// that does not fit.
pub open spec fn is_not_answered<T>(step: Expected<T>, reply: ReplyModel) -> bool {
    step matches Expected::Ask { request } && !is_answer(request.action, reply)
}

/// Whether the failure of what an operation asks for ends the operation, whenever it comes, and is
/// reported as it was given. A reply that is no answer ends it too.
pub open spec fn ends_on_failure<T>(step: Operation<T>) -> bool {
    forall|replies: Seq<ReplyModel>, failure: ReplyModel|
        #![trigger step(replies.push(failure))]
        is_not_answered(step(replies), failure) ==> step(replies.push(failure)) == (Expected::<
            T,
        >::Fail { error: reason_for(failure) })
}

/// Whether the failure of what a command asks for ends the command, whenever it comes, without a
/// word more, and is reported as it was given. A reply that is no answer ends it too.
pub open spec fn command_ends_on_failure(whole: Whole) -> bool {
    forall|replies: Seq<ReplyModel>, failure: ReplyModel|
        #![trigger whole(replies.push(failure))]
        is_not_answered(whole(replies).outcome, failure) ==> whole(replies.push(failure))
            == just_fails(reason_for(failure))
}

/// Where a part of what an operation asks for fails, the operation ends, and the failure is
/// reported with what is said of the part, and around that with what is said of the operation that
/// it is part of.
pub proof fn failure_is_reported_in_its_contexts<T>(
    step: Operation<T>,
    replies: Seq<ReplyModel>,
    request: RequestModel,
    part: Part,
)
    requires
        ends_on_failure(step),
        step(replies) == (Expected::<T>::Ask { request }),
    ensures
        step(replies.push(failure_of(request, part))) == (Expected::<T>::Fail {
            error: LinkErrorOf::ActionFailed {
                context: part_context(request, part),
                within: request.within,
            },
        }),
{
}

/// Where a part of what a command asks for fails, the command ends, and the failure is reported
/// with what is said of the part, and around that with what is said of the operation that it is
/// part of.
pub proof fn failure_of_command_is_reported_in_its_contexts(
    whole: Whole,
    replies: Seq<ReplyModel>,
    request: RequestModel,
    part: Part,
)
    requires
        command_ends_on_failure(whole),
        whole(replies).outcome == (Expected::<()>::Ask { request }),
    ensures
        whole(replies.push(failure_of(request, part))) == just_fails(
            LinkErrorOf::ActionFailed {
                context: part_context(request, part),
                within: request.within,
            },
        ),
{
}

/// The failure of an action ends the search for a signature.
pub proof fn failure_ends_signature(commit_time: Option<Seq<char>>)
    ensures
        ends_on_failure(signing(commit_time)),
{
}

/// The failure of an action ends an export.
pub proof fn failure_ends_export(args: ExportArgs)
    ensures
        ends_on_failure(exporting(args)),
{
}

/// The failure of an action ends an addition.
pub proof fn failure_ends_add(args: AddArgs)
    ensures
        ends_on_failure(adding(args)),
{
}

/// The failure of an action ends the commit of an addition.
pub proof fn failure_ends_commit(args: CommitArgs)
    ensures
        ends_on_failure(committing(args)),
{
}

/// The failure of an action ends a collection of linked commits.
pub proof fn failure_ends_collection(commit: ObjectId)
    ensures
        ends_on_failure(gathering(commit)),
        ends_on_failure(collecting(commit)),
{
}

/// The failure of an action ends an update.
pub proof fn failure_ends_update(args: UpdateArgs)
    ensures
        ends_on_failure(updating(args)),
{
}

/// The update of materialized links, as an operation.
pub open spec fn updating_materialized(args: UpdateArgs) -> Operation<
    Option<MaterializedLinkUpdateResult>,
> {
    |replies: Seq<ReplyModel>| update_materialized_step(args, replies)
}

/// The failure of an action ends an update of materialized links.
pub proof fn failure_ends_materialized_update(args: UpdateArgs)
    ensures
        ends_on_failure(updating_materialized(args)),
{
    let step = updating_materialized(args);
    assert forall|replies: Seq<ReplyModel>, failure: ReplyModel|
        #![trigger step(replies.push(failure))]
        is_not_answered(step(replies), failure) implies step(replies.push(failure)) == (Expected::<
        Option<MaterializedLinkUpdateResult>,
    >::Fail { error: reason_for(failure) }) by {
        if replies.len() >= 2 {
            let head = replies[0]->Id_0;
            let inner = UpdateArgs { head, ..args };
            failure_ends_update(inner);
            let update = updating(inner);
            let all = replies.push(failure);
            assert(all[0] == replies[0] && all[1] == replies[1]);
            assert(all.skip(2) =~= replies.skip(2).push(failure));
            assert(update(replies.skip(2)) is Ask);
            assert(update(replies.skip(2).push(failure)) is Fail);
        }
    }
}

/// The failure of an action ends the preparation of a push.
pub proof fn failure_ends_push_preparation(head: ObjectId, path: Seq<u8>)
    ensures
        ends_on_failure(pushing(head, path)),
{
    let step = pushing(head, path);
    assert forall|replies: Seq<ReplyModel>, failure: ReplyModel|
        #![trigger step(replies.push(failure))]
        is_not_answered(step(replies), failure) implies step(replies.push(failure)) == (Expected::<
        PreparedLinkPushModel,
    >::Fail { error: reason_for(failure) }) by {
        assert(replies.push(failure).last() == failure);
    }
}

proof fn going_ends<T>(
    step: Operation<T>,
    done: Seq<ReplyModel>,
    more: Seq<ReplyModel>,
    next: Continuation<T>,
    failure: ReplyModel,
)
    requires
        ends_on_failure(step),
        forall|value: T|
            command_ends_on_failure(#[trigger] rest_of(next, value)),
        step(done) is Ask,
        is_not_answered(going(step, done, more, next).outcome, failure),
    ensures
        going(step, done, more.push(failure), next) == just_fails(reason_for(failure)),
    decreases more.len(),
{
    let all = more.push(failure);
    if more.len() == 0 {
        assert(all.first() == failure);
        assert(step(done.push(failure)) is Fail);
    } else {
        let now = done.push(more.first());
        assert(all.first() == more.first());
        assert(all.drop_first() =~= more.drop_first().push(failure));
        match step(now) {
            Expected::Done { value } => {
                let rest = rest_of(next, value);
                assert(command_ends_on_failure(rest));
                assert(rest(more.drop_first().push(failure)) == just_fails(reason_for(failure)));
            },
            Expected::Ask { request } => {
                going_ends(step, now, more.drop_first(), next, failure);
            },
            Expected::Fail { error } => {},
        }
    }
}

/// What follows an operation with the result `value`.
spec fn rest_of<T>(next: Continuation<T>, value: T) -> Whole {
    |more: Seq<ReplyModel>| next(value, more)
}

/// An operation with `next` behind it.
spec fn chain_of<T>(step: Operation<T>, next: Continuation<T>) -> Whole {
    |replies: Seq<ReplyModel>| chained(step, replies, next)
}

proof fn chain_ends<T>(step: Operation<T>, next: Continuation<T>)
    requires
        ends_on_failure(step),
        forall|value: T| command_ends_on_failure(#[trigger] rest_of(next, value)),
    ensures
        command_ends_on_failure(chain_of(step, next)),
{
    let whole = chain_of(step, next);
    assert forall|replies: Seq<ReplyModel>, failure: ReplyModel|
        #![trigger whole(replies.push(failure))]
        is_not_answered(whole(replies).outcome, failure) implies whole(replies.push(failure))
        == just_fails(reason_for(failure)) by {
        match step(Seq::empty()) {
            Expected::Done { value } => {
                let rest = rest_of(next, value);
                assert(command_ends_on_failure(rest));
                assert(rest(replies.push(failure)) == just_fails(reason_for(failure)));
            },
            Expected::Ask { request } => {
                going_ends(step, Seq::empty(), replies, next, failure);
            },
            Expected::Fail { error } => {},
        }
    }
}

proof fn same_turns_end(a: Whole, b: Whole)
    requires
        forall|replies: Seq<ReplyModel>| #[trigger] a(replies) == b(replies),
        command_ends_on_failure(b),
    ensures
        command_ends_on_failure(a),
{
    assert forall|replies: Seq<ReplyModel>, failure: ReplyModel|
        #![trigger a(replies.push(failure))]
        is_not_answered(a(replies).outcome, failure) implies a(replies.push(failure))
        == just_fails(reason_for(failure)) by {
        assert(a(replies) == b(replies));
        assert(a(replies.push(failure)) == b(replies.push(failure)));
    }
}

/// A command that says `tell` first.
spec fn telling(tell: Seq<NoticeModel>, whole: Whole) -> Whole {
    |replies: Seq<ReplyModel>| told(tell, replies, whole(replies))
}

proof fn telling_ends(tell: Seq<NoticeModel>, whole: Whole)
    requires
        command_ends_on_failure(whole),
    ensures
        command_ends_on_failure(telling(tell, whole)),
{
    let said = telling(tell, whole);
    assert forall|replies: Seq<ReplyModel>, failure: ReplyModel|
        #![trigger said(replies.push(failure))]
        is_not_answered(said(replies).outcome, failure) implies said(replies.push(failure))
        == just_fails(reason_for(failure)) by {
        assert(whole(replies).outcome is Ask);
        assert(whole(replies.push(failure)) == just_fails(reason_for(failure)));
    }
}

/// The command that pushes a link, as what it does after a row of replies.
pub open spec fn push_command(path: Seq<char>, force: bool) -> Whole {
    |replies: Seq<ReplyModel>| push_turn(path, force, replies)
}

/// The failure of an action ends the command that pushes a link.
pub proof fn failure_ends_push(path: Seq<char>, force: bool)
    ensures
        command_ends_on_failure(push_command(path, force)),
{
    assert forall|head: ObjectId| command_ends_on_failure(
        #[trigger] rest_of(then_prepare(path, force), head),
    ) by {
        assert forall|push: PreparedLinkPushModel| command_ends_on_failure(
            #[trigger] rest_of(then_push(force), push),
        ) by {
            chain_ends(for_finish(push_request(push, force)), then_end());
            same_turns_end(
                rest_of(then_push(force), push),
                chain_of(for_finish(push_request(push, force)), then_end()),
            );
        }
        failure_ends_push_preparation(head, encode_utf8(path));
        assert(preparing(head, path) =~= pushing(head, encode_utf8(path)));
        chain_ends(preparing(head, path), then_push(force));
        same_turns_end(
            rest_of(then_prepare(path, force), head),
            chain_of(preparing(head, path), then_push(force)),
        );
    }
    chain_ends(for_id(head_request()), then_prepare(path, force));
    same_turns_end(
        push_command(path, force),
        chain_of(for_id(head_request()), then_prepare(path, force)),
    );
}

/// The fetch of linked commits from the number `at` on.
spec fn fetching(refs: Seq<LinkRefModel>, at: int, fetched: int, skipped: int) -> Whole {
    |replies: Seq<ReplyModel>| fetch_each(refs, at, fetched, skipped, replies)
}

proof fn fetching_ends(refs: Seq<LinkRefModel>, at: int, fetched: int, skipped: int)
    requires
        0 <= at,
    ensures
        command_ends_on_failure(fetching(refs, at, fetched, skipped)),
    decreases refs.len() - at,
{
    let whole = fetching(refs, at, fetched, skipped);
    if at < refs.len() {
        if let Ok(id) = hex_reading(refs[at].commit) {
            let next = then_present(refs, at, fetched, skipped);
            fetching_ends(refs, at + 1, fetched, skipped + 1);
            fetching_ends(refs, at + 1, fetched + 1, skipped);
            let fetch = for_finish(fetch_request(refs[at]));
            let then = then_fetched(refs, at, fetched, skipped);
            assert forall|u: ()| command_ends_on_failure(#[trigger] rest_of(then, u)) by {
                same_turns_end(rest_of(then, u), fetching(refs, at + 1, fetched + 1, skipped));
            }
            chain_ends(fetch, then);
            assert forall|present: bool| command_ends_on_failure(
                #[trigger] rest_of(next, present),
            ) by {
                if present {
                    same_turns_end(
                        rest_of(next, present),
                        fetching(refs, at + 1, fetched, skipped + 1),
                    );
                } else {
                    let tell = seq![
                        NoticeModel::Fetching { what: refs[at].commit, remote: refs[at].remote },
                    ];
                    telling_ends(tell, chain_of(fetch, then));
                    same_turns_end(rest_of(next, present), telling(tell, chain_of(fetch, then)));
                }
            }
            chain_ends(asking_for(id), next);
            assert forall|replies: Seq<ReplyModel>| #[trigger]
                whole(replies) == chain_of(asking_for(id), next)(replies) by {
                fetch_each_asks(refs, at, fetched, skipped, id, replies);
            }
            same_turns_end(whole, chain_of(asking_for(id), next));
        }
    }
}

/// The command that fetches linked commits, as what it does after a row of replies.
pub open spec fn fetch_command(filter: Option<Seq<char>>) -> Whole {
    |replies: Seq<ReplyModel>| fetch_turn(filter, replies)
}

/// The failure of an action ends the command that fetches linked commits.
pub proof fn failure_ends_fetch(filter: Option<Seq<char>>)
    ensures
        command_ends_on_failure(fetch_command(filter)),
{
    assert forall|refs: Seq<LinkRefModel>| command_ends_on_failure(
        #[trigger] rest_of(then_fetch_all(), refs),
    ) by {
        if refs.len() > 0 {
            let tell = seq![NoticeModel::FoundReferences { count: refs.len() as usize }];
            fetching_ends(refs, 0, 0, 0);
            telling_ends(tell, fetching(refs, 0, 0, 0));
            same_turns_end(rest_of(then_fetch_all(), refs), telling(tell, fetching(refs, 0, 0, 0)));
        }
    }
    assert forall|commit: ObjectId| command_ends_on_failure(
        #[trigger] rest_of(then_collect(), commit),
    ) by {
        failure_ends_collection(commit);
        chain_ends(collecting(commit), then_fetch_all());
        same_turns_end(
            rest_of(then_collect(), commit),
            chain_of(collecting(commit), then_fetch_all()),
        );
    }
    assert forall|head: ObjectId| command_ends_on_failure(
        #[trigger] rest_of(then_select(filter), head),
    ) by {
        match filter {
            Some(text) => {
                let select = for_id(select_request(text, head));
                chain_ends(select, then_collect());
                same_turns_end(
                    rest_of(then_select(filter), head),
                    chain_of(select, then_collect()),
                );
            },
            None => {
                same_turns_end(rest_of(then_select(filter), head), rest_of(then_collect(), head));
            },
        }
    }
    chain_ends(for_id(head_request()), then_select(filter));
    same_turns_end(
        fetch_command(filter),
        chain_of(for_id(head_request()), then_select(filter)),
    );
}

/// The update of all links from the number `at` on.
spec fn updating_each(
    ctx: UpdateContext,
    files: Seq<LinkFileModel>,
    at: int,
    updates: Seq<(Seq<u8>, ObjectId)>,
) -> Whole {
    |replies: Seq<ReplyModel>| update_each(ctx, files, at, updates, replies)
}

proof fn signed_update_ends(
    ctx: UpdateContext,
    updates: Seq<(Seq<u8>, ObjectId)>,
    count: nat,
)
    ensures
        command_ends_on_failure(
            chain_of(signing(ctx.commit_time), all::then_update(ctx.head, updates, count)),
        ),
{
    let next = all::then_update(ctx.head, updates, count);
    assert forall|result: Option<UpdateLinksResult>| command_ends_on_failure(
        #[trigger] rest_of(all::then_branch(count), result),
    ) by {
        if let Some(result) = result {
            let branch = for_finish(all::updated_branch_request(result));
            chain_ends(branch, all::then_updated(count));
            same_turns_end(
                rest_of(all::then_branch(count), Some(result)),
                chain_of(branch, all::then_updated(count)),
            );
        }
    }
    assert forall|signature: SignatureModel| command_ends_on_failure(
        #[trigger] rest_of(next, signature),
    ) by {
        let args = UpdateArgs { head: ctx.head, updates, signature };
        failure_ends_update(args);
        chain_ends(updating(args), all::then_branch(count));
        same_turns_end(
            rest_of(next, signature),
            chain_of(updating(args), all::then_branch(count)),
        );
    }
    failure_ends_signature(ctx.commit_time);
    chain_ends(signing(ctx.commit_time), next);
}

proof fn updating_each_ends(
    ctx: UpdateContext,
    files: Seq<LinkFileModel>,
    at: int,
    updates: Seq<(Seq<u8>, ObjectId)>,
)
    requires
        0 <= at,
    ensures
        command_ends_on_failure(updating_each(ctx, files, at, updates)),
    decreases files.len() - at,
{
    let whole = updating_each(ctx, files, at, updates);
    if at >= files.len() {
        signed_update_ends(ctx, updates, files.len());
        same_turns_end(
            whole,
            chain_of(
                signing(ctx.commit_time),
                all::then_update(ctx.head, updates, files.len()),
            ),
        );
    } else if files[at].remote is Some {
        let fetch = for_finish(all::link_fetch_request(files[at]));
        let resolve = for_id(all::fetch_head_request());
        let after_fetch = all::then_resolve(ctx, files, at, updates);
        let after_resolve = all::then_next(ctx, files, at, updates);
        assert forall|commit: ObjectId| command_ends_on_failure(
            #[trigger] rest_of(after_resolve, commit),
        ) by {
            let moved = updates.push((files[at].path, commit));
            updating_each_ends(ctx, files, at + 1, moved);
            same_turns_end(
                rest_of(after_resolve, commit),
                updating_each(ctx, files, at + 1, moved),
            );
        }
        chain_ends(resolve, after_resolve);
        assert forall|u: ()| command_ends_on_failure(#[trigger] rest_of(after_fetch, u)) by {
            same_turns_end(rest_of(after_fetch, u), chain_of(resolve, after_resolve));
        }
        chain_ends(fetch, after_fetch);
        let tell = seq![
            NoticeModel::Fetching {
                what: all::branch_of(files[at]),
                remote: files[at].remote->0,
            },
        ];
        telling_ends(tell, chain_of(fetch, after_fetch));
        assert forall|replies: Seq<ReplyModel>| #[trigger]
            whole(replies) == telling(tell, chain_of(fetch, after_fetch))(replies) by {
            update_each_fetches(ctx, files, at, updates, replies);
        }
        same_turns_end(whole, telling(tell, chain_of(fetch, after_fetch)));
    }
}

/// The command that updates all links, as what it does after a row of replies.
pub open spec fn update_command(
    filter: Option<Seq<char>>,
    commit_time: Option<Seq<char>>,
) -> Whole {
    |replies: Seq<ReplyModel>| update_turn(filter, commit_time, replies)
}

/// The failure of an action ends the command that updates all links.
pub proof fn failure_ends_update_of_all(
    filter: Option<Seq<char>>,
    commit_time: Option<Seq<char>>,
)
    ensures
        command_ends_on_failure(update_command(filter, commit_time)),
{
    let then_tree = all::then_tree(filter, commit_time);
    assert forall|head: ObjectId| command_ends_on_failure(#[trigger] rest_of(then_tree, head)) by {
        let ctx = UpdateContext { head, commit_time };
        let then_all = all::then_update_all(ctx);
        assert forall|files: Seq<LinkFileModel>| command_ends_on_failure(
            #[trigger] rest_of(then_all, files),
        ) by {
            if files.len() > 0 {
                let tell = seq![NoticeModel::FoundLinks { count: files.len() as usize }];
                let each = updating_each(ctx, files, 0, Seq::empty());
                updating_each_ends(ctx, files, 0, Seq::empty());
                telling_ends(tell, each);
                same_turns_end(rest_of(then_all, files), telling(tell, each));
            }
        }
        let then_found = all::then_find_filtered(ctx);
        assert forall|tree: ObjectId| command_ends_on_failure(
            #[trigger] rest_of(then_found, tree),
        ) by {
            let find = for_links(all::find_filtered_request(tree));
            chain_ends(find, then_all);
            same_turns_end(rest_of(then_found, tree), chain_of(find, then_all));
        }
        let then_filtered = all::then_filtered(ctx);
        assert forall|commit: ObjectId| command_ends_on_failure(
            #[trigger] rest_of(then_filtered, commit),
        ) by {
            if commit.is_zero() {
                same_turns_end(
                    rest_of(then_filtered, commit),
                    rest_of(then_all, Seq::empty()),
                );
            } else {
                let read = for_id(all::filtered_tree_request(commit));
                chain_ends(read, then_found);
                same_turns_end(rest_of(then_filtered, commit), chain_of(read, then_found));
            }
        }
        let then_find = all::then_find(filter, ctx);
        assert forall|tree: ObjectId| command_ends_on_failure(
            #[trigger] rest_of(then_find, tree),
        ) by {
            match filter {
                Some(text) => {
                    let select = for_id(select_request(text, head));
                    chain_ends(select, then_filtered);
                    same_turns_end(rest_of(then_find, tree), chain_of(select, then_filtered));
                },
                None => {
                    let find = for_links(all::find_request(tree));
                    chain_ends(find, then_all);
                    same_turns_end(rest_of(then_find, tree), chain_of(find, then_all));
                },
            }
        }
        let read = for_id(all::head_tree_request(head));
        chain_ends(read, then_find);
        same_turns_end(rest_of(then_tree, head), chain_of(read, then_find));
    }
    chain_ends(for_id(head_request()), then_tree);
    same_turns_end(
        update_command(filter, commit_time),
        chain_of(for_id(head_request()), then_tree),
    );
}

/// The pinning of a new link, as what is done after a row of replies.
spec fn pinning(
    args: LinkAddModel,
    commit_time: Option<Seq<char>>,
    head: ObjectId,
    mode: Seq<char>,
    commit: ObjectId,
) -> Whole {
    |replies: Seq<ReplyModel>| pin(args, commit_time, head, mode, commit, replies)
}

proof fn pinning_ends(
    args: LinkAddModel,
    commit_time: Option<Seq<char>>,
    head: ObjectId,
    mode: Seq<char>,
    commit: ObjectId,
)
    ensures
        command_ends_on_failure(pinning(args, commit_time, head, mode, commit)),
{
    assert forall|made: ObjectId| command_ends_on_failure(
        #[trigger] rest_of(then_branch(args), made),
    ) by {
        let branch = for_finish(added_branch_request(made));
        chain_ends(branch, then_added(args));
        same_turns_end(rest_of(then_branch(args), made), chain_of(branch, then_added(args)));
    }
    let signed = then_tree(args, head, mode, commit);
    assert forall|signature: SignatureModel| command_ends_on_failure(
        #[trigger] rest_of(signed, signature),
    ) by {
        let prepared = then_commit(args, head, signature);
        assert forall|added: crate::add::PreparedLinkAddModel| command_ends_on_failure(
            #[trigger] rest_of(prepared, added),
        ) by {
            let step = committing(CommitArgs { added, head, signature });
            failure_ends_commit(CommitArgs { added, head, signature });
            chain_ends(step, then_branch(args));
            same_turns_end(rest_of(prepared, added), chain_of(step, then_branch(args)));
        }
        let found = then_add(args, head, mode, commit, signature);
        assert forall|tree: ObjectId| command_ends_on_failure(#[trigger] rest_of(found, tree)) by {
            let step = adding(add_args(args, mode, commit, tree));
            failure_ends_add(add_args(args, mode, commit, tree));
            chain_ends(step, prepared);
            same_turns_end(rest_of(found, tree), chain_of(step, prepared));
        }
        let read = for_id(base_tree_request(head));
        chain_ends(read, found);
        same_turns_end(rest_of(signed, signature), chain_of(read, found));
    }
    failure_ends_signature(commit_time);
    chain_ends(signing(commit_time), signed);
    same_turns_end(
        pinning(args, commit_time, head, mode, commit),
        chain_of(signing(commit_time), signed),
    );
}

proof fn seeding_ends(
    args: LinkAddModel,
    commit_time: Option<Seq<char>>,
    head: ObjectId,
    mode: Seq<char>,
    local: Option<ObjectId>,
)
    ensures
        command_ends_on_failure(rest_of(then_seed(args, commit_time, head, mode), local)),
{
    let whole = rest_of(then_seed(args, commit_time, head, mode), local);
    match local {
        Some(commit) => {
            let tell = seq![
                NoticeModel::UsingLocal {
                    path: crate::text::trimmed(args.path),
                    commit: commit.hex(),
                },
            ];
            pinning_ends(args, commit_time, head, mode, commit);
            telling_ends(tell, pinning(args, commit_time, head, mode, commit));
            same_turns_end(whole, telling(tell, pinning(args, commit_time, head, mode, commit)));
        },
        None => {
            let use_fetched = then_use_fetched(args, commit_time, head, mode);
            assert forall|commit: ObjectId| command_ends_on_failure(
                #[trigger] rest_of(use_fetched, commit),
            ) by {
                let tell = seq![NoticeModel::UsingFetched { commit: commit.hex() }];
                pinning_ends(args, commit_time, head, mode, commit);
                telling_ends(tell, pinning(args, commit_time, head, mode, commit));
                same_turns_end(
                    rest_of(use_fetched, commit),
                    telling(tell, pinning(args, commit_time, head, mode, commit)),
                );
            }
            let resolve = for_id(fetched_request());
            chain_ends(resolve, use_fetched);
            let fetched = then_resolve(args, commit_time, head, mode);
            assert forall|u: ()| command_ends_on_failure(#[trigger] rest_of(fetched, u)) by {
                same_turns_end(rest_of(fetched, u), chain_of(resolve, use_fetched));
            }
            let fetch = for_finish(seed_request(args));
            chain_ends(fetch, fetched);
            let tell = seq![NoticeModel::NoLocal { path: crate::text::trimmed(args.path) }];
            telling_ends(tell, chain_of(fetch, fetched));
            same_turns_end(whole, telling(tell, chain_of(fetch, fetched)));
        },
    }
}

/// The command that adds a link, as what it does after a row of replies.
pub open spec fn add_command(args: LinkAddModel, commit_time: Option<Seq<char>>) -> Whole {
    |replies: Seq<ReplyModel>| add_turn(args, commit_time, replies)
}

/// The failure of an action ends the command that adds a link.
pub proof fn failure_ends_add_of_link(args: LinkAddModel, commit_time: Option<Seq<char>>)
    ensures
        command_ends_on_failure(add_command(args, commit_time)),
{
    let first = then_mode(args, commit_time);
    assert forall|head: ObjectId| command_ends_on_failure(#[trigger] rest_of(first, head)) by {
        let second = then_export(args, commit_time, head);
        assert forall|mode: Seq<char>| command_ends_on_failure(
            #[trigger] rest_of(second, mode),
        ) by {
            let third = then_seed(args, commit_time, head, mode);
            assert forall|local: Option<ObjectId>| command_ends_on_failure(
                #[trigger] rest_of(third, local),
            ) by {
                seeding_ends(args, commit_time, head, mode, local);
            }
            let step = exporting(export_args(args, head));
            failure_ends_export(export_args(args, head));
            chain_ends(step, third);
            same_turns_end(rest_of(second, mode), chain_of(step, third));
        }
        let step = for_text(mode_request(args));
        chain_ends(step, second);
        same_turns_end(rest_of(first, head), chain_of(step, second));
    }
    chain_ends(for_id(head_request()), first);
    if args.path.len() > 0 {
        same_turns_end(
            add_command(args, commit_time),
            chain_of(for_id(head_request()), first),
        );
    }
}

/// The link command, as what it does after a row of replies.
pub open spec fn link_command(
    command: LinkCommandModel,
    commit_time: Option<Seq<char>>,
) -> Whole {
    |replies: Seq<ReplyModel>| link_turn(command, commit_time, replies)
}

/// The failure of an action ends the link command, whichever of its subcommands it is.
pub proof fn failure_ends_link_command(
    command: LinkCommandModel,
    commit_time: Option<Seq<char>>,
)
    ensures
        command_ends_on_failure(link_command(command, commit_time)),
{
    let whole = link_command(command, commit_time);
    match command {
        LinkCommandModel::Add { args } => {
            failure_ends_add_of_link(args, commit_time);
            same_turns_end(whole, add_command(args, commit_time));
        },
        LinkCommandModel::Fetch { filter } => {
            failure_ends_fetch(filter);
            same_turns_end(whole, fetch_command(filter));
        },
        LinkCommandModel::Update { filter } => {
            failure_ends_update_of_all(filter, commit_time);
            same_turns_end(whole, update_command(filter, commit_time));
        },
        LinkCommandModel::Push { path, force } => {
            failure_ends_push(path, force);
            same_turns_end(whole, push_command(path, force));
        },
    }
}

} // verus!
