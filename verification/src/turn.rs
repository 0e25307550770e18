//! The turns of a command: what it tells the user, and what it does next.
//!
//! A command is a chain of operations. Its contract writes the chain down: [`chained`] hands the
//! replies to one operation until that is done, and the replies behind those to what follows it.

use crate::notice::{Notice, NoticeModel};
use crate::step::{refused, Expected, Outcome, ReplyModel, RequestModel};
use vstd::prelude::*;

verus! {

/// What a command tells the user, and what it does then.
#[derive(Debug, PartialEq, Eq)]
pub struct Turn<M> {
    pub tell: Vec<Notice>,
    pub outcome: Outcome<M, ()>,
}

/// The model of a [`Turn`].
pub struct TurnModel {
    pub tell: Seq<NoticeModel>,
    pub outcome: Expected<()>,
}

impl<M> DeepView for Turn<M> {
    type V = TurnModel;

    open spec fn deep_view(&self) -> TurnModel {
        TurnModel {
            tell: self.tell.deep_view(),
            outcome: self.outcome.deep_view(),
        }
    }
}

/// An operation, as what it does after a row of replies.
pub type Operation<T> = spec_fn(Seq<ReplyModel>) -> Expected<T>;

/// What follows an operation, given its result and the replies behind those that it took.
pub type Continuation<T> = spec_fn(T, Seq<ReplyModel>) -> TurnModel;

/// A turn without a word.
pub open spec fn quietly(outcome: Expected<()>) -> TurnModel {
    TurnModel { tell: Seq::empty(), outcome }
}

/// The end of a command, with `tell` as its last words.
pub open spec fn finally(tell: Seq<NoticeModel>) -> TurnModel {
    TurnModel { tell, outcome: Expected::Done { value: () } }
}

/// `turn`, with `tell` before it where no reply was given since.
pub open spec fn told(
    tell: Seq<NoticeModel>,
    replies: Seq<ReplyModel>,
    turn: TurnModel,
) -> TurnModel {
    if replies.len() == 0 {
        TurnModel { tell: tell + turn.tell, outcome: turn.outcome }
    } else {
        turn
    }
}

/// The operation `step` that asks after `done`, given `more`, and `next` behind it.
pub open spec fn going<T>(
    step: Operation<T>,
    done: Seq<ReplyModel>,
    more: Seq<ReplyModel>,
    next: Continuation<T>,
) -> TurnModel
    decreases more.len(),
{
    if more.len() == 0 {
        quietly(Expected::Ask { request: step(done)->request })
    } else {
        let now = done.push(more.first());
        match step(now) {
            Expected::Done { value } => next(value, more.drop_first()),
            Expected::Fail { error } => quietly(Expected::Fail { error }),
            Expected::Ask { request } => going(step, now, more.drop_first(), next),
        }
    }
}

/// The operation `step`, and `next` behind it.
pub open spec fn chained<T>(
    step: Operation<T>,
    replies: Seq<ReplyModel>,
    next: Continuation<T>,
) -> TurnModel {
    match step(Seq::empty()) {
        Expected::Done { value } => next(value, replies),
        Expected::Fail { error } => quietly(Expected::Fail { error }),
        Expected::Ask { request } => going(step, Seq::empty(), replies, next),
    }
}

/// The operation that makes one request, and whose result `read` takes from the reply.
pub open spec fn single<T>(
    request: RequestModel,
    read: spec_fn(ReplyModel) -> Option<T>,
) -> Operation<T> {
    |replies: Seq<ReplyModel>|
        if replies.len() == 0 {
            Expected::Ask { request }
        } else {
            match read(replies.last()) {
                Some(value) => Expected::Done { value },
                None => refused(replies.last()),
            }
        }
}

/// The operation that asks for an object.
pub open spec fn for_id(request: RequestModel) -> Operation<crate::oid::ObjectId> {
    single(
        request,
        |reply: ReplyModel|
            match reply {
                ReplyModel::Id(id) => Some(id),
                _ => None,
            },
    )
}

/// The operation that asks for a text.
pub open spec fn for_text(request: RequestModel) -> Operation<Seq<char>> {
    single(
        request,
        |reply: ReplyModel|
            match reply {
                ReplyModel::Text(text) => Some(text),
                _ => None,
            },
    )
}

/// The operation that asks a yes-or-no question.
pub open spec fn for_flag(request: RequestModel) -> Operation<bool> {
    single(
        request,
        |reply: ReplyModel|
            match reply {
                ReplyModel::Flag(flag) => Some(flag),
                _ => None,
            },
    )
}

/// The operation that asks for link files.
pub open spec fn for_links(request: RequestModel) -> Operation<Seq<crate::link::LinkFileModel>> {
    single(
        request,
        |reply: ReplyModel|
            match reply {
                ReplyModel::Links(links) => Some(links),
                _ => None,
            },
    )
}

/// The operation that has something carried out.
pub open spec fn for_finish(request: RequestModel) -> Operation<()> {
    single(
        request,
        |reply: ReplyModel|
            match reply {
                ReplyModel::Finished => Some(()),
                _ => None,
            },
    )
}

/// Whether an operation still asks after `replies` and every part of them.
pub open spec fn pending<T>(step: Operation<T>, replies: Seq<ReplyModel>) -> bool {
    forall|i: int| 0 <= i <= replies.len() ==> #[trigger] step(replies.take(i)) is Ask
}

/// A command, as what it does after a row of replies.
pub type Whole = spec_fn(Seq<ReplyModel>) -> TurnModel;

/// Whether `whole` does after `replies`, and after more of them, what `rest` does from the start.
pub open spec fn leads(whole: Whole, replies: Seq<ReplyModel>, rest: Whole) -> bool {
    forall|more: Seq<ReplyModel>| #[trigger] whole(replies + more) == rest(more)
}

/// Whether `whole` does after `replies` and one or more others what `rest` does after the others.
pub open spec fn continues(whole: Whole, replies: Seq<ReplyModel>, rest: Whole) -> bool {
    forall|more: Seq<ReplyModel>|
        more.len() > 0 ==> #[trigger] whole(replies + more) == rest(more)
}

/// Whether `whole` waits, after `replies`, for the operation `step`, which was given `done`, and
/// goes on with `next` then.
pub open spec fn awaits<T>(
    whole: Whole,
    replies: Seq<ReplyModel>,
    step: Operation<T>,
    done: Seq<ReplyModel>,
    next: Continuation<T>,
) -> bool {
    &&& pending(step, done)
    &&& continues(whole, replies, |more: Seq<ReplyModel>| chained(step, done + more, next))
}

/// What `whole` does after `replies`, of which `done` were given to the operation `step`, with
/// `next` behind it: as long as the operation asks, it asks, and waits; once the operation is
/// done, it goes on; a refusal is final.
pub open spec fn reached<T>(
    whole: Whole,
    replies: Seq<ReplyModel>,
    step: Operation<T>,
    done: Seq<ReplyModel>,
    next: Continuation<T>,
) -> bool {
    match step(done) {
        Expected::Ask { request } => {
            &&& whole(replies) == quietly(Expected::Ask { request })
            &&& awaits(whole, replies, step, done, next)
        },
        Expected::Done { value } => leads(
            whole,
            replies,
            |more: Seq<ReplyModel>| next(value, more),
        ),
        Expected::Fail { error } => whole(replies) == quietly(Expected::Fail { error }),
    }
}

proof fn going_skips_pending<T>(
    step: Operation<T>,
    done: Seq<ReplyModel>,
    more: Seq<ReplyModel>,
    next: Continuation<T>,
    from: int,
)
    requires
        pending(step, done),
        0 <= from <= done.len(),
    ensures
        going(step, done.take(from), done.skip(from) + more, next) == going(
            step,
            done,
            more,
            next,
        ),
    decreases done.len() - from,
{
    let rest = done.skip(from) + more;
    if from < done.len() {
        assert(rest.first() == done[from]);
        assert(done.take(from).push(done[from]) =~= done.take(from + 1));
        assert(rest.drop_first() =~= done.skip(from + 1) + more);
        assert(step(done.take(from + 1)) is Ask);
        going_skips_pending(step, done, more, next, from + 1);
    } else {
        assert(done.take(from) =~= done);
        assert(rest =~= more);
    }
}

proof fn chain_skips_pending<T>(
    step: Operation<T>,
    done: Seq<ReplyModel>,
    more: Seq<ReplyModel>,
    next: Continuation<T>,
)
    requires
        pending(step, done),
    ensures
        chained(step, done + more, next) == going(step, done, more, next),
{
    going_skips_pending(step, done, more, next, 0);
    assert(step(done.take(0)) is Ask);
    assert(done.take(0) =~= Seq::empty());
    assert(done.skip(0) =~= done);
}

/// An operation that still asks is what the chain does.
pub proof fn chain_asks<T>(step: Operation<T>, done: Seq<ReplyModel>, next: Continuation<T>)
    requires
        pending(step, done),
    ensures
        chained(step, done, next) == quietly(Expected::Ask { request: step(done)->request }),
{
    assert(done + Seq::<ReplyModel>::empty() =~= done);
    chain_skips_pending(step, done, Seq::empty(), next);
}

/// A reply after which an operation is done hands the chain on.
pub proof fn chain_goes_on<T>(
    step: Operation<T>,
    done: Seq<ReplyModel>,
    reply: ReplyModel,
    more: Seq<ReplyModel>,
    next: Continuation<T>,
)
    requires
        pending(step, done),
        !(step(done.push(reply)) is Ask),
    ensures
        chained(step, done.push(reply) + more, next) == match step(done.push(reply)) {
            Expected::Done { value } => next(value, more),
            Expected::Fail { error } => quietly(Expected::Fail { error }),
            Expected::Ask { request } => quietly(Expected::Ask { request }),
        },
{
    let rest = seq![reply] + more;
    assert(done.push(reply) + more =~= done + rest);
    chain_skips_pending(step, done, rest, next);
    assert(rest.drop_first() =~= more);
}

proof fn going_agrees<T>(
    a: Operation<T>,
    b: Operation<T>,
    done: Seq<ReplyModel>,
    more: Seq<ReplyModel>,
    next: Continuation<T>,
)
    requires
        forall|row: Seq<ReplyModel>|
            (#[trigger] a(row)) == b(row) || (a(row) is Fail && b(row) is Fail),
        a(done) is Ask,
    ensures
        going(a, done, more, next) == going(b, done, more, next) || (going(
            a,
            done,
            more,
            next,
        ).outcome is Fail && going(b, done, more, next).outcome is Fail),
    decreases more.len(),
{
    assert(a(done) == b(done));
    if more.len() > 0 {
        let now = done.push(more.first());
        assert(a(now) == b(now) || (a(now) is Fail && b(now) is Fail));
        if a(now) is Ask {
            going_agrees(a, b, now, more.drop_first(), next);
        }
    }
}

/// Operations that differ only in why they refuse make chains that differ only in that.
pub proof fn chains_agree<T>(
    a: Operation<T>,
    b: Operation<T>,
    replies: Seq<ReplyModel>,
    next: Continuation<T>,
)
    requires
        forall|row: Seq<ReplyModel>|
            (#[trigger] a(row)) == b(row) || (a(row) is Fail && b(row) is Fail),
    ensures
        chained(a, replies, next) == chained(b, replies, next) || (chained(
            a,
            replies,
            next,
        ).outcome is Fail && chained(b, replies, next).outcome is Fail),
{
    let none = Seq::<ReplyModel>::empty();
    assert(a(none) == b(none) || (a(none) is Fail && b(none) is Fail));
    if a(none) is Ask {
        going_agrees(a, b, none, replies, next);
    }
}

/// An operation that is done with one reply hands the chain on then.
pub proof fn chain_takes_one<T>(
    step: Operation<T>,
    reply: ReplyModel,
    more: Seq<ReplyModel>,
    next: Continuation<T>,
)
    requires
        step(Seq::empty()) is Ask,
        !(step(seq![reply]) is Ask),
    ensures
        chained(step, seq![reply] + more, next) == match step(seq![reply]) {
            Expected::Done { value } => next(value, more),
            Expected::Fail { error } => quietly(Expected::Fail { error }),
            Expected::Ask { request } => quietly(Expected::Ask { request }),
        },
{
    pending_at_start(step);
    assert(Seq::<ReplyModel>::empty().push(reply) =~= seq![reply]);
    chain_goes_on(step, Seq::empty(), reply, more, next);
}

/// An operation hands the chain on after the last of the replies that it needs.
pub proof fn chain_takes_all<T>(
    step: Operation<T>,
    done: Seq<ReplyModel>,
    more: Seq<ReplyModel>,
    next: Continuation<T>,
)
    requires
        done.len() > 0,
        forall|i: int| 0 <= i < done.len() ==> #[trigger] step(done.take(i)) is Ask,
        !(step(done) is Ask),
    ensures
        chained(step, done + more, next) == match step(done) {
            Expected::Done { value } => next(value, more),
            Expected::Fail { error } => quietly(Expected::Fail { error }),
            Expected::Ask { request } => quietly(Expected::Ask { request }),
        },
{
    let front = done.drop_last();
    assert forall|i: int| 0 <= i <= front.len() implies #[trigger] step(front.take(i)) is Ask by {
        assert(front.take(i) =~= done.take(i));
    }
    assert(front.push(done.last()) =~= done);
    chain_goes_on(step, front, done.last(), more, next);
}

/// An operation that needs no reply hands the chain on at once.
pub proof fn chain_starts_done<T>(
    step: Operation<T>,
    more: Seq<ReplyModel>,
    next: Continuation<T>,
)
    requires
        !(step(Seq::empty()) is Ask),
    ensures
        chained(step, more, next) == match step(Seq::empty()) {
            Expected::Done { value } => next(value, more),
            Expected::Fail { error } => quietly(Expected::Fail { error }),
            Expected::Ask { request } => quietly(Expected::Ask { request }),
        },
{
}

/// What a chain does after the replies to its first operation, as long as that needs them all.
pub proof fn chain_follows<T>(
    step: Operation<T>,
    row: Seq<ReplyModel>,
    more: Seq<ReplyModel>,
    next: Continuation<T>,
)
    requires
        forall|i: int| 0 <= i < row.len() ==> #[trigger] step(row.take(i)) is Ask,
    ensures
        match step(row) {
            Expected::Ask { request } => chained(step, row, next) == quietly(
                Expected::Ask { request },
            ),
            Expected::Fail { error } => chained(step, row + more, next) == quietly(
                Expected::Fail { error },
            ),
            Expected::Done { value } => chained(step, row + more, next) == next(value, more),
        },
{
    if step(row) is Ask {
        assert forall|i: int| 0 <= i <= row.len() implies #[trigger] step(row.take(i)) is Ask by {
            if i == row.len() {
                assert(row.take(i) =~= row);
            }
        }
        chain_asks(step, row, next);
    } else if row.len() == 0 {
        assert(row =~= Seq::empty());
        assert(row + more =~= more);
        chain_starts_done(step, more, next);
    } else {
        chain_takes_all(step, row, more, next);
    }
}

/// An operation that asks first is pending before any reply.
pub proof fn pending_at_start<T>(step: Operation<T>)
    requires
        step(Seq::empty()) is Ask,
    ensures
        pending(step, Seq::empty()),
{
    assert forall|i: int| 0 <= i <= 0 implies #[trigger] step(
        Seq::<ReplyModel>::empty().take(i),
    ) is Ask by {
        assert(Seq::<ReplyModel>::empty().take(i) =~= Seq::empty());
    }
}

/// An operation that asks on stays pending.
pub proof fn pending_goes_on<T>(step: Operation<T>, done: Seq<ReplyModel>, reply: ReplyModel)
    requires
        pending(step, done),
        step(done.push(reply)) is Ask,
    ensures
        pending(step, done.push(reply)),
{
    let all = done.push(reply);
    assert forall|i: int| 0 <= i <= all.len() implies #[trigger] step(all.take(i)) is Ask by {
        if i <= done.len() {
            assert(all.take(i) =~= done.take(i));
        } else {
            assert(all.take(i) =~= all);
        }
    }
}

/// What a reply to an operation that is part of a command does to the command.
pub proof fn take_reply<T>(
    whole: Whole,
    replies: Seq<ReplyModel>,
    step: Operation<T>,
    done: Seq<ReplyModel>,
    next: Continuation<T>,
    reply: ReplyModel,
)
    requires
        awaits(whole, replies, step, done, next),
    ensures
        reached(whole, replies.push(reply), step, done.push(reply), next),
{
    let before = |more: Seq<ReplyModel>| chained(step, done + more, next);
    assert forall|more: Seq<ReplyModel>| #[trigger]
        whole(replies.push(reply) + more) == chained(step, done.push(reply) + more, next) by {
        let others = seq![reply] + more;
        assert(replies.push(reply) + more =~= replies + others);
        assert(done.push(reply) + more =~= done + others);
        assert(whole(replies + others) == before(others));
    }
    let none = Seq::<ReplyModel>::empty();
    assert(replies.push(reply) + none =~= replies.push(reply));
    assert(done.push(reply) + none =~= done.push(reply));
    if step(done.push(reply)) is Ask {
        pending_goes_on(step, done, reply);
        chain_asks(step, done.push(reply), next);
    } else {
        assert forall|more: Seq<ReplyModel>| #[trigger]
            whole(replies.push(reply) + more) == match step(done.push(reply)) {
                Expected::Done { value } => next(value, more),
                Expected::Fail { error } => quietly(Expected::Fail { error }),
                Expected::Ask { request } => quietly(Expected::Ask { request }),
            } by {
            chain_goes_on(step, done, reply, more, next);
        }
    }
}

/// What a command does that comes to an operation, with `tell` before it.
pub proof fn start_telling<T>(
    whole: Whole,
    replies: Seq<ReplyModel>,
    tell: Seq<NoticeModel>,
    step: Operation<T>,
    next: Continuation<T>,
)
    requires
        leads(
            whole,
            replies,
            |more: Seq<ReplyModel>| told(tell, more, chained(step, more, next)),
        ),
    ensures
        match step(Seq::empty()) {
            Expected::Ask { request } => {
                &&& whole(replies) == (TurnModel { tell, outcome: Expected::Ask { request } })
                &&& awaits(whole, replies, step, Seq::empty(), next)
            },
            Expected::Done { value } => leads(
                whole,
                replies,
                |more: Seq<ReplyModel>| told(tell, more, next(value, more)),
            ),
            Expected::Fail { error } => whole(replies) == (TurnModel {
                tell,
                outcome: Expected::Fail { error },
            }),
        },
{
    let none = Seq::<ReplyModel>::empty();
    let rest = |more: Seq<ReplyModel>| told(tell, more, chained(step, more, next));
    assert(replies + none =~= replies);
    assert(whole(replies + none) == rest(none));
    assert(tell + Seq::<NoticeModel>::empty() =~= tell);
    if step(none) is Ask {
        pending_at_start(step);
        chain_asks(step, none, next);
        assert forall|more: Seq<ReplyModel>| more.len() > 0 implies #[trigger] whole(
            replies + more,
        ) == chained(step, none + more, next) by {
            assert(none + more =~= more);
            assert(whole(replies + more) == rest(more));
        }
    } else {
        chain_starts_done(step, none, next);
        assert forall|more: Seq<ReplyModel>| #[trigger] whole(replies + more) == told(
            tell,
            more,
            match step(none) {
                Expected::Done { value } => next(value, more),
                Expected::Fail { error } => quietly(Expected::Fail { error }),
                Expected::Ask { request } => quietly(Expected::Ask { request }),
            },
        ) by {
            chain_starts_done(step, more, next);
            assert(whole(replies + more) == rest(more));
        }
    }
}

/// What a command does that comes to an operation.
pub proof fn start<T>(
    whole: Whole,
    replies: Seq<ReplyModel>,
    step: Operation<T>,
    next: Continuation<T>,
)
    requires
        leads(whole, replies, |more: Seq<ReplyModel>| chained(step, more, next)),
    ensures
        reached(whole, replies, step, Seq::empty(), next),
{
    let rest = |more: Seq<ReplyModel>| chained(step, more, next);
    let tell = Seq::<NoticeModel>::empty();
    assert forall|more: Seq<ReplyModel>| #[trigger] whole(replies + more) == told(
        tell,
        more,
        chained(step, more, next),
    ) by {
        assert(whole(replies + more) == rest(more));
        assert(tell + rest(more).tell =~= rest(more).tell);
    }
    start_telling(whole, replies, tell, step, next);
    if let Expected::Done { value } = step(Seq::empty()) {
        let told_rest = |more: Seq<ReplyModel>| told(tell, more, next(value, more));
        assert forall|more: Seq<ReplyModel>| #[trigger] whole(replies + more) == next(
            value,
            more,
        ) by {
            assert(whole(replies + more) == told_rest(more));
            assert(tell + next(value, more).tell =~= next(value, more).tell);
        }
    }
}

/// What a command does now, where that is known of all that may follow.
pub proof fn leads_now(whole: Whole, replies: Seq<ReplyModel>, rest: Whole)
    requires
        leads(whole, replies, rest),
    ensures
        whole(replies) == rest(Seq::empty()),
{
    let none = Seq::<ReplyModel>::empty();
    assert(replies + none =~= replies);
    assert(whole(replies + none) == rest(none));
}

/// Before any reply, a command is all that there is to do.
pub proof fn leads_at_start(whole: Whole)
    ensures
        leads(whole, Seq::empty(), whole),
{
    assert forall|more: Seq<ReplyModel>| #[trigger]
        whole(Seq::<ReplyModel>::empty() + more) == whole(more) by {
        assert(Seq::<ReplyModel>::empty() + more =~= more);
    }
}

/// A turn without a word.
pub fn say_nothing<M>(outcome: Outcome<M, ()>) -> (r: Turn<M>)
    ensures
        r.deep_view() == quietly(outcome.deep_view()),
        r.outcome == outcome,
{
    let tell: Vec<Notice> = Vec::new();
    assert(tell.deep_view() =~= Seq::empty());
    Turn { tell, outcome }
}

} // verus!
