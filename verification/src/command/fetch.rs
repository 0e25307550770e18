//! The command that fetches every linked commit that the history records.

use crate::collect::{collect_all_link_refs, collect_step, CollectRefs};
use crate::command::args::LinkFetchArgs;
use crate::command::shared::{head_request, make_head_request, make_select_request, select_request};
use crate::error::LinkErrorOf;
use crate::link::{LinkRef, LinkRefModel};
use crate::notice::{Notice, NoticeModel, NoticeOf};
use crate::oid::{hex_reading, ObjectId};
use crate::step::{
    asks, asks_plainly, ActionOf, Expected, Outcome, Reply, ReplyModel, Request, RequestModel,
    RequestOf,
};
use crate::text::wrap;
use crate::turn::{
    awaits, chain_asks, chain_takes_all, chain_takes_one, chained, finally, for_finish, for_flag,
    for_id, leads, leads_at_start, leads_now, quietly, reached, say_nothing, start, start_telling,
    take_reply, told, Continuation, Operation, Turn, TurnModel, Whole,
};
use vstd::prelude::*;
use vstd::string::*;

verus! {

/// What git is asked to fetch for a linked commit: the commit, into a reference of its own.
pub open spec fn fetch_refspec(commit: Seq<char>) -> Seq<char> {
    commit + ":refs/josh/link-shas/"@ + commit
}

/// The request that fetches a linked commit.
pub open spec fn fetch_request(found: LinkRefModel) -> RequestModel {
    asks(
        ActionOf::Git {
            verb: "fetch"@,
            remote: found.remote,
            refspec: fetch_refspec(found.commit),
        },
        "git fetch of "@ + found.commit + " from "@ + found.remote + " failed"@,
    )
}

/// Fetches the linked commits from the number `at` on that are not there yet. Those before it were
/// `fetched` and `skipped` in such numbers.
pub open spec fn fetch_each(
    refs: Seq<LinkRefModel>,
    at: int,
    fetched: int,
    skipped: int,
    replies: Seq<ReplyModel>,
) -> TurnModel
    decreases refs.len() - at,
{
    if at >= refs.len() {
        finally(
            seq![NoticeOf::FetchedAll { fetched: fetched as usize, skipped: skipped as usize }],
        )
    } else {
        match hex_reading(refs[at].commit) {
            Err(cause) => quietly(
                Expected::Fail {
                    error: LinkErrorOf::InvalidCommitSha { commit: refs[at].commit, cause },
                },
            ),
            Ok(id) => chained(
                for_flag(asks_plainly(ActionOf::HasObject { id })),
                replies,
                |present: bool, more: Seq<ReplyModel>|
                    if present {
                        fetch_each(refs, at + 1, fetched, skipped + 1, more)
                    } else {
                        told(
                            seq![
                                NoticeOf::Fetching {
                                    what: refs[at].commit,
                                    remote: refs[at].remote,
                                },
                            ],
                            more,
                            chained(
                                for_finish(fetch_request(refs[at])),
                                more,
                                |u: (), rest: Seq<ReplyModel>|
                                    fetch_each(refs, at + 1, fetched + 1, skipped, rest),
                            ),
                        )
                    },
            ),
        }
    }
}

/// The fetch of the linked commits from the number `at` on, once it is known whether that one is
/// there.
pub open spec fn then_present(
    refs: Seq<LinkRefModel>,
    at: int,
    fetched: int,
    skipped: int,
) -> Continuation<bool> {
    |present: bool, more: Seq<ReplyModel>|
        if present {
            fetch_each(refs, at + 1, fetched, skipped + 1, more)
        } else {
            told(
                seq![NoticeOf::Fetching { what: refs[at].commit, remote: refs[at].remote }],
                more,
                chained(
                    for_finish(fetch_request(refs[at])),
                    more,
                    then_fetched(refs, at, fetched, skipped),
                ),
            )
        }
}

/// The fetch of the linked commits from the number `at` on, once that one is fetched.
pub open spec fn then_fetched(
    refs: Seq<LinkRefModel>,
    at: int,
    fetched: int,
    skipped: int,
) -> Continuation<()> {
    |u: (), more: Seq<ReplyModel>| fetch_each(refs, at + 1, fetched + 1, skipped, more)
}

/// The question whether an object is there.
pub open spec fn asking_for(id: ObjectId) -> Operation<bool> {
    for_flag(asks_plainly(ActionOf::HasObject { id }))
}

pub(crate) proof fn fetch_each_asks(
    refs: Seq<LinkRefModel>,
    at: int,
    fetched: int,
    skipped: int,
    id: ObjectId,
    replies: Seq<ReplyModel>,
)
    requires
        0 <= at < refs.len(),
        hex_reading(refs[at].commit) == Ok::<ObjectId, crate::oid::HexError>(id),
    ensures
        fetch_each(refs, at, fetched, skipped, replies) == chained(
            asking_for(id),
            replies,
            then_present(refs, at, fetched, skipped),
        ),
{
}

/// An operation as part of a larger one, of which `context` is said where it fails.
pub open spec fn inside<T>(step: Expected<T>, context: Seq<char>) -> Expected<T> {
    match step {
        Expected::Ask { request } => Expected::Ask {
            request: RequestOf { within: Some(context), ..request },
        },
        _ => step,
    }
}

/// The collection of linked commits, as an operation.
pub open spec fn collecting(commit: ObjectId) -> Operation<Seq<LinkRefModel>> {
    |replies: Seq<ReplyModel>|
        inside(collect_step(commit, replies), "Failed to collect link refs from history"@)
}

/// The command after the linked commits are collected.
pub open spec fn then_fetch_all() -> Continuation<Seq<LinkRefModel>> {
    |refs: Seq<LinkRefModel>, more: Seq<ReplyModel>|
        if refs.len() == 0 {
            finally(seq![NoticeOf::NoReferences])
        } else {
            told(
                seq![NoticeOf::FoundReferences { count: refs.len() as usize }],
                more,
                fetch_each(refs, 0, 0, 0, more),
            )
        }
}

/// The command after the commit is found whose history is searched.
pub open spec fn then_collect() -> Continuation<ObjectId> {
    |commit: ObjectId, more: Seq<ReplyModel>|
        chained(collecting(commit), more, then_fetch_all())
}

/// The command after the commit that is checked out is found.
pub open spec fn then_select(filter: Option<Seq<char>>) -> Continuation<ObjectId> {
    |head: ObjectId, more: Seq<ReplyModel>|
        match filter {
            Some(filter) => chained(for_id(select_request(filter, head)), more, then_collect()),
            None => then_collect()(head, more),
        }
}

/// What the command does after `replies`: it finds the commit that is checked out, narrows it to
/// what the filter selects, where one is given, collects the linked commits of its history, and
/// fetches those that are not there.
pub open spec fn fetch_turn(filter: Option<Seq<char>>, replies: Seq<ReplyModel>) -> TurnModel {
    chained(for_id(head_request()), replies, then_select(filter))
}

/// The command, as what it does after a row of replies.
spec fn whole_fetch(filter: Option<Seq<char>>) -> Whole {
    |replies: Seq<ReplyModel>| fetch_turn(filter, replies)
}

/// What the fetch of linked commits waits for.
enum FetchLinksPhase {
    /// The commit that is checked out.
    Head,
    /// The commit narrowed to what the filter selects.
    Select { request: Ghost<RequestModel> },
    /// Whatever the collection of linked commits waits for.
    Collect { collect: CollectRefs },
    /// Whether the linked commit number `at` is there.
    Present { refs: Vec<LinkRef>, at: usize, fetched: usize, skipped: usize, id: ObjectId },
    /// The linked commit number `at`.
    Fetch { refs: Vec<LinkRef>, at: usize, fetched: usize, skipped: usize },
}

/// The fetch of linked commits that waits for a reply.
pub struct FetchLinks {
    filter: Option<String>,
    phase: FetchLinksPhase,
    replies: Ghost<Seq<ReplyModel>>,
}

impl FetchLinks {
    /// The filter that selects which links are considered.
    pub closed spec fn filter(self) -> Option<Seq<char>> {
        self.filter.deep_view()
    }

    /// The replies so far.
    pub closed spec fn replies(self) -> Seq<ReplyModel> {
        self.replies@
    }

    #[verifier::type_invariant]
    spec fn consistent(self) -> bool {
        let whole = whole_fetch(self.filter.deep_view());
        let none = Seq::<ReplyModel>::empty();
        match self.phase {
            FetchLinksPhase::Head => awaits(
                whole,
                self.replies@,
                for_id(head_request()),
                none,
                then_select(self.filter.deep_view()),
            ),
            FetchLinksPhase::Select { request } => awaits(
                whole,
                self.replies@,
                for_id(request@),
                none,
                then_collect(),
            ),
            FetchLinksPhase::Collect { collect } => awaits(
                whole,
                self.replies@,
                collecting(collect.commit()),
                collect.replies(),
                then_fetch_all(),
            ),
            FetchLinksPhase::Present { refs, at, fetched, skipped, id } => {
                &&& at < refs@.len()
                &&& fetched + skipped == at
                &&& awaits(
                    whole,
                    self.replies@,
                    asking_for(id),
                    none,
                    then_present(refs.deep_view(), at as int, fetched as int, skipped as int),
                )
            },
            FetchLinksPhase::Fetch { refs, at, fetched, skipped } => {
                &&& at < refs@.len()
                &&& fetched + skipped == at
                &&& awaits(
                    whole,
                    self.replies@,
                    for_finish(fetch_request(refs.deep_view()[at as int])),
                    none,
                    then_fetched(refs.deep_view(), at as int, fetched as int, skipped as int),
                )
            },
        }
    }
}

/// Makes the request that fetches a linked commit.
fn make_fetch_request(found: &LinkRef) -> (r: Request)
    ensures
        r.deep_view() == fetch_request(found.deep_view()),
{
    let refspec = wrap(found.commit.as_str(), ":refs/josh/link-shas/", found.commit.as_str());
    let mut context: String = wrap("git fetch of ", found.commit.as_str(), " from ");
    context.append(found.remote.as_str());
    context.append(" failed");
    Request::with_context(
        ActionOf::Git { verb: "fetch".to_owned(), remote: found.remote.clone(), refspec },
        context,
    )
}

impl FetchLinks {
    /// Goes on with the linked commit number `at`, after `tell`.
    fn advance(
        filter: Option<String>,
        tell: Vec<Notice>,
        refs: Vec<LinkRef>,
        at: usize,
        fetched: usize,
        skipped: usize,
        Ghost(replies): Ghost<Seq<ReplyModel>>,
    ) -> (r: Turn<FetchLinks>)
        requires
            at <= refs@.len(),
            fetched + skipped == at,
            leads(
                whole_fetch(filter.deep_view()),
                replies,
                |more: Seq<ReplyModel>|
                    told(
                        tell.deep_view(),
                        more,
                        fetch_each(
                            refs.deep_view(),
                            at as int,
                            fetched as int,
                            skipped as int,
                            more,
                        ),
                    ),
            ),
        ensures
            r.deep_view() == fetch_turn(filter.deep_view(), replies),
            r.outcome matches Outcome::Ask { request, next } ==> next.filter()
                == filter.deep_view() && next.replies() == replies,
    {
        let ghost whole = whole_fetch(filter.deep_view());
        let ghost all = refs.deep_view();
        let ghost said = tell.deep_view();
        let ghost rest = |more: Seq<ReplyModel>|
            told(said, more, fetch_each(all, at as int, fetched as int, skipped as int, more));
        assert(whole(replies) == fetch_turn(filter.deep_view(), replies));
        proof {
            leads_now(whole, replies, rest);
        }
        let mut tell = tell;
        if at == refs.len() {
            tell.push(NoticeOf::FetchedAll { fetched, skipped });
            assert(tell.deep_view() =~= said + seq![
                NoticeModel::FetchedAll { fetched, skipped },
            ]);
            return Turn { tell, outcome: Outcome::Done { value: () } };
        }
        assert(all[at as int] == refs@[at as int].deep_view());
        match ObjectId::from_hex(refs[at].commit.as_str()) {
            Err(cause) => {
                assert(said + Seq::<NoticeModel>::empty() =~= said);
                Turn {
                    tell,
                    outcome: Outcome::Fail {
                        error: LinkErrorOf::InvalidCommitSha {
                            commit: refs[at].commit.clone(),
                            cause,
                        },
                    },
                }
            },
            Ok(id) => {
                proof {
                    let next = then_present(all, at as int, fetched as int, skipped as int);
                    assert forall|more: Seq<ReplyModel>| #[trigger] whole(replies + more) == told(
                        said,
                        more,
                        chained(asking_for(id), more, next),
                    ) by {
                        assert(whole(replies + more) == rest(more));
                        fetch_each_asks(
                            all,
                            at as int,
                            fetched as int,
                            skipped as int,
                            id,
                            more,
                        );
                    }
                    start_telling(whole, replies, said, asking_for(id), next);
                }
                Turn {
                    tell,
                    outcome: Outcome::Ask {
                        request: Request::plain(ActionOf::HasObject { id }),
                        next: FetchLinks {
                            filter,
                            phase: FetchLinksPhase::Present { refs, at, fetched, skipped, id },
                            replies: Ghost(replies),
                        },
                    },
                }
            },
        }
    }

    /// Goes on as the collection of linked commits does.
    fn follow(
        filter: Option<String>,
        outcome: Outcome<CollectRefs, Vec<LinkRef>>,
        Ghost(replies): Ghost<Seq<ReplyModel>>,
        Ghost(commit): Ghost<ObjectId>,
        Ghost(done): Ghost<Seq<ReplyModel>>,
    ) -> (r: Turn<FetchLinks>)
        requires
            outcome.deep_view() == collect_step(commit, done),
            outcome matches Outcome::Ask { request, next } ==> next.commit() == commit
                && next.replies() == done,
            reached(
                whole_fetch(filter.deep_view()),
                replies,
                collecting(commit),
                done,
                then_fetch_all(),
            ),
        ensures
            r.deep_view() == fetch_turn(filter.deep_view(), replies),
            r.outcome matches Outcome::Ask { request, next } ==> next.filter()
                == filter.deep_view() && next.replies() == replies,
    {
        let ghost whole = whole_fetch(filter.deep_view());
        assert(whole(replies) == fetch_turn(filter.deep_view(), replies));
        match outcome {
            Outcome::Ask { request, next } => {
                let RequestOf { action, context, within: _ } = request;
                say_nothing(
                    Outcome::Ask {
                        request: RequestOf {
                            action,
                            context,
                            within: Some("Failed to collect link refs from history".to_owned()),
                        },
                        next: FetchLinks {
                            filter,
                            phase: FetchLinksPhase::Collect { collect: next },
                            replies: Ghost(replies),
                        },
                    },
                )
            },
            Outcome::Done { value: refs } => {
                let ghost all = refs.deep_view();
                let ghost rest = |more: Seq<ReplyModel>| then_fetch_all()(all, more);
                let mut tell: Vec<Notice> = Vec::new();
                if refs.len() == 0 {
                    tell.push(NoticeOf::NoReferences);
                    assert(tell.deep_view() =~= seq![NoticeModel::NoReferences]);
                    proof {
                        leads_now(whole, replies, rest);
                    }
                    Turn { tell, outcome: Outcome::Done { value: () } }
                } else {
                    tell.push(NoticeOf::FoundReferences { count: refs.len() });
                    let ghost said = seq![
                        NoticeModel::FoundReferences { count: all.len() as usize },
                    ];
                    assert(tell.deep_view() =~= said);
                    proof {
                        assert forall|more: Seq<ReplyModel>| #[trigger] whole(replies + more)
                            == told(tell.deep_view(), more, fetch_each(all, 0, 0, 0, more)) by {
                            assert(whole(replies + more) == rest(more));
                        }
                    }
                    FetchLinks::advance(filter, tell, refs, 0, 0, 0, Ghost(replies))
                }
            },
            Outcome::Fail { error } => say_nothing(Outcome::Fail { error }),
        }
    }

    /// Goes on with the collection of the linked commits in the history of `commit`.
    fn collect(
        filter: Option<String>,
        commit: ObjectId,
        Ghost(replies): Ghost<Seq<ReplyModel>>,
    ) -> (r: Turn<FetchLinks>)
        requires
            leads(
                whole_fetch(filter.deep_view()),
                replies,
                |more: Seq<ReplyModel>| then_collect()(commit, more),
            ),
        ensures
            r.deep_view() == fetch_turn(filter.deep_view(), replies),
            r.outcome matches Outcome::Ask { request, next } ==> next.filter()
                == filter.deep_view() && next.replies() == replies,
    {
        proof {
            start(
                whole_fetch(filter.deep_view()),
                replies,
                collecting(commit),
                then_fetch_all(),
            );
        }
        FetchLinks::follow(
            filter,
            collect_all_link_refs(commit),
            Ghost(replies),
            Ghost(commit),
            Ghost(Seq::empty()),
        )
    }

    /// Takes the reply to what was asked.
    pub fn resume(self, reply: Reply) -> (r: Turn<FetchLinks>)
        ensures
            r.deep_view() == fetch_turn(self.filter(), self.replies().push(reply.deep_view())),
            r.outcome matches Outcome::Ask { request, next } ==> next.filter() == self.filter()
                && next.replies() == self.replies().push(reply.deep_view()),
    {
        proof {
            use_type_invariant(&self);
        }
        let ghost before = self.replies@;
        let ghost answer = reply.deep_view();
        let ghost replies = before.push(answer);
        let ghost none = Seq::<ReplyModel>::empty();
        let ghost whole = whole_fetch(self.filter.deep_view());
        assert(whole(replies) == fetch_turn(self.filter.deep_view(), replies));
        let FetchLinks { filter, phase, replies: _ } = self;
        match phase {
            FetchLinksPhase::Head => {
                proof {
                    take_reply(
                        whole,
                        before,
                        for_id(head_request()),
                        none,
                        then_select(filter.deep_view()),
                        answer,
                    );
                }
                match reply {
                    Reply::Id(head) => match &filter {
                        Some(text) => {
                            let request = make_select_request(text.as_str(), head);
                            let ghost asked = select_request(text@, head);
                            proof {
                                start(whole, replies, for_id(asked), then_collect());
                            }
                            say_nothing(
                                Outcome::Ask {
                                    request,
                                    next: FetchLinks {
                                        filter,
                                        phase: FetchLinksPhase::Select { request: Ghost(asked) },
                                        replies: Ghost(replies),
                                    },
                                },
                            )
                        },
                        None => FetchLinks::collect(filter, head, Ghost(replies)),
                    },
                    reply => say_nothing(Outcome::Fail { error: reply.refusal() }),
                }
            },
            FetchLinksPhase::Select { request } => {
                proof {
                    take_reply(whole, before, for_id(request@), none, then_collect(), answer);
                }
                match reply {
                    Reply::Id(commit) => FetchLinks::collect(filter, commit, Ghost(replies)),
                    reply => say_nothing(Outcome::Fail { error: reply.refusal() }),
                }
            },
            FetchLinksPhase::Collect { collect } => {
                let ghost commit = collect.commit();
                let ghost done = collect.replies();
                proof {
                    take_reply(
                        whole,
                        before,
                        collecting(commit),
                        done,
                        then_fetch_all(),
                        answer,
                    );
                }
                FetchLinks::follow(
                    filter,
                    collect.resume(reply),
                    Ghost(replies),
                    Ghost(commit),
                    Ghost(done.push(answer)),
                )
            },
            FetchLinksPhase::Present { refs, at, fetched, skipped, id } => {
                let count: usize = refs.len();
                let ghost all = refs.deep_view();
                let ghost next = then_present(all, at as int, fetched as int, skipped as int);
                proof {
                    take_reply(whole, before, asking_for(id), none, next, answer);
                }
                let mut tell: Vec<Notice> = Vec::new();
                match reply {
                    Reply::Flag(true) => {
                        assert(tell.deep_view() =~= Seq::empty());
                        proof {
                            let rest = |more: Seq<ReplyModel>| next(true, more);
                            assert forall|more: Seq<ReplyModel>| #[trigger]
                                whole(replies + more) == told(
                                tell.deep_view(),
                                more,
                                fetch_each(all, at + 1, fetched as int, skipped + 1, more),
                            ) by {
                                assert(whole(replies + more) == rest(more));
                                assert(Seq::<NoticeModel>::empty() + rest(more).tell
                                    =~= rest(more).tell);
                            }
                        }
                        FetchLinks::advance(
                            filter,
                            tell,
                            refs,
                            at + 1,
                            fetched,
                            skipped + 1,
                            Ghost(replies),
                        )
                    },
                    Reply::Flag(false) => {
                        let request = make_fetch_request(&refs[at]);
                        assert(all[at as int] == refs@[at as int].deep_view());
                        tell.push(
                            NoticeOf::Fetching {
                                what: refs[at].commit.clone(),
                                remote: refs[at].remote.clone(),
                            },
                        );
                        let ghost said = seq![
                            NoticeModel::Fetching {
                                what: all[at as int].commit,
                                remote: all[at as int].remote,
                            },
                        ];
                        assert(tell.deep_view() =~= said);
                        proof {
                            let rest = |more: Seq<ReplyModel>| next(false, more);
                            assert forall|more: Seq<ReplyModel>| #[trigger]
                                whole(replies + more) == told(
                                said,
                                more,
                                chained(
                                    for_finish(fetch_request(all[at as int])),
                                    more,
                                    then_fetched(all, at as int, fetched as int, skipped as int),
                                ),
                            ) by {
                                assert(whole(replies + more) == rest(more));
                            }
                            start_telling(
                                whole,
                                replies,
                                said,
                                for_finish(fetch_request(all[at as int])),
                                then_fetched(all, at as int, fetched as int, skipped as int),
                            );
                        }
                        Turn {
                            tell,
                            outcome: Outcome::Ask {
                                request,
                                next: FetchLinks {
                                    filter,
                                    phase: FetchLinksPhase::Fetch { refs, at, fetched, skipped },
                                    replies: Ghost(replies),
                                },
                            },
                        }
                    },
                    reply => say_nothing(Outcome::Fail { error: reply.refusal() }),
                }
            },
            FetchLinksPhase::Fetch { refs, at, fetched, skipped } => {
                let count: usize = refs.len();
                let ghost all = refs.deep_view();
                let ghost next = then_fetched(all, at as int, fetched as int, skipped as int);
                proof {
                    take_reply(
                        whole,
                        before,
                        for_finish(fetch_request(all[at as int])),
                        none,
                        next,
                        answer,
                    );
                }
                match reply {
                    Reply::Finished => {
                        let tell: Vec<Notice> = Vec::new();
                        assert(tell.deep_view() =~= Seq::empty());
                        proof {
                            let rest = |more: Seq<ReplyModel>| next((), more);
                            assert forall|more: Seq<ReplyModel>| #[trigger]
                                whole(replies + more) == told(
                                tell.deep_view(),
                                more,
                                fetch_each(all, at + 1, fetched + 1, skipped as int, more),
                            ) by {
                                assert(whole(replies + more) == rest(more));
                                assert(Seq::<NoticeModel>::empty() + rest(more).tell
                                    =~= rest(more).tell);
                            }
                        }
                        FetchLinks::advance(
                            filter,
                            tell,
                            refs,
                            at + 1,
                            fetched + 1,
                            skipped,
                            Ghost(replies),
                        )
                    },
                    reply => say_nothing(Outcome::Fail { error: reply.refusal() }),
                }
            },
        }
    }
}

/// Starts the fetch of every linked commit that the history records.
pub fn handle_link_fetch(args: &LinkFetchArgs) -> (r: Turn<FetchLinks>)
    ensures
        r.deep_view() == fetch_turn(args.filter.deep_view(), Seq::empty()),
        r.outcome matches Outcome::Ask { request, next } && next.filter()
            == args.filter.deep_view() && next.replies() == Seq::<ReplyModel>::empty(),
{
    let filter = args.filter.clone();
    proof {
        let whole = whole_fetch(filter.deep_view());
        leads_at_start(whole);
        assert(whole(Seq::empty()) == fetch_turn(filter.deep_view(), Seq::empty()));
        start(whole, Seq::empty(), for_id(head_request()), then_select(filter.deep_view()));
    }
    say_nothing(
        Outcome::Ask {
            request: make_head_request(),
            next: FetchLinks {
                filter,
                phase: FetchLinksPhase::Head,
                replies: Ghost(Seq::empty()),
            },
        },
    )
}

/// How many of `flags` are set.
pub open spec fn set_flags(flags: Seq<bool>) -> nat
    decreases flags.len(),
{
    if flags.len() == 0 {
        0
    } else {
        set_flags(flags.drop_first()) + if flags.first() {
            1nat
        } else {
            0nat
        }
    }
}

/// The replies to a fetch of linked commits. `present` says of each whether it is there already;
/// behind the answer for one that is not follows the end of its fetch.
pub open spec fn fetch_replies(present: Seq<bool>) -> Seq<ReplyModel>
    decreases present.len(),
{
    if present.len() == 0 {
        Seq::empty()
    } else if present.first() {
        seq![ReplyModel::Flag(true)] + fetch_replies(present.drop_first())
    } else {
        seq![ReplyModel::Flag(false), ReplyModel::Finished] + fetch_replies(present.drop_first())
    }
}

proof fn absent_commits_are_fetched_from(
    refs: Seq<LinkRefModel>,
    at: int,
    fetched: int,
    skipped: int,
    present: Seq<bool>,
)
    requires
        0 <= at <= refs.len(),
        present.len() == refs.len() - at,
        forall|i: int|
            at <= i < refs.len() ==> hex_reading((#[trigger] refs[i]).commit) is Ok,
    ensures
        fetch_each(refs, at, fetched, skipped, fetch_replies(present)) == finally(
            seq![
                NoticeOf::FetchedAll {
                    fetched: (fetched + present.len() - set_flags(present)) as usize,
                    skipped: (skipped + set_flags(present)) as usize,
                },
            ],
        ),
    decreases present.len(),
{
    if present.len() > 0 {
        let id = hex_reading(refs[at].commit)->Ok_0;
        let rest = present.drop_first();
        let answer = ReplyModel::Flag(present.first());
        let more = if present.first() {
            fetch_replies(rest)
        } else {
            seq![ReplyModel::Finished] + fetch_replies(rest)
        };
        let next = then_present(refs, at, fetched, skipped);
        fetch_each_asks(refs, at, fetched, skipped, id, fetch_replies(present));
        assert(fetch_replies(present) =~= seq![answer] + more);
        chain_takes_one(asking_for(id), answer, more, next);
        if present.first() {
            absent_commits_are_fetched_from(refs, at + 1, fetched, skipped + 1, rest);
        } else {
            chain_takes_one(
                for_finish(fetch_request(refs[at])),
                ReplyModel::Finished,
                fetch_replies(rest),
                then_fetched(refs, at, fetched, skipped),
            );
            absent_commits_are_fetched_from(refs, at + 1, fetched + 1, skipped, rest);
        }
    }
}

/// However a fetch comes to its end, the numbers in its last words add up to the number of linked
/// commits.
pub proof fn fetched_and_skipped_add_up(
    refs: Seq<LinkRefModel>,
    at: int,
    fetched: int,
    skipped: int,
    replies: Seq<ReplyModel>,
)
    requires
        0 <= at <= refs.len(),
        0 <= fetched,
        0 <= skipped,
        fetched + skipped == at,
        refs.len() <= usize::MAX,
        fetch_each(refs, at, fetched, skipped, replies).outcome is Done,
    ensures
        ({
            let tell = fetch_each(refs, at, fetched, skipped, replies).tell;
            &&& tell.len() > 0
            &&& tell.last() matches NoticeOf::FetchedAll { fetched: f, skipped: s } && f + s
                == refs.len()
        }),
    decreases refs.len() - at,
{
    if at < refs.len() {
        let id = hex_reading(refs[at].commit)->Ok_0;
        fetch_each_asks(refs, at, fetched, skipped, id, replies);
        let more = replies.drop_first();
        if replies.first() == ReplyModel::Flag(true) {
            fetched_and_skipped_add_up(refs, at + 1, fetched, skipped + 1, more);
        } else {
            fetched_and_skipped_add_up(refs, at + 1, fetched + 1, skipped, more.drop_first());
        }
    }
}

/// The replies to the search for the commit whose history is searched: the commit that is checked
/// out, and what the filter selects of it, where one is given.
pub open spec fn select_replies(
    filter: Option<Seq<char>>,
    head: ObjectId,
    selected: ObjectId,
) -> Seq<ReplyModel> {
    match filter {
        Some(_) => seq![ReplyModel::Id(head), ReplyModel::Id(selected)],
        None => seq![ReplyModel::Id(head)],
    }
}

/// The commit whose history is searched.
pub open spec fn searched_commit(
    filter: Option<Seq<char>>,
    head: ObjectId,
    selected: ObjectId,
) -> ObjectId {
    match filter {
        Some(_) => selected,
        None => head,
    }
}

/// Whether `refs` are what is collected from `commit` with the replies `collected`.
pub open spec fn collects(
    commit: ObjectId,
    collected: Seq<ReplyModel>,
    refs: Seq<LinkRefModel>,
) -> bool {
    &&& collect_step(commit, collected) == (Expected::Done { value: refs })
    &&& forall|i: int|
        0 <= i < collected.len() ==> #[trigger] collect_step(commit, collected.take(i)) is Ask
}

pub(crate) proof fn commit_is_selected_first(
    filter: Option<Seq<char>>,
    head: ObjectId,
    selected: ObjectId,
    more: Seq<ReplyModel>,
)
    ensures
        fetch_turn(filter, select_replies(filter, head, selected) + more) == chained(
            collecting(searched_commit(filter, head, selected)),
            more,
            then_fetch_all(),
        ),
{
    let from_selected = seq![ReplyModel::Id(selected)] + more;
    let rest = if filter is Some {
        from_selected
    } else {
        more
    };
    assert(select_replies(filter, head, selected) + more =~= seq![ReplyModel::Id(head)] + rest);
    chain_takes_one(for_id(head_request()), ReplyModel::Id(head), rest, then_select(filter));
    if let Some(text) = filter {
        chain_takes_one(
            for_id(select_request(text, head)),
            ReplyModel::Id(selected),
            more,
            then_collect(),
        );
    }
}

pub(crate) proof fn commits_are_collected_next(
    filter: Option<Seq<char>>,
    head: ObjectId,
    selected: ObjectId,
    collected: Seq<ReplyModel>,
    refs: Seq<LinkRefModel>,
    more: Seq<ReplyModel>,
)
    requires
        collects(searched_commit(filter, head, selected), collected, refs),
    ensures
        fetch_turn(filter, select_replies(filter, head, selected) + collected + more)
            == then_fetch_all()(refs, more),
{
    let from = searched_commit(filter, head, selected);
    let first = select_replies(filter, head, selected);
    assert(first + collected + more =~= first + (collected + more));
    commit_is_selected_first(filter, head, selected, collected + more);
    assert forall|i: int| 0 <= i < collected.len() implies #[trigger] collecting(from)(
        collected.take(i),
    ) is Ask by {
        assert(collect_step(from, collected.take(i)) is Ask);
    }
    chain_takes_all(collecting(from), collected, more, then_fetch_all());
}

/// Every linked commit that was collected, from the commit that is checked out or from what the
/// filter selects of it, is looked for, those that are not there are fetched, and the last words
/// say how many there were of either. Where none was collected, that is said.
pub proof fn absent_commits_are_fetched(
    filter: Option<Seq<char>>,
    head: ObjectId,
    selected: ObjectId,
    collected: Seq<ReplyModel>,
    refs: Seq<LinkRefModel>,
    present: Seq<bool>,
)
    requires
        collects(searched_commit(filter, head, selected), collected, refs),
        present.len() == refs.len(),
        forall|i: int| 0 <= i < refs.len() ==> hex_reading((#[trigger] refs[i]).commit) is Ok,
    ensures
        fetch_turn(
            filter,
            select_replies(filter, head, selected) + collected + fetch_replies(present),
        ) == finally(
            seq![
                if refs.len() == 0 {
                    NoticeOf::NoReferences
                } else {
                    NoticeOf::FetchedAll {
                        fetched: (present.len() - set_flags(present)) as usize,
                        skipped: set_flags(present) as usize,
                    }
                },
            ],
        ),
{
    let fetches = fetch_replies(present);
    commits_are_collected_next(filter, head, selected, collected, refs, fetches);
    absent_commits_are_fetched_from(refs, 0, 0, 0, present);
}

/// The objects that are there after the linked commits are fetched, where those of `store` were
/// there before.
pub open spec fn store_after(refs: Seq<LinkRefModel>, store: Set<ObjectId>) -> Set<ObjectId>
    decreases refs.len(),
{
    if refs.len() == 0 {
        store
    } else {
        store_after(refs.drop_first(), store.insert(hex_reading(refs.first().commit)->Ok_0))
    }
}

/// Which of the linked commits are there when they are looked for, one after the other: those of
/// `store`, and those that were fetched since.
pub open spec fn present_in(refs: Seq<LinkRefModel>, store: Set<ObjectId>) -> Seq<bool>
    decreases refs.len(),
{
    if refs.len() == 0 {
        Seq::empty()
    } else {
        let id = hex_reading(refs.first().commit)->Ok_0;
        seq![store.contains(id)] + present_in(refs.drop_first(), store.insert(id))
    }
}

proof fn present_in_covers(refs: Seq<LinkRefModel>, store: Set<ObjectId>)
    ensures
        present_in(refs, store).len() == refs.len(),
        store.subset_of(store_after(refs, store)),
        forall|i: int|
            0 <= i < refs.len() ==> store_after(refs, store).contains(
                hex_reading((#[trigger] refs[i]).commit)->Ok_0,
            ),
    decreases refs.len(),
{
    if refs.len() > 0 {
        let id = hex_reading(refs.first().commit)->Ok_0;
        let rest = refs.drop_first();
        present_in_covers(rest, store.insert(id));
        assert forall|i: int| 0 <= i < refs.len() implies store_after(refs, store).contains(
            hex_reading((#[trigger] refs[i]).commit)->Ok_0,
        ) by {
            if i > 0 {
                assert(refs[i] == rest[i - 1]);
            }
        }
    }
}

proof fn all_are_present(refs: Seq<LinkRefModel>, store: Set<ObjectId>)
    requires
        forall|i: int|
            0 <= i < refs.len() ==> store.contains(
                hex_reading((#[trigger] refs[i]).commit)->Ok_0,
            ),
    ensures
        present_in(refs, store).len() == refs.len(),
        forall|i: int| 0 <= i < refs.len() ==> #[trigger] present_in(refs, store)[i],
        set_flags(present_in(refs, store)) == refs.len(),
    decreases refs.len(),
{
    if refs.len() > 0 {
        let id = hex_reading(refs.first().commit)->Ok_0;
        let rest = refs.drop_first();
        let flags = present_in(refs, store);
        assert(refs[0] == refs.first());
        assert forall|i: int| 0 <= i < rest.len() implies store.insert(id).contains(
            hex_reading((#[trigger] rest[i]).commit)->Ok_0,
        ) by {
            assert(rest[i] == refs[i + 1]);
        }
        all_are_present(rest, store.insert(id));
        assert(flags.drop_first() =~= present_in(rest, store.insert(id)));
    }
}

/// Whether a turn asks for git to be run.
pub open spec fn runs_git(turn: TurnModel) -> bool {
    turn.outcome matches Expected::Ask { request } && request.action is Git
}

proof fn present_commits_need_no_git(
    refs: Seq<LinkRefModel>,
    at: int,
    fetched: int,
    skipped: int,
    replies: Seq<ReplyModel>,
)
    requires
        0 <= at <= refs.len(),
        forall|i: int| 0 <= i < replies.len() ==> #[trigger] replies[i] == ReplyModel::Flag(true),
    ensures
        !runs_git(fetch_each(refs, at, fetched, skipped, replies)),
    decreases refs.len() - at,
{
    if at < refs.len() {
        if let Ok(id) = hex_reading(refs[at].commit) {
            fetch_each_asks(refs, at, fetched, skipped, id, replies);
            if replies.len() > 0 {
                assert(replies.first() == replies[0]);
                let rest = replies.drop_first();
                assert forall|i: int| 0 <= i < rest.len() implies #[trigger] rest[i]
                    == ReplyModel::Flag(true) by {
                    assert(rest[i] == replies[i + 1]);
                }
                present_commits_need_no_git(refs, at + 1, fetched, skipped + 1, rest);
            }
        }
    }
}

proof fn present_replies_are_set(present: Seq<bool>)
    requires
        forall|i: int| 0 <= i < present.len() ==> #[trigger] present[i],
    ensures
        forall|i: int|
            0 <= i < fetch_replies(present).len() ==> #[trigger] fetch_replies(present)[i]
                == ReplyModel::Flag(true),
    decreases present.len(),
{
    if present.len() > 0 {
        let rest = present.drop_first();
        assert(present.first() == present[0]);
        assert forall|i: int| 0 <= i < rest.len() implies #[trigger] rest[i] by {
            assert(rest[i] == present[i + 1]);
        }
        present_replies_are_set(rest);
        let row = fetch_replies(present);
        assert forall|i: int| 0 <= i < row.len() implies #[trigger] row[i] == ReplyModel::Flag(
            true,
        ) by {
            if i > 0 {
                assert(row[i] == fetch_replies(rest)[i - 1]);
            }
        }
    }
}

proof fn search_needs_no_git(
    filter: Option<Seq<char>>,
    head: ObjectId,
    selected: ObjectId,
    collected: Seq<ReplyModel>,
    refs: Seq<LinkRefModel>,
    i: int,
)
    requires
        collects(searched_commit(filter, head, selected), collected, refs),
        0 <= i < select_replies(filter, head, selected).len() + collected.len(),
    ensures
        !runs_git(
            fetch_turn(filter, (select_replies(filter, head, selected) + collected).take(i)),
        ),
{
    let from = searched_commit(filter, head, selected);
    let first = select_replies(filter, head, selected);
    let row = (first + collected).take(i);
    if i >= first.len() {
        let part = collected.take(i - first.len());
        assert(row =~= first + part);
        commit_is_selected_first(filter, head, selected, part);
        let step = collecting(from);
        assert forall|j: int| 0 <= j <= part.len() implies #[trigger] step(
            part.take(j),
        ) is Ask by {
            assert(part.take(j) =~= collected.take(j));
            assert(collect_step(from, collected.take(j)) is Ask);
        }
        chain_asks(step, part, then_fetch_all());
        assert(part.take(part.len() as int) =~= part);
        assert(step(part) is Ask);
    } else if i > 0 {
        assert(row.first() == ReplyModel::Id(head));
        assert(row.drop_first() =~= Seq::empty());
    }
}

/// A second fetch, with nothing changed since the first but for what that fetched, does not run
/// git, and comes to its end with every linked commit skipped.
pub proof fn second_fetch_fetches_nothing(
    filter: Option<Seq<char>>,
    head: ObjectId,
    selected: ObjectId,
    collected: Seq<ReplyModel>,
    refs: Seq<LinkRefModel>,
    store: Set<ObjectId>,
)
    requires
        collects(searched_commit(filter, head, selected), collected, refs),
        forall|i: int| 0 <= i < refs.len() ==> hex_reading((#[trigger] refs[i]).commit) is Ok,
    ensures
        ({
            let found = select_replies(filter, head, selected) + collected;
            let first = found + fetch_replies(present_in(refs, store));
            let second = found + fetch_replies(present_in(refs, store_after(refs, store)));
            &&& fetch_turn(filter, first).outcome is Done
            &&& fetch_turn(filter, second) == finally(
                seq![
                    if refs.len() == 0 {
                        NoticeOf::NoReferences
                    } else {
                        NoticeOf::FetchedAll { fetched: 0, skipped: refs.len() as usize }
                    },
                ],
            )
            &&& forall|i: int|
                0 <= i <= second.len() ==> !runs_git(#[trigger] fetch_turn(filter, second.take(i)))
        }),
{
    let found = select_replies(filter, head, selected) + collected;
    let after = store_after(refs, store);
    let present = present_in(refs, after);
    let flags = fetch_replies(present);
    let second = found + flags;
    present_in_covers(refs, store);
    all_are_present(refs, after);
    absent_commits_are_fetched(filter, head, selected, collected, refs, present_in(refs, store));
    absent_commits_are_fetched(filter, head, selected, collected, refs, present);
    assert forall|i: int| 0 <= i <= second.len() implies !runs_git(
        #[trigger] fetch_turn(filter, second.take(i)),
    ) by {
        if i < found.len() {
            assert(second.take(i) =~= found.take(i));
            search_needs_no_git(filter, head, selected, collected, refs, i);
        } else {
            let more = flags.take(i - found.len());
            assert(second.take(i) =~= found + more);
            commits_are_collected_next(filter, head, selected, collected, refs, more);
            present_replies_are_set(present);
            assert forall|j: int| 0 <= j < more.len() implies #[trigger] more[j]
                == ReplyModel::Flag(true) by {
                assert(more[j] == flags[j]);
            }
            present_commits_need_no_git(refs, 0, 0, 0, more);
        }
    }
}

} // verus!
