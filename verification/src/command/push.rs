//! The command that pushes a link.

use crate::command::args::LinkPushArgs;
use crate::command::shared::{head_request, make_head_request, then_end};
use crate::link::{PreparedLinkPush, PreparedLinkPushModel};
use crate::oid::ObjectId;
use crate::path::LinkPath;
use crate::push::{
    prepare_link_push, push_ignores_outer_slashes, push_step, PreparePush, DEFAULT_TARGET,
};
use crate::step::{asks, ActionOf, Outcome, Reply, ReplyModel, Request, RequestModel};
use crate::text::{trimmed, wrap};
use crate::turn::{
    awaits, chained, chains_agree, for_finish, for_id, leads_at_start, leads_now, reached,
    say_nothing, start, take_reply, Continuation, Operation, Turn, TurnModel, Whole,
};
use vstd::prelude::*;
use vstd::string::*;
use vstd::utf8::*;

verus! {

/// The branch that a link is pushed to which follows no branch by name.
pub const DEFAULT_BRANCH: &'static str = "refs/heads/master";

/// The reference that a push goes to, for the branch that the link follows.
pub open spec fn push_ref(target: Seq<char>) -> Seq<char> {
    if target == DEFAULT_TARGET@ {
        DEFAULT_BRANCH@
    } else {
        target
    }
}

/// What is pushed where, as git writes it: a plus sign overwrites the branch.
pub open spec fn push_refspec(push: PreparedLinkPushModel, force: bool) -> Seq<char> {
    (if force {
        "+"@
    } else {
        ""@
    }) + push.exported_commit.hex() + ":"@ + push_ref(push.configured_target)
}

/// The request that pushes a link.
pub open spec fn push_request(push: PreparedLinkPushModel, force: bool) -> RequestModel {
    asks(
        ActionOf::Git {
            verb: "push"@,
            remote: push.remote,
            refspec: push_refspec(push, force),
        },
        "Failed to push to '"@ + push.remote + "'"@,
    )
}

/// The preparation of the push, as an operation.
pub open spec fn preparing(head: ObjectId, path: Seq<char>) -> Operation<PreparedLinkPushModel> {
    |replies: Seq<ReplyModel>| push_step(head, encode_utf8(path), replies)
}

/// The command after the push is prepared.
pub open spec fn then_push(force: bool) -> Continuation<PreparedLinkPushModel> {
    |push: PreparedLinkPushModel, replies: Seq<ReplyModel>|
        chained(for_finish(push_request(push, force)), replies, then_end())
}

/// The command after the commit that is checked out is found.
pub open spec fn then_prepare(path: Seq<char>, force: bool) -> Continuation<ObjectId> {
    |head: ObjectId, replies: Seq<ReplyModel>|
        chained(preparing(head, path), replies, then_push(force))
}

/// What the command does after `replies`: it finds the commit that is checked out, prepares the
/// push of the link at `path`, and pushes.
pub open spec fn push_turn(path: Seq<char>, force: bool, replies: Seq<ReplyModel>) -> TurnModel {
    chained(for_id(head_request()), replies, then_prepare(path, force))
}

/// What the push of a link waits for.
enum PushLinkPhase {
    /// The commit that is checked out.
    Head,
    /// Whatever the preparation of the push waits for.
    Prepare { prepare: PreparePush },
    /// The push.
    Push { request: Ghost<RequestModel> },
}

/// The push of a link that waits for a reply.
pub struct PushLink {
    path: String,
    force: bool,
    phase: PushLinkPhase,
    replies: Ghost<Seq<ReplyModel>>,
}

impl PushLink {
    /// The path of the link.
    pub closed spec fn path(self) -> Seq<char> {
        self.path@
    }

    /// Whether the branch is overwritten.
    pub closed spec fn force(self) -> bool {
        self.force
    }

    /// The replies so far.
    pub closed spec fn replies(self) -> Seq<ReplyModel> {
        self.replies@
    }

    #[verifier::type_invariant]
    spec fn consistent(self) -> bool {
        let whole = whole_push(self.path@, self.force);
        match self.phase {
            PushLinkPhase::Head => awaits(
                whole,
                self.replies@,
                for_id(head_request()),
                Seq::empty(),
                then_prepare(self.path@, self.force),
            ),
            PushLinkPhase::Prepare { prepare } => {
                &&& prepare.path() == encode_utf8(self.path@)
                &&& awaits(
                    whole,
                    self.replies@,
                    preparing(prepare.head(), self.path@),
                    prepare.replies(),
                    then_push(self.force),
                )
            },
            PushLinkPhase::Push { request } => awaits(
                whole,
                self.replies@,
                for_finish(request@),
                Seq::empty(),
                then_end(),
            ),
        }
    }
}

/// The command, as what it does after a row of replies.
spec fn whole_push(path: Seq<char>, force: bool) -> Whole {
    |replies: Seq<ReplyModel>| push_turn(path, force, replies)
}

/// Writes what is pushed where.
fn write_refspec(push: &PreparedLinkPush, force: bool) -> (r: String)
    ensures
        r@ == push_refspec(push.deep_view(), force),
{
    let mut r: String = if force {
        "+".to_owned()
    } else {
        "".to_owned()
    };
    r.append(push.exported_commit.to_hex().as_str());
    r.append(":");
    let head: String = DEFAULT_TARGET.to_owned();
    if push.configured_target == head {
        r.append(DEFAULT_BRANCH);
    } else {
        r.append(push.configured_target.as_str());
    }
    r
}

impl PushLink {
    /// Goes on as the preparation of the push does.
    fn follow(
        outcome: Outcome<PreparePush, PreparedLinkPush>,
        path: String,
        force: bool,
        Ghost(replies): Ghost<Seq<ReplyModel>>,
        Ghost(head): Ghost<ObjectId>,
        Ghost(done): Ghost<Seq<ReplyModel>>,
    ) -> (r: Turn<PushLink>)
        requires
            ({
                let whole = whole_push(path@, force);
                let step = preparing(head, path@);
                &&& outcome.deep_view() == step(done)
                &&& outcome matches Outcome::Ask { request, next } ==> next.head() == head
                    && next.path() == encode_utf8(path@) && next.replies() == done
                &&& reached(whole, replies, step, done, then_push(force))
            }),
        ensures
            r.deep_view() == push_turn(path@, force, replies),
            r.outcome matches Outcome::Ask { request, next } ==> next.path() == path@
                && next.force() == force && next.replies() == replies,
    {
        let ghost whole = whole_push(path@, force);
        assert(whole(replies) == push_turn(path@, force, replies));
        match outcome {
            Outcome::Ask { request, next } => say_nothing(
                Outcome::Ask {
                    request,
                    next: PushLink {
                        path,
                        force,
                        phase: PushLinkPhase::Prepare { prepare: next },
                        replies: Ghost(replies),
                    },
                },
            ),
            Outcome::Done { value } => {
                let context = wrap("Failed to push to '", value.remote.as_str(), "'");
                let refspec = write_refspec(&value, force);
                let ghost push = value.deep_view();
                let request = Request::with_context(
                    ActionOf::Git { verb: "push".to_owned(), remote: value.remote, refspec },
                    context,
                );
                proof {
                    start(whole, replies, for_finish(push_request(push, force)), then_end());
                }
                say_nothing(
                    Outcome::Ask {
                        request,
                        next: PushLink {
                            path,
                            force,
                            phase: PushLinkPhase::Push {
                                request: Ghost(push_request(push, force)),
                            },
                            replies: Ghost(replies),
                        },
                    },
                )
            },
            Outcome::Fail { error } => say_nothing(Outcome::Fail { error }),
        }
    }

    /// Takes the reply to what was asked.
    pub fn resume(self, reply: Reply) -> (r: Turn<PushLink>)
        ensures
            r.deep_view() == push_turn(
                self.path(),
                self.force(),
                self.replies().push(reply.deep_view()),
            ),
            r.outcome matches Outcome::Ask { request, next } ==> next.path() == self.path()
                && next.force() == self.force() && next.replies() == self.replies().push(
                reply.deep_view(),
            ),
    {
        proof {
            use_type_invariant(&self);
        }
        let ghost before = self.replies@;
        let ghost replies = before.push(reply.deep_view());
        let ghost whole = whole_push(self.path@, self.force);
        let ghost answer = reply.deep_view();
        assert(whole(replies) == push_turn(self.path@, self.force, replies));
        let PushLink { path, force, phase, replies: _ } = self;
        match phase {
            PushLinkPhase::Head => {
                proof {
                    take_reply(
                        whole,
                        before,
                        for_id(head_request()),
                        Seq::empty(),
                        then_prepare(path@, force),
                        answer,
                    );
                }
                match reply {
                    Reply::Id(head) => {
                        proof {
                            start(whole, replies, preparing(head, path@), then_push(force));
                        }
                        let outcome = prepare_link_push(head, &LinkPath::from_text(path.as_str()));
                        PushLink::follow(
                            outcome,
                            path,
                            force,
                            Ghost(replies),
                            Ghost(head),
                            Ghost(Seq::empty()),
                        )
                    },
                    reply => say_nothing(Outcome::Fail { error: reply.refusal() }),
                }
            },
            PushLinkPhase::Prepare { prepare } => {
                let ghost head = prepare.head();
                let ghost done = prepare.replies();
                proof {
                    take_reply(
                        whole,
                        before,
                        preparing(head, path@),
                        done,
                        then_push(force),
                        answer,
                    );
                }
                PushLink::follow(
                    prepare.resume(reply),
                    path,
                    force,
                    Ghost(replies),
                    Ghost(head),
                    Ghost(done.push(answer)),
                )
            },
            PushLinkPhase::Push { request } => {
                proof {
                    take_reply(
                        whole,
                        before,
                        for_finish(request@),
                        Seq::empty(),
                        then_end(),
                        answer,
                    );
                }
                match reply {
                    Reply::Finished => {
                        proof {
                            leads_now(
                                whole,
                                replies,
                                |more: Seq<ReplyModel>| then_end()((), more),
                            );
                        }
                        say_nothing(Outcome::Done { value: () })
                    },
                    reply => say_nothing(Outcome::Fail { error: reply.refusal() }),
                }
            },
        }
    }
}

/// Starts the push of a link.
pub fn handle_link_push(args: &LinkPushArgs) -> (r: Turn<PushLink>)
    ensures
        r.deep_view() == push_turn(args.path@, args.force, Seq::empty()),
        r.outcome matches Outcome::Ask { request, next } && next.path() == args.path@
            && next.force() == args.force && next.replies() == Seq::<ReplyModel>::empty(),
{
    let path = args.path.clone();
    proof {
        let whole = whole_push(path@, args.force);
        leads_at_start(whole);
        assert(whole(Seq::empty()) == push_turn(path@, args.force, Seq::empty()));
        start(
            whole,
            Seq::empty(),
            for_id(head_request()),
            then_prepare(path@, args.force),
        );
    }
    say_nothing(
        Outcome::Ask {
            request: make_head_request(),
            next: PushLink {
                path,
                force: args.force,
                phase: PushLinkPhase::Head,
                replies: Ghost(Seq::empty()),
            },
        },
    )
}

/// A push is forced exactly where its refspec starts with a plus sign, and that is the only
/// difference.
pub proof fn forced_push_has_a_plus_sign(push: PreparedLinkPushModel)
    ensures
        push_refspec(push, true) == "+"@ + push_refspec(push, false),
        push_refspec(push, true).first() == '+',
        push_refspec(push, false).first() != '+',
{
    reveal_strlit("+");
    reveal_strlit("");
    let plain = push_refspec(push, false);
    assert(plain.first() == push.exported_commit.hex()[0]);
    assert(push_refspec(push, true) =~= "+"@ + plain);
}

/// A link that follows no branch by name is pushed to the default branch, and any other to the
/// branch that it follows.
pub proof fn head_is_pushed_to_default_branch(push: PreparedLinkPushModel, force: bool)
    ensures
        push_refspec(push, force).subrange(
            push_refspec(push, force).len() - push_ref(push.configured_target).len(),
            push_refspec(push, force).len() as int,
        ) == if push.configured_target == "HEAD"@ {
            "refs/heads/master"@
        } else {
            push.configured_target
        },
{
    let spec = push_refspec(push, force);
    let goal = push_ref(push.configured_target);
    assert(spec.subrange(spec.len() - goal.len(), spec.len() as int) =~= goal);
}

/// Slashes around the path make no difference to a push; they show in messages only.
pub proof fn push_command_ignores_outer_slashes(
    a: Seq<char>,
    b: Seq<char>,
    force: bool,
    replies: Seq<ReplyModel>,
)
    requires
        trimmed(a) == trimmed(b),
    ensures
        push_turn(a, force, replies).outcome is Fail <==> push_turn(b, force, replies).outcome
            is Fail,
        !(push_turn(a, force, replies).outcome is Fail) ==> push_turn(a, force, replies)
            == push_turn(b, force, replies),
{
    if replies.len() > 0 {
        if let ReplyModel::Id(head) = replies.first() {
            let of_a = preparing(head, a);
            let of_b = preparing(head, b);
            encode_utf8_valid_utf8(a);
            encode_utf8_valid_utf8(b);
            encode_utf8_decode_utf8(a);
            encode_utf8_decode_utf8(b);
            assert forall|row: Seq<ReplyModel>|
                (#[trigger] of_a(row)) == of_b(row) || (of_a(row) is Fail && of_b(row)
                    is Fail) by {
                push_ignores_outer_slashes(head, encode_utf8(a), encode_utf8(b), row);
            }
            chains_agree(of_a, of_b, replies.drop_first(), then_push(force));
        }
    }
}

} // verus!
