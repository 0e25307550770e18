//! The command that adds a link.

use crate::add::{
    commit_add_step, new_link, prepare_add_step, prepare_link_add, AddArgs, CommitAdd, CommitArgs,
    PrepareAdd, PreparedLinkAdd, PreparedLinkAddModel, DEFAULT_FILTER,
};
use crate::command::args::{LinkAddArgs, LinkAddModel};
use crate::command::shared::{
    branch_request, head_request, make_branch_request, make_head_request, signing, RESULT_BRANCH,
};
use crate::error::LinkErrorOf;
use crate::export::{export_link_source, export_step, ExportArgs, ExportSource};
use crate::link::{Signature, SignatureModel};
use crate::notice::{Notice, NoticeModel, NoticeOf};
use crate::oid::ObjectId;
use crate::path::LinkPath;
use crate::push::DEFAULT_TARGET;
use crate::signature::{fixed_signature, make_signature, MakeSignature};
use crate::step::{
    asks, asks_plainly, ActionOf, Expected, Outcome, Reply, ReplyModel, Request, RequestModel,
};
use crate::text::{borrowed, optional, owned, signed_value, trim_slashes, trimmed, wrap};
use crate::turn::{
    awaits, chain_asks, chain_starts_done, chain_takes_one, chained, finally, for_finish, for_id,
    for_text, leads, leads_at_start, leads_now, pending_at_start, quietly, reached, say_nothing,
    start, start_telling, take_reply, told, Continuation, Operation, Turn, TurnModel, Whole,
};
use vstd::prelude::*;
use vstd::string::*;
use vstd::utf8::*;

verus! {

/// The filter of the new link.
pub open spec fn filter_of(args: LinkAddModel) -> Seq<char> {
    match args.filter {
        Some(filter) => filter,
        None => DEFAULT_FILTER@,
    }
}

/// The branch that the new link follows.
pub open spec fn target_of(args: LinkAddModel) -> Seq<char> {
    match args.target {
        Some(target) => target,
        None => DEFAULT_TARGET@,
    }
}

/// The request that reads the link mode.
pub open spec fn mode_request(args: LinkAddModel) -> RequestModel {
    asks(
        ActionOf::ParseMode { text: args.mode },
        "Invalid link mode: '"@ + args.mode + "'"@,
    )
}

/// The request that fetches the branch that the new link follows.
pub open spec fn seed_request(args: LinkAddModel) -> RequestModel {
    asks(
        ActionOf::Git { verb: "fetch"@, remote: args.url, refspec: target_of(args) },
        "Failed to execute git fetch"@,
    )
}

/// The request for what was fetched.
pub open spec fn fetched_request() -> RequestModel {
    asks(ActionOf::ResolveFetchHead, "Failed to resolve FETCH_HEAD after fetch"@)
}

/// The request for the tree that the link is added to.
pub open spec fn base_tree_request(head: ObjectId) -> RequestModel {
    asks_plainly(ActionOf::ReadCommitTree { commit: head, read_context: None })
}

/// The request that lets the branch point to the commit with the new link.
pub open spec fn added_branch_request(commit: ObjectId) -> RequestModel {
    branch_request(commit, "josh link add"@, "Failed to create branch '"@)
}

/// What the export of local content is started with.
pub open spec fn export_args(args: LinkAddModel, head: ObjectId) -> ExportArgs {
    ExportArgs { head, path: encode_utf8(args.path), filter: filter_of(args) }
}

/// The export of local content, as an operation.
pub open spec fn exporting(args: ExportArgs) -> Operation<Option<ObjectId>> {
    |replies: Seq<ReplyModel>| export_step(args, replies)
}

/// What the addition of the link is started with.
pub open spec fn add_args(
    args: LinkAddModel,
    mode: Seq<char>,
    commit: ObjectId,
    tree: ObjectId,
) -> AddArgs {
    AddArgs {
        path: encode_utf8(args.path),
        url: args.url,
        push_url: None,
        filter: args.filter,
        target: target_of(args),
        push_target: None,
        fetched_commit: commit,
        head_tree: tree,
        mode,
    }
}

/// The addition of the link, as an operation.
pub open spec fn adding(args: AddArgs) -> Operation<PreparedLinkAddModel> {
    |replies: Seq<ReplyModel>| prepare_add_step(args, replies)
}

/// The commit of the link, as an operation.
pub open spec fn committing(args: CommitArgs) -> Operation<ObjectId> {
    |replies: Seq<ReplyModel>| commit_add_step(args, replies)
}

/// The last words of the command.
pub open spec fn added_notices(args: LinkAddModel) -> Seq<NoticeModel> {
    seq![
        NoticeOf::Added {
            path: trimmed(args.path),
            url: args.url,
            filter: filter_of(args),
            target: target_of(args),
            mode: args.mode,
        },
        NoticeOf::CreatedBranch { name: RESULT_BRANCH@ },
    ]
}

/// The end of the command.
pub open spec fn then_added(args: LinkAddModel) -> Continuation<()> {
    |u: (), more: Seq<ReplyModel>| finally(added_notices(args))
}

/// The command after the link is committed.
pub open spec fn then_branch(args: LinkAddModel) -> Continuation<ObjectId> {
    |commit: ObjectId, more: Seq<ReplyModel>|
        chained(for_finish(added_branch_request(commit)), more, then_added(args))
}

/// The command after the link is added to the tree.
pub open spec fn then_commit(
    args: LinkAddModel,
    head: ObjectId,
    signature: SignatureModel,
) -> Continuation<PreparedLinkAddModel> {
    |added: PreparedLinkAddModel, more: Seq<ReplyModel>|
        chained(committing(CommitArgs { added, head, signature }), more, then_branch(args))
}

/// The command after the tree is found that the link is added to.
pub open spec fn then_add(
    args: LinkAddModel,
    head: ObjectId,
    mode: Seq<char>,
    commit: ObjectId,
    signature: SignatureModel,
) -> Continuation<ObjectId> {
    |tree: ObjectId, more: Seq<ReplyModel>|
        chained(
            adding(add_args(args, mode, commit, tree)),
            more,
            then_commit(args, head, signature),
        )
}

/// The command after the signature is found.
pub open spec fn then_tree(
    args: LinkAddModel,
    head: ObjectId,
    mode: Seq<char>,
    commit: ObjectId,
) -> Continuation<SignatureModel> {
    |signature: SignatureModel, more: Seq<ReplyModel>|
        chained(
            for_id(base_tree_request(head)),
            more,
            then_add(args, head, mode, commit, signature),
        )
}

/// The command once it is known which commit the link is pinned to.
pub open spec fn pin(
    args: LinkAddModel,
    commit_time: Option<Seq<char>>,
    head: ObjectId,
    mode: Seq<char>,
    commit: ObjectId,
    replies: Seq<ReplyModel>,
) -> TurnModel {
    chained(signing(commit_time), replies, then_tree(args, head, mode, commit))
}

/// The command after it is found what was fetched.
pub open spec fn then_use_fetched(
    args: LinkAddModel,
    commit_time: Option<Seq<char>>,
    head: ObjectId,
    mode: Seq<char>,
) -> Continuation<ObjectId> {
    |commit: ObjectId, more: Seq<ReplyModel>|
        told(
            seq![NoticeOf::UsingFetched { commit: commit.hex() }],
            more,
            pin(args, commit_time, head, mode, commit, more),
        )
}

/// The command after the branch is fetched that the new link follows.
pub open spec fn then_resolve(
    args: LinkAddModel,
    commit_time: Option<Seq<char>>,
    head: ObjectId,
    mode: Seq<char>,
) -> Continuation<()> {
    |u: (), more: Seq<ReplyModel>|
        chained(
            for_id(fetched_request()),
            more,
            then_use_fetched(args, commit_time, head, mode),
        )
}

/// The command after the local content is exported: where there is any, the link is pinned to it,
/// and otherwise to what the remote has.
pub open spec fn then_seed(
    args: LinkAddModel,
    commit_time: Option<Seq<char>>,
    head: ObjectId,
    mode: Seq<char>,
) -> Continuation<Option<ObjectId>> {
    |local: Option<ObjectId>, more: Seq<ReplyModel>|
        match local {
            Some(commit) => told(
                seq![NoticeOf::UsingLocal { path: trimmed(args.path), commit: commit.hex() }],
                more,
                pin(args, commit_time, head, mode, commit, more),
            ),
            None => told(
                seq![NoticeOf::NoLocal { path: trimmed(args.path) }],
                more,
                chained(
                    for_finish(seed_request(args)),
                    more,
                    then_resolve(args, commit_time, head, mode),
                ),
            ),
        }
}

/// The command after the link mode is read.
pub open spec fn then_export(
    args: LinkAddModel,
    commit_time: Option<Seq<char>>,
    head: ObjectId,
) -> Continuation<Seq<char>> {
    |mode: Seq<char>, more: Seq<ReplyModel>|
        chained(
            exporting(export_args(args, head)),
            more,
            then_seed(args, commit_time, head, mode),
        )
}

/// The command after the commit that is checked out is found.
pub open spec fn then_mode(args: LinkAddModel, commit_time: Option<Seq<char>>) -> Continuation<
    ObjectId,
> {
    |head: ObjectId, more: Seq<ReplyModel>|
        chained(for_text(mode_request(args)), more, then_export(args, commit_time, head))
}

/// What the command does after `replies`: it finds the commit that is checked out, reads the link
/// mode, exports the content at the path, or fetches that of the remote where there is none,
/// records the link, commits that, and lets a branch point to the commit.
pub open spec fn add_turn(
    args: LinkAddModel,
    commit_time: Option<Seq<char>>,
    replies: Seq<ReplyModel>,
) -> TurnModel {
    if args.path.len() == 0 {
        quietly(Expected::Fail { error: LinkErrorOf::EmptyPath })
    } else {
        chained(for_id(head_request()), replies, then_mode(args, commit_time))
    }
}

/// What the command was started with.
struct AddInput {
    args: LinkAddArgs,
    commit_time: Option<String>,
}

impl AddInput {
    /// The command, as what it does after a row of replies.
    spec fn whole(self) -> Whole {
        let args = self.args.deep_view();
        let commit_time = self.commit_time.deep_view();
        |replies: Seq<ReplyModel>| add_turn(args, commit_time, replies)
    }

    /// Whether `turn` is what the command does after `replies`, and goes on from there.
    spec fn takes(self, turn: Turn<AddLink>, replies: Seq<ReplyModel>) -> bool {
        &&& turn.deep_view() == add_turn(
            self.args.deep_view(),
            self.commit_time.deep_view(),
            replies,
        )
        &&& turn.outcome matches Outcome::Ask { request, next } ==> next.args()
            == self.args.deep_view() && next.commit_time() == self.commit_time.deep_view()
            && next.replies() == replies
    }
}

/// What the addition of a link waits for.
enum AddLinkPhase {
    /// The commit that is checked out.
    Head,
    /// The link mode.
    Mode { head: ObjectId },
    /// Whatever the export of local content waits for.
    Export { head: ObjectId, mode: String, export: ExportSource },
    /// The branch that the new link follows.
    Fetch { head: ObjectId, mode: String },
    /// What was fetched.
    Resolve { head: ObjectId, mode: String },
    /// The signature.
    Sign { head: ObjectId, mode: String, commit: ObjectId, sign: MakeSignature },
    /// The tree that the link is added to.
    Tree { head: ObjectId, mode: String, commit: ObjectId, signature: Signature },
    /// Whatever the addition of the link waits for.
    Add { head: ObjectId, signature: Signature, add: PrepareAdd },
    /// The commit of the link.
    Commit { waiting: CommitAdd },
    /// The branch.
    Branch { request: Ghost<RequestModel> },
}

/// The addition of a link that waits for a reply.
pub struct AddLink {
    input: AddInput,
    phase: AddLinkPhase,
    replies: Ghost<Seq<ReplyModel>>,
}

impl AddLink {
    /// The link to add.
    pub closed spec fn args(self) -> LinkAddModel {
        self.input.args.deep_view()
    }

    /// The time of the commit, where it is fixed.
    pub closed spec fn commit_time(self) -> Option<Seq<char>> {
        self.input.commit_time.deep_view()
    }

    /// The replies so far.
    pub closed spec fn replies(self) -> Seq<ReplyModel> {
        self.replies@
    }

    #[verifier::type_invariant]
    spec fn consistent(self) -> bool {
        let whole = self.input.whole();
        let args = self.input.args.deep_view();
        let time = self.input.commit_time.deep_view();
        let replies = self.replies@;
        let none = Seq::<ReplyModel>::empty();
        match self.phase {
            AddLinkPhase::Head => awaits(
                whole,
                replies,
                for_id(head_request()),
                none,
                then_mode(args, time),
            ),
            AddLinkPhase::Mode { head } => awaits(
                whole,
                replies,
                for_text(mode_request(args)),
                none,
                then_export(args, time, head),
            ),
            AddLinkPhase::Export { head, mode, export } => {
                &&& export.args() == export_args(args, head)
                &&& awaits(
                    whole,
                    replies,
                    exporting(export_args(args, head)),
                    none,
                    then_seed(args, time, head, mode@),
                )
            },
            AddLinkPhase::Fetch { head, mode } => awaits(
                whole,
                replies,
                for_finish(seed_request(args)),
                none,
                then_resolve(args, time, head, mode@),
            ),
            AddLinkPhase::Resolve { head, mode } => awaits(
                whole,
                replies,
                for_id(fetched_request()),
                none,
                then_use_fetched(args, time, head, mode@),
            ),
            AddLinkPhase::Sign { head, mode, commit, sign } => {
                &&& self.input.commit_time is None
                &&& awaits(
                    whole,
                    replies,
                    signing(None),
                    none,
                    then_tree(args, head, mode@, commit),
                )
            },
            AddLinkPhase::Tree { head, mode, commit, signature } => awaits(
                whole,
                replies,
                for_id(base_tree_request(head)),
                none,
                then_add(args, head, mode@, commit, signature.deep_view()),
            ),
            AddLinkPhase::Add { head, signature, add } => awaits(
                whole,
                replies,
                adding(add.args()),
                add.replies(),
                then_commit(args, head, signature.deep_view()),
            ),
            AddLinkPhase::Commit { waiting } => awaits(
                whole,
                replies,
                committing(waiting.args()),
                none,
                then_branch(args),
            ),
            AddLinkPhase::Branch { request } => awaits(
                whole,
                replies,
                for_finish(request@),
                none,
                then_added(args),
            ),
        }
    }
}

impl AddInput {
    /// The filter of the new link.
    fn filter(&self) -> (r: &str)
        ensures
            r@ == filter_of(self.args.deep_view()),
    {
        match &self.args.filter {
            Some(filter) => filter.as_str(),
            None => DEFAULT_FILTER,
        }
    }

    /// The branch that the new link follows.
    fn target(&self) -> (r: &str)
        ensures
            r@ == target_of(self.args.deep_view()),
    {
        match &self.args.target {
            Some(target) => target.as_str(),
            None => DEFAULT_TARGET,
        }
    }

    /// Asks, after `tell`, and waits.
    fn ask(
        self,
        tell: Vec<Notice>,
        request: Request,
        phase: AddLinkPhase,
        Ghost(replies): Ghost<Seq<ReplyModel>>,
    ) -> (r: Turn<AddLink>)
        requires
            (AddLink { input: self, phase, replies: Ghost(replies) }).consistent(),
            self.whole()(replies) == (TurnModel {
                tell: tell.deep_view(),
                outcome: Expected::Ask { request: request.deep_view() },
            }),
        ensures
            self.takes(r, replies),
    {
        Turn {
            tell,
            outcome: Outcome::Ask {
                request,
                next: AddLink { input: self, phase, replies: Ghost(replies) },
            },
        }
    }

    /// Asks, without a word, and waits.
    fn ask_quietly(
        self,
        request: Request,
        phase: AddLinkPhase,
        Ghost(replies): Ghost<Seq<ReplyModel>>,
    ) -> (r: Turn<AddLink>)
        requires
            (AddLink { input: self, phase, replies: Ghost(replies) }).consistent(),
            self.whole()(replies) == quietly(Expected::Ask { request: request.deep_view() }),
        ensures
            self.takes(r, replies),
    {
        let tell: Vec<Notice> = Vec::new();
        assert(tell.deep_view() =~= Seq::empty());
        self.ask(tell, request, phase, Ghost(replies))
    }

    /// Goes on, after `tell`, with the tree that the link is added to.
    fn find_tree(
        self,
        tell: Vec<Notice>,
        head: ObjectId,
        mode: String,
        commit: ObjectId,
        signature: Signature,
        Ghost(replies): Ghost<Seq<ReplyModel>>,
    ) -> (r: Turn<AddLink>)
        requires
            leads(
                self.whole(),
                replies,
                |more: Seq<ReplyModel>|
                    told(
                        tell.deep_view(),
                        more,
                        then_tree(self.args.deep_view(), head, mode@, commit)(
                            signature.deep_view(),
                            more,
                        ),
                    ),
            ),
        ensures
            self.takes(r, replies),
    {
        let request = Request::plain(
            ActionOf::ReadCommitTree { commit: head, read_context: None },
        );
        proof {
            start_telling(
                self.whole(),
                replies,
                tell.deep_view(),
                for_id(base_tree_request(head)),
                then_add(self.args.deep_view(), head, mode@, commit, signature.deep_view()),
            );
        }
        self.ask(
            tell,
            request,
            AddLinkPhase::Tree { head, mode, commit, signature },
            Ghost(replies),
        )
    }

    /// Goes on, after `tell`, with the signature, where the link is pinned to `commit`.
    fn sign(
        self,
        tell: Vec<Notice>,
        head: ObjectId,
        mode: String,
        commit: ObjectId,
        Ghost(replies): Ghost<Seq<ReplyModel>>,
    ) -> (r: Turn<AddLink>)
        requires
            leads(
                self.whole(),
                replies,
                |more: Seq<ReplyModel>|
                    told(
                        tell.deep_view(),
                        more,
                        pin(
                            self.args.deep_view(),
                            self.commit_time.deep_view(),
                            head,
                            mode@,
                            commit,
                            more,
                        ),
                    ),
            ),
        ensures
            self.takes(r, replies),
    {
        proof {
            start_telling(
                self.whole(),
                replies,
                tell.deep_view(),
                signing(self.commit_time.deep_view()),
                then_tree(self.args.deep_view(), head, mode@, commit),
            );
        }
        match make_signature(borrowed(&self.commit_time)) {
            Outcome::Ask { request, next } => self.ask(
                tell,
                request,
                AddLinkPhase::Sign { head, mode, commit, sign: next },
                Ghost(replies),
            ),
            Outcome::Done { value } => self.find_tree(
                tell,
                head,
                mode,
                commit,
                value,
                Ghost(replies),
            ),
            Outcome::Fail { error } => Turn { tell, outcome: Outcome::Fail { error } },
        }
    }

    /// Goes on as the export of local content does.
    fn follow_export(
        self,
        outcome: Outcome<ExportSource, Option<ObjectId>>,
        head: ObjectId,
        mode: String,
        Ghost(replies): Ghost<Seq<ReplyModel>>,
        Ghost(done): Ghost<Seq<ReplyModel>>,
    ) -> (r: Turn<AddLink>)
        requires
            outcome.deep_view() == export_step(export_args(self.args.deep_view(), head), done),
            outcome matches Outcome::Ask { request, next } ==> done.len() == 0 && next.args()
                == export_args(self.args.deep_view(), head),
            reached(
                self.whole(),
                replies,
                exporting(export_args(self.args.deep_view(), head)),
                done,
                then_seed(self.args.deep_view(), self.commit_time.deep_view(), head, mode@),
            ),
        ensures
            self.takes(r, replies),
    {
        let ghost whole = self.whole();
        let ghost args = self.args.deep_view();
        let ghost time = self.commit_time.deep_view();
        let ghost next = then_seed(args, time, head, mode@);
        match outcome {
            Outcome::Ask { request, next } => {
                assert(done =~= Seq::empty());
                self.ask_quietly(
                    request,
                    AddLinkPhase::Export { head, mode, export: next },
                    Ghost(replies),
                )
            },
            Outcome::Fail { error } => say_nothing(Outcome::Fail { error }),
            Outcome::Done { value: Some(commit) } => {
                let mut tell: Vec<Notice> = Vec::new();
                tell.push(
                    NoticeOf::UsingLocal {
                        path: trim_slashes(self.args.path.as_str()).to_owned(),
                        commit: commit.to_hex(),
                    },
                );
                assert(tell.deep_view() =~= seq![
                    NoticeModel::UsingLocal { path: trimmed(args.path), commit: commit.hex() },
                ]);
                proof {
                    let rest = |more: Seq<ReplyModel>| next(Some(commit), more);
                    assert forall|more: Seq<ReplyModel>| #[trigger] whole(replies + more) == told(
                        tell.deep_view(),
                        more,
                        pin(args, time, head, mode@, commit, more),
                    ) by {
                        assert(whole(replies + more) == rest(more));
                    }
                }
                self.sign(tell, head, mode, commit, Ghost(replies))
            },
            Outcome::Done { value: None } => {
                let mut tell: Vec<Notice> = Vec::new();
                tell.push(
                    NoticeOf::NoLocal { path: trim_slashes(self.args.path.as_str()).to_owned() },
                );
                let ghost said = seq![NoticeModel::NoLocal { path: trimmed(args.path) }];
                assert(tell.deep_view() =~= said);
                let request = Request::with_context(
                    ActionOf::Git {
                        verb: "fetch".to_owned(),
                        remote: self.args.url.clone(),
                        refspec: self.target().to_owned(),
                    },
                    "Failed to execute git fetch".to_owned(),
                );
                proof {
                    let rest = |more: Seq<ReplyModel>| next(None, more);
                    let resolve = then_resolve(args, time, head, mode@);
                    assert forall|more: Seq<ReplyModel>| #[trigger] whole(replies + more) == told(
                        said,
                        more,
                        chained(for_finish(seed_request(args)), more, resolve),
                    ) by {
                        assert(whole(replies + more) == rest(more));
                    }
                    start_telling(whole, replies, said, for_finish(seed_request(args)), resolve);
                }
                self.ask(tell, request, AddLinkPhase::Fetch { head, mode }, Ghost(replies))
            },
        }
    }

    /// Goes on as the commit of the link does.
    fn commit(
        self,
        added: PreparedLinkAdd,
        head: ObjectId,
        signature: Signature,
        Ghost(replies): Ghost<Seq<ReplyModel>>,
    ) -> (r: Turn<AddLink>)
        requires
            leads(
                self.whole(),
                replies,
                |more: Seq<ReplyModel>|
                    then_commit(self.args.deep_view(), head, signature.deep_view())(
                        added.deep_view(),
                        more,
                    ),
            ),
        ensures
            self.takes(r, replies),
    {
        let ghost args = CommitArgs {
            added: added.deep_view(),
            head,
            signature: signature.deep_view(),
        };
        proof {
            start(
                self.whole(),
                replies,
                committing(args),
                then_branch(self.args.deep_view()),
            );
        }
        match added.into_commit(head, &signature) {
            Outcome::Ask { request, next } => self.ask_quietly(
                request,
                AddLinkPhase::Commit { waiting: next },
                Ghost(replies),
            ),
            _ => say_nothing(Outcome::Fail { error: LinkErrorOf::UnexpectedReply }),
        }
    }

    /// Goes on as the addition of the link does.
    fn follow_add(
        self,
        outcome: Outcome<PrepareAdd, PreparedLinkAdd>,
        head: ObjectId,
        signature: Signature,
        Ghost(replies): Ghost<Seq<ReplyModel>>,
        Ghost(args): Ghost<AddArgs>,
        Ghost(done): Ghost<Seq<ReplyModel>>,
    ) -> (r: Turn<AddLink>)
        requires
            outcome.deep_view() == prepare_add_step(args, done),
            outcome matches Outcome::Ask { request, next } ==> next.args() == args
                && next.replies() == done,
            reached(
                self.whole(),
                replies,
                adding(args),
                done,
                then_commit(self.args.deep_view(), head, signature.deep_view()),
            ),
        ensures
            self.takes(r, replies),
    {
        match outcome {
            Outcome::Ask { request, next } => self.ask_quietly(
                request,
                AddLinkPhase::Add { head, signature, add: next },
                Ghost(replies),
            ),
            Outcome::Done { value } => self.commit(value, head, signature, Ghost(replies)),
            Outcome::Fail { error } => say_nothing(Outcome::Fail { error }),
        }
    }
}

impl AddLink {
    /// Takes the reply to what was asked.
    pub fn resume(self, reply: Reply) -> (r: Turn<AddLink>)
        ensures
            r.deep_view() == add_turn(
                self.args(),
                self.commit_time(),
                self.replies().push(reply.deep_view()),
            ),
            r.outcome matches Outcome::Ask { request, next } ==> next.args() == self.args()
                && next.commit_time() == self.commit_time() && next.replies()
                == self.replies().push(reply.deep_view()),
    {
        proof {
            use_type_invariant(&self);
        }
        let ghost before = self.replies@;
        let ghost answer = reply.deep_view();
        let ghost replies = before.push(answer);
        let ghost none = Seq::<ReplyModel>::empty();
        let ghost whole = self.input.whole();
        assert(whole(replies) == add_turn(self.args(), self.commit_time(), replies));
        let AddLink { input, phase, replies: _ } = self;
        let ghost args = input.args.deep_view();
        let ghost time = input.commit_time.deep_view();
        match phase {
            AddLinkPhase::Head => {
                proof {
                    let next = then_mode(args, time);
                    take_reply(whole, before, for_id(head_request()), none, next, answer);
                }
                match reply {
                    Reply::Id(head) => {
                        let request = Request::with_context(
                            ActionOf::ParseMode { text: input.args.mode.clone() },
                            wrap("Invalid link mode: '", input.args.mode.as_str(), "'"),
                        );
                        proof {
                            start(
                                whole,
                                replies,
                                for_text(mode_request(args)),
                                then_export(args, time, head),
                            );
                        }
                        input.ask_quietly(request, AddLinkPhase::Mode { head }, Ghost(replies))
                    },
                    reply => say_nothing(Outcome::Fail { error: reply.refusal() }),
                }
            },
            AddLinkPhase::Mode { head } => {
                let ghost next = then_export(args, time, head);
                proof {
                    take_reply(whole, before, for_text(mode_request(args)), none, next, answer);
                }
                match reply {
                    Reply::Text(mode) => {
                        proof {
                            start(
                                whole,
                                replies,
                                exporting(export_args(args, head)),
                                then_seed(args, time, head, mode@),
                            );
                        }
                        let path = LinkPath::from_text(input.args.path.as_str());
                        let outcome = export_link_source(head, &path, input.filter());
                        input.follow_export(outcome, head, mode, Ghost(replies), Ghost(none))
                    },
                    reply => say_nothing(Outcome::Fail { error: reply.refusal() }),
                }
            },
            AddLinkPhase::Export { head, mode, export } => {
                proof {
                    take_reply(
                        whole,
                        before,
                        exporting(export_args(args, head)),
                        none,
                        then_seed(args, time, head, mode@),
                        answer,
                    );
                    assert(none.push(answer) =~= seq![answer]);
                }
                input.follow_export(
                    export.resume(reply),
                    head,
                    mode,
                    Ghost(replies),
                    Ghost(none.push(answer)),
                )
            },
            AddLinkPhase::Fetch { head, mode } => {
                let ghost next = then_resolve(args, time, head, mode@);
                proof {
                    take_reply(whole, before, for_finish(seed_request(args)), none, next, answer);
                }
                match reply {
                    Reply::Finished => {
                        let request = Request::with_context(
                            ActionOf::ResolveFetchHead,
                            "Failed to resolve FETCH_HEAD after fetch".to_owned(),
                        );
                        proof {
                            start(
                                whole,
                                replies,
                                for_id(fetched_request()),
                                then_use_fetched(args, time, head, mode@),
                            );
                        }
                        input.ask_quietly(
                            request,
                            AddLinkPhase::Resolve { head, mode },
                            Ghost(replies),
                        )
                    },
                    reply => say_nothing(Outcome::Fail { error: reply.refusal() }),
                }
            },
            AddLinkPhase::Resolve { head, mode } => {
                let ghost next = then_use_fetched(args, time, head, mode@);
                proof {
                    take_reply(whole, before, for_id(fetched_request()), none, next, answer);
                }
                match reply {
                    Reply::Id(commit) => {
                        let mut tell: Vec<Notice> = Vec::new();
                        tell.push(NoticeOf::UsingFetched { commit: commit.to_hex() });
                        assert(tell.deep_view() =~= seq![
                            NoticeModel::UsingFetched { commit: commit.hex() },
                        ]);
                        proof {
                            let rest = |more: Seq<ReplyModel>| next(commit, more);
                            assert forall|more: Seq<ReplyModel>| #[trigger]
                                whole(replies + more) == told(
                                tell.deep_view(),
                                more,
                                pin(args, time, head, mode@, commit, more),
                            ) by {
                                assert(whole(replies + more) == rest(more));
                            }
                        }
                        input.sign(tell, head, mode, commit, Ghost(replies))
                    },
                    reply => say_nothing(Outcome::Fail { error: reply.refusal() }),
                }
            },
            AddLinkPhase::Sign { head, mode, commit, sign } => {
                let ghost next = then_tree(args, head, mode@, commit);
                proof {
                    take_reply(whole, before, signing(None), none, next, answer);
                    assert(none.push(answer) =~= seq![answer]);
                }
                match sign.resume(reply) {
                    Outcome::Done { value } => {
                        let tell: Vec<Notice> = Vec::new();
                        assert(tell.deep_view() =~= Seq::empty());
                        proof {
                            let rest = |more: Seq<ReplyModel>| next(value.deep_view(), more);
                            assert forall|more: Seq<ReplyModel>| #[trigger]
                                whole(replies + more) == told(
                                tell.deep_view(),
                                more,
                                next(value.deep_view(), more),
                            ) by {
                                assert(whole(replies + more) == rest(more));
                                assert(Seq::<NoticeModel>::empty() + rest(more).tell
                                    =~= rest(more).tell);
                            }
                        }
                        input.find_tree(tell, head, mode, commit, value, Ghost(replies))
                    },
                    Outcome::Fail { error } => say_nothing(Outcome::Fail { error }),
                    Outcome::Ask { request: _, next: _ } => say_nothing(
                        Outcome::Fail { error: LinkErrorOf::UnexpectedReply },
                    ),
                }
            },
            AddLinkPhase::Tree { head, mode, commit, signature } => {
                let ghost next = then_add(args, head, mode@, commit, signature.deep_view());
                proof {
                    take_reply(
                        whole,
                        before,
                        for_id(base_tree_request(head)),
                        none,
                        next,
                        answer,
                    );
                }
                match reply {
                    Reply::Id(tree) => {
                        let ghost added = add_args(args, mode@, commit, tree);
                        proof {
                            start(
                                whole,
                                replies,
                                adding(added),
                                then_commit(args, head, signature.deep_view()),
                            );
                        }
                        let path = LinkPath::from_text(input.args.path.as_str());
                        let outcome = prepare_link_add(
                            &path,
                            input.args.url.as_str(),
                            None,
                            borrowed(&input.args.filter),
                            input.target(),
                            None,
                            commit,
                            tree,
                            mode.as_str(),
                        );
                        input.follow_add(
                            outcome,
                            head,
                            signature,
                            Ghost(replies),
                            Ghost(added),
                            Ghost(none),
                        )
                    },
                    reply => say_nothing(Outcome::Fail { error: reply.refusal() }),
                }
            },
            AddLinkPhase::Add { head, signature, add } => {
                let ghost added = add.args();
                let ghost done = add.replies();
                proof {
                    take_reply(
                        whole,
                        before,
                        adding(added),
                        done,
                        then_commit(args, head, signature.deep_view()),
                        answer,
                    );
                }
                input.follow_add(
                    add.resume(reply),
                    head,
                    signature,
                    Ghost(replies),
                    Ghost(added),
                    Ghost(done.push(answer)),
                )
            },
            AddLinkPhase::Commit { waiting } => {
                proof {
                    take_reply(
                        whole,
                        before,
                        committing(waiting.args()),
                        none,
                        then_branch(args),
                        answer,
                    );
                    assert(none.push(answer) =~= seq![answer]);
                }
                match waiting.resume(reply) {
                    Outcome::Done { value } => {
                        let request = make_branch_request(
                            value,
                            "josh link add",
                            "Failed to create branch '",
                        );
                        let ghost asked = added_branch_request(value);
                        proof {
                            start(whole, replies, for_finish(asked), then_added(args));
                        }
                        input.ask_quietly(
                            request,
                            AddLinkPhase::Branch { request: Ghost(asked) },
                            Ghost(replies),
                        )
                    },
                    Outcome::Fail { error } => say_nothing(Outcome::Fail { error }),
                    Outcome::Ask { request: _, next: _ } => say_nothing(
                        Outcome::Fail { error: LinkErrorOf::UnexpectedReply },
                    ),
                }
            },
            AddLinkPhase::Branch { request } => {
                let ghost next = then_added(args);
                proof {
                    take_reply(whole, before, for_finish(request@), none, next, answer);
                }
                match reply {
                    Reply::Finished => {
                        let mut tell: Vec<Notice> = Vec::new();
                        tell.push(
                            NoticeOf::Added {
                                path: trim_slashes(input.args.path.as_str()).to_owned(),
                                url: input.args.url.clone(),
                                filter: input.filter().to_owned(),
                                target: input.target().to_owned(),
                                mode: input.args.mode.clone(),
                            },
                        );
                        tell.push(NoticeOf::CreatedBranch { name: RESULT_BRANCH.to_owned() });
                        assert(tell.deep_view() =~= added_notices(args));
                        proof {
                            leads_now(whole, replies, |more: Seq<ReplyModel>| next((), more));
                        }
                        Turn { tell, outcome: Outcome::Done { value: () } }
                    },
                    reply => say_nothing(Outcome::Fail { error: reply.refusal() }),
                }
            },
        }
    }
}

/// Starts the addition of a link. `commit_time` is what the environment fixes the time of commits
/// to, where it does.
pub fn handle_link_add(args: &LinkAddArgs, commit_time: Option<&str>) -> (r: Turn<AddLink>)
    ensures
        r.deep_view() == add_turn(args.deep_view(), optional(commit_time), Seq::empty()),
        r.outcome matches Outcome::Ask { request, next } ==> next.args() == args.deep_view()
            && next.commit_time() == optional(commit_time) && next.replies()
            == Seq::<ReplyModel>::empty(),
{
    let input = AddInput {
        args: LinkAddArgs {
            path: args.path.clone(),
            url: args.url.clone(),
            filter: args.filter.clone(),
            target: args.target.clone(),
            mode: args.mode.clone(),
        },
        commit_time: owned(commit_time),
    };
    if args.path.as_str().is_empty() {
        return say_nothing(Outcome::Fail { error: LinkErrorOf::EmptyPath });
    }
    let ghost none = Seq::<ReplyModel>::empty();
    proof {
        let whole = input.whole();
        let args = input.args.deep_view();
        let time = input.commit_time.deep_view();
        leads_at_start(whole);
        assert(whole(none) == add_turn(args, time, none));
        start(whole, none, for_id(head_request()), then_mode(args, time));
    }
    input.ask_quietly(make_head_request(), AddLinkPhase::Head, Ghost(none))
}

/// The replies to the search for a signature.
pub open spec fn signature_replies(
    commit_time: Option<Seq<char>>,
    signature: SignatureModel,
) -> Seq<ReplyModel> {
    match commit_time {
        Some(_) => Seq::empty(),
        None => seq![ReplyModel::Signature(signature)],
    }
}

proof fn pin_records_commit(
    args: LinkAddModel,
    commit_time: Option<Seq<char>>,
    head: ObjectId,
    mode: Seq<char>,
    commit: ObjectId,
    signature: SignatureModel,
    tree: ObjectId,
)
    requires
        commit_time matches Some(time) ==> signed_value(time) is Some,
    ensures
        pin(
            args,
            commit_time,
            head,
            mode,
            commit,
            signature_replies(commit_time, signature) + seq![ReplyModel::Id(tree)],
        ) == quietly(
            Expected::Ask {
                request: asks_plainly(
                    ActionOf::WriteFilter {
                        filter: new_link(add_args(args, mode, commit, tree)),
                    },
                ),
            },
        ),
{
    let none = Seq::<ReplyModel>::empty();
    let answer = seq![ReplyModel::Id(tree)];
    let next = then_tree(args, head, mode, commit);
    let by = match commit_time {
        Some(time) => {
            assert(none + answer =~= answer);
            chain_starts_done(signing(commit_time), answer, next);
            fixed_signature(signed_value(time)->0)
        },
        None => {
            chain_takes_one(
                signing(commit_time),
                ReplyModel::Signature(signature),
                answer,
                next,
            );
            signature
        },
    };
    assert(answer + none =~= answer);
    chain_takes_one(
        for_id(base_tree_request(head)),
        ReplyModel::Id(tree),
        none,
        then_add(args, head, mode, commit, by),
    );
    let added = adding(add_args(args, mode, commit, tree));
    pending_at_start(added);
    chain_asks(added, none, then_commit(args, head, by));
}

pub(crate) proof fn export_comes_first(
    args: LinkAddModel,
    commit_time: Option<Seq<char>>,
    head: ObjectId,
    mode: Seq<char>,
    exported: ObjectId,
    more: Seq<ReplyModel>,
)
    requires
        trimmed(args.path).len() > 0,
    ensures
        add_turn(
            args,
            commit_time,
            seq![ReplyModel::Id(head), ReplyModel::Text(mode), ReplyModel::Id(exported)] + more,
        ) == then_seed(args, commit_time, head, mode)(
            if exported.is_zero() {
                None
            } else {
                Some(exported)
            },
            more,
        ),
{
    encode_utf8_decode_utf8(args.path);
    encode_utf8_valid_utf8(args.path);
    let from_export = seq![ReplyModel::Id(exported)] + more;
    let from_mode = seq![ReplyModel::Text(mode)] + from_export;
    assert(seq![ReplyModel::Id(head), ReplyModel::Text(mode), ReplyModel::Id(exported)] + more
        =~= seq![ReplyModel::Id(head)] + from_mode);
    chain_takes_one(
        for_id(head_request()),
        ReplyModel::Id(head),
        from_mode,
        then_mode(args, commit_time),
    );
    chain_takes_one(
        for_text(mode_request(args)),
        ReplyModel::Text(mode),
        from_export,
        then_export(args, commit_time, head),
    );
    chain_takes_one(
        exporting(export_args(args, head)),
        ReplyModel::Id(exported),
        more,
        then_seed(args, commit_time, head, mode),
    );
}

/// Where there is content at the path, the new link is pinned to that content, and nothing is
/// fetched.
pub proof fn local_content_is_preferred(
    args: LinkAddModel,
    commit_time: Option<Seq<char>>,
    head: ObjectId,
    mode: Seq<char>,
    exported: ObjectId,
    signature: SignatureModel,
    tree: ObjectId,
)
    requires
        trimmed(args.path).len() > 0,
        !exported.is_zero(),
        commit_time matches Some(time) ==> signed_value(time) is Some,
    ensures
        add_turn(
            args,
            commit_time,
            seq![ReplyModel::Id(head), ReplyModel::Text(mode), ReplyModel::Id(exported)]
                + signature_replies(commit_time, signature) + seq![ReplyModel::Id(tree)],
        ) == quietly(
            Expected::Ask {
                request: asks_plainly(
                    ActionOf::WriteFilter {
                        filter: new_link(add_args(args, mode, exported, tree)),
                    },
                ),
            },
        ),
{
    let first = seq![ReplyModel::Id(head), ReplyModel::Text(mode), ReplyModel::Id(exported)];
    let signed = signature_replies(commit_time, signature);
    let more = signed + seq![ReplyModel::Id(tree)];
    assert(first + signed + seq![ReplyModel::Id(tree)] =~= first + more);
    export_comes_first(args, commit_time, head, mode, exported, more);
    pin_records_commit(args, commit_time, head, mode, exported, signature, tree);
}

/// Where there is no content at the path, the branch that the new link follows is fetched, and the
/// link is pinned to what was fetched.
pub proof fn missing_content_is_fetched(
    args: LinkAddModel,
    commit_time: Option<Seq<char>>,
    head: ObjectId,
    mode: Seq<char>,
    exported: ObjectId,
    fetched: ObjectId,
    signature: SignatureModel,
    tree: ObjectId,
)
    requires
        trimmed(args.path).len() > 0,
        exported.is_zero(),
        commit_time matches Some(time) ==> signed_value(time) is Some,
    ensures
        add_turn(
            args,
            commit_time,
            seq![ReplyModel::Id(head), ReplyModel::Text(mode), ReplyModel::Id(exported)],
        ) == (TurnModel {
            tell: seq![NoticeOf::NoLocal { path: trimmed(args.path) }],
            outcome: Expected::Ask { request: seed_request(args) },
        }),
        add_turn(
            args,
            commit_time,
            seq![
                ReplyModel::Id(head),
                ReplyModel::Text(mode),
                ReplyModel::Id(exported),
                ReplyModel::Finished,
                ReplyModel::Id(fetched),
            ] + signature_replies(commit_time, signature) + seq![ReplyModel::Id(tree)],
        ) == quietly(
            Expected::Ask {
                request: asks_plainly(
                    ActionOf::WriteFilter {
                        filter: new_link(add_args(args, mode, fetched, tree)),
                    },
                ),
            },
        ),
{
    let none = Seq::<ReplyModel>::empty();
    let first = seq![ReplyModel::Id(head), ReplyModel::Text(mode), ReplyModel::Id(exported)];
    let seed = for_finish(seed_request(args));
    let resolve = then_resolve(args, commit_time, head, mode);
    assert(first + none =~= first);
    export_comes_first(args, commit_time, head, mode, exported, none);
    pending_at_start(seed);
    chain_asks(seed, none, resolve);

    let signed = signature_replies(commit_time, signature);
    let later = signed + seq![ReplyModel::Id(tree)];
    let resolved = seq![ReplyModel::Id(fetched)] + later;
    let more = seq![ReplyModel::Finished] + resolved;
    assert(seq![
        ReplyModel::Id(head),
        ReplyModel::Text(mode),
        ReplyModel::Id(exported),
        ReplyModel::Finished,
        ReplyModel::Id(fetched),
    ] + signed + seq![ReplyModel::Id(tree)] =~= first + more);
    export_comes_first(args, commit_time, head, mode, exported, more);
    chain_takes_one(seed, ReplyModel::Finished, resolved, resolve);
    chain_takes_one(
        for_id(fetched_request()),
        ReplyModel::Id(fetched),
        later,
        then_use_fetched(args, commit_time, head, mode),
    );
    pin_records_commit(args, commit_time, head, mode, fetched, signature, tree);
}

/// A link without a filter or a target is added as one with the default filter or target.
pub proof fn missing_arguments_are_defaults(
    args: LinkAddModel,
    commit_time: Option<Seq<char>>,
    replies: Seq<ReplyModel>,
)
    ensures
        add_turn(args, commit_time, replies) == add_turn(
            LinkAddModel {
                filter: Some(filter_of(args)),
                target: Some(target_of(args)),
                ..args
            },
            commit_time,
            replies,
        ),
{
    let full = LinkAddModel {
        filter: Some(filter_of(args)),
        target: Some(target_of(args)),
        ..args
    };
    assert(then_added(args) =~= then_added(full));
    assert(then_branch(args) =~= then_branch(full));
    assert forall|head: ObjectId, signature: SignatureModel| #[trigger]
        then_commit(args, head, signature) == then_commit(full, head, signature) by {
        assert(then_commit(args, head, signature) =~= then_commit(full, head, signature));
    }
    assert forall|mode: Seq<char>, commit: ObjectId, tree: ObjectId| #[trigger]
        adding(add_args(args, mode, commit, tree)) == adding(
            add_args(full, mode, commit, tree),
        ) by {
        assert(adding(add_args(args, mode, commit, tree)) =~= adding(
            add_args(full, mode, commit, tree),
        ));
    }
    assert forall|
        head: ObjectId,
        mode: Seq<char>,
        commit: ObjectId,
        signature: SignatureModel,
    | #[trigger]
        then_add(args, head, mode, commit, signature) == then_add(
            full,
            head,
            mode,
            commit,
            signature,
        ) by {
        assert(then_add(args, head, mode, commit, signature) =~= then_add(
            full,
            head,
            mode,
            commit,
            signature,
        ));
    }
    assert forall|head: ObjectId, mode: Seq<char>, commit: ObjectId| #[trigger]
        then_tree(args, head, mode, commit) == then_tree(full, head, mode, commit) by {
        assert(then_tree(args, head, mode, commit) =~= then_tree(full, head, mode, commit));
    }
    assert forall|head: ObjectId, mode: Seq<char>| #[trigger]
        then_seed(args, commit_time, head, mode) == then_seed(
            full,
            commit_time,
            head,
            mode,
        ) by {
        assert(then_use_fetched(args, commit_time, head, mode) =~= then_use_fetched(
            full,
            commit_time,
            head,
            mode,
        ));
        assert(then_resolve(args, commit_time, head, mode) =~= then_resolve(
            full,
            commit_time,
            head,
            mode,
        ));
        assert(then_seed(args, commit_time, head, mode) =~= then_seed(
            full,
            commit_time,
            head,
            mode,
        ));
    }
    assert forall|head: ObjectId| #[trigger]
        then_export(args, commit_time, head) == then_export(full, commit_time, head) by {
        assert(then_export(args, commit_time, head) =~= then_export(full, commit_time, head));
    }
    assert(then_mode(args, commit_time) =~= then_mode(full, commit_time));
}

} // verus!
