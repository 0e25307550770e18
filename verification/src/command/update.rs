//! The command that moves every link to the latest commit of the branch that it follows.

use crate::command::args::LinkUpdateArgs;
use crate::command::shared::{
    branch_request, head_request, make_branch_request, make_head_request, make_select_request,
    select_request, signing, RESULT_BRANCH,
};
use crate::error::LinkErrorOf;
use crate::filter::MetaKey;
use crate::link::{LinkFile, LinkFileModel, Signature, SignatureModel, UpdateLinksResult};
use crate::notice::{Notice, NoticeModel, NoticeOf};
use crate::oid::ObjectId;
use crate::path::{shown, LinkPath};
use crate::push::DEFAULT_TARGET;
use crate::signature::{make_signature, MakeSignature};
use crate::step::{asks, ActionOf, Expected, Outcome, Reply, ReplyModel, Request, RequestModel};
use crate::text::{borrowed, owned, optional, wrap};
use crate::turn::{
    awaits, chain_takes_one, chained, finally, for_finish, for_id, for_links, leads, leads_at_start,
    leads_now, quietly, reached, say_nothing, start, start_telling, take_reply, told, Continuation,
    Operation, Turn, TurnModel, Whole,
};
use crate::update::{update_links, update_links_step, UpdateArgs, UpdateLinks};
use vstd::prelude::*;
use vstd::string::*;

verus! {

/// What an update is for: the commit that is checked out, and the time of the commits, where it is
/// fixed.
pub struct UpdateContext {
    pub head: ObjectId,
    pub commit_time: Option<Seq<char>>,
}

/// The branch that a link follows.
pub open spec fn branch_of(file: LinkFileModel) -> Seq<char> {
    match file.target {
        Some(target) => target,
        None => DEFAULT_TARGET@,
    }
}

/// The request that fetches the branch that a link follows.
pub open spec fn link_fetch_request(file: LinkFileModel) -> RequestModel {
    asks(
        ActionOf::Git {
            verb: "fetch"@,
            remote: file.remote->0,
            refspec: branch_of(file),
        },
        "git fetch failed for '"@ + shown(file.path) + "'"@,
    )
}

/// The request for what was fetched.
pub open spec fn fetch_head_request() -> RequestModel {
    asks(ActionOf::ResolveFetchHead, "Failed to resolve FETCH_HEAD"@)
}

/// The request for the tree of the commit that is checked out.
pub open spec fn head_tree_request(head: ObjectId) -> RequestModel {
    asks(
        ActionOf::ReadCommitTree { commit: head, read_context: None },
        "Failed to get HEAD tree"@,
    )
}

/// The request for the link files of the tree of the commit that is checked out.
pub open spec fn find_request(tree: ObjectId) -> RequestModel {
    asks(ActionOf::FindLinks { tree }, "Failed to find link files"@)
}

/// The request for the tree of a commit narrowed to what a filter selects.
pub open spec fn filtered_tree_request(commit: ObjectId) -> RequestModel {
    asks(
        ActionOf::ReadCommitTree {
            commit,
            read_context: Some("Failed to find filtered commit"@),
        },
        "Failed to get filtered tree"@,
    )
}

/// The request for the link files of the narrowed tree.
pub open spec fn find_filtered_request(tree: ObjectId) -> RequestModel {
    asks(ActionOf::FindLinks { tree }, "Failed to find link files in filtered tree"@)
}

/// The end of the command, where link files were updated.
pub open spec fn then_updated(count: nat) -> Continuation<()> {
    |u: (), more: Seq<ReplyModel>|
        finally(
            seq![
                NoticeOf::UpdatedLinks { count: count as usize },
                NoticeOf::UpdatedBranch { name: RESULT_BRANCH@ },
            ],
        )
}

/// The request that lets the branch point to the updated links.
pub open spec fn updated_branch_request(result: UpdateLinksResult) -> RequestModel {
    branch_request(result.filtered_commit, "josh link update"@, "Failed to update branch '"@)
}

/// The command after the link files are updated.
pub open spec fn then_branch(count: nat) -> Continuation<Option<UpdateLinksResult>> {
    |result: Option<UpdateLinksResult>, more: Seq<ReplyModel>|
        match result {
            None => finally(seq![NoticeOf::UpToDate { count: count as usize }]),
            Some(result) => chained(
                for_finish(updated_branch_request(result)),
                more,
                then_updated(count),
            ),
        }
}

/// The update of links, as an operation.
pub open spec fn updating(args: UpdateArgs) -> Operation<Option<UpdateLinksResult>> {
    |replies: Seq<ReplyModel>| update_links_step(args, replies)
}

/// The command after the signature is found.
pub open spec fn then_update(
    head: ObjectId,
    updates: Seq<(Seq<u8>, ObjectId)>,
    count: nat,
) -> Continuation<SignatureModel> {
    |signature: SignatureModel, more: Seq<ReplyModel>|
        chained(updating(UpdateArgs { head, updates, signature }), more, then_branch(count))
}

/// Fetches the branches that the links from the number `at` on follow, and moves all links then.
/// `updates` are the commits that the links before are moved to.
pub open spec fn update_each(
    ctx: UpdateContext,
    files: Seq<LinkFileModel>,
    at: int,
    updates: Seq<(Seq<u8>, ObjectId)>,
    replies: Seq<ReplyModel>,
) -> TurnModel
    decreases files.len() - at,
{
    if at >= files.len() {
        chained(
            signing(ctx.commit_time),
            replies,
            then_update(ctx.head, updates, files.len()),
        )
    } else if files[at].remote is None {
        quietly(
            Expected::Fail {
                error: LinkErrorOf::MissingMetaAt {
                    key: MetaKey::Remote,
                    path: shown(files[at].path),
                },
            },
        )
    } else {
        told(
            seq![
                NoticeOf::Fetching { what: branch_of(files[at]), remote: files[at].remote->0 },
            ],
            replies,
            chained(
                for_finish(link_fetch_request(files[at])),
                replies,
                |u: (), more: Seq<ReplyModel>|
                    chained(
                        for_id(fetch_head_request()),
                        more,
                        |commit: ObjectId, rest: Seq<ReplyModel>|
                            update_each(
                                ctx,
                                files,
                                at + 1,
                                updates.push((files[at].path, commit)),
                                rest,
                            ),
                    ),
            ),
        )
    }
}

/// The command after the branch of the link number `at` is fetched.
pub open spec fn then_resolve(
    ctx: UpdateContext,
    files: Seq<LinkFileModel>,
    at: int,
    updates: Seq<(Seq<u8>, ObjectId)>,
) -> Continuation<()> {
    |u: (), more: Seq<ReplyModel>|
        chained(for_id(fetch_head_request()), more, then_next(ctx, files, at, updates))
}

/// The command after it is found what was fetched for the link number `at`.
pub open spec fn then_next(
    ctx: UpdateContext,
    files: Seq<LinkFileModel>,
    at: int,
    updates: Seq<(Seq<u8>, ObjectId)>,
) -> Continuation<ObjectId> {
    |commit: ObjectId, more: Seq<ReplyModel>|
        update_each(ctx, files, at + 1, updates.push((files[at].path, commit)), more)
}

pub(crate) proof fn update_each_fetches(
    ctx: UpdateContext,
    files: Seq<LinkFileModel>,
    at: int,
    updates: Seq<(Seq<u8>, ObjectId)>,
    replies: Seq<ReplyModel>,
)
    requires
        0 <= at < files.len(),
        files[at].remote is Some,
    ensures
        update_each(ctx, files, at, updates, replies) == told(
            seq![
                NoticeOf::Fetching { what: branch_of(files[at]), remote: files[at].remote->0 },
            ],
            replies,
            chained(
                for_finish(link_fetch_request(files[at])),
                replies,
                then_resolve(ctx, files, at, updates),
            ),
        ),
{
}

/// The command after the link files are found.
pub open spec fn then_update_all(ctx: UpdateContext) -> Continuation<Seq<LinkFileModel>> {
    |files: Seq<LinkFileModel>, more: Seq<ReplyModel>|
        if files.len() == 0 {
            quietly(Expected::Fail { error: LinkErrorOf::NoLinkFiles })
        } else {
            told(
                seq![NoticeOf::FoundLinks { count: files.len() as usize }],
                more,
                update_each(ctx, files, 0, Seq::empty(), more),
            )
        }
}

/// The command after the narrowed tree is found.
pub open spec fn then_find_filtered(ctx: UpdateContext) -> Continuation<ObjectId> {
    |tree: ObjectId, more: Seq<ReplyModel>|
        chained(for_links(find_filtered_request(tree)), more, then_update_all(ctx))
}

/// The command after the commit is narrowed to what the filter selects.
pub open spec fn then_filtered(ctx: UpdateContext) -> Continuation<ObjectId> {
    |commit: ObjectId, more: Seq<ReplyModel>|
        if commit.is_zero() {
            then_update_all(ctx)(Seq::empty(), more)
        } else {
            chained(for_id(filtered_tree_request(commit)), more, then_find_filtered(ctx))
        }
}

/// The command after the tree of the commit that is checked out is found.
pub open spec fn then_find(
    filter: Option<Seq<char>>,
    ctx: UpdateContext,
) -> Continuation<ObjectId> {
    |tree: ObjectId, more: Seq<ReplyModel>|
        match filter {
            Some(filter) => chained(
                for_id(select_request(filter, ctx.head)),
                more,
                then_filtered(ctx),
            ),
            None => chained(for_links(find_request(tree)), more, then_update_all(ctx)),
        }
}

/// The command after the commit that is checked out is found.
pub open spec fn then_tree(
    filter: Option<Seq<char>>,
    commit_time: Option<Seq<char>>,
) -> Continuation<ObjectId> {
    |head: ObjectId, more: Seq<ReplyModel>|
        chained(
            for_id(head_tree_request(head)),
            more,
            then_find(filter, UpdateContext { head, commit_time }),
        )
}

/// What the command does after `replies`: it finds the link files of the commit that is checked
/// out, or those of them that the filter selects, fetches the branch that each link follows, moves
/// the links to what was fetched, and lets a branch point to the result.
pub open spec fn update_turn(
    filter: Option<Seq<char>>,
    commit_time: Option<Seq<char>>,
    replies: Seq<ReplyModel>,
) -> TurnModel {
    chained(for_id(head_request()), replies, then_tree(filter, commit_time))
}

/// What the command was started with.
struct UpdateInput {
    filter: Option<String>,
    commit_time: Option<String>,
}

impl UpdateInput {
    /// The command, as what it does after a row of replies.
    spec fn whole(self) -> Whole {
        let filter = self.filter.deep_view();
        let commit_time = self.commit_time.deep_view();
        |replies: Seq<ReplyModel>| update_turn(filter, commit_time, replies)
    }

    spec fn context(self, head: ObjectId) -> UpdateContext {
        UpdateContext { head, commit_time: self.commit_time.deep_view() }
    }

    /// Whether `turn` is what the command does after `replies`, and goes on from there.
    spec fn takes(self, turn: Turn<UpdateAllLinks>, replies: Seq<ReplyModel>) -> bool {
        &&& turn.deep_view() == update_turn(
            self.filter.deep_view(),
            self.commit_time.deep_view(),
            replies,
        )
        &&& turn.outcome matches Outcome::Ask { request, next } ==> next.filter()
            == self.filter.deep_view() && next.commit_time() == self.commit_time.deep_view()
            && next.replies() == replies
    }
}

/// What the update of all links waits for.
enum UpdateAllPhase {
    /// The commit that is checked out.
    Head,
    /// The tree of that commit.
    Tree { head: ObjectId },
    /// That commit narrowed to what the filter selects.
    Select { head: ObjectId, request: Ghost<RequestModel> },
    /// The tree of the narrowed commit.
    FilteredTree { head: ObjectId, request: Ghost<RequestModel> },
    /// The link files.
    Links { head: ObjectId, request: Ghost<RequestModel> },
    /// The branch that the link number `at` follows.
    Fetch {
        head: ObjectId,
        files: Vec<LinkFile>,
        at: usize,
        updates: Vec<(LinkPath, ObjectId)>,
    },
    /// What was fetched for the link number `at`.
    Resolve {
        head: ObjectId,
        files: Vec<LinkFile>,
        at: usize,
        updates: Vec<(LinkPath, ObjectId)>,
    },
    /// The signature.
    Sign {
        head: ObjectId,
        updates: Vec<(LinkPath, ObjectId)>,
        count: usize,
        sign: MakeSignature,
    },
    /// Whatever the update of the links waits for.
    Update { count: usize, update: UpdateLinks },
    /// The branch.
    Branch { count: usize, request: Ghost<RequestModel> },
}

/// The update of all links that waits for a reply.
pub struct UpdateAllLinks {
    input: UpdateInput,
    phase: UpdateAllPhase,
    replies: Ghost<Seq<ReplyModel>>,
}

impl UpdateAllLinks {
    /// The filter that selects which links are updated.
    pub closed spec fn filter(self) -> Option<Seq<char>> {
        self.input.filter.deep_view()
    }

    /// The time of the commits, where it is fixed.
    pub closed spec fn commit_time(self) -> Option<Seq<char>> {
        self.input.commit_time.deep_view()
    }

    /// The replies so far.
    pub closed spec fn replies(self) -> Seq<ReplyModel> {
        self.replies@
    }

    #[verifier::type_invariant]
    spec fn consistent(self) -> bool {
        let whole = self.input.whole();
        let replies = self.replies@;
        let none = Seq::<ReplyModel>::empty();
        match self.phase {
            UpdateAllPhase::Head => awaits(
                whole,
                replies,
                for_id(head_request()),
                none,
                then_tree(self.input.filter.deep_view(), self.input.commit_time.deep_view()),
            ),
            UpdateAllPhase::Tree { head } => awaits(
                whole,
                replies,
                for_id(head_tree_request(head)),
                none,
                then_find(self.input.filter.deep_view(), self.input.context(head)),
            ),
            UpdateAllPhase::Select { head, request } => awaits(
                whole,
                replies,
                for_id(request@),
                none,
                then_filtered(self.input.context(head)),
            ),
            UpdateAllPhase::FilteredTree { head, request } => awaits(
                whole,
                replies,
                for_id(request@),
                none,
                then_find_filtered(self.input.context(head)),
            ),
            UpdateAllPhase::Links { head, request } => awaits(
                whole,
                replies,
                for_links(request@),
                none,
                then_update_all(self.input.context(head)),
            ),
            UpdateAllPhase::Fetch { head, files, at, updates } => {
                &&& at < files@.len()
                &&& awaits(
                    whole,
                    replies,
                    for_finish(link_fetch_request(files.deep_view()[at as int])),
                    none,
                    then_resolve(
                        self.input.context(head),
                        files.deep_view(),
                        at as int,
                        updates.deep_view(),
                    ),
                )
            },
            UpdateAllPhase::Resolve { head, files, at, updates } => {
                &&& at < files@.len()
                &&& awaits(
                    whole,
                    replies,
                    for_id(fetch_head_request()),
                    none,
                    then_next(
                        self.input.context(head),
                        files.deep_view(),
                        at as int,
                        updates.deep_view(),
                    ),
                )
            },
            UpdateAllPhase::Sign { head, updates, count, sign } => {
                &&& self.input.commit_time is None
                &&& awaits(
                    whole,
                    replies,
                    signing(None),
                    none,
                    then_update(head, updates.deep_view(), count as nat),
                )
            },
            UpdateAllPhase::Update { count, update } => awaits(
                whole,
                replies,
                updating(update.args()),
                update.replies(),
                then_branch(count as nat),
            ),
            UpdateAllPhase::Branch { count, request } => awaits(
                whole,
                replies,
                for_finish(request@),
                none,
                then_updated(count as nat),
            ),
        }
    }
}

impl UpdateInput {
    /// Asks, without a word, and waits.
    fn ask(
        self,
        request: Request,
        phase: UpdateAllPhase,
        Ghost(replies): Ghost<Seq<ReplyModel>>,
    ) -> (r: Turn<UpdateAllLinks>)
        requires
            (UpdateAllLinks { input: self, phase, replies: Ghost(replies) }).consistent(),
            self.whole()(replies) == quietly(Expected::Ask { request: request.deep_view() }),
        ensures
            self.takes(r, replies),
    {
        say_nothing(
            Outcome::Ask {
                request,
                next: UpdateAllLinks { input: self, phase, replies: Ghost(replies) },
            },
        )
    }

    /// Goes on as the update of the links does.
    fn follow_update(
        self,
        outcome: Outcome<UpdateLinks, Option<UpdateLinksResult>>,
        count: usize,
        Ghost(replies): Ghost<Seq<ReplyModel>>,
        Ghost(args): Ghost<UpdateArgs>,
        Ghost(done): Ghost<Seq<ReplyModel>>,
    ) -> (r: Turn<UpdateAllLinks>)
        requires
            outcome.deep_view() == update_links_step(args, done),
            outcome matches Outcome::Ask { request, next } ==> next.args() == args
                && next.replies() == done,
            reached(self.whole(), replies, updating(args), done, then_branch(count as nat)),
        ensures
            self.takes(r, replies),
    {
        let ghost whole = self.whole();
        match outcome {
            Outcome::Ask { request, next } => self.ask(
                request,
                UpdateAllPhase::Update { count, update: next },
                Ghost(replies),
            ),
            Outcome::Done { value: None } => {
                let mut tell: Vec<Notice> = Vec::new();
                tell.push(NoticeOf::UpToDate { count });
                assert(tell.deep_view() =~= seq![NoticeModel::UpToDate { count }]);
                proof {
                    leads_now(
                        whole,
                        replies,
                        |more: Seq<ReplyModel>| then_branch(count as nat)(None, more),
                    );
                }
                Turn { tell, outcome: Outcome::Done { value: () } }
            },
            Outcome::Done { value: Some(result) } => {
                let ghost asked = updated_branch_request(result);
                proof {
                    start(whole, replies, for_finish(asked), then_updated(count as nat));
                }
                self.ask(
                    make_branch_request(
                        result.filtered_commit,
                        "josh link update",
                        "Failed to update branch '",
                    ),
                    UpdateAllPhase::Branch { count, request: Ghost(asked) },
                    Ghost(replies),
                )
            },
            Outcome::Fail { error } => say_nothing(Outcome::Fail { error }),
        }
    }

    /// Goes on with the update of the links.
    fn update(
        self,
        head: ObjectId,
        updates: Vec<(LinkPath, ObjectId)>,
        count: usize,
        signature: Signature,
        Ghost(replies): Ghost<Seq<ReplyModel>>,
    ) -> (r: Turn<UpdateAllLinks>)
        requires
            leads(
                self.whole(),
                replies,
                |more: Seq<ReplyModel>|
                    then_update(head, updates.deep_view(), count as nat)(
                        signature.deep_view(),
                        more,
                    ),
            ),
        ensures
            self.takes(r, replies),
    {
        let ghost args = UpdateArgs {
            head,
            updates: updates.deep_view(),
            signature: signature.deep_view(),
        };
        proof {
            start(self.whole(), replies, updating(args), then_branch(count as nat));
        }
        self.follow_update(
            update_links(head, updates, &signature),
            count,
            Ghost(replies),
            Ghost(args),
            Ghost(Seq::empty()),
        )
    }

    /// Goes on with the search for the signature.
    fn sign(
        self,
        head: ObjectId,
        updates: Vec<(LinkPath, ObjectId)>,
        count: usize,
        Ghost(replies): Ghost<Seq<ReplyModel>>,
    ) -> (r: Turn<UpdateAllLinks>)
        requires
            leads(
                self.whole(),
                replies,
                |more: Seq<ReplyModel>|
                    chained(
                        signing(self.commit_time.deep_view()),
                        more,
                        then_update(head, updates.deep_view(), count as nat),
                    ),
            ),
        ensures
            self.takes(r, replies),
    {
        proof {
            start(
                self.whole(),
                replies,
                signing(self.commit_time.deep_view()),
                then_update(head, updates.deep_view(), count as nat),
            );
        }
        match make_signature(borrowed(&self.commit_time)) {
            Outcome::Ask { request, next } => self.ask(
                request,
                UpdateAllPhase::Sign { head, updates, count, sign: next },
                Ghost(replies),
            ),
            Outcome::Done { value } => self.update(head, updates, count, value, Ghost(replies)),
            Outcome::Fail { error } => say_nothing(Outcome::Fail { error }),
        }
    }

    /// Goes on with the link number `at`, after `tell`.
    fn fetch(
        self,
        tell: Vec<Notice>,
        head: ObjectId,
        files: Vec<LinkFile>,
        at: usize,
        updates: Vec<(LinkPath, ObjectId)>,
        Ghost(replies): Ghost<Seq<ReplyModel>>,
    ) -> (r: Turn<UpdateAllLinks>)
        requires
            at < files@.len(),
            leads(
                self.whole(),
                replies,
                |more: Seq<ReplyModel>|
                    told(
                        tell.deep_view(),
                        more,
                        update_each(
                            self.context(head),
                            files.deep_view(),
                            at as int,
                            updates.deep_view(),
                            more,
                        ),
                    ),
            ),
        ensures
            self.takes(r, replies),
    {
        let ghost whole = self.whole();
        let ghost ctx = self.context(head);
        let ghost all = files.deep_view();
        let ghost moved = updates.deep_view();
        let ghost said = tell.deep_view();
        let ghost rest = |more: Seq<ReplyModel>|
            told(said, more, update_each(ctx, all, at as int, moved, more));
        let ghost file = all[at as int];
        assert(file == files@[at as int].deep_view());
        let mut tell = tell;
        match &files[at].remote {
            None => {
                let path = files[at].path.display();
                proof {
                    leads_now(whole, replies, rest);
                    assert(said + Seq::<NoticeModel>::empty() =~= said);
                }
                Turn {
                    tell,
                    outcome: Outcome::Fail {
                        error: LinkErrorOf::MissingMetaAt { key: MetaKey::Remote, path },
                    },
                }
            },
            Some(remote) => {
                let branch: String = match &files[at].target {
                    Some(target) => target.clone(),
                    None => DEFAULT_TARGET.to_owned(),
                };
                let context = wrap(
                    "git fetch failed for '",
                    files[at].path.display().as_str(),
                    "'",
                );
                let ghost asked = link_fetch_request(file);
                let ghost fetching = NoticeModel::Fetching {
                    what: branch_of(file),
                    remote: file.remote->0,
                };
                tell.push(NoticeOf::Fetching { what: branch.clone(), remote: remote.clone() });
                assert(tell.deep_view() =~= said.push(fetching));
                let request = Request::with_context(
                    ActionOf::Git {
                        verb: "fetch".to_owned(),
                        remote: remote.clone(),
                        refspec: branch,
                    },
                    context,
                );
                proof {
                    let next = then_resolve(ctx, all, at as int, moved);
                    assert forall|more: Seq<ReplyModel>| #[trigger] whole(replies + more) == told(
                        said.push(fetching),
                        more,
                        chained(for_finish(asked), more, next),
                    ) by {
                        assert(whole(replies + more) == rest(more));
                        update_each_fetches(ctx, all, at as int, moved, more);
                        let turn = chained(for_finish(asked), more, next);
                        assert(said + (seq![fetching] + turn.tell) =~= said.push(fetching)
                            + turn.tell);
                    }
                    start_telling(whole, replies, said.push(fetching), for_finish(asked), next);
                }
                Turn {
                    tell,
                    outcome: Outcome::Ask {
                        request,
                        next: UpdateAllLinks {
                            input: self,
                            phase: UpdateAllPhase::Fetch { head, files, at, updates },
                            replies: Ghost(replies),
                        },
                    },
                }
            },
        }
    }

    /// Goes on with the link files that were found.
    fn update_all(
        self,
        head: ObjectId,
        files: Vec<LinkFile>,
        Ghost(replies): Ghost<Seq<ReplyModel>>,
    ) -> (r: Turn<UpdateAllLinks>)
        requires
            leads(
                self.whole(),
                replies,
                |more: Seq<ReplyModel>|
                    then_update_all(self.context(head))(files.deep_view(), more),
            ),
        ensures
            self.takes(r, replies),
    {
        let ghost whole = self.whole();
        let ghost ctx = self.context(head);
        let ghost all = files.deep_view();
        let ghost rest = |more: Seq<ReplyModel>| then_update_all(ctx)(all, more);
        if files.len() == 0 {
            proof {
                leads_now(whole, replies, rest);
            }
            say_nothing(Outcome::Fail { error: LinkErrorOf::NoLinkFiles })
        } else {
            let mut tell: Vec<Notice> = Vec::new();
            tell.push(NoticeOf::FoundLinks { count: files.len() });
            assert(tell.deep_view() =~= seq![
                NoticeModel::FoundLinks { count: all.len() as usize },
            ]);
            let updates: Vec<(LinkPath, ObjectId)> = Vec::new();
            assert(updates.deep_view() =~= Seq::empty());
            proof {
                assert forall|more: Seq<ReplyModel>| #[trigger] whole(replies + more) == told(
                    tell.deep_view(),
                    more,
                    update_each(ctx, all, 0, updates.deep_view(), more),
                ) by {
                    assert(whole(replies + more) == rest(more));
                }
            }
            self.fetch(tell, head, files, 0, updates, Ghost(replies))
        }
    }
}

impl UpdateAllLinks {
    /// Takes the reply to what was asked.
    pub fn resume(self, reply: Reply) -> (r: Turn<UpdateAllLinks>)
        ensures
            r.deep_view() == update_turn(
                self.filter(),
                self.commit_time(),
                self.replies().push(reply.deep_view()),
            ),
            r.outcome matches Outcome::Ask { request, next } ==> next.filter() == self.filter()
                && next.commit_time() == self.commit_time() && next.replies()
                == self.replies().push(reply.deep_view()),
    {
        proof {
            use_type_invariant(&self);
        }
        let ghost before = self.replies@;
        let ghost answer = reply.deep_view();
        let ghost replies = before.push(answer);
        let ghost none = Seq::<ReplyModel>::empty();
        let ghost whole = self.input.whole();
        assert(whole(replies) == update_turn(self.filter(), self.commit_time(), replies));
        let UpdateAllLinks { input, phase, replies: _ } = self;
        let ghost filter = input.filter.deep_view();
        match (phase, reply) {
            (UpdateAllPhase::Head, reply) => {
                proof {
                    let next = then_tree(filter, input.commit_time.deep_view());
                    take_reply(whole, before, for_id(head_request()), none, next, answer);
                }
                match reply {
                    Reply::Id(head) => {
                        let request = Request::with_context(
                            ActionOf::ReadCommitTree { commit: head, read_context: None },
                            "Failed to get HEAD tree".to_owned(),
                        );
                        proof {
                            start(
                                whole,
                                replies,
                                for_id(head_tree_request(head)),
                                then_find(filter, input.context(head)),
                            );
                        }
                        input.ask(request, UpdateAllPhase::Tree { head }, Ghost(replies))
                    },
                    reply => say_nothing(Outcome::Fail { error: reply.refusal() }),
                }
            },
            (UpdateAllPhase::Tree { head }, reply) => {
                let ghost ctx = input.context(head);
                proof {
                    take_reply(
                        whole,
                        before,
                        for_id(head_tree_request(head)),
                        none,
                        then_find(filter, ctx),
                        answer,
                    );
                }
                match (reply, &input.filter) {
                    (Reply::Id(_), Some(text)) => {
                        let request = make_select_request(text.as_str(), head);
                        let ghost asked = select_request(text@, head);
                        proof {
                            start(whole, replies, for_id(asked), then_filtered(ctx));
                        }
                        input.ask(
                            request,
                            UpdateAllPhase::Select { head, request: Ghost(asked) },
                            Ghost(replies),
                        )
                    },
                    (Reply::Id(tree), None) => {
                        let request = Request::with_context(
                            ActionOf::FindLinks { tree },
                            "Failed to find link files".to_owned(),
                        );
                        let ghost asked = find_request(tree);
                        proof {
                            start(whole, replies, for_links(asked), then_update_all(ctx));
                        }
                        input.ask(
                            request,
                            UpdateAllPhase::Links { head, request: Ghost(asked) },
                            Ghost(replies),
                        )
                    },
                    (reply, _) => say_nothing(Outcome::Fail { error: reply.refusal() }),
                }
            },
            (UpdateAllPhase::Select { head, request }, reply) => {
                let ghost ctx = input.context(head);
                proof {
                    take_reply(
                        whole,
                        before,
                        for_id(request@),
                        none,
                        then_filtered(ctx),
                        answer,
                    );
                }
                match reply {
                    Reply::Id(commit) => if commit.is_null() {
                        let files: Vec<LinkFile> = Vec::new();
                        assert(files.deep_view() =~= Seq::empty());
                        input.update_all(head, files, Ghost(replies))
                    } else {
                        let request = Request::with_context(
                            ActionOf::ReadCommitTree {
                                commit,
                                read_context: Some("Failed to find filtered commit".to_owned()),
                            },
                            "Failed to get filtered tree".to_owned(),
                        );
                        let ghost asked = filtered_tree_request(commit);
                        proof {
                            start(whole, replies, for_id(asked), then_find_filtered(ctx));
                        }
                        input.ask(
                            request,
                            UpdateAllPhase::FilteredTree { head, request: Ghost(asked) },
                            Ghost(replies),
                        )
                    },
                    reply => say_nothing(Outcome::Fail { error: reply.refusal() }),
                }
            },
            (UpdateAllPhase::FilteredTree { head, request }, reply) => {
                let ghost ctx = input.context(head);
                proof {
                    take_reply(
                        whole,
                        before,
                        for_id(request@),
                        none,
                        then_find_filtered(ctx),
                        answer,
                    );
                }
                match reply {
                    Reply::Id(tree) => {
                        let request = Request::with_context(
                            ActionOf::FindLinks { tree },
                            "Failed to find link files in filtered tree".to_owned(),
                        );
                        let ghost asked = find_filtered_request(tree);
                        proof {
                            start(whole, replies, for_links(asked), then_update_all(ctx));
                        }
                        input.ask(
                            request,
                            UpdateAllPhase::Links { head, request: Ghost(asked) },
                            Ghost(replies),
                        )
                    },
                    reply => say_nothing(Outcome::Fail { error: reply.refusal() }),
                }
            },
            (UpdateAllPhase::Links { head, request }, reply) => {
                let ghost ctx = input.context(head);
                proof {
                    take_reply(
                        whole,
                        before,
                        for_links(request@),
                        none,
                        then_update_all(ctx),
                        answer,
                    );
                }
                match reply {
                    Reply::Links(files) => input.update_all(head, files, Ghost(replies)),
                    reply => say_nothing(Outcome::Fail { error: reply.refusal() }),
                }
            },
            (UpdateAllPhase::Fetch { head, files, at, updates }, reply) => {
                let ghost ctx = input.context(head);
                let ghost all = files.deep_view();
                let ghost moved = updates.deep_view();
                proof {
                    take_reply(
                        whole,
                        before,
                        for_finish(link_fetch_request(all[at as int])),
                        none,
                        then_resolve(ctx, all, at as int, moved),
                        answer,
                    );
                }
                match reply {
                    Reply::Finished => {
                        let request = Request::with_context(
                            ActionOf::ResolveFetchHead,
                            "Failed to resolve FETCH_HEAD".to_owned(),
                        );
                        proof {
                            start(
                                whole,
                                replies,
                                for_id(fetch_head_request()),
                                then_next(ctx, all, at as int, moved),
                            );
                        }
                        input.ask(
                            request,
                            UpdateAllPhase::Resolve { head, files, at, updates },
                            Ghost(replies),
                        )
                    },
                    reply => say_nothing(Outcome::Fail { error: reply.refusal() }),
                }
            },
            (UpdateAllPhase::Resolve { head, files, at, updates }, reply) => {
                let count: usize = files.len();
                let mut updates = updates;
                let ghost ctx = input.context(head);
                let ghost all = files.deep_view();
                let ghost moved = updates.deep_view();
                let ghost next = then_next(ctx, all, at as int, moved);
                proof {
                    take_reply(whole, before, for_id(fetch_head_request()), none, next, answer);
                }
                match reply {
                    Reply::Id(commit) => {
                        let path = files[at].path.clone();
                        assert(all[at as int] == files@[at as int].deep_view());
                        updates.push((path, commit));
                        assert(updates.deep_view() =~= moved.push((all[at as int].path, commit)));
                        let ghost rest = |more: Seq<ReplyModel>| next(commit, more);
                        if at + 1 == count {
                            proof {
                                assert forall|more: Seq<ReplyModel>| #[trigger]
                                    whole(replies + more) == chained(
                                    signing(ctx.commit_time),
                                    more,
                                    then_update(head, updates.deep_view(), count as nat),
                                ) by {
                                    assert(whole(replies + more) == rest(more));
                                }
                            }
                            input.sign(head, updates, count, Ghost(replies))
                        } else {
                            let tell: Vec<Notice> = Vec::new();
                            assert(tell.deep_view() =~= Seq::empty());
                            proof {
                                assert forall|more: Seq<ReplyModel>| #[trigger]
                                    whole(replies + more) == told(
                                    tell.deep_view(),
                                    more,
                                    update_each(ctx, all, at + 1, updates.deep_view(), more),
                                ) by {
                                    assert(whole(replies + more) == rest(more));
                                    assert(Seq::<NoticeModel>::empty() + rest(more).tell
                                        =~= rest(more).tell);
                                }
                            }
                            input.fetch(tell, head, files, at + 1, updates, Ghost(replies))
                        }
                    },
                    reply => say_nothing(Outcome::Fail { error: reply.refusal() }),
                }
            },
            (UpdateAllPhase::Sign { head, updates, count, sign }, reply) => {
                proof {
                    take_reply(
                        whole,
                        before,
                        signing(None),
                        none,
                        then_update(head, updates.deep_view(), count as nat),
                        answer,
                    );
                    assert(none.push(answer) =~= seq![answer]);
                }
                match sign.resume(reply) {
                    Outcome::Done { value } => input.update(
                        head,
                        updates,
                        count,
                        value,
                        Ghost(replies),
                    ),
                    Outcome::Fail { error } => say_nothing(Outcome::Fail { error }),
                    Outcome::Ask { request: _, next: _ } => say_nothing(
                        Outcome::Fail { error: LinkErrorOf::UnexpectedReply },
                    ),
                }
            },
            (UpdateAllPhase::Update { count, update }, reply) => {
                let ghost args = update.args();
                let ghost done = update.replies();
                proof {
                    take_reply(
                        whole,
                        before,
                        updating(args),
                        done,
                        then_branch(count as nat),
                        answer,
                    );
                }
                input.follow_update(
                    update.resume(reply),
                    count,
                    Ghost(replies),
                    Ghost(args),
                    Ghost(done.push(answer)),
                )
            },
            (UpdateAllPhase::Branch { count, request }, reply) => {
                let ghost next = then_updated(count as nat);
                proof {
                    take_reply(whole, before, for_finish(request@), none, next, answer);
                }
                match reply {
                    Reply::Finished => {
                        let mut tell: Vec<Notice> = Vec::new();
                        tell.push(NoticeOf::UpdatedLinks { count });
                        tell.push(NoticeOf::UpdatedBranch { name: RESULT_BRANCH.to_owned() });
                        assert(tell.deep_view() =~= seq![
                            NoticeModel::UpdatedLinks { count },
                            NoticeModel::UpdatedBranch { name: RESULT_BRANCH@ },
                        ]);
                        proof {
                            leads_now(whole, replies, |more: Seq<ReplyModel>| next((), more));
                        }
                        Turn { tell, outcome: Outcome::Done { value: () } }
                    },
                    reply => say_nothing(Outcome::Fail { error: reply.refusal() }),
                }
            },
        }
    }
}

/// Starts the update of all links. `commit_time` is what the environment fixes the time of commits
/// to, where it does.
pub fn handle_link_update(args: &LinkUpdateArgs, commit_time: Option<&str>) -> (r: Turn<
    UpdateAllLinks,
>)
    ensures
        r.deep_view() == update_turn(
            args.filter.deep_view(),
            optional(commit_time),
            Seq::empty(),
        ),
        r.outcome matches Outcome::Ask { request, next } && next.filter()
            == args.filter.deep_view() && next.commit_time() == optional(commit_time)
            && next.replies() == Seq::<ReplyModel>::empty(),
{
    let input = UpdateInput { filter: args.filter.clone(), commit_time: owned(commit_time) };
    let ghost none = Seq::<ReplyModel>::empty();
    proof {
        let whole = input.whole();
        let filter = input.filter.deep_view();
        let time = input.commit_time.deep_view();
        leads_at_start(whole);
        assert(whole(none) == update_turn(filter, time, none));
        start(whole, none, for_id(head_request()), then_tree(filter, time));
    }
    input.ask(make_head_request(), UpdateAllPhase::Head, Ghost(none))
}

/// The replies to the fetch of the branches that links follow: for each the end of its fetch, and
/// the commit that was fetched.
pub open spec fn branch_replies(commits: Seq<ObjectId>) -> Seq<ReplyModel>
    decreases commits.len(),
{
    if commits.len() == 0 {
        Seq::empty()
    } else {
        seq![ReplyModel::Finished, ReplyModel::Id(commits.first())] + branch_replies(
            commits.drop_first(),
        )
    }
}

/// The links `files`, each moved to the commit of the same number.
pub open spec fn moves(files: Seq<LinkFileModel>, commits: Seq<ObjectId>) -> Seq<
    (Seq<u8>, ObjectId),
> {
    Seq::new(files.len(), |i: int| (files[i].path, commits[i]))
}

proof fn each_link_is_moved_to_its_branch(
    ctx: UpdateContext,
    files: Seq<LinkFileModel>,
    at: int,
    updates: Seq<(Seq<u8>, ObjectId)>,
    commits: Seq<ObjectId>,
    more: Seq<ReplyModel>,
)
    requires
        0 <= at <= files.len(),
        commits.len() == files.len() - at,
        forall|i: int| at <= i < files.len() ==> (#[trigger] files[i]).remote is Some,
    ensures
        update_each(ctx, files, at, updates, branch_replies(commits) + more) == chained(
            signing(ctx.commit_time),
            more,
            then_update(ctx.head, updates + moves(files.skip(at), commits), files.len()),
        ),
    decreases commits.len(),
{
    if at < files.len() {
        let rest = commits.drop_first();
        let later = branch_replies(rest) + more;
        let all = branch_replies(commits) + more;
        let answered = seq![ReplyModel::Id(commits.first())] + later;
        update_each_fetches(ctx, files, at, updates, all);
        assert(all =~= seq![ReplyModel::Finished] + answered);
        chain_takes_one(
            for_finish(link_fetch_request(files[at])),
            ReplyModel::Finished,
            answered,
            then_resolve(ctx, files, at, updates),
        );
        chain_takes_one(
            for_id(fetch_head_request()),
            ReplyModel::Id(commits.first()),
            later,
            then_next(ctx, files, at, updates),
        );
        let moved = updates.push((files[at].path, commits.first()));
        assert(moved + moves(files.skip(at + 1), rest) =~= updates + moves(
            files.skip(at),
            commits,
        ));
        each_link_is_moved_to_its_branch(ctx, files, at + 1, moved, rest, more);
    } else {
        assert(branch_replies(commits) + more =~= more);
        assert(updates + moves(files.skip(at), commits) =~= updates);
    }
}

/// The replies to the search for link files in the commit that is checked out, whose tree is
/// `tree`: where a filter is given, it selects the commit `selected` with the tree `selected_tree`.
pub open spec fn find_replies(
    filter: Option<Seq<char>>,
    tree: ObjectId,
    selected: ObjectId,
    selected_tree: ObjectId,
    files: Seq<LinkFileModel>,
) -> Seq<ReplyModel> {
    match filter {
        Some(_) => seq![
            ReplyModel::Id(tree),
            ReplyModel::Id(selected),
            ReplyModel::Id(selected_tree),
            ReplyModel::Links(files),
        ],
        None => seq![ReplyModel::Id(tree), ReplyModel::Links(files)],
    }
}

pub(crate) proof fn links_are_found_first(
    filter: Option<Seq<char>>,
    commit_time: Option<Seq<char>>,
    head: ObjectId,
    tree: ObjectId,
    selected: ObjectId,
    selected_tree: ObjectId,
    files: Seq<LinkFileModel>,
    more: Seq<ReplyModel>,
)
    requires
        filter is Some ==> !selected.is_zero(),
    ensures
        update_turn(
            filter,
            commit_time,
            seq![ReplyModel::Id(head)] + find_replies(
                filter,
                tree,
                selected,
                selected_tree,
                files,
            ) + more,
        ) == then_update_all(UpdateContext { head, commit_time })(files, more),
{
    let ctx = UpdateContext { head, commit_time };
    let from_links = seq![ReplyModel::Links(files)] + more;
    let from_selected_tree = seq![ReplyModel::Id(selected_tree)] + from_links;
    let from_selected = seq![ReplyModel::Id(selected)] + from_selected_tree;
    let searched = if filter is Some {
        from_selected
    } else {
        from_links
    };
    let from_tree = seq![ReplyModel::Id(tree)] + searched;
    assert(seq![ReplyModel::Id(head)] + find_replies(filter, tree, selected, selected_tree, files)
        + more =~= seq![ReplyModel::Id(head)] + from_tree);
    chain_takes_one(
        for_id(head_request()),
        ReplyModel::Id(head),
        from_tree,
        then_tree(filter, commit_time),
    );
    chain_takes_one(
        for_id(head_tree_request(head)),
        ReplyModel::Id(tree),
        searched,
        then_find(filter, ctx),
    );
    if let Some(text) = filter {
        chain_takes_one(
            for_id(select_request(text, head)),
            ReplyModel::Id(selected),
            from_selected_tree,
            then_filtered(ctx),
        );
        chain_takes_one(
            for_id(filtered_tree_request(selected)),
            ReplyModel::Id(selected_tree),
            from_links,
            then_find_filtered(ctx),
        );
        chain_takes_one(
            for_links(find_filtered_request(selected_tree)),
            ReplyModel::Links(files),
            more,
            then_update_all(ctx),
        );
    } else {
        chain_takes_one(
            for_links(find_request(tree)),
            ReplyModel::Links(files),
            more,
            then_update_all(ctx),
        );
    }
}

/// Every link that is found, in the commit that is checked out or in what the filter selects of it,
/// is moved to what was fetched for it, in the order in which the links were found, on top of the
/// commit that is checked out.
pub proof fn every_link_is_moved_to_its_branch(
    filter: Option<Seq<char>>,
    commit_time: Option<Seq<char>>,
    head: ObjectId,
    tree: ObjectId,
    selected: ObjectId,
    selected_tree: ObjectId,
    files: Seq<LinkFileModel>,
    commits: Seq<ObjectId>,
    more: Seq<ReplyModel>,
)
    requires
        filter is Some ==> !selected.is_zero(),
        files.len() > 0,
        commits.len() == files.len(),
        forall|i: int| 0 <= i < files.len() ==> (#[trigger] files[i]).remote is Some,
    ensures
        update_turn(
            filter,
            commit_time,
            seq![ReplyModel::Id(head)] + find_replies(
                filter,
                tree,
                selected,
                selected_tree,
                files,
            ) + branch_replies(commits) + more,
        ) == chained(
            signing(commit_time),
            more,
            then_update(head, moves(files, commits), files.len()),
        ),
{
    let ctx = UpdateContext { head, commit_time };
    let found = find_replies(filter, tree, selected, selected_tree, files);
    let fetches = branch_replies(commits) + more;
    assert(seq![ReplyModel::Id(head)] + found + branch_replies(commits) + more =~= seq![
        ReplyModel::Id(head),
    ] + found + fetches);
    links_are_found_first(
        filter,
        commit_time,
        head,
        tree,
        selected,
        selected_tree,
        files,
        fetches,
    );
    each_link_is_moved_to_its_branch(ctx, files, 0, Seq::empty(), commits, more);
    assert(files.skip(0) =~= files);
    assert(Seq::<(Seq<u8>, ObjectId)>::empty() + moves(files, commits) =~= moves(files, commits));
}

/// Where no link file is found, in the commit that is checked out or in what the filter selects of
/// it, or where the filter selects nothing, the command fails, and nothing is fetched or written.
pub proof fn nothing_to_update_is_an_error(
    filter: Option<Seq<char>>,
    commit_time: Option<Seq<char>>,
    head: ObjectId,
    tree: ObjectId,
    selected: ObjectId,
    selected_tree: ObjectId,
)
    ensures
        filter is None || !selected.is_zero() ==> update_turn(
            filter,
            commit_time,
            seq![ReplyModel::Id(head)] + find_replies(
                filter,
                tree,
                selected,
                selected_tree,
                Seq::empty(),
            ),
        ) == quietly(Expected::Fail { error: LinkErrorOf::NoLinkFiles }),
        filter is Some && selected.is_zero() ==> update_turn(
            filter,
            commit_time,
            seq![ReplyModel::Id(head), ReplyModel::Id(tree), ReplyModel::Id(selected)],
        ) == quietly(Expected::Fail { error: LinkErrorOf::NoLinkFiles }),
{
    let ctx = UpdateContext { head, commit_time };
    let none = Seq::<ReplyModel>::empty();
    if filter is None || !selected.is_zero() {
        let found = find_replies(filter, tree, selected, selected_tree, Seq::empty());
        assert(seq![ReplyModel::Id(head)] + found + none =~= seq![ReplyModel::Id(head)] + found);
        links_are_found_first(
            filter,
            commit_time,
            head,
            tree,
            selected,
            selected_tree,
            Seq::empty(),
            none,
        );
    } else {
        let narrowed = seq![ReplyModel::Id(selected)] + none;
        let from_tree = seq![ReplyModel::Id(tree)] + narrowed;
        assert(seq![ReplyModel::Id(head), ReplyModel::Id(tree), ReplyModel::Id(selected)] =~= seq![
            ReplyModel::Id(head),
        ] + from_tree);
        chain_takes_one(
            for_id(head_request()),
            ReplyModel::Id(head),
            from_tree,
            then_tree(filter, commit_time),
        );
        chain_takes_one(
            for_id(head_tree_request(head)),
            ReplyModel::Id(tree),
            narrowed,
            then_find(filter, ctx),
        );
        chain_takes_one(
            for_id(select_request(filter->0, head)),
            ReplyModel::Id(selected),
            none,
            then_filtered(ctx),
        );
    }
}

} // verus!
