//! Moving links in a tree that holds the linked content next to the link files.

use crate::filter::{Filter, FilterModel, FilterOf};
use crate::link::{MaterializedLinkUpdateResult, Signature, UpdateLinksResult};
use crate::oid::ObjectId;
use crate::path::LinkPath;
use crate::step::{asks, refused, ActionOf, Expected, Outcome, Reply, ReplyModel, Request};
use crate::update::{
    link_filter, make_link_filter, update_links, update_links_step, UpdateArgs, UpdateLinks,
};
use vstd::prelude::*;

verus! {

/// The filter that removes the content of every link and leaves the link files.
pub open spec fn unlink_filter() -> FilterModel {
    FilterOf::Parse { text: ":unlink"@, context: "Failed to parse :unlink filter"@ }
}

/// The result of an update, next to the materialization that it replaces.
pub open spec fn with_previous(
    step: Expected<Option<UpdateLinksResult>>,
    previous: ObjectId,
) -> Expected<Option<MaterializedLinkUpdateResult>> {
    match step {
        Expected::Ask { request } => Expected::Ask { request },
        Expected::Done { value: None } => Expected::Done { value: None },
        Expected::Done { value: Some(update) } => Expected::Done {
            value: Some(
                MaterializedLinkUpdateResult { previous_materialized_commit: previous, update },
            ),
        },
        Expected::Fail { error } => Expected::Fail { error },
    }
}

/// What [`update_materialized_links`] does after `replies`. `args.head` is the commit with the
/// linked content.
///
/// The replies are, in this order: that commit without the linked content, the former with the
/// content of all links brought in, and then those to an update of the links in the former.
pub open spec fn update_materialized_step(
    args: UpdateArgs,
    replies: Seq<ReplyModel>,
) -> Expected<Option<MaterializedLinkUpdateResult>> {
    if replies.len() == 0 {
        Expected::Ask {
            request: asks(
                ActionOf::FilterCommit { filter: unlink_filter(), commit: args.head },
                "Failed to canonicalize materialized links"@,
            ),
        }
    } else if replies.len() <= 2 && !(replies.last() is Id) {
        refused(replies.last())
    } else {
        let canonical = replies[0]->Id_0;
        if replies.len() == 1 {
            Expected::Ask {
                request: asks(
                    ActionOf::FilterCommit { filter: link_filter(), commit: canonical },
                    "Failed to materialize previous links"@,
                ),
            }
        } else {
            with_previous(
                update_links_step(UpdateArgs { head: canonical, ..args }, replies.skip(2)),
                replies[1]->Id_0,
            )
        }
    }
}

/// What an update of materialized links waits for.
enum MaterializedPhase {
    /// The commit without the linked content.
    Canonical { updates: Vec<(LinkPath, ObjectId)>, signature: Signature },
    /// The former with the content of all links brought in.
    Previous { updates: Vec<(LinkPath, ObjectId)>, signature: Signature, canonical: ObjectId },
    /// Whatever the update of the links waits for.
    Update { previous: ObjectId, update: UpdateLinks },
}

/// An update of materialized links that waits for a reply.
pub struct UpdateMaterialized {
    phase: MaterializedPhase,
    args: Ghost<UpdateArgs>,
    replies: Ghost<Seq<ReplyModel>>,
}

impl UpdateMaterialized {
    /// What the update was started with.
    pub closed spec fn args(self) -> UpdateArgs {
        self.args@
    }

    /// The replies so far.
    pub closed spec fn replies(self) -> Seq<ReplyModel> {
        self.replies@
    }

    #[verifier::type_invariant]
    spec fn consistent(self) -> bool {
        let r = self.replies@;
        match self.phase {
            MaterializedPhase::Canonical { updates, signature } => {
                &&& r.len() == 0
                &&& updates.deep_view() == self.args@.updates
                &&& signature.deep_view() == self.args@.signature
            },
            MaterializedPhase::Previous { updates, signature, canonical } => {
                &&& r.len() == 1
                &&& r[0] == ReplyModel::Id(canonical)
                &&& updates.deep_view() == self.args@.updates
                &&& signature.deep_view() == self.args@.signature
            },
            MaterializedPhase::Update { previous, update } => {
                &&& r.len() >= 2
                &&& r[1] == ReplyModel::Id(previous)
                &&& update.args() == (UpdateArgs { head: r[0]->Id_0, ..self.args@ })
                &&& update.replies() == r.skip(2)
            },
        }
    }

    /// Goes on as the update of the links does.
    fn follow(
        outcome: Outcome<UpdateLinks, Option<UpdateLinksResult>>,
        previous: ObjectId,
        Ghost(args): Ghost<UpdateArgs>,
        Ghost(replies): Ghost<Seq<ReplyModel>>,
    ) -> (r: Outcome<UpdateMaterialized, Option<MaterializedLinkUpdateResult>>)
        requires
            replies.len() >= 2,
            replies[1] == ReplyModel::Id(previous),
            replies.len() == 2 ==> replies.last() is Id,
            outcome.deep_view() == update_links_step(
                UpdateArgs { head: replies[0]->Id_0, ..args },
                replies.skip(2),
            ),
            outcome matches Outcome::Ask { request, next } ==> next.args() == (UpdateArgs {
                head: replies[0]->Id_0,
                ..args
            }) && next.replies() == replies.skip(2),
        ensures
            r.deep_view() == update_materialized_step(args, replies),
            r matches Outcome::Ask { request, next } ==> next.args() == args && next.replies()
                == replies,
    {
        match outcome {
            Outcome::Ask { request, next } => Outcome::Ask {
                request,
                next: UpdateMaterialized {
                    phase: MaterializedPhase::Update { previous, update: next },
                    args: Ghost(args),
                    replies: Ghost(replies),
                },
            },
            Outcome::Done { value: None } => Outcome::Done { value: None },
            Outcome::Done { value: Some(update) } => Outcome::Done {
                value: Some(
                    MaterializedLinkUpdateResult { previous_materialized_commit: previous, update },
                ),
            },
            Outcome::Fail { error } => Outcome::Fail { error },
        }
    }

    /// Takes the reply to what was asked.
    pub fn resume(self, reply: Reply) -> (r: Outcome<
        UpdateMaterialized,
        Option<MaterializedLinkUpdateResult>,
    >)
        ensures
            r.deep_view() == update_materialized_step(
                self.args(),
                self.replies().push(reply.deep_view()),
            ),
            r matches Outcome::Ask { request, next } ==> next.args() == self.args()
                && next.replies() == self.replies().push(reply.deep_view()),
    {
        proof {
            use_type_invariant(&self);
        }
        let ghost before = self.replies@;
        let ghost replies = before.push(reply.deep_view());
        let UpdateMaterialized { phase, args, replies: _ } = self;
        match phase {
            MaterializedPhase::Canonical { updates, signature } => match reply {
                Reply::Id(canonical) => Outcome::Ask {
                    request: Request::with_context(
                        ActionOf::FilterCommit { filter: make_link_filter(), commit: canonical },
                        "Failed to materialize previous links".to_owned(),
                    ),
                    next: UpdateMaterialized {
                        phase: MaterializedPhase::Previous { updates, signature, canonical },
                        args,
                        replies: Ghost(replies),
                    },
                },
                reply => Outcome::Fail { error: reply.refusal() },
            },
            MaterializedPhase::Previous { updates, signature, canonical } => match reply {
                Reply::Id(previous) => {
                    assert(replies.skip(2) =~= Seq::empty());
                    UpdateMaterialized::follow(
                        update_links(canonical, updates, &signature),
                        previous,
                        args,
                        Ghost(replies),
                    )
                },
                reply => Outcome::Fail { error: reply.refusal() },
            },
            MaterializedPhase::Update { previous, update } => {
                assert(replies.skip(2) =~= before.skip(2).push(reply.deep_view()));
                UpdateMaterialized::follow(update.resume(reply), previous, args, Ghost(replies))
            },
        }
    }
}

/// Update links in a tree where linked contents have already been materialized.
///
/// [`update_links`] operates on the canonical marker-only representation. A native working copy
/// contains both each marker and its projected files, so remove those files with `:unlink` first
/// and then materialize both the old and updated markers. The old materialization is returned as
/// the merge base callers need to preserve local changes.
pub fn update_materialized_links(
    materialized_commit: ObjectId,
    links_to_update: Vec<(LinkPath, ObjectId)>,
    signature: &Signature,
) -> (r: Outcome<UpdateMaterialized, Option<MaterializedLinkUpdateResult>>)
    ensures
        ({
            let args = UpdateArgs {
                head: materialized_commit,
                updates: links_to_update.deep_view(),
                signature: signature.deep_view(),
            };
            &&& r.deep_view() == update_materialized_step(args, Seq::empty())
            &&& r matches Outcome::Ask { request, next } && next.args() == args && next.replies()
                == Seq::<ReplyModel>::empty()
        }),
{
    let ghost args = UpdateArgs {
        head: materialized_commit,
        updates: links_to_update.deep_view(),
        signature: signature.deep_view(),
    };
    let filter = Filter::parse(":unlink", "Failed to parse :unlink filter".to_owned());
    Outcome::Ask {
        request: Request::with_context(
            ActionOf::FilterCommit { filter, commit: materialized_commit },
            "Failed to canonicalize materialized links".to_owned(),
        ),
        next: UpdateMaterialized {
            phase: MaterializedPhase::Canonical {
                updates: links_to_update,
                signature: signature.clone(),
            },
            args: Ghost(args),
            replies: Ghost(Seq::empty()),
        },
    }
}

/// An update of materialized links is an update of the links in the commit without the linked
/// content. What it replaces is that commit with the content of its links brought in.
pub proof fn materialized_update_is_update_of_canonical(
    args: UpdateArgs,
    canonical: ObjectId,
    previous: ObjectId,
    rest: Seq<ReplyModel>,
)
    ensures
        update_materialized_step(args, seq![ReplyModel::Id(canonical)]) == (Expected::<
            Option<MaterializedLinkUpdateResult>,
        >::Ask {
            request: asks(
                ActionOf::FilterCommit { filter: link_filter(), commit: canonical },
                "Failed to materialize previous links"@,
            ),
        }),
        update_materialized_step(
            args,
            seq![ReplyModel::Id(canonical), ReplyModel::Id(previous)] + rest,
        ) == with_previous(
            update_links_step(UpdateArgs { head: canonical, ..args }, rest),
            previous,
        ),
{
    let first = seq![ReplyModel::Id(canonical), ReplyModel::Id(previous)];
    let all = first + rest;
    assert(all.skip(2) =~= rest);
    assert(all[0] == first[0] && all[1] == first[1]);
    if rest.len() == 0 {
        assert(all =~= first);
    }
}

} // verus!
