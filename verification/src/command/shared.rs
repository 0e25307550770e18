//! What several commands have in common.

use crate::export::{inverse_user_filter, make_inverse_user_filter, make_user_filter, user_filter};
use crate::filter::{FilterModel, FilterOf};
use crate::link::SignatureModel;
use crate::oid::ObjectId;
use crate::signature::signature_step;
use crate::step::{asks, ActionOf, ReplyModel, Request, RequestModel};
use crate::text::wrap;
use crate::turn::{finally, Continuation, Operation};
use vstd::prelude::*;
use vstd::string::*;

verus! {

/// The request for the commit that is checked out.
pub open spec fn head_request() -> RequestModel {
    asks(ActionOf::Head, "Failed to get HEAD"@)
}

/// Makes the request for the commit that is checked out.
pub fn make_head_request() -> (r: Request)
    ensures
        r.deep_view() == head_request(),
{
    Request::with_context(ActionOf::Head, "Failed to get HEAD".to_owned())
}

/// The filter that the user gave, and its inverse behind it: what the filter selects stays where it
/// is, and everything else goes.
pub open spec fn round_trip(filter: Seq<char>) -> FilterModel {
    FilterOf::Chain {
        first: Box::new(user_filter(filter)),
        second: Box::new(inverse_user_filter(filter)),
    }
}

/// The request that narrows a commit to what the filter that the user gave selects.
pub open spec fn select_request(filter: Seq<char>, commit: ObjectId) -> RequestModel {
    asks(
        ActionOf::FilterCommit { filter: round_trip(filter), commit },
        "Failed to apply filter"@,
    )
}

/// Makes the request that narrows a commit to what the filter that the user gave selects.
pub fn make_select_request(filter: &str, commit: ObjectId) -> (r: Request)
    ensures
        r.deep_view() == select_request(filter@, commit),
{
    let both = make_user_filter(filter).chain(make_inverse_user_filter(filter));
    Request::with_context(
        ActionOf::FilterCommit { filter: both, commit },
        "Failed to apply filter".to_owned(),
    )
}

/// The branch that holds the result of a command.
pub const RESULT_BRANCH: &'static str = "refs/heads/josh-link";

/// The request that lets the branch point to the result of a command. `failed` is what is said of
/// the branch where that fails.
pub open spec fn branch_request(
    target: ObjectId,
    log: Seq<char>,
    failed: Seq<char>,
) -> RequestModel {
    asks(
        ActionOf::UpdateRef { name: RESULT_BRANCH@, target, log },
        failed + RESULT_BRANCH@ + "'"@,
    )
}

/// Makes the request that lets the branch point to the result of a command.
pub fn make_branch_request(target: ObjectId, log: &str, failed: &str) -> (r: Request)
    ensures
        r.deep_view() == branch_request(target, log@, failed@),
{
    Request::with_context(
        ActionOf::UpdateRef { name: RESULT_BRANCH.to_owned(), target, log: log.to_owned() },
        wrap(failed, RESULT_BRANCH, "'"),
    )
}

/// The search for the signature, as an operation.
pub open spec fn signing(commit_time: Option<Seq<char>>) -> Operation<SignatureModel> {
    |replies: Seq<ReplyModel>| signature_step(commit_time, replies)
}

/// The end of the command.
pub open spec fn then_end() -> Continuation<()> {
    |u: (), replies: Seq<ReplyModel>| finally(Seq::empty())
}

} // verus!
