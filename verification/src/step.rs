//! The exchange between an operation and the repository that it works on.
//!
//! An operation never touches the repository itself. It asks for one action at a time, is handed
//! the reply, and asks on until it is done or refuses. What it asks next is determined by its
//! arguments and by all replies so far, and that is what the contracts state. An action that fails
//! is a reply too, [`Reply::Failed`], which [`RequestOf::failed`] makes. It ends the operation, and
//! the refusal says in which contexts the failure is to be reported.

use crate::error::{LinkError, LinkErrorModel, LinkErrorOf};
use crate::filter::{inverse_contexts, parse_contexts, FilterModel, FilterOf};
use crate::link::{LinkFile, LinkFileModel, Signature, SignatureModel};
use crate::oid::ObjectId;
use crate::path::LinkPath;
use vstd::prelude::*;

verus! {

/// Something to be done in or with the repository, over texts `S`, paths `P` and signatures `G`.
#[derive(Debug, PartialEq, Eq)]
pub enum ActionOf<S, P, G> {
    /// Find the commit that is checked out. Reply: [`Reply::Id`].
    Head,
    /// Find the tree of a commit. Reply: [`Reply::Id`].
    ReadTree { commit: ObjectId },
    /// Read a commit, a failure of which is reported as `read_context`, and find its tree.
    /// Reply: [`Reply::Id`].
    ReadCommitTree { commit: ObjectId, read_context: Option<S> },
    /// Find the link files in a tree. Reply: [`Reply::Links`].
    FindLinks { tree: ObjectId },
    /// Apply a filter to a commit and its history. Reply: [`Reply::Id`].
    FilterCommit { filter: FilterOf<S, P>, commit: ObjectId },
    /// List the commits that are reachable from a commit, in topological order; a start that
    /// cannot be used is reported as `start_context`. Reply: [`Reply::Ids`].
    WalkHistory { from: ObjectId, start_context: S },
    /// Store the text of a filter. Reply: [`Reply::Id`].
    WriteFilter { filter: FilterOf<S, P> },
    /// Store a tree that holds `blob` at `path` and is otherwise like `tree`.
    /// Reply: [`Reply::Id`].
    InsertBlob { tree: ObjectId, path: P, blob: ObjectId, mode: u32 },
    /// Store a commit whose author and committer are `signature`. Reply: [`Reply::Id`].
    WriteCommit { tree: ObjectId, parent: ObjectId, signature: G, message: S },
    /// Find the commit that becomes `changed` where `filter` makes `filtered` of `original`,
    /// and keep what has no counterpart. Reply: [`Reply::Id`].
    UnapplyFilter {
        filter: FilterOf<S, P>,
        original: ObjectId,
        filtered: ObjectId,
        changed: ObjectId,
    },
    /// Run git with three arguments. Reply: [`Reply::Finished`].
    Git { verb: S, remote: S, refspec: S },
    /// Find the commit that was fetched last. Reply: [`Reply::Id`].
    ResolveFetchHead,
    /// Find out whether an object is stored. Reply: [`Reply::Flag`].
    HasObject { id: ObjectId },
    /// Let a reference point to a commit, wherever it pointed before. Reply: [`Reply::Finished`].
    UpdateRef { name: S, target: ObjectId, log: S },
    /// Find out who signs commits in this repository. Reply: [`Reply::Signature`].
    ReadSignature,
    /// Read the name of a link mode. Reply: [`Reply::Text`], with the name that is recorded.
    ParseMode { text: S },
}

/// An action and the context in which its failure is reported.
#[derive(Debug, PartialEq, Eq)]
pub struct RequestOf<S, P, G> {
    pub action: ActionOf<S, P, G>,
    /// What is said of the action itself.
    pub context: Option<S>,
    /// What is said of the operation that the action is part of.
    pub within: Option<S>,
}

/// An action as the program holds it.
pub type Action = ActionOf<String, LinkPath, Signature>;

/// An action as contracts speak of it.
pub type ActionModel = ActionOf<Seq<char>, Seq<u8>, SignatureModel>;

/// A request as the program holds it.
pub type Request = RequestOf<String, LinkPath, Signature>;

/// A request as contracts speak of it.
pub type RequestModel = RequestOf<Seq<char>, Seq<u8>, SignatureModel>;

impl DeepView for ActionOf<String, LinkPath, Signature> {
    type V = ActionModel;

    open spec fn deep_view(&self) -> ActionModel {
        match *self {
            ActionOf::Head => ActionOf::Head,
            ActionOf::ReadTree { commit } => ActionOf::ReadTree { commit },
            ActionOf::ReadCommitTree { commit, read_context } => ActionOf::ReadCommitTree {
                commit,
                read_context: read_context.deep_view(),
            },
            ActionOf::FindLinks { tree } => ActionOf::FindLinks { tree },
            ActionOf::FilterCommit { filter, commit } => ActionOf::FilterCommit {
                filter: filter.deep_view(),
                commit,
            },
            ActionOf::WalkHistory { from, start_context } => ActionOf::WalkHistory {
                from,
                start_context: start_context@,
            },
            ActionOf::WriteFilter { filter } => ActionOf::WriteFilter {
                filter: filter.deep_view(),
            },
            ActionOf::InsertBlob { tree, path, blob, mode } => ActionOf::InsertBlob {
                tree,
                path: path.deep_view(),
                blob,
                mode,
            },
            ActionOf::WriteCommit { tree, parent, signature, message } => ActionOf::WriteCommit {
                tree,
                parent,
                signature: signature.deep_view(),
                message: message@,
            },
            ActionOf::UnapplyFilter {
                filter,
                original,
                filtered,
                changed,
            } => ActionOf::UnapplyFilter {
                filter: filter.deep_view(),
                original,
                filtered,
                changed,
            },
            ActionOf::Git { verb, remote, refspec } => ActionOf::Git {
                verb: verb@,
                remote: remote@,
                refspec: refspec@,
            },
            ActionOf::ResolveFetchHead => ActionOf::ResolveFetchHead,
            ActionOf::HasObject { id } => ActionOf::HasObject { id },
            ActionOf::UpdateRef { name, target, log } => ActionOf::UpdateRef {
                name: name@,
                target,
                log: log@,
            },
            ActionOf::ReadSignature => ActionOf::ReadSignature,
            ActionOf::ParseMode { text } => ActionOf::ParseMode { text: text@ },
        }
    }
}

impl DeepView for RequestOf<String, LinkPath, Signature> {
    type V = RequestModel;

    open spec fn deep_view(&self) -> RequestModel {
        RequestOf {
            action: self.action.deep_view(),
            context: self.context.deep_view(),
            within: self.within.deep_view(),
        }
    }
}

/// A request whose failure is reported with `context`.
pub open spec fn asks(action: ActionModel, context: Seq<char>) -> RequestModel {
    RequestOf { action, context: Some(context), within: None }
}

/// A request whose failure is reported as it is.
pub open spec fn asks_plainly(action: ActionModel) -> RequestModel {
    RequestOf { action, context: None, within: None }
}

impl RequestOf<String, LinkPath, Signature> {
    /// A request whose failure is reported with `context`.
    pub fn with_context(action: Action, context: String) -> (r: Request)
        ensures
            r.deep_view() == asks(action.deep_view(), context@),
    {
        RequestOf { action, context: Some(context), within: None }
    }

    /// A request whose failure is reported as it is.
    pub fn plain(action: Action) -> (r: Request)
        ensures
            r.deep_view() == asks_plainly(action.deep_view()),
    {
        RequestOf { action, context: None, within: None }
    }
}

/// What came back for a request.
#[derive(Debug, PartialEq, Eq)]
pub enum Reply {
    /// The action was carried out.
    Finished,
    /// The answer to a yes-or-no question.
    Flag(bool),
    /// An object.
    Id(ObjectId),
    /// A row of objects.
    Ids(Vec<ObjectId>),
    /// A text.
    Text(String),
    /// Link files.
    Links(Vec<LinkFile>),
    /// A signature.
    Signature(Signature),
    /// The action failed. `context` is what is said of that, and `within` what is said of the
    /// operation that the action is part of.
    Failed { context: Option<String>, within: Option<String> },
}

/// The model of a [`Reply`].
pub enum ReplyModel {
    Finished,
    Flag(bool),
    Id(ObjectId),
    Ids(Seq<ObjectId>),
    Text(Seq<char>),
    Links(Seq<LinkFileModel>),
    Signature(SignatureModel),
    Failed { context: Option<Seq<char>>, within: Option<Seq<char>> },
}

impl DeepView for Reply {
    type V = ReplyModel;

    open spec fn deep_view(&self) -> ReplyModel {
        match *self {
            Reply::Finished => ReplyModel::Finished,
            Reply::Flag(b) => ReplyModel::Flag(b),
            Reply::Id(id) => ReplyModel::Id(id),
            Reply::Ids(ids) => ReplyModel::Ids(ids@),
            Reply::Text(t) => ReplyModel::Text(t@),
            Reply::Links(links) => ReplyModel::Links(links.deep_view()),
            Reply::Signature(s) => ReplyModel::Signature(s.deep_view()),
            Reply::Failed { context, within } => ReplyModel::Failed {
                context: context.deep_view(),
                within: within.deep_view(),
            },
        }
    }
}

/// What an operation does next: `M` is the operation as it waits for the reply, `T` its result.
#[derive(Debug, PartialEq, Eq)]
pub enum Outcome<M, T> {
    /// It asks for `request`, and goes on with `next` once the reply is there.
    Ask { request: Request, next: M },
    /// It is done.
    Done { value: T },
    /// It refuses.
    Fail { error: LinkError },
}

/// The model of an [`Outcome`], without the operation that waits.
pub enum Expected<T> {
    Ask { request: RequestModel },
    Done { value: T },
    Fail { error: LinkErrorModel },
}

impl<M, T: DeepView> DeepView for Outcome<M, T> {
    type V = Expected<T::V>;

    open spec fn deep_view(&self) -> Expected<T::V> {
        match *self {
            Outcome::Ask { request, next } => Expected::Ask { request: request.deep_view() },
            Outcome::Done { value } => Expected::Done { value: value.deep_view() },
            Outcome::Fail { error } => Expected::Fail { error: error.deep_view() },
        }
    }
}

/// The refusal for a reply that is no answer: a failure is reported in its contexts, and anything
/// else does not fit the request.
pub open spec fn refusal_of(reply: ReplyModel) -> LinkErrorModel {
    match reply {
        ReplyModel::Failed { context, within } => LinkErrorOf::ActionFailed { context, within },
        _ => LinkErrorOf::UnexpectedReply,
    }
}

/// The end of an operation for a reply that is no answer.
pub open spec fn refused<T>(reply: ReplyModel) -> Expected<T> {
    Expected::Fail { error: refusal_of(reply) }
}

impl Reply {
    /// The refusal for this reply, where it is no answer.
    pub fn refusal(self) -> (r: LinkError)
        ensures
            r.deep_view() == refusal_of(self.deep_view()),
    {
        match self {
            Reply::Failed { context, within } => LinkErrorOf::ActionFailed { context, within },
            _ => LinkErrorOf::UnexpectedReply,
        }
    }
}

/// Which part of an action failed.
#[derive(Clone, Copy, Debug, PartialEq, Eq, Structural)]
pub enum Part {
    /// The action itself.
    Action,
    /// What the action starts with: a commit that cannot be read, or a history without a start.
    Start,
    /// The text with this number, counted from the left, that is to write a filter.
    Parse(usize),
    /// The inverse with this number, counted from the left and from the inside out.
    Inverse(usize),
    /// Anything else that a filter is built from.
    Filter,
}

/// The filter that an action is about.
pub open spec fn filter_in(action: ActionModel) -> Option<FilterModel> {
    match action {
        ActionOf::FilterCommit { filter, commit: _ } => Some(filter),
        ActionOf::WriteFilter { filter } => Some(filter),
        ActionOf::UnapplyFilter { filter, original: _, filtered: _, changed: _ } => Some(filter),
        _ => None,
    }
}

/// The text with the number `n`, where there is one.
pub open spec fn nth(texts: Seq<Seq<char>>, n: usize) -> Option<Seq<char>> {
    if n < texts.len() {
        Some(texts[n as int])
    } else {
        None
    }
}

/// What is said of the failure of a part of what is requested.
pub open spec fn part_context(request: RequestModel, part: Part) -> Option<Seq<char>> {
    match part {
        Part::Action => request.context,
        Part::Start => match request.action {
            ActionOf::ReadCommitTree { commit: _, read_context } => read_context,
            ActionOf::WalkHistory { from: _, start_context } => Some(start_context),
            _ => request.context,
        },
        Part::Parse(n) => match filter_in(request.action) {
            Some(filter) => nth(parse_contexts(filter), n),
            None => None,
        },
        Part::Inverse(n) => match filter_in(request.action) {
            Some(filter) => nth(inverse_contexts(filter), n),
            None => None,
        },
        Part::Filter => None,
    }
}

/// The reply to a request of which a part failed: first what is said of the part, and around that
/// what is said of the operation.
pub open spec fn failure_of(request: RequestModel, part: Part) -> ReplyModel {
    ReplyModel::Failed { context: part_context(request, part), within: request.within }
}

/// The text with the number `n`, where there is one.
fn nth_text(texts: Vec<String>, n: usize) -> (r: Option<String>)
    ensures
        r.deep_view() == nth(texts.deep_view(), n),
{
    if n < texts.len() {
        assert(texts.deep_view()[n as int] == texts@[n as int]@);
        Some(texts[n].clone())
    } else {
        None
    }
}

impl RequestOf<String, LinkPath, Signature> {
    /// The reply to this request where a part of the action failed.
    pub fn failed(&self, part: Part) -> (r: Reply)
        ensures
            r.deep_view() == failure_of(self.deep_view(), part),
    {
        let context: Option<String> = match part {
            Part::Action => self.context.clone(),
            Part::Start => match &self.action {
                ActionOf::ReadCommitTree { commit: _, read_context } => read_context.clone(),
                ActionOf::WalkHistory { from: _, start_context } => Some(start_context.clone()),
                _ => self.context.clone(),
            },
            Part::Parse(n) => match &self.action {
                ActionOf::FilterCommit { filter, commit: _ } => nth_text(
                    filter.parse_contexts(),
                    n,
                ),
                ActionOf::WriteFilter { filter } => nth_text(filter.parse_contexts(), n),
                ActionOf::UnapplyFilter {
                    filter,
                    original: _,
                    filtered: _,
                    changed: _,
                } => nth_text(filter.parse_contexts(), n),
                _ => None,
            },
            Part::Inverse(n) => match &self.action {
                ActionOf::FilterCommit { filter, commit: _ } => nth_text(
                    filter.inverse_contexts(),
                    n,
                ),
                ActionOf::WriteFilter { filter } => nth_text(filter.inverse_contexts(), n),
                ActionOf::UnapplyFilter {
                    filter,
                    original: _,
                    filtered: _,
                    changed: _,
                } => nth_text(filter.inverse_contexts(), n),
                _ => None,
            },
            Part::Filter => None,
        };
        Reply::Failed { context, within: self.within.clone() }
    }
}

} // verus!
