//! That the models of records, replies and requests say all that these hold.

use crate::command::add::add_turn;
use crate::command::args::{
    LinkAddArgs, LinkAddModel, LinkCommand, LinkCommandModel, LinkFetchArgs, LinkPushArgs,
    LinkUpdateArgs,
};
use crate::command::fetch::fetch_turn;
use crate::command::handle::link_turn;
use crate::command::push::push_turn;
use crate::command::update::update_turn;
use crate::error::{LinkError, LinkErrorModel, LinkErrorOf};
use crate::filter::{Filter, FilterModel, FilterOf};
use crate::link::{
    LinkFile, LinkFileModel, LinkRef, LinkRefModel, PreparedLinkPush, PreparedLinkPushModel,
    Signature, SignatureModel,
};
use crate::notice::{Notice, NoticeModel, NoticeOf};
use crate::oid::ObjectId;
use crate::path::LinkPath;
use crate::step::{
    Action, ActionModel, ActionOf, Expected, Outcome, Reply, ReplyModel, Request, RequestOf,
};
use crate::text::optional;
use crate::turn::Turn;
use vstd::prelude::*;

verus! {

/// An optional text, as the laws speak of it.
pub open spec fn text_of(text: Option<String>) -> Option<Seq<char>> {
    match text {
        Some(text) => Some(text@),
        None => None,
    }
}

/// A time that is fixed is taken as it was given.
pub proof fn fixed_time_is_taken_as_given(time: Option<&str>)
    ensures
        time is None ==> optional(time) == None::<Seq<char>>,
        time is Some ==> optional(time) == Some(time->0@),
{
}

/// What the user asks for is taken as it was given.
pub proof fn arguments_are_taken_as_given(
    add: LinkAddArgs,
    fetch: LinkFetchArgs,
    update: LinkUpdateArgs,
    push: LinkPushArgs,
)
    ensures
        LinkCommand::Add(add).deep_view() == (LinkCommandModel::Add {
            args: LinkAddModel {
                path: add.path@,
                url: add.url@,
                filter: text_of(add.filter),
                target: text_of(add.target),
                mode: add.mode@,
            },
        }),
        LinkCommand::Fetch(fetch).deep_view() == (LinkCommandModel::Fetch {
            filter: text_of(fetch.filter),
        }),
        LinkCommand::Update(update).deep_view() == (LinkCommandModel::Update {
            filter: text_of(update.filter),
        }),
        LinkCommand::Push(push).deep_view() == (LinkCommandModel::Push {
            path: push.path@,
            force: push.force,
        }),
{
}

/// The link command does what the subcommand does that it was started with.
pub proof fn subcommand_is_run(
    args: LinkAddModel,
    filter: Option<Seq<char>>,
    path: Seq<char>,
    force: bool,
    time: Option<Seq<char>>,
    replies: Seq<ReplyModel>,
)
    ensures
        link_turn(LinkCommandModel::Add { args }, time, replies) == add_turn(args, time, replies),
        link_turn(LinkCommandModel::Fetch { filter }, time, replies) == fetch_turn(filter, replies),
        link_turn(LinkCommandModel::Update { filter }, time, replies) == update_turn(
            filter,
            time,
            replies,
        ),
        link_turn(LinkCommandModel::Push { path, force }, time, replies) == push_turn(
            path,
            force,
            replies,
        ),
{
}

/// The model of a record holds every field of the record.
pub proof fn records_are_modelled_whole(
    path: LinkPath,
    file: LinkFile,
    found: LinkRef,
    signature: Signature,
    push: PreparedLinkPush,
)
    ensures
        path.deep_view() == path.bytes@,
        file.deep_view() == (LinkFileModel {
            path: file.path.bytes@,
            filter: file.filter,
            remote: text_of(file.remote),
            target: text_of(file.target),
            commit: text_of(file.commit),
            push: text_of(file.push),
            push_target: text_of(file.push_target),
        }),
        found.deep_view() == (LinkRefModel { remote: found.remote@, commit: found.commit@ }),
        signature.deep_view() == (SignatureModel {
            name: signature.name@,
            email: signature.email@,
            seconds: signature.seconds,
            offset: signature.offset,
        }),
        push.deep_view() == (PreparedLinkPushModel {
            remote: push.remote@,
            push_remote: text_of(push.push_remote),
            configured_target: push.configured_target@,
            configured_push_target: text_of(push.configured_push_target),
            exported_commit: push.exported_commit,
        }),
{
}

/// The model of a reply holds what came back.
pub proof fn replies_are_modelled_whole(
    flag: bool,
    id: ObjectId,
    ids: Vec<ObjectId>,
    text: String,
    links: Vec<LinkFile>,
    signature: Signature,
    context: Option<String>,
    within: Option<String>,
)
    ensures
        Reply::Finished.deep_view() == ReplyModel::Finished,
        Reply::Flag(flag).deep_view() == ReplyModel::Flag(flag),
        Reply::Id(id).deep_view() == ReplyModel::Id(id),
        Reply::Ids(ids).deep_view() == ReplyModel::Ids(ids@),
        Reply::Text(text).deep_view() == ReplyModel::Text(text@),
        Reply::Links(links).deep_view() is Links,
        Reply::Links(links).deep_view()->Links_0.len() == links@.len(),
        forall|i: int|
            0 <= i < links@.len() ==> #[trigger] Reply::Links(links).deep_view()->Links_0[i]
                == links@[i].deep_view(),
        Reply::Signature(signature).deep_view() == ReplyModel::Signature(signature.deep_view()),
        (Reply::Failed { context, within }).deep_view() == (ReplyModel::Failed {
            context: text_of(context),
            within: text_of(within),
        }),
{
}

/// The model of what an operation or a command does holds what it asks for, gives, tells and says.
pub proof fn outcomes_are_modelled_whole<M>(
    request: Request,
    next: M,
    id: ObjectId,
    error: LinkError,
    tell: Vec<Notice>,
    outcome: Outcome<M, ()>,
)
    ensures
        (Outcome::<M, ObjectId>::Ask { request, next }).deep_view() == (Expected::<ObjectId>::Ask {
            request: RequestOf {
                action: request.action.deep_view(),
                context: text_of(request.context),
                within: text_of(request.within),
            },
        }),
        (Outcome::<M, ObjectId>::Done { value: id }).deep_view() == (Expected::Done { value: id }),
        (Outcome::<M, ObjectId>::Fail { error }).deep_view() == (Expected::<ObjectId>::Fail {
            error: error.deep_view(),
        }),
        (Turn { tell, outcome }).deep_view().outcome == outcome.deep_view(),
        (Turn { tell, outcome }).deep_view().tell.len() == tell@.len(),
        forall|i: int|
            0 <= i < tell@.len() ==> #[trigger] (Turn { tell, outcome }).deep_view().tell[i]
                == tell@[i].deep_view(),
{
}

/// The model of an action holds everything that the action is about.
pub proof fn actions_are_modelled_whole(action: Action)
    ensures
        match action {
            ActionOf::Head => action.deep_view() == ActionModel::Head,
            ActionOf::ReadTree { commit } => action.deep_view() == (ActionModel::ReadTree {
                commit,
            }),
            ActionOf::ReadCommitTree { commit, read_context } => action.deep_view() == (
            ActionModel::ReadCommitTree { commit, read_context: text_of(read_context) }),
            ActionOf::FindLinks { tree } => action.deep_view() == (ActionModel::FindLinks {
                tree,
            }),
            ActionOf::FilterCommit { filter, commit } => action.deep_view() == (
            ActionModel::FilterCommit { filter: filter.deep_view(), commit }),
            ActionOf::WalkHistory { from, start_context } => action.deep_view() == (
            ActionModel::WalkHistory { from, start_context: start_context@ }),
            ActionOf::WriteFilter { filter } => action.deep_view() == (ActionModel::WriteFilter {
                filter: filter.deep_view(),
            }),
            ActionOf::InsertBlob { tree, path, blob, mode } => action.deep_view() == (
            ActionModel::InsertBlob { tree, path: path.bytes@, blob, mode }),
            ActionOf::WriteCommit { tree, parent, signature, message } => action.deep_view() == (
            ActionModel::WriteCommit {
                tree,
                parent,
                signature: signature.deep_view(),
                message: message@,
            }),
            ActionOf::UnapplyFilter { filter, original, filtered, changed } => action.deep_view()
                == (ActionModel::UnapplyFilter {
                filter: filter.deep_view(),
                original,
                filtered,
                changed,
            }),
            ActionOf::Git { verb, remote, refspec } => action.deep_view() == (ActionModel::Git {
                verb: verb@,
                remote: remote@,
                refspec: refspec@,
            }),
            ActionOf::ResolveFetchHead => action.deep_view() == ActionModel::ResolveFetchHead,
            ActionOf::HasObject { id } => action.deep_view() == (ActionModel::HasObject { id }),
            ActionOf::UpdateRef { name, target, log } => action.deep_view() == (
            ActionModel::UpdateRef { name: name@, target, log: log@ }),
            ActionOf::ReadSignature => action.deep_view() == ActionModel::ReadSignature,
            ActionOf::ParseMode { text } => action.deep_view() == (ActionModel::ParseMode {
                text: text@,
            }),
        },
{
}

/// The model of a filter holds the calls by which the filter is built.
pub proof fn filters_are_modelled_whole(filter: Filter)
    ensures
        match filter {
            FilterOf::Identity => filter.deep_view() == FilterModel::Identity,
            FilterOf::Recorded(n) => filter.deep_view() == FilterModel::Recorded(n),
            FilterOf::Peel { base } => filter.deep_view() == (FilterModel::Peel {
                base: Box::new(base.deep_view()),
            }),
            FilterOf::Parse { text, context } => filter.deep_view() == (FilterModel::Parse {
                text: text@,
                context: context@,
            }),
            FilterOf::Subdir { base, path } => filter.deep_view() == (FilterModel::Subdir {
                base: Box::new(base.deep_view()),
                path: path.bytes@,
            }),
            FilterOf::File { base, name } => filter.deep_view() == (FilterModel::File {
                base: Box::new(base.deep_view()),
                name: name@,
            }),
            FilterOf::Prefix { base, path } => filter.deep_view() == (FilterModel::Prefix {
                base: Box::new(base.deep_view()),
                path: path.bytes@,
            }),
            FilterOf::Exclude { base, other } => filter.deep_view() == (FilterModel::Exclude {
                base: Box::new(base.deep_view()),
                other: Box::new(other.deep_view()),
            }),
            FilterOf::Export { base } => filter.deep_view() == (FilterModel::Export {
                base: Box::new(base.deep_view()),
            }),
            FilterOf::Invert { base, context } => filter.deep_view() == (FilterModel::Invert {
                base: Box::new(base.deep_view()),
                context: context@,
            }),
            FilterOf::Chain { first, second } => filter.deep_view() == (FilterModel::Chain {
                first: Box::new(first.deep_view()),
                second: Box::new(second.deep_view()),
            }),
            FilterOf::Meta { base, key, value } => filter.deep_view() == (FilterModel::Meta {
                base: Box::new(base.deep_view()),
                key,
                value: value@,
            }),
        },
{
}

/// The model of a notice holds everything that the notice is about.
pub proof fn notices_are_modelled_whole(notice: Notice)
    ensures
        match notice {
            NoticeOf::UsingLocal { path, commit } => notice.deep_view() == (
            NoticeModel::UsingLocal { path: path@, commit: commit@ }),
            NoticeOf::NoLocal { path } => notice.deep_view() == (NoticeModel::NoLocal {
                path: path@,
            }),
            NoticeOf::UsingFetched { commit } => notice.deep_view() == (
            NoticeModel::UsingFetched { commit: commit@ }),
            NoticeOf::Added { path, url, filter, target, mode } => notice.deep_view() == (
            NoticeModel::Added {
                path: path@,
                url: url@,
                filter: filter@,
                target: target@,
                mode: mode@,
            }),
            NoticeOf::CreatedBranch { name } => notice.deep_view() == (
            NoticeModel::CreatedBranch { name: name@ }),
            NoticeOf::NoReferences => notice.deep_view() == NoticeModel::NoReferences,
            NoticeOf::FoundReferences { count } => notice.deep_view() == (
            NoticeModel::FoundReferences { count }),
            NoticeOf::Fetching { what, remote } => notice.deep_view() == (NoticeModel::Fetching {
                what: what@,
                remote: remote@,
            }),
            NoticeOf::FetchedAll { fetched, skipped } => notice.deep_view() == (
            NoticeModel::FetchedAll { fetched, skipped }),
            NoticeOf::FoundLinks { count } => notice.deep_view() == (NoticeModel::FoundLinks {
                count,
            }),
            NoticeOf::UpToDate { count } => notice.deep_view() == (NoticeModel::UpToDate {
                count,
            }),
            NoticeOf::UpdatedLinks { count } => notice.deep_view() == (
            NoticeModel::UpdatedLinks { count }),
            NoticeOf::UpdatedBranch { name } => notice.deep_view() == (
            NoticeModel::UpdatedBranch { name: name@ }),
        },
{
}

/// The model of a refusal holds everything that the refusal names.
pub proof fn refusals_are_modelled_whole(error: LinkError)
    ensures
        match error {
            LinkErrorOf::EmptyPath => error.deep_view() == LinkErrorModel::EmptyPath,
            LinkErrorOf::NotText { path } => error.deep_view() == (LinkErrorModel::NotText {
                path: path@,
            }),
            LinkErrorOf::LinkFileNotFound { path } => error.deep_view() == (
            LinkErrorModel::LinkFileNotFound { path: path@ }),
            LinkErrorOf::NoLink { path } => error.deep_view() == (LinkErrorModel::NoLink {
                path: path@,
            }),
            LinkErrorOf::MissingMeta { key } => error.deep_view() == (
            LinkErrorModel::MissingMeta { key }),
            LinkErrorOf::MissingMetaAt { key, path } => error.deep_view() == (
            LinkErrorModel::MissingMetaAt { key, path: path@ }),
            LinkErrorOf::InvalidCommitId { cause } => error.deep_view() == (
            LinkErrorModel::InvalidCommitId { cause }),
            LinkErrorOf::InvalidCommitSha { commit, cause } => error.deep_view() == (
            LinkErrorModel::InvalidCommitSha { commit: commit@, cause }),
            LinkErrorOf::NothingToPush { path } => error.deep_view() == (
            LinkErrorModel::NothingToPush { path: path@ }),
            LinkErrorOf::NoLinkFiles => error.deep_view() == LinkErrorModel::NoLinkFiles,
            LinkErrorOf::InvalidCommitTime => error.deep_view()
                == LinkErrorModel::InvalidCommitTime,
            LinkErrorOf::ActionFailed { context, within } => error.deep_view() == (
            LinkErrorModel::ActionFailed {
                context: text_of(context),
                within: text_of(within),
            }),
            LinkErrorOf::UnexpectedReply => error.deep_view() == LinkErrorModel::UnexpectedReply,
        },
{
}

} // verus!
