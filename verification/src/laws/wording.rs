//! How numbers, notices and refusals read.

use crate::error::{error_text, LinkErrorOf};
use crate::filter::{inverse_contexts, parse_contexts, FilterModel, FilterOf, MetaKey};
use crate::notice::{notice_text, NoticeOf};
use crate::oid::{HexError, ObjectId};
use crate::step::{failure_of, ActionModel, ActionOf, Part, ReplyModel, RequestOf};
use crate::text::{all_digits, decimal, digit, digits_value};
use vstd::prelude::*;

verus! {

/// A number is written with decimal digits, stands for itself, and starts with a zero only where it
/// is zero.
pub proof fn decimal_stands_for_its_number(n: nat)
    ensures
        decimal(n).len() > 0,
        all_digits(decimal(n)),
        digits_value(decimal(n)) == n,
        n > 0 ==> decimal(n)[0] != '0',
    decreases n,
{
    let text = decimal(n);
    if n < 10 {
        assert(text.drop_last() =~= Seq::empty());
        assert(digits_value(text.drop_last()) == 0);
        assert(text.last() == digit(n));
    } else {
        decimal_stands_for_its_number(n / 10);
        assert(text.drop_last() =~= decimal(n / 10));
        assert(text.last() == digit(n % 10));
        assert(text[0] == decimal(n / 10)[0]);
    }
}

/// The lines about a new link.
pub proof fn addition_reads_so(
    path: Seq<char>,
    url: Seq<char>,
    filter: Seq<char>,
    target: Seq<char>,
    mode: Seq<char>,
    commit: Seq<char>,
    name: Seq<char>,
)
    ensures
        notice_text(NoticeOf::UsingLocal { path, commit }) == "Using local content at '"@ + path
            + "' ("@ + commit + ")"@,
        notice_text(NoticeOf::NoLocal { path }) == "No local content at '"@ + path
            + "', fetching from remote..."@,
        notice_text(NoticeOf::UsingFetched { commit }) == "Using fetched commit "@ + commit,
        notice_text(NoticeOf::Added { path, url, filter, target, mode }) == "Added link '"@ + path
            + "' with URL '"@ + url + "', filter '"@ + filter + "', target '"@ + target
            + "', and mode '"@ + mode + "'"@,
        notice_text(NoticeOf::CreatedBranch { name }) == "Created branch: "@ + name,
{
}

/// The lines about fetches and updates. A number stands in them as digits that stand for it.
pub proof fn progress_reads_so(
    count: usize,
    skipped: usize,
    what: Seq<char>,
    remote: Seq<char>,
    name: Seq<char>,
)
    ensures
        notice_text(NoticeOf::NoReferences) == "No .link.josh references found in history"@,
        notice_text(NoticeOf::Fetching { what, remote }) == "Fetching "@ + what + " from "@
            + remote,
        notice_text(NoticeOf::UpdatedBranch { name }) == "Updated branch: "@ + name,
        ({
            let n = decimal(count as nat);
            let m = decimal(skipped as nat);
            &&& digits_value(n) == count && digits_value(m) == skipped
            &&& notice_text(NoticeOf::FoundReferences { count }) == "Found "@ + n
                + " unique (remote, sha) pair(s) across history"@
            &&& notice_text(NoticeOf::FetchedAll { fetched: count, skipped }) == "Done: fetched "@
                + n + ", skipped "@ + m + " (already present)"@
            &&& notice_text(NoticeOf::FoundLinks { count }) == "Found "@ + n
                + " link file(s) to update"@
            &&& notice_text(NoticeOf::UpToDate { count }) == "All "@ + n
                + " link file(s) already up to date"@
            &&& notice_text(NoticeOf::UpdatedLinks { count }) == "Updated "@ + n
                + " link file(s)"@
        }),
{
    decimal_stands_for_its_number(count as nat);
    decimal_stands_for_its_number(skipped as nat);
}

/// The keys under which a link file records its metadata.
pub proof fn keys_read_so()
    ensures
        MetaKey::Remote.written() == "remote"@,
        MetaKey::Target.written() == "target"@,
        MetaKey::Commit.written() == "commit"@,
        MetaKey::Mode.written() == "mode"@,
        MetaKey::Push.written() == "push"@,
        MetaKey::PushTarget.written() == "push-target"@,
{
}

/// The refusals that name a path or a commit.
pub proof fn refusals_read_so(path: Seq<char>, commit: Seq<char>, cause: HexError)
    ensures
        error_text(LinkErrorOf::EmptyPath) == "Path cannot be empty"@,
        error_text(LinkErrorOf::NotText { path }) == "Link path is not valid UTF-8: '"@ + path
            + "'"@,
        error_text(LinkErrorOf::LinkFileNotFound { path }) == "Link file not found at path '"@
            + path + "'"@,
        error_text(LinkErrorOf::NoLink { path }) == "No link found at path '"@ + path + "'"@,
        error_text(LinkErrorOf::MissingMeta { key: MetaKey::Remote }) == "Link file missing '"@
            + "remote"@ + "' metadata"@,
        error_text(LinkErrorOf::MissingMeta { key: MetaKey::Commit }) == "Link file missing '"@
            + "commit"@ + "' metadata"@,
        error_text(LinkErrorOf::MissingMetaAt { key: MetaKey::Remote, path })
            == "Link file missing '"@ + "remote"@ + "' metadata at path '"@ + path + "'"@,
        error_text(LinkErrorOf::InvalidCommitId { cause })
            == "Link file contains an invalid commit ID"@,
        error_text(LinkErrorOf::InvalidCommitSha { commit, cause })
            == "Invalid commit SHA in link file: "@ + commit,
        error_text(LinkErrorOf::NothingToPush { path }) == "No content found at path '"@ + path
            + "' to push"@,
        error_text(LinkErrorOf::NoLinkFiles) == "No .link.josh files found"@,
        error_text(LinkErrorOf::InvalidCommitTime) == "Failed to parse JOSH_COMMIT_TIME"@,
{
}

/// A failure reads as what is said of the operation that it is part of, where there is one, and
/// otherwise as what is said of the action.
pub proof fn outermost_context_is_read_first(
    context: Option<Seq<char>>,
    outer: Seq<char>,
    inner: Seq<char>,
)
    ensures
        error_text(LinkErrorOf::ActionFailed { context, within: Some(outer) }) == outer,
        error_text(LinkErrorOf::ActionFailed { context: Some(inner), within: None }) == inner,
{
}

/// The failure of an action is reported with the context of the request. That of a commit which
/// cannot be read, or of a history without a start, is reported with its own.
pub proof fn failure_has_its_context(
    action: ActionModel,
    context: Option<Seq<char>>,
    within: Option<Seq<char>>,
    commit: ObjectId,
    read_context: Option<Seq<char>>,
    start_context: Seq<char>,
)
    ensures
        failure_of(RequestOf { action, context, within }, Part::Action) == (ReplyModel::Failed {
            context,
            within,
        }),
        failure_of(RequestOf { action, context, within }, Part::Filter) == (ReplyModel::Failed {
            context: None,
            within,
        }),
        failure_of(
            RequestOf {
                action: ActionOf::ReadCommitTree { commit, read_context },
                context,
                within,
            },
            Part::Start,
        ) == (ReplyModel::Failed { context: read_context, within }),
        failure_of(
            RequestOf {
                action: ActionOf::WalkHistory { from: commit, start_context },
                context,
                within,
            },
            Part::Start,
        ) == (ReplyModel::Failed { context: Some(start_context), within }),
{
}

/// A text that writes no filter, and a filter without an inverse, are reported with what is said of
/// them, wherever they stand in the filter: they are counted from left to right, and an inverse
/// behind those inside it.
pub proof fn parts_of_filters_are_counted(
    text: Seq<char>,
    context: Seq<char>,
    first: FilterModel,
    second: FilterModel,
    path: Seq<u8>,
    key: MetaKey,
    value: Seq<char>,
)
    ensures
        parse_contexts(FilterOf::Parse { text, context }) == seq![context],
        inverse_contexts(FilterOf::Parse { text, context }).len() == 0,
        parse_contexts(FilterOf::Identity).len() == 0,
        inverse_contexts(FilterOf::Identity).len() == 0,
        ({
            let chain = FilterOf::Chain { first: Box::new(first), second: Box::new(second) };
            let without = FilterOf::Exclude { base: Box::new(first), other: Box::new(second) };
            &&& parse_contexts(chain) == parse_contexts(first) + parse_contexts(second)
            &&& inverse_contexts(chain) == inverse_contexts(first) + inverse_contexts(second)
            &&& parse_contexts(without) == parse_contexts(first) + parse_contexts(second)
            &&& inverse_contexts(without) == inverse_contexts(first) + inverse_contexts(second)
        }),
        ({
            let inverse = FilterOf::Invert { base: Box::new(first), context };
            &&& parse_contexts(inverse) == parse_contexts(first)
            &&& inverse_contexts(inverse) == inverse_contexts(first).push(context)
        }),
        ({
            let inside = FilterOf::Subdir { base: Box::new(first), path };
            let moved = FilterOf::Prefix { base: Box::new(first), path };
            let bare = FilterOf::Peel { base: Box::new(first) };
            let sent = FilterOf::Export { base: Box::new(first) };
            let file = FilterOf::File { base: Box::new(first), name: value };
            let labelled = FilterOf::Meta { base: Box::new(first), key, value };
            &&& parse_contexts(inside) == parse_contexts(first)
            &&& parse_contexts(moved) == parse_contexts(first)
            &&& parse_contexts(bare) == parse_contexts(first)
            &&& parse_contexts(sent) == parse_contexts(first)
            &&& parse_contexts(file) == parse_contexts(first)
            &&& parse_contexts(labelled) == parse_contexts(first)
            &&& inverse_contexts(inside) == inverse_contexts(first)
            &&& inverse_contexts(moved) == inverse_contexts(first)
            &&& inverse_contexts(bare) == inverse_contexts(first)
            &&& inverse_contexts(sent) == inverse_contexts(first)
            &&& inverse_contexts(file) == inverse_contexts(first)
            &&& inverse_contexts(labelled) == inverse_contexts(first)
        }),
{
}

/// The part of a filter that failed is reported with what is said of it, whatever the filter is
/// for.
pub proof fn failed_part_is_reported(
    filter: FilterModel,
    commit: ObjectId,
    filtered: ObjectId,
    changed: ObjectId,
    context: Option<Seq<char>>,
    within: Option<Seq<char>>,
    n: usize,
)
    ensures
        ({
            let said = |action: ActionModel, part: Part| failure_of(
                RequestOf { action, context, within },
                part,
            );
            let apply = ActionOf::FilterCommit { filter, commit };
            let store = ActionOf::WriteFilter { filter };
            let undo = ActionOf::UnapplyFilter { filter, original: commit, filtered, changed };
            let parse = ReplyModel::Failed {
                context: if n < parse_contexts(filter).len() {
                    Some(parse_contexts(filter)[n as int])
                } else {
                    None
                },
                within,
            };
            let invert = ReplyModel::Failed {
                context: if n < inverse_contexts(filter).len() {
                    Some(inverse_contexts(filter)[n as int])
                } else {
                    None
                },
                within,
            };
            &&& said(apply, Part::Parse(n)) == parse
            &&& said(store, Part::Parse(n)) == parse
            &&& said(undo, Part::Parse(n)) == parse
            &&& said(apply, Part::Inverse(n)) == invert
            &&& said(store, Part::Inverse(n)) == invert
            &&& said(undo, Part::Inverse(n)) == invert
        }),
{
}

} // verus!
