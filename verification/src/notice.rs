//! What a command tells the user on its way.

use crate::text::{decimal, decimal_text, wrap};
use vstd::prelude::*;
use vstd::string::*;

verus! {

/// A line for the user, over texts `S`.
#[derive(Debug, PartialEq, Eq)]
pub enum NoticeOf<S> {
    /// A new link starts from content that is already there.
    UsingLocal { path: S, commit: S },
    /// A new link has no content yet.
    NoLocal { path: S },
    /// A new link starts from content that was fetched.
    UsingFetched { commit: S },
    /// A link was added.
    Added { path: S, url: S, filter: S, target: S, mode: S },
    /// A branch was made for the result.
    CreatedBranch { name: S },
    /// No link file was ever recorded.
    NoReferences,
    /// So many different linked commits are recorded.
    FoundReferences { count: usize },
    /// Something is about to be fetched.
    Fetching { what: S, remote: S },
    /// All recorded commits are there.
    FetchedAll { fetched: usize, skipped: usize },
    /// So many link files are about to be updated.
    FoundLinks { count: usize },
    /// No link file had to be changed.
    UpToDate { count: usize },
    /// So many link files were updated.
    UpdatedLinks { count: usize },
    /// A branch was moved to the result.
    UpdatedBranch { name: S },
}

/// A notice as the program holds it.
pub type Notice = NoticeOf<String>;

/// A notice as contracts speak of it.
pub type NoticeModel = NoticeOf<Seq<char>>;

impl DeepView for NoticeOf<String> {
    type V = NoticeModel;

    open spec fn deep_view(&self) -> NoticeModel {
        match *self {
            NoticeOf::UsingLocal { path, commit } => NoticeOf::UsingLocal {
                path: path@,
                commit: commit@,
            },
            NoticeOf::NoLocal { path } => NoticeOf::NoLocal { path: path@ },
            NoticeOf::UsingFetched { commit } => NoticeOf::UsingFetched { commit: commit@ },
            NoticeOf::Added { path, url, filter, target, mode } => NoticeOf::Added {
                path: path@,
                url: url@,
                filter: filter@,
                target: target@,
                mode: mode@,
            },
            NoticeOf::CreatedBranch { name } => NoticeOf::CreatedBranch { name: name@ },
            NoticeOf::NoReferences => NoticeOf::NoReferences,
            NoticeOf::FoundReferences { count } => NoticeOf::FoundReferences { count },
            NoticeOf::Fetching { what, remote } => NoticeOf::Fetching {
                what: what@,
                remote: remote@,
            },
            NoticeOf::FetchedAll { fetched, skipped } => NoticeOf::FetchedAll { fetched, skipped },
            NoticeOf::FoundLinks { count } => NoticeOf::FoundLinks { count },
            NoticeOf::UpToDate { count } => NoticeOf::UpToDate { count },
            NoticeOf::UpdatedLinks { count } => NoticeOf::UpdatedLinks { count },
            NoticeOf::UpdatedBranch { name } => NoticeOf::UpdatedBranch { name: name@ },
        }
    }
}

/// The line that a notice is shown as.
pub open spec fn notice_text(n: NoticeModel) -> Seq<char> {
    match n {
        NoticeOf::UsingLocal { path, commit } => "Using local content at '"@ + path + "' ("@
            + commit + ")"@,
        NoticeOf::NoLocal { path } => "No local content at '"@ + path
            + "', fetching from remote..."@,
        NoticeOf::UsingFetched { commit } => "Using fetched commit "@ + commit,
        NoticeOf::Added { path, url, filter, target, mode } => "Added link '"@ + path
            + "' with URL '"@ + url + "', filter '"@ + filter + "', target '"@ + target
            + "', and mode '"@ + mode + "'"@,
        NoticeOf::CreatedBranch { name } => "Created branch: "@ + name,
        NoticeOf::NoReferences => "No .link.josh references found in history"@,
        NoticeOf::FoundReferences { count } => "Found "@ + decimal(count as nat)
            + " unique (remote, sha) pair(s) across history"@,
        NoticeOf::Fetching { what, remote } => "Fetching "@ + what + " from "@ + remote,
        NoticeOf::FetchedAll { fetched, skipped } => "Done: fetched "@ + decimal(fetched as nat)
            + ", skipped "@ + decimal(skipped as nat) + " (already present)"@,
        NoticeOf::FoundLinks { count } => "Found "@ + decimal(count as nat)
            + " link file(s) to update"@,
        NoticeOf::UpToDate { count } => "All "@ + decimal(count as nat)
            + " link file(s) already up to date"@,
        NoticeOf::UpdatedLinks { count } => "Updated "@ + decimal(count as nat)
            + " link file(s)"@,
        NoticeOf::UpdatedBranch { name } => "Updated branch: "@ + name,
    }
}

impl NoticeOf<String> {
    /// The line that the notice is shown as.
    pub fn text(&self) -> (r: String)
        ensures
            r@ == notice_text(self.deep_view()),
    {
        let mut r: String;
        match self {
            NoticeOf::UsingLocal { path, commit } => {
                r = wrap("Using local content at '", path.as_str(), "' (");
                r.append(commit.as_str());
                r.append(")");
            },
            NoticeOf::NoLocal { path } => {
                r = wrap("No local content at '", path.as_str(), "', fetching from remote...");
            },
            NoticeOf::UsingFetched { commit } => {
                r = "Using fetched commit ".to_owned();
                r.append(commit.as_str());
            },
            NoticeOf::Added { path, url, filter, target, mode } => {
                r = wrap("Added link '", path.as_str(), "' with URL '");
                r.append(url.as_str());
                r.append("', filter '");
                r.append(filter.as_str());
                r.append("', target '");
                r.append(target.as_str());
                r.append("', and mode '");
                r.append(mode.as_str());
                r.append("'");
            },
            NoticeOf::CreatedBranch { name } => {
                r = "Created branch: ".to_owned();
                r.append(name.as_str());
            },
            NoticeOf::NoReferences => {
                r = "No .link.josh references found in history".to_owned();
            },
            NoticeOf::FoundReferences { count } => {
                r = wrap(
                    "Found ",
                    decimal_text(*count).as_str(),
                    " unique (remote, sha) pair(s) across history",
                );
            },
            NoticeOf::Fetching { what, remote } => {
                r = wrap("Fetching ", what.as_str(), " from ");
                r.append(remote.as_str());
            },
            NoticeOf::FetchedAll { fetched, skipped } => {
                r = wrap("Done: fetched ", decimal_text(*fetched).as_str(), ", skipped ");
                r.append(decimal_text(*skipped).as_str());
                r.append(" (already present)");
            },
            NoticeOf::FoundLinks { count } => {
                r = wrap("Found ", decimal_text(*count).as_str(), " link file(s) to update");
            },
            NoticeOf::UpToDate { count } => {
                r = wrap("All ", decimal_text(*count).as_str(), " link file(s) already up to date");
            },
            NoticeOf::UpdatedLinks { count } => {
                r = wrap("Updated ", decimal_text(*count).as_str(), " link file(s)");
            },
            NoticeOf::UpdatedBranch { name } => {
                r = "Updated branch: ".to_owned();
                r.append(name.as_str());
            },
        }
        r
    }
}

} // verus!
