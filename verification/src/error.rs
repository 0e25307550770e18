//! Why an operation on links is refused.

use crate::filter::MetaKey;
use crate::oid::HexError;
use crate::text::wrap;
use vstd::prelude::*;
use vstd::string::*;

verus! {

/// A refusal, over texts `S`. Paths are held by the text that shows them.
#[derive(Debug, PartialEq, Eq)]
pub enum LinkErrorOf<S> {
    /// The path of the link has no name in it.
    EmptyPath,
    /// The path of the link is not text.
    NotText { path: S },
    /// No link file was found where one is to be updated.
    LinkFileNotFound { path: S },
    /// No link file was found where a link is to be pushed.
    NoLink { path: S },
    /// A link file does not record what is needed.
    MissingMeta { key: MetaKey },
    /// The link file at a path does not record what is needed.
    MissingMetaAt { key: MetaKey, path: S },
    /// The commit that a link is pinned to is no identifier.
    InvalidCommitId { cause: HexError },
    /// The commit that a link file of the history names is no identifier.
    InvalidCommitSha { commit: S, cause: HexError },
    /// There is no content at the path of the link.
    NothingToPush { path: S },
    /// There is no link file to update.
    NoLinkFiles,
    /// The fixed commit time is no number of seconds.
    InvalidCommitTime,
    /// What was asked for failed. `context` is what is said of that, and `within` what is said of
    /// the operation that it is part of.
    ActionFailed { context: Option<S>, within: Option<S> },
    /// What came back is not an answer to what was asked.
    UnexpectedReply,
}

/// A refusal as the program holds it.
pub type LinkError = LinkErrorOf<String>;

/// A refusal as contracts speak of it.
pub type LinkErrorModel = LinkErrorOf<Seq<char>>;

impl DeepView for LinkErrorOf<String> {
    type V = LinkErrorModel;

    open spec fn deep_view(&self) -> LinkErrorModel {
        match *self {
            LinkErrorOf::EmptyPath => LinkErrorOf::EmptyPath,
            LinkErrorOf::NotText { path } => LinkErrorOf::NotText { path: path@ },
            LinkErrorOf::LinkFileNotFound { path } => LinkErrorOf::LinkFileNotFound {
                path: path@,
            },
            LinkErrorOf::NoLink { path } => LinkErrorOf::NoLink { path: path@ },
            LinkErrorOf::MissingMeta { key } => LinkErrorOf::MissingMeta { key },
            LinkErrorOf::MissingMetaAt { key, path } => LinkErrorOf::MissingMetaAt {
                key,
                path: path@,
            },
            LinkErrorOf::InvalidCommitId { cause } => LinkErrorOf::InvalidCommitId { cause },
            LinkErrorOf::InvalidCommitSha { commit, cause } => LinkErrorOf::InvalidCommitSha {
                commit: commit@,
                cause,
            },
            LinkErrorOf::NothingToPush { path } => LinkErrorOf::NothingToPush { path: path@ },
            LinkErrorOf::NoLinkFiles => LinkErrorOf::NoLinkFiles,
            LinkErrorOf::InvalidCommitTime => LinkErrorOf::InvalidCommitTime,
            LinkErrorOf::ActionFailed { context, within } => LinkErrorOf::ActionFailed {
                context: context.deep_view(),
                within: within.deep_view(),
            },
            LinkErrorOf::UnexpectedReply => LinkErrorOf::UnexpectedReply,
        }
    }
}

/// The text that tells the user of a refusal.
pub open spec fn error_text(e: LinkErrorModel) -> Seq<char> {
    match e {
        LinkErrorOf::EmptyPath => "Path cannot be empty"@,
        LinkErrorOf::NotText { path } => "Link path is not valid UTF-8: '"@ + path + "'"@,
        LinkErrorOf::LinkFileNotFound { path } => "Link file not found at path '"@ + path + "'"@,
        LinkErrorOf::NoLink { path } => "No link found at path '"@ + path + "'"@,
        LinkErrorOf::MissingMeta { key } => "Link file missing '"@ + key.written()
            + "' metadata"@,
        LinkErrorOf::MissingMetaAt { key, path } => "Link file missing '"@ + key.written()
            + "' metadata at path '"@ + path + "'"@,
        LinkErrorOf::InvalidCommitId { cause } => "Link file contains an invalid commit ID"@,
        LinkErrorOf::InvalidCommitSha { commit, cause } => "Invalid commit SHA in link file: "@
            + commit,
        LinkErrorOf::NothingToPush { path } => "No content found at path '"@ + path
            + "' to push"@,
        LinkErrorOf::NoLinkFiles => "No .link.josh files found"@,
        LinkErrorOf::InvalidCommitTime => "Failed to parse JOSH_COMMIT_TIME"@,
        LinkErrorOf::ActionFailed { context: _, within: Some(within) } => within,
        LinkErrorOf::ActionFailed { context: Some(context), within: None } => context,
        LinkErrorOf::ActionFailed { context: None, within: None } => "Action failed"@,
        LinkErrorOf::UnexpectedReply => "Unexpected reply"@,
    }
}

impl LinkErrorOf<String> {
    /// The text that tells the user of the refusal.
    pub fn message(&self) -> (r: String)
        ensures
            r@ == error_text(self.deep_view()),
    {
        match self {
            LinkErrorOf::EmptyPath => "Path cannot be empty".to_owned(),
            LinkErrorOf::NotText { path } => wrap(
                "Link path is not valid UTF-8: '",
                path.as_str(),
                "'",
            ),
            LinkErrorOf::LinkFileNotFound { path } => wrap(
                "Link file not found at path '",
                path.as_str(),
                "'",
            ),
            LinkErrorOf::NoLink { path } => wrap("No link found at path '", path.as_str(), "'"),
            LinkErrorOf::MissingMeta { key } => wrap(
                "Link file missing '",
                key.name(),
                "' metadata",
            ),
            LinkErrorOf::MissingMetaAt { key, path } => {
                let mut r: String = wrap(
                    "Link file missing '",
                    key.name(),
                    "' metadata at path '",
                );
                r.append(path.as_str());
                r.append("'");
                r
            },
            LinkErrorOf::InvalidCommitId {
                cause: _,
            } => "Link file contains an invalid commit ID".to_owned(),
            LinkErrorOf::InvalidCommitSha { commit, cause: _ } => {
                let mut r: String = "Invalid commit SHA in link file: ".to_owned();
                r.append(commit.as_str());
                r
            },
            LinkErrorOf::NothingToPush { path } => wrap(
                "No content found at path '",
                path.as_str(),
                "' to push",
            ),
            LinkErrorOf::NoLinkFiles => "No .link.josh files found".to_owned(),
            LinkErrorOf::InvalidCommitTime => "Failed to parse JOSH_COMMIT_TIME".to_owned(),
            LinkErrorOf::ActionFailed { context: _, within: Some(within) } => within.clone(),
            LinkErrorOf::ActionFailed { context: Some(context), within: None } => context.clone(),
            LinkErrorOf::ActionFailed { context: None, within: None } => "Action failed".to_owned(),
            LinkErrorOf::UnexpectedReply => "Unexpected reply".to_owned(),
        }
    }
}

} // verus!
