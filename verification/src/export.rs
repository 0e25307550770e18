//! Exporting the content at a path into the layout of the linked repository.

use crate::error::{LinkError, LinkErrorModel, LinkErrorOf};
use crate::filter::{Filter, FilterModel, FilterOf};
use crate::oid::ObjectId;
use crate::path::{shown, LinkPath};
use crate::step::{asks, refused, ActionOf, Expected, Outcome, Reply, ReplyModel, Request};
use crate::text::{trim_slashes, trimmed, wrap};
use vstd::prelude::*;
use vstd::string::*;
use vstd::utf8::*;

verus! {

/// The path of a link as text without outer slashes; why there is none, where there is none.
pub open spec fn normalized(path: Seq<u8>) -> Result<Seq<char>, LinkErrorModel> {
    if !valid_utf8(path) {
        Err(LinkErrorOf::NotText { path: shown(path) })
    } else if trimmed(decode_utf8(path)).len() == 0 {
        Err(LinkErrorOf::EmptyPath)
    } else {
        Ok(trimmed(decode_utf8(path)))
    }
}

/// Brings the path of a link into its normal form.
pub fn normalize(path: &LinkPath) -> (r: Result<&str, LinkError>)
    ensures
        match r {
            Ok(text) => normalized(path.deep_view()) == Ok::<Seq<char>, LinkErrorModel>(
                text@,
            ),
            Err(e) => normalized(path.deep_view()) == Err::<Seq<char>, LinkErrorModel>(
                e.deep_view(),
            ),
        },
{
    match path.as_text() {
        None => Err(LinkErrorOf::NotText { path: path.display() }),
        Some(text) => {
            let name = trim_slashes(text);
            if name.is_empty() {
                Err(LinkErrorOf::EmptyPath)
            } else {
                Ok(name)
            }
        },
    }
}

/// The filter that `text` writes, given by the user.
pub open spec fn user_filter(text: Seq<char>) -> FilterModel {
    FilterOf::Parse { text, context: "Failed to parse filter '"@ + text + "'"@ }
}

/// The inverse of the filter that `text` writes, given by the user.
pub open spec fn inverse_user_filter(text: Seq<char>) -> FilterModel {
    FilterOf::Invert {
        base: Box::new(user_filter(text)),
        context: "Filter '"@ + text + "' has no inverse"@,
    }
}

/// The filter that exports the directory `name` through the inverse of a filter.
pub open spec fn export_filter(name: Seq<char>, filter: Seq<char>) -> FilterModel {
    FilterOf::Chain {
        first: Box::new(
            FilterOf::Export {
                base: Box::new(
                    FilterOf::Subdir {
                        base: Box::new(FilterOf::Identity),
                        path: encode_utf8(name),
                    },
                ),
            },
        ),
        second: Box::new(inverse_user_filter(filter)),
    }
}

/// Writes the filter that the user gave.
pub fn make_user_filter(text: &str) -> (r: Filter)
    ensures
        r.deep_view() == user_filter(text@),
{
    Filter::parse(text, wrap("Failed to parse filter '", text, "'"))
}

/// Writes the inverse of the filter that the user gave.
pub fn make_inverse_user_filter(text: &str) -> (r: Filter)
    ensures
        r.deep_view() == inverse_user_filter(text@),
{
    make_user_filter(text).invert(wrap("Filter '", text, "' has no inverse"))
}

/// What is exported, and through which filter.
pub struct ExportArgs {
    pub head: ObjectId,
    pub path: Seq<u8>,
    pub filter: Seq<char>,
}

/// What [`export_link_source`] does after `replies`: the one reply is the exported commit.
pub open spec fn export_step(args: ExportArgs, replies: Seq<ReplyModel>) -> Expected<
    Option<ObjectId>,
> {
    match normalized(args.path) {
        Err(error) => Expected::Fail { error },
        Ok(name) => if replies.len() == 0 {
            Expected::Ask {
                request: asks(
                    ActionOf::FilterCommit {
                        filter: export_filter(name, args.filter),
                        commit: args.head,
                    },
                    "Failed to export existing link contents"@,
                ),
            }
        } else {
            match replies.last() {
                ReplyModel::Id(exported) => Expected::Done {
                    value: if exported.is_zero() {
                        None
                    } else {
                        Some(exported)
                    },
                },
                _ => refused(replies.last()),
            }
        },
    }
}

/// An export that waits for the exported commit.
pub struct ExportSource {
    args: Ghost<ExportArgs>,
}

impl ExportSource {
    /// What the export was started with.
    pub closed spec fn args(self) -> ExportArgs {
        self.args@
    }

    #[verifier::type_invariant]
    spec fn consistent(self) -> bool {
        normalized(self.args@.path) is Ok
    }

    /// Takes the reply to what was asked.
    pub fn resume(self, reply: Reply) -> (r: Outcome<ExportSource, Option<ObjectId>>)
        ensures
            r.deep_view() == export_step(self.args(), seq![reply.deep_view()]),
            !(r is Ask),
    {
        proof {
            use_type_invariant(&self);
        }
        match reply {
            Reply::Id(exported) => Outcome::Done {
                value: if exported.is_null() {
                    None
                } else {
                    Some(exported)
                },
            },
            reply => Outcome::Fail { error: reply.refusal() },
        }
    }
}

/// Export the current contents at `path` back through the inverse of `filter`.
///
/// The result is `None` when the path has no content in `head_commit`. Callers can then fetch the
/// configured remote instead.
pub fn export_link_source(head_commit: ObjectId, path: &LinkPath, filter: &str) -> (r: Outcome<
    ExportSource,
    Option<ObjectId>,
>)
    ensures
        ({
            let args = ExportArgs {
                head: head_commit,
                path: path.deep_view(),
                filter: filter@,
            };
            &&& r.deep_view() == export_step(args, Seq::empty())
            &&& r matches Outcome::Ask { request, next } ==> next.args() == args
        }),
{
    let ghost args = ExportArgs { head: head_commit, path: path.deep_view(), filter: filter@ };
    match normalize(path) {
        Err(error) => Outcome::Fail { error },
        Ok(name) => {
            let filter = Filter::Identity.subdir(LinkPath::from_text(name)).export().chain(
                make_inverse_user_filter(filter),
            );
            Outcome::Ask {
                request: Request::with_context(
                    ActionOf::FilterCommit { filter, commit: head_commit },
                    "Failed to export existing link contents".to_owned(),
                ),
                next: ExportSource { args: Ghost(args) },
            }
        },
    }
}

/// Slashes around the path make no difference to an export.
pub proof fn export_ignores_outer_slashes(
    a: ExportArgs,
    b: ExportArgs,
    replies: Seq<ReplyModel>,
)
    requires
        valid_utf8(a.path),
        valid_utf8(b.path),
        trimmed(decode_utf8(a.path)) == trimmed(decode_utf8(b.path)),
        a.head == b.head,
        a.filter == b.filter,
    ensures
        export_step(a, replies) == export_step(b, replies),
{
}

/// The result of an export is the exported commit, and nothing exactly where there is no content:
/// where the identifier consists of zeros.
pub proof fn export_is_none_without_content(args: ExportArgs, exported: ObjectId)
    requires
        normalized(args.path) is Ok,
    ensures
        export_step(args, seq![ReplyModel::Id(exported)]) == (Expected::Done {
            value: if exported.is_zero() {
                None
            } else {
                Some(exported)
            },
        }),
{
}

} // verus!
