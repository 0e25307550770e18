//! Preparing the push of a link to its own repository.

use crate::error::{LinkError, LinkErrorModel, LinkErrorOf};
use crate::export::{normalize, normalized};
use crate::filter::{Filter, FilterModel, FilterOf, MetaKey};
use crate::link::{
    find_link, position_of_link, LinkFile, LinkFileModel, PreparedLinkPush, PreparedLinkPushModel,
};
use crate::oid::{hex_reading, ObjectId};
use crate::path::{shown, LinkPath, LINK_FILE};
use crate::step::{asks, refused, ActionOf, Expected, Outcome, Reply, ReplyModel, Request};
use crate::text::trimmed;
use vstd::prelude::*;
use vstd::string::*;
use vstd::utf8::*;

verus! {

/// The branch that a link follows for which none is recorded.
pub const DEFAULT_TARGET: &'static str = "HEAD";

/// What a link file records of a link that can be pushed.
pub struct Pinned {
    pub remote: Seq<char>,
    /// The commit of the linked repository that the link is pinned to.
    pub commit: ObjectId,
}

/// What `link` records of the link; why it cannot be pushed, where that is missing.
pub open spec fn pinned(link: LinkFileModel) -> Result<Pinned, LinkErrorModel> {
    match (link.remote, link.commit) {
        (None, _) => Err(LinkErrorOf::MissingMeta { key: MetaKey::Remote }),
        (_, None) => Err(LinkErrorOf::MissingMeta { key: MetaKey::Commit }),
        (Some(remote), Some(text)) => match hex_reading(text) {
            Ok(commit) => Ok(Pinned { remote, commit }),
            Err(cause) => Err(LinkErrorOf::InvalidCommitId { cause }),
        },
    }
}

/// The filter that makes the linked content of the linked repository.
pub open spec fn source_filter(link: LinkFileModel) -> FilterModel {
    FilterOf::Peel { base: Box::new(FilterOf::Recorded(link.filter)) }
}

/// The filter that keeps the content at `name`, where it is, without the link file.
pub open spec fn local_filter(name: Seq<char>) -> FilterModel {
    FilterOf::Prefix {
        base: Box::new(
            FilterOf::Exclude {
                base: Box::new(
                    FilterOf::Subdir {
                        base: Box::new(FilterOf::Identity),
                        path: encode_utf8(name),
                    },
                ),
                other: Box::new(
                    FilterOf::File { base: Box::new(FilterOf::Identity), name: LINK_FILE@ },
                ),
            },
        ),
        path: encode_utf8(name),
    }
}

/// The push that `link` configures for the commit `exported`.
pub open spec fn push_of(link: LinkFileModel, exported: ObjectId) -> PreparedLinkPushModel {
    PreparedLinkPushModel {
        remote: link.remote->0,
        push_remote: link.push,
        configured_target: match link.target {
            Some(target) => target,
            None => DEFAULT_TARGET@,
        },
        configured_push_target: link.push_target,
        exported_commit: exported,
    }
}

/// What [`prepare_link_push`] does after `replies`.
///
/// The replies are, in this order: the tree of the head commit, the link files in it, the pinned
/// commit as the link brings it in, the local content of the link, and the exported commit.
pub open spec fn push_step(head: ObjectId, path: Seq<u8>, replies: Seq<ReplyModel>) -> Expected<
    PreparedLinkPushModel,
> {
    let n = replies.len();
    match normalized(path) {
        Err(error) => Expected::Fail { error },
        Ok(name) => if n == 0 {
            Expected::Ask {
                request: asks(ActionOf::ReadTree { commit: head }, "Failed to get commit tree"@),
            }
        } else if n == 2 && !(replies.last() is Links) || n != 2 && !(replies.last() is Id) {
            refused(replies.last())
        } else if n == 1 {
            Expected::Ask {
                request: asks(
                    ActionOf::FindLinks { tree: replies[0]->Id_0 },
                    "Failed to find link files"@,
                ),
            }
        } else {
            match find_link(replies[1]->Links_0, encode_utf8(name)) {
                None => Expected::Fail { error: LinkErrorOf::NoLink { path: shown(path) } },
                Some(link) => match pinned(link) {
                    Err(error) => Expected::Fail { error },
                    Ok(pin) => if n == 2 {
                        Expected::Ask {
                            request: asks(
                                ActionOf::FilterCommit {
                                    filter: source_filter(link),
                                    commit: pin.commit,
                                },
                                "Failed to filter the pinned link commit"@,
                            ),
                        }
                    } else if n == 3 {
                        Expected::Ask {
                            request: asks(
                                ActionOf::FilterCommit {
                                    filter: local_filter(name),
                                    commit: head,
                                },
                                "Failed to isolate the local link history"@,
                            ),
                        }
                    } else if n == 4 {
                        if replies[3]->Id_0.is_zero() {
                            Expected::Fail {
                                error: LinkErrorOf::NothingToPush { path: shown(path) },
                            }
                        } else {
                            Expected::Ask {
                                request: asks(
                                    ActionOf::UnapplyFilter {
                                        filter: source_filter(link),
                                        original: pin.commit,
                                        filtered: replies[2]->Id_0,
                                        changed: replies[3]->Id_0,
                                    },
                                    "Failed to reverse the linked history"@,
                                ),
                            }
                        }
                    } else {
                        Expected::Done { value: push_of(link, replies[4]->Id_0) }
                    },
                },
            }
        },
    }
}

/// What the preparation of a push waits for.
enum PushPhase {
    /// The tree of the head.
    Tree,
    /// The link files in the tree of the head.
    Links,
    /// The pinned commit as the link brings it in.
    Source { link: LinkFile, pin: ObjectId },
    /// The local content of the link.
    Local { link: LinkFile, pin: ObjectId, filtered: ObjectId },
    /// The exported commit.
    Exported { link: LinkFile },
}

/// The preparation of a push that waits for a reply.
pub struct PreparePush {
    head: ObjectId,
    path: LinkPath,
    /// The path in its normal form.
    name: String,
    phase: PushPhase,
    replies: Ghost<Seq<ReplyModel>>,
}

impl PreparePush {
    /// The commit whose content is pushed.
    pub closed spec fn head(self) -> ObjectId {
        self.head
    }

    /// The path of the link.
    pub closed spec fn path(self) -> Seq<u8> {
        self.path.deep_view()
    }

    /// The replies so far.
    pub closed spec fn replies(self) -> Seq<ReplyModel> {
        self.replies@
    }

    spec fn has_found(self, link: LinkFile) -> bool {
        find_link(self.replies@[1]->Links_0, encode_utf8(self.name@)) == Some(link.deep_view())
    }

    #[verifier::type_invariant]
    spec fn consistent(self) -> bool {
        let r = self.replies@;
        &&& normalized(self.path.deep_view()) == Ok::<Seq<char>, LinkErrorModel>(self.name@)
        &&& match self.phase {
            PushPhase::Tree => r.len() == 0,
            PushPhase::Links => r.len() == 1,
            PushPhase::Source { link, pin } => {
                &&& r.len() == 2
                &&& self.has_found(link)
                &&& pinned(link.deep_view()) matches Ok(p) && p.commit == pin
            },
            PushPhase::Local { link, pin, filtered } => {
                &&& r.len() == 3
                &&& self.has_found(link)
                &&& pinned(link.deep_view()) matches Ok(p) && p.commit == pin
                &&& r[2] == ReplyModel::Id(filtered)
            },
            PushPhase::Exported { link } => {
                &&& r.len() == 4
                &&& self.has_found(link)
                &&& pinned(link.deep_view()) is Ok
            },
        }
    }
}

/// Finds the commit that a link is pinned to; why it cannot be pushed, where there is none.
fn read_pin(link: &LinkFile) -> (r: Result<ObjectId, LinkError>)
    ensures
        match r {
            Ok(commit) => pinned(link.deep_view()) matches Ok(p) && p.commit == commit,
            Err(e) => pinned(link.deep_view()) == Err::<Pinned, LinkErrorModel>(e.deep_view()),
        },
{
    match (&link.remote, &link.commit) {
        (None, _) => Err(LinkErrorOf::MissingMeta { key: MetaKey::Remote }),
        (_, None) => Err(LinkErrorOf::MissingMeta { key: MetaKey::Commit }),
        (Some(_), Some(text)) => match ObjectId::from_hex(text.as_str()) {
            Ok(commit) => Ok(commit),
            Err(cause) => Err(LinkErrorOf::InvalidCommitId { cause }),
        },
    }
}

impl PreparePush {
    /// Takes the reply to what was asked.
    pub fn resume(self, reply: Reply) -> (r: Outcome<PreparePush, PreparedLinkPush>)
        ensures
            r.deep_view() == push_step(
                self.head(),
                self.path(),
                self.replies().push(reply.deep_view()),
            ),
            r matches Outcome::Ask { request, next } ==> next.head() == self.head() && next.path()
                == self.path() && next.replies() == self.replies().push(reply.deep_view()),
    {
        proof {
            use_type_invariant(&self);
        }
        let ghost replies = self.replies@.push(reply.deep_view());
        let PreparePush { head, path, name, phase, replies: _ } = self;
        match (phase, reply) {
            (PushPhase::Tree, Reply::Id(tree)) => Outcome::Ask {
                request: Request::with_context(
                    ActionOf::FindLinks { tree },
                    "Failed to find link files".to_owned(),
                ),
                next: PreparePush {
                    head,
                    path,
                    name,
                    phase: PushPhase::Links,
                    replies: Ghost(replies),
                },
            },
            (PushPhase::Links, Reply::Links(mut files)) => {
                match position_of_link(&files, &LinkPath::from_text(name.as_str())) {
                    None => Outcome::Fail { error: LinkErrorOf::NoLink { path: path.display() } },
                    Some(at) => {
                        let link = files.swap_remove(at);
                        match read_pin(&link) {
                            Err(error) => Outcome::Fail { error },
                            Ok(pin) => Outcome::Ask {
                                request: Request::with_context(
                                    ActionOf::FilterCommit {
                                        filter: Filter::recorded(link.filter).peel(),
                                        commit: pin,
                                    },
                                    "Failed to filter the pinned link commit".to_owned(),
                                ),
                                next: PreparePush {
                                    head,
                                    path,
                                    name,
                                    phase: PushPhase::Source { link, pin },
                                    replies: Ghost(replies),
                                },
                            },
                        }
                    },
                }
            },
            (PushPhase::Source { link, pin }, Reply::Id(filtered)) => {
                let filter = Filter::Identity.subdir(LinkPath::from_text(name.as_str())).exclude(
                    Filter::Identity.file(LINK_FILE),
                ).prefix(LinkPath::from_text(name.as_str()));
                Outcome::Ask {
                    request: Request::with_context(
                        ActionOf::FilterCommit { filter, commit: head },
                        "Failed to isolate the local link history".to_owned(),
                    ),
                    next: PreparePush {
                        head,
                        path,
                        name,
                        phase: PushPhase::Local { link, pin, filtered },
                        replies: Ghost(replies),
                    },
                }
            },
            (PushPhase::Local { link, pin, filtered }, Reply::Id(changed)) => if changed.is_null() {
                Outcome::Fail { error: LinkErrorOf::NothingToPush { path: path.display() } }
            } else {
                Outcome::Ask {
                    request: Request::with_context(
                        ActionOf::UnapplyFilter {
                            filter: Filter::recorded(link.filter).peel(),
                            original: pin,
                            filtered,
                            changed,
                        },
                        "Failed to reverse the linked history".to_owned(),
                    ),
                    next: PreparePush {
                        head,
                        path,
                        name,
                        phase: PushPhase::Exported { link },
                        replies: Ghost(replies),
                    },
                }
            },
            (PushPhase::Exported { link }, Reply::Id(exported_commit)) => {
                let LinkFile { path: _, filter: _, remote, target, commit: _, push, push_target } =
                    link;
                let configured_target = match target {
                    Some(target) => target,
                    None => DEFAULT_TARGET.to_owned(),
                };
                match remote {
                    Some(remote) => Outcome::Done {
                        value: PreparedLinkPush {
                            remote,
                            push_remote: push,
                            configured_target,
                            configured_push_target: push_target,
                            exported_commit,
                        },
                    },
                    None => Outcome::Fail {
                        error: LinkErrorOf::MissingMeta { key: MetaKey::Remote },
                    },
                }
            },
            (_, reply) => Outcome::Fail { error: reply.refusal() },
        }
    }
}

/// Resolve a link at `path` and export its visible contents into the linked repository's layout.
pub fn prepare_link_push(head_commit: ObjectId, path: &LinkPath) -> (r: Outcome<
    PreparePush,
    PreparedLinkPush,
>)
    ensures
        r.deep_view() == push_step(head_commit, path.deep_view(), Seq::empty()),
        r matches Outcome::Ask { request, next } ==> next.head() == head_commit && next.path()
            == path.deep_view() && next.replies() == Seq::<ReplyModel>::empty(),
{
    match normalize(path) {
        Err(error) => Outcome::Fail { error },
        Ok(name) => Outcome::Ask {
            request: Request::with_context(
                ActionOf::ReadTree { commit: head_commit },
                "Failed to get commit tree".to_owned(),
            ),
            next: PreparePush {
                head: head_commit,
                path: path.clone(),
                name: name.to_owned(),
                phase: PushPhase::Tree,
                replies: Ghost(Seq::empty()),
            },
        },
    }
}

/// Slashes around the path make no difference to what is pushed; they show in messages only.
pub proof fn push_ignores_outer_slashes(
    head: ObjectId,
    a: Seq<u8>,
    b: Seq<u8>,
    replies: Seq<ReplyModel>,
)
    requires
        valid_utf8(a),
        valid_utf8(b),
        trimmed(decode_utf8(a)) == trimmed(decode_utf8(b)),
    ensures
        push_step(head, a, replies) is Fail <==> push_step(head, b, replies) is Fail,
        !(push_step(head, a, replies) is Fail) ==> push_step(head, a, replies) == push_step(
            head,
            b,
            replies,
        ),
{
}

/// Where there is no content at the path, nothing is exported, and so nothing is pushed.
pub proof fn nothing_is_pushed_without_content(
    head: ObjectId,
    path: Seq<u8>,
    replies: Seq<ReplyModel>,
)
    requires
        replies.len() == 4,
        replies[3] matches ReplyModel::Id(local) && local.is_zero(),
    ensures
        push_step(head, path, replies) is Fail,
{
}

} // verus!
