//! Adding links.

use crate::collect::ref_of;
use crate::error::LinkErrorModel;
use crate::export::{make_user_filter, user_filter};
use crate::filter::{value_under, FilterModel, FilterOf, MetaKey, Recorded};
use crate::link::{LinkFileModel, LinkRefModel, PreparedLinkPushModel, Signature, SignatureModel};
use crate::oid::{hex_reads_back, ObjectId};
use crate::path::{link_file, shown, without_root, LinkPath};
use crate::push::{pinned, push_of, Pinned};
use crate::step::{
    asks, asks_plainly, refused, ActionOf, Expected, Outcome, Reply, ReplyModel, Request,
};
use crate::text::optional;
use crate::update::LINK_FILE_MODE;
use vstd::prelude::*;
use vstd::string::*;

verus! {

/// The filter of a link for which none is given: the whole linked repository.
pub const DEFAULT_FILTER: &'static str = ":/";

/// What a new link is to record, and where.
pub struct AddArgs {
    pub path: Seq<u8>,
    pub url: Seq<char>,
    pub push_url: Option<Seq<char>>,
    pub filter: Option<Seq<char>>,
    pub target: Seq<char>,
    pub push_target: Option<Seq<char>>,
    pub fetched_commit: ObjectId,
    pub head_tree: ObjectId,
    pub mode: Seq<char>,
}

/// `base` with `value` recorded under `key`.
pub open spec fn meta(base: FilterModel, key: MetaKey, value: Seq<char>) -> FilterModel {
    FilterOf::Meta { base: Box::new(base), key, value }
}

/// `base` with `value`, where there is one, recorded under `key`.
pub open spec fn optional_meta(
    base: FilterModel,
    key: MetaKey,
    value: Option<Seq<char>>,
) -> FilterModel {
    match value {
        Some(value) => meta(base, key, value),
        None => base,
    }
}

/// The filter that a new link records.
pub open spec fn new_link(args: AddArgs) -> FilterModel {
    let text = match args.filter {
        Some(text) => text,
        None => DEFAULT_FILTER@,
    };
    let mounted = FilterOf::Prefix {
        base: Box::new(user_filter(text)),
        path: without_root(args.path),
    };
    let from = meta(
        meta(mounted, MetaKey::Remote, args.url),
        MetaKey::Target,
        args.target,
    );
    let pinned = meta(
        meta(from, MetaKey::Commit, args.fetched_commit.hex()),
        MetaKey::Mode,
        args.mode,
    );
    optional_meta(
        optional_meta(pinned, MetaKey::Push, args.push_url),
        MetaKey::PushTarget,
        args.push_target,
    )
}

/// Prepared link addition, ready to be finalized
#[derive(Debug, PartialEq, Eq)]
pub struct PreparedLinkAdd {
    tree_oid: ObjectId,
    path: LinkPath,
}

/// The model of a [`PreparedLinkAdd`].
pub struct PreparedLinkAddModel {
    pub tree_oid: ObjectId,
    pub path: Seq<u8>,
}

impl DeepView for PreparedLinkAdd {
    type V = PreparedLinkAddModel;

    closed spec fn deep_view(&self) -> PreparedLinkAddModel {
        PreparedLinkAddModel { tree_oid: self.tree_oid, path: self.path.deep_view() }
    }
}

/// What [`prepare_link_add`] does after `replies`: the stored link file, then the tree that holds
/// it.
pub open spec fn prepare_add_step(args: AddArgs, replies: Seq<ReplyModel>) -> Expected<
    PreparedLinkAddModel,
> {
    if replies.len() == 0 {
        Expected::Ask {
            request: asks_plainly(ActionOf::WriteFilter { filter: new_link(args) }),
        }
    } else {
        match replies.last() {
            ReplyModel::Id(id) => if replies.len() == 1 {
                Expected::Ask {
                    request: asks(
                        ActionOf::InsertBlob {
                            tree: args.head_tree,
                            path: link_file(without_root(args.path)),
                            blob: id,
                            mode: LINK_FILE_MODE,
                        },
                        "Failed to insert link file into tree"@,
                    ),
                }
            } else {
                Expected::Done {
                    value: PreparedLinkAddModel { tree_oid: id, path: without_root(args.path) },
                }
            },
            _ => refused(replies.last()),
        }
    }
}

/// A link addition that waits for a reply.
pub struct PrepareAdd {
    /// The path of the link, taken from the root.
    path: LinkPath,
    head_tree: ObjectId,
    /// Whether the link file is stored.
    stored: bool,
    args: Ghost<AddArgs>,
    replies: Ghost<Seq<ReplyModel>>,
}

impl PrepareAdd {
    /// What the addition was started with.
    pub closed spec fn args(self) -> AddArgs {
        self.args@
    }

    /// The replies so far.
    pub closed spec fn replies(self) -> Seq<ReplyModel> {
        self.replies@
    }

    #[verifier::type_invariant]
    spec fn consistent(self) -> bool {
        &&& self.path.deep_view() == without_root(self.args@.path)
        &&& self.head_tree == self.args@.head_tree
        &&& self.replies@.len() == if self.stored {
            1nat
        } else {
            0nat
        }
    }

    /// Takes the reply to what was asked.
    pub fn resume(self, reply: Reply) -> (r: Outcome<PrepareAdd, PreparedLinkAdd>)
        ensures
            r.deep_view() == prepare_add_step(
                self.args(),
                self.replies().push(reply.deep_view()),
            ),
            r matches Outcome::Ask { request, next } ==> next.args() == self.args()
                && next.replies() == self.replies().push(reply.deep_view()),
    {
        proof {
            use_type_invariant(&self);
        }
        let ghost replies = self.replies@.push(reply.deep_view());
        let PrepareAdd { path, head_tree, stored, args, replies: _ } = self;
        match reply {
            Reply::Id(id) => if stored {
                Outcome::Done { value: PreparedLinkAdd { tree_oid: id, path } }
            } else {
                Outcome::Ask {
                    request: Request::with_context(
                        ActionOf::InsertBlob {
                            tree: head_tree,
                            path: path.link_file(),
                            blob: id,
                            mode: LINK_FILE_MODE,
                        },
                        "Failed to insert link file into tree".to_owned(),
                    ),
                    next: PrepareAdd {
                        path,
                        head_tree,
                        stored: true,
                        args,
                        replies: Ghost(replies),
                    },
                }
            },
            reply => Outcome::Fail { error: reply.refusal() },
        }
    }
}

/// Prepare a link addition without creating a commit
///
/// `mode` is the name of the link mode as link files record it.
pub fn prepare_link_add(
    path: &LinkPath,
    url: &str,
    push_url: Option<&str>,
    filter: Option<&str>,
    target: &str,
    push_target: Option<&str>,
    fetched_commit: ObjectId,
    head_tree: ObjectId,
    mode: &str,
) -> (r: Outcome<PrepareAdd, PreparedLinkAdd>)
    ensures
        ({
            let args = AddArgs {
                path: path.deep_view(),
                url: url@,
                push_url: optional(push_url),
                filter: optional(filter),
                target: target@,
                push_target: optional(push_target),
                fetched_commit,
                head_tree,
                mode: mode@,
            };
            &&& r.deep_view() == prepare_add_step(args, Seq::empty())
            &&& r matches Outcome::Ask { request, next } && next.args() == args && next.replies()
                == Seq::<ReplyModel>::empty()
        }),
{
    let ghost args = AddArgs {
        path: path.deep_view(),
        url: url@,
        push_url: optional(push_url),
        filter: optional(filter),
        target: target@,
        push_target: optional(push_target),
        fetched_commit,
        head_tree,
        mode: mode@,
    };
    let path = path.strip_root();
    let text = match filter {
        Some(text) => text,
        None => DEFAULT_FILTER,
    };
    let mut link = make_user_filter(text).prefix(path.clone()).with_meta(
        MetaKey::Remote,
        url.to_owned(),
    ).with_meta(MetaKey::Target, target.to_owned()).with_meta(
        MetaKey::Commit,
        fetched_commit.to_hex(),
    ).with_meta(MetaKey::Mode, mode.to_owned());
    if let Some(push_url) = push_url {
        link = link.with_meta(MetaKey::Push, push_url.to_owned());
    }
    if let Some(push_target) = push_target {
        link = link.with_meta(MetaKey::PushTarget, push_target.to_owned());
    }
    Outcome::Ask {
        request: Request::plain(ActionOf::WriteFilter { filter: link }),
        next: PrepareAdd {
            path,
            head_tree,
            stored: false,
            args: Ghost(args),
            replies: Ghost(Seq::empty()),
        },
    }
}

/// What a commit that adds a link is made of.
pub struct CommitArgs {
    pub added: PreparedLinkAddModel,
    pub head: ObjectId,
    pub signature: SignatureModel,
}

/// What [`PreparedLinkAdd::into_commit`] does after `replies`: the one reply is the commit.
pub open spec fn commit_add_step(args: CommitArgs, replies: Seq<ReplyModel>) -> Expected<ObjectId> {
    if replies.len() == 0 {
        Expected::Ask {
            request: asks(
                ActionOf::WriteCommit {
                    tree: args.added.tree_oid,
                    parent: args.head,
                    signature: args.signature,
                    message: "Add link: "@ + shown(args.added.path),
                },
                "Failed to create commit"@,
            ),
        }
    } else {
        match replies.last() {
            ReplyModel::Id(commit) => Expected::Done { value: commit },
            _ => refused(replies.last()),
        }
    }
}

/// The addition of a link that waits for its commit.
pub struct CommitAdd {
    args: Ghost<CommitArgs>,
}

impl CommitAdd {
    /// What the commit is made of.
    pub closed spec fn args(self) -> CommitArgs {
        self.args@
    }

    /// Takes the reply to what was asked.
    pub fn resume(self, reply: Reply) -> (r: Outcome<CommitAdd, ObjectId>)
        ensures
            r.deep_view() == commit_add_step(self.args(), seq![reply.deep_view()]),
            !(r is Ask),
    {
        match reply {
            Reply::Id(commit) => Outcome::Done { value: commit },
            reply => Outcome::Fail { error: reply.refusal() },
        }
    }
}

impl PreparedLinkAdd {
    /// Turns the addition into a commit on top of `head_commit`.
    pub fn into_commit(self, head_commit: ObjectId, signature: &Signature) -> (r: Outcome<
        CommitAdd,
        ObjectId,
    >)
        ensures
            ({
                let args = CommitArgs {
                    added: self.deep_view(),
                    head: head_commit,
                    signature: signature.deep_view(),
                };
                &&& r.deep_view() == commit_add_step(args, Seq::empty())
                &&& r matches Outcome::Ask { request, next } && next.args() == args
            }),
    {
        let ghost args = CommitArgs {
            added: self.deep_view(),
            head: head_commit,
            signature: signature.deep_view(),
        };
        let mut message: String = "Add link: ".to_owned();
        message.append(self.path.display().as_str());
        Outcome::Ask {
            request: Request::with_context(
                ActionOf::WriteCommit {
                    tree: self.tree_oid,
                    parent: head_commit,
                    signature: signature.clone(),
                    message,
                },
                "Failed to create commit".to_owned(),
            ),
            next: CommitAdd { args: Ghost(args) },
        }
    }

    /// Get the prepared tree OID without consuming the addition.
    pub fn tree_oid(&self) -> (r: ObjectId)
        ensures
            r == self.deep_view().tree_oid,
    {
        self.tree_oid
    }

    /// Get tree OID for custom commit creation
    ///
    /// This is used to add additional files before creating a commit
    pub fn into_tree_oid(self) -> (r: ObjectId)
        ensures
            r == self.deep_view().tree_oid,
    {
        self.tree_oid
    }
}

/// Whether `file` holds what `filter` records. `recorded` is what the filters of link files record.
pub open spec fn holds_record(
    file: LinkFileModel,
    filter: FilterModel,
    recorded: Recorded,
) -> bool {
    &&& file.remote == value_under(filter, MetaKey::Remote, recorded)
    &&& file.target == value_under(filter, MetaKey::Target, recorded)
    &&& file.commit == value_under(filter, MetaKey::Commit, recorded)
    &&& file.push == value_under(filter, MetaKey::Push, recorded)
    &&& file.push_target == value_under(filter, MetaKey::PushTarget, recorded)
}

/// What a new link records is what a push and a fetch read of it: the remote, the branches, and
/// the very commit that it was pinned to.
pub proof fn new_link_reads_back(
    args: AddArgs,
    file: LinkFileModel,
    recorded: Recorded,
    exported: ObjectId,
)
    requires
        holds_record(file, new_link(args), recorded),
    ensures
        pinned(file) == Ok::<Pinned, LinkErrorModel>(
            Pinned { remote: args.url, commit: args.fetched_commit },
        ),
        push_of(file, exported) == (PreparedLinkPushModel {
            remote: args.url,
            push_remote: args.push_url,
            configured_target: args.target,
            configured_push_target: args.push_target,
            exported_commit: exported,
        }),
        ref_of(file) == Some(
            LinkRefModel { remote: args.url, commit: args.fetched_commit.hex() },
        ),
        value_under(new_link(args), MetaKey::Mode, recorded) == Some(args.mode),
{
    reveal_with_fuel(value_under, 8);
    hex_reads_back(args.fetched_commit);
}

/// A link for which no filter is given is one with the default filter.
pub proof fn missing_filter_is_default(args: AddArgs, replies: Seq<ReplyModel>)
    requires
        args.filter is None,
    ensures
        prepare_add_step(args, replies) == prepare_add_step(
            AddArgs { filter: Some(DEFAULT_FILTER@), ..args },
            replies,
        ),
{
}

} // verus!
