//! Moving links to newer commits of the linked repositories.

use crate::error::LinkErrorOf;
use crate::filter::{value_under, Filter, FilterModel, FilterOf, MetaKey, Recorded};
use crate::link::{
    find_link, position_of_link, LinkFile, LinkFileModel, Signature, SignatureModel,
    UpdateLinksResult,
};
use crate::oid::{hex_reading, hex_reads_back, HexError, ObjectId};
use crate::path::{link_file, shown, LinkPath};
use crate::step::{
    asks, asks_plainly, refused, ActionOf, Expected, Outcome, Reply, ReplyModel, Request,
};
use crate::text::{joined, wrap};
use vstd::prelude::*;
use vstd::string::*;

verus! {

/// The file mode of a link file: a regular file that is not executable.
pub const LINK_FILE_MODE: u32 = 0o100644;

/// Where links are to be moved, and who signs for it.
pub struct UpdateArgs {
    /// The commit whose links are moved.
    pub head: ObjectId,
    /// The paths of the links and the commits that they are moved to.
    pub updates: Seq<(Seq<u8>, ObjectId)>,
    pub signature: SignatureModel,
}

/// The first path of `updates` at which there is no link file.
pub open spec fn first_missing(
    files: Seq<LinkFileModel>,
    updates: Seq<(Seq<u8>, ObjectId)>,
) -> Option<Seq<u8>>
    decreases updates.len(),
{
    if updates.len() == 0 {
        None
    } else if find_link(files, updates.first().0) is None {
        Some(updates.first().0)
    } else {
        first_missing(files, updates.drop_first())
    }
}

/// The filter that `link` records, pinned to `commit`.
pub open spec fn repinned(link: LinkFileModel, commit: ObjectId) -> FilterModel {
    FilterOf::Meta {
        base: Box::new(FilterOf::Recorded(link.filter)),
        key: MetaKey::Commit,
        value: commit.hex(),
    }
}

/// The filter that brings in the content of every link.
pub open spec fn link_filter() -> FilterModel {
    FilterOf::Parse { text: ":link"@, context: "Failed to parse :link filter"@ }
}

/// Writes the filter that brings in the content of every link.
pub fn make_link_filter() -> (r: Filter)
    ensures
        r.deep_view() == link_filter(),
{
    Filter::parse(":link", "Failed to parse :link filter".to_owned())
}

/// The message of the commit that records `updates`.
pub open spec fn update_message(updates: Seq<(Seq<u8>, ObjectId)>) -> Seq<char> {
    "Update links: "@ + joined(updates.map_values(|u: (Seq<u8>, ObjectId)| shown(u.0)), ", "@)
}

/// The tree in which the first `i` link files are replaced.
pub open spec fn tree_after(replies: Seq<ReplyModel>, i: int) -> ObjectId {
    if i == 0 {
        replies[0]->Id_0
    } else {
        replies[2 * i + 1]->Id_0
    }
}

/// What [`update_links`] does after `replies`.
///
/// The replies are, in this order: the tree of the head commit, the link files in it, for each
/// update the stored link file and then the tree that holds it, and, unless the tree is still that
/// of the head, the new commit and the commit with all links brought in.
pub open spec fn update_links_step(
    args: UpdateArgs,
    replies: Seq<ReplyModel>,
) -> Expected<Option<UpdateLinksResult>> {
    let n = args.updates.len() as int;
    let k = replies.len() - 2;
    if replies.len() == 0 {
        Expected::Ask {
            request: asks(
                ActionOf::ReadTree { commit: args.head },
                "Failed to get HEAD tree"@,
            ),
        }
    } else if k != 0 && !(replies.last() is Id) || k == 0 && !(replies.last() is Links) {
        refused(replies.last())
    } else if k < 0 {
        Expected::Ask {
            request: asks(
                ActionOf::FindLinks { tree: replies[0]->Id_0 },
                "Failed to find link files"@,
            ),
        }
    } else {
        let files = replies[1]->Links_0;
        match first_missing(files, args.updates) {
            Some(path) => Expected::Fail {
                error: LinkErrorOf::LinkFileNotFound { path: shown(path) },
            },
            None => if k < 2 * n {
                let (path, commit) = args.updates[k / 2];
                if k % 2 == 0 {
                    Expected::Ask {
                        request: asks_plainly(
                            ActionOf::WriteFilter {
                                filter: repinned(find_link(files, path)->0, commit),
                            },
                        ),
                    }
                } else {
                    Expected::Ask {
                        request: asks(
                            ActionOf::InsertBlob {
                                tree: tree_after(replies, k / 2),
                                path: link_file(path),
                                blob: replies.last()->Id_0,
                                mode: LINK_FILE_MODE,
                            },
                            "Failed to insert link file into tree at path '"@ + shown(path) + "'"@,
                        ),
                    }
                }
            } else if k == 2 * n {
                if tree_after(replies, n) == replies[0]->Id_0 {
                    Expected::Done { value: None }
                } else {
                    Expected::Ask {
                        request: asks(
                            ActionOf::WriteCommit {
                                tree: tree_after(replies, n),
                                parent: args.head,
                                signature: args.signature,
                                message: update_message(args.updates),
                            },
                            "Failed to create commit"@,
                        ),
                    }
                }
            } else if k == 2 * n + 1 {
                Expected::Ask {
                    request: asks(
                        ActionOf::FilterCommit {
                            filter: link_filter(),
                            commit: replies.last()->Id_0,
                        },
                        "Failed to apply :link filter"@,
                    ),
                }
            } else {
                Expected::Done {
                    value: Some(
                        UpdateLinksResult {
                            commit_with_updates: replies[2 * n + 2]->Id_0,
                            filtered_commit: replies[2 * n + 3]->Id_0,
                        },
                    ),
                }
            },
        }
    }
}

/// What an update of links waits for.
#[derive(Debug, PartialEq, Eq)]
enum UpdatePhase {
    /// The tree of the head.
    Tree,
    /// The link files in the tree of the head.
    Links { head_tree: ObjectId },
    /// The link file of the update number `at`, stored.
    Blob { head_tree: ObjectId, tree: ObjectId, filters: Vec<usize>, at: usize },
    /// The tree that holds the link file of the update number `at`.
    Insert { head_tree: ObjectId, tree: ObjectId, filters: Vec<usize>, at: usize },
    /// The new commit.
    Commit,
    /// The commit with all links brought in.
    Filter { commit: ObjectId },
}

/// What an update of links was started with.
struct UpdateInput {
    head: ObjectId,
    updates: Vec<(LinkPath, ObjectId)>,
    signature: Signature,
}

impl UpdateInput {
    spec fn args(self) -> UpdateArgs {
        UpdateArgs {
            head: self.head,
            updates: self.updates.deep_view(),
            signature: self.signature.deep_view(),
        }
    }
}

/// An update of links that waits for a reply.
pub struct UpdateLinks {
    input: UpdateInput,
    phase: UpdatePhase,
    replies: Ghost<Seq<ReplyModel>>,
}

impl UpdateLinks {
    /// What the update was started with.
    pub closed spec fn args(self) -> UpdateArgs {
        self.input.args()
    }

    /// The replies so far.
    pub closed spec fn replies(self) -> Seq<ReplyModel> {
        self.replies@
    }

    spec fn filters_match(self, filters: Seq<usize>) -> bool {
        let files = self.replies@[1]->Links_0;
        let updates = self.input.updates.deep_view();
        &&& filters.len() == updates.len()
        &&& first_missing(files, updates) is None
        &&& forall|i: int|
            0 <= i < updates.len() ==> #[trigger] filters[i] == find_link(
                files,
                updates[i].0,
            )->0.filter
    }

    #[verifier::type_invariant]
    spec fn consistent(self) -> bool {
        let r = self.replies@;
        let n = self.input.updates@.len() as int;
        match self.phase {
            UpdatePhase::Tree => r.len() == 0,
            UpdatePhase::Links { head_tree } => r.len() == 1 && r[0] == ReplyModel::Id(head_tree),
            UpdatePhase::Blob { head_tree, tree, filters, at } => {
                &&& r.len() == 2 * at + 2
                &&& at < n
                &&& r[0] == ReplyModel::Id(head_tree)
                &&& tree == tree_after(r, at as int)
                &&& self.filters_match(filters@)
            },
            UpdatePhase::Insert { head_tree, tree, filters, at } => {
                &&& r.len() == 2 * at + 3
                &&& at < n
                &&& r[0] == ReplyModel::Id(head_tree)
                &&& tree == tree_after(r, at as int)
                &&& self.filters_match(filters@)
            },
            UpdatePhase::Commit => {
                &&& r.len() == 2 * n + 2
                &&& first_missing(r[1]->Links_0, self.input.updates.deep_view()) is None
            },
            UpdatePhase::Filter { commit } => {
                &&& r.len() == 2 * n + 3
                &&& r[2 * n + 2] == ReplyModel::Id(commit)
                &&& first_missing(r[1]->Links_0, self.input.updates.deep_view()) is None
            },
        }
    }
}

/// Finds the number of the recorded filter for each update, or the first update for which there
/// is no link file.
fn find_filters(files: &Vec<LinkFile>, updates: &Vec<(LinkPath, ObjectId)>) -> (r: Result<
    Vec<usize>,
    usize,
>)
    ensures
        match r {
            Ok(filters) => {
                &&& first_missing(files.deep_view(), updates.deep_view()) is None
                &&& filters@.len() == updates@.len()
                &&& forall|i: int|
                    0 <= i < updates@.len() ==> #[trigger] filters@[i] == find_link(
                        files.deep_view(),
                        updates.deep_view()[i].0,
                    )->0.filter
            },
            Err(i) => i < updates@.len() && first_missing(files.deep_view(), updates.deep_view())
                == Some(updates@[i as int].0.deep_view()),
        },
{
    let ghost all = updates.deep_view();
    let ghost found = files.deep_view();
    let mut filters: Vec<usize> = Vec::new();
    let mut i: usize = 0;
    assert(all.skip(0) =~= all);
    while i < updates.len()
        invariant
            i <= updates@.len(),
            all == updates.deep_view(),
            found == files.deep_view(),
            filters@.len() == i,
            first_missing(found, all) == first_missing(found, all.skip(i as int)),
            forall|j: int|
                0 <= j < i ==> #[trigger] filters@[j] == find_link(found, all[j].0)->0.filter,
        decreases updates@.len() - i,
    {
        assert(all.skip(i as int).first() == all[i as int]);
        match position_of_link(files, &updates[i].0) {
            Some(at) => {
                filters.push(files[at].filter);
            },
            None => {
                return Err(i);
            },
        }
        assert(all.skip(i as int).drop_first() =~= all.skip(i + 1));
        i = i + 1;
    }
    Ok(filters)
}

/// The message of the commit that records `updates`.
fn write_update_message(updates: &Vec<(LinkPath, ObjectId)>) -> (r: String)
    ensures
        r@ == update_message(updates.deep_view()),
{
    let mut list: String = String::new();
    let ghost parts = updates.deep_view().map_values(|u: (Seq<u8>, ObjectId)| shown(u.0));
    let mut i: usize = 0;
    assert(parts.take(0) =~= Seq::empty());
    while i < updates.len()
        invariant
            i <= updates@.len(),
            parts == updates.deep_view().map_values(|u: (Seq<u8>, ObjectId)| shown(u.0)),
            list@ == joined(parts.take(i as int), ", "@),
        decreases updates@.len() - i,
    {
        let path = updates[i].0.display();
        assert(path@ == parts[i as int]);
        assert(parts.take(i + 1).drop_last() =~= parts.take(i as int));
        if i > 0 {
            list.append(", ");
        }
        list.append(path.as_str());
        proof {
            if i == 0 {
                assert(list@ =~= parts[0]);
            }
        }
        i = i + 1;
    }
    assert(parts.take(i as int) =~= parts);
    let mut r: String = "Update links: ".to_owned();
    r.append(list.as_str());
    r
}

impl UpdateInput {
    /// Goes on with the update number `at`, where `tree` holds the link files of those before.
    fn advance(
        self,
        head_tree: ObjectId,
        tree: ObjectId,
        filters: Vec<usize>,
        at: usize,
        Ghost(replies): Ghost<Seq<ReplyModel>>,
    ) -> (r: Outcome<UpdateLinks, Option<UpdateLinksResult>>)
        requires
            at <= self.updates@.len(),
            replies.len() == 2 * at + 2,
            at == 0 ==> replies.last() is Links,
            at > 0 ==> replies.last() is Id,
            replies[0] == ReplyModel::Id(head_tree),
            tree == tree_after(replies, at as int),
            filters@.len() == self.updates@.len(),
            first_missing(replies[1]->Links_0, self.updates.deep_view()) is None,
            forall|i: int|
                0 <= i < self.updates@.len() ==> #[trigger] filters@[i] == find_link(
                    replies[1]->Links_0,
                    self.updates.deep_view()[i].0,
                )->0.filter,
        ensures
            r.deep_view() == update_links_step(self.args(), replies),
            r matches Outcome::Ask { request, next } ==> next.args() == self.args()
                && next.replies() == replies,
    {
        if at < self.updates.len() {
            let filter = Filter::recorded(filters[at]).with_meta(
                MetaKey::Commit,
                self.updates[at].1.to_hex(),
            );
            assert(self.updates.deep_view()[at as int] == self.updates@[at as int].deep_view());
            Outcome::Ask {
                request: Request::plain(ActionOf::WriteFilter { filter }),
                next: UpdateLinks {
                    input: self,
                    phase: UpdatePhase::Blob { head_tree, tree, filters, at },
                    replies: Ghost(replies),
                },
            }
        } else if tree.same(&head_tree) {
            Outcome::Done { value: None }
        } else {
            let message = write_update_message(&self.updates);
            Outcome::Ask {
                request: Request::with_context(
                    ActionOf::WriteCommit {
                        tree,
                        parent: self.head,
                        signature: self.signature.clone(),
                        message,
                    },
                    "Failed to create commit".to_owned(),
                ),
                next: UpdateLinks {
                    input: self,
                    phase: UpdatePhase::Commit,
                    replies: Ghost(replies),
                },
            }
        }
    }
}

impl UpdateLinks {
    /// Takes the reply to what was asked.
    pub fn resume(self, reply: Reply) -> (r: Outcome<UpdateLinks, Option<UpdateLinksResult>>)
        ensures
            r.deep_view() == update_links_step(
                self.args(),
                self.replies().push(reply.deep_view()),
            ),
            r matches Outcome::Ask { request, next } ==> next.args() == self.args()
                && next.replies() == self.replies().push(reply.deep_view()),
    {
        proof {
            use_type_invariant(&self);
        }
        let ghost replies = self.replies@.push(reply.deep_view());
        let UpdateLinks { input, phase, replies: _ } = self;
        match (phase, reply) {
            (UpdatePhase::Tree, Reply::Id(head_tree)) => Outcome::Ask {
                request: Request::with_context(
                    ActionOf::FindLinks { tree: head_tree },
                    "Failed to find link files".to_owned(),
                ),
                next: UpdateLinks {
                    input,
                    phase: UpdatePhase::Links { head_tree },
                    replies: Ghost(replies),
                },
            },
            (UpdatePhase::Links { head_tree }, Reply::Links(files)) => match find_filters(
                &files,
                &input.updates,
            ) {
                Err(at) => Outcome::Fail {
                    error: LinkErrorOf::LinkFileNotFound { path: input.updates[at].0.display() },
                },
                Ok(filters) => {
                    input.advance(head_tree, head_tree, filters, 0, Ghost(replies))
                },
            },
            (UpdatePhase::Blob { head_tree, tree, filters, at }, Reply::Id(blob)) => {
                let path = input.updates[at].0.link_file();
                let context = wrap(
                    "Failed to insert link file into tree at path '",
                    input.updates[at].0.display().as_str(),
                    "'",
                );
                assert(input.updates.deep_view()[at as int]
                    == input.updates@[at as int].deep_view());
                Outcome::Ask {
                    request: Request::with_context(
                        ActionOf::InsertBlob { tree, path, blob, mode: LINK_FILE_MODE },
                        context,
                    ),
                    next: UpdateLinks {
                    input,
                    phase: UpdatePhase::Insert { head_tree, tree, filters, at },
                        replies: Ghost(replies),
                    },
                }
            },
            (UpdatePhase::Insert { head_tree, tree: _, filters, at }, Reply::Id(tree)) => {
                let count: usize = input.updates.len();
                input.advance(head_tree, tree, filters, at + 1, Ghost(replies))
            },
            (UpdatePhase::Commit, Reply::Id(commit)) => Outcome::Ask {
                request: Request::with_context(
                    ActionOf::FilterCommit { filter: make_link_filter(), commit },
                    "Failed to apply :link filter".to_owned(),
                ),
                next: UpdateLinks {
                    input,
                    phase: UpdatePhase::Filter { commit },
                    replies: Ghost(replies),
                },
            },
            (UpdatePhase::Filter { commit }, Reply::Id(filtered_commit)) => Outcome::Done {
                value: Some(UpdateLinksResult { commit_with_updates: commit, filtered_commit }),
            },
            (_, reply) => Outcome::Fail { error: reply.refusal() },
        }
    }
}

/// Starts an update: the links at the given paths are moved to the given commits. The result is
/// `None` where that changes no link file.
pub fn update_links(
    head_commit: ObjectId,
    links_to_update: Vec<(LinkPath, ObjectId)>,
    signature: &Signature,
) -> (r: Outcome<UpdateLinks, Option<UpdateLinksResult>>)
    ensures
        ({
            let args = UpdateArgs {
                head: head_commit,
                updates: links_to_update.deep_view(),
                signature: signature.deep_view(),
            };
            &&& r.deep_view() == update_links_step(args, Seq::empty())
            &&& r matches Outcome::Ask { request, next } && next.args() == args && next.replies()
                == Seq::<ReplyModel>::empty()
        }),
{
    Outcome::Ask {
        request: Request::with_context(
            ActionOf::ReadTree { commit: head_commit },
            "Failed to get HEAD tree".to_owned(),
        ),
        next: UpdateLinks {
            input: UpdateInput {
                head: head_commit,
                updates: links_to_update,
                signature: signature.clone(),
            },
            phase: UpdatePhase::Tree,
            replies: Ghost(Seq::empty()),
        },
    }
}

/// An update fails for want of a link file exactly where one of its paths has none, and the path
/// that it names is the first of those.
pub proof fn missing_link_is_named(
    files: Seq<LinkFileModel>,
    updates: Seq<(Seq<u8>, ObjectId)>,
)
    ensures
        match first_missing(files, updates) {
            Some(path) => exists|i: int|
                0 <= i < updates.len() && (#[trigger] updates[i]).0 == path && find_link(
                    files,
                    path,
                ) is None && forall|j: int|
                    0 <= j < i ==> find_link(files, (#[trigger] updates[j]).0) is Some,
            None => forall|j: int|
                0 <= j < updates.len() ==> find_link(files, (#[trigger] updates[j]).0) is Some,
        },
    decreases updates.len(),
{
    if updates.len() > 0 {
        if find_link(files, updates.first().0) is None {
            assert(updates[0] == updates.first());
        } else {
            let rest = updates.drop_first();
            missing_link_is_named(files, rest);
            if let Some(path) = first_missing(files, rest) {
                let k = choose|i: int|
                    0 <= i < rest.len() && (#[trigger] rest[i]).0 == path && find_link(
                        files,
                        path,
                    ) is None && forall|j: int|
                        0 <= j < i ==> find_link(files, (#[trigger] rest[j]).0) is Some;
                assert(updates[k + 1] == rest[k]);
                assert forall|j: int| 0 <= j < k + 1 implies find_link(
                    files,
                    (#[trigger] updates[j]).0,
                ) is Some by {
                    if j > 0 {
                        assert(updates[j] == rest[j - 1]);
                    }
                }
            } else {
                assert forall|j: int| 0 <= j < updates.len() implies find_link(
                    files,
                    (#[trigger] updates[j]).0,
                ) is Some by {
                    if j > 0 {
                        assert(updates[j] == rest[j - 1]);
                    }
                }
            }
        }
    }
}

/// Where a link file is missing, the update stops before anything is written: all that it asked
/// for are the tree and the link files of the head.
pub proof fn missing_link_stops_update(
    args: UpdateArgs,
    tree: ObjectId,
    files: Seq<LinkFileModel>,
    path: Seq<u8>,
)
    requires
        first_missing(files, args.updates) == Some(path),
    ensures
        update_links_step(args, Seq::empty()) matches Expected::Ask { request } && request.action
            is ReadTree,
        update_links_step(args, seq![ReplyModel::Id(tree)]) matches Expected::Ask { request }
            && request.action is FindLinks,
        update_links_step(args, seq![ReplyModel::Id(tree), ReplyModel::Links(files)]) == (
        Expected::<Option<UpdateLinksResult>>::Fail {
            error: LinkErrorOf::LinkFileNotFound { path: shown(path) },
        }),
{
}

/// An update of no links changes nothing and writes nothing.
pub proof fn no_updates_change_nothing(
    args: UpdateArgs,
    tree: ObjectId,
    files: Seq<LinkFileModel>,
)
    requires
        args.updates.len() == 0,
    ensures
        update_links_step(args, seq![ReplyModel::Id(tree), ReplyModel::Links(files)]) == (
        Expected::Done { value: None::<UpdateLinksResult> }),
{
}

/// An update that is done gives no commit exactly where the tree is that of the head. Otherwise
/// the new commit is a child of the head with the new tree, and the other commit is what `:link`
/// makes of the new one.
pub proof fn update_commits_exactly_what_changed(args: UpdateArgs, replies: Seq<ReplyModel>)
    requires
        update_links_step(args, replies) is Done,
        forall|i: int|
            0 <= i < replies.len() ==> #[trigger] update_links_step(args, replies.take(i)) is Ask,
    ensures
        ({
            let n = args.updates.len() as int;
            let tree = tree_after(replies, n);
            match update_links_step(args, replies)->value {
                None => replies.len() == 2 * n + 2 && tree == replies[0]->Id_0,
                Some(result) => {
                    &&& replies.len() == 2 * n + 4
                    &&& tree != replies[0]->Id_0
                    &&& update_links_step(args, replies.take(2 * n + 2)) == (Expected::<
                        Option<UpdateLinksResult>,
                    >::Ask {
                        request: asks(
                            ActionOf::WriteCommit {
                                tree,
                                parent: args.head,
                                signature: args.signature,
                                message: update_message(args.updates),
                            },
                            "Failed to create commit"@,
                        ),
                    })
                    &&& replies[2 * n + 2] == ReplyModel::Id(result.commit_with_updates)
                    &&& update_links_step(args, replies.take(2 * n + 3)) == (Expected::<
                        Option<UpdateLinksResult>,
                    >::Ask {
                        request: asks(
                            ActionOf::FilterCommit {
                                filter: link_filter(),
                                commit: result.commit_with_updates,
                            },
                            "Failed to apply :link filter"@,
                        ),
                    })
                    &&& replies[2 * n + 3] == ReplyModel::Id(result.filtered_commit)
                },
            }
        }),
{
    let n = args.updates.len() as int;
    let before = replies.take(2 * n + 2);
    if replies.len() > 2 * n + 2 {
        assert(update_links_step(args, before) is Ask);
        assert(before.len() - 2 == 2 * n);
        assert(before[0] == replies[0]);
        assert(tree_after(before, n) == tree_after(replies, n));
        if replies.len() > 2 * n + 3 {
            let wrote = replies.take(2 * n + 3);
            assert(update_links_step(args, wrote) is Ask);
            assert(wrote.last() == replies[2 * n + 2]);
            if replies.len() > 2 * n + 4 {
                let all = replies.take(2 * n + 4);
                assert(update_links_step(args, all) is Ask);
            }
            assert(replies.last() == replies[2 * n + 3]);
        }
    }
}

/// To move a link changes what it records under the commit, and nothing else; the new commit reads
/// back as the one that it was moved to.
pub proof fn moved_link_keeps_the_rest(
    link: LinkFileModel,
    commit: ObjectId,
    key: MetaKey,
    recorded: Recorded,
)
    ensures
        value_under(repinned(link, commit), key, recorded) == if key == MetaKey::Commit {
            Some(commit.hex())
        } else {
            recorded(link.filter, key)
        },
        hex_reading(commit.hex()) == Ok::<ObjectId, HexError>(commit),
{
    reveal_with_fuel(value_under, 3);
    hex_reads_back(commit);
}

} // verus!
