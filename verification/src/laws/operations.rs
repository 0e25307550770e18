//! What each operation asks for and gives, in the words of the repository.
//!
//! The laws of this file name the actions themselves, with their texts, so that they say what an
//! operation does without a look at how it is put together.

use crate::add::{
    commit_add_step, prepare_add_step, AddArgs, CommitArgs, PreparedLinkAddModel,
};
use crate::collect::{collect_step, collected_are_those_named, named_at, refs_after};
use crate::error::LinkErrorOf;
use crate::export::{export_step, ExportArgs};
use crate::filter::{FilterModel, FilterOf, MetaKey};
use crate::laws::words::{built_in, given, given_inverse, said, unsaid};
use crate::link::{
    find_link, first_link_is_found, LinkFileModel, LinkRefModel, MaterializedLinkUpdateResult,
    PreparedLinkPushModel, SignatureModel, UpdateLinksResult,
};
use crate::materialize::update_materialized_step;
use crate::oid::{reading_is_found, reads_as, HexError, ObjectId};
use crate::path::{
    after_first_name, before_last_name, ends_are_kept, first_name_len, first_name_len_bounds, names,
    root_is_stripped, same_place, shown, without_idle_back, without_idle_front, without_root, DOT,
};
use crate::push::push_step;
use crate::signature::signature_step;
use crate::step::{ActionOf, Expected, ReplyModel};
use crate::text::{signed_value, trimmed, without_leading_slashes, without_trailing_slashes};
use crate::update::{first_missing, missing_link_is_named, update_links_step, UpdateArgs};
use vstd::prelude::*;
use vstd::utf8::*;

verus! {

/// Without a fixed time the repository is asked who signs, and that is the signature.
pub proof fn repository_signs(signature: SignatureModel)
    ensures
        signature_step(None, Seq::empty()) == (Expected::<SignatureModel>::Ask {
            request: said(ActionOf::ReadSignature, "Failed to get signature"@),
        }),
        signature_step(None, seq![ReplyModel::Signature(signature)]) == (Expected::Done {
            value: signature,
        }),
{
}

/// With a fixed time the signature is that of josh at that time, and nothing is asked; a time that
/// is no number is refused.
pub proof fn josh_signs_at_fixed_time(time: Seq<char>, replies: Seq<ReplyModel>)
    ensures
        match signed_value(time) {
            Some(seconds) => signature_step(Some(time), replies) == (Expected::Done {
                value: SignatureModel {
                    name: encode_utf8("JOSH"@),
                    email: encode_utf8("josh@josh-project.dev"@),
                    seconds,
                    offset: 0,
                },
            }),
            None => signature_step(Some(time), replies) == (Expected::<SignatureModel>::Fail {
                error: LinkErrorOf::InvalidCommitTime,
            }),
        },
{
}

/// Whether `s` consists of slashes.
pub open spec fn is_slashes(s: Seq<char>) -> bool {
    forall|i: int| 0 <= i < s.len() ==> s[i] == '/'
}

/// Whether `s` is not empty, and has a slash at neither end.
pub open spec fn is_bare(s: Seq<char>) -> bool {
    s.len() > 0 && s[0] != '/' && s[s.len() - 1] != '/'
}

/// What is left of a name between slashes is the name; of slashes alone nothing is left.
pub proof fn slashes_around_are_trimmed(before: Seq<char>, name: Seq<char>, after: Seq<char>)
    requires
        is_slashes(before),
        is_slashes(after),
    ensures
        is_bare(name) ==> trimmed(before + name + after) == name,
        trimmed(before) == Seq::<char>::empty(),
    decreases before.len() + after.len(),
{
    let s = before + name + after;
    if before.len() > 0 {
        let rest = before.drop_first();
        assert(s.drop_first() =~= rest + name + after);
        assert(s.first() == '/');
        assert forall|i: int| 0 <= i < rest.len() implies rest[i] == '/' by {
            assert(rest[i] == before[i + 1]);
        }
        slashes_around_are_trimmed(rest, name, after);
    } else if is_bare(name) {
        assert(s =~= name + after);
        assert(s.first() == name[0]);
        assert(without_leading_slashes(s) == s);
        slashes_behind_are_trimmed(name, after);
    }
}

proof fn slashes_behind_are_trimmed(name: Seq<char>, after: Seq<char>)
    requires
        is_slashes(after),
        is_bare(name),
    ensures
        without_trailing_slashes(name + after) == name,
    decreases after.len(),
{
    let s = name + after;
    if after.len() > 0 {
        let front = after.drop_last();
        assert(s.last() == after[after.len() - 1]);
        assert(s.drop_last() =~= name + front);
        assert forall|i: int| 0 <= i < front.len() implies front[i] == '/' by {
            assert(front[i] == after[i]);
        }
        slashes_behind_are_trimmed(name, front);
    } else {
        assert(s =~= name);
        assert(s.last() == name[name.len() - 1]);
    }
}

/// An export takes the directory that is named between slashes, as an export, and sends it through
/// the inverse of the filter. Its result is the commit that comes of that, and nothing where that
/// is the null commit.
pub proof fn directory_is_exported(
    head: ObjectId,
    before: Seq<char>,
    name: Seq<char>,
    after: Seq<char>,
    filter: Seq<char>,
    exported: ObjectId,
)
    requires
        is_slashes(before),
        is_slashes(after),
        is_bare(name),
    ensures
        ({
            let args = ExportArgs { head, path: encode_utf8(before + name + after), filter };
            &&& export_step(args, Seq::empty()) == (Expected::<Option<ObjectId>>::Ask {
                request: said(
                    ActionOf::FilterCommit {
                        filter: FilterOf::Chain {
                            first: Box::new(
                                FilterOf::Export {
                                    base: Box::new(
                                        FilterOf::Subdir {
                                            base: Box::new(FilterOf::Identity),
                                            path: encode_utf8(name),
                                        },
                                    ),
                                },
                            ),
                            second: Box::new(given_inverse(filter)),
                        },
                        commit: head,
                    },
                    "Failed to export existing link contents"@,
                ),
            })
            &&& export_step(args, seq![ReplyModel::Id(exported)]) == (Expected::Done {
                value: if forall|i: int| 0 <= i < 20 ==> exported.bytes@[i] == 0 {
                    None
                } else {
                    Some(exported)
                },
            })
        }),
{
    let text = before + name + after;
    slashes_around_are_trimmed(before, name, after);
    encode_utf8_decode_utf8(text);
    encode_utf8_valid_utf8(text);
}

/// Where the path is no text, or has nothing but slashes, nothing is exported or pushed.
pub proof fn path_without_name_is_refused(
    head: ObjectId,
    path: Seq<u8>,
    filter: Seq<char>,
    slashes: Seq<char>,
    replies: Seq<ReplyModel>,
)
    requires
        is_slashes(slashes),
    ensures
        !valid_utf8(path) ==> export_step(ExportArgs { head, path, filter }, replies) == (
        Expected::<Option<ObjectId>>::Fail { error: LinkErrorOf::NotText { path: shown(path) } }),
        !valid_utf8(path) ==> push_step(head, path, replies) == (Expected::<
            PreparedLinkPushModel,
        >::Fail { error: LinkErrorOf::NotText { path: shown(path) } }),
        export_step(ExportArgs { head, path: encode_utf8(slashes), filter }, replies) == (
        Expected::<Option<ObjectId>>::Fail { error: LinkErrorOf::EmptyPath }),
        push_step(head, encode_utf8(slashes), replies) == (Expected::<
            PreparedLinkPushModel,
        >::Fail { error: LinkErrorOf::EmptyPath }),
{
    slashes_around_are_trimmed(slashes, Seq::empty(), Seq::empty());
    encode_utf8_decode_utf8(slashes);
    encode_utf8_valid_utf8(slashes);
}

/// Whether `path` has no slash and no lone dot at either end.
pub open spec fn is_tidy(path: Seq<u8>) -> bool {
    let n = path.len() as int;
    &&& n > 0
    &&& path[0] != 0x2f
    &&& path[n - 1] != 0x2f
    &&& !(path[0] == 0x2e && (n == 1 || path[1] == 0x2f))
    &&& !(path[n - 1] == 0x2e && (n == 1 || path[n - 2] == 0x2f))
}

/// Whether `s` consists of slashes.
pub open spec fn is_row_of_slashes(s: Seq<u8>) -> bool {
    forall|i: int| 0 <= i < s.len() ==> s[i] == 0x2f
}

proof fn slashes_in_front_are_idle(before: Seq<u8>, path: Seq<u8>, after: Seq<u8>)
    requires
        is_row_of_slashes(before),
        is_tidy(path),
    ensures
        without_idle_front(before + path + after) == path + after,
    decreases before.len(),
{
    let s = before + path + after;
    let n = first_name_len(s);
    first_name_len_bounds(s);
    if before.len() > 0 {
        assert(s[0] == 0x2f);
        let rest = before.drop_first();
        assert forall|i: int| 0 <= i < rest.len() implies rest[i] == 0x2f by {
            assert(rest[i] == before[i + 1]);
        }
        assert(after_first_name(s) =~= rest + path + after);
        slashes_in_front_are_idle(rest, path, after);
    } else {
        let dot = seq![DOT];
        assert(s =~= path + after);
        assert(dot.len() == 1);
        assert(s[0] == path[0]);
        assert(s.take(n)[0] == s[0]);
        assert(s.take(n).len() == n);
        if n == 1 && path.len() > 1 {
            assert(s[1] == path[1]);
        }
    }
}

proof fn slashes_behind_are_idle(path: Seq<u8>, after: Seq<u8>)
    requires
        is_row_of_slashes(after),
        is_tidy(path),
    ensures
        without_idle_back(path + after) == path,
    decreases after.len(),
{
    let s = path + after;
    if after.len() > 0 {
        assert(s.last() == 0x2f);
        let front = after.drop_last();
        assert forall|i: int| 0 <= i < front.len() implies front[i] == 0x2f by {
            assert(front[i] == after[i]);
        }
        assert(before_last_name(s) =~= path + front);
        slashes_behind_are_idle(path, front);
    } else {
        let none = Seq::<u8>::empty();
        assert(s =~= path);
        assert(none + path + none =~= path);
        assert(path + none =~= path);
        slashes_in_front_are_idle(none, path, none);
        ends_are_kept(path);
    }
}

/// A tidy path behind slashes, with or without slashes behind it, is that path, taken from the
/// root; a path without a leading slash is taken as it is.
pub proof fn slashes_around_path_are_dropped(before: Seq<u8>, path: Seq<u8>, after: Seq<u8>)
    requires
        is_row_of_slashes(before),
        is_row_of_slashes(after),
    ensures
        before.len() > 0 && is_tidy(path) ==> without_root(before + path + after) == path,
        path.len() == 0 || path[0] != 0x2f ==> without_root(path) == path,
{
    if before.len() > 0 && is_tidy(path) {
        let rest = before.drop_first();
        assert forall|i: int| 0 <= i < rest.len() implies rest[i] == 0x2f by {
            assert(rest[i] == before[i + 1]);
        }
        assert((before + path + after)[0] == before[0]);
        assert((before + path + after).drop_first() =~= rest + path + after);
        slashes_in_front_are_idle(rest, path, after);
        slashes_behind_are_idle(path, after);
    }
}

/// The path of the link file of a directory.
pub open spec fn in_directory(dir: Seq<u8>) -> Seq<u8> {
    if dir.len() == 0 || dir[dir.len() - 1] == 0x2f {
        dir + encode_utf8(".link.josh"@)
    } else {
        dir + seq![0x2fu8] + encode_utf8(".link.josh"@)
    }
}

/// `base` with `value` recorded under `key`.
pub open spec fn under(base: FilterModel, key: MetaKey, value: Seq<char>) -> FilterModel {
    FilterOf::Meta { base: Box::new(base), key, value }
}

/// Whether an addition records the link at `path`: it stores the filter of the link, moved to the
/// path, with the remote, the branch, the commit and the mode, and where they are given with the
/// remote and the branch to push to. It puts that into the directory, and gives the tree that comes
/// of that.
pub open spec fn records_link_at(
    args: AddArgs,
    path: Seq<u8>,
    blob: ObjectId,
    tree: ObjectId,
) -> bool {
    let text = match args.filter {
        Some(text) => text,
        None => ":/"@,
    };
    let moved = FilterOf::Prefix { base: Box::new(given(text)), path };
    let from = under(under(moved, MetaKey::Remote, args.url), MetaKey::Target, args.target);
    let pinned = under(
        under(from, MetaKey::Commit, args.fetched_commit.hex()),
        MetaKey::Mode,
        args.mode,
    );
    let pushed = match args.push_url {
        Some(url) => under(pinned, MetaKey::Push, url),
        None => pinned,
    };
    let filter = match args.push_target {
        Some(target) => under(pushed, MetaKey::PushTarget, target),
        None => pushed,
    };
    &&& prepare_add_step(args, Seq::empty()) == (Expected::<PreparedLinkAddModel>::Ask {
        request: unsaid(ActionOf::WriteFilter { filter }),
    })
    &&& prepare_add_step(args, seq![ReplyModel::Id(blob)]) == (Expected::<
        PreparedLinkAddModel,
    >::Ask {
        request: said(
            ActionOf::InsertBlob {
                tree: args.head_tree,
                path: in_directory(path),
                blob,
                mode: 0o100644,
            },
            "Failed to insert link file into tree"@,
        ),
    })
    &&& prepare_add_step(args, seq![ReplyModel::Id(blob), ReplyModel::Id(tree)]) == (
    Expected::Done { value: PreparedLinkAddModel { tree_oid: tree, path } })
}

/// A link with a path that does not start at the root is recorded at that path. One with a tidy
/// path behind slashes, with or without slashes behind it, is recorded at the tidy path.
pub proof fn link_is_recorded(
    args: AddArgs,
    before: Seq<u8>,
    path: Seq<u8>,
    after: Seq<u8>,
    blob: ObjectId,
    tree: ObjectId,
)
    requires
        is_row_of_slashes(before),
        is_row_of_slashes(after),
        args.path == path && (path.len() == 0 || path[0] != 0x2f) || args.path == before + path
            + after && before.len() > 0 && is_tidy(path),
    ensures
        records_link_at(args, path, blob, tree),
{
    slashes_around_path_are_dropped(before, path, after);
    assert(path.push(0x2f) =~= path + seq![0x2fu8]);
}

/// However its path is written, a link is recorded at a path that does not start at the root, and
/// that leads through the names of the given one.
pub proof fn link_is_recorded_under_its_names(args: AddArgs, blob: ObjectId, tree: ObjectId)
    ensures
        exists|path: Seq<u8>|
            !(path.len() > 0 && path[0] == 0x2f) && names(path) == names(args.path)
                && #[trigger] records_link_at(args, path, blob, tree),
{
    let path = without_root(args.path);
    if args.path.len() > 0 && args.path[0] == 0x2f {
        root_is_stripped(args.path);
    }
    assert(path.push(0x2f) =~= path + seq![0x2fu8]);
    assert(records_link_at(args, path, blob, tree));
}

/// The commit of an addition has the tree of the addition and the head as its parent, and names the
/// path of the link.
pub proof fn addition_is_committed(args: CommitArgs, commit: ObjectId)
    ensures
        commit_add_step(args, Seq::empty()) == (Expected::<ObjectId>::Ask {
            request: said(
                ActionOf::WriteCommit {
                    tree: args.added.tree_oid,
                    parent: args.head,
                    signature: args.signature,
                    message: "Add link: "@ + shown(args.added.path),
                },
                "Failed to create commit"@,
            ),
        }),
        commit_add_step(args, seq![ReplyModel::Id(commit)]) == (Expected::Done { value: commit }),
{
}

/// Whether the link file number `j` of `files` is the first at `path`.
pub open spec fn is_first_at(files: Seq<LinkFileModel>, path: Seq<u8>, j: int) -> bool {
    &&& 0 <= j < files.len()
    &&& same_place(files[j].path, path)
    &&& forall|l: int| 0 <= l < j ==> !same_place(#[trigger] files[l].path, path)
}

proof fn first_is_found(files: Seq<LinkFileModel>, path: Seq<u8>, j: int)
    requires
        is_first_at(files, path, j),
    ensures
        find_link(files, path) == Some(files[j]),
{
    first_link_is_found(files, path);
    if let Some(link) = find_link(files, path) {
        let i = choose|i: int|
            0 <= i < files.len() && #[trigger] files[i] == link && same_place(link.path, path)
                && forall|l: int| 0 <= l < i ==> !same_place(#[trigger] files[l].path, path);
        if i < j {
            assert(!same_place(files[i].path, path));
        }
        if j < i {
            assert(!same_place(files[j].path, path));
        }
    } else {
        assert(!same_place(files[j].path, path));
    }
}

/// An update asks for the tree of the head, and then for the link files of that.
pub proof fn update_reads_head(args: UpdateArgs, tree: ObjectId)
    ensures
        update_links_step(args, Seq::empty()) == (Expected::<Option<UpdateLinksResult>>::Ask {
            request: said(ActionOf::ReadTree { commit: args.head }, "Failed to get HEAD tree"@),
        }),
        update_links_step(args, seq![ReplyModel::Id(tree)]) == (Expected::<
            Option<UpdateLinksResult>,
        >::Ask { request: said(ActionOf::FindLinks { tree }, "Failed to find link files"@) }),
{
}

/// Whether `replies` are the tree of the head, its link files, and objects behind them.
pub open spec fn are_update_replies(replies: Seq<ReplyModel>) -> bool {
    &&& replies.len() >= 2
    &&& replies[0] is Id
    &&& replies[1] is Links
    &&& forall|k: int| 2 <= k < replies.len() ==> #[trigger] replies[k] is Id
}

/// Whether `at` says of each of `updates` which link file is the first at its path.
pub open spec fn are_first_links(
    files: Seq<LinkFileModel>,
    updates: Seq<(Seq<u8>, ObjectId)>,
    at: Seq<int>,
) -> bool {
    &&& at.len() == updates.len()
    &&& forall|i: int|
        0 <= i < updates.len() ==> is_first_at(files, (#[trigger] updates[i]).0, at[i])
}

proof fn first_links_are_not_missing(
    files: Seq<LinkFileModel>,
    updates: Seq<(Seq<u8>, ObjectId)>,
    at: Seq<int>,
)
    requires
        are_first_links(files, updates, at),
    ensures
        first_missing(files, updates) is None,
{
    missing_link_is_named(files, updates);
    if let Some(path) = first_missing(files, updates) {
        let i = choose|i: int|
            0 <= i < updates.len() && (#[trigger] updates[i]).0 == path && find_link(
                files,
                path,
            ) is None && forall|j: int|
                0 <= j < i ==> find_link(files, (#[trigger] updates[j]).0) is Some;
        first_is_found(files, updates[i].0, at[i]);
    }
}

/// For each link, one after the other, an update stores the filter of the first link file at its
/// path with the new commit, and puts that in place of the link file, in the tree that holds those
/// before. Behind the last it commits the tree on top of the head, unless that is the tree of the
/// head, and brings in the content of all links.
pub proof fn every_link_is_stored_and_placed(
    args: UpdateArgs,
    replies: Seq<ReplyModel>,
    at: Seq<int>,
)
    requires
        are_update_replies(replies),
        are_first_links(replies[1]->Links_0, args.updates, at),
    ensures
        ({
            let n = args.updates.len() as int;
            let files = replies[1]->Links_0;
            let last = replies[replies.len() - 1]->Id_0;
            let head_tree = replies[0]->Id_0;
            let new_tree = if n == 0 {
                head_tree
            } else {
                replies[2 * n + 1]->Id_0
            };
            let asked = update_links_step(args, replies);
            &&& forall|i: int|
                0 <= i < n && replies.len() == 2 * i + 2 ==> asked == (Expected::<
                    Option<UpdateLinksResult>,
                >::Ask {
                    request: unsaid(
                        ActionOf::WriteFilter {
                            filter: under(
                                FilterOf::Recorded(files[#[trigger] at[i]].filter),
                                MetaKey::Commit,
                                args.updates[i].1.hex(),
                            ),
                        },
                    ),
                })
            &&& forall|i: int|
                0 <= i < n && replies.len() == 2 * i + 3 ==> asked == (Expected::<
                    Option<UpdateLinksResult>,
                >::Ask {
                    request: said(
                        ActionOf::InsertBlob {
                            tree: if i == 0 {
                                head_tree
                            } else {
                                replies[2 * i + 1]->Id_0
                            },
                            path: in_directory((#[trigger] args.updates[i]).0),
                            blob: last,
                            mode: 0o100644,
                        },
                        "Failed to insert link file into tree at path '"@ + shown(
                            args.updates[i].0,
                        ) + "'"@,
                    ),
                })
            &&& replies.len() == 2 * n + 2 && new_tree == head_tree ==> asked == (Expected::Done {
                value: None::<UpdateLinksResult>,
            })
            &&& replies.len() == 2 * n + 2 && new_tree != head_tree ==> (asked matches
                Expected::Ask { request } && request.action matches ActionOf::WriteCommit {
                tree,
                parent,
                signature,
                message,
            } && tree == new_tree && parent == args.head && signature == args.signature
                && request.context == Some("Failed to create commit"@) && request.within is None)
            &&& replies.len() == 2 * n + 3 ==> asked == (Expected::<
                Option<UpdateLinksResult>,
            >::Ask {
                request: said(
                    ActionOf::FilterCommit {
                        filter: built_in(":link"@, "Failed to parse :link filter"@),
                        commit: last,
                    },
                    "Failed to apply :link filter"@,
                ),
            })
            &&& replies.len() == 2 * n + 4 ==> asked == (Expected::Done {
                value: Some(
                    UpdateLinksResult {
                        commit_with_updates: replies[2 * n + 2]->Id_0,
                        filtered_commit: last,
                    },
                ),
            })
        }),
{
    let n = args.updates.len() as int;
    let files = replies[1]->Links_0;
    first_links_are_not_missing(files, args.updates, at);
    assert forall|i: int| 0 <= i < n implies find_link(files, (#[trigger] args.updates[i]).0)
        == Some(files[at[i]]) by {
        first_is_found(files, args.updates[i].0, at[i]);
    }
    assert forall|i: int|
        0 <= i < n && (replies.len() == 2 * i + 2 || replies.len() == 2 * i + 3) implies (
    replies.len() - 2) / 2 == i && (#[trigger] args.updates[i]).0.push(0x2f)
        =~= args.updates[i].0 + seq![0x2fu8] by {}
    if replies.len() > 2 {
        assert(replies[replies.len() - 1] is Id);
    }
    assert forall|i: int| 0 <= i < n && replies.len() == 2 * i + 2 implies find_link(
        files,
        args.updates[i].0,
    ) == Some(files[#[trigger] at[i]]) by {
        assert(find_link(files, args.updates[i].0) == Some(files[at[i]]));
    }
}

/// An update names a path at which there is no link file, the first of several, and stops.
pub proof fn update_without_link_is_refused(
    args: UpdateArgs,
    tree: ObjectId,
    files: Seq<LinkFileModel>,
    i: int,
)
    requires
        0 <= i < args.updates.len(),
        forall|l: int| 0 <= l < files.len() ==> !same_place(files[l].path, args.updates[i].0),
        forall|j: int|
            0 <= j < i ==> exists|l: int|
                0 <= l < files.len() && same_place(
                    files[l].path,
                    (#[trigger] args.updates[j]).0,
                ),
    ensures
        update_links_step(args, seq![ReplyModel::Id(tree), ReplyModel::Links(files)]) == (
        Expected::<Option<UpdateLinksResult>>::Fail {
            error: LinkErrorOf::LinkFileNotFound { path: shown(args.updates[i].0) },
        }),
{
    let updates = args.updates;
    missing_link_is_named(files, updates);
    first_link_is_found(files, updates[i].0);
    assert forall|j: int| 0 <= j < i implies find_link(
        files,
        (#[trigger] updates[j]).0,
    ) is Some by {
        first_link_is_found(files, updates[j].0);
    }
    let path = first_missing(files, updates)->0;
    let m = choose|m: int|
        0 <= m < updates.len() && (#[trigger] updates[m]).0 == path && find_link(
            files,
            path,
        ) is None && forall|j: int|
            0 <= j < m ==> find_link(files, (#[trigger] updates[j]).0) is Some;
    if m < i {
        assert(find_link(files, updates[m].0) is Some);
    }
    if i < m {
        assert(find_link(files, updates[i].0) is Some);
    }
}

/// The message of the commit that an update asks for after `replies`.
pub open spec fn message_of(args: UpdateArgs, replies: Seq<ReplyModel>) -> Seq<char> {
    update_links_step(args, replies)->request.action->message
}

/// The message of an update of one link names its path; each further link adds a comma and its
/// path. `fewer` are replies to the same update without the last link.
pub proof fn message_names_all_links(
    args: UpdateArgs,
    replies: Seq<ReplyModel>,
    at: Seq<int>,
    fewer: Seq<ReplyModel>,
)
    requires
        args.updates.len() > 0,
        are_update_replies(replies),
        are_first_links(replies[1]->Links_0, args.updates, at),
        replies.len() == 2 * args.updates.len() + 2,
        replies[replies.len() - 1] != replies[0],
        are_update_replies(fewer),
        fewer[1] == replies[1],
        fewer.len() == 2 * args.updates.len(),
        args.updates.len() > 1 ==> fewer[fewer.len() - 1] != fewer[0],
    ensures
        args.updates.len() == 1 ==> message_of(args, replies) == "Update links: "@ + shown(
            args.updates[0].0,
        ),
        args.updates.len() > 1 ==> message_of(args, replies) == message_of(
            UpdateArgs { updates: args.updates.drop_last(), ..args },
            fewer,
        ) + ", "@ + shown(args.updates[args.updates.len() - 1].0),
{
    let updates = args.updates;
    let files = replies[1]->Links_0;
    let n = updates.len() as int;
    let front = UpdateArgs { updates: updates.drop_last(), ..args };
    first_links_are_not_missing(files, updates, at);
    let shows = |u: (Seq<u8>, ObjectId)| shown(u.0);
    assert forall|i: int| 0 <= i < front.updates.len() implies is_first_at(
        files,
        (#[trigger] front.updates[i]).0,
        at.drop_last()[i],
    ) by {
        assert(front.updates[i] == updates[i]);
    }
    first_links_are_not_missing(files, front.updates, at.drop_last());
    assert(replies[replies.len() - 1] is Id);
    if n > 1 {
        assert(fewer[fewer.len() - 1] is Id);
        assert(updates.map_values(shows).drop_last() =~= front.updates.map_values(shows));
        assert(updates.map_values(shows).last() == shown(updates[n - 1].0));
        assert(message_of(args, replies) =~= message_of(front, fewer) + ", "@ + shown(
            updates[n - 1].0,
        ));
    } else {
        assert(updates.map_values(shows)[0] == shown(updates[0].0));
    }
}

/// An update of materialized links takes the linked content out first, whatever is to be updated,
/// and brings that of the links as they were back in. Then it does what an update of the links does
/// in the commit without the content, and gives its result next to what it replaces.
pub proof fn content_is_taken_out_first(
    args: UpdateArgs,
    canonical: ObjectId,
    previous: ObjectId,
    rest: Seq<ReplyModel>,
)
    ensures
        update_materialized_step(args, Seq::empty()) == (Expected::<
            Option<MaterializedLinkUpdateResult>,
        >::Ask {
            request: said(
                ActionOf::FilterCommit {
                    filter: built_in(":unlink"@, "Failed to parse :unlink filter"@),
                    commit: args.head,
                },
                "Failed to canonicalize materialized links"@,
            ),
        }),
        update_materialized_step(args, seq![ReplyModel::Id(canonical)]) == (Expected::<
            Option<MaterializedLinkUpdateResult>,
        >::Ask {
            request: said(
                ActionOf::FilterCommit {
                    filter: built_in(":link"@, "Failed to parse :link filter"@),
                    commit: canonical,
                },
                "Failed to materialize previous links"@,
            ),
        }),
        ({
            let inner = UpdateArgs {
                head: canonical,
                updates: args.updates,
                signature: args.signature,
            };
            update_materialized_step(
                args,
                seq![ReplyModel::Id(canonical), ReplyModel::Id(previous)] + rest,
            ) == match update_links_step(inner, rest) {
                Expected::Ask { request } => Expected::Ask { request },
                Expected::Fail { error } => Expected::Fail { error },
                Expected::Done { value: None } => Expected::Done { value: None },
                Expected::Done { value: Some(update) } => Expected::Done {
                    value: Some(
                        MaterializedLinkUpdateResult {
                            previous_materialized_commit: previous,
                            update,
                        },
                    ),
                },
            }
        }),
{
    let first = seq![ReplyModel::Id(canonical), ReplyModel::Id(previous)];
    let all = first + rest;
    assert(all.skip(2) =~= rest);
    assert(all[0] == first[0] && all[1] == first[1]);
    if rest.len() == 0 {
        assert(all =~= first);
    }
}

/// A collection keeps link files alone, ends with nothing where that leaves nothing, and otherwise
/// walks the history of what is left.
pub proof fn history_with_links_is_walked(commit: ObjectId, kept: ObjectId)
    ensures
        collect_step(commit, Seq::empty()) == (Expected::<Seq<LinkRefModel>>::Ask {
            request: said(
                ActionOf::FilterCommit {
                    filter: built_in(
                        "::**/.link.josh"@,
                        "Failed to parse .link.josh filter"@,
                    ),
                    commit,
                },
                "Failed to apply .link.josh filter"@,
            ),
        }),
        collect_step(commit, seq![ReplyModel::Id(kept)]) == if forall|i: int|
            0 <= i < 20 ==> kept.bytes@[i] == 0 {
            Expected::Done { value: Seq::<LinkRefModel>::empty() }
        } else {
            Expected::Ask {
                request: said(
                    ActionOf::WalkHistory {
                        from: kept,
                        start_context: "Failed to push commit to revwalk"@,
                    },
                    "Failed to walk history"@,
                ),
            }
        },
{
}

/// Whether `replies` are the commit with link files alone, its history, and for commits of that the
/// tree and its link files.
pub open spec fn are_collect_replies(replies: Seq<ReplyModel>) -> bool {
    &&& replies.len() >= 2
    &&& replies[0] is Id
    &&& replies[1] is Ids
    &&& forall|k: int|
        2 <= k < replies.len() ==> if k % 2 == 0 {
            #[trigger] replies[k] is Id
        } else {
            replies[k] is Links
        }
}

/// A collection looks into the tree of every commit of the history, one after the other, and is
/// done behind the last.
pub proof fn every_commit_is_looked_into(commit: ObjectId, replies: Seq<ReplyModel>)
    requires
        are_collect_replies(replies),
    ensures
        ({
            let history = replies[1]->Ids_0;
            let asked = collect_step(commit, replies);
            &&& forall|i: int|
                0 <= i < history.len() && replies.len() == 2 * i + 2 ==> asked == (Expected::<
                    Seq<LinkRefModel>,
                >::Ask {
                    request: said(
                        ActionOf::ReadTree { commit: #[trigger] history[i] },
                        "Failed to get commit tree"@,
                    ),
                })
            &&& replies.len() % 2 == 1 ==> asked == (Expected::<Seq<LinkRefModel>>::Ask {
                request: said(
                    ActionOf::FindLinks { tree: replies[replies.len() - 1]->Id_0 },
                    "Failed to find link files"@,
                ),
            })
            &&& replies.len() == 2 * history.len() + 2 ==> asked is Done
        }),
{
    let last = replies.len() - 1;
    if replies.len() > 2 {
        assert(if last % 2 == 0 {
            replies[last] is Id
        } else {
            replies[last] is Links
        });
    }
}

/// A collection finds each pair of a remote and a commit that some link file of some commit names,
/// once, and nothing else.
pub proof fn named_pairs_are_found(
    commit: ObjectId,
    replies: Seq<ReplyModel>,
    found: LinkRefModel,
)
    requires
        are_collect_replies(replies),
        replies.len() == 2 * replies[1]->Ids_0.len() + 2,
    ensures
        collect_step(commit, replies) matches Expected::Done { value: refs } && {
            &&& forall|i: int, j: int| 0 <= i < j < refs.len() ==> refs[i] != refs[j]
            &&& refs.contains(found) <==> exists|k: int, f: int|
                0 <= k < replies[1]->Ids_0.len() && 0 <= f < replies[2 * k + 3]->Links_0.len()
                    && (#[trigger] replies[2 * k + 3]->Links_0[f]).remote == Some(found.remote)
                    && replies[2 * k + 3]->Links_0[f].commit == Some(found.commit)
        },
{
    every_commit_is_looked_into(commit, replies);
    collected_are_those_named(commit, replies, found);
    let refs = collect_step(commit, replies)->value;
    let n = replies[1]->Ids_0.len();
    if refs.contains(found) {
        let (k, f) = choose|k: int, f: int|
            0 <= k < (replies.len() - 2) / 2 && #[trigger] named_at(
                replies,
                k,
                f,
                found,
            );
        let file = replies[2 * k + 3]->Links_0[f];
        assert(file.remote == Some(found.remote) && file.commit == Some(found.commit));
    }
    if exists|k: int, f: int|
        0 <= k < n && 0 <= f < replies[2 * k + 3]->Links_0.len() && (#[trigger] replies[2 * k
            + 3]->Links_0[f]).remote == Some(found.remote) && replies[2 * k + 3]->Links_0[f].commit
            == Some(found.commit) {
        let (k, f) = choose|k: int, f: int|
            0 <= k < n && 0 <= f < replies[2 * k + 3]->Links_0.len() && (#[trigger] replies[2 * k
                + 3]->Links_0[f]).remote == Some(found.remote) && replies[2 * k
                + 3]->Links_0[f].commit == Some(found.commit);
        assert(named_at(replies, k, f, found));
    }
}

/// The pairs come in the order in which the link files name them first: the last link file of the
/// last commit adds its pair at the end, unless that was found before, and a commit without link
/// files adds nothing.
pub proof fn last_file_adds_its_pair(
    commit: ObjectId,
    replies: Seq<ReplyModel>,
    files: Seq<LinkFileModel>,
)
    requires
        are_collect_replies(replies),
        replies[1]->Ids_0.len() > 0,
        replies.len() == 2 * replies[1]->Ids_0.len() + 2,
        replies[replies.len() - 1] == ReplyModel::Links(files),
    ensures
        ({
            let all = collect_step(commit, replies);
            let last = replies.len() - 1;
            let fewer_files = replies.update(last, ReplyModel::Links(files.drop_last()));
            let fewer_commits = replies.take(last - 1).update(
                1,
                ReplyModel::Ids(replies[1]->Ids_0.drop_last()),
            );
            let before = if files.len() > 0 {
                collect_step(commit, fewer_files)
            } else {
                collect_step(commit, fewer_commits)
            };
            &&& all is Done
            &&& before is Done
            &&& all->value == if files.len() > 0 && files.last().remote is Some
                && files.last().commit is Some {
                let found = LinkRefModel {
                    remote: files.last().remote->0,
                    commit: files.last().commit->0,
                };
                if before->value.contains(found) {
                    before->value
                } else {
                    before->value.push(found)
                }
            } else {
                before->value
            }
        }),
{
    let n = replies[1]->Ids_0.len() as int;
    let last = replies.len() - 1;
    every_commit_is_looked_into(commit, replies);
    if files.len() > 0 {
        let fewer = replies.update(last, ReplyModel::Links(files.drop_last()));
        assert forall|k: int| 2 <= k < fewer.len() implies if k % 2 == 0 {
            #[trigger] fewer[k] is Id
        } else {
            fewer[k] is Links
        } by {
            if k != last {
                assert(fewer[k] == replies[k]);
            }
        }
        every_commit_is_looked_into(commit, fewer);
        same_files_same_pairs(replies, fewer, n - 1);
    } else {
        let history = replies[1]->Ids_0.drop_last();
        let fewer = replies.take(last - 1).update(1, ReplyModel::Ids(history));
        assert forall|k: int| 2 <= k < fewer.len() implies if k % 2 == 0 {
            #[trigger] fewer[k] is Id
        } else {
            fewer[k] is Links
        } by {
            assert(fewer[k] == replies[k]);
        }
        every_commit_is_looked_into(commit, fewer);
        assert(files =~= Seq::empty());
        same_files_same_pairs(replies, fewer, n - 1);
    }
}

proof fn same_files_same_pairs(a: Seq<ReplyModel>, b: Seq<ReplyModel>, i: int)
    requires
        2 * i + 2 <= a.len(),
        2 * i + 2 <= b.len(),
        forall|k: int| 2 <= k < 2 * i + 2 ==> a[k] == b[k],
    ensures
        refs_after(a, i) == refs_after(b, i),
    decreases i,
{
    if i > 0 {
        same_files_same_pairs(a, b, i - 1);
    }
}

/// The preparation of a push finds the first link file at the path, filters the commit that it is
/// pinned to as the link does, isolates the content at the path without the link file, and reverses
/// the filter of the link from there. What it gives is what the link file records, and the commit
/// that came of the reversal.
pub proof fn pushed_content_is_reversed(
    head: ObjectId,
    before: Seq<char>,
    name: Seq<char>,
    after: Seq<char>,
    tree: ObjectId,
    files: Seq<LinkFileModel>,
    j: int,
    pin: ObjectId,
    filtered: ObjectId,
    local: ObjectId,
    exported: ObjectId,
)
    requires
        is_slashes(before),
        is_slashes(after),
        is_bare(name),
        is_first_at(files, encode_utf8(name), j),
        files[j].remote is Some,
        files[j].commit is Some,
        reads_as(files[j].commit->0, Ok(pin)),
    ensures
        ({
            let path = encode_utf8(before + name + after);
            let dir = encode_utf8(name);
            let found = seq![ReplyModel::Id(tree), ReplyModel::Links(files)];
            let source: FilterModel = FilterOf::Peel {
                base: Box::new(FilterOf::Recorded(files[j].filter)),
            };
            let inside: FilterModel = FilterOf::Subdir {
                base: Box::new(FilterOf::Identity),
                path: dir,
            };
            let link: FilterModel = FilterOf::File {
                base: Box::new(FilterOf::Identity),
                name: ".link.josh"@,
            };
            &&& push_step(head, path, Seq::empty()) == (Expected::<PreparedLinkPushModel>::Ask {
                request: said(
                    ActionOf::ReadTree { commit: head },
                    "Failed to get commit tree"@,
                ),
            })
            &&& push_step(head, path, seq![ReplyModel::Id(tree)]) == (Expected::<
                PreparedLinkPushModel,
            >::Ask { request: said(ActionOf::FindLinks { tree }, "Failed to find link files"@) })
            &&& push_step(head, path, found) == (Expected::<PreparedLinkPushModel>::Ask {
                request: said(
                    ActionOf::FilterCommit { filter: source, commit: pin },
                    "Failed to filter the pinned link commit"@,
                ),
            })
            &&& push_step(head, path, found + seq![ReplyModel::Id(filtered)]) == (Expected::<
                PreparedLinkPushModel,
            >::Ask {
                request: said(
                    ActionOf::FilterCommit {
                        filter: FilterOf::Prefix {
                            base: Box::new(
                                FilterOf::Exclude {
                                    base: Box::new(inside),
                                    other: Box::new(link),
                                },
                            ),
                            path: dir,
                        },
                        commit: head,
                    },
                    "Failed to isolate the local link history"@,
                ),
            })
            &&& push_step(
                head,
                path,
                found + seq![ReplyModel::Id(filtered), ReplyModel::Id(local)],
            ) == if forall|i: int| 0 <= i < 20 ==> local.bytes@[i] == 0 {
                Expected::<PreparedLinkPushModel>::Fail {
                    error: LinkErrorOf::NothingToPush { path: shown(path) },
                }
            } else {
                Expected::<PreparedLinkPushModel>::Ask {
                    request: said(
                        ActionOf::UnapplyFilter {
                            filter: source,
                            original: pin,
                            filtered,
                            changed: local,
                        },
                        "Failed to reverse the linked history"@,
                    ),
                }
            }
            &&& push_step(
                head,
                path,
                found + seq![
                    ReplyModel::Id(filtered),
                    ReplyModel::Id(local),
                    ReplyModel::Id(exported),
                ],
            ) == (Expected::Done {
                value: PreparedLinkPushModel {
                    remote: files[j].remote->0,
                    push_remote: files[j].push,
                    configured_target: match files[j].target {
                        Some(target) => target,
                        None => "HEAD"@,
                    },
                    configured_push_target: files[j].push_target,
                    exported_commit: exported,
                },
            })
        }),
{
    let text = before + name + after;
    slashes_around_are_trimmed(before, name, after);
    encode_utf8_decode_utf8(text);
    encode_utf8_valid_utf8(text);
    first_is_found(files, encode_utf8(name), j);
    reading_is_found(files[j].commit->0, Ok(pin));
    let found = seq![ReplyModel::Id(tree), ReplyModel::Links(files)];
    let three = found + seq![ReplyModel::Id(filtered)];
    let four = found + seq![ReplyModel::Id(filtered), ReplyModel::Id(local)];
    let five = found + seq![
        ReplyModel::Id(filtered),
        ReplyModel::Id(local),
        ReplyModel::Id(exported),
    ];
    assert(three[1] == found[1] && three.last() == ReplyModel::Id(filtered));
    assert(four[1] == found[1] && four[2] == ReplyModel::Id(filtered) && four[3]
        == ReplyModel::Id(local));
    assert(five[1] == found[1] && five[4] == ReplyModel::Id(exported));
}

/// A push is refused where there is no link at the path, where the link file names no remote or no
/// commit, in this order, or where the commit is no identifier.
pub proof fn link_that_cannot_be_pushed_is_refused(
    head: ObjectId,
    before: Seq<char>,
    name: Seq<char>,
    after: Seq<char>,
    tree: ObjectId,
    files: Seq<LinkFileModel>,
    j: int,
    cause: HexError,
)
    requires
        is_slashes(before),
        is_slashes(after),
        is_bare(name),
    ensures
        ({
            let path = encode_utf8(before + name + after);
            let found = seq![ReplyModel::Id(tree), ReplyModel::Links(files)];
            let result = push_step(head, path, found);
            &&& (forall|l: int|
                0 <= l < files.len() ==> !same_place(files[l].path, encode_utf8(name)))
                ==> result == (Expected::<PreparedLinkPushModel>::Fail {
                error: LinkErrorOf::NoLink { path: shown(path) },
            })
            &&& is_first_at(files, encode_utf8(name), j) ==> {
                &&& files[j].remote is None ==> result == (Expected::<
                    PreparedLinkPushModel,
                >::Fail { error: LinkErrorOf::MissingMeta { key: MetaKey::Remote } })
                &&& files[j].remote is Some && files[j].commit is None ==> result == (Expected::<
                    PreparedLinkPushModel,
                >::Fail { error: LinkErrorOf::MissingMeta { key: MetaKey::Commit } })
                &&& files[j].remote is Some && files[j].commit is Some && reads_as(
                    files[j].commit->0,
                    Err(cause),
                ) ==> result == (Expected::<PreparedLinkPushModel>::Fail {
                    error: LinkErrorOf::InvalidCommitId { cause },
                })
            }
        }),
{
    let text = before + name + after;
    slashes_around_are_trimmed(before, name, after);
    encode_utf8_decode_utf8(text);
    encode_utf8_valid_utf8(text);
    first_link_is_found(files, encode_utf8(name));
    if is_first_at(files, encode_utf8(name), j) {
        first_is_found(files, encode_utf8(name), j);
        if files[j].commit is Some && reads_as(files[j].commit->0, Err(cause)) {
            reading_is_found(files[j].commit->0, Err(cause));
        }
    }
}

} // verus!
