//! The records that the operations on links take and give.

use crate::oid::ObjectId;
use crate::path::{same_place, LinkPath};
use vstd::prelude::*;

verus! {

/// A link file that was found in a tree: where it is, which number its filter was given, and the
/// metadata that it records.
#[derive(Debug, PartialEq, Eq)]
pub struct LinkFile {
    /// The directory that the link file is in.
    pub path: LinkPath,
    /// The number by which the recorded filter is found again.
    pub filter: usize,
    /// What is recorded under [`crate::filter::MetaKey::Remote`].
    pub remote: Option<String>,
    /// What is recorded under [`crate::filter::MetaKey::Target`].
    pub target: Option<String>,
    /// What is recorded under [`crate::filter::MetaKey::Commit`].
    pub commit: Option<String>,
    /// What is recorded under [`crate::filter::MetaKey::Push`].
    pub push: Option<String>,
    /// What is recorded under [`crate::filter::MetaKey::PushTarget`].
    pub push_target: Option<String>,
}

/// The model of a [`LinkFile`].
pub struct LinkFileModel {
    pub path: Seq<u8>,
    pub filter: usize,
    pub remote: Option<Seq<char>>,
    pub target: Option<Seq<char>>,
    pub commit: Option<Seq<char>>,
    pub push: Option<Seq<char>>,
    pub push_target: Option<Seq<char>>,
}

impl DeepView for LinkFile {
    type V = LinkFileModel;

    open spec fn deep_view(&self) -> LinkFileModel {
        LinkFileModel {
            path: self.path.deep_view(),
            filter: self.filter,
            remote: self.remote.deep_view(),
            target: self.target.deep_view(),
            commit: self.commit.deep_view(),
            push: self.push.deep_view(),
            push_target: self.push_target.deep_view(),
        }
    }
}

/// The first link file that is at `path`.
pub open spec fn find_link(files: Seq<LinkFileModel>, path: Seq<u8>) -> Option<LinkFileModel>
    decreases files.len(),
{
    if files.len() == 0 {
        None
    } else if same_place(files.first().path, path) {
        Some(files.first())
    } else {
        find_link(files.drop_first(), path)
    }
}

/// Finds the first link file that is at `path`.
pub fn position_of_link(files: &Vec<LinkFile>, path: &LinkPath) -> (r: Option<usize>)
    ensures
        match r {
            Some(i) => i < files@.len() && find_link(files.deep_view(), path.deep_view()) == Some(
                files@[i as int].deep_view(),
            ),
            None => find_link(files.deep_view(), path.deep_view()) is None,
        },
{
    let ghost all = files.deep_view();
    let mut i: usize = 0;
    assert(all.skip(0) =~= all);
    while i < files.len()
        invariant
            i <= files@.len(),
            all == files.deep_view(),
            find_link(all, path.deep_view()) == find_link(all.skip(i as int), path.deep_view()),
        decreases files@.len() - i,
    {
        assert(all.skip(i as int).first() == files@[i as int].deep_view());
        if files[i].path.leads_to_same_place(path) {
            return Some(i);
        }
        assert(all.skip(i as int).drop_first() =~= all.skip(i + 1));
        i = i + 1;
    }
    None
}

/// A remote URL and commit SHA found in a `.link.josh` file.
#[derive(Debug, PartialEq, Eq, Hash)]
pub struct LinkRef {
    pub remote: String,
    pub commit: String,
}

/// The model of a [`LinkRef`].
pub struct LinkRefModel {
    pub remote: Seq<char>,
    pub commit: Seq<char>,
}

impl DeepView for LinkRef {
    type V = LinkRefModel;

    open spec fn deep_view(&self) -> LinkRefModel {
        LinkRefModel { remote: self.remote@, commit: self.commit@ }
    }
}

impl Clone for LinkRef {
    fn clone(&self) -> (r: LinkRef)
        ensures
            r == *self,
    {
        LinkRef { remote: self.remote.clone(), commit: self.commit.clone() }
    }
}

/// Who signs a commit, and when.
#[derive(Debug, PartialEq, Eq)]
pub struct Signature {
    pub name: Vec<u8>,
    pub email: Vec<u8>,
    /// Seconds since the start of 1970, UTC.
    pub seconds: i64,
    /// Offset from UTC, in seconds.
    pub offset: i32,
}

/// The model of a [`Signature`].
pub struct SignatureModel {
    pub name: Seq<u8>,
    pub email: Seq<u8>,
    pub seconds: i64,
    pub offset: i32,
}

impl DeepView for Signature {
    type V = SignatureModel;

    open spec fn deep_view(&self) -> SignatureModel {
        SignatureModel {
            name: self.name@,
            email: self.email@,
            seconds: self.seconds,
            offset: self.offset,
        }
    }
}

impl Clone for Signature {
    fn clone(&self) -> (r: Signature)
        ensures
            r.deep_view() == self.deep_view(),
    {
        let r = Signature {
            name: self.name.clone(),
            email: self.email.clone(),
            seconds: self.seconds,
            offset: self.offset,
        };
        assert(r.name@ =~= self.name@);
        assert(r.email@ =~= self.email@);
        r
    }
}

/// Result from updating links
#[derive(Clone, Copy, Debug, PartialEq, Eq)]
pub struct UpdateLinksResult {
    /// Commit with updated .link.josh files
    pub commit_with_updates: ObjectId,
    /// Commit after applying :link filter
    pub filtered_commit: ObjectId,
}

impl DeepView for UpdateLinksResult {
    type V = UpdateLinksResult;

    open spec fn deep_view(&self) -> UpdateLinksResult {
        *self
    }
}

/// An updated materialized link tree and the clean tree it replaces.
///
/// Callers can use the previous materialization as the merge base when preserving local
/// modifications on top of a newer linked snapshot.
#[derive(Clone, Copy, Debug, PartialEq, Eq)]
pub struct MaterializedLinkUpdateResult {
    /// Commit produced by materializing the original link markers.
    pub previous_materialized_commit: ObjectId,
    /// Marker and materialized commits for the updated links.
    pub update: UpdateLinksResult,
}

impl DeepView for MaterializedLinkUpdateResult {
    type V = MaterializedLinkUpdateResult;

    open spec fn deep_view(&self) -> MaterializedLinkUpdateResult {
        *self
    }
}

/// A link export ready to push to its own remote.
#[derive(Debug, PartialEq, Eq)]
pub struct PreparedLinkPush {
    pub remote: String,
    pub push_remote: Option<String>,
    pub configured_target: String,
    pub configured_push_target: Option<String>,
    pub exported_commit: ObjectId,
}

/// The model of a [`PreparedLinkPush`].
pub struct PreparedLinkPushModel {
    pub remote: Seq<char>,
    pub push_remote: Option<Seq<char>>,
    pub configured_target: Seq<char>,
    pub configured_push_target: Option<Seq<char>>,
    pub exported_commit: ObjectId,
}

impl DeepView for PreparedLinkPush {
    type V = PreparedLinkPushModel;

    open spec fn deep_view(&self) -> PreparedLinkPushModel {
        PreparedLinkPushModel {
            remote: self.remote@,
            push_remote: self.push_remote.deep_view(),
            configured_target: self.configured_target@,
            configured_push_target: self.configured_push_target.deep_view(),
            exported_commit: self.exported_commit,
        }
    }
}

impl Clone for PreparedLinkPush {
    fn clone(&self) -> (r: PreparedLinkPush)
        ensures
            r.deep_view() == self.deep_view(),
    {
        PreparedLinkPush {
            remote: self.remote.clone(),
            push_remote: self.push_remote.clone(),
            configured_target: self.configured_target.clone(),
            configured_push_target: self.configured_push_target.clone(),
            exported_commit: self.exported_commit,
        }
    }
}

/// The link that is found at a path is the first of those that are there; none is found where none
/// is there.
pub proof fn first_link_is_found(files: Seq<LinkFileModel>, path: Seq<u8>)
    ensures
        match find_link(files, path) {
            Some(link) => exists|i: int|
                0 <= i < files.len() && #[trigger] files[i] == link && same_place(
                    link.path,
                    path,
                ) && forall|j: int| 0 <= j < i ==> !same_place(#[trigger] files[j].path, path),
            None => forall|j: int|
                0 <= j < files.len() ==> !same_place(#[trigger] files[j].path, path),
        },
    decreases files.len(),
{
    if files.len() > 0 {
        if same_place(files.first().path, path) {
            assert(files[0] == files.first());
        } else {
            let rest = files.drop_first();
            first_link_is_found(rest, path);
            if let Some(link) = find_link(rest, path) {
                let k = choose|i: int|
                    0 <= i < rest.len() && #[trigger] rest[i] == link && same_place(
                        link.path,
                        path,
                    ) && forall|j: int| 0 <= j < i ==> !same_place(#[trigger] rest[j].path, path);
                assert(files[k + 1] == link);
                assert forall|j: int| 0 <= j < k + 1 implies !same_place(
                    #[trigger] files[j].path,
                    path,
                ) by {
                    if j > 0 {
                        assert(files[j] == rest[j - 1]);
                    }
                }
            } else {
                assert forall|j: int| 0 <= j < files.len() implies !same_place(
                    #[trigger] files[j].path,
                    path,
                ) by {
                    if j > 0 {
                        assert(files[j] == rest[j - 1]);
                    }
                }
            }
        }
    }
}

/// Paths that lead to the same place find the same link.
pub proof fn same_place_finds_same_link(files: Seq<LinkFileModel>, a: Seq<u8>, b: Seq<u8>)
    requires
        same_place(a, b),
    ensures
        find_link(files, a) == find_link(files, b),
    decreases files.len(),
{
    if files.len() > 0 {
        same_place_finds_same_link(files.drop_first(), a, b);
    }
}

} // verus!
