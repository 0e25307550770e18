//! Collecting the linked commits that a history records.

use crate::filter::{Filter, FilterModel, FilterOf};
use crate::link::{LinkFile, LinkFileModel, LinkRef, LinkRefModel};
use crate::oid::ObjectId;
use crate::step::{asks, refused, ActionOf, Expected, Outcome, Reply, ReplyModel, Request};
use vstd::prelude::*;

verus! {

/// The linked commit that a link file names, where it names one.
pub open spec fn ref_of(file: LinkFileModel) -> Option<LinkRefModel> {
    match (file.remote, file.commit) {
        (Some(remote), Some(commit)) => Some(LinkRefModel { remote, commit }),
        _ => None,
    }
}

/// `refs` and behind them the linked commits of `files` that are not among them yet.
pub open spec fn with_refs(refs: Seq<LinkRefModel>, files: Seq<LinkFileModel>) -> Seq<LinkRefModel>
    decreases files.len(),
{
    if files.len() == 0 {
        refs
    } else {
        let before = with_refs(refs, files.drop_last());
        match ref_of(files.last()) {
            Some(found) => if before.contains(found) {
                before
            } else {
                before.push(found)
            },
            None => before,
        }
    }
}

/// The linked commits that the first `i` commits of the history name.
pub open spec fn refs_after(replies: Seq<ReplyModel>, i: int) -> Seq<LinkRefModel>
    decreases i,
{
    if i <= 0 {
        Seq::empty()
    } else {
        with_refs(refs_after(replies, i - 1), replies[2 * i + 1]->Links_0)
    }
}

/// The filter that keeps link files alone.
pub open spec fn link_files_filter() -> FilterModel {
    FilterOf::Parse {
        text: "::**/.link.josh"@,
        context: "Failed to parse .link.josh filter"@,
    }
}

/// What [`collect_all_link_refs`] does after `replies`.
///
/// The replies are, in this order: the commit with link files alone, the commits of its history,
/// and for each of them its tree and then the link files in it.
pub open spec fn collect_step(commit: ObjectId, replies: Seq<ReplyModel>) -> Expected<
    Seq<LinkRefModel>,
> {
    let k = replies.len() - 2;
    if replies.len() == 0 {
        Expected::Ask {
            request: asks(
                ActionOf::FilterCommit { filter: link_files_filter(), commit },
                "Failed to apply .link.josh filter"@,
            ),
        }
    } else if k < 0 {
        match replies.last() {
            ReplyModel::Id(filtered) => if filtered.is_zero() {
                Expected::Done { value: Seq::empty() }
            } else {
                Expected::Ask {
                    request: asks(
                        ActionOf::WalkHistory {
                            from: filtered,
                            start_context: "Failed to push commit to revwalk"@,
                        },
                        "Failed to walk history"@,
                    ),
                }
            },
            _ => refused(replies.last()),
        }
    } else if k % 2 != 0 {
        match replies.last() {
            ReplyModel::Id(tree) => Expected::Ask {
                request: asks(ActionOf::FindLinks { tree }, "Failed to find link files"@),
            },
            _ => refused(replies.last()),
        }
    } else if k == 0 && !(replies.last() is Ids) || k > 0 && !(replies.last() is Links) {
        refused(replies.last())
    } else {
        let history = replies[1]->Ids_0;
        if k / 2 < history.len() {
            Expected::Ask {
                request: asks(
                    ActionOf::ReadTree { commit: history[k / 2] },
                    "Failed to get commit tree"@,
                ),
            }
        } else {
            Expected::Done { value: refs_after(replies, k / 2) }
        }
    }
}

/// What a collection of linked commits waits for.
enum CollectPhase {
    /// The commit with link files alone.
    Filtered,
    /// The commits of the history.
    History,
    /// The tree of the commit number `at`.
    Tree { history: Vec<ObjectId>, at: usize, refs: Vec<LinkRef> },
    /// The link files in the tree of the commit number `at`.
    Links { history: Vec<ObjectId>, at: usize, refs: Vec<LinkRef> },
}

/// A collection of linked commits that waits for a reply.
pub struct CollectRefs {
    commit: ObjectId,
    phase: CollectPhase,
    replies: Ghost<Seq<ReplyModel>>,
}

impl CollectRefs {
    /// The commit whose history is searched.
    pub closed spec fn commit(self) -> ObjectId {
        self.commit
    }

    /// The replies so far.
    pub closed spec fn replies(self) -> Seq<ReplyModel> {
        self.replies@
    }

    #[verifier::type_invariant]
    spec fn consistent(self) -> bool {
        let r = self.replies@;
        match self.phase {
            CollectPhase::Filtered => r.len() == 0,
            CollectPhase::History => r.len() == 1,
            CollectPhase::Tree { history, at, refs } => {
                &&& r.len() == 2 * at + 2
                &&& at < history@.len()
                &&& r[1] == ReplyModel::Ids(history@)
                &&& refs.deep_view() == refs_after(r, at as int)
            },
            CollectPhase::Links { history, at, refs } => {
                &&& r.len() == 2 * at + 3
                &&& at < history@.len()
                &&& r[1] == ReplyModel::Ids(history@)
                &&& refs.deep_view() == refs_after(r, at as int)
            },
        }
    }
}

/// Whether `refs` holds the linked commit.
fn holds(refs: &Vec<LinkRef>, remote: &String, commit: &String) -> (r: bool)
    ensures
        r == refs.deep_view().contains(LinkRefModel { remote: remote@, commit: commit@ }),
{
    let ghost wanted = LinkRefModel { remote: remote@, commit: commit@ };
    let mut i: usize = 0;
    while i < refs.len()
        invariant
            i <= refs@.len(),
            wanted == (LinkRefModel { remote: remote@, commit: commit@ }),
            forall|j: int| 0 <= j < i ==> refs.deep_view()[j] != wanted,
        decreases refs@.len() - i,
    {
        assert(refs.deep_view()[i as int] == refs@[i as int].deep_view());
        if refs[i].remote == *remote && refs[i].commit == *commit {
            return true;
        }
        i = i + 1;
    }
    false
}

/// Adds the linked commits of `files` that `refs` does not hold yet.
fn add_refs(refs: &mut Vec<LinkRef>, files: &Vec<LinkFile>)
    ensures
        final(refs).deep_view() == with_refs(old(refs).deep_view(), files.deep_view()),
{
    let ghost start = refs.deep_view();
    let ghost all = files.deep_view();
    let mut i: usize = 0;
    assert(all.take(0) =~= Seq::empty());
    while i < files.len()
        invariant
            i <= files@.len(),
            all == files.deep_view(),
            refs.deep_view() == with_refs(start, all.take(i as int)),
        decreases files@.len() - i,
    {
        let ghost before = refs.deep_view();
        let file = &files[i];
        assert(all[i as int] == file.deep_view());
        assert(all.take(i + 1).drop_last() =~= all.take(i as int));
        assert(all.take(i + 1).last() == all[i as int]);
        match (&file.remote, &file.commit) {
            (Some(remote), Some(commit)) => {
                if !holds(refs, remote, commit) {
                    refs.push(LinkRef { remote: remote.clone(), commit: commit.clone() });
                    assert(refs.deep_view() =~= before.push(
                        LinkRefModel { remote: remote@, commit: commit@ },
                    ));
                }
            },
            _ => {},
        }
        i = i + 1;
    }
    assert(all.take(i as int) =~= all);
}

impl CollectRefs {
    /// Goes on with the commit number `at`, where `refs` are the linked commits of those before.
    fn advance(
        commit: ObjectId,
        history: Vec<ObjectId>,
        at: usize,
        refs: Vec<LinkRef>,
        Ghost(replies): Ghost<Seq<ReplyModel>>,
    ) -> (r: Outcome<CollectRefs, Vec<LinkRef>>)
        requires
            replies.len() == 2 * at + 2,
            at == 0 ==> replies.last() is Ids,
            at > 0 ==> replies.last() is Links,
            at <= history@.len(),
            replies[1] == ReplyModel::Ids(history@),
            refs.deep_view() == refs_after(replies, at as int),
        ensures
            r.deep_view() == collect_step(commit, replies),
            r matches Outcome::Ask { request, next } ==> next.commit() == commit && next.replies()
                == replies,
    {
        if at < history.len() {
            Outcome::Ask {
                request: Request::with_context(
                    ActionOf::ReadTree { commit: history[at] },
                    "Failed to get commit tree".to_owned(),
                ),
                next: CollectRefs {
                    commit,
                    phase: CollectPhase::Tree { history, at, refs },
                    replies: Ghost(replies),
                },
            }
        } else {
            Outcome::Done { value: refs }
        }
    }

    /// Takes the reply to what was asked.
    pub fn resume(self, reply: Reply) -> (r: Outcome<CollectRefs, Vec<LinkRef>>)
        ensures
            r.deep_view() == collect_step(self.commit(), self.replies().push(reply.deep_view())),
            r matches Outcome::Ask { request, next } ==> next.commit() == self.commit()
                && next.replies() == self.replies().push(reply.deep_view()),
    {
        proof {
            use_type_invariant(&self);
        }
        let ghost replies = self.replies@.push(reply.deep_view());
        let CollectRefs { commit, phase, replies: _ } = self;
        match (phase, reply) {
            (CollectPhase::Filtered, Reply::Id(filtered)) => if filtered.is_null() {
                let refs: Vec<LinkRef> = Vec::new();
                assert(refs.deep_view() =~= Seq::empty());
                Outcome::Done { value: refs }
            } else {
                Outcome::Ask {
                    request: Request::with_context(
                        ActionOf::WalkHistory {
                            from: filtered,
                            start_context: "Failed to push commit to revwalk".to_owned(),
                        },
                        "Failed to walk history".to_owned(),
                    ),
                    next: CollectRefs {
                        commit,
                        phase: CollectPhase::History,
                        replies: Ghost(replies),
                    },
                }
            },
            (CollectPhase::History, Reply::Ids(history)) => {
                let refs: Vec<LinkRef> = Vec::new();
                assert(refs.deep_view() =~= Seq::empty());
                CollectRefs::advance(commit, history, 0, refs, Ghost(replies))
            },
            (CollectPhase::Tree { history, at, refs }, Reply::Id(tree)) => {
                proof {
                    refs_after_depends_on_prefix(self.replies@, replies, at as int);
                }
                Outcome::Ask {
                    request: Request::with_context(
                        ActionOf::FindLinks { tree },
                        "Failed to find link files".to_owned(),
                    ),
                    next: CollectRefs {
                        commit,
                        phase: CollectPhase::Links { history, at, refs },
                        replies: Ghost(replies),
                    },
                }
            },
            (CollectPhase::Links { history, at, mut refs }, Reply::Links(files)) => {
                let count: usize = history.len();
                proof {
                    refs_after_depends_on_prefix(self.replies@, replies, at as int);
                }
                add_refs(&mut refs, &files);
                CollectRefs::advance(commit, history, at + 1, refs, Ghost(replies))
            },
            (_, reply) => Outcome::Fail { error: reply.refusal() },
        }
    }
}

proof fn refs_after_depends_on_prefix(a: Seq<ReplyModel>, b: Seq<ReplyModel>, i: int)
    requires
        2 * i + 2 <= a.len() <= b.len(),
        forall|j: int| 0 <= j < a.len() ==> a[j] == b[j],
    ensures
        refs_after(a, i) == refs_after(b, i),
    decreases i,
{
    if i > 0 {
        refs_after_depends_on_prefix(a, b, i - 1);
    }
}

/// Walk the entire commit history reachable from the given commit and collect
/// all (remote, commit) pairs found in any `.link.josh` file across all commits and trees.
///
/// The history is first pruned to the commits that changed a link file.
pub fn collect_all_link_refs(commit: ObjectId) -> (r: Outcome<CollectRefs, Vec<LinkRef>>)
    ensures
        r.deep_view() == collect_step(commit, Seq::empty()),
        r matches Outcome::Ask { request, next } && next.commit() == commit && next.replies()
            == Seq::<ReplyModel>::empty(),
{
    let filter = Filter::parse("::**/.link.josh", "Failed to parse .link.josh filter".to_owned());
    Outcome::Ask {
        request: Request::with_context(
            ActionOf::FilterCommit { filter, commit },
            "Failed to apply .link.josh filter".to_owned(),
        ),
        next: CollectRefs { commit, phase: CollectPhase::Filtered, replies: Ghost(Seq::empty()) },
    }
}

/// Whether the link file number `f` of the commit number `j` names `found`.
pub open spec fn named_at(replies: Seq<ReplyModel>, j: int, f: int, found: LinkRefModel) -> bool {
    let files = replies[2 * j + 3]->Links_0;
    0 <= f < files.len() && ref_of(files[f]) == Some(found)
}

proof fn with_refs_adds_those_named(
    refs: Seq<LinkRefModel>,
    files: Seq<LinkFileModel>,
    found: LinkRefModel,
)
    requires
        refs.no_duplicates(),
    ensures
        with_refs(refs, files).no_duplicates(),
        with_refs(refs, files).contains(found) <==> (refs.contains(found) || exists|f: int|
            0 <= f < files.len() && ref_of(#[trigger] files[f]) == Some(found)),
    decreases files.len(),
{
    if files.len() > 0 {
        let front = files.drop_last();
        let before = with_refs(refs, front);
        let after = with_refs(refs, files);
        with_refs_adds_those_named(refs, front, found);
        assert(before.contains(found) ==> after.contains(found)) by {
            if before.contains(found) {
                let p = choose|p: int| 0 <= p < before.len() && before[p] == found;
                assert(after[p] == found);
            }
        }
        if ref_of(files.last()) == Some(found) && !before.contains(found) {
            assert(after[before.len() as int] == found);
        }
        if after.contains(found) && !before.contains(found) {
            let p = choose|p: int| 0 <= p < after.len() && after[p] == found;
            if p < before.len() {
                assert(before[p] == found);
            }
            assert(ref_of(files[files.len() - 1]) == Some(found));
        }
        if exists|f: int| 0 <= f < files.len() && ref_of(#[trigger] files[f]) == Some(found) {
            let f = choose|f: int|
                0 <= f < files.len() && ref_of(#[trigger] files[f]) == Some(found);
            if f < front.len() {
                assert(front[f] == files[f]);
            }
        }
        if exists|f: int| 0 <= f < front.len() && ref_of(#[trigger] front[f]) == Some(found) {
            let f = choose|f: int|
                0 <= f < front.len() && ref_of(#[trigger] front[f]) == Some(found);
            assert(files[f] == front[f]);
        }
    }
}

proof fn refs_after_are_those_named(replies: Seq<ReplyModel>, i: int, found: LinkRefModel)
    ensures
        refs_after(replies, i).no_duplicates(),
        refs_after(replies, i).contains(found) <==> exists|j: int, f: int|
            0 <= j < i && #[trigger] named_at(replies, j, f, found),
    decreases i,
{
    if i > 0 {
        let before = refs_after(replies, i - 1);
        let files = replies[2 * i + 1]->Links_0;
        refs_after_are_those_named(replies, i - 1, found);
        with_refs_adds_those_named(before, files, found);
        if exists|f: int| 0 <= f < files.len() && ref_of(#[trigger] files[f]) == Some(found) {
            let f = choose|f: int|
                0 <= f < files.len() && ref_of(#[trigger] files[f]) == Some(found);
            assert(named_at(replies, i - 1, f, found));
        }
        if exists|j: int, f: int| 0 <= j < i && #[trigger] named_at(replies, j, f, found) {
            let (j, f) = choose|j: int, f: int|
                0 <= j < i && #[trigger] named_at(replies, j, f, found);
            if j == i - 1 {
                assert(ref_of(files[f]) == Some(found));
            } else {
                assert(named_at(replies, j, f, found));
            }
        }
    }
}

/// A collection that is done has looked into every commit of the history, and its result holds
/// each linked commit that some link file of some commit names, once, and nothing else.
pub proof fn collected_are_those_named(
    commit: ObjectId,
    replies: Seq<ReplyModel>,
    found: LinkRefModel,
)
    requires
        replies.len() >= 2,
        collect_step(commit, replies) is Done,
    ensures
        replies.len() >= 2 * replies[1]->Ids_0.len() + 2,
        collect_step(commit, replies)->value.no_duplicates(),
        collect_step(commit, replies)->value.contains(found) <==> exists|j: int, f: int|
            0 <= j < (replies.len() - 2) / 2 && #[trigger] named_at(replies, j, f, found),
{
    refs_after_are_those_named(replies, (replies.len() - 2) / 2, found);
}

/// Where no commit has a link file, nothing is walked and nothing is found.
pub proof fn nothing_collected_without_link_files(commit: ObjectId, filtered: ObjectId)
    requires
        filtered.is_zero(),
    ensures
        collect_step(commit, seq![ReplyModel::Id(filtered)]) == (Expected::Done {
            value: Seq::<LinkRefModel>::empty(),
        }),
{
}

} // verus!
