//! A repository, as the laws speak of it that span several operations.
//!
//! The operations only ask. What comes of that depends on how the repository answers, and so a law
//! about two operations says which answers it counts on: those that [`Repository::fits`] accepts,
//! of a repository that is [`Repository::sound`].

use crate::filter::{value_under, FilterModel, FilterOf, MetaKey, Recorded};
use crate::link::LinkFileModel;
use crate::oid::ObjectId;
use crate::path::{anchor, names, LINK_FILE};
use crate::step::{ActionModel, ActionOf, Expected, ReplyModel};
use crate::turn::Operation;
use vstd::prelude::*;
use vstd::utf8::*;

verus! {

/// What a link file records: which filter it is without its metadata, and the metadata.
pub struct Record {
    pub filter: int,
    pub values: Map<MetaKey, Seq<char>>,
}

impl Record {
    /// What is recorded under `key`.
    pub open spec fn value(self, key: MetaKey) -> Option<Seq<char>> {
        if self.values.contains_key(key) {
            Some(self.values[key])
        } else {
            None
        }
    }

    /// The record with `value` under `key`.
    pub open spec fn with(self, key: MetaKey, value: Seq<char>) -> Record {
        Record { filter: self.filter, values: self.values.insert(key, value) }
    }
}

/// The names that lead to a file.
pub type Key = Seq<Seq<u8>>;

/// The files of a tree: what is stored for each, and its mode.
pub type Files = Map<Key, (ObjectId, u32)>;

/// Whether the way to `b` leads through `a`.
pub open spec fn leads_through(a: Key, b: Key) -> bool {
    a.len() <= b.len() && b.take(a.len() as int) == a
}

/// Whether no file is also a directory.
pub open spec fn files_are_leaves(files: Files) -> bool {
    forall|a: Key, b: Key|
        #![trigger files.contains_key(a), files.contains_key(b)]
        files.contains_key(a) && files.contains_key(b) && a != b ==> !leads_through(a, b)
}

/// `files` with `entry` at `key`, and without what is in its way.
pub open spec fn placed(files: Files, key: Key, entry: (ObjectId, u32)) -> Files {
    Map::new(
        |k: Key|
            k == key || (files.contains_key(k) && !leads_through(k, key) && !leads_through(key, k)),
        |k: Key|
            if k == key {
                entry
            } else {
                files[k]
            },
    )
}

/// The names that lead to the link file of the directory `dir`.
pub open spec fn link_key(dir: Key) -> Key {
    dir.push(encode_utf8(LINK_FILE@))
}

/// The records of the link files that an operation was given, by the numbers that it was given them
/// with. Another run may use the same numbers for other link files.
pub type Numbers = spec_fn(usize) -> Record;

/// What the objects of a repository hold.
pub struct Repository {
    /// The tree of a commit.
    pub tree: spec_fn(ObjectId) -> ObjectId,
    /// The commits that are reachable from a commit.
    pub history: spec_fn(ObjectId) -> Set<ObjectId>,
    /// The files of a tree.
    pub files: spec_fn(ObjectId) -> Files,
    /// The record that an object holds, where it holds one.
    pub record: spec_fn(ObjectId) -> Option<Record>,
    /// Whether an object was made by storing a filter.
    pub stored: spec_fn(ObjectId) -> bool,
    /// Which filter an expression without metadata is.
    pub meaning: spec_fn(FilterModel) -> int,
    /// What a filter makes of a commit.
    pub filtered: spec_fn(int, ObjectId) -> ObjectId,
    /// What a filter is reversed to: the filter, a commit, what the filter makes of that commit,
    /// and what became of the latter.
    pub reversed: spec_fn(int, ObjectId, ObjectId, ObjectId) -> ObjectId,
}

impl Repository {
    /// Whether objects are what they hold: trees with the same files are the same, no file of a
    /// tree is also a directory, the same record is stored as the same object, and what is
    /// reachable from a commit that is reachable is reachable.
    pub open spec fn sound(self) -> bool {
        &&& forall|a: ObjectId, b: ObjectId|
            #![trigger (self.files)(a), (self.files)(b)]
            (self.files)(a) == (self.files)(b) ==> a == b
        &&& forall|t: ObjectId| files_are_leaves(#[trigger] (self.files)(t))
        &&& forall|a: ObjectId, b: ObjectId|
            #![trigger (self.stored)(a), (self.stored)(b)]
            (self.stored)(a) && (self.stored)(b) && (self.record)(a) == (self.record)(b) ==> a == b
        &&& forall|c: ObjectId| (#[trigger] (self.history)(c)).contains(c)
        &&& forall|a: ObjectId, b: ObjectId|
            #![trigger (self.history)(a), (self.history)(b)]
            (self.history)(b).contains(a) ==> (self.history)(a).subset_of((self.history)(b))
    }

    /// What `filter` records when it is stored.
    pub open spec fn record_of(self, numbers: Numbers, filter: FilterModel) -> Record
        decreases filter,
    {
        match filter {
            FilterOf::Meta { base, key, value } => self.record_of(numbers, *base).with(
                key,
                value,
            ),
            FilterOf::Recorded(n) => numbers(n),
            _ => Record { filter: (self.meaning)(filter), values: Map::empty() },
        }
    }

    /// Which filter an expression is that is applied to commits: a recorded filter is applied
    /// without its metadata.
    pub open spec fn filter_of(self, numbers: Numbers, filter: FilterModel) -> int {
        match filter {
            FilterOf::Peel { base } => self.record_of(numbers, *base).filter,
            _ => (self.meaning)(filter),
        }
    }

    /// Whether `file` is a link file of the tree: it is there, and says what is recorded there.
    pub open spec fn holds_link(
        self,
        numbers: Numbers,
        tree: ObjectId,
        file: LinkFileModel,
    ) -> bool {
        let record = numbers(file.filter);
        &&& anchor(file.path) is Free
        &&& (self.files)(tree).contains_key(link_key(names(file.path)))
        &&& (self.record)((self.files)(tree)[link_key(names(file.path))].0) == Some(record)
        &&& file.remote == record.value(MetaKey::Remote)
        &&& file.target == record.value(MetaKey::Target)
        &&& file.commit == record.value(MetaKey::Commit)
        &&& file.push == record.value(MetaKey::Push)
        &&& file.push_target == record.value(MetaKey::PushTarget)
    }

    /// Whether the tree has a link file with a record in the directory `dir`.
    pub open spec fn has_link_at(self, tree: ObjectId, dir: Key) -> bool {
        (self.files)(tree).contains_key(link_key(dir)) && (self.record)(
            (self.files)(tree)[link_key(dir)].0,
        ) is Some
    }

    /// Whether `files` are the link files of the tree.
    pub open spec fn lists_links(
        self,
        numbers: Numbers,
        tree: ObjectId,
        files: Seq<LinkFileModel>,
    ) -> bool {
        &&& forall|i: int|
            0 <= i < files.len() ==> self.holds_link(numbers, tree, #[trigger] files[i])
        &&& forall|dir: Key| #[trigger]
            self.has_link_at(tree, dir) ==> exists|i: int|
                0 <= i < files.len() && names((#[trigger] files[i]).path) == dir
    }

    /// Whether `reply` is a right answer to `action`. Of actions whose answers change in the course
    /// of time nothing is said.
    pub open spec fn fits(
        self,
        numbers: Numbers,
        action: ActionModel,
        reply: ReplyModel,
    ) -> bool {
        match action {
            ActionOf::ReadTree { commit } => reply == ReplyModel::Id((self.tree)(commit)),
            ActionOf::FindLinks { tree } => reply matches ReplyModel::Links(files)
                && self.lists_links(numbers, tree, files),
            ActionOf::FilterCommit { filter, commit } => reply == ReplyModel::Id(
                (self.filtered)(self.filter_of(numbers, filter), commit),
            ),
            ActionOf::WalkHistory { from, start_context } => reply matches ReplyModel::Ids(commits)
                && forall|c: ObjectId| #[trigger]
                commits.contains(c) <==> (self.history)(from).contains(c),
            ActionOf::WriteFilter { filter } => reply matches ReplyModel::Id(blob)
                && (self.stored)(blob) && (self.record)(blob) == Some(
                self.record_of(numbers, filter),
            ),
            ActionOf::InsertBlob { tree, path, blob, mode } => reply matches ReplyModel::Id(new)
                && (self.files)(new) == placed((self.files)(tree), names(path), (blob, mode)),
            ActionOf::WriteCommit { tree, parent, signature, message } => reply matches
                ReplyModel::Id(new) && (self.tree)(new) == tree && (self.history)(new)
                == (self.history)(parent).insert(new),
            ActionOf::UnapplyFilter { filter, original, filtered, changed } => reply
                == ReplyModel::Id(
                (self.reversed)(self.filter_of(numbers, filter), original, filtered, changed),
            ),
            _ => true,
        }
    }

    /// Whether `replies` are right answers to what `step` asks, one after the other. `numbers` are
    /// those that this run gave to link files.
    pub open spec fn answers<T>(
        self,
        numbers: Numbers,
        step: Operation<T>,
        replies: Seq<ReplyModel>,
    ) -> bool {
        forall|i: int|
            0 <= i < replies.len() ==> (#[trigger] step(replies.take(i)) matches Expected::Ask {
                request,
            } && self.fits(numbers, request.action, replies[i]))
    }
}

/// Where there is a file already, nothing is in the way of another.
pub proof fn replacing_keeps_other_files(files: Files, key: Key, entry: (ObjectId, u32))
    requires
        files_are_leaves(files),
        files.contains_key(key),
    ensures
        placed(files, key, entry) == files.insert(key, entry),
        files_are_leaves(files.insert(key, entry)),
{
    let new = placed(files, key, entry);
    assert forall|k: Key| new.contains_key(k) == files.insert(key, entry).contains_key(k) by {
        if files.contains_key(k) && k != key {
            assert(files.contains_key(key));
        }
    }
    assert(new =~= files.insert(key, entry));
    let after = files.insert(key, entry);
    assert forall|a: Key, b: Key|
        #![trigger after.contains_key(a), after.contains_key(b)]
        after.contains_key(a) && after.contains_key(b) && a != b implies !leads_through(a, b) by {
        assert(files.contains_key(a) && files.contains_key(b));
    }
}

/// What is placed at a key is replaced whole by what is placed there next.
pub proof fn placing_again_replaces(
    files: Files,
    key: Key,
    first: (ObjectId, u32),
    second: (ObjectId, u32),
)
    ensures
        placed(placed(files, key, first), key, second) == placed(files, key, second),
{
    assert(placed(placed(files, key, first), key, second) =~= placed(files, key, second)) by {
        assert(leads_through(key, key)) by {
            assert(key.take(key.len() as int) =~= key);
        }
    }
}

impl Repository {
    /// What the link files record, by their numbers.
    pub open spec fn recorded(self, numbers: Numbers) -> Recorded {
        |n: usize, key: MetaKey| numbers(n).value(key)
    }

    /// What a filter records is stored with it.
    pub proof fn stored_values_are_recorded(
        self,
        numbers: Numbers,
        filter: FilterModel,
        key: MetaKey,
    )
        ensures
            self.record_of(numbers, filter).value(key) == value_under(
                filter,
                key,
                self.recorded(numbers),
            ),
        decreases filter,
    {
        if let FilterOf::Meta { base, key: given, value } = filter {
            self.stored_values_are_recorded(numbers, *base, key);
        }
    }
}

/// There are sound repositories.
pub proof fn some_repository_is_sound()
    ensures
        exists|repo: Repository| repo.sound(),
{
    let files = |t: ObjectId| Map::<Key, (ObjectId, u32)>::empty().insert(Seq::empty(), (t, 0));
    let repo = Repository {
        tree: |c: ObjectId| c,
        history: |c: ObjectId| Set::empty().insert(c),
        files,
        record: |b: ObjectId| None,
        stored: |b: ObjectId| false,
        meaning: |f: FilterModel| 0,
        filtered: |f: int, c: ObjectId| c,
        reversed: |f: int, a: ObjectId, b: ObjectId, c: ObjectId| c,
    };
    assert forall|a: ObjectId, b: ObjectId|
        #![trigger files(a), files(b)]
        files(a) == files(b) implies a == b by {
        assert(files(a)[Seq::empty()] == (a, 0u32));
        assert(files(b)[Seq::empty()] == (b, 0u32));
    }
    assert(repo.sound());
}

} // verus!
