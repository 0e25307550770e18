//! The operations on a small repository in memory.

use josh_link::add::{prepare_link_add, CommitAdd, PrepareAdd, PreparedLinkAdd};
use josh_link::collect::{collect_all_link_refs, CollectRefs};
use josh_link::command::args::{LinkFetchArgs, LinkUpdateArgs};
use josh_link::command::fetch::{handle_link_fetch, FetchLinks};
use josh_link::command::update::{handle_link_update, UpdateAllLinks};
use josh_link::error::LinkError;
use josh_link::filter::{Filter, FilterOf, MetaKey};
use josh_link::link::{LinkFile, LinkRef, PreparedLinkPush, Signature, UpdateLinksResult};
use josh_link::oid::ObjectId;
use josh_link::path::LinkPath;
use josh_link::push::{prepare_link_push, PreparePush};
use josh_link::step::{Action, ActionOf, Outcome, Reply};
use josh_link::update::{update_links, UpdateLinks};
use std::collections::{BTreeMap, BTreeSet};

type Files = BTreeMap<Vec<String>, (ObjectId, u32)>;

#[derive(Clone, Debug, PartialEq)]
struct Record {
    filter: String,
    prefix: String,
    values: Vec<(MetaKey, String)>,
}

impl Record {
    fn value(&self, key: MetaKey) -> Option<String> {
        self.values.iter().find(|(k, _)| *k == key).map(|(_, v)| v.clone())
    }
}

#[derive(Clone, Debug, PartialEq)]
enum Object {
    Text(String),
    Link(Record),
    Tree(Files),
    Commit { tree: ObjectId, parents: Vec<ObjectId>, note: String },
}

struct Repo {
    objects: Vec<Object>,
    numbered: Vec<Record>,
    there: Vec<ObjectId>,
    head: ObjectId,
    fetched: ObjectId,
    git: Vec<String>,
}

fn id_of(n: usize) -> ObjectId {
    let mut bytes = [0u8; 20];
    bytes[0] = 1;
    bytes[19] = n as u8;
    ObjectId { bytes }
}

fn split(path: &LinkPath) -> Vec<String> {
    let text = path.as_text().unwrap();
    text.split('/').filter(|name| !name.is_empty()).map(|name| name.to_string()).collect()
}

fn path(text: &str) -> LinkPath {
    LinkPath::from_text(text)
}

fn signer() -> Signature {
    Signature { name: b"A".to_vec(), email: b"a@b".to_vec(), seconds: 7, offset: 0 }
}

impl Repo {
    fn new() -> Repo {
        let mut repo = Repo {
            objects: Vec::new(),
            numbered: Vec::new(),
            there: Vec::new(),
            head: ObjectId::null(),
            fetched: ObjectId::null(),
            git: Vec::new(),
        };
        let text = repo.store(Object::Text("hello".to_string()));
        let mut files = Files::new();
        files.insert(vec!["readme".to_string()], (text, 0o100644));
        let tree = repo.store(Object::Tree(files));
        repo.head = repo.commit(tree, vec![]);
        repo
    }

    fn store(&mut self, object: Object) -> ObjectId {
        if let Some(n) = self.objects.iter().position(|o| *o == object) {
            return id_of(n);
        }
        self.objects.push(object);
        id_of(self.objects.len() - 1)
    }

    fn object(&self, id: ObjectId) -> &Object {
        &self.objects[id.bytes[19] as usize]
    }

    fn commit(&mut self, tree: ObjectId, parents: Vec<ObjectId>) -> ObjectId {
        self.store(Object::Commit { tree, parents, note: String::new() })
    }

    fn tree_of(&self, commit: ObjectId) -> ObjectId {
        match self.object(commit) {
            Object::Commit { tree, .. } => *tree,
            other => panic!("{:?}", other),
        }
    }

    fn files(&self, tree: ObjectId) -> Files {
        match self.object(tree) {
            Object::Tree(files) => files.clone(),
            other => panic!("{:?}", other),
        }
    }

    fn history(&self, from: ObjectId) -> Vec<ObjectId> {
        let mut all = vec![from];
        let mut at = 0;
        while at < all.len() {
            if let Object::Commit { parents, .. } = self.object(all[at]) {
                for parent in parents {
                    if !all.contains(parent) {
                        all.push(*parent);
                    }
                }
            }
            at += 1;
        }
        all
    }

    fn record(&self, filter: &Filter) -> Record {
        match filter {
            FilterOf::Meta { base, key, value } => {
                let mut record = self.record(base);
                record.values.retain(|(k, _)| k != key);
                record.values.push((*key, value.clone()));
                record.values.sort_by_key(|(k, _)| k.name());
                record
            }
            FilterOf::Recorded(n) => self.numbered[*n].clone(),
            FilterOf::Prefix { base, path } => match &**base {
                FilterOf::Parse { text, .. } => Record {
                    filter: text.clone(),
                    prefix: path.as_text().unwrap().to_string(),
                    values: Vec::new(),
                },
                other => panic!("{:?}", other),
            },
            other => panic!("{:?}", other),
        }
    }

    fn placed(&self, tree: ObjectId, key: Vec<String>, entry: (ObjectId, u32)) -> Files {
        let mut files = self.files(tree);
        files.retain(|k, _| !k.starts_with(&key) && !key.starts_with(k));
        files.insert(key, entry);
        files
    }

    fn filtered(&mut self, filter: Filter, commit: ObjectId) -> ObjectId {
        match filter {
            FilterOf::Parse { text, .. } if text == "::**/.link.josh" => {
                let links = self.history(commit).into_iter().any(|c| {
                    let files = self.files(self.tree_of(c));
                    files.values().any(|(blob, _)| matches!(self.object(*blob), Object::Link(_)))
                });
                if links { commit } else { ObjectId::null() }
            }
            FilterOf::Parse { .. } => commit,
            FilterOf::Peel { base } => {
                let prefix = split(&path(&self.record(&base).prefix));
                let mut files = Files::new();
                for (key, entry) in self.files(self.tree_of(commit)) {
                    files.insert([prefix.clone(), key].concat(), entry);
                }
                let tree = self.store(Object::Tree(files));
                self.commit(tree, vec![])
            }
            FilterOf::Prefix { path, .. } => {
                let dir = split(&path);
                let mut link = dir.clone();
                link.push(".link.josh".to_string());
                let mut files = self.files(self.tree_of(commit));
                files.retain(|k, _| k.starts_with(&dir) && *k != link);
                if files.is_empty() {
                    return ObjectId::null();
                }
                let tree = self.store(Object::Tree(files));
                self.commit(tree, vec![])
            }
            other => panic!("{:?}", other),
        }
    }

    fn reversed(&mut self, filter: Filter, original: ObjectId, changed: ObjectId) -> ObjectId {
        let prefix = match filter {
            FilterOf::Peel { base } => split(&path(&self.record(&base).prefix)),
            other => panic!("{:?}", other),
        };
        let mut files = Files::new();
        for (key, entry) in self.files(self.tree_of(changed)) {
            files.insert(key[prefix.len()..].to_vec(), entry);
        }
        let tree = self.store(Object::Tree(files));
        self.commit(tree, vec![original])
    }

    fn answer(&mut self, action: Action) -> Reply {
        match action {
            ActionOf::Head => Reply::Id(self.head),
            ActionOf::ReadTree { commit } | ActionOf::ReadCommitTree { commit, .. } => {
                Reply::Id(self.tree_of(commit))
            }
            ActionOf::FindLinks { tree } => {
                let mut links = Vec::new();
                for (key, (blob, _)) in self.files(tree) {
                    if let Object::Link(record) = self.object(blob).clone() {
                        links.push(LinkFile {
                            path: path(&key[..key.len() - 1].join("/")),
                            filter: self.numbered.len(),
                            remote: record.value(MetaKey::Remote),
                            target: record.value(MetaKey::Target),
                            commit: record.value(MetaKey::Commit),
                            push: record.value(MetaKey::Push),
                            push_target: record.value(MetaKey::PushTarget),
                        });
                        self.numbered.push(record);
                    }
                }
                Reply::Links(links)
            }
            ActionOf::FilterCommit { filter, commit } => Reply::Id(self.filtered(filter, commit)),
            ActionOf::WalkHistory { from, .. } => Reply::Ids(self.history(from)),
            ActionOf::WriteFilter { filter } => {
                let record = self.record(&filter);
                Reply::Id(self.store(Object::Link(record)))
            }
            ActionOf::InsertBlob { tree, path, blob, mode } => {
                let files = self.placed(tree, split(&path), (blob, mode));
                Reply::Id(self.store(Object::Tree(files)))
            }
            ActionOf::WriteCommit { tree, parent, message, .. } => {
                let commit = Object::Commit { tree, parents: vec![parent], note: message };
                Reply::Id(self.store(commit))
            }
            ActionOf::UnapplyFilter { filter, original, changed, .. } => {
                Reply::Id(self.reversed(filter, original, changed))
            }
            ActionOf::Git { verb, remote, refspec } => {
                let wanted = refspec.split(':').next().unwrap();
                if let Ok(id) = ObjectId::from_hex(wanted) {
                    self.there.push(id);
                }
                self.git.push(format!("{} {} {}", verb, remote, refspec));
                Reply::Finished
            }
            ActionOf::ResolveFetchHead => Reply::Id(self.fetched),
            ActionOf::HasObject { id } => Reply::Flag(self.there.contains(&id)),
            ActionOf::UpdateRef { .. } => Reply::Finished,
            ActionOf::ReadSignature => Reply::Signature(signer()),
            ActionOf::ParseMode { text } => Reply::Text(text),
        }
    }

    fn run<M, T>(
        &mut self,
        mut outcome: Outcome<M, T>,
        resume: fn(M, Reply) -> Outcome<M, T>,
    ) -> Result<T, LinkError> {
        self.numbered.clear();
        loop {
            match outcome {
                Outcome::Ask { request, next } => {
                    outcome = resume(next, self.answer(request.action))
                }
                Outcome::Done { value } => return Ok(value),
                Outcome::Fail { error } => return Err(error),
            }
        }
    }

    fn add(&mut self, at: &str, tree: ObjectId, url: &str, push: Option<&str>) -> PreparedLinkAdd {
        let pin = self.head;
        let start = prepare_link_add(
            &path(at),
            url,
            push,
            None,
            "main",
            None,
            pin,
            tree,
            "snapshot",
        );
        self.run(start, PrepareAdd::resume).unwrap()
    }

    fn add_and_commit(&mut self, at: &str, url: &str) {
        let head = self.head;
        let added = self.add(at, self.tree_of(head), url, None);
        self.head = self.run(added.into_commit(head, &signer()), CommitAdd::resume).unwrap();
    }

    fn update(
        &mut self,
        head: ObjectId,
        updates: &[(&str, ObjectId)],
    ) -> Option<UpdateLinksResult> {
        let updates = updates.iter().map(|(at, to)| (path(at), *to)).collect();
        self.run(update_links(head, updates, &signer()), UpdateLinks::resume).unwrap()
    }

    fn collect(&mut self, commit: ObjectId) -> BTreeSet<(String, String)> {
        let refs: Vec<LinkRef> =
            self.run(collect_all_link_refs(commit), CollectRefs::resume).unwrap();
        let set: BTreeSet<_> = refs.iter().map(|r| (r.remote.clone(), r.commit.clone())).collect();
        assert_eq!(set.len(), refs.len());
        set
    }

    fn fetch(&mut self, filter: Option<&str>) -> Vec<String> {
        let args = LinkFetchArgs { filter: filter.map(|f| f.to_string()) };
        self.numbered.clear();
        let mut turn = handle_link_fetch(&args);
        let mut told = Vec::new();
        loop {
            told.extend(turn.tell.iter().map(|notice| notice.text()));
            match turn.outcome {
                Outcome::Ask { request, next } => {
                    let reply = match request.context.as_deref() {
                        Some("Failed to apply filter") => Reply::Id(self.head),
                        _ => self.answer(request.action),
                    };
                    turn = FetchLinks::resume(next, reply)
                }
                Outcome::Done { .. } => return told,
                Outcome::Fail { error } => panic!("{}", error.message()),
            }
        }
    }

    fn update_all(&mut self, filter: Option<&str>) -> Vec<String> {
        let args = LinkUpdateArgs { filter: filter.map(|f| f.to_string()) };
        self.numbered.clear();
        let mut turn = handle_link_update(&args, None);
        let mut told = Vec::new();
        loop {
            told.extend(turn.tell.iter().map(|notice| notice.text()));
            match turn.outcome {
                Outcome::Ask { request, next } => {
                    let reply = match request.context.as_deref() {
                        Some("Failed to apply filter") => Reply::Id(self.head),
                        _ => self.answer(request.action),
                    };
                    turn = UpdateAllLinks::resume(next, reply)
                }
                Outcome::Done { .. } => return told,
                Outcome::Fail { error } => panic!("{}", error.message()),
            }
        }
    }
}

fn far(n: u8) -> ObjectId {
    ObjectId { bytes: [n; 20] }
}

#[test]
fn an_update_of_its_own_result_changes_nothing() {
    let mut repo = Repo::new();
    repo.add_and_commit("a", "u");
    repo.add_and_commit("b/c", "v");
    let updates = [("a", far(3)), ("b/c", far(4)), ("a/", far(5))];
    let result = repo.update(repo.head, &updates).unwrap();
    assert_ne!(repo.tree_of(result.commit_with_updates), repo.tree_of(repo.head));
    assert_eq!(repo.update(result.commit_with_updates, &updates), None);
}

#[test]
fn an_update_is_none_exactly_where_the_pins_stand() {
    let mut repo = Repo::new();
    repo.add_and_commit("a", "u");
    repo.add_and_commit("b", "v");
    let head = repo.update(repo.head, &[("a", far(3)), ("b", far(4))]).unwrap();
    let head = head.commit_with_updates;
    assert_eq!(repo.update(head, &[("b", far(4))]), None);
    assert_eq!(repo.update(head, &[("a", far(9)), ("b", far(4)), ("a", far(3))]), None);
    assert!(repo.update(head, &[("a", far(3)), ("a", far(9))]).is_some());
}

#[test]
fn the_order_of_updates_does_not_matter() {
    let mut repo = Repo::new();
    repo.add_and_commit("a", "u");
    repo.add_and_commit("b", "v");
    let one = repo.update(repo.head, &[("a", far(3)), ("b", far(4))]).unwrap();
    let two = repo.update(repo.head, &[("b", far(4)), ("a", far(3))]).unwrap();
    assert_eq!(
        repo.tree_of(one.commit_with_updates),
        repo.tree_of(two.commit_with_updates)
    );
}

#[test]
fn adding_again_leaves_nothing_of_the_first_link() {
    let mut repo = Repo::new();
    let tree = repo.tree_of(repo.head);
    let first = repo.add("/docs", tree, "u", Some("mine")).into_tree_oid();
    let again = repo.add("/docs", first, "v", None).into_tree_oid();
    let alone = repo.add("/docs", tree, "v", None).into_tree_oid();
    assert_ne!(first, again);
    assert_eq!(again, alone);
}

#[test]
fn an_added_link_is_pushed_as_given() {
    let mut repo = Repo::new();
    let head = repo.head;
    let tree = repo.tree_of(head);
    let added = repo.add("/docs/", tree, "u", Some("mine"));
    let commit = repo.run(added.into_commit(head, &signer()), CommitAdd::resume).unwrap();
    let text = repo.store(Object::Text("local".to_string()));
    let with_content =
        repo.placed(repo.tree_of(commit), split(&path("docs/x")), (text, 0o100644));
    let tree = repo.store(Object::Tree(with_content));
    let commit = repo.commit(tree, vec![commit]);
    let push: PreparedLinkPush =
        repo.run(prepare_link_push(commit, &path("/docs/")), PreparePush::resume).unwrap();
    assert_eq!(push.remote, "u");
    assert_eq!(push.push_remote.as_deref(), Some("mine"));
    assert_eq!(push.configured_target, "main");
    assert_eq!(push.configured_push_target, None);
}

#[test]
fn the_exported_commit_holds_the_content_without_the_link_file() {
    let mut repo = Repo::new();
    repo.add_and_commit("docs", "u");
    let text = repo.store(Object::Text("local".to_string()));
    let files = repo.placed(repo.tree_of(repo.head), split(&path("docs/x")), (text, 0o100644));
    let tree = repo.store(Object::Tree(files));
    let commit = repo.commit(tree, vec![repo.head]);
    let push = repo.run(prepare_link_push(commit, &path("docs")), PreparePush::resume).unwrap();
    let exported = repo.files(repo.tree_of(push.exported_commit));
    assert_eq!(exported.into_iter().collect::<Vec<_>>(), vec![(
        vec!["x".to_string()],
        (text, 0o100644)
    )]);
}

#[test]
fn descendants_name_what_their_ancestors_name() {
    let mut repo = Repo::new();
    assert_eq!(repo.collect(repo.head), BTreeSet::new());
    repo.add_and_commit("a", "u");
    let ancestor = repo.head;
    repo.add_and_commit("b", "v");
    let before = repo.collect(ancestor);
    let after = repo.collect(repo.head);
    assert_eq!(before.len(), 1);
    assert_eq!(after.len(), 2);
    assert!(before.is_subset(&after));
}

#[test]
fn an_update_adds_exactly_the_new_pins() {
    let mut repo = Repo::new();
    repo.add_and_commit("a", "u");
    repo.add_and_commit("b", "v");
    let mut expected = repo.collect(repo.head);
    let result = repo.update(repo.head, &[("a", far(3))]).unwrap();
    expected.insert(("u".to_string(), far(3).to_hex()));
    assert_eq!(repo.collect(result.commit_with_updates), expected);
}

#[test]
fn a_second_fetch_runs_no_git() {
    for filter in [None, Some(":/sub")] {
        let mut repo = Repo::new();
        repo.add_and_commit("a", "u");
        repo.head = repo.update(repo.head, &[("a", far(3))]).unwrap().commit_with_updates;
        let told = repo.fetch(filter);
        assert_eq!(told.last().unwrap(), "Done: fetched 2, skipped 0 (already present)");
        assert_eq!(repo.git.len(), 2);
        repo.git.clear();
        let told = repo.fetch(filter);
        assert_eq!(told.last().unwrap(), "Done: fetched 0, skipped 2 (already present)");
        assert_eq!(repo.git, Vec::<String>::new());
    }
}

#[test]
fn a_filtered_update_moves_the_selected_links() {
    for filter in [None, Some(":/sub")] {
        let mut repo = Repo::new();
        repo.add_and_commit("a", "u");
        repo.fetched = far(9);
        let told = repo.update_all(filter);
        assert_eq!(
            told,
            [
                "Found 1 link file(s) to update",
                "Fetching main from u",
                "Updated 1 link file(s)",
                "Updated branch: refs/heads/josh-link",
            ]
        );
        assert_eq!(repo.git, ["fetch u main"]);
    }
}
