//! The operations on links, reply by reply.

use josh_link::add::{prepare_link_add, PreparedLinkAdd};
use josh_link::collect::collect_all_link_refs;
use josh_link::error::{LinkError, LinkErrorOf};
use josh_link::export::export_link_source;
use josh_link::filter::{Filter, FilterOf, MetaKey};
use josh_link::link::{
    LinkFile, LinkRef, MaterializedLinkUpdateResult, PreparedLinkPush, Signature,
    UpdateLinksResult,
};
use josh_link::materialize::update_materialized_links;
use josh_link::oid::{HexError, ObjectId};
use josh_link::path::LinkPath;
use josh_link::push::{prepare_link_push, PreparePush};
use josh_link::signature::make_signature;
use josh_link::step::{Action, ActionOf, Outcome, Part, Reply, Request, RequestOf};
use josh_link::update::update_links;

fn id(n: u8) -> ObjectId {
    ObjectId { bytes: [n; 20] }
}

fn path(text: &str) -> LinkPath {
    LinkPath::from_text(text)
}

fn signer() -> Signature {
    Signature { name: b"A".to_vec(), email: b"a@b".to_vec(), seconds: 7, offset: 60 }
}

fn link(at: &str, filter: usize) -> LinkFile {
    LinkFile {
        path: path(at),
        filter,
        remote: Some("url".to_string()),
        target: Some("main".to_string()),
        commit: Some(id(0xcc).to_hex()),
        push: None,
        push_target: None,
    }
}

fn says(action: Action, context: &str) -> Request {
    RequestOf { action, context: Some(context.to_string()), within: None }
}

fn plain(action: Action) -> Request {
    RequestOf { action, context: None, within: None }
}

fn asked<M, T>(outcome: Outcome<M, T>) -> (Request, M) {
    match outcome {
        Outcome::Ask { request, next } => (request, next),
        Outcome::Done { .. } => panic!("done"),
        Outcome::Fail { error } => panic!("{}", error.message()),
    }
}

fn done<M, T>(outcome: Outcome<M, T>) -> T {
    match outcome {
        Outcome::Done { value } => value,
        Outcome::Ask { request, .. } => panic!("{:?}", request),
        Outcome::Fail { error } => panic!("{}", error.message()),
    }
}

fn failed<M, T>(outcome: Outcome<M, T>) -> LinkError {
    match outcome {
        Outcome::Fail { error } => error,
        Outcome::Ask { request, .. } => panic!("{:?}", request),
        Outcome::Done { .. } => panic!("done"),
    }
}

fn link_filter() -> Filter {
    Filter::parse(":link", "Failed to parse :link filter".to_string())
}

fn add(at: &str, filter: Option<&str>, push: Option<&str>, push_target: Option<&str>) -> (
    Request,
    PreparedLinkAdd,
) {
    let (stored, next) = asked(prepare_link_add(
        &path(at),
        "url",
        push,
        filter,
        "main",
        push_target,
        id(1),
        id(2),
        "snapshot",
    ));
    let (inserted, next) = asked(next.resume(Reply::Id(id(3))));
    assert_eq!(
        inserted,
        says(
            ActionOf::InsertBlob {
                tree: id(2),
                path: path("docs/.link.josh"),
                blob: id(3),
                mode: 0o100644,
            },
            "Failed to insert link file into tree"
        )
    );
    (stored, done(next.resume(Reply::Id(id(4)))))
}

#[test]
fn a_new_link_records_where_it_comes_from() {
    let (stored, added) = add("/docs", Some(":/sub"), None, None);
    let filter = Filter::parse(":/sub", "Failed to parse filter ':/sub'".to_string())
        .prefix(path("docs"))
        .with_meta(MetaKey::Remote, "url".to_string())
        .with_meta(MetaKey::Target, "main".to_string())
        .with_meta(MetaKey::Commit, id(1).to_hex())
        .with_meta(MetaKey::Mode, "snapshot".to_string());
    assert_eq!(stored, plain(ActionOf::WriteFilter { filter }));
    assert_eq!(added.tree_oid(), id(4));
    assert_eq!(added.into_tree_oid(), id(4));
}

#[test]
fn a_new_link_records_where_it_is_pushed() {
    let (stored, _) = add("docs", Some(":/"), Some("mine"), Some("feature"));
    let filter = Filter::parse(":/", "Failed to parse filter ':/'".to_string())
        .prefix(path("docs"))
        .with_meta(MetaKey::Remote, "url".to_string())
        .with_meta(MetaKey::Target, "main".to_string())
        .with_meta(MetaKey::Commit, id(1).to_hex())
        .with_meta(MetaKey::Mode, "snapshot".to_string())
        .with_meta(MetaKey::Push, "mine".to_string())
        .with_meta(MetaKey::PushTarget, "feature".to_string());
    assert_eq!(stored, plain(ActionOf::WriteFilter { filter }));
}

#[test]
fn a_missing_filter_is_the_default() {
    assert_eq!(add("docs", None, None, None).0, add("docs", Some(":/"), None, None).0);
}

#[test]
fn a_new_link_is_committed_on_top_of_the_head() {
    let (_, added) = add("/docs", None, None, None);
    let (request, next) = asked(added.into_commit(id(9), &signer()));
    assert_eq!(
        request,
        says(
            ActionOf::WriteCommit {
                tree: id(4),
                parent: id(9),
                signature: signer(),
                message: "Add link: docs".to_string(),
            },
            "Failed to create commit"
        )
    );
    assert_eq!(done(next.resume(Reply::Id(id(5)))), id(5));
}

#[test]
fn links_are_moved_and_committed() {
    let updates = vec![(path("b"), id(21)), (path("a"), id(22))];
    let (request, next) = asked(update_links(id(1), updates, &signer()));
    assert_eq!(request, says(ActionOf::ReadTree { commit: id(1) }, "Failed to get HEAD tree"));
    let (request, next) = asked(next.resume(Reply::Id(id(2))));
    assert_eq!(request, says(ActionOf::FindLinks { tree: id(2) }, "Failed to find link files"));
    let (request, next) = asked(next.resume(Reply::Links(vec![link("a", 5), link("b", 6)])));
    assert_eq!(
        request,
        plain(ActionOf::WriteFilter {
            filter: Filter::recorded(6).with_meta(MetaKey::Commit, id(21).to_hex())
        })
    );
    let (request, next) = asked(next.resume(Reply::Id(id(31))));
    assert_eq!(
        request,
        says(
            ActionOf::InsertBlob {
                tree: id(2),
                path: path("b/.link.josh"),
                blob: id(31),
                mode: 0o100644,
            },
            "Failed to insert link file into tree at path 'b'"
        )
    );
    let (request, next) = asked(next.resume(Reply::Id(id(41))));
    assert_eq!(
        request,
        plain(ActionOf::WriteFilter {
            filter: Filter::recorded(5).with_meta(MetaKey::Commit, id(22).to_hex())
        })
    );
    let (request, next) = asked(next.resume(Reply::Id(id(32))));
    assert_eq!(
        request,
        says(
            ActionOf::InsertBlob {
                tree: id(41),
                path: path("a/.link.josh"),
                blob: id(32),
                mode: 0o100644,
            },
            "Failed to insert link file into tree at path 'a'"
        )
    );
    let (request, next) = asked(next.resume(Reply::Id(id(42))));
    assert_eq!(
        request,
        says(
            ActionOf::WriteCommit {
                tree: id(42),
                parent: id(1),
                signature: signer(),
                message: "Update links: b, a".to_string(),
            },
            "Failed to create commit"
        )
    );
    let (request, next) = asked(next.resume(Reply::Id(id(51))));
    assert_eq!(
        request,
        says(
            ActionOf::FilterCommit { filter: link_filter(), commit: id(51) },
            "Failed to apply :link filter"
        )
    );
    assert_eq!(
        done(next.resume(Reply::Id(id(52)))),
        Some(UpdateLinksResult { commit_with_updates: id(51), filtered_commit: id(52) })
    );
}

#[test]
fn an_update_that_changes_nothing_commits_nothing() {
    let (_, next) = asked(update_links(id(1), vec![(path("a"), id(21))], &signer()));
    let (_, next) = asked(next.resume(Reply::Id(id(2))));
    let (_, next) = asked(next.resume(Reply::Links(vec![link("a", 0)])));
    let (_, next) = asked(next.resume(Reply::Id(id(31))));
    assert_eq!(done(next.resume(Reply::Id(id(2)))), None);
}

#[test]
fn an_update_of_no_links_writes_nothing() {
    let (_, next) = asked(update_links(id(1), Vec::new(), &signer()));
    let (_, next) = asked(next.resume(Reply::Id(id(2))));
    assert_eq!(done(next.resume(Reply::Links(vec![link("a", 0)]))), None);
}

#[test]
fn a_missing_link_file_stops_the_update_before_any_write() {
    let updates = vec![(path("a"), id(21)), (path("c"), id(22))];
    let (_, next) = asked(update_links(id(1), updates, &signer()));
    let (_, next) = asked(next.resume(Reply::Id(id(2))));
    assert_eq!(
        failed(next.resume(Reply::Links(vec![link("a", 0), link("b", 1)]))),
        LinkErrorOf::LinkFileNotFound { path: "c".to_string() }
    );
}

#[test]
fn a_reply_to_another_question_is_refused() {
    let (_, next) = asked(update_links(id(1), Vec::new(), &signer()));
    assert_eq!(failed(next.resume(Reply::Finished)), LinkErrorOf::UnexpectedReply);
    let (_, next) = asked(make_signature(None));
    assert_eq!(failed(next.resume(Reply::Flag(true))), LinkErrorOf::UnexpectedReply);
}

#[test]
fn a_materialized_update_keeps_the_previous_materialization() {
    let updates = vec![(path("a"), id(21))];
    let (request, next) = asked(update_materialized_links(id(1), updates, &signer()));
    assert_eq!(
        request,
        says(
            ActionOf::FilterCommit {
                filter: Filter::parse(":unlink", "Failed to parse :unlink filter".to_string()),
                commit: id(1),
            },
            "Failed to canonicalize materialized links"
        )
    );
    let (request, next) = asked(next.resume(Reply::Id(id(60))));
    assert_eq!(
        request,
        says(
            ActionOf::FilterCommit { filter: link_filter(), commit: id(60) },
            "Failed to materialize previous links"
        )
    );
    let (request, next) = asked(next.resume(Reply::Id(id(61))));
    assert_eq!(request, says(ActionOf::ReadTree { commit: id(60) }, "Failed to get HEAD tree"));
    let (_, next) = asked(next.resume(Reply::Id(id(2))));
    let (_, next) = asked(next.resume(Reply::Links(vec![link("a", 0)])));
    let (_, next) = asked(next.resume(Reply::Id(id(31))));
    let (_, next) = asked(next.resume(Reply::Id(id(41))));
    let (_, next) = asked(next.resume(Reply::Id(id(51))));
    assert_eq!(
        done(next.resume(Reply::Id(id(52)))),
        Some(MaterializedLinkUpdateResult {
            previous_materialized_commit: id(61),
            update: UpdateLinksResult { commit_with_updates: id(51), filtered_commit: id(52) },
        })
    );
}

#[test]
fn a_materialized_update_of_no_links_is_none() {
    let (_, next) = asked(update_materialized_links(id(1), Vec::new(), &signer()));
    let (_, next) = asked(next.resume(Reply::Id(id(60))));
    let (_, next) = asked(next.resume(Reply::Id(id(61))));
    let (_, next) = asked(next.resume(Reply::Id(id(2))));
    assert_eq!(done(next.resume(Reply::Links(Vec::new()))), None);
}

fn named(remote: Option<&str>, commit: Option<&str>) -> LinkFile {
    LinkFile {
        remote: remote.map(|s| s.to_string()),
        commit: commit.map(|s| s.to_string()),
        ..link("a", 0)
    }
}

#[test]
fn every_linked_commit_of_the_history_is_collected_once() {
    let (request, next) = asked(collect_all_link_refs(id(1)));
    assert_eq!(
        request,
        says(
            ActionOf::FilterCommit {
                filter: Filter::parse(
                    "::**/.link.josh",
                    "Failed to parse .link.josh filter".to_string()
                ),
                commit: id(1),
            },
            "Failed to apply .link.josh filter"
        )
    );
    let (request, next) = asked(next.resume(Reply::Id(id(2))));
    assert_eq!(
        request,
        says(
            ActionOf::WalkHistory {
                from: id(2),
                start_context: "Failed to push commit to revwalk".to_string(),
            },
            "Failed to walk history"
        )
    );
    let (request, next) = asked(next.resume(Reply::Ids(vec![id(3), id(4)])));
    assert_eq!(
        request,
        says(ActionOf::ReadTree { commit: id(3) }, "Failed to get commit tree")
    );
    let (request, next) = asked(next.resume(Reply::Id(id(13))));
    assert_eq!(request, says(ActionOf::FindLinks { tree: id(13) }, "Failed to find link files"));
    let (request, next) = asked(next.resume(Reply::Links(vec![
        named(Some("u"), Some("1")),
        named(Some("u"), Some("2")),
        named(None, Some("3")),
        named(Some("v"), None),
    ])));
    assert_eq!(
        request,
        says(ActionOf::ReadTree { commit: id(4) }, "Failed to get commit tree")
    );
    let (_, next) = asked(next.resume(Reply::Id(id(14))));
    let refs = done(next.resume(Reply::Links(vec![
        named(Some("u"), Some("2")),
        named(Some("v"), Some("2")),
    ])));
    let expected = [("u", "1"), ("u", "2"), ("v", "2")];
    assert_eq!(refs.len(), expected.len());
    for (remote, commit) in expected {
        assert!(refs.contains(&LinkRef { remote: remote.to_string(), commit: commit.to_string() }));
    }
}

#[test]
fn a_history_without_link_files_is_not_walked() {
    let (_, next) = asked(collect_all_link_refs(id(1)));
    assert_eq!(done(next.resume(Reply::Id(ObjectId::null()))), Vec::new());
}

#[test]
fn a_fixed_time_gives_a_fixed_signature() {
    let signature = done(make_signature(Some("1112911993")));
    assert_eq!(
        signature,
        Signature {
            name: b"JOSH".to_vec(),
            email: b"josh@josh-project.dev".to_vec(),
            seconds: 1112911993,
            offset: 0,
        }
    );
    assert_eq!(done(make_signature(Some("-5"))).seconds, -5);
    assert_eq!(done(make_signature(Some("+5"))).seconds, 5);
    assert_eq!(done(make_signature(Some("9223372036854775807"))).seconds, i64::MAX);
    assert_eq!(done(make_signature(Some("-9223372036854775808"))).seconds, i64::MIN);
}

#[test]
fn a_fixed_time_that_is_no_number_is_refused() {
    for text in ["", "-", "+", "x", "1 ", " 1", "1.5", "0x1", "9223372036854775808", "1_0"] {
        assert_eq!(failed(make_signature(Some(text))), LinkErrorOf::InvalidCommitTime);
    }
}

#[test]
fn without_a_fixed_time_the_repository_signs() {
    let (request, next) = asked(make_signature(None));
    assert_eq!(request, says(ActionOf::ReadSignature, "Failed to get signature"));
    assert_eq!(done(next.resume(Reply::Signature(signer()))), signer());
}

fn user_filter(text: &str) -> Filter {
    Filter::parse(text, format!("Failed to parse filter '{}'", text))
}

#[test]
fn an_export_goes_through_the_inverse_of_the_filter() {
    let (request, next) = asked(export_link_source(id(1), &path("/docs/"), ":/sub"));
    let filter = FilterOf::Identity.subdir(path("docs")).export().chain(
        user_filter(":/sub").invert("Filter ':/sub' has no inverse".to_string()),
    );
    assert_eq!(
        request,
        says(
            ActionOf::FilterCommit { filter, commit: id(1) },
            "Failed to export existing link contents"
        )
    );
    assert_eq!(done(next.resume(Reply::Id(id(2)))), Some(id(2)));
}

#[test]
fn an_export_without_content_is_none() {
    let (_, next) = asked(export_link_source(id(1), &path("docs"), ":/"));
    assert_eq!(done(next.resume(Reply::Id(ObjectId::null()))), None);
}

#[test]
fn an_export_ignores_slashes_around_the_path() {
    let (plain_request, _) = asked(export_link_source(id(1), &path("docs"), ":/"));
    let (request, _) = asked(export_link_source(id(1), &path("//docs/"), ":/"));
    assert_eq!(request, plain_request);
}

#[test]
fn an_export_needs_a_path_that_is_text() {
    assert_eq!(failed(export_link_source(id(1), &path("//"), ":/")), LinkErrorOf::EmptyPath);
    assert_eq!(failed(export_link_source(id(1), &path(""), ":/")), LinkErrorOf::EmptyPath);
    let odd = LinkPath { bytes: vec![0xff] };
    assert_eq!(
        failed(export_link_source(id(1), &odd, ":/")),
        LinkErrorOf::NotText { path: "\u{fffd}".to_string() }
    );
}

#[test]
fn a_push_reverses_the_linked_history() {
    let (request, next) = asked(prepare_link_push(id(1), &path("/docs")));
    assert_eq!(request, says(ActionOf::ReadTree { commit: id(1) }, "Failed to get commit tree"));
    let (request, next) = asked(next.resume(Reply::Id(id(2))));
    assert_eq!(request, says(ActionOf::FindLinks { tree: id(2) }, "Failed to find link files"));
    let found = LinkFile {
        push: Some("mine".to_string()),
        push_target: Some("feature".to_string()),
        ..link("docs", 3)
    };
    let (request, next) = asked(next.resume(Reply::Links(vec![link("a", 0), found])));
    let source = || Filter::recorded(3).peel();
    assert_eq!(
        request,
        says(
            ActionOf::FilterCommit { filter: source(), commit: id(0xcc) },
            "Failed to filter the pinned link commit"
        )
    );
    let (request, next) = asked(next.resume(Reply::Id(id(11))));
    let local = FilterOf::Identity
        .subdir(path("docs"))
        .exclude(FilterOf::Identity.file(".link.josh"))
        .prefix(path("docs"));
    assert_eq!(
        request,
        says(
            ActionOf::FilterCommit { filter: local, commit: id(1) },
            "Failed to isolate the local link history"
        )
    );
    let (request, next) = asked(next.resume(Reply::Id(id(12))));
    assert_eq!(
        request,
        says(
            ActionOf::UnapplyFilter {
                filter: source(),
                original: id(0xcc),
                filtered: id(11),
                changed: id(12),
            },
            "Failed to reverse the linked history"
        )
    );
    assert_eq!(
        done(next.resume(Reply::Id(id(13)))),
        PreparedLinkPush {
            remote: "url".to_string(),
            push_remote: Some("mine".to_string()),
            configured_target: "main".to_string(),
            configured_push_target: Some("feature".to_string()),
            exported_commit: id(13),
        }
    );
}

fn push_with(at: &str, files: Vec<LinkFile>) -> Outcome<PreparePush, PreparedLinkPush> {
    let (_, next) = asked(prepare_link_push(id(1), &path(at)));
    let (_, next) = asked(next.resume(Reply::Id(id(2))));
    next.resume(Reply::Links(files))
}

#[test]
fn a_push_without_a_target_goes_to_head() {
    let file = LinkFile { target: None, ..link("docs", 0) };
    let (_, next) = asked(push_with("docs", vec![file]));
    let (_, next) = asked(next.resume(Reply::Id(id(11))));
    let (_, next) = asked(next.resume(Reply::Id(id(12))));
    let push = done(next.resume(Reply::Id(id(13))));
    assert_eq!(push.configured_target, "HEAD");
    assert_eq!(push.push_remote, None);
    assert_eq!(push.configured_push_target, None);
}

#[test]
fn a_push_needs_a_link() {
    assert_eq!(
        failed(push_with("/docs/", vec![link("a", 0)])),
        LinkErrorOf::NoLink { path: "/docs/".to_string() }
    );
}

#[test]
fn a_push_needs_the_remote_and_the_commit() {
    let no_remote = LinkFile { remote: None, commit: None, ..link("docs", 0) };
    assert_eq!(
        failed(push_with("docs", vec![no_remote])),
        LinkErrorOf::MissingMeta { key: MetaKey::Remote }
    );
    let no_commit = LinkFile { commit: None, ..link("docs", 0) };
    assert_eq!(
        failed(push_with("docs", vec![no_commit])),
        LinkErrorOf::MissingMeta { key: MetaKey::Commit }
    );
}

#[test]
fn a_push_needs_a_commit_that_is_an_identifier() {
    let short = LinkFile { commit: Some("abc".to_string()), ..link("docs", 0) };
    assert_eq!(
        failed(push_with("docs", vec![short])),
        LinkErrorOf::InvalidCommitId { cause: HexError::Length(3) }
    );
    let odd = LinkFile { commit: Some("x".repeat(40)), ..link("docs", 0) };
    assert_eq!(
        failed(push_with("docs", vec![odd])),
        LinkErrorOf::InvalidCommitId { cause: HexError::Character }
    );
}

#[test]
fn a_push_needs_content() {
    let (_, next) = asked(push_with("docs/", vec![link("docs", 0)]));
    let (_, next) = asked(next.resume(Reply::Id(id(11))));
    assert_eq!(
        failed(next.resume(Reply::Id(ObjectId::null()))),
        LinkErrorOf::NothingToPush { path: "docs/".to_string() }
    );
}

#[test]
fn a_push_needs_a_path_that_is_text() {
    assert_eq!(failed(prepare_link_push(id(1), &path("/"))), LinkErrorOf::EmptyPath);
    let odd = LinkPath { bytes: vec![b'a', 0xfe] };
    assert_eq!(
        failed(prepare_link_push(id(1), &odd)),
        LinkErrorOf::NotText { path: "a\u{fffd}".to_string() }
    );
}

#[test]
fn what_a_new_link_records_reads_back() {
    let (stored, _) = add("docs", None, None, None);
    let mut file = LinkFile { remote: None, target: None, commit: None, ..link("docs", 0) };
    let mut filter = match stored.action {
        ActionOf::WriteFilter { filter } => filter,
        other => panic!("{:?}", other),
    };
    while let FilterOf::Meta { base, key, value } = filter {
        match key {
            MetaKey::Remote => file.remote = Some(value),
            MetaKey::Target => file.target = Some(value),
            MetaKey::Commit => file.commit = Some(value),
            _ => {}
        }
        filter = *base;
    }
    let (request, next) = asked(push_with("docs", vec![file]));
    assert_eq!(
        request,
        says(
            ActionOf::FilterCommit { filter: Filter::recorded(0).peel(), commit: id(1) },
            "Failed to filter the pinned link commit"
        )
    );
    let (_, next) = asked(next.resume(Reply::Id(id(11))));
    let (_, next) = asked(next.resume(Reply::Id(id(12))));
    let push = done(next.resume(Reply::Id(id(13))));
    assert_eq!(push.remote, "url");
    assert_eq!(push.configured_target, "main");
}

fn failure(context: Option<&str>, within: Option<&str>) -> LinkError {
    LinkErrorOf::ActionFailed {
        context: context.map(|s| s.to_string()),
        within: within.map(|s| s.to_string()),
    }
}

#[test]
fn a_failed_action_ends_the_operation_in_its_context() {
    let (request, next) = asked(update_links(id(1), Vec::new(), &signer()));
    assert_eq!(
        failed(next.resume(request.failed(Part::Action))),
        failure(Some("Failed to get HEAD tree"), None)
    );
    let (request, next) = asked(make_signature(None));
    assert_eq!(
        failed(next.resume(request.failed(Part::Action))),
        failure(Some("Failed to get signature"), None)
    );
    let (request, next) = asked(prepare_link_push(id(1), &path("docs")));
    assert_eq!(
        failed(next.resume(request.failed(Part::Action))),
        failure(Some("Failed to get commit tree"), None)
    );
    let (request, next) = asked(update_materialized_links(id(1), Vec::new(), &signer()));
    assert_eq!(
        failed(next.resume(request.failed(Part::Action))),
        failure(Some("Failed to canonicalize materialized links"), None)
    );
}

#[test]
fn a_failed_part_is_reported_in_a_context_of_its_own() {
    let (request, next) = asked(export_link_source(id(1), &path("docs"), ":/sub"));
    assert_eq!(
        failed(next.resume(request.failed(Part::Parse(0)))),
        failure(Some("Failed to parse filter ':/sub'"), None)
    );
    let (request, next) = asked(export_link_source(id(1), &path("docs"), ":/sub"));
    assert_eq!(
        failed(next.resume(request.failed(Part::Inverse(0)))),
        failure(Some("Filter ':/sub' has no inverse"), None)
    );
    let (request, next) = asked(export_link_source(id(1), &path("docs"), ":/sub"));
    assert_eq!(failed(next.resume(request.failed(Part::Filter))), failure(None, None));
    assert_eq!(
        request.failed(Part::Parse(1)),
        Reply::Failed { context: None, within: None }
    );

    let (_, next) = asked(collect_all_link_refs(id(1)));
    let (request, next) = asked(next.resume(Reply::Id(id(2))));
    assert_eq!(
        failed(next.resume(request.failed(Part::Start))),
        failure(Some("Failed to push commit to revwalk"), None)
    );
}

#[test]
fn a_failed_write_without_a_context_is_reported_as_it_is() {
    let (request, next) = asked(prepare_link_add(
        &path("docs"),
        "url",
        None,
        Some(":bad"),
        "main",
        None,
        id(1),
        id(2),
        "snapshot",
    ));
    assert_eq!(
        request.failed(Part::Parse(0)),
        Reply::Failed {
            context: Some("Failed to parse filter ':bad'".to_string()),
            within: None,
        }
    );
    assert_eq!(failed(next.resume(request.failed(Part::Action))), failure(None, None));
}
