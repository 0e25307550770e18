//! The commands, turn by turn.

use josh_link::command::add::{handle_link_add, AddLink};
use josh_link::command::args::{
    LinkAddArgs, LinkArgs, LinkCommand, LinkFetchArgs, LinkPushArgs, LinkUpdateArgs,
};
use josh_link::command::fetch::handle_link_fetch;
use josh_link::command::handle::handle_link;
use josh_link::command::push::handle_link_push;
use josh_link::command::update::handle_link_update;
use josh_link::error::{LinkError, LinkErrorOf};
use josh_link::filter::{Filter, FilterOf, MetaKey};
use josh_link::link::{LinkFile, Signature};
use josh_link::oid::{HexError, ObjectId};
use josh_link::path::LinkPath;
use josh_link::step::{Action, ActionOf, Outcome, Part, Reply, Request, RequestOf};
use josh_link::turn::Turn;

fn id(n: u8) -> ObjectId {
    ObjectId { bytes: [n; 20] }
}

fn path(text: &str) -> LinkPath {
    LinkPath::from_text(text)
}

fn signer() -> Signature {
    Signature { name: b"A".to_vec(), email: b"a@b".to_vec(), seconds: 7, offset: 60 }
}

fn link(at: &str, filter: usize) -> LinkFile {
    LinkFile {
        path: path(at),
        filter,
        remote: Some("url".to_string()),
        target: Some("main".to_string()),
        commit: Some(id(0xcc).to_hex()),
        push: None,
        push_target: None,
    }
}

fn says(action: Action, context: &str) -> Request {
    RequestOf { action, context: Some(context.to_string()), within: None }
}

fn plain(action: Action) -> Request {
    RequestOf { action, context: None, within: None }
}

fn git(verb: &str, remote: &str, refspec: &str) -> Action {
    ActionOf::Git {
        verb: verb.to_string(),
        remote: remote.to_string(),
        refspec: refspec.to_string(),
    }
}

fn lines<M>(turn: &Turn<M>) -> Vec<String> {
    turn.tell.iter().map(|notice| notice.text()).collect()
}

fn asked<M>(turn: Turn<M>, told: &[&str]) -> (Request, M) {
    assert_eq!(lines(&turn), told);
    match turn.outcome {
        Outcome::Ask { request, next } => (request, next),
        Outcome::Done { .. } => panic!("done"),
        Outcome::Fail { error } => panic!("{}", error.message()),
    }
}

fn done<M>(turn: Turn<M>, told: &[&str]) {
    assert_eq!(lines(&turn), told);
    match turn.outcome {
        Outcome::Done { value: () } => {}
        Outcome::Ask { request, .. } => panic!("{:?}", request),
        Outcome::Fail { error } => panic!("{}", error.message()),
    }
}

fn failed<M>(turn: Turn<M>, told: &[&str]) -> LinkError {
    assert_eq!(lines(&turn), told);
    match turn.outcome {
        Outcome::Fail { error } => error,
        Outcome::Ask { request, .. } => panic!("{:?}", request),
        Outcome::Done { .. } => panic!("done"),
    }
}

fn head() -> Request {
    says(ActionOf::Head, "Failed to get HEAD")
}

fn user_filter(text: &str) -> Filter {
    Filter::parse(text, format!("Failed to parse filter '{}'", text))
}

fn round_trip(text: &str) -> Filter {
    user_filter(text).chain(
        user_filter(text).invert(format!("Filter '{}' has no inverse", text)),
    )
}

fn add_args(at: &str) -> LinkAddArgs {
    LinkAddArgs {
        path: at.to_string(),
        url: "url".to_string(),
        filter: None,
        target: None,
        mode: "snapshot".to_string(),
    }
}

fn add_up_to_export(args: &LinkAddArgs, commit_time: Option<&str>) -> AddLink {
    let (request, next) = asked(handle_link_add(args, commit_time), &[]);
    assert_eq!(request, head());
    let (request, next) = asked(next.resume(Reply::Id(id(1))), &[]);
    assert_eq!(
        request,
        says(
            ActionOf::ParseMode { text: args.mode.clone() },
            &format!("Invalid link mode: '{}'", args.mode)
        )
    );
    let (request, next) = asked(next.resume(Reply::Text("snapshot".to_string())), &[]);
    let text = args.filter.as_deref().unwrap_or(":/");
    let filter = FilterOf::Identity.subdir(path("docs")).export().chain(
        user_filter(text).invert(format!("Filter '{}' has no inverse", text)),
    );
    assert_eq!(
        request,
        says(
            ActionOf::FilterCommit { filter, commit: id(1) },
            "Failed to export existing link contents"
        )
    );
    next
}

fn link_pinned_to(commit: ObjectId, filter: &str, target: &str) -> Request {
    plain(ActionOf::WriteFilter {
        filter: user_filter(filter)
            .prefix(path("docs"))
            .with_meta(MetaKey::Remote, "url".to_string())
            .with_meta(MetaKey::Target, target.to_string())
            .with_meta(MetaKey::Commit, commit.to_hex())
            .with_meta(MetaKey::Mode, "snapshot".to_string()),
    })
}

#[test]
fn a_link_is_added_to_local_content() {
    let args = LinkAddArgs {
        filter: Some(":/sub".to_string()),
        target: Some("main".to_string()),
        ..add_args("/docs")
    };
    let next = add_up_to_export(&args, None);
    let using = format!("Using local content at 'docs' ({})", id(2).to_hex());
    let (request, next) = asked(next.resume(Reply::Id(id(2))), &[&using]);
    assert_eq!(request, says(ActionOf::ReadSignature, "Failed to get signature"));
    let (request, next) = asked(next.resume(Reply::Signature(signer())), &[]);
    assert_eq!(request, plain(ActionOf::ReadCommitTree { commit: id(1), read_context: None }));
    let (request, next) = asked(next.resume(Reply::Id(id(3))), &[]);
    assert_eq!(request, link_pinned_to(id(2), ":/sub", "main"));
    let (request, next) = asked(next.resume(Reply::Id(id(4))), &[]);
    assert_eq!(
        request,
        says(
            ActionOf::InsertBlob {
                tree: id(3),
                path: path("docs/.link.josh"),
                blob: id(4),
                mode: 0o100644,
            },
            "Failed to insert link file into tree"
        )
    );
    let (request, next) = asked(next.resume(Reply::Id(id(5))), &[]);
    assert_eq!(
        request,
        says(
            ActionOf::WriteCommit {
                tree: id(5),
                parent: id(1),
                signature: signer(),
                message: "Add link: docs".to_string(),
            },
            "Failed to create commit"
        )
    );
    let (request, next) = asked(next.resume(Reply::Id(id(6))), &[]);
    assert_eq!(
        request,
        says(
            ActionOf::UpdateRef {
                name: "refs/heads/josh-link".to_string(),
                target: id(6),
                log: "josh link add".to_string(),
            },
            "Failed to create branch 'refs/heads/josh-link'"
        )
    );
    done(
        next.resume(Reply::Finished),
        &[
            "Added link 'docs' with URL 'url', filter ':/sub', target 'main', and mode 'snapshot'",
            "Created branch: refs/heads/josh-link",
        ],
    );
}

#[test]
fn a_link_is_added_to_fetched_content() {
    let next = add_up_to_export(&add_args("docs"), Some("10"));
    let (request, next) = asked(
        next.resume(Reply::Id(ObjectId::null())),
        &["No local content at 'docs', fetching from remote..."],
    );
    assert_eq!(request, says(git("fetch", "url", "HEAD"), "Failed to execute git fetch"));
    let (request, next) = asked(next.resume(Reply::Finished), &[]);
    assert_eq!(
        request,
        says(ActionOf::ResolveFetchHead, "Failed to resolve FETCH_HEAD after fetch")
    );
    let using = format!("Using fetched commit {}", id(7).to_hex());
    let (request, next) = asked(next.resume(Reply::Id(id(7))), &[&using]);
    assert_eq!(request, plain(ActionOf::ReadCommitTree { commit: id(1), read_context: None }));
    let (request, next) = asked(next.resume(Reply::Id(id(3))), &[]);
    assert_eq!(request, link_pinned_to(id(7), ":/", "HEAD"));
    let (_, next) = asked(next.resume(Reply::Id(id(4))), &[]);
    let (request, next) = asked(next.resume(Reply::Id(id(5))), &[]);
    match request.action {
        ActionOf::WriteCommit { signature, .. } => {
            assert_eq!(signature.name, b"JOSH");
            assert_eq!(signature.seconds, 10);
        }
        other => panic!("{:?}", other),
    }
    let (_, next) = asked(next.resume(Reply::Id(id(6))), &[]);
    done(
        next.resume(Reply::Finished),
        &[
            "Added link 'docs' with URL 'url', filter ':/', target 'HEAD', and mode 'snapshot'",
            "Created branch: refs/heads/josh-link",
        ],
    );
}

#[test]
fn a_link_needs_a_path() {
    assert_eq!(failed(handle_link_add(&add_args(""), None), &[]), LinkErrorOf::EmptyPath);
    let (_, next) = asked(handle_link_add(&add_args("/"), None), &[]);
    let (_, next) = asked(next.resume(Reply::Id(id(1))), &[]);
    assert_eq!(
        failed(next.resume(Reply::Text("snapshot".to_string())), &[]),
        LinkErrorOf::EmptyPath
    );
}

#[test]
fn a_link_is_not_added_at_a_time_that_is_no_number() {
    let next = add_up_to_export(&add_args("docs"), Some("soon"));
    let using = format!("Using local content at 'docs' ({})", id(2).to_hex());
    assert_eq!(failed(next.resume(Reply::Id(id(2))), &[&using]), LinkErrorOf::InvalidCommitTime);
}

#[test]
fn missing_arguments_of_a_new_link_are_defaults() {
    let full = LinkAddArgs {
        filter: Some(":/".to_string()),
        target: Some("HEAD".to_string()),
        ..add_args("docs")
    };
    for args in [full, add_args("docs")] {
        let next = add_up_to_export(&args, Some("10"));
        let (request, _) = asked(
            next.resume(Reply::Id(ObjectId::null())),
            &["No local content at 'docs', fetching from remote..."],
        );
        assert_eq!(request, says(git("fetch", "url", "HEAD"), "Failed to execute git fetch"));
    }
}

fn named(remote: &str, commit: &str) -> LinkFile {
    LinkFile {
        remote: Some(remote.to_string()),
        commit: Some(commit.to_string()),
        ..link("a", 0)
    }
}

#[test]
fn absent_commits_are_fetched_and_counted() {
    let (request, next) = asked(handle_link_fetch(&LinkFetchArgs { filter: None }), &[]);
    assert_eq!(request, head());
    let (request, next) = asked(next.resume(Reply::Id(id(1))), &[]);
    assert_eq!(request.within.as_deref(), Some("Failed to collect link refs from history"));
    assert_eq!(request.context.as_deref(), Some("Failed to apply .link.josh filter"));
    let (_, next) = asked(next.resume(Reply::Id(id(2))), &[]);
    let (_, next) = asked(next.resume(Reply::Ids(vec![id(2)])), &[]);
    let (_, next) = asked(next.resume(Reply::Id(id(3))), &[]);
    let first = id(0xaa).to_hex();
    let second = id(0xbb).to_hex();
    let files = vec![named("u", &first), named("v", &second)];
    let (request, next) = asked(
        next.resume(Reply::Links(files)),
        &["Found 2 unique (remote, sha) pair(s) across history"],
    );
    assert_eq!(request, plain(ActionOf::HasObject { id: id(0xaa) }));
    let (request, next) = asked(next.resume(Reply::Flag(true)), &[]);
    assert_eq!(request, plain(ActionOf::HasObject { id: id(0xbb) }));
    let fetching = format!("Fetching {} from v", second);
    let (request, next) = asked(next.resume(Reply::Flag(false)), &[&fetching]);
    assert_eq!(
        request,
        says(
            git("fetch", "v", &format!("{}:refs/josh/link-shas/{}", second, second)),
            &format!("git fetch of {} from v failed", second)
        )
    );
    done(
        next.resume(Reply::Finished),
        &["Done: fetched 1, skipped 1 (already present)"],
    );
}

#[test]
fn a_fetch_considers_what_the_filter_selects() {
    let args = LinkFetchArgs { filter: Some(":/sub".to_string()) };
    let (_, next) = asked(handle_link_fetch(&args), &[]);
    let (request, next) = asked(next.resume(Reply::Id(id(1))), &[]);
    assert_eq!(
        request,
        says(
            ActionOf::FilterCommit { filter: round_trip(":/sub"), commit: id(1) },
            "Failed to apply filter"
        )
    );
    let (request, next) = asked(next.resume(Reply::Id(id(9))), &[]);
    match request.action {
        ActionOf::FilterCommit { commit, .. } => assert_eq!(commit, id(9)),
        other => panic!("{:?}", other),
    }
    done(
        next.resume(Reply::Id(ObjectId::null())),
        &["No .link.josh references found in history"],
    );
}

#[test]
fn a_fetch_refuses_a_commit_that_is_no_identifier() {
    let (_, next) = asked(handle_link_fetch(&LinkFetchArgs { filter: None }), &[]);
    let (_, next) = asked(next.resume(Reply::Id(id(1))), &[]);
    let (_, next) = asked(next.resume(Reply::Id(id(2))), &[]);
    let (_, next) = asked(next.resume(Reply::Ids(vec![id(2)])), &[]);
    let (_, next) = asked(next.resume(Reply::Id(id(3))), &[]);
    assert_eq!(
        failed(
            next.resume(Reply::Links(vec![named("u", "main")])),
            &["Found 1 unique (remote, sha) pair(s) across history"]
        ),
        LinkErrorOf::InvalidCommitSha { commit: "main".to_string(), cause: HexError::Length(4) }
    );
}

#[test]
fn every_link_is_moved_to_what_was_fetched() {
    let (request, next) = asked(handle_link_update(&LinkUpdateArgs { filter: None }, None), &[]);
    assert_eq!(request, head());
    let (request, next) = asked(next.resume(Reply::Id(id(1))), &[]);
    assert_eq!(
        request,
        says(
            ActionOf::ReadCommitTree { commit: id(1), read_context: None },
            "Failed to get HEAD tree"
        )
    );
    let (request, next) = asked(next.resume(Reply::Id(id(2))), &[]);
    assert_eq!(request, says(ActionOf::FindLinks { tree: id(2) }, "Failed to find link files"));
    let other = LinkFile { target: None, ..link("b", 1) };
    let (request, next) = asked(
        next.resume(Reply::Links(vec![link("a", 0), other])),
        &["Found 2 link file(s) to update", "Fetching main from url"],
    );
    assert_eq!(request, says(git("fetch", "url", "main"), "git fetch failed for 'a'"));
    let (request, next) = asked(next.resume(Reply::Finished), &[]);
    assert_eq!(request, says(ActionOf::ResolveFetchHead, "Failed to resolve FETCH_HEAD"));
    let (request, next) = asked(next.resume(Reply::Id(id(21))), &["Fetching HEAD from url"]);
    assert_eq!(request, says(git("fetch", "url", "HEAD"), "git fetch failed for 'b'"));
    let (_, next) = asked(next.resume(Reply::Finished), &[]);
    let (request, next) = asked(next.resume(Reply::Id(id(22))), &[]);
    assert_eq!(request, says(ActionOf::ReadSignature, "Failed to get signature"));
    let (request, next) = asked(next.resume(Reply::Signature(signer())), &[]);
    assert_eq!(request, says(ActionOf::ReadTree { commit: id(1) }, "Failed to get HEAD tree"));
    let (_, next) = asked(next.resume(Reply::Id(id(2))), &[]);
    let (request, next) = asked(
        next.resume(Reply::Links(vec![link("a", 0), link("b", 1)])),
        &[],
    );
    assert_eq!(
        request,
        plain(ActionOf::WriteFilter {
            filter: Filter::recorded(0).with_meta(MetaKey::Commit, id(21).to_hex())
        })
    );
    let (_, next) = asked(next.resume(Reply::Id(id(31))), &[]);
    let (request, next) = asked(next.resume(Reply::Id(id(41))), &[]);
    assert_eq!(
        request,
        plain(ActionOf::WriteFilter {
            filter: Filter::recorded(1).with_meta(MetaKey::Commit, id(22).to_hex())
        })
    );
    let (_, next) = asked(next.resume(Reply::Id(id(32))), &[]);
    let (_, next) = asked(next.resume(Reply::Id(id(42))), &[]);
    let (_, next) = asked(next.resume(Reply::Id(id(51))), &[]);
    let (request, next) = asked(next.resume(Reply::Id(id(52))), &[]);
    assert_eq!(
        request,
        says(
            ActionOf::UpdateRef {
                name: "refs/heads/josh-link".to_string(),
                target: id(52),
                log: "josh link update".to_string(),
            },
            "Failed to update branch 'refs/heads/josh-link'"
        )
    );
    done(
        next.resume(Reply::Finished),
        &["Updated 2 link file(s)", "Updated branch: refs/heads/josh-link"],
    );
}

#[test]
fn links_that_did_not_move_are_up_to_date() {
    let (_, next) = asked(handle_link_update(&LinkUpdateArgs { filter: None }, Some("1")), &[]);
    let (_, next) = asked(next.resume(Reply::Id(id(1))), &[]);
    let (_, next) = asked(next.resume(Reply::Id(id(2))), &[]);
    let (_, next) = asked(
        next.resume(Reply::Links(vec![link("a", 0)])),
        &["Found 1 link file(s) to update", "Fetching main from url"],
    );
    let (_, next) = asked(next.resume(Reply::Finished), &[]);
    let (request, next) = asked(next.resume(Reply::Id(id(0xcc))), &[]);
    assert_eq!(request, says(ActionOf::ReadTree { commit: id(1) }, "Failed to get HEAD tree"));
    let (_, next) = asked(next.resume(Reply::Id(id(2))), &[]);
    let (_, next) = asked(next.resume(Reply::Links(vec![link("a", 0)])), &[]);
    let (_, next) = asked(next.resume(Reply::Id(id(31))), &[]);
    done(next.resume(Reply::Id(id(2))), &["All 1 link file(s) already up to date"]);
}

#[test]
fn an_update_considers_what_the_filter_selects() {
    let args = LinkUpdateArgs { filter: Some(":/sub".to_string()) };
    let (_, next) = asked(handle_link_update(&args, None), &[]);
    let (_, next) = asked(next.resume(Reply::Id(id(1))), &[]);
    let (request, next) = asked(next.resume(Reply::Id(id(2))), &[]);
    assert_eq!(
        request,
        says(
            ActionOf::FilterCommit { filter: round_trip(":/sub"), commit: id(1) },
            "Failed to apply filter"
        )
    );
    let (request, next) = asked(next.resume(Reply::Id(id(3))), &[]);
    assert_eq!(
        request,
        says(
            ActionOf::ReadCommitTree {
                commit: id(3),
                read_context: Some("Failed to find filtered commit".to_string()),
            },
            "Failed to get filtered tree"
        )
    );
    let (request, next) = asked(next.resume(Reply::Id(id(4))), &[]);
    assert_eq!(
        request,
        says(ActionOf::FindLinks { tree: id(4) }, "Failed to find link files in filtered tree")
    );
    let no_remote = LinkFile { remote: None, ..link("a", 0) };
    assert_eq!(
        failed(next.resume(Reply::Links(vec![no_remote])), &["Found 1 link file(s) to update"]),
        LinkErrorOf::MissingMetaAt { key: MetaKey::Remote, path: "a".to_string() }
    );
}

#[test]
fn an_update_without_link_files_is_refused() {
    let (_, next) = asked(handle_link_update(&LinkUpdateArgs { filter: None }, None), &[]);
    let (_, next) = asked(next.resume(Reply::Id(id(1))), &[]);
    let (_, next) = asked(next.resume(Reply::Id(id(2))), &[]);
    assert_eq!(failed(next.resume(Reply::Links(Vec::new())), &[]), LinkErrorOf::NoLinkFiles);
    let args = LinkUpdateArgs { filter: Some(":/sub".to_string()) };
    let (_, next) = asked(handle_link_update(&args, None), &[]);
    let (_, next) = asked(next.resume(Reply::Id(id(1))), &[]);
    let (_, next) = asked(next.resume(Reply::Id(id(2))), &[]);
    assert_eq!(
        failed(next.resume(Reply::Id(ObjectId::null())), &[]),
        LinkErrorOf::NoLinkFiles
    );
}

fn pushed(at: &str, force: bool, target: Option<&str>) -> Request {
    let args = LinkPushArgs { path: at.to_string(), force };
    let (request, next) = asked(handle_link_push(&args), &[]);
    assert_eq!(request, head());
    let (_, next) = asked(next.resume(Reply::Id(id(1))), &[]);
    let (_, next) = asked(next.resume(Reply::Id(id(2))), &[]);
    let file = LinkFile { target: target.map(|t| t.to_string()), ..link("docs", 0) };
    let (_, next) = asked(next.resume(Reply::Links(vec![file])), &[]);
    let (_, next) = asked(next.resume(Reply::Id(id(11))), &[]);
    let (_, next) = asked(next.resume(Reply::Id(id(12))), &[]);
    let (request, next) = asked(next.resume(Reply::Id(id(13))), &[]);
    done(next.resume(Reply::Finished), &[]);
    request
}

#[test]
fn a_link_is_pushed_to_its_branch() {
    let exported = id(13).to_hex();
    assert_eq!(
        pushed("docs", false, Some("main")),
        says(git("push", "url", &format!("{}:main", exported)), "Failed to push to 'url'")
    );
}

#[test]
fn a_forced_push_has_a_plus_sign() {
    let exported = id(13).to_hex();
    assert_eq!(
        pushed("docs", true, Some("main")),
        says(git("push", "url", &format!("+{}:main", exported)), "Failed to push to 'url'")
    );
}

#[test]
fn a_link_without_a_branch_is_pushed_to_master() {
    let exported = id(13).to_hex();
    let expected = says(
        git("push", "url", &format!("{}:refs/heads/master", exported)),
        "Failed to push to 'url'",
    );
    assert_eq!(pushed("docs", false, None), expected);
    assert_eq!(pushed("docs", false, Some("HEAD")), expected);
}

#[test]
fn a_push_ignores_slashes_around_the_path() {
    assert_eq!(pushed("/docs", false, None), pushed("docs", false, None));
    assert_eq!(pushed("/docs/", true, None), pushed("docs", true, None));
}

#[test]
fn each_subcommand_is_dispatched() {
    let commands = [
        LinkCommand::Add(add_args("docs")),
        LinkCommand::Fetch(LinkFetchArgs { filter: None }),
        LinkCommand::Update(LinkUpdateArgs { filter: None }),
        LinkCommand::Push(LinkPushArgs { path: "docs".to_string(), force: false }),
    ];
    let expected = [
        says(
            ActionOf::ParseMode { text: "snapshot".to_string() },
            "Invalid link mode: 'snapshot'",
        ),
        RequestOf {
            action: ActionOf::FilterCommit {
                filter: Filter::parse(
                    "::**/.link.josh",
                    "Failed to parse .link.josh filter".to_string(),
                ),
                commit: id(1),
            },
            context: Some("Failed to apply .link.josh filter".to_string()),
            within: Some("Failed to collect link refs from history".to_string()),
        },
        says(
            ActionOf::ReadCommitTree { commit: id(1), read_context: None },
            "Failed to get HEAD tree",
        ),
        says(ActionOf::ReadTree { commit: id(1) }, "Failed to get commit tree"),
    ];
    for (command, second) in commands.into_iter().zip(expected) {
        let (request, next) = asked(handle_link(&LinkArgs { command }, None), &[]);
        assert_eq!(request, head());
        let (request, _) = asked(next.resume(Reply::Id(id(1))), &[]);
        assert_eq!(request, second);
    }
    let empty = LinkArgs { command: LinkCommand::Add(add_args("")) };
    assert_eq!(failed(handle_link(&empty, None), &[]), LinkErrorOf::EmptyPath);
}

#[test]
fn a_failed_action_ends_the_command_in_its_contexts() {
    let (_, next) = asked(handle_link_fetch(&LinkFetchArgs { filter: None }), &[]);
    let (request, next) = asked(next.resume(Reply::Id(id(1))), &[]);
    assert_eq!(
        failed(next.resume(request.failed(Part::Action)), &[]),
        LinkErrorOf::ActionFailed {
            context: Some("Failed to apply .link.josh filter".to_string()),
            within: Some("Failed to collect link refs from history".to_string()),
        }
    );

    let args = LinkUpdateArgs { filter: Some(":/sub".to_string()) };
    let (_, next) = asked(handle_link_update(&args, None), &[]);
    let (request, next) = asked(next.resume(Reply::Id(id(1))), &[]);
    assert_eq!(
        request.failed(Part::Start),
        Reply::Failed { context: None, within: None }
    );
    let (_, next) = asked(next.resume(Reply::Id(id(2))), &[]);
    let (request, next) = asked(next.resume(Reply::Id(id(3))), &[]);
    assert_eq!(
        failed(next.resume(request.failed(Part::Start)), &[]),
        LinkErrorOf::ActionFailed {
            context: Some("Failed to find filtered commit".to_string()),
            within: None,
        }
    );

    let next = add_up_to_export(&add_args("docs"), None);
    let (request, next) = asked(
        next.resume(Reply::Id(ObjectId::null())),
        &["No local content at 'docs', fetching from remote..."],
    );
    assert_eq!(
        failed(next.resume(request.failed(Part::Action)), &[]),
        LinkErrorOf::ActionFailed {
            context: Some("Failed to execute git fetch".to_string()),
            within: None,
        }
    );
}
