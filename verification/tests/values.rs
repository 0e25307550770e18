//! Identifiers, paths, texts and messages.

use josh_link::error::LinkErrorOf;
use josh_link::filter::MetaKey;
use josh_link::link::{position_of_link, LinkFile, PreparedLinkPush};
use josh_link::notice::{Notice, NoticeOf};
use josh_link::oid::{HexError, ObjectId};
use josh_link::path::LinkPath;
use josh_link::text::{decimal_text, trim_slashes};

fn path(text: &str) -> LinkPath {
    LinkPath::from_text(text)
}

fn bytes(raw: &[u8]) -> LinkPath {
    LinkPath { bytes: raw.to_vec() }
}

fn file(at: &str, filter: usize) -> LinkFile {
    LinkFile {
        path: path(at),
        filter,
        remote: None,
        target: None,
        commit: None,
        push: None,
        push_target: None,
    }
}

#[test]
fn the_null_identifier_is_all_zeros() {
    let null = ObjectId::null();
    assert_eq!(null.bytes, [0u8; 20]);
    assert!(null.is_null());
    assert_eq!(null.to_hex(), "0".repeat(40));
    let mut other = [0u8; 20];
    other[19] = 1;
    assert!(!ObjectId { bytes: other }.is_null());
}

#[test]
fn hex_is_lower_case_high_half_first() {
    let mut raw = [0u8; 20];
    raw[0] = 0xab;
    raw[1] = 0x1f;
    raw[19] = 0xf0;
    let id = ObjectId { bytes: raw };
    assert_eq!(id.to_hex(), "ab1f0000000000000000000000000000000000f0");
    assert_eq!(ObjectId::from_hex(&id.to_hex()), Ok(id));
}

#[test]
fn hex_of_either_case_is_read() {
    let lower = ObjectId::from_hex("deadbeefdeadbeefdeadbeefdeadbeefdeadbeef");
    let upper = ObjectId::from_hex("DEADBEEFDEADBEEFDEADBEEFDEADBEEFDEADBEEF");
    assert_eq!(lower, upper);
    assert_eq!(lower.unwrap().bytes[0], 0xde);
}

#[test]
fn hex_of_another_length_is_refused() {
    assert_eq!(ObjectId::from_hex(""), Err(HexError::Length(0)));
    assert_eq!(ObjectId::from_hex("abc"), Err(HexError::Length(3)));
    assert_eq!(ObjectId::from_hex(&"0".repeat(41)), Err(HexError::Length(41)));
    assert_eq!(ObjectId::from_hex(&"0".repeat(64)), Err(HexError::Length(64)));
}

#[test]
fn forty_bytes_that_are_no_hex_are_refused() {
    assert_eq!(ObjectId::from_hex(&"g".repeat(40)), Err(HexError::Character));
    assert_eq!(ObjectId::from_hex(&"\u{e4}".repeat(20)), Err(HexError::Character));
}

#[test]
fn slashes_at_both_ends_are_trimmed() {
    assert_eq!(trim_slashes("/docs/"), "docs");
    assert_eq!(trim_slashes("//docs/guide//"), "docs/guide");
    assert_eq!(trim_slashes("docs"), "docs");
    assert_eq!(trim_slashes("///"), "");
    assert_eq!(trim_slashes(""), "");
    assert_eq!(trim_slashes("/\u{e4}/"), "\u{e4}");
}

#[test]
fn numbers_are_written_in_decimal() {
    assert_eq!(decimal_text(0), "0");
    assert_eq!(decimal_text(9), "9");
    assert_eq!(decimal_text(10), "10");
    assert_eq!(decimal_text(1203), "1203");
    assert_eq!(decimal_text(usize::MAX), usize::MAX.to_string());
}

#[test]
fn paths_lead_to_the_same_place_by_their_names() {
    assert!(path("docs").leads_to_same_place(&path("docs")));
    assert!(path("docs/").leads_to_same_place(&path("docs")));
    assert!(path("docs//guide").leads_to_same_place(&path("docs/guide")));
    assert!(path("docs/./guide").leads_to_same_place(&path("docs/guide")));
    assert!(path("").leads_to_same_place(&path("")));
    assert!(!path("docs").leads_to_same_place(&path("/docs")));
    assert!(!path("./docs").leads_to_same_place(&path("docs")));
    assert!(!path("docs").leads_to_same_place(&path("doc")));
    assert!(!path("docs/guide").leads_to_same_place(&path("docs")));
    assert!(!path("docs/../docs").leads_to_same_place(&path("docs")));
}

#[test]
fn sameness_of_place_agrees_with_std() {
    let texts = [
        "", "/", "//", ".", "./", "..", "a", "a/", "/a", "//a", "./a", "a/.", "a/./b", "a//b",
        "a/b", "a/b/", "/a/b", "/a/./b/", "../a", "a/..", "/.", "/./a", ".a", "a.",
    ];
    for a in texts {
        for b in texts {
            assert_eq!(
                path(a).leads_to_same_place(&path(b)),
                std::path::Path::new(a) == std::path::Path::new(b),
                "{:?} and {:?}",
                a,
                b
            );
        }
    }
}

#[test]
fn stripping_the_root_agrees_with_std() {
    let texts = [
        "", "/", "//", ".", "a", "a/", "/a", "//a", "/./a", "/a/", "/a/.", "/a/./", "/a//b/",
        "./a", "/./", "/a/./b/", "/..", "/../a/", "/.a", "/a.",
    ];
    for text in texts {
        let given = std::path::Path::new(text);
        let expected = given.strip_prefix("/").unwrap_or(given);
        assert_eq!(path(text).strip_root().as_text(), expected.to_str(), "{:?}", text);
    }
}

#[test]
fn link_files_are_in_the_directory_of_the_link() {
    assert_eq!(path("docs").link_file().as_text(), Some("docs/.link.josh"));
    assert_eq!(path("docs/").link_file().as_text(), Some("docs/.link.josh"));
    assert_eq!(path("").link_file().as_text(), Some(".link.josh"));
    assert_eq!(path("a/b").link_file().as_text(), Some("a/b/.link.josh"));
}

#[test]
fn a_leading_slash_does_not_move_the_link_file() {
    let with = path("/docs").strip_root().link_file();
    let without = path("docs").strip_root().link_file();
    assert!(with.leads_to_same_place(&without));
}

#[test]
fn paths_that_are_text_are_text() {
    assert_eq!(path("\u{e4}/b").as_text(), Some("\u{e4}/b"));
    assert_eq!(path("\u{e4}/b").display(), "\u{e4}/b");
}

#[test]
fn paths_that_are_no_text_are_shown_all_the_same() {
    let odd = bytes(&[b'a', 0xff, b'b']);
    assert_eq!(odd.as_text(), None);
    assert_eq!(odd.display(), "a\u{fffd}b");
}

#[test]
fn the_first_link_at_a_path_is_found() {
    let files = vec![file("a", 0), file("docs", 1), file("docs/", 2)];
    assert_eq!(position_of_link(&files, &path("docs")), Some(1));
    assert_eq!(position_of_link(&files, &path("docs//")), Some(1));
    assert_eq!(position_of_link(&files, &path("a/")), Some(0));
    assert_eq!(position_of_link(&files, &path("b")), None);
    assert_eq!(position_of_link(&Vec::new(), &path("a")), None);
}

#[test]
fn metadata_keys_are_written_as_in_link_files() {
    assert_eq!(MetaKey::Remote.name(), "remote");
    assert_eq!(MetaKey::Target.name(), "target");
    assert_eq!(MetaKey::Commit.name(), "commit");
    assert_eq!(MetaKey::Mode.name(), "mode");
    assert_eq!(MetaKey::Push.name(), "push");
    assert_eq!(MetaKey::PushTarget.name(), "push-target");
}

#[test]
fn refusals_have_their_messages() {
    let docs = || "docs".to_string();
    let cases = [
        (LinkErrorOf::EmptyPath, "Path cannot be empty"),
        (LinkErrorOf::NotText { path: docs() }, "Link path is not valid UTF-8: 'docs'"),
        (
            LinkErrorOf::LinkFileNotFound { path: docs() },
            "Link file not found at path 'docs'",
        ),
        (LinkErrorOf::NoLink { path: docs() }, "No link found at path 'docs'"),
        (
            LinkErrorOf::MissingMeta { key: MetaKey::Commit },
            "Link file missing 'commit' metadata",
        ),
        (
            LinkErrorOf::MissingMetaAt { key: MetaKey::Remote, path: docs() },
            "Link file missing 'remote' metadata at path 'docs'",
        ),
        (
            LinkErrorOf::InvalidCommitId { cause: HexError::Character },
            "Link file contains an invalid commit ID",
        ),
        (
            LinkErrorOf::InvalidCommitSha { commit: "xyz".to_string(), cause: HexError::Length(3) },
            "Invalid commit SHA in link file: xyz",
        ),
        (
            LinkErrorOf::NothingToPush { path: docs() },
            "No content found at path 'docs' to push",
        ),
        (LinkErrorOf::NoLinkFiles, "No .link.josh files found"),
        (LinkErrorOf::InvalidCommitTime, "Failed to parse JOSH_COMMIT_TIME"),
        (
            LinkErrorOf::ActionFailed {
                context: Some("inside".to_string()),
                within: Some("outside".to_string()),
            },
            "outside",
        ),
        (
            LinkErrorOf::ActionFailed { context: Some("inside".to_string()), within: None },
            "inside",
        ),
        (LinkErrorOf::ActionFailed { context: None, within: None }, "Action failed"),
        (LinkErrorOf::UnexpectedReply, "Unexpected reply"),
    ];
    for (error, text) in cases {
        assert_eq!(error.message(), text);
    }
}

#[test]
fn notices_have_their_lines() {
    let s = |text: &str| text.to_string();
    let cases: Vec<(Notice, &str)> = vec![
        (
            NoticeOf::UsingLocal { path: s("docs"), commit: s("abc") },
            "Using local content at 'docs' (abc)",
        ),
        (
            NoticeOf::NoLocal { path: s("docs") },
            "No local content at 'docs', fetching from remote...",
        ),
        (NoticeOf::UsingFetched { commit: s("abc") }, "Using fetched commit abc"),
        (
            NoticeOf::Added {
                path: s("docs"),
                url: s("url"),
                filter: s(":/"),
                target: s("HEAD"),
                mode: s("snapshot"),
            },
            "Added link 'docs' with URL 'url', filter ':/', target 'HEAD', and mode 'snapshot'",
        ),
        (
            NoticeOf::CreatedBranch { name: s("refs/heads/josh-link") },
            "Created branch: refs/heads/josh-link",
        ),
        (NoticeOf::NoReferences, "No .link.josh references found in history"),
        (
            NoticeOf::FoundReferences { count: 12 },
            "Found 12 unique (remote, sha) pair(s) across history",
        ),
        (
            NoticeOf::Fetching { what: s("main"), remote: s("url") },
            "Fetching main from url",
        ),
        (
            NoticeOf::FetchedAll { fetched: 3, skipped: 10 },
            "Done: fetched 3, skipped 10 (already present)",
        ),
        (NoticeOf::FoundLinks { count: 2 }, "Found 2 link file(s) to update"),
        (NoticeOf::UpToDate { count: 2 }, "All 2 link file(s) already up to date"),
        (NoticeOf::UpdatedLinks { count: 2 }, "Updated 2 link file(s)"),
        (
            NoticeOf::UpdatedBranch { name: s("refs/heads/josh-link") },
            "Updated branch: refs/heads/josh-link",
        ),
    ];
    for (notice, text) in cases {
        assert_eq!(notice.text(), text);
    }
}

#[test]
fn prepared_pushes_are_copied_whole() {
    let push = PreparedLinkPush {
        remote: "url".to_string(),
        push_remote: Some("other".to_string()),
        configured_target: "main".to_string(),
        configured_push_target: None,
        exported_commit: ObjectId::null(),
    };
    assert_eq!(push.clone(), push);
}
