use otterwiki::datetime::format_datetime;
use otterwiki::config::{
    default_attachment_access, default_auto_approval, default_commit_message,
    default_database_url, default_debug, default_email_needs_confirmation, default_port,
    default_read_access, default_robots_txt, default_site_lang, default_site_name,
    default_write_access, AccessLevel, CommitMessageMode, Config, ConfigError, MailConfig,
};
use otterwiki::auth::{check_registration, RegistrationError};
use otterwiki::models::{
    changelog_from, history_entry, page_history_from, text_or, CommitInfo, EntryKind, LoggedCommit,
    RegisterForm, User, Visit,
};
use otterwiki::pages::{commit_message_for, document_name, home_filename, page_name, robots_body};
use otterwiki::paths::{is_document, join_path, tree_path};
use otterwiki::error::StorageError;
use otterwiki::snapshot::{
    collect_paths, is_valid_entry_name, name_of, name_taken, snapshot_level, LoadedItem, SnapshotNode,
};
use otterwiki::storage::{
    blob_or_not_found, lookup_failure, open_failure, parent_from, presence, HeadLookup, PathLookup,
};
use otterwiki::utils::{sanitize_pagename, sizeof_fmt};

fn config_with_key(key: &str) -> Config {
    Config {
        port: default_port(),
        debug: default_debug(),
        repository: "/srv/wiki".to_string(),
        secret_key: key.to_string(),
        site_name: default_site_name(),
        site_description: None,
        site_logo: None,
        site_icon: None,
        site_lang: default_site_lang(),
        hide_logo: false,
        read_access: default_read_access(),
        write_access: default_write_access(),
        attachment_access: default_attachment_access(),
        auto_approval: default_auto_approval(),
        disable_registration: false,
        email_needs_confirmation: default_email_needs_confirmation(),
        retain_page_name_case: false,
        database_url: default_database_url(),
        mail_config: MailConfig::default(),
        commit_message: default_commit_message(),
        git_web_server: false,
        robots_txt: default_robots_txt(),
    }
}

fn user(read: bool, write: bool, upload: bool, admin: bool) -> User {
    User {
        id: 1,
        name: "n".to_string(),
        email: "e".to_string(),
        password_hash: String::new(),
        first_seen: 0,
        last_seen: 0,
        is_approved: true,
        is_admin: admin,
        email_confirmed: true,
        allow_read: read,
        allow_write: write,
        allow_upload: upload,
    }
}

#[test]
fn sanitize_replaces_spaces_and_drops_punctuation() {
    assert_eq!(sanitize_pagename("Hello World!", false), "hello_world");
    assert_eq!(sanitize_pagename("Hello World!", true), "Hello_World");
    assert_eq!(sanitize_pagename("a/b-c_d.e", true), "a/b-c_de");
    assert_eq!(sanitize_pagename("", false), "");
}

#[test]
fn sanitize_keeps_unicode_letters_and_lowercases_them() {
    assert_eq!(sanitize_pagename("Ärger Über", false), "ärger_über");
    assert_eq!(sanitize_pagename("Ärger", true), "Ärger");
    assert_eq!(sanitize_pagename("x²", false), "x²");
}

#[test]
fn permissions_string_in_fixed_order() {
    assert_eq!(user(true, true, true, true).permissions_string(), "RWUA");
    assert_eq!(user(true, false, true, false).permissions_string(), "RU");
    assert_eq!(user(false, false, false, true).permissions_string(), "A");
    assert_eq!(user(false, false, false, false).permissions_string(), "");
}

#[test]
fn validate_rejects_weak_keys() {
    assert_eq!(config_with_key("short").validate(true), Err(ConfigError::WeakSecretKey));
    assert_eq!(config_with_key("CHANGE ME").validate(true), Err(ConfigError::WeakSecretKey));
    assert_eq!(config_with_key("0123456789abcde").validate(true), Err(ConfigError::WeakSecretKey));
    assert_eq!(config_with_key("0123456789abcdef").validate(true), Ok(()));
    // eight two-byte characters make sixteen bytes
    assert_eq!(config_with_key("éééééééé").validate(true), Ok(()));
}

#[test]
fn validate_needs_the_repository() {
    assert_eq!(
        config_with_key("0123456789abcdef").validate(false),
        Err(ConfigError::RepositoryMissing("/srv/wiki".to_string()))
    );
    assert_eq!(config_with_key("short").validate(false), Err(ConfigError::WeakSecretKey));
}

#[test]
fn defaults_have_documented_values() {
    assert_eq!(default_port(), 8080);
    assert!(!default_debug());
    assert_eq!(default_site_name(), "An Otter Wiki");
    assert_eq!(default_site_lang(), "en");
    assert_eq!(default_read_access(), AccessLevel::Anonymous);
    assert_eq!(default_write_access(), AccessLevel::Anonymous);
    assert_eq!(default_attachment_access(), AccessLevel::Anonymous);
    assert!(default_auto_approval());
    assert!(default_email_needs_confirmation());
    assert_eq!(default_database_url(), "sqlite://otterwiki.db");
    assert_eq!(default_commit_message(), CommitMessageMode::Required);
    assert_eq!(default_robots_txt(), "allow");
}

#[test]
fn document_suffix_and_joining() {
    assert!(is_document("home.md"));
    assert!(is_document("a/b/.md"));
    assert!(!is_document("home.mdx"));
    assert!(!is_document("md"));
    assert!(!is_document(""));
    assert_eq!(join_path("", "a.md"), "a.md");
    assert_eq!(join_path("dir/sub", "a.md"), "dir/sub/a.md");
}

#[test]
fn history_entry_fills_missing_fields() {
    let info = CommitInfo {
        author_name: None,
        author_email: None,
        seconds: 1_700_000_000,
        message: None,
        tree: git2::Oid::zero(),
    };
    let e = history_entry(&"abc".to_string(), &info);
    assert_eq!(e.revision, "abc");
    assert_eq!(e.author_name, "Unknown");
    assert_eq!(e.author_email, "");
    assert_eq!(e.message, "");
    assert_eq!(e.datetime, 1_700_000_000);
    assert_eq!(text_or(&Some("x".to_string()), "d"), "x");
    assert_eq!(text_or(&None, "d"), "d");
}

#[test]
fn sizeof_fmt_small_counts_in_bytes() {
    assert_eq!(sizeof_fmt(0), "0 B");
    assert_eq!(sizeof_fmt(7), "7 B");
    assert_eq!(sizeof_fmt(1023), "1023 B");
}

#[test]
fn sizeof_fmt_binary_units_with_one_decimal() {
    assert_eq!(sizeof_fmt(1024), "1.0 KiB");
    assert_eq!(sizeof_fmt(1536), "1.5 KiB");
    assert_eq!(sizeof_fmt(1344), "1.3 KiB");
    assert_eq!(sizeof_fmt(1048576), "1.0 MiB");
    assert_eq!(sizeof_fmt(3 * 1024 * 1024 * 1024), "3.0 GiB");
    assert_eq!(sizeof_fmt(1u64 << 60), "1.0 EiB");
    assert_eq!(sizeof_fmt(u64::MAX), "16.0 EiB");
}

#[test]
fn sizeof_fmt_rounds_ties_to_even() {
    // 1.25 KiB and 1.75 KiB lie exactly between two tenths
    assert_eq!(sizeof_fmt(1280), "1.2 KiB");
    assert_eq!(sizeof_fmt(1792), "1.8 KiB");
    // just under a MiB rounds up within KiB
    assert_eq!(sizeof_fmt(1048575), "1024.0 KiB");
}

fn visit(rev: &str, seconds: i64, has_path: bool) -> Visit {
    Visit {
        revision: rev.to_string(),
        info: CommitInfo {
            author_name: Some("Ann".to_string()),
            author_email: Some("ann@x".to_string()),
            seconds,
            message: Some(format!("m{}", rev)),
            tree: git2::Oid::zero(),
        },
        has_path,
    }
}

#[test]
fn page_history_keeps_present_visits_in_order() {
    let walk = vec![visit("c", 30, true), visit("b", 20, false), visit("a", 10, true)];
    let h = page_history_from(&walk, 10);
    let revs: Vec<&str> = h.iter().map(|e| e.revision.as_str()).collect();
    assert_eq!(revs, vec!["c", "a"]);
    assert_eq!(h[1].message, "ma");
    assert_eq!(h[1].datetime, 10);
    assert_eq!(h[0].author_name, "Ann");
}

#[test]
fn page_history_stops_at_limit() {
    let walk = vec![visit("c", 30, true), visit("b", 20, true), visit("a", 10, true)];
    assert_eq!(page_history_from(&walk, 2).len(), 2);
    assert_eq!(page_history_from(&walk, 0).len(), 0);
    assert!(page_history_from(&Vec::new(), 5).is_empty());
}

fn file(name: &str) -> SnapshotNode {
    SnapshotNode::File { name: name.to_string() }
}

fn dir(name: &str, entries: Vec<SnapshotNode>) -> SnapshotNode {
    SnapshotNode::Dir { name: name.to_string(), entries }
}

fn sample_snapshot() -> Vec<SnapshotNode> {
    vec![
        file("home.md"),
        dir("docs", vec![file("intro.md"), file("logo.png"), dir("deep", vec![file("x.md")])]),
        SnapshotNode::Other { name: "vendored.md".to_string() },
        file("README"),
    ]
}

#[test]
fn collect_paths_lists_documents_depth_first() {
    let mut out = Vec::new();
    collect_paths(&sample_snapshot(), "", true, &mut out);
    assert_eq!(out, vec!["home.md", "docs/intro.md", "docs/deep/x.md"]);
}

#[test]
fn collect_paths_lists_every_file() {
    let mut out = vec!["kept".to_string()];
    collect_paths(&sample_snapshot(), "", false, &mut out);
    assert_eq!(
        out,
        vec!["kept", "home.md", "docs/intro.md", "docs/logo.png", "docs/deep/x.md", "README"]
    );
}

#[test]
fn collect_paths_under_a_prefix() {
    let mut out = Vec::new();
    collect_paths(&vec![file("a.md"), dir("b", vec![])], "root", true, &mut out);
    assert_eq!(out, vec!["root/a.md"]);
    let mut none = Vec::new();
    collect_paths(&Vec::new(), "", false, &mut none);
    assert!(none.is_empty());
}

#[test]
fn document_name_of_a_page() {
    assert_eq!(document_name("My Page", false), "my_page.md");
    assert_eq!(document_name("My Page", true), "My_Page.md");
    assert_eq!(document_name("a/b", false), "a/b.md");
}

#[test]
fn page_name_strips_every_trailing_suffix() {
    assert_eq!(page_name("home.md"), "home");
    assert_eq!(page_name("a/b.md.md"), "a/b");
    assert_eq!(page_name("notes.txt"), "notes.txt");
    assert_eq!(page_name(".md"), "");
    assert_eq!(page_name("md"), "md");
}

#[test]
fn commit_message_defaults_to_updated() {
    assert_eq!(commit_message_for(None, "Home"), "Updated Home");
    assert_eq!(commit_message_for(Some("fix typo".to_string()), "Home"), "fix typo");
}

#[test]
fn home_page_and_robots() {
    assert_eq!(home_filename(false), "home.md");
    assert_eq!(home_filename(true), "Home.md");
    assert_eq!(robots_body(&"allow".to_string()), "User-agent: *\nAllow: /");
    assert_eq!(robots_body(&"deny".to_string()), "User-agent: *\nDisallow: /");
}

fn registration(password: &str, confirm: &str) -> RegisterForm {
    RegisterForm {
        name: "n".to_string(),
        email: "e@x".to_string(),
        password: password.to_string(),
        password_confirm: confirm.to_string(),
    }
}

#[test]
fn registration_checks() {
    assert_eq!(check_registration(false, &registration("pw", "pw")), Ok(()));
    assert_eq!(
        check_registration(false, &registration("pw", "wp")),
        Err(RegistrationError::PasswordMismatch)
    );
    assert_eq!(check_registration(true, &registration("pw", "pw")), Err(RegistrationError::Forbidden));
    assert_eq!(check_registration(true, &registration("pw", "x")), Err(RegistrationError::Forbidden));
}

fn logged(rev: &str, files: &[&str]) -> LoggedCommit {
    LoggedCommit {
        revision: rev.to_string(),
        info: CommitInfo {
            author_name: None,
            author_email: Some("a@x".to_string()),
            seconds: 5,
            message: Some(format!("m{}", rev)),
            tree: git2::Oid::zero(),
        },
        files: files.iter().map(|f| f.to_string()).collect(),
    }
}

#[test]
fn changelog_from_takes_first_commits_in_order() {
    let commits = vec![logged("c", &["a.md", "b.md"]), logged("b", &["a.md"]), logged("a", &[])];
    let log = changelog_from(&commits, 2);
    assert_eq!(log.len(), 2);
    assert_eq!(log[0].revision, "c");
    assert_eq!(log[1].revision, "b");
    assert_eq!(log[0].files, vec!["a.md".to_string(), "b.md".to_string()]);
    assert_eq!(log[0].author_name, "Unknown");
    assert_eq!(log[0].message, "mc");
    assert_eq!(changelog_from(&commits, 10).len(), 3);
    assert_eq!(changelog_from(&commits, 0).len(), 0);
}

#[test]
fn lookup_failures_classify() {
    assert_eq!(lookup_failure("a.md", true, "gone".to_string()), StorageError::NotFound("a.md".to_string()));
    assert_eq!(lookup_failure("a.md", false, "bad".to_string()), StorageError::Repository("bad".to_string()));
    assert_eq!(blob_or_not_found("a.md", EntryKind::Blob), Ok(()));
    assert_eq!(blob_or_not_found("d", EntryKind::Tree), Err(StorageError::NotFound("d".to_string())));
    assert_eq!(blob_or_not_found("s", EntryKind::Other), Err(StorageError::NotFound("s".to_string())));
}

#[test]
fn entry_names_and_duplicates() {
    assert!(is_valid_entry_name("a.md"));
    assert!(!is_valid_entry_name(""));
    assert!(!is_valid_entry_name("a/b"));
    let nodes = vec![file("a.md"), dir("d", vec![])];
    assert!(name_taken(&nodes, &"d".to_string()));
    assert!(!name_taken(&nodes, &"e".to_string()));
    assert_eq!(name_of(&nodes[1]), "d");
}

fn loaded(name: Option<&str>, kind: EntryKind, entries: Vec<SnapshotNode>) -> LoadedItem {
    LoadedItem { name: name.map(|n| n.to_string()), kind, entries }
}

#[test]
fn snapshot_level_keeps_proper_entries_in_order() {
    let items = vec![
        loaded(Some("a.md"), EntryKind::Blob, vec![]),
        loaded(None, EntryKind::Blob, vec![]),
        loaded(Some(""), EntryKind::Blob, vec![]),
        loaded(Some("x/y"), EntryKind::Blob, vec![]),
        loaded(Some("d"), EntryKind::Tree, vec![file("b.md")]),
        loaded(Some("a.md"), EntryKind::Blob, vec![]),
        loaded(Some("m"), EntryKind::Other, vec![]),
    ];
    let nodes = snapshot_level(items);
    assert_eq!(nodes.len(), 3);
    assert!(matches!(&nodes[0], SnapshotNode::File { name } if name == "a.md"));
    assert!(matches!(&nodes[1], SnapshotNode::Dir { name, entries } if name == "d" && entries.len() == 1));
    assert!(matches!(&nodes[2], SnapshotNode::Other { name } if name == "m"));
    let mut out = Vec::new();
    collect_paths(&nodes, "", true, &mut out);
    assert_eq!(out, vec!["a.md", "d/b.md"]);
}

#[test]
fn lookup_decisions() {
    assert_eq!(presence(PathLookup::Found), Ok(true));
    assert_eq!(presence(PathLookup::Missing), Ok(false));
    assert_eq!(presence(PathLookup::Failed("x".to_string())), Err(StorageError::Repository("x".to_string())));
    let oid = git2::Oid::zero();
    assert_eq!(parent_from(HeadLookup::Found(oid)), Ok(Some(oid)));
    assert_eq!(parent_from(HeadLookup::Unborn), Ok(None));
    assert_eq!(parent_from(HeadLookup::Missing), Ok(None));
    assert_eq!(parent_from(HeadLookup::Failed("bad".to_string())), Err(StorageError::Repository("bad".to_string())));
    assert_eq!(open_failure(true, "m".to_string()), None);
    assert_eq!(open_failure(false, "m".to_string()), Some(StorageError::Repository("m".to_string())));
}

#[test]
fn tree_paths() {
    assert!(tree_path("a.md"));
    assert!(tree_path("d/e/a.md"));
    assert!(tree_path(".hidden"));
    assert!(tree_path("a..b"));
    assert!(!tree_path(""));
    assert!(!tree_path("./a.md"));
    assert!(!tree_path("../a.md"));
    assert!(!tree_path("d/../a.md"));
    assert!(!tree_path("/a.md"));
    assert!(!tree_path("d//a.md"));
    assert!(!tree_path("d/"));
    assert!(!tree_path("."));
}

#[test]
fn sanitize_ascii_names_are_settled() {
    let once = sanitize_pagename("Hello World: A/B-c?", false);
    assert_eq!(once, "hello_world_a/b-c");
    assert_eq!(sanitize_pagename(&once, false), once);
    let kept = sanitize_pagename("Hello World", true);
    assert_eq!(sanitize_pagename(&kept, true), kept);
}

#[test]
fn format_datetime_styles() {
    assert_eq!(format_datetime(1431648000, "medium"), "2015-05-15 00:00");
    assert_eq!(format_datetime(1431648000 + 3723, "full"), "2015-05-15 01:02:03");
    assert_eq!(format_datetime(1431648000, "other"), "2015-05-15T00:00:00+00:00");
    assert_eq!(format_datetime(i64::MAX, "medium"), "");
}

#[test]
fn sizeof_fmt_large_counts_go_through_double_precision() {
    assert_eq!(sizeof_fmt((1u64 << 60) - 1), "1.0 EiB");
    assert_eq!(sizeof_fmt((1u64 << 53) + 1), "8.0 PiB");
    assert_eq!(sizeof_fmt(u64::MAX - 1), "16.0 EiB");
}
