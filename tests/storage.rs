use otterwiki::error::StorageError;
use otterwiki::storage::{decode_document, GitStorage};

fn fresh() -> (tempfile::TempDir, GitStorage) {
    let dir = tempfile::tempdir().unwrap();
    let store = GitStorage::new(dir.path().to_str().unwrap()).unwrap();
    (dir, store)
}

fn is_full_id(s: &str) -> bool {
    s.len() == 40 && s.chars().all(|c| c.is_ascii_digit() || ('a'..='f').contains(&c))
}

#[test]
fn empty_repository_home_page_scenario() {
    let (_dir, s) = fresh();
    assert!(s.list_pages().unwrap().is_empty());
    let r1 = s.store("home.md", "# Home", "Bot", "bot@x", "init").unwrap();
    assert_eq!(s.load_from_revision("home.md", &r1).unwrap(), "# Home");
    let r2 = s.store("home.md", "# Home v2", "Bot", "bot@x", "update").unwrap();
    assert_ne!(r1, r2);
    assert_eq!(s.load_from_revision("home.md", &r1).unwrap(), "# Home");
    assert_eq!(s.load_from_revision("home.md", &r2).unwrap(), "# Home v2");
    let history = s.get_page_history("home.md", 10).unwrap();
    let ids: Vec<String> = history.iter().map(|h| h.revision.clone()).collect();
    assert_eq!(ids, vec![r2, r1]);
    assert_eq!(history[0].message, "update");
    assert_eq!(history[1].message, "init");
    assert_eq!(history[0].author_name, "Bot");
    assert_eq!(history[0].author_email, "bot@x");
}

#[test]
fn load_at_returned_revision_ignores_later_writes() {
    let (_dir, s) = fresh();
    let r = s.store("p.md", "hello", "A", "a@x", "first").unwrap();
    s.store("p.md", "bye", "A", "a@x", "second").unwrap();
    s.store("p.md", "again", "A", "a@x", "third").unwrap();
    assert_eq!(s.load_from_revision("p.md", &r).unwrap(), "hello");
}

#[test]
fn history_has_one_entry_per_store_newest_first() {
    let (_dir, s) = fresh();
    let mut ids = Vec::new();
    for i in 0..4 {
        ids.push(s.store("page.md", &format!("v{}", i), "A", "a@x", "edit").unwrap());
    }
    let history = s.get_page_history("page.md", 100).unwrap();
    assert_eq!(history.len(), 4);
    ids.reverse();
    let got: Vec<String> = history.iter().map(|h| h.revision.clone()).collect();
    assert_eq!(got, ids);
    for w in history.windows(2) {
        assert!(w[0].datetime >= w[1].datetime);
    }
}

#[test]
fn history_is_presence_based() {
    let (_dir, s) = fresh();
    s.store("a.md", "a", "A", "a@x", "a").unwrap();
    s.store("b.md", "b", "A", "a@x", "b").unwrap();
    s.store("c.md", "c", "A", "a@x", "c").unwrap();
    // a.md is present, unchanged, in all three snapshots
    assert_eq!(s.get_page_history("a.md", 100).unwrap().len(), 3);
    assert_eq!(s.get_page_history("c.md", 100).unwrap().len(), 1);
    assert!(s.get_page_history("zzz.md", 100).unwrap().is_empty());
}

#[test]
fn history_respects_limit() {
    let (_dir, s) = fresh();
    for i in 0..3 {
        s.store("page.md", &format!("{}", i), "A", "a@x", "edit").unwrap();
    }
    assert_eq!(s.get_page_history("page.md", 0).unwrap().len(), 0);
    assert_eq!(s.get_page_history("page.md", 1).unwrap().len(), 1);
    assert_eq!(s.get_page_history("page.md", 2).unwrap().len(), 2);
}

#[test]
fn list_pages_returns_only_documents() {
    let (_dir, s) = fresh();
    s.store("a.md", "a", "A", "a@x", "m").unwrap();
    s.store("notes.txt", "n", "A", "a@x", "m").unwrap();
    s.store("dir/sub/b.md", "b", "A", "a@x", "m").unwrap();
    s.store("dir/c.mdx", "c", "A", "a@x", "m").unwrap();
    let mut pages = s.list_pages().unwrap();
    pages.sort();
    assert_eq!(pages, vec!["a.md".to_string(), "dir/sub/b.md".to_string()]);
}

#[test]
fn writes_to_two_paths_both_survive() {
    let (_dir, s) = fresh();
    s.store("a.md", "a", "A", "a@x", "m").unwrap();
    s.store("b.md", "b", "B", "b@x", "m").unwrap();
    let mut pages = s.list_pages().unwrap();
    pages.sort();
    assert_eq!(pages, vec!["a.md".to_string(), "b.md".to_string()]);
}

#[test]
fn deleting_a_never_committed_document_succeeds() {
    let (_dir, s) = fresh();
    s.store("a.md", "a", "A", "a@x", "m").unwrap();
    let r = s.delete("ghost.md", "A", "a@x", "rm").unwrap();
    assert!(is_full_id(&r));
    assert_eq!(s.list_pages().unwrap(), vec!["a.md".to_string()]);
}

#[test]
fn deleting_on_an_empty_repository_succeeds() {
    let (_dir, s) = fresh();
    assert!(s.delete("ghost.md", "A", "a@x", "rm").is_ok());
    assert!(s.list_pages().unwrap().is_empty());
}

#[test]
fn delete_removes_from_tip_but_not_from_history() {
    let (_dir, s) = fresh();
    let r1 = s.store("a.md", "a", "A", "a@x", "add").unwrap();
    let r2 = s.delete("a.md", "A", "a@x", "rm").unwrap();
    assert!(s.list_pages().unwrap().is_empty());
    assert_eq!(s.load_from_revision("a.md", &r1).unwrap(), "a");
    assert!(matches!(
        s.load_from_revision("a.md", &r2),
        Err(StorageError::NotFound(_))
    ));
}

#[test]
fn store_returns_full_revision_id() {
    let (_dir, s) = fresh();
    let r = s.store("a.md", "a", "A", "a@x", "m").unwrap();
    assert!(is_full_id(&r));
}

#[test]
fn load_with_malformed_revision_is_repository_error() {
    let (_dir, s) = fresh();
    s.store("a.md", "a", "A", "a@x", "m").unwrap();
    assert!(matches!(s.load_from_revision("a.md", "not-hex"), Err(StorageError::Repository(_))));
    assert!(matches!(s.load_from_revision("a.md", ""), Err(StorageError::Repository(_))));
    let unknown = "0123456789012345678901234567890123456789";
    assert!(matches!(s.load_from_revision("a.md", unknown), Err(StorageError::Repository(_))));
}

#[test]
fn load_of_absent_path_is_not_found() {
    let (_dir, s) = fresh();
    let r = s.store("dir/a.md", "a", "A", "a@x", "m").unwrap();
    assert!(matches!(s.load_from_revision("b.md", &r), Err(StorageError::NotFound(_))));
    assert!(matches!(s.load_from_revision("dir", &r), Err(StorageError::NotFound(_))));
    assert_eq!(s.load_from_revision("dir/a.md", &r).unwrap(), "a");
}

#[test]
fn abbreviated_revision_does_not_resolve() {
    let (_dir, s) = fresh();
    let r = s.store("a.md", "short", "A", "a@x", "m").unwrap();
    // a short id is padded with zeros, which names no commit
    assert!(matches!(s.load_from_revision("a.md", &r[..12]), Err(StorageError::Repository(_))));
    assert_eq!(s.load_from_revision("a.md", &r).unwrap(), "short");
}

#[test]
fn changelog_lists_every_file_of_each_snapshot() {
    let (_dir, s) = fresh();
    let r1 = s.store("a.md", "a", "Ann", "ann@x", "one").unwrap();
    let r2 = s.store("d/b.txt", "b", "Bob", "bob@x", "two").unwrap();
    let log = s.get_changelog(10).unwrap();
    assert_eq!(log.len(), 2);
    assert_eq!(log[0].revision, r2);
    assert_eq!(log[1].revision, r1);
    assert_eq!(log[0].author_name, "Bob");
    assert_eq!(log[0].author_email, "bob@x");
    assert_eq!(log[0].message, "two");
    let mut files = log[0].files.clone();
    files.sort();
    assert_eq!(files, vec!["a.md".to_string(), "d/b.txt".to_string()]);
    assert_eq!(log[1].files, vec!["a.md".to_string()]);
    assert_eq!(s.get_changelog(1).unwrap().len(), 1);
    assert_eq!(s.get_changelog(0).unwrap().len(), 0);
}

#[test]
fn changelog_of_empty_repository_is_empty() {
    let (_dir, s) = fresh();
    assert!(s.get_changelog(5).unwrap().is_empty());
    assert!(s.get_page_history("a.md", 5).unwrap().is_empty());
}

#[test]
fn reopening_keeps_history() {
    let dir = tempfile::tempdir().unwrap();
    let path = dir.path().to_str().unwrap().to_string();
    let r = {
        let s = GitStorage::new(&path).unwrap();
        s.store("a.md", "kept", "A", "a@x", "m").unwrap()
    };
    let s = GitStorage::new(&path).unwrap();
    assert_eq!(s.load_from_revision("a.md", &r).unwrap(), "kept");
    assert_eq!(s.list_pages().unwrap(), vec!["a.md".to_string()]);
}

#[test]
fn decode_document_rejects_invalid_utf8() {
    assert!(matches!(
        decode_document("x.md", vec![0xff, 0xfe]),
        Err(StorageError::Encoding(_))
    ));
    assert_eq!(decode_document("x.md", "héllo".as_bytes().to_vec()).unwrap(), "héllo");
    assert_eq!(decode_document("x.md", vec![]).unwrap(), "");
}

#[test]
fn not_found_kind_is_recognised() {
    assert!(StorageError::NotFound("a".to_string()).is_not_found());
    assert!(!StorageError::Io("a".to_string()).is_not_found());
}

#[test]
fn changelog_of_follows_the_given_commits() {
    let (_dir, s) = fresh();
    let r1 = s.store("a.md", "a", "A", "a@x", "one").unwrap();
    let r2 = s.store("b.md", "b", "A", "a@x", "two").unwrap();
    let oids = vec![git2::Oid::from_str(&r1).unwrap(), git2::Oid::from_str(&r2).unwrap()];
    let log = s.changelog_of(&oids, 5).unwrap();
    assert_eq!(log.len(), 2);
    assert_eq!(log[0].revision, r1);
    assert_eq!(log[0].files, vec!["a.md".to_string()]);
    assert_eq!(log[1].revision, r2);
    assert_eq!(s.changelog_of(&oids, 1).unwrap().len(), 1);
}

#[test]
fn listings_have_no_duplicates() {
    let (_dir, s) = fresh();
    s.store("a.md", "1", "A", "a@x", "m").unwrap();
    s.store("d/a.md", "2", "A", "a@x", "m").unwrap();
    s.store("d/e/a.md", "3", "A", "a@x", "m").unwrap();
    s.store("a.md", "4", "A", "a@x", "m").unwrap();
    let mut pages = s.list_pages().unwrap();
    let n = pages.len();
    pages.sort();
    pages.dedup();
    assert_eq!(n, 3);
    assert_eq!(pages.len(), 3);
}

#[test]
fn odd_paths_are_not_found() {
    let (_dir, s) = fresh();
    let r = s.store("a.md", "a", "A", "a@x", "m").unwrap();
    assert!(matches!(s.load_from_revision("", &r), Err(StorageError::NotFound(_))));
    assert!(matches!(s.load_from_revision("./a.md", &r), Err(StorageError::NotFound(_))));
    assert!(matches!(s.load_from_revision("../a.md", &r), Err(StorageError::NotFound(_))));
    assert!(s.get_page_history("./a.md", 5).unwrap().is_empty());
}
