//! The versioned document store: every write is a commit on the branch tip,
//! and reads go either to a revision or to the tip's history.
use crate::error::StorageError;
use crate::git::{
    ancestry, blob_bytes, commit_info, commit_tree, entry_at_path, error_text, head_commit,
    init_repository, is_not_found, is_oid_text, is_revision_id, is_unborn_branch, oid_text,
    open_repository, parse_oid, repository_index, save_index, stage_content, text_from_utf8,
    tree_items, unstage_path, write_index_tree,
};
use crate::models::{
    changelog_from, is_changelog_of, is_page_history, min_nat, page_history_from, present, ChangelogEntry,
    EntryKind, LoggedCommit, PageHistory, Visit,
};
use crate::paths::{is_doc_path, is_tree_path, tree_path};
use crate::snapshot::{
    collect_paths, entries_paths, is_snapshot_listing, lemma_listing_no_duplicates, loaded_wf,
    snapshot_level, texts, wf_entries, LoadedItem, SnapshotNode,
};
use vstd::prelude::*;
use vstd::utf8::{decode_utf8, valid_utf8};

verus! {

/// How deep a snapshot tree may nest. A path of this many directories is
/// longer than any path a filesystem takes.
pub const MAX_TREE_DEPTH: usize = 4096;

/// A repository failure, with libgit2's message.
fn repo_error(e: &git2::Error) -> (r: StorageError)
    ensures
        r is Repository,
{
    StorageError::Repository(error_text(e))
}

/// The text that `bytes` encode, or `Encoding` where they are not UTF-8.
pub fn decode_document(filename: &str, bytes: Vec<u8>) -> (r: Result<String, StorageError>)
    ensures
        r is Ok <==> valid_utf8(bytes@),
        r matches Ok(s) ==> s@ == decode_utf8(bytes@),
        r matches Err(e) ==> (e matches StorageError::Encoding(f) && f@ == filename@),
{
    match text_from_utf8(bytes) {
        Some(s) => Ok(s),
        None => Err(StorageError::Encoding(filename.to_owned())),
    }
}

/// The failure of a path lookup in a snapshot: `NotFound` for `filename`
/// where git found no entry there, a repository failure otherwise.
pub fn lookup_failure(filename: &str, not_found: bool, message: String) -> (r: StorageError)
    ensures
        not_found ==> (r matches StorageError::NotFound(f) && f@ == filename@),
        !not_found ==> r is Repository,
{
    if not_found {
        StorageError::NotFound(filename.to_owned())
    } else {
        StorageError::Repository(message)
    }
}

/// Only a file holds a document: any other entry at `filename` counts as no
/// document there.
pub fn blob_or_not_found(filename: &str, kind: EntryKind) -> (r: Result<(), StorageError>)
    ensures
        r is Ok <==> kind == EntryKind::Blob,
        r matches Err(e) ==> (e matches StorageError::NotFound(f) && f@ == filename@),
{
    match kind {
        EntryKind::Blob => Ok(()),
        _ => Err(StorageError::NotFound(filename.to_owned())),
    }
}

/// What a path lookup in a snapshot tree found.
pub enum PathLookup {
    /// An entry is there.
    Found,
    /// No entry is there.
    Missing,
    /// The lookup failed, with git's message.
    Failed(String),
}

/// Whether a snapshot holds the path, from what its lookup found.
pub fn presence(lookup: PathLookup) -> (r: Result<bool, StorageError>)
    ensures
        lookup is Found ==> r == Ok::<bool, StorageError>(true),
        lookup is Missing ==> r == Ok::<bool, StorageError>(false),
        lookup matches PathLookup::Failed(m) ==> (r matches Err(StorageError::Repository(t)) && t
            == m),
{
    match lookup {
        PathLookup::Found => Ok(true),
        PathLookup::Missing => Ok(false),
        PathLookup::Failed(m) => Err(StorageError::Repository(m)),
    }
}

/// What the lookup of the branch tip's commit found.
pub enum HeadLookup {
    /// The tip names this commit.
    Found(git2::Oid),
    /// The branch has no commit yet.
    Unborn,
    /// There is no tip reference.
    Missing,
    /// The lookup failed, with git's message.
    Failed(String),
}

/// The parent of the next commit, from what the tip lookup found: the tip's
/// commit, or none before the first commit.
pub fn parent_from(head: HeadLookup) -> (r: Result<Option<git2::Oid>, StorageError>)
    ensures
        head matches HeadLookup::Found(c) ==> r == Ok::<Option<git2::Oid>, StorageError>(Some(c)),
        head is Unborn || head is Missing ==> r == Ok::<Option<git2::Oid>, StorageError>(None),
        head matches HeadLookup::Failed(m) ==> (r matches Err(StorageError::Repository(t)) && t
            == m),
{
    match head {
        HeadLookup::Found(c) => Ok(Some(c)),
        HeadLookup::Unborn => Ok(None),
        HeadLookup::Missing => Ok(None),
        HeadLookup::Failed(m) => Err(StorageError::Repository(m)),
    }
}

/// What follows a failed open of a repository: where git found none, a new
/// one is created (`None`); any other failure is a repository error.
pub fn open_failure(not_found: bool, message: String) -> (r: Option<StorageError>)
    ensures
        not_found <==> r is None,
        r matches Some(e) ==> (e matches StorageError::Repository(t) && t == message),
{
    if not_found {
        None
    } else {
        Some(StorageError::Repository(message))
    }
}

/// Every visit that `present` keeps carries a full revision id where every
/// visit of the walk does.
proof fn lemma_present_ids(walk: Seq<Visit>)
    requires
        forall|k: int| 0 <= k < walk.len() ==> is_revision_id(#[trigger] walk[k].revision@),
    ensures
        forall|j: int|
            0 <= j < present(walk).len() ==> is_revision_id(#[trigger] present(walk)[j].revision@),
    decreases walk.len(),
{
    if walk.len() > 0 {
        let w = walk.drop_last();
        assert forall|k: int| 0 <= k < w.len() implies is_revision_id(#[trigger] w[k].revision@) by {
            assert(w[k] == walk[k]);
        }
        lemma_present_ids(w);
    }
}

/// A store of text documents in a git repository.
pub struct GitStorage {
    repo: git2::Repository,
}

impl GitStorage {
    /// Opens the repository at `path`, or creates an empty one where there is
    /// none.
    pub fn new(path: &str) -> (r: Result<GitStorage, StorageError>)
        ensures
            r matches Err(e) ==> e is Repository,
    {
        match open_repository(path) {
            Ok(repo) => Ok(GitStorage { repo }),
            Err(e) => {
                if let Some(failure) = open_failure(is_not_found(&e), error_text(&e)) {
                    return Err(failure);
                }
                match init_repository(path) {
                    Ok(repo) => Ok(GitStorage { repo }),
                    Err(e) => Err(repo_error(&e)),
                }
            },
        }
    }

    /// The commit at the branch tip; none before the first commit.
    fn tip(&self) -> (r: Result<Option<git2::Oid>, StorageError>)
        ensures
            r matches Err(e) ==> e is Repository,
    {
        let head = match head_commit(&self.repo) {
            Ok(h) => HeadLookup::Found(h),
            Err(e) => {
                if is_unborn_branch(&e) {
                    HeadLookup::Unborn
                } else if is_not_found(&e) {
                    HeadLookup::Missing
                } else {
                    HeadLookup::Failed(error_text(&e))
                }
            },
        };
        parent_from(head)
    }

    /// The content of `filename` at `revision`: `NotFound` where the
    /// revision's snapshot holds no file there, `Encoding` where the file is
    /// not UTF-8, a repository failure where `revision` names no commit.
    pub fn load_from_revision(&self, filename: &str, revision: &str) -> (r: Result<
        String,
        StorageError,
    >)
        ensures
            !is_oid_text(revision@) ==> r matches Err(StorageError::Repository(_)),
            r matches Err(StorageError::NotFound(f)) ==> f@ == filename@,
            r matches Err(StorageError::Encoding(f)) ==> f@ == filename@,
            r matches Err(e) ==> !(e is Io),
            is_oid_text(revision@) && !is_tree_path(filename@) ==> r matches Err(
                StorageError::NotFound(_),
            ),
    {
        let oid = match parse_oid(revision) {
            Ok(oid) => oid,
            Err(e) => return Err(repo_error(&e)),
        };
        if !tree_path(filename) {
            return Err(StorageError::NotFound(filename.to_owned()));
        }
        let info = match commit_info(&self.repo, oid) {
            Ok(info) => info,
            Err(e) => return Err(repo_error(&e)),
        };
        let found = match entry_at_path(&self.repo, info.tree, filename) {
            Ok(found) => found,
            Err(e) => return Err(repo_error(&e)),
        };
        let (kind, id) = match found {
            Ok(entry) => entry,
            Err(e) => return Err(lookup_failure(filename, is_not_found(&e), error_text(&e))),
        };
        if let Err(e) = blob_or_not_found(filename, kind) {
            return Err(e);
        }
        let bytes = match blob_bytes(&self.repo, id) {
            Ok(b) => b,
            Err(e) => return Err(repo_error(&e)),
        };
        decode_document(filename, bytes)
    }

    /// Commits the staged snapshot of `index` on the branch tip.
    fn commit_index(
        &self,
        index: &mut git2::Index,
        author_name: &str,
        author_email: &str,
        message: &str,
    ) -> (r: Result<String, StorageError>)
        ensures
            r matches Ok(id) ==> is_revision_id(id@),
            r matches Err(e) ==> e is Repository,
    {
        if let Err(e) = save_index(index) {
            return Err(repo_error(&e));
        }
        let tree = match write_index_tree(index) {
            Ok(t) => t,
            Err(e) => return Err(repo_error(&e)),
        };
        let parent = match self.tip() {
            Ok(p) => p,
            Err(e) => return Err(e),
        };
        match commit_tree(&self.repo, author_name, author_email, message, tree, parent) {
            Ok(oid) => Ok(oid_text(&oid)),
            Err(e) => Err(repo_error(&e)),
        }
    }

    /// Records `content` as the document `filename` in a new revision on the
    /// branch tip, and returns the revision's id. The working-tree copy of
    /// the file is the caller's to write.
    pub fn store(
        &self,
        filename: &str,
        content: &str,
        author_name: &str,
        author_email: &str,
        message: &str,
    ) -> (r: Result<String, StorageError>)
        ensures
            r matches Ok(id) ==> is_revision_id(id@),
            r matches Err(e) ==> e is Repository,
    {
        let mut index = match repository_index(&self.repo) {
            Ok(i) => i,
            Err(e) => return Err(repo_error(&e)),
        };
        if let Err(e) = stage_content(&mut index, filename, content) {
            return Err(repo_error(&e));
        }
        self.commit_index(&mut index, author_name, author_email, message)
    }

    /// Records the removal of `filename` in a new revision on the branch tip,
    /// and returns the revision's id. A document that was never committed is
    /// no error. The working-tree copy of the file is the caller's to remove.
    pub fn delete(&self, filename: &str, author_name: &str, author_email: &str, message: &str) -> (r:
        Result<String, StorageError>)
        ensures
            r matches Ok(id) ==> is_revision_id(id@),
            r matches Err(e) ==> e is Repository,
    {
        let mut index = match repository_index(&self.repo) {
            Ok(i) => i,
            Err(e) => return Err(repo_error(&e)),
        };
        if let Err(e) = unstage_path(&mut index, filename) {
            return Err(repo_error(&e));
        }
        self.commit_index(&mut index, author_name, author_email, message)
    }

    /// Reads the snapshot tree `tree` out of the object database, down to
    /// `depth` levels of directories; a tree nested deeper is a repository
    /// failure. Each level is made by `snapshot_level`.
    fn load_tree(&self, tree: git2::Oid, depth: usize) -> (r: Result<
        Vec<SnapshotNode>,
        StorageError,
    >)
        ensures
            depth == 0 ==> r matches Err(StorageError::Repository(_)),
            r matches Ok(nodes) ==> wf_entries(nodes@),
            r matches Err(e) ==> e is Repository,
        decreases depth,
    {
        if depth == 0 {
            return Err(StorageError::Repository("snapshot tree nested too deeply".to_owned()));
        }
        let items = match tree_items(&self.repo, tree) {
            Ok(items) => items,
            Err(e) => return Err(repo_error(&e)),
        };
        let mut loaded: Vec<LoadedItem> = Vec::new();
        let mut i: usize = 0;
        while i < items.len()
            invariant
                depth > 0,
                loaded_wf(loaded@),
            decreases items.len() - i,
        {
            let item = &items[i];
            let entries = match item.kind {
                EntryKind::Tree => match self.load_tree(item.id, depth - 1) {
                    Ok(entries) => entries,
                    Err(e) => return Err(e),
                },
                _ => Vec::new(),
            };
            let name = match &item.name {
                Some(n) => Some(n.clone()),
                None => None,
            };
            proof {
                if !(item.kind is Tree) {
                    assert(wf_entries(entries@));
                }
            }
            let ghost before = loaded@;
            loaded.push(LoadedItem { name, kind: item.kind, entries });
            assert forall|k: int| 0 <= k < loaded@.len() implies wf_entries(
                #[trigger] loaded@[k].entries@,
            ) by {
                if k < before.len() {
                    assert(loaded@[k] == before[k]);
                }
            }
            i = i + 1;
        }
        Ok(snapshot_level(loaded))
    }

    /// The snapshot tree of commit `commit`.
    fn commit_snapshot(&self, commit: git2::Oid) -> (r: Result<Vec<SnapshotNode>, StorageError>)
        ensures
            r matches Ok(nodes) ==> wf_entries(nodes@),
            r matches Err(e) ==> e is Repository,
    {
        let info = match commit_info(&self.repo, commit) {
            Ok(info) => info,
            Err(e) => return Err(repo_error(&e)),
        };
        self.load_tree(info.tree, MAX_TREE_DEPTH)
    }

    /// Every document in the branch tip's snapshot, depth first; none before
    /// the first commit.
    pub fn list_pages(&self) -> (r: Result<Vec<String>, StorageError>)
        ensures
            r matches Ok(pages) ==> {
                &&& forall|i: int| 0 <= i < pages@.len() ==> is_doc_path(#[trigger] pages@[i]@)
                &&& is_snapshot_listing(texts(pages@), true)
                &&& texts(pages@).no_duplicates()
            },
            r matches Err(e) ==> e is Repository,
    {
        let mut pages: Vec<String> = Vec::new();
        let snap = match self.tip() {
            Err(e) => return Err(e),
            Ok(None) => {
                let empty: Vec<SnapshotNode> = Vec::new();
                assert(wf_entries(empty@));
                empty
            },
            Ok(Some(head)) => match self.commit_snapshot(head) {
                Ok(nodes) => nodes,
                Err(e) => return Err(e),
            },
        };
        let root = "";
        proof {
            reveal_strlit("");
            assert(root@ =~= Seq::<char>::empty());
            assert(texts(pages@) =~= Seq::<Seq<char>>::empty());
        }
        collect_paths(&snap, root, true, &mut pages);
        assert(texts(pages@) =~= entries_paths(snap@, Seq::<char>::empty(), true));
        assert(wf_entries(snap@));
        proof {
            lemma_listing_no_duplicates(texts(pages@), true);
        }
        Ok(pages)
    }

    /// Looks `filename` up in the snapshot tree `tree`; a path that cannot
    /// name an entry is missing.
    fn lookup_path(&self, tree: git2::Oid, filename: &str) -> (r: PathLookup)
        ensures
            !is_tree_path(filename@) ==> r is Missing,
    {
        if !tree_path(filename) {
            return PathLookup::Missing;
        }
        match entry_at_path(&self.repo, tree, filename) {
            Err(e) => PathLookup::Failed(error_text(&e)),
            Ok(Ok(_)) => PathLookup::Found,
            Ok(Err(e)) => {
                if is_not_found(&e) {
                    PathLookup::Missing
                } else {
                    PathLookup::Failed(error_text(&e))
                }
            },
        }
    }

    /// The revisions, newest first, whose snapshot holds `filename`: at most
    /// `limit` of them, taken along the ancestry walk from the branch tip.
    pub fn get_page_history(&self, filename: &str, limit: usize) -> (r: Result<
        Vec<PageHistory>,
        StorageError,
    >)
        ensures
            r matches Ok(h) ==> {
                &&& h@.len() <= limit
                &&& exists|walk: Seq<Visit>| is_page_history(h@, walk, limit as nat)
                &&& forall|i: int| 0 <= i < h@.len() ==> is_revision_id(#[trigger] h@[i].revision@)
            },
            r matches Err(e) ==> e is Repository,
    {
        let mut walk: Vec<Visit> = Vec::new();
        let head = match self.tip() {
            Ok(h) => h,
            Err(e) => return Err(e),
        };
        if head.is_some() {
            let oids = match ancestry(&self.repo) {
                Ok(o) => o,
                Err(e) => return Err(repo_error(&e)),
            };
            let mut found: usize = 0;
            let mut i: usize = 0;
            while i < oids.len() && found < limit
                invariant
                    forall|k: int| 0 <= k < walk@.len() ==> is_revision_id(#[trigger] walk@[k].revision@),
                decreases oids.len() - i,
            {
                let oid = oids[i];
                let info = match commit_info(&self.repo, oid) {
                    Ok(info) => info,
                    Err(e) => return Err(repo_error(&e)),
                };
                let has_path = match presence(self.lookup_path(info.tree, filename)) {
                    Ok(b) => b,
                    Err(e) => return Err(e),
                };
                if has_path {
                    found = found + 1;
                }
                walk.push(Visit { revision: oid_text(&oid), info, has_path });
                i = i + 1;
            }
        }
        let history = page_history_from(&walk, limit);
        proof {
            lemma_present_ids(walk@);
            assert(is_page_history(history@, walk@, limit as nat));
            assert(history@.len() <= limit);
            assert forall|i: int| 0 <= i < history@.len() implies is_revision_id(
                #[trigger] history@[i].revision@,
            ) by {
                assert(history@[i].revision@ == present(walk@)[i].revision@);
            }
        }
        Ok(history)
    }

    /// The changelog of the commits `oids`, in their order: an entry for each
    /// of the first `limit`, with every file of its snapshot.
    pub fn changelog_of(&self, oids: &Vec<git2::Oid>, limit: usize) -> (r: Result<
        Vec<ChangelogEntry>,
        StorageError,
    >)
        ensures
            r matches Ok(c) ==> {
                &&& c@.len() == min_nat(limit as nat, oids@.len())
                &&& forall|i: int| 0 <= i < c@.len() ==> is_revision_id(#[trigger] c@[i].revision@)
                &&& forall|i: int|
                    0 <= i < c@.len() ==> is_snapshot_listing(texts(#[trigger] c@[i].files@), false)
                &&& exists|commits: Seq<LoggedCommit>| #[trigger] is_changelog_of(c@, commits)
            },
            r matches Err(e) ==> e is Repository,
    {
        let mut commits: Vec<LoggedCommit> = Vec::new();
        let root = "";
        proof {
            reveal_strlit("");
            assert(root@ =~= Seq::<char>::empty());
        }
        let mut i: usize = 0;
        while i < oids.len() && i < limit
            invariant
                commits@.len() == i,
                i <= limit,
                i <= oids@.len(),
                root@ == Seq::<char>::empty(),
                forall|k: int|
                    0 <= k < commits@.len() ==> is_revision_id(#[trigger] commits@[k].revision@)
                        && is_snapshot_listing(texts(commits@[k].files@), false),
            decreases oids.len() - i,
        {
            let oid = oids[i];
            let info = match commit_info(&self.repo, oid) {
                Ok(info) => info,
                Err(e) => return Err(repo_error(&e)),
            };
            let snap = match self.load_tree(info.tree, MAX_TREE_DEPTH) {
                Ok(nodes) => nodes,
                Err(e) => return Err(e),
            };
            let mut files: Vec<String> = Vec::new();
            assert(texts(files@) =~= Seq::<Seq<char>>::empty());
            collect_paths(&snap, root, false, &mut files);
            assert(texts(files@) =~= entries_paths(snap@, Seq::<char>::empty(), false));
            let c = LoggedCommit { revision: oid_text(&oid), info, files };
            let ghost before = commits@;
            commits.push(c);
            assert forall|k: int| 0 <= k < commits@.len() implies is_revision_id(
                #[trigger] commits@[k].revision@,
            ) && is_snapshot_listing(texts(commits@[k].files@), false) by {
                if k < before.len() {
                    assert(commits@[k] == before[k]);
                } else {
                    assert(texts(commits@[k].files@) == entries_paths(snap@, Seq::<char>::empty(), false));
                }
            }
            i = i + 1;
        }
        let log = changelog_from(&commits, limit);
        assert(is_changelog_of(log@, commits@));
        assert forall|k: int| 0 <= k < log@.len() implies is_revision_id(#[trigger] log@[k].revision@)
            && is_snapshot_listing(texts(log@[k].files@), false) by {
            assert(log@[k].files@ == commits@[k].files@);
        }
        Ok(log)
    }

    /// The newest `limit` revisions (all, where there are fewer), newest
    /// first, each with every file of its snapshot; none before the first
    /// commit.
    pub fn get_changelog(&self, limit: usize) -> (r: Result<Vec<ChangelogEntry>, StorageError>)
        ensures
            r matches Ok(c) ==> {
                &&& c@.len() <= limit
                &&& forall|i: int| 0 <= i < c@.len() ==> is_revision_id(#[trigger] c@[i].revision@)
                &&& forall|i: int|
                    0 <= i < c@.len() ==> is_snapshot_listing(texts(#[trigger] c@[i].files@), false)
            },
            r matches Err(e) ==> e is Repository,
    {
        match self.tip() {
            Err(e) => Err(e),
            Ok(None) => Ok(Vec::new()),
            Ok(Some(_)) => {
                let oids = match ancestry(&self.repo) {
                    Ok(o) => o,
                    Err(e) => return Err(repo_error(&e)),
                };
                self.changelog_of(&oids, limit)
            },
        }
    }
}

} // verus!
