//! The calls into the git object database that the store makes, each with
//! the contract that the store's proofs rest on.
use crate::models::{CommitInfo, EntryKind, TreeItem};
use vstd::prelude::*;
use vstd::utf8::{decode_utf8, valid_utf8};

verus! {

#[verifier::external_type_specification]
#[verifier::external_body]
pub struct ExRepository(git2::Repository);

#[verifier::external_type_specification]
#[verifier::external_body]
pub struct ExIndex(git2::Index);

#[verifier::external_type_specification]
#[verifier::external_body]
pub struct ExOid(git2::Oid);

#[verifier::external_type_specification]
#[verifier::external_body]
pub struct ExGitError(git2::Error);

#[verifier::external_type_specification]
#[verifier::external_body]
pub struct ExObjectType(git2::ObjectType);

/// A hexadecimal digit, in either case.
pub open spec fn is_hex_digit(c: char) -> bool {
    ('0' <= c && c <= '9') || ('a' <= c && c <= 'f') || ('A' <= c && c <= 'F')
}

/// Text that names an object id, full or abbreviated: one to forty hex digits.
pub open spec fn is_oid_text(s: Seq<char>) -> bool {
    1 <= s.len() <= 40 && forall|i: int| 0 <= i < s.len() ==> #[trigger] is_hex_digit(s[i])
}

/// A full object id as git prints it: forty lower-case hex digits.
pub open spec fn is_revision_id(s: Seq<char>) -> bool {
    s.len() == 40 && forall|i: int|
        0 <= i < s.len() ==> ('0' <= #[trigger] s[i] && s[i] <= '9') || ('a' <= s[i] && s[i]
            <= 'f')
}

/// A revision id that the store hands out is also accepted back as one:
/// every full id is valid object-id text.
pub proof fn revision_id_is_oid_text(s: Seq<char>)
    requires
        is_revision_id(s),
    ensures
        is_oid_text(s),
{
    assert forall|i: int| 0 <= i < s.len() implies #[trigger] is_hex_digit(s[i]) by {
        assert(('0' <= s[i] && s[i] <= '9') || ('a' <= s[i] && s[i] <= 'f'));
    }
}

/// Relies on `git2::Repository::open`: opens the repository at `path`.
#[verifier::external_body]
pub(crate) fn open_repository(path: &str) -> (r: Result<git2::Repository, git2::Error>) {
    git2::Repository::open(path)
}

/// Relies on `git2::Repository::init`: creates an empty repository at `path`.
#[verifier::external_body]
pub(crate) fn init_repository(path: &str) -> (r: Result<git2::Repository, git2::Error>) {
    git2::Repository::init(path)
}

/// Relies on `git2::Oid::from_str`, which fails exactly on an empty string,
/// one longer than forty characters, or one with a character that is not a
/// hex digit (libgit2's `git_oid__fromstrn`).
#[verifier::external_body]
pub(crate) fn parse_oid(s: &str) -> (r: Result<git2::Oid, git2::Error>)
    ensures
        r is Ok <==> is_oid_text(s@),
{
    git2::Oid::from_str(s)
}

/// Relies on `Display` for `git2::Oid`: forty lower-case hex digits
/// (libgit2's `git_oid_nfmt` with its digit table `0123456789abcdef`).
#[verifier::external_body]
pub(crate) fn oid_text(oid: &git2::Oid) -> (r: String)
    ensures
        is_revision_id(r@),
{
    oid.to_string()
}

/// Relies on `git2::Repository::head` and `Reference::peel_to_commit`: the
/// commit that the branch tip names.
#[verifier::external_body]
pub(crate) fn head_commit(repo: &git2::Repository) -> (r: Result<git2::Oid, git2::Error>) {
    Ok(repo.head()?.peel_to_commit()?.id())
}

/// Relies on `git2::Repository::index`: the repository's staging index.
#[verifier::external_body]
pub(crate) fn repository_index(repo: &git2::Repository) -> (r: Result<git2::Index, git2::Error>) {
    repo.index()
}

/// Relies on `git2::Index::add_frombuffer`: stages `content` as a regular
/// file at `path`.
#[verifier::external_body]
pub(crate) fn stage_content(index: &mut git2::Index, path: &str, content: &str) -> (r: Result<
    (),
    git2::Error,
>) {
    let zero = git2::IndexTime::new(0, 0);
    let entry = git2::IndexEntry {
        ctime: zero, mtime: zero, dev: 0, ino: 0, mode: 0o100644, uid: 0, gid: 0, file_size: 0,
        id: git2::Oid::zero(), flags: 0, flags_extended: 0, path: path.as_bytes().to_vec(),
    };
    index.add_frombuffer(&entry, content.as_bytes())
}

/// Relies on `git2::Index::remove_path`: unstages `path`.
#[verifier::external_body]
pub(crate) fn unstage_path(index: &mut git2::Index, path: &str) -> (r: Result<(), git2::Error>) {
    index.remove_path(std::path::Path::new(path))
}

/// Relies on `git2::Index::write`: saves the index to disk.
#[verifier::external_body]
pub(crate) fn save_index(index: &mut git2::Index) -> (r: Result<(), git2::Error>) {
    index.write()
}

/// Relies on `git2::Index::write_tree`: writes the staged snapshot as a tree.
#[verifier::external_body]
pub(crate) fn write_index_tree(index: &mut git2::Index) -> (r: Result<git2::Oid, git2::Error>) {
    index.write_tree()
}

/// Relies on `git2::Repository::commit`, with a signature made by
/// `git2::Signature::now`: a commit of `tree` on `parent` (none for the first
/// commit), which becomes the branch tip.
#[verifier::external_body]
pub(crate) fn commit_tree(
    repo: &git2::Repository,
    author_name: &str,
    author_email: &str,
    message: &str,
    tree: git2::Oid,
    parent: Option<git2::Oid>,
) -> (r: Result<git2::Oid, git2::Error>) {
    let signature = git2::Signature::now(author_name, author_email)?;
    let tree = repo.find_tree(tree)?;
    let parents = match parent {
        Some(p) => vec![repo.find_commit(p)?],
        None => vec![],
    };
    let parents: Vec<&git2::Commit> = parents.iter().collect();
    repo.commit(Some("HEAD"), &signature, &signature, message, &tree, &parents)
}

/// Relies on `git2::Repository::revwalk` with `Revwalk::push_head`: the
/// commits reachable from the branch tip, newest first.
#[verifier::external_body]
pub(crate) fn ancestry(repo: &git2::Repository) -> (r: Result<Vec<git2::Oid>, git2::Error>) {
    let mut walk = repo.revwalk()?;
    walk.push_head()?;
    walk.collect()
}

/// Relies on `git2::Repository::find_commit`: a commit's metadata and tree.
#[verifier::external_body]
pub(crate) fn commit_info(repo: &git2::Repository, oid: git2::Oid) -> (r: Result<
    CommitInfo,
    git2::Error,
>) {
    let commit = repo.find_commit(oid)?;
    let author = commit.author();
    Ok(CommitInfo {
        author_name: author.name().map(|s| s.to_string()),
        author_email: author.email().map(|s| s.to_string()),
        seconds: commit.time().seconds(),
        message: commit.message().map(|s| s.to_string()),
        tree: commit.tree_id(),
    })
}

/// Relies on `git2::Repository::find_tree` and `Tree::iter`: the entries of
/// one tree, in the tree's order.
#[verifier::external_body]
pub(crate) fn tree_items(repo: &git2::Repository, tree: git2::Oid) -> (r: Result<
    Vec<TreeItem>,
    git2::Error,
>) {
    let tree = repo.find_tree(tree)?;
    let items = tree.iter().map(
        |e| TreeItem { name: e.name().map(|s| s.to_string()), kind: entry_kind(e.kind()), id: e.id() },
    ).collect();
    Ok(items)
}

/// Relies on `git2::Repository::find_tree` and `git2::Tree::get_path`: the
/// tree `tree` (outer result), and in it the kind and id of the entry at
/// `path` (inner result).
#[verifier::external_body]
pub(crate) fn entry_at_path(repo: &git2::Repository, tree: git2::Oid, path: &str) -> (r: Result<
    Result<(EntryKind, git2::Oid), git2::Error>,
    git2::Error,
>) {
    let tree = repo.find_tree(tree)?;
    Ok(tree.get_path(std::path::Path::new(path)).map(|e| (entry_kind(e.kind()), e.id())))
}

/// Relies on `git2::Repository::find_blob` and `Blob::content`: a blob's bytes.
#[verifier::external_body]
pub(crate) fn blob_bytes(repo: &git2::Repository, oid: git2::Oid) -> (r: Result<
    Vec<u8>,
    git2::Error,
>) {
    Ok(repo.find_blob(oid)?.content().to_vec())
}

/// Relies on `git2::ObjectType`: tells a tree, a blob and anything else apart.
#[verifier::external_body]
fn entry_kind(kind: Option<git2::ObjectType>) -> (r: EntryKind) {
    match kind {
        Some(git2::ObjectType::Tree) => EntryKind::Tree,
        Some(git2::ObjectType::Blob) => EntryKind::Blob,
        _ => EntryKind::Other,
    }
}

/// Relies on `git2::Error::code`: whether the error says that an object or
/// path was not found.
#[verifier::external_body]
pub(crate) fn is_not_found(e: &git2::Error) -> (r: bool) {
    e.code() == git2::ErrorCode::NotFound
}

/// Relies on `git2::Error::code`: whether the error says that the branch tip
/// names no commit yet.
#[verifier::external_body]
pub(crate) fn is_unborn_branch(e: &git2::Error) -> (r: bool) {
    e.code() == git2::ErrorCode::UnbornBranch
}

/// Relies on `git2::Error::message`: the error's text.
#[verifier::external_body]
pub(crate) fn error_text(e: &git2::Error) -> (r: String) {
    e.message().to_string()
}

/// Relies on `String::from_utf8`: the text that `bytes` encode, where they
/// are valid UTF-8.
#[verifier::external_body]
pub(crate) fn text_from_utf8(bytes: Vec<u8>) -> (r: Option<String>)
    ensures
        r is Some <==> valid_utf8(bytes@),
        r matches Some(s) ==> s@ == decode_utf8(bytes@),
{
    String::from_utf8(bytes).ok()
}

} // verus!
