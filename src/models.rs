//! The plain values that the store reads out of the object database and
//! hands back to its callers.
use crate::utils::push_char;
use vstd::prelude::*;

verus! {

/// What a tree entry holds.
#[derive(Debug, Clone, Copy, PartialEq, Eq)]
pub enum EntryKind {
    /// A subdirectory.
    Tree,
    /// A file.
    Blob,
    /// Anything else (a submodule link, a tag).
    Other,
}

/// One entry of a snapshot tree.
pub struct TreeItem {
    /// The entry's name, where it is valid UTF-8.
    pub name: Option<String>,
    pub kind: EntryKind,
    pub id: git2::Oid,
}

/// The metadata of one commit, as stored.
pub struct CommitInfo {
    pub author_name: Option<String>,
    pub author_email: Option<String>,
    /// Commit time, in seconds since the Unix epoch (UTC).
    pub seconds: i64,
    pub message: Option<String>,
    pub tree: git2::Oid,
}

} // verus!

verus! {

/// Stands for a missing author name.
pub open spec fn unknown_author() -> Seq<char> {
    "Unknown"@
}

/// The text that an optional stored field shows: the field, or `default`.
pub open spec fn shown(field: Option<String>, default: Seq<char>) -> Seq<char> {
    match field {
        Some(s) => s@,
        None => default,
    }
}

/// One revision in which a document is present.
pub struct PageHistory {
    pub revision: String,
    pub author_name: String,
    pub author_email: String,
    /// Commit time, in seconds since the Unix epoch (UTC).
    pub datetime: i64,
    pub message: String,
}

/// One revision with every file of its snapshot.
pub struct ChangelogEntry {
    pub revision: String,
    pub author_name: String,
    pub author_email: String,
    /// Commit time, in seconds since the Unix epoch (UTC).
    pub datetime: i64,
    pub message: String,
    pub files: Vec<String>,
}

/// One commit met on the walk back from the branch tip, and whether its
/// snapshot holds the document asked about.
pub struct Visit {
    pub revision: String,
    pub info: CommitInfo,
    pub has_path: bool,
}

/// The visits of `walk` whose snapshot holds the document, in walk order.
pub open spec fn present(walk: Seq<Visit>) -> Seq<Visit>
    decreases walk.len(),
{
    if walk.len() == 0 {
        Seq::empty()
    } else {
        let rest = present(walk.drop_last());
        if walk.last().has_path {
            rest.push(walk.last())
        } else {
            rest
        }
    }
}

/// The smaller of two numbers.
pub open spec fn min_nat(a: nat, b: nat) -> nat {
    if a <= b {
        a
    } else {
        b
    }
}

/// `h` is the history that `walk` gives under `limit`: an entry for each of
/// the first `limit` visits whose snapshot holds the document, in walk order.
pub open spec fn is_page_history(h: Seq<PageHistory>, walk: Seq<Visit>, limit: nat) -> bool {
    &&& h.len() == min_nat(limit, present(walk).len())
    &&& forall|j: int|
        0 <= j < h.len() ==> is_history_entry(
            #[trigger] h[j],
            present(walk)[j].revision@,
            present(walk)[j].info,
        )
}

/// The history entry that a commit's metadata makes.
pub open spec fn is_history_entry(e: PageHistory, revision: Seq<char>, info: CommitInfo) -> bool {
    &&& e.revision@ == revision
    &&& e.author_name@ == shown(info.author_name, unknown_author())
    &&& e.author_email@ == shown(info.author_email, Seq::empty())
    &&& e.datetime == info.seconds
    &&& e.message@ == shown(info.message, Seq::empty())
}

/// The text of an optional field, or `default` where it is missing.
pub fn text_or(field: &Option<String>, default: &str) -> (r: String)
    ensures
        r@ == shown(*field, default@),
{
    match field {
        Some(s) => s.clone(),
        None => default.to_owned(),
    }
}

/// The history entry of the commit `revision`, from its metadata.
pub fn history_entry(revision: &String, info: &CommitInfo) -> (r: PageHistory)
    ensures
        is_history_entry(r, revision@, *info),
{
    let empty = "";
    proof {
        reveal_strlit("");
        assert(empty@ =~= Seq::<char>::empty());
    }
    PageHistory {
        revision: revision.clone(),
        author_name: text_or(&info.author_name, "Unknown"),
        author_email: text_or(&info.author_email, empty),
        datetime: info.seconds,
        message: text_or(&info.message, empty),
    }
}

/// The history of a document along `walk`: an entry for each of the first
/// `limit` visits whose snapshot holds it, newest first where the walk is.
pub fn page_history_from(walk: &Vec<Visit>, limit: usize) -> (r: Vec<PageHistory>)
    ensures
        is_page_history(r@, walk@, limit as nat),
{
    let mut history: Vec<PageHistory> = Vec::new();
    let mut i: usize = 0;
    while i < walk.len()
        invariant
            i <= walk@.len(),
            is_page_history(history@, walk@.subrange(0, i as int), limit as nat),
        decreases walk.len() - i,
    {
        let v = &walk[i];
        assert(walk@.subrange(0, i + 1).drop_last() =~= walk@.subrange(0, i as int));
        if v.has_path && history.len() < limit {
            history.push(history_entry(&v.revision, &v.info));
        }
        i = i + 1;
    }
    assert(walk@.subrange(0, walk@.len() as int) =~= walk@);
    history
}

/// The changelog entry that a commit's metadata and file list make.
pub open spec fn is_changelog_entry(
    e: ChangelogEntry,
    revision: Seq<char>,
    info: CommitInfo,
    files: Seq<String>,
) -> bool {
    &&& e.revision@ == revision
    &&& e.author_name@ == shown(info.author_name, unknown_author())
    &&& e.author_email@ == shown(info.author_email, Seq::empty())
    &&& e.datetime == info.seconds
    &&& e.message@ == shown(info.message, Seq::empty())
    &&& e.files@ == files
}

/// Each entry of `c` is the changelog entry of the commit at its position in
/// `commits`.
pub open spec fn is_changelog_of(c: Seq<ChangelogEntry>, commits: Seq<LoggedCommit>) -> bool {
    &&& c.len() <= commits.len()
    &&& forall|i: int|
        0 <= i < c.len() ==> is_changelog_entry(
            #[trigger] c[i],
            commits[i].revision@,
            commits[i].info,
            commits[i].files@,
        )
}

/// The changelog entry of the commit `revision`, from its metadata and the
/// files of its snapshot.
pub fn changelog_entry(revision: &String, info: &CommitInfo, files: Vec<String>) -> (r:
    ChangelogEntry)
    ensures
        is_changelog_entry(r, revision@, *info, files@),
{
    let e = history_entry(revision, info);
    ChangelogEntry {
        revision: e.revision,
        author_name: e.author_name,
        author_email: e.author_email,
        datetime: e.datetime,
        message: e.message,
        files,
    }
}

/// A copy of a list of strings.
pub fn copy_strings(v: &Vec<String>) -> (r: Vec<String>)
    ensures
        r@ == v@,
{
    let mut r: Vec<String> = Vec::new();
    let mut i: usize = 0;
    while i < v.len()
        invariant
            i <= v@.len(),
            r@ == v@.subrange(0, i as int),
        decreases v.len() - i,
    {
        r.push(v[i].clone());
        assert(r@ =~= v@.subrange(0, i + 1));
        i = i + 1;
    }
    assert(v@.subrange(0, v@.len() as int) =~= v@);
    r
}

/// One commit of the walk back from the branch tip, with every file of its
/// snapshot.
pub struct LoggedCommit {
    pub revision: String,
    pub info: CommitInfo,
    pub files: Vec<String>,
}

/// The changelog of a walk: an entry for each of its first `limit` commits,
/// in walk order.
pub fn changelog_from(commits: &Vec<LoggedCommit>, limit: usize) -> (r: Vec<ChangelogEntry>)
    ensures
        r@.len() == min_nat(limit as nat, commits@.len()),
        forall|i: int|
            0 <= i < r@.len() ==> is_changelog_entry(
                #[trigger] r@[i],
                commits@[i].revision@,
                commits@[i].info,
                commits@[i].files@,
            ),
{
    let mut log: Vec<ChangelogEntry> = Vec::new();
    let mut i: usize = 0;
    while i < commits.len() && i < limit
        invariant
            i <= commits@.len(),
            i <= limit,
            log@.len() == i,
            forall|k: int|
                0 <= k < i ==> is_changelog_entry(
                    #[trigger] log@[k],
                    commits@[k].revision@,
                    commits@[k].info,
                    commits@[k].files@,
                ),
        decreases commits.len() - i,
    {
        let c = &commits[i];
        log.push(changelog_entry(&c.revision, &c.info, copy_strings(&c.files)));
        i = i + 1;
    }
    log
}

} // verus!

verus! {

/// A wiki account.
#[derive(Debug, Clone)]
pub struct User {
    pub id: i64,
    pub name: String,
    pub email: String,
    pub password_hash: String,
    /// Seconds since the Unix epoch (UTC).
    pub first_seen: i64,
    /// Seconds since the Unix epoch (UTC).
    pub last_seen: i64,
    pub is_approved: bool,
    pub is_admin: bool,
    pub email_confirmed: bool,
    pub allow_read: bool,
    pub allow_write: bool,
    pub allow_upload: bool,
}

/// `letter` where `flag` holds, nothing otherwise.
pub open spec fn flag_letter(flag: bool, letter: char) -> Seq<char> {
    if flag {
        seq![letter]
    } else {
        Seq::empty()
    }
}

/// A user's rights as letters, in this order: `R` read, `W` write,
/// `U` upload, `A` admin.
pub open spec fn permission_letters(u: User) -> Seq<char> {
    flag_letter(u.allow_read, 'R') + flag_letter(u.allow_write, 'W') + flag_letter(
        u.allow_upload,
        'U',
    ) + flag_letter(u.is_admin, 'A')
}

impl User {
    /// The user's rights as letters: `R` read, `W` write, `U` upload,
    /// `A` admin, in that order.
    pub fn permissions_string(&self) -> (r: String)
        ensures
            r@ == permission_letters(*self),
    {
        let mut perms = String::new();
        if self.allow_read {
            push_char(&mut perms, 'R');
        }
        let ghost p1 = perms@;
        if self.allow_write {
            push_char(&mut perms, 'W');
        }
        let ghost p2 = perms@;
        if self.allow_upload {
            push_char(&mut perms, 'U');
        }
        let ghost p3 = perms@;
        if self.is_admin {
            push_char(&mut perms, 'A');
        }
        assert(p1 =~= flag_letter(self.allow_read, 'R'));
        assert(p2 =~= p1 + flag_letter(self.allow_write, 'W'));
        assert(p3 =~= p2 + flag_letter(self.allow_upload, 'U'));
        assert(perms@ =~= p3 + flag_letter(self.is_admin, 'A'));
        perms
    }
}

/// A stored user preference.
#[derive(Debug, Clone)]
pub struct Preference {
    pub name: String,
    pub value: String,
}

/// An unsaved edit of a page.
#[derive(Debug, Clone)]
pub struct Draft {
    pub id: i64,
    pub pagepath: String,
    pub revision: String,
    pub author_email: String,
    pub content: String,
    pub cursor_line: i32,
    pub cursor_ch: i32,
    /// Seconds since the Unix epoch (UTC).
    pub datetime: i64,
}

/// A cached rendering.
#[derive(Debug, Clone)]
pub struct Cache {
    pub key: String,
    pub value: String,
    /// Seconds since the Unix epoch (UTC).
    pub datetime: i64,
}

/// A page at one revision.
#[derive(Debug, Clone)]
pub struct Page {
    pub name: String,
    pub path: String,
    pub content: String,
    pub revision: String,
    pub author_name: String,
    pub author_email: String,
    /// Seconds since the Unix epoch (UTC).
    pub datetime: i64,
}

/// The fields of the login form.
#[derive(Debug, Clone)]
pub struct LoginForm {
    pub email: String,
    pub password: String,
    pub remember: Option<bool>,
}

/// The fields of the registration form.
#[derive(Debug, Clone)]
pub struct RegisterForm {
    pub name: String,
    pub email: String,
    pub password: String,
    pub password_confirm: String,
}

/// The query of a search request.
#[derive(Debug, Clone)]
pub struct SearchQuery {
    pub q: Option<String>,
}

/// The fields of the page edit form.
#[derive(Debug, Clone)]
pub struct PageForm {
    pub content: String,
    pub message: Option<String>,
}

/// What the base page layout shows.
#[derive(Debug, Clone)]
pub struct BaseTemplate {
    pub title: String,
    pub content: String,
}

} // verus!
