//! How the wiki's pages map to documents in the store.
use crate::paths::{doc_suffix, is_doc_path, is_document};
use crate::utils::{sanitize_pagename, sanitized};
use vstd::prelude::*;

verus! {

/// The document that holds page `page`: its sanitized name with the
/// document suffix.
pub open spec fn page_document(page: Seq<char>, retain_case: bool) -> Seq<char> {
    sanitized(page, retain_case) + doc_suffix()
}

/// The name of the document that holds page `page`.
pub fn document_name(page: &str, retain_case: bool) -> (r: String)
    ensures
        r@ == page_document(page@, retain_case),
{
    let mut r = sanitize_pagename(page, retain_case);
    let suffix = ".md";
    proof {
        reveal_strlit(".md");
        assert(suffix@ =~= doc_suffix());
    }
    r.append(suffix);
    r
}

/// `path` with its document suffix removed, as often as it ends with one.
pub open spec fn without_doc_suffix(path: Seq<char>) -> Seq<char>
    decreases path.len(),
{
    if is_doc_path(path) && path.len() >= 3 {
        without_doc_suffix(path.subrange(0, path.len() - 3))
    } else {
        path
    }
}

/// The page name that a document path shows: the path without its
/// document suffix, stripped as often as it repeats.
pub fn page_name(path: &str) -> (r: &str)
    ensures
        r@ == without_doc_suffix(path@),
{
    let mut n = path.unicode_len();
    assert(path@.subrange(0, n as int) =~= path@);
    while is_document(path.substring_char(0, n))
        invariant
            n <= path@.len(),
            without_doc_suffix(path@.subrange(0, n as int)) == without_doc_suffix(path@),
        decreases n,
    {
        assert(path@.subrange(0, n as int).subrange(0, n - 3) =~= path@.subrange(0, n - 3));
        n = n - 3;
    }
    assert(path@.subrange(0, path@.len() as int) =~= path@);
    path.substring_char(0, n)
}

/// The commit message of a page edit: the one given, or `Updated <page>`.
pub open spec fn edit_message(message: Option<String>, page: Seq<char>) -> Seq<char> {
    match message {
        Some(m) => m@,
        None => "Updated "@ + page,
    }
}

/// The commit message of a page edit: the one given, or `Updated <page>`.
pub fn commit_message_for(message: Option<String>, page: &str) -> (r: String)
    ensures
        r@ == edit_message(message, page@),
{
    match message {
        Some(m) => m,
        None => {
            let mut r = "Updated ".to_owned();
            r.append(page);
            r
        },
    }
}

/// The document of the home page that a new wiki starts with.
pub fn home_filename(retain_case: bool) -> (r: &'static str)
    ensures
        r@ == (if retain_case {
            "Home.md"@
        } else {
            "home.md"@
        }),
{
    if retain_case {
        "Home.md"
    } else {
        "home.md"
    }
}

/// What `robots.txt` says under the `robots_txt` setting: crawlers are
/// allowed where it is `allow`, turned away otherwise.
pub fn robots_body(setting: &String) -> (r: &'static str)
    ensures
        r@ == (if setting@ == "allow"@ {
            "User-agent: *\nAllow: /"@
        } else {
            "User-agent: *\nDisallow: /"@
        }),
{
    let allow = "allow".to_owned();
    if *setting == allow {
        "User-agent: *\nAllow: /"
    } else {
        "User-agent: *\nDisallow: /"
    }
}

} // verus!
