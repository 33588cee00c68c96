use vstd::prelude::*;

verus! {

/// The file-name suffix that marks a document: `.md`.
pub open spec fn doc_suffix() -> Seq<char> {
    seq!['.', 'm', 'd']
}

/// `s` ends with `suffix`.
pub open spec fn has_suffix(s: Seq<char>, suffix: Seq<char>) -> bool {
    suffix.len() <= s.len() && s.subrange(s.len() - suffix.len(), s.len() as int) == suffix
}

/// A file name (or path) that names a document.
pub open spec fn is_doc_path(name: Seq<char>) -> bool {
    has_suffix(name, doc_suffix())
}

/// The path of entry `name` inside the directory at `prefix`; the root
/// directory has the empty prefix.
pub open spec fn joined(prefix: Seq<char>, name: Seq<char>) -> Seq<char> {
    if prefix.len() == 0 {
        name
    } else {
        prefix + seq!['/'] + name
    }
}

/// Whether `name` ends with the document suffix.
pub fn is_document(name: &str) -> (r: bool)
    ensures
        r == is_doc_path(name@),
{
    let n = name.unicode_len();
    if n < 3 {
        return false;
    }
    let r = name.get_char(n - 3) == '.' && name.get_char(n - 2) == 'm' && name.get_char(n - 1)
        == 'd';
    assert(r == (name@.subrange(n - 3, n as int) =~= doc_suffix()));
    r
}

/// Joins a directory prefix and an entry name with `/`.
pub fn join_path(prefix: &str, name: &str) -> (r: String)
    ensures
        r@ == joined(prefix@, name@),
{
    if prefix.unicode_len() == 0 {
        return name.to_owned();
    }
    let mut r = prefix.to_owned();
    let slash = "/";
    proof {
        reveal_strlit("/");
    }
    r.append(slash);
    r.append(name);
    r
}

} // verus!

verus! {

/// Position `i` of `p` begins a path component.
pub open spec fn component_start(p: Seq<char>, i: int) -> bool {
    i == 0 || p[i - 1] == '/'
}

/// Position `i` of `p` ends a path component.
pub open spec fn component_end(p: Seq<char>, i: int) -> bool {
    i == p.len() || p[i] == '/'
}

/// No component of `p` that begins at `i` is empty, `.` or `..`.
pub open spec fn component_ok(p: Seq<char>, i: int) -> bool {
    component_start(p, i) ==> {
        &&& !component_end(p, i)
        &&& p[i] == '.' ==> !component_end(p, i + 1) && !(p[i + 1] == '.' && component_end(p, i + 2))
    }
}

/// A path that can name an entry of a tree: not empty, and made of
/// components that are neither empty nor `.` nor `..`.
pub open spec fn is_tree_path(p: Seq<char>) -> bool {
    &&& p.len() > 0
    &&& p[p.len() - 1] != '/'
    &&& forall|i: int| 0 <= i < p.len() ==> #[trigger] component_ok(p, i)
}

/// Whether `path` can name an entry of a tree.
pub fn tree_path(path: &str) -> (r: bool)
    ensures
        r == is_tree_path(path@),
{
    let n = path.unicode_len();
    if n == 0 || path.get_char(n - 1) == '/' {
        return false;
    }
    let mut i: usize = 0;
    while i < n
        invariant
            n == path@.len(),
            n > 0,
            i <= n,
            forall|k: int| 0 <= k < i ==> #[trigger] component_ok(path@, k),
        decreases n - i,
    {
        let start = i == 0 || path.get_char(i - 1) == '/';
        if start {
            let c = path.get_char(i);
            if c == '/' {
                assert(!component_ok(path@, i as int));
                return false;
            }
            if c == '.' {
                if n - i == 1 || path.get_char(i + 1) == '/' {
                    assert(!component_ok(path@, i as int));
                    return false;
                }
                if path.get_char(i + 1) == '.' && (n - i == 2 || path.get_char(i + 2) == '/') {
                    assert(!component_ok(path@, i as int));
                    return false;
                }
            }
        }
        assert(component_ok(path@, i as int));
        i = i + 1;
    }
    true
}

} // verus!
