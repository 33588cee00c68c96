//! A snapshot tree as plain values, and the walk that lists its files.
use crate::models::EntryKind;
use crate::paths::{is_doc_path, is_document, join_path, joined};
use vstd::prelude::*;

verus! {

/// One entry of a snapshot tree.
pub enum SnapshotNode {
    /// A file.
    File { name: String },
    /// A subdirectory and its entries.
    Dir { name: String, entries: Vec<SnapshotNode> },
    /// Anything else (a submodule link); never listed.
    Other { name: String },
}

/// The texts of a sequence of strings.
pub open spec fn texts(s: Seq<String>) -> Seq<Seq<char>> {
    s.map_values(|x: String| x@)
}

/// The paths that node `n`, inside the directory at `prefix`, contributes to
/// a listing: its own path where it is a file (and a document, where
/// `docs_only`), the paths of its entries where it is a directory.
pub open spec fn node_paths(n: SnapshotNode, prefix: Seq<char>, docs_only: bool) -> Seq<Seq<char>>
    decreases n,
{
    match n {
        SnapshotNode::File { name } => {
            let p = joined(prefix, name@);
            if !docs_only || is_doc_path(p) {
                seq![p]
            } else {
                Seq::empty()
            }
        },
        SnapshotNode::Dir { name, entries } => entries_paths(
            entries@,
            joined(prefix, name@),
            docs_only,
        ),
        SnapshotNode::Other { .. } => Seq::empty(),
    }
}

/// The paths that the entries of a directory at `prefix` contribute, in
/// entry order, each subdirectory's listed in place (depth first).
pub open spec fn entries_paths(entries: Seq<SnapshotNode>, prefix: Seq<char>, docs_only: bool) -> Seq<
    Seq<char>,
>
    decreases entries,
{
    if entries.len() == 0 {
        Seq::empty()
    } else {
        entries_paths(entries.subrange(0, entries.len() - 1), prefix, docs_only) + node_paths(
            entries[entries.len() - 1],
            prefix,
            docs_only,
        )
    }
}

/// `paths` is the listing of some well-formed snapshot tree, from its
/// root: of every file, or of every document only where `docs_only`.
pub open spec fn is_snapshot_listing(paths: Seq<Seq<char>>, docs_only: bool) -> bool {
    exists|snap: Seq<SnapshotNode>|
        wf_entries(snap) && paths == entries_paths(snap, Seq::<char>::empty(), docs_only)
}

/// Appends to `out` the path of every file in `entries`, a directory at
/// `prefix` (of every document only, where `docs_only`), depth first in
/// entry order.
pub fn collect_paths(
    entries: &Vec<SnapshotNode>,
    prefix: &str,
    docs_only: bool,
    out: &mut Vec<String>,
)
    ensures
        texts(final(out)@) == texts(old(out)@) + entries_paths(entries@, prefix@, docs_only),
        old(out)@.len() <= final(out)@.len(),
        forall|i: int| 0 <= i < old(out)@.len() ==> final(out)@[i] == old(out)@[i],
        docs_only ==> forall|i: int|
            old(out)@.len() <= i < final(out)@.len() ==> is_doc_path(#[trigger] final(out)@[i]@),
    decreases entries,
{
    let ghost start = out@;
    let mut i: usize = 0;
    while i < entries.len()
        invariant
            i <= entries@.len(),
            start == old(out)@,
            texts(out@) == texts(start) + entries_paths(entries@.subrange(0, i as int), prefix@, docs_only),
            start.len() <= out@.len(),
            forall|j: int| 0 <= j < start.len() ==> out@[j] == start[j],
            docs_only ==> forall|j: int|
                start.len() <= j < out@.len() ==> is_doc_path(#[trigger] out@[j]@),
        decreases entries.len() - i,
    {
        let ghost before = out@;
        assert(entries@.subrange(0, i + 1).subrange(0, i as int) =~= entries@.subrange(0, i as int));
        assert(entries@.subrange(0, i + 1)[i as int] == entries@[i as int]);
        let ghost done = entries_paths(entries@.subrange(0, i as int), prefix@, docs_only);
        let ghost next = node_paths(entries@[i as int], prefix@, docs_only);
        assert(entries_paths(entries@.subrange(0, i + 1), prefix@, docs_only) == done + next);
        match &entries[i] {
            SnapshotNode::File { name } => {
                let p = join_path(prefix, name.as_str());
                if !docs_only || is_document(p.as_str()) {
                    out.push(p);
                    assert(next == seq![p@]);
                    assert(texts(out@) =~= texts(before) + next);
                } else {
                    assert(next =~= Seq::<Seq<char>>::empty());
                    assert(texts(out@) =~= texts(before) + next);
                }
                assert(texts(out@) =~= texts(start) + entries_paths(
                    entries@.subrange(0, i + 1),
                    prefix@,
                    docs_only,
                ));
            },
            SnapshotNode::Dir { name, entries: sub } => {
                let p = join_path(prefix, name.as_str());
                collect_paths(sub, p.as_str(), docs_only, out);
                assert(next == entries_paths(sub@, p@, docs_only));
                assert(texts(out@) =~= texts(start) + entries_paths(
                    entries@.subrange(0, i + 1),
                    prefix@,
                    docs_only,
                ));
            },
            SnapshotNode::Other { .. } => {
                assert(texts(out@) =~= texts(start) + entries_paths(
                    entries@.subrange(0, i + 1),
                    prefix@,
                    docs_only,
                ));
            },
        }
        i = i + 1;
    }
    assert(entries@.subrange(0, entries@.len() as int) =~= entries@);
}

} // verus!

verus! {

/// The test that keeps a path in a document listing.
pub open spec fn doc_filter() -> spec_fn(Seq<char>) -> bool {
    |p: Seq<char>| is_doc_path(p)
}

/// Listing the documents of a directory gives exactly the documents among
/// the listing of all its files, in the same order: nothing that is not a
/// document, and every document that is there.
pub proof fn lemma_doc_listing(entries: Seq<SnapshotNode>, prefix: Seq<char>)
    ensures
        entries_paths(entries, prefix, true) == entries_paths(entries, prefix, false).filter(
            doc_filter(),
        ),
    decreases entries,
{
    if entries.len() > 0 {
        let init = entries.subrange(0, entries.len() - 1);
        let last = entries[entries.len() - 1];
        lemma_doc_listing(init, prefix);
        lemma_node_doc_listing(last, prefix);
        Seq::filter_distributes_over_add(
            entries_paths(init, prefix, false),
            node_paths(last, prefix, false),
            doc_filter(),
        );
    } else {
        reveal(Seq::filter);
        assert(Seq::<Seq<char>>::empty().filter(doc_filter()) =~= Seq::<Seq<char>>::empty());
    }
}

/// The same for the paths that one node contributes.
pub proof fn lemma_node_doc_listing(n: SnapshotNode, prefix: Seq<char>)
    ensures
        node_paths(n, prefix, true) == node_paths(n, prefix, false).filter(doc_filter()),
    decreases n,
{
    match n {
        SnapshotNode::File { name } => {
            let p = joined(prefix, name@);
            reveal(Seq::filter);
            assert(seq![p].drop_last() =~= Seq::<Seq<char>>::empty());
            assert(Seq::<Seq<char>>::empty().filter(doc_filter()) =~= Seq::<Seq<char>>::empty());
            assert(seq![p].filter(doc_filter()) =~= node_paths(n, prefix, true));
        },
        SnapshotNode::Dir { name, entries } => {
            lemma_doc_listing(entries@, joined(prefix, name@));
        },
        SnapshotNode::Other { .. } => {
            reveal(Seq::filter);
            assert(Seq::<Seq<char>>::empty().filter(doc_filter()) =~= Seq::<Seq<char>>::empty());
        },
    }
}

} // verus!

verus! {

/// The name of a snapshot entry.
pub open spec fn node_name(n: SnapshotNode) -> Seq<char> {
    match n {
        SnapshotNode::File { name } => name@,
        SnapshotNode::Dir { name, .. } => name@,
        SnapshotNode::Other { name } => name@,
    }
}

/// A name that an entry of a tree can have: not empty, and without `/`.
pub open spec fn is_entry_name(name: Seq<char>) -> bool {
    name.len() > 0 && forall|i: int| 0 <= i < name.len() ==> name[i] != '/'
}

/// A well-formed directory: every entry has a proper name, no two entries
/// share one, and every subdirectory is well formed.
pub open spec fn wf_entries(entries: Seq<SnapshotNode>) -> bool
    decreases entries,
{
    if entries.len() == 0 {
        true
    } else {
        let init = entries.subrange(0, entries.len() - 1);
        let last = entries[entries.len() - 1];
        &&& wf_entries(init)
        &&& wf_node(last)
        &&& is_entry_name(node_name(last))
        &&& forall|j: int| 0 <= j < init.len() ==> node_name(#[trigger] init[j]) != node_name(last)
    }
}

/// A well-formed entry: a subdirectory's entries are well formed.
pub open spec fn wf_node(n: SnapshotNode) -> bool
    decreases n,
{
    match n {
        SnapshotNode::Dir { entries, .. } => wf_entries(entries@),
        _ => true,
    }
}

/// The name of a snapshot entry.
pub fn name_of(n: &SnapshotNode) -> (r: &String)
    ensures
        r@ == node_name(*n),
{
    match n {
        SnapshotNode::File { name } => name,
        SnapshotNode::Dir { name, .. } => name,
        SnapshotNode::Other { name } => name,
    }
}

/// Whether `name` can name an entry of a tree.
pub fn is_valid_entry_name(name: &str) -> (r: bool)
    ensures
        r == is_entry_name(name@),
{
    let n = name.unicode_len();
    if n == 0 {
        return false;
    }
    let mut i: usize = 0;
    while i < n
        invariant
            n == name@.len(),
            i <= n,
            forall|k: int| 0 <= k < i ==> name@[k] != '/',
        decreases n - i,
    {
        if name.get_char(i) == '/' {
            return false;
        }
        i = i + 1;
    }
    true
}

/// Whether an entry of `entries` is already called `name`.
pub fn name_taken(entries: &Vec<SnapshotNode>, name: &String) -> (r: bool)
    ensures
        r == exists|j: int| 0 <= j < entries@.len() && node_name(#[trigger] entries@[j]) == name@,
{
    let mut j: usize = 0;
    while j < entries.len()
        invariant
            j <= entries@.len(),
            forall|k: int| 0 <= k < j ==> node_name(#[trigger] entries@[k]) != name@,
        decreases entries.len() - j,
    {
        if *name_of(&entries[j]) == *name {
            return true;
        }
        j = j + 1;
    }
    false
}

} // verus!

verus! {

/// `p` is `base` itself or lies below it: `base`, a `/`, and more.
pub open spec fn under(p: Seq<char>, base: Seq<char>) -> bool {
    p == base || (base.len() < p.len() && p.subrange(0, base.len() as int) == base && p[base.len() as int]
        == '/')
}

/// Every entry of a well-formed directory has a proper name and is itself
/// well formed.
pub proof fn lemma_wf_entries_each(entries: Seq<SnapshotNode>)
    requires
        wf_entries(entries),
    ensures
        forall|j: int|
            0 <= j < entries.len() ==> is_entry_name(node_name(#[trigger] entries[j])) && wf_node(
                entries[j],
            ),
    decreases entries,
{
    if entries.len() > 0 {
        let init = entries.subrange(0, entries.len() - 1);
        lemma_wf_entries_each(init);
        assert forall|j: int| 0 <= j < entries.len() implies is_entry_name(
            node_name(#[trigger] entries[j]),
        ) && wf_node(entries[j]) by {
            if j < init.len() {
                assert(init[j] == entries[j]);
            }
        }
    }
}

/// A path below `joined(a, c)` with `a` not empty lies below `a`.
pub proof fn lemma_under_child(p: Seq<char>, a: Seq<char>, c: Seq<char>)
    requires
        a.len() > 0,
        under(p, joined(a, c)),
    ensures
        under(p, a),
{
    let b = joined(a, c);
    assert(b == a + seq!['/'] + c);
    assert(b.subrange(0, a.len() as int) =~= a);
    assert(b[a.len() as int] == '/');
    if p != b {
        assert(p.subrange(0, a.len() as int) =~= p.subrange(0, b.len() as int).subrange(0, a.len() as int));
        assert(p[a.len() as int] == p.subrange(0, b.len() as int)[a.len() as int]);
    }
}

/// Paths below two different entry names of one directory differ.
pub proof fn lemma_under_distinct(p: Seq<char>, q: Seq<char>, prefix: Seq<char>, a: Seq<char>, b: Seq<char>)
    requires
        is_entry_name(a),
        is_entry_name(b),
        a != b,
        under(p, joined(prefix, a)),
        under(q, joined(prefix, b)),
    ensures
        p != q,
{
    let base = if prefix.len() == 0 { Seq::<char>::empty() } else { prefix + seq!['/'] };
    let x = joined(prefix, a);
    let y = joined(prefix, b);
    let k = base.len() as int;
    assert(x =~= base + a);
    assert(y =~= base + b);
    if p == q {
        // the character of p at position k + i, for i inside a name
        assert forall|i: int| 0 <= i < a.len() implies p[k + i] == a[i] by {
            if p != x {
                assert(p.subrange(0, x.len() as int)[k + i] == x[k + i]);
            }
        }
        assert forall|i: int| 0 <= i < b.len() implies p[k + i] == b[i] by {
            if p != y {
                assert(p.subrange(0, y.len() as int)[k + i] == y[k + i]);
            }
        }
        if a.len() < b.len() {
            assert(p != x);
            assert(p[x.len() as int] == '/');
            assert(p[k + a.len()] == b[a.len() as int]);
        } else if b.len() < a.len() {
            assert(p != y);
            assert(p[y.len() as int] == '/');
            assert(p[k + b.len()] == a[b.len() as int]);
        } else {
            assert(a =~= b);
        }
    }
}

/// Every path that a directory lists lies below one of its entries.
pub proof fn lemma_entries_under(entries: Seq<SnapshotNode>, prefix: Seq<char>, docs_only: bool)
    requires
        wf_entries(entries),
    ensures
        forall|i: int|
            0 <= i < entries_paths(entries, prefix, docs_only).len() ==> exists|j: int|
                0 <= j < entries.len() && under(
                    #[trigger] entries_paths(entries, prefix, docs_only)[i],
                    joined(prefix, node_name(entries[j])),
                ),
    decreases entries,
{
    if entries.len() > 0 {
        let init = entries.subrange(0, entries.len() - 1);
        let last = entries[entries.len() - 1];
        let xs = entries_paths(init, prefix, docs_only);
        let ys = node_paths(last, prefix, docs_only);
        lemma_entries_under(init, prefix, docs_only);
        lemma_node_under(last, prefix, docs_only);
        assert forall|i: int| 0 <= i < entries_paths(entries, prefix, docs_only).len() implies exists|j: int|
            0 <= j < entries.len() && under(
                #[trigger] entries_paths(entries, prefix, docs_only)[i],
                joined(prefix, node_name(entries[j])),
            ) by {
            if i < xs.len() {
                let j = choose|j: int|
                    0 <= j < init.len() && under(xs[i], joined(prefix, node_name(init[j])));
                assert(init[j] == entries[j]);
            } else {
                assert(entries_paths(entries, prefix, docs_only)[i] == ys[i - xs.len()]);
                assert(under(ys[i - xs.len()], joined(prefix, node_name(last))));
            }
        }
    }
}

/// Every path that an entry lists lies below the entry itself.
pub proof fn lemma_node_under(n: SnapshotNode, prefix: Seq<char>, docs_only: bool)
    requires
        wf_node(n),
        node_name(n).len() > 0,
    ensures
        forall|i: int|
            0 <= i < node_paths(n, prefix, docs_only).len() ==> under(
                #[trigger] node_paths(n, prefix, docs_only)[i],
                joined(prefix, node_name(n)),
            ),
    decreases n,
{
    match n {
        SnapshotNode::Dir { name, entries } => {
            let a = joined(prefix, name@);
            assert(a.len() > 0);
            assert(node_paths(n, prefix, docs_only) == entries_paths(entries@, a, docs_only));
            lemma_entries_under(entries@, a, docs_only);
            assert forall|i: int| 0 <= i < node_paths(n, prefix, docs_only).len() implies under(
                #[trigger] node_paths(n, prefix, docs_only)[i],
                a,
            ) by {
                let p = node_paths(n, prefix, docs_only)[i];
                let j = choose|j: int|
                    0 <= j < entries@.len() && under(p, joined(a, node_name(entries@[j])));
                lemma_under_child(p, a, node_name(entries@[j]));
            }
        },
        _ => {},
    }
}

/// A well-formed directory lists no path twice.
pub proof fn lemma_entries_no_duplicates(entries: Seq<SnapshotNode>, prefix: Seq<char>, docs_only: bool)
    requires
        wf_entries(entries),
    ensures
        entries_paths(entries, prefix, docs_only).no_duplicates(),
    decreases entries,
{
    if entries.len() > 0 {
        let init = entries.subrange(0, entries.len() - 1);
        let last = entries[entries.len() - 1];
        let xs = entries_paths(init, prefix, docs_only);
        let ys = node_paths(last, prefix, docs_only);
        let all = entries_paths(entries, prefix, docs_only);
        lemma_entries_no_duplicates(init, prefix, docs_only);
        lemma_node_no_duplicates(last, prefix, docs_only);
        lemma_entries_under(init, prefix, docs_only);
        lemma_node_under(last, prefix, docs_only);
        lemma_wf_entries_each(init);
        assert(all == xs + ys);
        assert forall|i: int, k: int| 0 <= i < all.len() && 0 <= k < all.len() && i != k implies all[i]
            != all[k] by {
            if i < xs.len() && k < xs.len() {
                assert(all[i] == xs[i] && all[k] == xs[k]);
            } else if i >= xs.len() && k >= xs.len() {
                assert(all[i] == ys[i - xs.len()] && all[k] == ys[k - xs.len()]);
            } else {
                let (u, v) = if i < xs.len() { (i, k) } else { (k, i) };
                assert(all[u] == xs[u]);
                assert(all[v] == ys[v - xs.len()]);
                let j = choose|j: int|
                    0 <= j < init.len() && under(xs[u], joined(prefix, node_name(init[j])));
                assert(node_name(init[j]) != node_name(last));
                assert(is_entry_name(node_name(init[j])));
                assert(under(ys[v - xs.len()], joined(prefix, node_name(last))));
                lemma_under_distinct(
                    xs[u],
                    ys[v - xs.len()],
                    prefix,
                    node_name(init[j]),
                    node_name(last),
                );
            }
        }
    }
}

/// An entry lists no path twice.
pub proof fn lemma_node_no_duplicates(n: SnapshotNode, prefix: Seq<char>, docs_only: bool)
    requires
        wf_node(n),
    ensures
        node_paths(n, prefix, docs_only).no_duplicates(),
    decreases n,
{
    match n {
        SnapshotNode::Dir { name, entries } => {
            lemma_entries_no_duplicates(entries@, joined(prefix, name@), docs_only);
        },
        _ => {},
    }
}

} // verus!

verus! {

/// The listing of a well-formed snapshot names no path twice.
pub proof fn lemma_listing_no_duplicates(paths: Seq<Seq<char>>, docs_only: bool)
    requires
        is_snapshot_listing(paths, docs_only),
    ensures
        paths.no_duplicates(),
{
    let snap = choose|snap: Seq<SnapshotNode>|
        wf_entries(snap) && paths == entries_paths(snap, Seq::<char>::empty(), docs_only);
    lemma_entries_no_duplicates(snap, Seq::<char>::empty(), docs_only);
}

} // verus!

verus! {

/// One entry of a tree as read from the object database, with its
/// subdirectory's entries already loaded (none for other kinds).
pub struct LoadedItem {
    pub name: Option<String>,
    pub kind: EntryKind,
    pub entries: Vec<SnapshotNode>,
}

/// Whether an entry called `name` is kept in a directory that already holds
/// `prev`: it has a proper name that no earlier entry took. Entries without
/// a UTF-8 name, with an empty name or one holding `/`, and later entries of
/// a repeated name are skipped.
pub open spec fn accepted(name: Option<String>, prev: Seq<SnapshotNode>) -> bool {
    match name {
        Some(n) => is_entry_name(n@) && forall|j: int|
            0 <= j < prev.len() ==> node_name(#[trigger] prev[j]) != n@,
        None => false,
    }
}

/// The node that a kept entry becomes.
pub open spec fn node_from(name: String, kind: EntryKind, entries: Vec<SnapshotNode>) -> SnapshotNode {
    match kind {
        EntryKind::Tree => SnapshotNode::Dir { name, entries },
        EntryKind::Blob => SnapshotNode::File { name },
        EntryKind::Other => SnapshotNode::Other { name },
    }
}

/// The directory that a tree's entries make, in the tree's order.
pub open spec fn level_nodes(items: Seq<LoadedItem>) -> Seq<SnapshotNode>
    decreases items.len(),
{
    if items.len() == 0 {
        Seq::empty()
    } else {
        let prev = level_nodes(items.drop_last());
        let it = items.last();
        match it.name {
            Some(n) => if accepted(it.name, prev) {
                prev.push(node_from(n, it.kind, it.entries))
            } else {
                prev
            },
            None => prev,
        }
    }
}

/// Every loaded subdirectory is well formed.
pub open spec fn loaded_wf(items: Seq<LoadedItem>) -> bool {
    forall|k: int| 0 <= k < items.len() ==> wf_entries(#[trigger] items[k].entries@)
}

/// The directory that a tree's entries make: each kept entry becomes a
/// node of its kind and name, in the tree's order.
pub fn snapshot_level(items: Vec<LoadedItem>) -> (r: Vec<SnapshotNode>)
    ensures
        r@ == level_nodes(items@),
        loaded_wf(items@) ==> wf_entries(r@),
{
    let ghost orig = items@;
    let mut items = items;
    let mut nodes: Vec<SnapshotNode> = Vec::new();
    let mut i: usize = 0;
    while i < items.len()
        invariant
            items@.len() == orig.len(),
            i <= orig.len(),
            forall|k: int| i <= k < orig.len() ==> items@[k] == orig[k],
            nodes@ == level_nodes(orig.subrange(0, i as int)),
            loaded_wf(orig) ==> wf_entries(nodes@),
        decreases orig.len() - i,
    {
        let mut taken = LoadedItem { name: None, kind: EntryKind::Other, entries: Vec::new() };
        items.set_and_swap(i, &mut taken);
        assert(taken == orig[i as int]);
        assert(orig.subrange(0, i + 1).drop_last() =~= orig.subrange(0, i as int));
        assert(orig.subrange(0, i + 1).last() == orig[i as int]);
        let ghost prev = nodes@;
        match taken.name {
            Some(name) => {
                if is_valid_entry_name(name.as_str()) && !name_taken(&nodes, &name) {
                    let node = match taken.kind {
                        EntryKind::Tree => SnapshotNode::Dir { name, entries: taken.entries },
                        EntryKind::Blob => SnapshotNode::File { name },
                        EntryKind::Other => SnapshotNode::Other { name },
                    };
                    nodes.push(node);
                    proof {
                        if loaded_wf(orig) {
                            assert(wf_entries(orig[i as int].entries@));
                            assert(nodes@.subrange(0, nodes@.len() - 1) =~= prev);
                            assert(wf_node(node));
                        }
                    }
                }
            },
            None => {},
        }
        i = i + 1;
    }
    assert(orig.subrange(0, orig.len() as int) =~= orig);
    nodes
}

} // verus!
