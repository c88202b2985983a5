//! The walk over a rustdoc tree, which rebuilds qualified paths from the
//! nesting of directories and classifies every page it meets.

use vstd::prelude::*;

use crate::classify::{classify, parse_docset_entry};
use crate::common::{DocsetEntry, EntryModel, Error};
use crate::text::{join_qualified, opt_view, qualified, same_text};

verus! {

/// One item of a directory listing: a directory with its own listing, or
/// anything else, known by its name.
#[derive(Debug)]
pub enum DocNode {
    File(String),
    Dir(String, Vec<DocNode>),
}

/// The views of a sequence of entries.
pub open spec fn entry_views(v: Seq<DocsetEntry>) -> Seq<EntryModel> {
    v.map_values(|e: DocsetEntry| e@)
}

/// Whether the walk leaves out directory `d` of a directory whose qualified
/// path is `q`: at the root of the tree, the mirrored sources and the lists of
/// implementors are no documentation pages.
pub open spec fn skipped_dir(q: Option<Seq<char>>, d: Seq<char>) -> bool {
    q is None && (d == "src"@ || d == "implementors"@)
}

/// The qualified path of subdirectory `d` of a directory whose qualified path
/// is `q`.
pub open spec fn child_path(q: Option<Seq<char>>, d: Seq<char>) -> Seq<char> {
    match q {
        Some(p) => qualified(p, d),
        None => d,
    }
}

/// The entries of the files directly in a listing, in order; `Err` holds the
/// page path of the first malformed page.
pub open spec fn local_entries(q: Option<Seq<char>>, prefix: Seq<char>, nodes: Seq<DocNode>) -> Result<
    Seq<EntryModel>,
    Seq<char>,
>
    decreases nodes.len(),
{
    if nodes.len() == 0 {
        Ok(Seq::empty())
    } else {
        match local_entries(q, prefix, nodes.drop_last()) {
            Err(p) => Err(p),
            Ok(rest) => match nodes.last() {
                DocNode::File(f) => match classify(q, prefix + f@, f@) {
                    Err(()) => Err(prefix + f@),
                    Ok(None) => Ok(rest),
                    Ok(Some(m)) => Ok(rest.push(m)),
                },
                DocNode::Dir(_, _) => Ok(rest),
            },
        }
    }
}

/// The entries of the subdirectories of a listing, one subdirectory after the
/// other.
pub open spec fn subdir_entries(q: Option<Seq<char>>, prefix: Seq<char>, nodes: Seq<DocNode>) -> Result<
    Seq<EntryModel>,
    Seq<char>,
>
    decreases nodes, 0nat,
{
    if nodes.len() == 0 {
        Ok(Seq::empty())
    } else {
        match subdir_entries(q, prefix, nodes.drop_last()) {
            Err(p) => Err(p),
            Ok(rest) => match nodes.last() {
                DocNode::File(_) => Ok(rest),
                DocNode::Dir(d, children) => if skipped_dir(q, d@) {
                    Ok(rest)
                } else {
                    match walk_dir(Some(child_path(q, d@)), prefix + d@ + "/"@, children@) {
                        Err(p) => Err(p),
                        Ok(s) => Ok(rest + s),
                    }
                },
            },
        }
    }
}

/// The entries of a directory: those of its own files, then those of its
/// subdirectories.
pub open spec fn walk_dir(q: Option<Seq<char>>, prefix: Seq<char>, nodes: Seq<DocNode>) -> Result<
    Seq<EntryModel>,
    Seq<char>,
>
    decreases nodes, 1nat,
{
    match local_entries(q, prefix, nodes) {
        Err(p) => Err(p),
        Ok(l) => match subdir_entries(q, prefix, nodes) {
            Err(p) => Err(p),
            Ok(s) => Ok(l + s),
        },
    }
}

/// Whether two listings of the root differ at most in what the directories
/// that the walk leaves out at the root hold.
pub open spec fn differ_in_skipped(a: Seq<DocNode>, b: Seq<DocNode>) -> bool {
    &&& a.len() == b.len()
    &&& forall|i: int|
        0 <= i < a.len() ==> #[trigger] a[i] == b[i] || (a[i] matches DocNode::Dir(x, _) && b[i] matches DocNode::Dir(
            y,
            _,
        ) && x@ == y@ && skipped_dir(None, x@))
}

/// The root's `src` and `implementors` directories are never walked: whatever
/// they hold, the entries of the tree stay the same.
pub proof fn lemma_root_skipped_dirs_contribute_nothing(
    prefix: Seq<char>,
    a: Seq<DocNode>,
    b: Seq<DocNode>,
)
    requires
        differ_in_skipped(a, b),
    ensures
        walk_dir(None, prefix, a) == walk_dir(None, prefix, b),
{
    lemma_skipped_local(prefix, a, b);
    lemma_skipped_subdirs(prefix, a, b);
}

proof fn lemma_skipped_local(prefix: Seq<char>, a: Seq<DocNode>, b: Seq<DocNode>)
    requires
        differ_in_skipped(a, b),
    ensures
        local_entries(None, prefix, a) == local_entries(None, prefix, b),
    decreases a.len(),
{
    if a.len() > 0 {
        assert(differ_in_skipped(a.drop_last(), b.drop_last())) by {
            assert forall|i: int| 0 <= i < a.len() - 1 implies #[trigger] a.drop_last()[i] == b.drop_last()[i] || (
            a.drop_last()[i] matches DocNode::Dir(x, _) && b.drop_last()[i] matches DocNode::Dir(y, _) && x@ == y@
                && skipped_dir(None, x@)) by {
                assert(a[i] == a.drop_last()[i]);
                assert(b[i] == b.drop_last()[i]);
            }
        }
        lemma_skipped_local(prefix, a.drop_last(), b.drop_last());
        assert(a.last() == a[a.len() - 1]);
    }
}

proof fn lemma_skipped_subdirs(prefix: Seq<char>, a: Seq<DocNode>, b: Seq<DocNode>)
    requires
        differ_in_skipped(a, b),
    ensures
        subdir_entries(None, prefix, a) == subdir_entries(None, prefix, b),
    decreases a.len(),
{
    if a.len() > 0 {
        assert(differ_in_skipped(a.drop_last(), b.drop_last())) by {
            assert forall|i: int| 0 <= i < a.len() - 1 implies #[trigger] a.drop_last()[i] == b.drop_last()[i] || (
            a.drop_last()[i] matches DocNode::Dir(x, _) && b.drop_last()[i] matches DocNode::Dir(y, _) && x@ == y@
                && skipped_dir(None, x@)) by {
                assert(a[i] == a.drop_last()[i]);
                assert(b[i] == b.drop_last()[i]);
            }
        }
        lemma_skipped_subdirs(prefix, a.drop_last(), b.drop_last());
        assert(a.last() == a[a.len() - 1]);
    }
}

/// Below the root, a directory is walked whatever its name, `src` and
/// `implementors` included: its entries are those of its own walk.
pub proof fn lemma_nested_dir_walked(
    q: Seq<char>,
    prefix: Seq<char>,
    name: String,
    children: Vec<DocNode>,
)
    ensures
        subdir_entries(Some(q), prefix, seq![DocNode::Dir(name, children)]) == match walk_dir(
            Some(qualified(q, name@)),
            prefix + name@ + "/"@,
            children@,
        ) {
            Ok(s) => Ok(Seq::<EntryModel>::empty() + s),
            Err(p) => Err::<Seq<EntryModel>, Seq<char>>(p),
        },
{
    let nodes = seq![DocNode::Dir(name, children)];
    assert(nodes.drop_last() =~= Seq::<DocNode>::empty());
    assert(subdir_entries(Some(q), prefix, nodes.drop_last()) == Ok::<Seq<EntryModel>, Seq<char>>(
        Seq::empty(),
    ));
    assert(nodes.last() == DocNode::Dir(name, children));
    assert(!skipped_dir(Some(q), name@));
}

/// The name of an item of a listing.
pub open spec fn node_name(n: DocNode) -> Seq<char> {
    match n {
        DocNode::File(f) => f@,
        DocNode::Dir(d, _) => d@,
    }
}

/// The names of the items of a listing.
pub open spec fn node_names(nodes: Seq<DocNode>) -> Seq<Seq<char>> {
    nodes.map_values(|n: DocNode| node_name(n))
}

/// Whether a listing is one that a file system gives: no two items of one
/// directory share a name, no name holds `/`, and the same holds below.
pub open spec fn well_formed_listing(nodes: Seq<DocNode>) -> bool
    decreases nodes,
{
    &&& node_names(nodes).no_duplicates()
    &&& forall|i: int| 0 <= i < nodes.len() ==> !(#[trigger] node_name(nodes[i])).contains('/')
    &&& forall|i: int|
        0 <= i < nodes.len() ==> (#[trigger] nodes[i] matches DocNode::Dir(_, ch) ==> well_formed_listing(
            ch@,
        ))
}

/// The characters of `x` before its first `/`.
pub open spec fn first_segment(x: Seq<char>) -> Seq<char>
    decreases x.len(),
{
    if x.len() == 0 {
        x
    } else if x[0] == '/' {
        Seq::empty()
    } else {
        seq![x[0]] + first_segment(x.skip(1))
    }
}

/// The name of the item of the directory at `prefix` under which `path` lies.
pub open spec fn owner(path: Seq<char>, prefix: Seq<char>) -> Seq<char> {
    first_segment(path.skip(prefix.len() as int))
}

proof fn lemma_first_segment(n: Seq<char>, t: Seq<char>)
    requires
        !n.contains('/'),
        t.len() == 0 || t[0] == '/',
    ensures
        first_segment(n + t) == n,
    decreases n.len(),
{
    if n.len() == 0 {
        assert(n + t == t);
    } else {
        assert(n[0] != '/') by {
            assert(n.contains(n[0]));
        }
        assert((n + t)[0] == n[0]);
        assert((n + t).skip(1) == n.skip(1) + t);
        assert(!n.skip(1).contains('/')) by {
            if n.skip(1).contains('/') {
                let k = choose|k: int| 0 <= k < n.skip(1).len() && n.skip(1)[k] == '/';
                assert(n[k + 1] == '/');
            }
        }
        lemma_first_segment(n.skip(1), t);
        assert(seq![n[0]] + n.skip(1) == n);
    }
}

/// Whether every page path of `s` lies under `prefix`, and no two are the
/// same.
pub open spec fn paths_under(s: Seq<EntryModel>, prefix: Seq<char>) -> bool {
    &&& forall|k: int|
        0 <= k < s.len() ==> prefix.len() <= (#[trigger] s[k]).path.len() && s[k].path.take(
            prefix.len() as int,
        ) == prefix
    &&& forall|k1: int, k2: int|
        0 <= k1 < k2 < s.len() ==> (#[trigger] s[k1]).path != (#[trigger] s[k2]).path
}

/// Whether item `i` of a listing is a directory (`dirs`) or not, named `o`.
pub open spec fn item_named(nodes: Seq<DocNode>, i: int, o: Seq<char>, dirs: bool) -> bool {
    0 <= i < nodes.len() && (nodes[i] is Dir) == dirs && node_name(nodes[i]) == o
}

/// Whether each page path of `s` lies under an item of `nodes` that is a
/// directory (`dirs`) or not.
pub open spec fn owners_among(s: Seq<EntryModel>, prefix: Seq<char>, nodes: Seq<DocNode>, dirs: bool) -> bool {
    forall|k: int|
        #![trigger s[k]]
        0 <= k < s.len() ==> exists|i: int| item_named(nodes, i, owner(s[k].path, prefix), dirs)
}

proof fn lemma_well_formed_drop_last(nodes: Seq<DocNode>)
    requires
        well_formed_listing(nodes),
        nodes.len() > 0,
    ensures
        well_formed_listing(nodes.drop_last()),
        forall|i: int| 0 <= i < nodes.len() - 1 ==> node_name(#[trigger] nodes[i]) != node_name(nodes.last()),
        !node_name(nodes.last()).contains('/'),
        nodes.last() matches DocNode::Dir(_, ch) ==> well_formed_listing(ch@),
{
    let d = nodes.drop_last();
    assert(node_names(d) == node_names(nodes).drop_last());
    assert forall|i: int| 0 <= i < d.len() implies !(#[trigger] node_name(d[i])).contains('/') by {
        assert(d[i] == nodes[i]);
    }
    assert forall|i: int| 0 <= i < d.len() implies (#[trigger] d[i] matches DocNode::Dir(_, ch)
        ==> well_formed_listing(ch@)) by {
        assert(d[i] == nodes[i]);
    }
    assert(node_names(d).no_duplicates()) by {
        assert forall|i: int, j: int|
            0 <= i < node_names(d).len() && 0 <= j < node_names(d).len() && i != j implies node_names(
            d,
        )[i] != node_names(d)[j] by {
            assert(node_names(d)[i] == node_names(nodes)[i]);
            assert(node_names(d)[j] == node_names(nodes)[j]);
        }
    }
    let last = nodes.len() - 1;
    assert forall|i: int| 0 <= i < nodes.len() - 1 implies node_name(#[trigger] nodes[i]) != node_name(
        nodes.last(),
    ) by {
        assert(node_names(nodes)[i] == node_name(nodes[i]));
        assert(node_names(nodes)[last] == node_name(nodes[last]));
    }
    assert(!node_name(nodes[last]).contains('/'));
    assert(nodes[last] matches DocNode::Dir(_, ch) ==> well_formed_listing(ch@));
}

/// What holds of the entries found before the last item of a listing: they
/// lie under items of the whole listing, none of them the last one.
proof fn lemma_owners_lift(s: Seq<EntryModel>, prefix: Seq<char>, nodes: Seq<DocNode>, dirs: bool)
    requires
        well_formed_listing(nodes),
        nodes.len() > 0,
        owners_among(s, prefix, nodes.drop_last(), dirs),
    ensures
        owners_among(s, prefix, nodes, dirs),
        forall|k: int| 0 <= k < s.len() ==> owner((#[trigger] s[k]).path, prefix) != node_name(nodes.last()),
{
    lemma_well_formed_drop_last(nodes);
    assert forall|k: int| #![trigger s[k]] 0 <= k < s.len() implies exists|i: int| item_named(nodes, i, owner(s[k].path, prefix), dirs)
        && owner(s[k].path, prefix) != node_name(nodes.last()) by {
        let i = choose|i: int| item_named(nodes.drop_last(), i, owner(s[k].path, prefix), dirs);
        assert(nodes.drop_last()[i] == nodes[i]);
        assert(item_named(nodes, i, owner(s[k].path, prefix), dirs));
    }
}

proof fn lemma_local_paths(q: Option<Seq<char>>, prefix: Seq<char>, nodes: Seq<DocNode>)
    requires
        well_formed_listing(nodes),
        local_entries(q, prefix, nodes) is Ok,
    ensures
        paths_under(local_entries(q, prefix, nodes)->Ok_0, prefix),
        owners_among(local_entries(q, prefix, nodes)->Ok_0, prefix, nodes, false),
    decreases nodes.len(),
{
    if nodes.len() > 0 {
        let d = nodes.drop_last();
        lemma_well_formed_drop_last(nodes);
        lemma_local_paths(q, prefix, d);
        let rest = local_entries(q, prefix, d)->Ok_0;
        let s = local_entries(q, prefix, nodes)->Ok_0;
        let last = nodes.len() - 1;
        lemma_owners_lift(rest, prefix, nodes, false);
        if s.len() > rest.len() {
            if let DocNode::File(f) = nodes.last() {
                let m = s.last();
                assert(s == rest.push(m));
                assert(m.path == prefix + f@);
                assert(m.path.take(prefix.len() as int) == prefix);
                assert(m.path.skip(prefix.len() as int) == f@ + Seq::<char>::empty());
                lemma_first_segment(f@, Seq::<char>::empty());
                assert(item_named(nodes, last, owner(m.path, prefix), false));
                assert forall|k: int| #![trigger s[k]] 0 <= k < s.len() implies exists|i: int| item_named(
                    nodes,
                    i,
                    owner(s[k].path, prefix),
                    false,
                ) by {
                    if k < rest.len() {
                        assert(s[k] == rest[k]);
                    } else {
                        assert(item_named(nodes, last, owner(s[k].path, prefix), false));
                    }
                }
                assert forall|k: int| 0 <= k < s.len() implies prefix.len() <= (#[trigger] s[k]).path.len()
                    && s[k].path.take(prefix.len() as int) == prefix by {
                    if k < rest.len() {
                        assert(s[k] == rest[k]);
                    }
                }
                assert forall|k1: int, k2: int| 0 <= k1 < k2 < s.len() implies (#[trigger] s[k1]).path
                    != (#[trigger] s[k2]).path by {
                    assert(s[k1] == rest[k1]);
                    if k2 < rest.len() {
                        assert(s[k2] == rest[k2]);
                    } else {
                        assert(owner(rest[k1].path, prefix) != node_name(nodes.last()));
                    }
                }
            }
        } else {
            assert(s == rest);
        }
    }
}

proof fn lemma_subdir_paths(q: Option<Seq<char>>, prefix: Seq<char>, nodes: Seq<DocNode>)
    requires
        well_formed_listing(nodes),
        subdir_entries(q, prefix, nodes) is Ok,
    ensures
        paths_under(subdir_entries(q, prefix, nodes)->Ok_0, prefix),
        owners_among(subdir_entries(q, prefix, nodes)->Ok_0, prefix, nodes, true),
    decreases nodes, 0nat,
{
    if nodes.len() > 0 {
        let d = nodes.drop_last();
        lemma_well_formed_drop_last(nodes);
        lemma_subdir_paths(q, prefix, d);
        let rest = subdir_entries(q, prefix, d)->Ok_0;
        let s = subdir_entries(q, prefix, nodes)->Ok_0;
        let last = nodes.len() - 1;
        lemma_owners_lift(rest, prefix, nodes, true);
        if let DocNode::Dir(dn, children) = nodes.last() {
            if !skipped_dir(q, dn@) {
                let sub_prefix = prefix + dn@ + "/"@;
                lemma_walk_paths(Some(child_path(q, dn@)), sub_prefix, children@);
                let sub = walk_dir(Some(child_path(q, dn@)), sub_prefix, children@)->Ok_0;
                assert(s == rest + sub);
                reveal_strlit("/");
                assert forall|k: int| 0 <= k < sub.len() implies prefix.len() <= (#[trigger] sub[k]).path.len()
                    && sub[k].path.take(prefix.len() as int) == prefix && owner(sub[k].path, prefix) == dn@ by {
                    let p = sub[k].path;
                    assert(p.take(sub_prefix.len() as int) == sub_prefix);
                    assert(sub_prefix.take(prefix.len() as int) == prefix);
                    assert(p.take(prefix.len() as int) == sub_prefix.take(prefix.len() as int));
                    let tail = p.skip(sub_prefix.len() as int);
                    assert(p == sub_prefix + tail);
                    assert(p.skip(prefix.len() as int) == dn@ + ("/"@ + tail));
                    lemma_first_segment(dn@, "/"@ + tail);
                }
                assert forall|k: int| #![trigger s[k]] 0 <= k < s.len() implies exists|i: int| item_named(
                    nodes,
                    i,
                    owner(s[k].path, prefix),
                    true,
                ) by {
                    if k < rest.len() {
                        assert(s[k] == rest[k]);
                    } else {
                        assert(s[k] == sub[k - rest.len()]);
                        assert(item_named(nodes, last, owner(s[k].path, prefix), true));
                    }
                }
                assert forall|k: int| 0 <= k < s.len() implies prefix.len() <= (#[trigger] s[k]).path.len()
                    && s[k].path.take(prefix.len() as int) == prefix by {
                    if k < rest.len() {
                        assert(s[k] == rest[k]);
                    } else {
                        assert(s[k] == sub[k - rest.len()]);
                    }
                }
                assert forall|k1: int, k2: int| 0 <= k1 < k2 < s.len() implies (#[trigger] s[k1]).path
                    != (#[trigger] s[k2]).path by {
                    if k2 < rest.len() {
                        assert(s[k1] == rest[k1]);
                        assert(s[k2] == rest[k2]);
                    } else if k1 < rest.len() {
                        assert(s[k1] == rest[k1]);
                        assert(s[k2] == sub[k2 - rest.len()]);
                        assert(owner(rest[k1].path, prefix) != node_name(nodes.last()));
                    } else {
                        assert(s[k1] == sub[k1 - rest.len()]);
                        assert(s[k2] == sub[k2 - rest.len()]);
                    }
                }
            } else {
                assert(s == rest);
            }
        } else {
            assert(s == rest);
        }
    }
}

proof fn lemma_walk_paths(q: Option<Seq<char>>, prefix: Seq<char>, nodes: Seq<DocNode>)
    requires
        well_formed_listing(nodes),
        walk_dir(q, prefix, nodes) is Ok,
    ensures
        paths_under(walk_dir(q, prefix, nodes)->Ok_0, prefix),
    decreases nodes, 1nat,
{
    lemma_local_paths(q, prefix, nodes);
    lemma_subdir_paths(q, prefix, nodes);
    let l = local_entries(q, prefix, nodes)->Ok_0;
    let sd = subdir_entries(q, prefix, nodes)->Ok_0;
    let s = l + sd;
    assert forall|k: int| 0 <= k < s.len() implies prefix.len() <= (#[trigger] s[k]).path.len() && s[k].path.take(
        prefix.len() as int,
    ) == prefix by {
        if k < l.len() {
            assert(s[k] == l[k]);
        } else {
            assert(s[k] == sd[k - l.len()]);
        }
    }
    assert forall|k1: int, k2: int| 0 <= k1 < k2 < s.len() implies (#[trigger] s[k1]).path
        != (#[trigger] s[k2]).path by {
        if k2 < l.len() {
            assert(s[k1] == l[k1]);
            assert(s[k2] == l[k2]);
        } else if k1 < l.len() {
            assert(s[k1] == l[k1]);
            assert(s[k2] == sd[k2 - l.len()]);
            let o1 = owner(l[k1].path, prefix);
            let i = choose|i: int| item_named(nodes, i, o1, false);
            let o2 = owner(sd[k2 - l.len()].path, prefix);
            let j = choose|j: int| item_named(nodes, j, o2, true);
            assert(node_names(nodes)[i] == node_name(nodes[i]));
            assert(node_names(nodes)[j] == node_name(nodes[j]));
        } else {
            assert(s[k1] == sd[k1 - l.len()]);
            assert(s[k2] == sd[k2 - l.len()]);
        }
    }
}

/// In a tree that a file system gives, the walk never meets one page twice:
/// the page paths of its entries are pairwise distinct, so no two entries
/// share a (name, kind, path) triple and the index's uniqueness constraint
/// is never broken by a walked tree.
pub proof fn lemma_walk_pages_distinct(root: Seq<DocNode>)
    requires
        well_formed_listing(root),
        walk_dir(None, Seq::empty(), root) is Ok,
    ensures
        forall|k1: int, k2: int|
            0 <= k1 < k2 < walk_dir(None, Seq::empty(), root)->Ok_0.len() ==> (#[trigger] walk_dir(
                None,
                Seq::empty(),
                root,
            )->Ok_0[k1]).path != (#[trigger] walk_dir(None, Seq::empty(), root)->Ok_0[k2]).path,
{
    lemma_walk_paths(None, Seq::empty(), root);
}

/// Whether an executable walk result agrees with the walk's model.
pub open spec fn walk_agrees(
    r: Result<Vec<DocsetEntry>, Error>,
    m: Result<Seq<EntryModel>, Seq<char>>,
) -> bool {
    match (r, m) {
        (Ok(v), Ok(s)) => entry_views(v@) == s,
        (Err(Error::MalformedEntry { path }), Err(p)) => path@ == p,
        _ => false,
    }
}

proof fn lemma_local_err(q: Option<Seq<char>>, prefix: Seq<char>, nodes: Seq<DocNode>, k: int)
    requires
        0 <= k <= nodes.len(),
        local_entries(q, prefix, nodes.take(k)) is Err,
    ensures
        local_entries(q, prefix, nodes) == local_entries(q, prefix, nodes.take(k)),
    decreases nodes.len() - k,
{
    if k < nodes.len() {
        assert(nodes.take(k + 1).drop_last() == nodes.take(k));
        lemma_local_err(q, prefix, nodes, k + 1);
    } else {
        assert(nodes.take(k) == nodes);
    }
}

proof fn lemma_subdir_err(q: Option<Seq<char>>, prefix: Seq<char>, nodes: Seq<DocNode>, k: int)
    requires
        0 <= k <= nodes.len(),
        subdir_entries(q, prefix, nodes.take(k)) is Err,
    ensures
        subdir_entries(q, prefix, nodes) == subdir_entries(q, prefix, nodes.take(k)),
    decreases nodes.len() - k,
{
    if k < nodes.len() {
        assert(nodes.take(k + 1).drop_last() == nodes.take(k));
        lemma_subdir_err(q, prefix, nodes, k + 1);
    } else {
        assert(nodes.take(k) == nodes);
    }
}

/// Whether the walk leaves out the directory `name` of the directory whose
/// qualified path is `qual_path`.
pub fn is_skipped_dir(qual_path: Option<&str>, name: &str) -> (r: bool)
    ensures
        r == skipped_dir(opt_view(qual_path), name@),
{
    qual_path.is_none() && (same_text(name, "src") || same_text(name, "implementors"))
}

/// The qualified path of the subdirectory `name` of the directory whose
/// qualified path is `qual_path`.
pub fn subdir_path(qual_path: Option<&str>, name: &str) -> (r: String)
    ensures
        r@ == child_path(opt_view(qual_path), name@),
{
    match qual_path {
        Some(p) => join_qualified(p, name),
        None => String::from_str(name),
    }
}

/// Walks the listing `nodes` of the directory whose qualified path is
/// `qual_path` (`None` at the root of the tree) and whose path relative to
/// the root is `dir_prefix` (empty at the root, else ending in `/`).
pub fn recursive_walk(qual_path: Option<&str>, dir_prefix: &str, nodes: &Vec<DocNode>) -> (r: Result<
    Vec<DocsetEntry>,
    Error,
>)
    ensures
        walk_agrees(r, walk_dir(opt_view(qual_path), dir_prefix@, nodes@)),
    decreases nodes@,
{
    let ghost q = opt_view(qual_path);
    let ghost pre = dir_prefix@;
    let mut entries: Vec<DocsetEntry> = Vec::new();
    let mut i: usize = 0;
    assert(nodes@.take(0) == Seq::<DocNode>::empty());
    assert(entry_views(entries@) == Seq::<EntryModel>::empty());
    while i < nodes.len()
        invariant
            i <= nodes@.len(),
            q == opt_view(qual_path),
            pre == dir_prefix@,
            local_entries(q, pre, nodes@.take(i as int)) == Ok::<Seq<EntryModel>, Seq<char>>(entry_views(entries@)),
        decreases nodes@.len() - i,
    {
        assert(nodes@.take(i + 1).drop_last() == nodes@.take(i as int));
        assert(nodes@.take(i + 1).last() == nodes@[i as int]);
        match &nodes[i] {
            DocNode::File(name) => {
                match parse_docset_entry(qual_path, dir_prefix, name.as_str()) {
                    Ok(Some(e)) => {
                        let ghost before = entry_views(entries@);
                        entries.push(e);
                        assert(entry_views(entries@) == before.push(e@));
                    },
                    Ok(None) => {},
                    Err(err) => {
                        proof {
                            lemma_local_err(q, pre, nodes@, i + 1);
                        }
                        return Err(err);
                    },
                }
            },
            DocNode::Dir(_, _) => {},
        }
        i = i + 1;
    }
    assert(nodes@.take(nodes@.len() as int) == nodes@);
    let ghost local = entry_views(entries@);
    i = 0;
    assert(local + Seq::<EntryModel>::empty() == local);
    while i < nodes.len()
        invariant
            i <= nodes@.len(),
            q == opt_view(qual_path),
            pre == dir_prefix@,
            local_entries(q, pre, nodes@) == Ok::<Seq<EntryModel>, Seq<char>>(local),
            subdir_entries(q, pre, nodes@.take(i as int)) matches Ok(s) && entry_views(entries@) == local + s,
        decreases nodes@.len() - i,
    {
        assert(nodes@.take(i + 1).drop_last() == nodes@.take(i as int));
        assert(nodes@.take(i + 1).last() == nodes@[i as int]);
        match &nodes[i] {
            DocNode::File(_) => {},
            DocNode::Dir(name, children) => {
                if !is_skipped_dir(qual_path, name.as_str()) {
                    let sub_path = subdir_path(qual_path, name.as_str());
                    let sub_prefix = String::from_str(dir_prefix).concat(name.as_str()).concat("/");
                    match recursive_walk(Some(sub_path.as_str()), sub_prefix.as_str(), children) {
                        Ok(mut found) => {
                            let ghost before = entry_views(entries@);
                            let ghost more = entry_views(found@);
                            entries.append(&mut found);
                            assert(entry_views(entries@) == before + more);
                            assert(local + (subdir_entries(q, pre, nodes@.take(i as int))->Ok_0 + more)
                                == before + more);
                        },
                        Err(err) => {
                            proof {
                                lemma_subdir_err(q, pre, nodes@, i + 1);
                            }
                            return Err(err);
                        },
                    }
                }
            },
        }
        i = i + 1;
    }
    assert(nodes@.take(nodes@.len() as int) == nodes@);
    Ok(entries)
}

/// Walks a whole rustdoc tree, given by the listing of its root directory.
pub fn walk_docs(root: &Vec<DocNode>) -> (r: Result<Vec<DocsetEntry>, Error>)
    ensures
        walk_agrees(r, walk_dir(None, Seq::empty(), root@)),
{
    let top = "";
    proof {
        reveal_strlit("");
    }
    assert(top@ =~= Seq::<char>::empty());
    recursive_walk(None, top, root)
}

} // verus!
