//! The comparison engine boundary.
//!
//! The actual tree parsing and tree comparison algorithms live in the
//! `phylotree` crate.  This module declares the engine's types for the
//! verifier and wraps the calls the pipeline makes, converting every
//! engine result into plain values (depths as integers, every metric or
//! length as its decimal text, errors as their display text).  The
//! contracts here state only what the engine's source shows; everything
//! built on top of them is verified.

use vstd::prelude::*;

use phylotree::distance::DistanceMatrix;
use phylotree::tree::{EdgeLength, Tree};

verus! {

#[verifier::external_type_specification]
#[verifier::external_body]
pub struct ExTree(Tree);

#[verifier::external_type_specification]
#[verifier::external_body]
#[verifier::reject_recursive_types(T)]
pub struct ExDistanceMatrix<T>(DistanceMatrix<T>);

/// The label of each leaf of a tree, one entry per leaf, in the order
/// the engine lists them; a leaf without a name is a `None` entry.
pub uninterp spec fn leaf_labels(t: Tree) -> Seq<Option<Seq<char>>>;

/// The taxa labels of a distance matrix, in the order the matrix
/// stores them.
pub uninterp spec fn mat_taxa(m: DistanceMatrix<EdgeLength>) -> Seq<Seq<char>>;

/// The pairwise distance of two taxa of a distance matrix, as its
/// decimal text; nothing when a taxon is missing from the matrix.
pub uninterp spec fn mat_dist(m: DistanceMatrix<EdgeLength>, a: Seq<char>, b: Seq<char>) -> Option<
    Seq<char>,
>;

/// Whether the engine's newick parser accepts this text: success is
/// a function of the text alone (a pure character-by-character parse,
/// including the branch-length number parses).
pub uninterp spec fn newick_parses(s: Seq<char>) -> bool;

/// Whether a tree is a well-formed parser output: it has a parentless
/// root node, no deleted nodes, and consistent child links, as every
/// tree the newick parser returns does.
pub uninterp spec fn newick_tree_wf(t: Tree) -> bool;

/// Whether two trees are topology-comparable: both have named,
/// unique, rooted leaves and branch lengths on every counted
/// partition, so the engine's topology comparison succeeds.  The
/// engine decides this from the two tree structures alone.
pub uninterp spec fn topo_comparable(a: Tree, b: Tree) -> bool;

/// Whether two trees are branch-comparable under the tip flag: the
/// partition lengths both need are present (and, with tips included,
/// the tip names are unique and tip lengths present), so the engine's
/// branch comparison succeeds.  The engine decides this from the tree
/// structures and the flag alone.
pub uninterp spec fn branches_comparable(a: Tree, b: Tree, include_tips: bool) -> bool;

/// Whether the engine can build a tree's distance matrix (given that
/// every leaf is named): the engine decides this from the tree
/// structure alone.
pub uninterp spec fn matrix_computable(t: Tree) -> bool;

/// Whether every leaf of a tree carries a name.
pub open spec fn all_leaves_named(t: Tree) -> bool {
    forall|i: int| 0 <= i < leaf_labels(t).len() ==> leaf_labels(t)[i] is Some
}

/// Whether a distance matrix is internally consistent: its triangular
/// storage holds one entry per unordered pair of its taxa.  The
/// engine's own constructors check this; a matrix assembled by hand
/// from raw parts need not satisfy it.
pub uninterp spec fn mat_wf(m: DistanceMatrix<EdgeLength>) -> bool;

/// The topology metrics of one comparison, each carried as the decimal
/// text the engine's number formatting produces.
#[derive(Debug)]
pub struct TopoMetrics {
    /// Robinson-Foulds distance.
    pub rf: String,
    /// Normalized Robinson-Foulds distance.
    pub norm_rf: String,
    /// Weighted Robinson-Foulds distance.
    pub weighted_rf: String,
    /// Khuner-Felsenstein branch score.
    pub branch_score: String,
}

/// The three branch buckets of one branch-length comparison: each
/// entry is a branch's depth and its length as decimal text.
#[derive(Debug)]
pub struct BranchBuckets {
    /// Branches present in the reference tree only.
    pub ref_only: Vec<(usize, String)>,
    /// Branches present in the candidate tree only.
    pub cmp_only: Vec<(usize, String)>,
    /// Branches present in both trees: the reference entry, then the
    /// candidate entry.
    pub common: Vec<((usize, String), (usize, String))>,
}

/// The field the newick parser is reading: a node name, a branch
/// length, or a bracketed comment.
pub enum NewickField {
    Name,
    Length,
    Comment,
}

/// Whether the newick parser runs to a return (success or error) from
/// position `i` of `s` without hitting one of its internal assertions,
/// given its state: `q` inside a quoted name, `p` the field being
/// read, `depth` the number of open subtrees, `cs` whether a sibling
/// node is current.  This mirrors the parser's own state machine: a
/// quoted name swallows everything but the closing quote, a comment
/// everything but `]`; `(` opens a subtree; `,` needs an open or
/// completed subtree and then clears the current node; `)` needs the
/// same and completes a subtree; `;` returns, but needs a current node
/// when no subtree is open; every other character only feeds a name or
/// length.
pub open spec fn newick_safe_from(
    s: Seq<char>,
    i: int,
    q: bool,
    p: NewickField,
    depth: int,
    cs: bool,
) -> bool
    decreases s.len() - i,
{
    if i < 0 || i >= s.len() {
        true
    } else {
        let c = s[i];
        if q && p is Name && c != '"' {
            newick_safe_from(s, i + 1, q, p, depth, cs)
        } else if p is Comment && c != ']' {
            newick_safe_from(s, i + 1, q, p, depth, cs)
        } else if c == '"' {
            newick_safe_from(s, i + 1, !q, p, depth, cs)
        } else if c == '[' {
            newick_safe_from(s, i + 1, q, NewickField::Comment, depth, cs)
        } else if c == ']' {
            newick_safe_from(s, i + 1, q, NewickField::Name, depth, cs)
        } else if c == '(' {
            newick_safe_from(s, i + 1, q, p, depth + 1, cs)
        } else if c == ':' {
            newick_safe_from(s, i + 1, q, NewickField::Length, depth, cs)
        } else if c == ',' {
            if depth == 0 && !cs {
                false
            } else {
                newick_safe_from(s, i + 1, q, NewickField::Name, depth, false)
            }
        } else if c == ')' {
            if depth == 0 {
                cs
            } else {
                newick_safe_from(s, i + 1, q, NewickField::Name, depth - 1, true)
            }
        } else if c == ';' {
            depth > 0 || cs
        } else {
            newick_safe_from(s, i + 1, q, p, depth, cs)
        }
    }
}

/// Whether the newick parser runs to a return on this text: every
/// `,`, `)` and `;` it processes finds an open or completed subtree.
/// Texts that fail this (a bare leaf `A;`, a stray `,` or `)` at the
/// top level, a bare sibling name after a subtree closes) trip the parser's
/// internal assertions; the library reports them as parse faults
/// without handing them to the parser.
pub open spec fn newick_safe(s: Seq<char>) -> bool {
    newick_safe_from(s, 0, false, NewickField::Name, 0, false)
}

/// Check that the newick parser can be handed this text.
pub fn newick_safe_check(s: &str) -> (r: bool)
    ensures
        r == newick_safe(s@),
{
    let n = s.unicode_len();
    let mut i: usize = 0;
    let mut q = false;
    let mut fld = NewickField::Name;
    let mut depth: usize = 0;
    let mut cs = false;
    while i < n
        invariant
            i <= n,
            n == s@.len(),
            depth <= i,
            newick_safe(s@) == newick_safe_from(s@, i as int, q, fld, depth as int, cs),
        decreases n - i,
    {
        let c = s.get_char(i);
        if q && matches!(fld, NewickField::Name) && c != '"' {
            // a quoted name swallows the character
        } else if matches!(fld, NewickField::Comment) && c != ']' {
            // a comment swallows the character
        } else if c == '"' {
            q = !q;
        } else if c == '[' {
            fld = NewickField::Comment;
        } else if c == ']' {
            fld = NewickField::Name;
        } else if c == '(' {
            depth += 1;
        } else if c == ':' {
            fld = NewickField::Length;
        } else if c == ',' {
            if depth == 0 && !cs {
                return false;
            }
            fld = NewickField::Name;
            cs = false;
        } else if c == ')' {
            if depth == 0 {
                return cs;
            }
            depth -= 1;
            fld = NewickField::Name;
            cs = true;
        } else if c == ';' {
            return depth > 0 || cs;
        }
        i += 1;
    }
    true
}

/// Relies on `Tree::from_newick`: parses a newick string into a tree.
/// A malformed string comes back as the parse error's display text.
/// The precondition walks the parser's own state machine and
/// guarantees that every `,`, `)` and `;` the parser processes finds
/// an open or completed subtree, so its internal assertions hold.
/// Success is a pure function of the text, named `newick_parses`; a
/// returned tree is a freshly built, fully linked, rooted node arena.
#[verifier::external_body]
pub(crate) fn parse_newick(content: &str) -> (r: Result<Tree, String>)
    requires
        newick_safe(content@),
    ensures
        r is Ok <==> newick_parses(content@),
        r matches Ok(t) ==> newick_tree_wf(t),
{
    Tree::from_newick(content).map_err(|e| e.to_string())
}

/// Relies on `Tree::reset_depths`: recomputes the depth of every node
/// by walking down from the root.  It neither adds nor removes leaves
/// and does not touch their names, and on a well-formed parser output
/// (rooted, no deleted nodes, consistent links) it cannot fail.
#[verifier::external_body]
pub(crate) fn reset_depths(t: &mut Tree) -> (r: Result<(), String>)
    ensures
        leaf_labels(*final(t)) == leaf_labels(*old(t)),
        newick_tree_wf(*old(t)) ==> r is Ok,
{
    t.reset_depths().map_err(|e| e.to_string())
}

/// Relies on `Tree`'s derived `Clone` impl: a field-for-field deep
/// copy of the node arena and its caches, so the copy is the same
/// tree value (as vstd states of `String::clone`).
#[verifier::external_body]
pub(crate) fn clone_tree(t: &Tree) -> (r: Tree)
    ensures
        r == *t,
{
    t.clone()
}

/// Relies on `Tree::get_leaf_names`: the name of each leaf, one entry
/// per leaf.
#[verifier::external_body]
pub(crate) fn leaf_names(t: &Tree) -> (r: Vec<Option<String>>)
    ensures
        r.deep_view() == leaf_labels(*t),
{
    t.get_leaf_names()
}

/// Relies on `Tree::compare_topologies`: computes the Robinson-Foulds
/// metrics and the branch score of two trees in one pass.  Whether it
/// succeeds is decided by the tree structures alone (named, unique
/// leaves, a root, branch lengths on every counted partition), so
/// success is named `topo_comparable`; a failure comes back as its
/// display text.
#[verifier::external_body]
pub(crate) fn compare_topologies(reftree: &Tree, cmptree: &Tree) -> (r: Result<
    TopoMetrics,
    String,
>)
    ensures
        r is Ok <==> topo_comparable(*reftree, *cmptree),
{
    match reftree.compare_topologies(cmptree) {
        Ok(c) => Ok(
            TopoMetrics {
                rf: format!("{}", c.rf),
                norm_rf: format!("{}", c.norm_rf),
                weighted_rf: format!("{}", c.weighted_rf),
                branch_score: format!("{}", c.branch_score),
            },
        ),
        Err(e) => Err(e.to_string()),
    }
}

/// Relies on `Tree::compare_branch_lengths`: partitions the branches
/// of two trees into reference-only, candidate-only and common
/// buckets, by topological bipartition, with leaf branches included
/// only when `include_tips` is set.  Whether it succeeds is decided
/// by the tree structures and the flag alone (whether some partition
/// or tip lacks the data it needs does not depend on any iteration
/// order), so success is named `branches_comparable`.  The engine
/// walks hash maps, so the order within each bucket is arbitrary.
#[verifier::external_body]
pub(crate) fn compare_branch_lengths(
    reftree: &Tree,
    cmptree: &Tree,
    include_tips: bool,
) -> (r: Result<BranchBuckets, String>)
    ensures
        r is Ok <==> branches_comparable(*reftree, *cmptree, include_tips),
{
    match reftree.compare_branch_lengths(cmptree, include_tips) {
        Ok((refs, cmps, boths)) => Ok(
            BranchBuckets {
                ref_only: refs.into_iter().map(|(d, l)| (d, format!("{l}"))).collect(),
                cmp_only: cmps.into_iter().map(|(d, l)| (d, format!("{l}"))).collect(),
                common: boths.into_iter().map(
                    |((rd, rl), (cd, cl))| ((rd, format!("{rl}")), (cd, format!("{cl}"))),
                ).collect(),
            },
        ),
        Err(e) => Err(e.to_string()),
    }
}

/// Relies on `Tree::distance_matrix`: computes the full pairwise
/// leaf-distance matrix of a tree.  The matrix's taxa are the names of
/// the tree's leaves (sorted by name), so their count is the leaf
/// count.  The engine asserts that every leaf is named, hence the
/// precondition; under it, success is decided by the tree structure
/// alone and is named `matrix_computable`.
#[verifier::external_body]
pub(crate) fn distance_matrix(t: &Tree) -> (r: Result<DistanceMatrix<EdgeLength>, String>)
    requires
        all_leaves_named(*t),
    ensures
        r is Ok <==> matrix_computable(*t),
        r matches Ok(m) ==> mat_wf(m) && mat_taxa(m).len() == leaf_labels(*t).len(),
{
    t.distance_matrix().map_err(|e| e.to_string())
}

/// Relies on `DistanceMatrix::taxa`: the taxa labels of the matrix.
#[verifier::external_body]
pub(crate) fn matrix_taxa(m: &DistanceMatrix<EdgeLength>) -> (r: Vec<String>)
    ensures
        r.deep_view() == mat_taxa(*m),
{
    m.taxa.clone()
}

/// Relies on `DistanceMatrix::get`: the distance between two taxa of
/// the matrix, as its decimal text; nothing when a taxon is missing.
/// The consistency precondition keeps the lookup inside the matrix's
/// triangular storage.
#[verifier::external_body]
pub(crate) fn matrix_get(m: &DistanceMatrix<EdgeLength>, a: &str, b: &str) -> (r: Option<String>)
    requires
        mat_wf(*m),
    ensures
        r.deep_view() == mat_dist(*m, a@, b@),
{
    match m.get(a, b) {
        Ok(d) => Some(format!("{d}")),
        Err(_) => None,
    }
}

} // verus!
