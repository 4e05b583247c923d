//! The reference index: an identifier-to-tree mapping built once
//! before streaming begins and read-only afterwards.
//!
//! The index is abstractly a map from identifier to reference tree.
//! Duplicate identifiers follow a last-write-wins policy: a later
//! entry silently overwrites an earlier one.

use vstd::prelude::*;

use phylotree::tree::Tree;

use crate::engine;
use crate::engine::{newick_parses, newick_safe};
use crate::errors::PipelineError;
use crate::paths::{file_id_spec, get_file_id, str_eq};

verus! {

/// The map of parallel identifier and tree listings, later entries
/// overwriting earlier ones.
pub open spec fn index_map(ids: Seq<Seq<char>>, trees: Seq<Tree>) -> Map<Seq<char>, Tree>
    decreases ids.len(),
{
    if ids.len() == 0 || ids.len() != trees.len() {
        Map::empty()
    } else {
        index_map(ids.drop_last(), trees.drop_last()).insert(ids.last(), trees.last())
    }
}

/// The map that a pair listing builds up, later pairs overwriting
/// earlier ones.
pub open spec fn pairs_map(ps: Seq<(String, Tree)>) -> Map<Seq<char>, Tree>
    decreases ps.len(),
{
    if ps.len() == 0 {
        Map::empty()
    } else {
        pairs_map(ps.drop_last()).insert(ps.last().0@, ps.last().1)
    }
}

/// An immutable identifier-to-tree mapping over the reference trees.
pub struct ReferenceIndex {
    ids: Vec<String>,
    trees: Vec<Tree>,
}

impl View for ReferenceIndex {
    type V = Map<Seq<char>, Tree>;

    closed spec fn view(&self) -> Map<Seq<char>, Tree> {
        index_map(self.ids.deep_view(), self.trees@)
    }
}

impl ReferenceIndex {
    /// The identifier and tree listings go in lockstep.
    pub closed spec fn wf(self) -> bool {
        self.ids@.len() == self.trees@.len()
    }

    /// An empty index.
    pub fn new() -> (r: ReferenceIndex)
        ensures
            r.wf(),
            r@ == Map::<Seq<char>, Tree>::empty(),
    {
        ReferenceIndex { ids: Vec::new(), trees: Vec::new() }
    }

    /// Add one reference tree under its identifier; an existing entry
    /// under the same identifier is overwritten.
    pub fn insert(&mut self, id: String, tree: Tree)
        requires
            old(self).wf(),
        ensures
            final(self).wf(),
            final(self)@ == old(self)@.insert(id@, tree),
    {
        self.ids.push(id);
        self.trees.push(tree);
        proof {
            assert(self.ids.deep_view().drop_last() =~~= old(self).ids.deep_view());
            assert(self.trees@.drop_last() =~= old(self).trees@);
            assert(self.ids.deep_view().last() == id@);
        }
    }

    /// Look an identifier up; the returned tree is the one of the
    /// latest entry under that identifier.
    pub fn lookup(&self, id: &str) -> (r: Option<&Tree>)
        requires
            self.wf(),
        ensures
            match r {
                Some(t) => self@.contains_key(id@) && *t == self@[id@],
                None => !self@.contains_key(id@),
            },
    {
        let ghost ids_v = self.ids.deep_view();
        let ghost trees_v = self.trees@;
        let n = self.ids.len();
        proof {
            assert(ids_v.take(n as int) =~~= ids_v);
            assert(trees_v.take(n as int) =~= trees_v);
        }
        let mut i: usize = n;
        while i > 0
            invariant
                i <= n,
                n == self.ids@.len(),
                n == self.trees@.len(),
                ids_v == self.ids.deep_view(),
                trees_v == self.trees@,
                self@.contains_key(id@) <==> index_map(
                    ids_v.take(i as int),
                    trees_v.take(i as int),
                ).contains_key(id@),
                self@.contains_key(id@) ==> self@[id@] == index_map(
                    ids_v.take(i as int),
                    trees_v.take(i as int),
                )[id@],
            decreases i,
        {
            proof {
                assert(ids_v.take(i as int).drop_last() =~~= ids_v.take(i - 1));
                assert(trees_v.take(i as int).drop_last() =~= trees_v.take(i - 1));
                assert(ids_v.take(i as int).last() == ids_v[i - 1]);
                assert(ids_v[i - 1] == self.ids@[i - 1]@);
            }
            if str_eq(self.ids[i - 1].as_str(), id) {
                return Some(&self.trees[i - 1]);
            }
            i = i - 1;
        }
        None
    }

    /// Build the index from a listing of identified reference trees,
    /// in order, so that the last entry under an identifier wins.
    pub fn from_pairs(pairs: Vec<(String, Tree)>) -> (r: ReferenceIndex)
        ensures
            r.wf(),
            r@ == pairs_map(pairs@),
    {
        let ghost orig = pairs@;
        let mut rest = pairs;
        let mut index = ReferenceIndex::new();
        let ghost mut i: int = 0;
        proof {
            assert(rest@ =~= orig.skip(0));
            assert(index@ =~= pairs_map(orig.take(0)));
        }
        while rest.len() > 0
            invariant
                index.wf(),
                0 <= i,
                i + rest@.len() == orig.len(),
                rest@ == orig.skip(i),
                index@ == pairs_map(orig.take(i)),
            decreases rest@.len(),
        {
            let p = rest.remove(0);
            index.insert(p.0, p.1);
            proof {
                i = i + 1;
                assert(rest@ =~= orig.skip(i));
                assert(orig.take(i).drop_last() =~= orig.take(i - 1));
                assert(orig.take(i).last() == orig[i - 1]);
                assert(index@ =~= pairs_map(orig.take(i)));
            }
        }
        proof {
            assert(orig.take(orig.len() as int) =~= orig);
        }
        index
    }
}

/// Whether a candidate file can be read into an identified tree: the
/// content is one the engine's parser can be handed and accepts, and
/// the path yields an identifier.
pub open spec fn tree_readable(path: Seq<char>, content: Seq<char>) -> bool {
    &&& newick_safe(content)
    &&& newick_parses(content)
    &&& file_id_spec(path) is Some
}

/// Parse one newick tree and extract its identifier from the file's
/// path.  Succeeds exactly when the content is an acceptable newick
/// text and the path has a usable file name; everything else is a
/// parse fault.
pub fn read_tree(path: &str, content: &str) -> (r: Result<(String, Tree), PipelineError>)
    ensures
        r is Ok <==> tree_readable(path@, content@),
        r matches Ok(p) ==> Some(p.0@) == file_id_spec(path@),
        r matches Err(e) ==> e is Parse,
{
    if !engine::newick_safe_check(content) {
        let mut msg = String::from_str("could not parse newick file: ");
        msg.append(path);
        msg.append(": the text is not a newick tree");
        return Err(PipelineError::Parse(msg));
    }
    let mut tree = match engine::parse_newick(content) {
        Ok(t) => t,
        Err(m) => {
            let mut msg = String::from_str("could not parse newick file: ");
            msg.append(path);
            msg.append(": ");
            msg.append(m.as_str());
            return Err(PipelineError::Parse(msg));
        },
    };
    match engine::reset_depths(&mut tree) {
        Ok(()) => (),
        Err(m) => {
            let mut msg = String::from_str("could not parse newick file: ");
            msg.append(path);
            msg.append(": ");
            msg.append(m.as_str());
            return Err(PipelineError::Parse(msg));
        },
    }
    let id = match get_file_id(path) {
        Ok(id) => id,
        Err(e) => {
            return Err(e);
        },
    };
    Ok((id, tree))
}

} // verus!
