use phylotree::tree::Tree;

use treecomp::comp::compare_trees;
use treecomp::index::read_tree;

const FIVE_LEAVES: &str = "(((L1:1,L2:1):1,(L3:1,L4:1):1):1,L5:1);";

#[test]
fn compare_trees_computes_only_requested_modes() {
    let reftree = Tree::from_newick(FIVE_LEAVES).unwrap();
    let cmptree = Tree::from_newick(FIVE_LEAVES).unwrap();
    let rec = compare_trees(String::from("A"), &reftree, &cmptree, true, false, false, false)
        .unwrap();
    assert!(rec.topology.is_some());
    assert!(rec.branches.is_none());
    assert!(rec.distances.is_none());
    let topo = rec.topology.unwrap();
    assert_eq!(topo.id, "A");
    assert_eq!(topo.n_tips, 5);
    assert_eq!(topo.rf, "0");
}

#[test]
fn distance_mode_yields_one_row_per_leaf_pair() {
    let reftree = Tree::from_newick(FIVE_LEAVES).unwrap();
    let cmptree = Tree::from_newick(FIVE_LEAVES).unwrap();
    let rec = compare_trees(String::from("A"), &reftree, &cmptree, false, false, true, false)
        .unwrap();
    let dists = rec.distances.unwrap();
    assert_eq!(dists.len(), 5 * 4 / 2);
    for d in &dists {
        assert_eq!(d.id, "A");
        // identical trees: both matrices hold the same distances
        assert_eq!(d.ref_dist, d.cmp_dist);
    }
}

#[test]
fn distance_values_come_from_the_matrices() {
    // two leaves one unit and two units from the root: distance 3
    let reftree = Tree::from_newick("(A:1,B:2);").unwrap();
    let cmptree = Tree::from_newick("(A:1,B:5);").unwrap();
    let rec = compare_trees(String::from("p"), &reftree, &cmptree, false, false, true, false)
        .unwrap();
    let dists = rec.distances.unwrap();
    assert_eq!(dists.len(), 1);
    assert_eq!(dists[0].ref_dist, "3");
    assert_eq!(dists[0].cmp_dist, "6");
}

#[test]
fn branch_records_respect_the_bucket_invariant() {
    let reftree = Tree::from_newick("((A:1,B:1):2,(C:1,D:1):3);").unwrap();
    let cmptree = Tree::from_newick("((A:1,C:1):2,(B:1,D:1):4);").unwrap();
    let rec = compare_trees(String::from("A"), &reftree, &cmptree, false, true, false, true)
        .unwrap();
    let branches = rec.branches.unwrap();
    assert!(!branches.is_empty());
    let mut buckets = [0usize; 3];
    for b in &branches {
        assert_eq!(b.id, "A");
        let ref_side = b.ref_len.is_some();
        let cmp_side = b.cmp_len.is_some();
        // depth goes with length, side by side
        assert_eq!(b.ref_len.is_some(), b.ref_depth.is_some());
        assert_eq!(b.cmp_len.is_some(), b.cmp_depth.is_some());
        match (ref_side, cmp_side) {
            (true, false) => buckets[0] += 1,
            (false, true) => buckets[1] += 1,
            (true, true) => buckets[2] += 1,
            (false, false) => panic!("a branch record with no fields"),
        }
    }
    // the four shared leaf branches are common; the two internal
    // branches of each tree differ in topology
    assert!(buckets[2] >= 4);
}

#[test]
fn identical_trees_share_every_branch() {
    let reftree = Tree::from_newick("((A:1,B:1):2,(C:1,D:1):3);").unwrap();
    let cmptree = Tree::from_newick("((A:1,B:1):2,(C:1,D:1):3);").unwrap();
    let rec = compare_trees(String::from("A"), &reftree, &cmptree, false, true, false, true)
        .unwrap();
    let branches = rec.branches.unwrap();
    assert!(!branches.is_empty());
    for b in &branches {
        assert!(b.ref_len.is_some() && b.cmp_len.is_some());
    }
}

#[test]
fn unnamed_leaves_fail_the_distance_comparison() {
    let reftree = Tree::from_newick("(:1,:1);").unwrap();
    let cmptree = Tree::from_newick("(:1,:1);").unwrap();
    let e = compare_trees(String::from("A"), &reftree, &cmptree, false, false, true, false)
        .unwrap_err();
    assert!(e.is_comparison());
}

#[test]
fn read_tree_extracts_the_identifier() {
    let (id, tree) = read_tree("trees/A.nwk", FIVE_LEAVES).unwrap();
    assert_eq!(id, "A");
    assert_eq!(tree.n_leaves(), 5);
}

#[test]
fn read_tree_rejects_garbage() {
    let e = read_tree("trees/D.nwk", "this is not a newick").unwrap_err();
    assert!(e.is_parse());
    assert!(e.message().contains("D.nwk"));
}

#[test]
fn read_tree_rejects_texts_the_parser_asserts_on() {
    // the engine's parser asserts an open or completed subtree on
    // these; the library turns them into parse faults instead
    assert!(read_tree("t.nwk", ";").unwrap_err().is_parse());
    assert!(read_tree("t.nwk", "A;").unwrap_err().is_parse());
    assert!(read_tree("t.nwk", ")").unwrap_err().is_parse());
    assert!(read_tree("t.nwk", ",").unwrap_err().is_parse());
    assert!(read_tree("t.nwk", "(a),b;").unwrap_err().is_parse());
    assert!(read_tree("t.nwk", "(a),,;").unwrap_err().is_parse());
    assert!(read_tree("t.nwk", "(a),);").unwrap_err().is_parse());
    assert!(read_tree("t.nwk", "\"x;y\";").unwrap_err().is_parse());
}

#[test]
fn read_tree_accepts_quoted_names() {
    let (id, tree) = read_tree("q.nwk", "(\"a b\":1,c:1);").unwrap();
    assert_eq!(id, "q");
    assert_eq!(tree.n_leaves(), 2);
}
