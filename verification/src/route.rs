//! The router: one comparison outcome in, formatted rows for each
//! active sink out.
//!
//! Every record of an outcome is stamped with the run's marker and
//! formatted as one row of the sink it belongs to.  Results arrive in
//! completion order, which carries no guarantee; routing is therefore
//! order-insensitive at the level of row multisets, which the law at
//! the end of this module states.

use vstd::prelude::*;

use vstd::seq_lib::lemma_flatten_concat;

use crate::comp::{lemma_pair_count_formula, pair_count};
use crate::comp::{BranchRecordView, ComparisonRecord, DistanceRecordView};
use crate::csv::{branch_row_spec, dist_row_spec, marker_suffix, tree_row_spec};
use crate::csv::{format_branch_record, format_distance_record, format_tree_record, Marker};

verus! {

/// The topology rows of one outcome: at most one.
pub open spec fn topo_rows_of(rec: ComparisonRecord, m: Option<Seq<char>>) -> Seq<Seq<char>> {
    match rec.topology {
        Some(t) => seq![tree_row_spec(t@, m)],
        None => Seq::empty(),
    }
}

/// The branch rows of one outcome, in record order.
pub open spec fn branch_rows_of(rec: ComparisonRecord, m: Option<Seq<char>>) -> Seq<Seq<char>> {
    match rec.branches {
        Some(b) => b.deep_view().map_values(|v: BranchRecordView| branch_row_spec(v, m)),
        None => Seq::empty(),
    }
}

/// The distance rows of one outcome, in record order.
pub open spec fn dist_rows_of(rec: ComparisonRecord, m: Option<Seq<char>>) -> Seq<Seq<char>> {
    match rec.distances {
        Some(d) => d.deep_view().map_values(|v: DistanceRecordView| dist_row_spec(v, m)),
        None => Seq::empty(),
    }
}

/// The rows that one comparison outcome contributes to each sink.
#[derive(Debug)]
pub struct RenderedRows {
    /// Rows for the topology sink.
    pub topo: Vec<String>,
    /// Rows for the branch sink.
    pub branch: Vec<String>,
    /// Rows for the distance sink.
    pub dist: Vec<String>,
}

/// Decompose one comparison outcome into the rows of each sink, the
/// run's marker stamped on every row.  A mode that was not computed
/// contributes no rows.
pub fn render_record(rec: &ComparisonRecord, marker: &Marker) -> (r: RenderedRows)
    ensures
        r.topo.deep_view() == topo_rows_of(*rec, marker.values_view()),
        r.branch.deep_view() == branch_rows_of(*rec, marker.values_view()),
        r.dist.deep_view() == dist_rows_of(*rec, marker.values_view()),
{
    let ghost mv = marker.values_view();
    let m = marker.values_str();
    let mut topo: Vec<String> = Vec::new();
    match &rec.topology {
        Some(t) => {
            topo.push(format_tree_record(t, m));
        },
        None => (),
    }
    proof {
        assert(topo.deep_view() =~~= topo_rows_of(*rec, mv));
    }
    let mut branch: Vec<String> = Vec::new();
    match &rec.branches {
        Some(b) => {
            let ghost rows = b.deep_view().map_values(|v: BranchRecordView| branch_row_spec(v, mv));
            let mut i: usize = 0;
            proof {
                assert(branch.deep_view() =~~= rows.take(0));
            }
            while i < b.len()
                invariant
                    i <= b@.len(),
                    branch@.len() == i,
                    rows == b.deep_view().map_values(
                        |v: BranchRecordView| branch_row_spec(v, mv),
                    ),
                    mv == marker.values_view(),
                    m.deep_view() == mv,
                    branch.deep_view() == rows.take(i as int),
                decreases b@.len() - i,
            {
                branch.push(format_branch_record(&b[i], m));
                i += 1;
                proof {
                    assert(branch.deep_view() =~~= rows.take(i as int));
                }
            }
            proof {
                assert(rows.take(rows.len() as int) =~~= rows);
            }
        },
        None => (),
    }
    proof {
        assert(branch.deep_view() =~~= branch_rows_of(*rec, mv));
    }
    let mut dist: Vec<String> = Vec::new();
    match &rec.distances {
        Some(d) => {
            let ghost rows = d.deep_view().map_values(|v: DistanceRecordView| dist_row_spec(v, mv));
            let mut i: usize = 0;
            proof {
                assert(dist.deep_view() =~~= rows.take(0));
            }
            while i < d.len()
                invariant
                    i <= d@.len(),
                    dist@.len() == i,
                    rows == d.deep_view().map_values(|v: DistanceRecordView| dist_row_spec(v, mv)),
                    mv == marker.values_view(),
                    m.deep_view() == mv,
                    dist.deep_view() == rows.take(i as int),
                decreases d@.len() - i,
            {
                dist.push(format_distance_record(&d[i], m));
                i += 1;
                proof {
                    assert(dist.deep_view() =~~= rows.take(i as int));
                }
            }
            proof {
                assert(rows.take(rows.len() as int) =~~= rows);
            }
        },
        None => (),
    }
    proof {
        assert(dist.deep_view() =~~= dist_rows_of(*rec, mv));
    }
    RenderedRows { topo, branch, dist }
}

/// Whether `s` ends with `suffix`.
pub open spec fn ends_with(s: Seq<char>, suffix: Seq<char>) -> bool {
    s.len() >= suffix.len() && s.skip(s.len() - suffix.len()) == suffix
}

proof fn lemma_concat_ends_with(a: Seq<char>, b: Seq<char>)
    ensures
        ends_with(a + b, b),
{
    assert((a + b).skip(a.len() as int) =~= b);
}

/// Law: every row that an outcome contributes to any sink carries the
/// run's marker values as its trailing columns.
pub proof fn lemma_marker_trailing(rec: ComparisonRecord, m: Option<Seq<char>>)
    ensures
        forall|k: int|
            0 <= k < topo_rows_of(rec, m).len() ==> ends_with(
                #[trigger] topo_rows_of(rec, m)[k],
                marker_suffix(m),
            ),
        forall|k: int|
            0 <= k < branch_rows_of(rec, m).len() ==> ends_with(
                #[trigger] branch_rows_of(rec, m)[k],
                marker_suffix(m),
            ),
        forall|k: int|
            0 <= k < dist_rows_of(rec, m).len() ==> ends_with(
                #[trigger] dist_rows_of(rec, m)[k],
                marker_suffix(m),
            ),
{
    assert forall|k: int| 0 <= k < topo_rows_of(rec, m).len() implies ends_with(
        #[trigger] topo_rows_of(rec, m)[k],
        marker_suffix(m),
    ) by {
        let t = rec.topology.unwrap();
        lemma_concat_ends_with(
            crate::csv::csv_field(t@.id) + ","@ + crate::num::dec_rep(t@.n_tips) + ","@
                + crate::csv::csv_field(t@.rf) + ","@ + crate::csv::csv_field(t@.norm_rf) + ","@
                + crate::csv::csv_field(t@.weighted_rf) + ","@ + crate::csv::csv_field(
                t@.kf_score,
            ),
            marker_suffix(m),
        );
    }
    assert forall|k: int| 0 <= k < branch_rows_of(rec, m).len() implies ends_with(
        #[trigger] branch_rows_of(rec, m)[k],
        marker_suffix(m),
    ) by {
        let v = rec.branches.unwrap().deep_view()[k];
        assert(branch_rows_of(rec, m)[k] == branch_row_spec(v, m));
        lemma_concat_ends_with(
            crate::csv::csv_field(v.id) + ","@ + crate::csv::csv_field(
                crate::csv::opt_text(v.ref_len),
            ) + ","@ + crate::csv::opt_num_text(v.ref_depth) + ","@ + crate::csv::csv_field(
                crate::csv::opt_text(v.cmp_len),
            ) + ","@ + crate::csv::opt_num_text(v.cmp_depth),
            marker_suffix(m),
        );
    }
    assert forall|k: int| 0 <= k < dist_rows_of(rec, m).len() implies ends_with(
        #[trigger] dist_rows_of(rec, m)[k],
        marker_suffix(m),
    ) by {
        let v = rec.distances.unwrap().deep_view()[k];
        assert(dist_rows_of(rec, m)[k] == dist_row_spec(v, m));
        lemma_concat_ends_with(
            crate::csv::csv_field(v.id) + ","@ + crate::csv::csv_field(v.ref_dist) + ","@
                + crate::csv::csv_field(v.cmp_dist),
            marker_suffix(m),
        );
    }
}

/// Law: an outcome computed in distance mode contributes exactly
/// n·(n-1)/2 rows to the distance sink, with n the reference tree's
/// leaf count — one row per unordered leaf pair.
pub proof fn lemma_distance_row_count(rec: ComparisonRecord, m: Option<Seq<char>>, n: int)
    requires
        n >= 0,
        rec.distances matches Some(d) && d@.len() == pair_count(n),
    ensures
        dist_rows_of(rec, m).len() == n * (n - 1) / 2,
{
    lemma_pair_count_formula(n);
    let d = rec.distances.unwrap();
    assert(d.deep_view().len() == d@.len());
}

/// All rows of the topology sink for a run's outcomes, in outcome
/// order.
pub open spec fn topo_rows_all(recs: Seq<ComparisonRecord>, m: Option<Seq<char>>) -> Seq<
    Seq<char>,
> {
    recs.map_values(|r: ComparisonRecord| topo_rows_of(r, m)).flatten()
}

/// All rows of the branch sink for a run's outcomes, in outcome order.
pub open spec fn branch_rows_all(recs: Seq<ComparisonRecord>, m: Option<Seq<char>>) -> Seq<
    Seq<char>,
> {
    recs.map_values(|r: ComparisonRecord| branch_rows_of(r, m)).flatten()
}

/// All rows of the distance sink for a run's outcomes, in outcome
/// order.
pub open spec fn dist_rows_all(recs: Seq<ComparisonRecord>, m: Option<Seq<char>>) -> Seq<
    Seq<char>,
> {
    recs.map_values(|r: ComparisonRecord| dist_rows_of(r, m)).flatten()
}

proof fn lemma_flat_map_multiset<A, B>(a: Seq<A>, b: Seq<A>, f: spec_fn(A) -> Seq<B>)
    requires
        a.to_multiset() == b.to_multiset(),
    ensures
        a.map_values(f).flatten().to_multiset() == b.map_values(f).flatten().to_multiset(),
    decreases a.len(),
{
    broadcast use vstd::seq_lib::to_multiset_len;
    broadcast use vstd::seq_lib::to_multiset_contains;
    broadcast use vstd::seq_lib::to_multiset_remove;
    broadcast use vstd::seq_lib::lemma_multiset_commutative;
    broadcast use vstd::seq::Seq::lemma_flatten_push;
    broadcast use vstd::seq::Seq::lemma_flatten_singleton;
    broadcast use vstd::multiset::group_multiset_axioms;

    if a.len() == 0 {
        assert(a.to_multiset().len() == 0);
        assert(b.len() == b.to_multiset().len());
        assert(b.len() == 0);
        assert(a.map_values(f).flatten() =~~= b.map_values(f).flatten());
    } else {
        let e = a.last();
        assert(a.contains(e));
        assert(b.to_multiset().count(e) > 0);
        assert(b.contains(e));
        let i = choose|i: int| 0 <= i < b.len() && b[i] == e;
        let a1 = a.drop_last();
        let b1 = b.remove(i);
        assert(a.remove(a.len() - 1) =~= a1);
        assert(a1.to_multiset() == a.to_multiset().remove(e));
        assert(b1.to_multiset() == b.to_multiset().remove(e));
        lemma_flat_map_multiset(a1, b1, f);
        // the last element of `a` contributes its rows on top of a1's
        assert(a.map_values(f) =~= a1.map_values(f).push(f(e)));
        assert(a.map_values(f).flatten() =~= a1.map_values(f).flatten() + f(e));
        // element i of `b` contributes its rows in the middle of b1's
        let u = b.take(i);
        let w = b.skip(i + 1);
        assert(b =~= u + seq![e] + w);
        assert(b1 =~= u + w);
        assert(b.map_values(f) =~= u.map_values(f) + seq![f(e)] + w.map_values(f));
        assert(b1.map_values(f) =~= u.map_values(f) + w.map_values(f));
        lemma_flatten_concat(u.map_values(f) + seq![f(e)], w.map_values(f));
        lemma_flatten_concat(u.map_values(f), seq![f(e)]);
        lemma_flatten_concat(u.map_values(f), w.map_values(f));
        assert(seq![f(e)].flatten() == f(e));
        assert(b.map_values(f).flatten().to_multiset() =~= u.map_values(
            f,
        ).flatten().to_multiset().add(f(e).to_multiset()).add(w.map_values(f).flatten().to_multiset()));
        assert(b1.map_values(f).flatten().to_multiset() =~= u.map_values(
            f,
        ).flatten().to_multiset().add(w.map_values(f).flatten().to_multiset()));
        assert(a.map_values(f).flatten().to_multiset() =~= a1.map_values(
            f,
        ).flatten().to_multiset().add(f(e).to_multiset()));
        assert(a.map_values(f).flatten().to_multiset() =~= b.map_values(f).flatten().to_multiset());
    }
}

/// Law: two runs whose outcomes are the same up to order fill every
/// sink with the same rows up to order.  Completion order carries no
/// guarantee, so equality of each sink's row multiset is the
/// correctness property of routing.
pub proof fn lemma_rows_order_insensitive(
    a: Seq<ComparisonRecord>,
    b: Seq<ComparisonRecord>,
    m: Option<Seq<char>>,
)
    requires
        a.to_multiset() == b.to_multiset(),
    ensures
        topo_rows_all(a, m).to_multiset() == topo_rows_all(b, m).to_multiset(),
        branch_rows_all(a, m).to_multiset() == branch_rows_all(b, m).to_multiset(),
        dist_rows_all(a, m).to_multiset() == dist_rows_all(b, m).to_multiset(),
{
    lemma_flat_map_multiset(a, b, |r: ComparisonRecord| topo_rows_of(r, m));
    lemma_flat_map_multiset(a, b, |r: ComparisonRecord| branch_rows_of(r, m));
    lemma_flat_map_multiset(a, b, |r: ComparisonRecord| dist_rows_of(r, m));
}

} // verus!
