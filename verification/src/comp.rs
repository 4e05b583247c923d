//! The record model: the three record shapes and their assembly from a
//! raw comparison outcome.
//!
//! A comparison of one matched pair yields at most one topology
//! record, zero or more branch records (partitioned into the
//! reference-only, candidate-only and common buckets), and exactly one
//! distance record per unordered pair of taxa of the reference tree's
//! distance matrix.  Metric and length values are carried as the
//! decimal text the engine produced for them.

use vstd::prelude::*;

use phylotree::distance::DistanceMatrix;
use phylotree::tree::{EdgeLength, Tree};

use crate::engine;
use crate::engine::{BranchBuckets, TopoMetrics};
use crate::engine::{all_leaves_named, branches_comparable, matrix_computable, topo_comparable};
use crate::engine::{leaf_labels, mat_dist, mat_taxa, mat_wf};
use crate::errors::PipelineError;

verus! {

/// One row of topology comparison.
#[derive(Debug)]
pub struct TopologyRecord {
    /// Identifier of the compared pair.
    pub id: String,
    /// Robinson-Foulds distance.
    pub rf: String,
    /// Normalized Robinson-Foulds distance.
    pub norm_rf: String,
    /// Weighted Robinson-Foulds distance.
    pub weighted_rf: String,
    /// Khuner-Felsenstein branch score.
    pub kf_score: String,
    /// Leaf count of the reference tree.
    pub n_tips: usize,
}

/// The abstract value of a `TopologyRecord`.
#[verifier::ext_equal]
pub struct TopologyRecordView {
    pub id: Seq<char>,
    pub rf: Seq<char>,
    pub norm_rf: Seq<char>,
    pub weighted_rf: Seq<char>,
    pub kf_score: Seq<char>,
    pub n_tips: nat,
}

impl View for TopologyRecord {
    type V = TopologyRecordView;

    open spec fn view(&self) -> TopologyRecordView {
        TopologyRecordView {
            id: self.id@,
            rf: self.rf@,
            norm_rf: self.norm_rf@,
            weighted_rf: self.weighted_rf@,
            kf_score: self.kf_score@,
            n_tips: self.n_tips as nat,
        }
    }
}

impl DeepView for TopologyRecord {
    type V = TopologyRecordView;

    open spec fn deep_view(&self) -> TopologyRecordView {
        self.view()
    }
}

impl TopologyRecord {
    /// Assemble the topology record of one comparison from the
    /// engine's metrics.
    pub fn from_metrics(m: TopoMetrics, id: String, n_tips: usize) -> (r: TopologyRecord)
        ensures
            r@ == (TopologyRecordView {
                id: id@,
                rf: m.rf@,
                norm_rf: m.norm_rf@,
                weighted_rf: m.weighted_rf@,
                kf_score: m.branch_score@,
                n_tips: n_tips as nat,
            }),
    {
        TopologyRecord {
            id,
            rf: m.rf,
            norm_rf: m.norm_rf,
            weighted_rf: m.weighted_rf,
            kf_score: m.branch_score,
            n_tips,
        }
    }
}

/// One row describing a branch present in the reference tree only, in
/// the candidate tree only, or in both.
#[derive(Debug)]
pub struct BranchRecord {
    /// Identifier of the compared pair.
    pub id: String,
    /// Branch length in the reference tree, when present there.
    pub ref_len: Option<String>,
    /// Branch depth in the reference tree, when present there.
    pub ref_depth: Option<usize>,
    /// Branch length in the candidate tree, when present there.
    pub cmp_len: Option<String>,
    /// Branch depth in the candidate tree, when present there.
    pub cmp_depth: Option<usize>,
}

/// The abstract value of a `BranchRecord`.
#[verifier::ext_equal]
pub struct BranchRecordView {
    pub id: Seq<char>,
    pub ref_len: Option<Seq<char>>,
    pub ref_depth: Option<usize>,
    pub cmp_len: Option<Seq<char>>,
    pub cmp_depth: Option<usize>,
}

impl View for BranchRecord {
    type V = BranchRecordView;

    open spec fn view(&self) -> BranchRecordView {
        BranchRecordView {
            id: self.id@,
            ref_len: self.ref_len.deep_view(),
            ref_depth: self.ref_depth,
            cmp_len: self.cmp_len.deep_view(),
            cmp_depth: self.cmp_depth,
        }
    }
}

impl DeepView for BranchRecord {
    type V = BranchRecordView;

    open spec fn deep_view(&self) -> BranchRecordView {
        self.view()
    }
}

impl BranchRecordView {
    /// The bucket invariant: reference-only rows never have candidate
    /// fields, candidate-only rows never have reference fields, and
    /// common rows have all four fields.
    pub open spec fn wf(self) -> bool {
        ||| (self.ref_len is Some && self.ref_depth is Some && self.cmp_len is None
            && self.cmp_depth is None)
        ||| (self.ref_len is None && self.ref_depth is None && self.cmp_len is Some
            && self.cmp_depth is Some)
        ||| (self.ref_len is Some && self.ref_depth is Some && self.cmp_len is Some
            && self.cmp_depth is Some)
    }
}

/// The record of a branch found in the reference tree only.
pub open spec fn ref_only_rec(id: Seq<char>, e: (usize, Seq<char>)) -> BranchRecordView {
    BranchRecordView {
        id: id,
        ref_len: Some(e.1),
        ref_depth: Some(e.0),
        cmp_len: None,
        cmp_depth: None,
    }
}

/// The record of a branch found in the candidate tree only.
pub open spec fn cmp_only_rec(id: Seq<char>, e: (usize, Seq<char>)) -> BranchRecordView {
    BranchRecordView {
        id: id,
        ref_len: None,
        ref_depth: None,
        cmp_len: Some(e.1),
        cmp_depth: Some(e.0),
    }
}

/// The record of a branch found in both trees.
pub open spec fn common_rec(
    id: Seq<char>,
    e: ((usize, Seq<char>), (usize, Seq<char>)),
) -> BranchRecordView {
    BranchRecordView {
        id: id,
        ref_len: Some(e.0.1),
        ref_depth: Some(e.0.0),
        cmp_len: Some(e.1.1),
        cmp_depth: Some(e.1.0),
    }
}

/// The records of a reference-only bucket.
pub open spec fn ref_only_recs(id: Seq<char>, s: Seq<(usize, Seq<char>)>) -> Seq<
    BranchRecordView,
> {
    s.map_values(|e: (usize, Seq<char>)| ref_only_rec(id, e))
}

/// The records of a candidate-only bucket.
pub open spec fn cmp_only_recs(id: Seq<char>, s: Seq<(usize, Seq<char>)>) -> Seq<
    BranchRecordView,
> {
    s.map_values(|e: (usize, Seq<char>)| cmp_only_rec(id, e))
}

/// The records of a common bucket.
pub open spec fn common_recs(
    id: Seq<char>,
    s: Seq<((usize, Seq<char>), (usize, Seq<char>))>,
) -> Seq<BranchRecordView> {
    s.map_values(|e: ((usize, Seq<char>), (usize, Seq<char>))| common_rec(id, e))
}

/// All branch records of one comparison: the reference-only bucket,
/// then the candidate-only bucket, then the common bucket.
pub open spec fn branch_records_spec(
    id: Seq<char>,
    ref_only: Seq<(usize, Seq<char>)>,
    cmp_only: Seq<(usize, Seq<char>)>,
    common: Seq<((usize, Seq<char>), (usize, Seq<char>))>,
) -> Seq<BranchRecordView> {
    ref_only_recs(id, ref_only) + cmp_only_recs(id, cmp_only) + common_recs(id, common)
}

impl BranchRecord {
    /// Assemble the branch records of one comparison from the engine's
    /// three buckets.
    pub fn from_buckets(id: &String, b: BranchBuckets) -> (r: Vec<BranchRecord>)
        ensures
            r.deep_view() == branch_records_spec(
                id@,
                b.ref_only.deep_view(),
                b.cmp_only.deep_view(),
                b.common.deep_view(),
            ),
            forall|k: int| 0 <= k < r.deep_view().len() ==> (#[trigger] r.deep_view()[k]).wf(),
            forall|k: int| 0 <= k < r.deep_view().len() ==> (#[trigger] r.deep_view()[k]).id == id@,
    {
        let ghost refs = b.ref_only.deep_view();
        let ghost cmps = b.cmp_only.deep_view();
        let ghost boths = b.common.deep_view();
        let mut records: Vec<BranchRecord> = Vec::new();
        proof {
            assert(records.deep_view() =~~= ref_only_recs(id@, refs).take(0));
        }
        let mut i: usize = 0;
        while i < b.ref_only.len()
            invariant
                i <= b.ref_only.len(),
                refs == b.ref_only.deep_view(),
                records@.len() == i,
                records.deep_view() == ref_only_recs(id@, refs).take(i as int),
            decreases b.ref_only.len() - i,
        {
            let e = &b.ref_only[i];
            records.push(
                BranchRecord {
                    id: id.clone(),
                    ref_len: Some(e.1.clone()),
                    ref_depth: Some(e.0),
                    cmp_len: None,
                    cmp_depth: None,
                },
            );
            i += 1;
            proof {
                assert(records.deep_view() =~~= ref_only_recs(id@, refs).take(i as int));
            }
        }
        proof {
            assert(records.deep_view() =~~= ref_only_recs(id@, refs) + cmp_only_recs(
                id@,
                cmps,
            ).take(0));
        }
        let mut j: usize = 0;
        while j < b.cmp_only.len()
            invariant
                j <= b.cmp_only.len(),
                refs == b.ref_only.deep_view(),
                cmps == b.cmp_only.deep_view(),
                records@.len() == refs.len() + j,
                records.deep_view() == ref_only_recs(id@, refs) + cmp_only_recs(id@, cmps).take(
                    j as int,
                ),
            decreases b.cmp_only.len() - j,
        {
            let e = &b.cmp_only[j];
            let ghost prev = records.deep_view();
            records.push(
                BranchRecord {
                    id: id.clone(),
                    ref_len: None,
                    ref_depth: None,
                    cmp_len: Some(e.1.clone()),
                    cmp_depth: Some(e.0),
                },
            );
            j += 1;
            proof {
                let ghost rhs = ref_only_recs(id@, refs) + cmp_only_recs(id@, cmps).take(j as int);
                assert(records.deep_view().len() == prev.len() + 1);
                assert(prev.len() == refs.len() + (j - 1));
                assert(rhs.len() == refs.len() + j);
                assert forall|t: int| 0 <= t < prev.len() implies records.deep_view()[t] == prev[t]
                    by {}
                assert(records.deep_view()[prev.len() as int] =~~= cmp_only_rec(
                    id@,
                    cmps[j - 1],
                ));
                assert forall|t: int| 0 <= t < rhs.len() implies records.deep_view()[t] =~~= rhs[t]
                    by {
                    if t < refs.len() {
                        assert(rhs[t] == ref_only_recs(id@, refs)[t]);
                        assert(prev[t] == ref_only_recs(id@, refs)[t]);
                    } else if t < prev.len() {
                        assert(rhs[t] == cmp_only_recs(id@, cmps).take(j as int)[t - refs.len()]);
                        assert(prev[t] == cmp_only_recs(id@, cmps).take(j - 1)[t - refs.len()]);
                    } else {
                        assert(rhs[t] == cmp_only_recs(id@, cmps)[j - 1]);
                    }
                }
                assert(records.deep_view() =~~= rhs);
            }
        }
        proof {
            assert(records.deep_view() =~~= ref_only_recs(id@, refs) + cmp_only_recs(id@, cmps)
                + common_recs(id@, boths).take(0));
        }
        let mut k: usize = 0;
        while k < b.common.len()
            invariant
                k <= b.common.len(),
                refs == b.ref_only.deep_view(),
                cmps == b.cmp_only.deep_view(),
                boths == b.common.deep_view(),
                records@.len() == refs.len() + cmps.len() + k,
                records.deep_view() == ref_only_recs(id@, refs) + cmp_only_recs(id@, cmps)
                    + common_recs(id@, boths).take(k as int),
            decreases b.common.len() - k,
        {
            let e = &b.common[k];
            let ghost prev = records.deep_view();
            records.push(
                BranchRecord {
                    id: id.clone(),
                    ref_len: Some(e.0.1.clone()),
                    ref_depth: Some(e.0.0),
                    cmp_len: Some(e.1.1.clone()),
                    cmp_depth: Some(e.1.0),
                },
            );
            k += 1;
            proof {
                let ghost a = ref_only_recs(id@, refs) + cmp_only_recs(id@, cmps);
                let ghost rhs = a + common_recs(id@, boths).take(k as int);
                assert(records.deep_view().len() == prev.len() + 1);
                assert(prev.len() == a.len() + (k - 1));
                assert(rhs.len() == a.len() + k);
                assert forall|t: int| 0 <= t < prev.len() implies records.deep_view()[t] == prev[t]
                    by {}
                assert(records.deep_view()[prev.len() as int] =~~= common_rec(id@, boths[k - 1]));
                assert forall|t: int| 0 <= t < rhs.len() implies records.deep_view()[t] =~~= rhs[t]
                    by {
                    if t < a.len() {
                        assert(rhs[t] == a[t]);
                        assert(prev[t] == a[t]);
                    } else if t < prev.len() {
                        assert(rhs[t] == common_recs(id@, boths).take(k as int)[t - a.len()]);
                        assert(prev[t] == common_recs(id@, boths).take(k - 1)[t - a.len()]);
                    } else {
                        assert(rhs[t] == common_recs(id@, boths)[k - 1]);
                    }
                }
                assert(records.deep_view() =~~= rhs);
            }
        }
        proof {
            assert(records.deep_view() =~~= branch_records_spec(id@, refs, cmps, boths));
        }
        records
    }

    /// Compare the branch lengths of a matched pair of trees and
    /// assemble the branch records from the engine's buckets.
    /// Succeeds exactly when the trees are branch-comparable; every
    /// record of a successful outcome satisfies the bucket invariant
    /// and carries the pair's identifier.
    pub fn from_trees(
        reftree: &Tree,
        cmptree: &Tree,
        include_tips: bool,
        id: &String,
    ) -> (r: Result<Vec<BranchRecord>, PipelineError>)
        ensures
            r is Ok <==> branches_comparable(*reftree, *cmptree, include_tips),
            r matches Ok(v) ==> forall|k: int|
                0 <= k < v.deep_view().len() ==> (#[trigger] v.deep_view()[k]).wf(),
            r matches Ok(v) ==> forall|k: int|
                0 <= k < v.deep_view().len() ==> (#[trigger] v.deep_view()[k]).id == id@,
            r matches Err(e) ==> e is Comparison,
    {
        match engine::compare_branch_lengths(reftree, cmptree, include_tips) {
            Ok(buckets) => Ok(BranchRecord::from_buckets(id, buckets)),
            Err(m) => {
                let mut msg = String::from_str("branch comparison failed for ");
                msg.append(id.as_str());
                msg.append(": ");
                msg.append(m.as_str());
                Err(PipelineError::Comparison(msg))
            },
        }
    }
}

/// Whether the pairwise leaf distances of two trees can be compared:
/// every leaf of both trees is named and the engine can build both
/// distance matrices.
pub open spec fn dist_computable(a: Tree, b: Tree) -> bool {
    &&& all_leaves_named(a)
    &&& all_leaves_named(b)
    &&& matrix_computable(a)
    &&& matrix_computable(b)
}

/// One row of a pairwise leaf-distance comparison.
#[derive(Debug)]
pub struct DistanceRecord {
    /// Identifier of the compared pair.
    pub id: String,
    /// Distance of the leaf pair in the reference tree.
    pub ref_dist: String,
    /// Distance of the leaf pair in the candidate tree.
    pub cmp_dist: String,
}

/// The abstract value of a `DistanceRecord`.
#[verifier::ext_equal]
pub struct DistanceRecordView {
    pub id: Seq<char>,
    pub ref_dist: Seq<char>,
    pub cmp_dist: Seq<char>,
}

impl View for DistanceRecord {
    type V = DistanceRecordView;

    open spec fn view(&self) -> DistanceRecordView {
        DistanceRecordView { id: self.id@, ref_dist: self.ref_dist@, cmp_dist: self.cmp_dist@ }
    }
}

impl DeepView for DistanceRecord {
    type V = DistanceRecordView;

    open spec fn deep_view(&self) -> DistanceRecordView {
        self.view()
    }
}

/// The number of unordered pairs of `n` items: 0 + 1 + ... + (n-1).
pub open spec fn pair_count(n: int) -> int
    decreases n,
{
    if n <= 0 {
        0
    } else {
        pair_count(n - 1) + (n - 1)
    }
}

proof fn lemma_pair_count_double(n: int)
    requires
        n >= 0,
    ensures
        pair_count(n) * 2 == n * (n - 1),
    decreases n,
{
    if n > 0 {
        lemma_pair_count_double(n - 1);
        let p = pair_count(n);
        let q = pair_count(n - 1);
        assert(p == q + (n - 1));
        assert(p * 2 == n * (n - 1)) by (nonlinear_arith)
            requires
                p == q + (n - 1),
                q * 2 == (n - 1) * (n - 2),
        ;
    } else {
        assert(n * (n - 1) == 0) by (nonlinear_arith)
            requires
                n == 0,
        ;
    }
}

/// The pair count is the closed-form n(n-1)/2.
pub proof fn lemma_pair_count_formula(n: int)
    requires
        n >= 0,
    ensures
        pair_count(n) == n * (n - 1) / 2,
{
    lemma_pair_count_double(n);
    let p = pair_count(n);
    assert(p == n * (n - 1) / 2) by (nonlinear_arith)
        requires
            p * 2 == n * (n - 1),
            n >= 0,
    ;
}

/// The distance of taxa `a` and `b` in matrix `m`, as text: a pair
/// that the matrix cannot resolve is the not-a-number sentinel rather
/// than an omission.
pub open spec fn dist_text(
    m: DistanceMatrix<EdgeLength>,
    a: Seq<char>,
    b: Seq<char>,
) -> Seq<char> {
    match mat_dist(m, a, b) {
        Some(d) => d,
        None => "NaN"@,
    }
}

/// The distance record of one taxa pair.
pub open spec fn dist_rec(
    rm: DistanceMatrix<EdgeLength>,
    cm: DistanceMatrix<EdgeLength>,
    id: Seq<char>,
    a: Seq<char>,
    b: Seq<char>,
) -> DistanceRecordView {
    DistanceRecordView { id: id, ref_dist: dist_text(rm, a, b), cmp_dist: dist_text(cm, a, b) }
}

/// The distance records whose first taxon is `taxa[i]`: one per later
/// taxon, in order.
pub open spec fn dist_records_row(
    rm: DistanceMatrix<EdgeLength>,
    cm: DistanceMatrix<EdgeLength>,
    id: Seq<char>,
    taxa: Seq<Seq<char>>,
    i: int,
) -> Seq<DistanceRecordView> {
    Seq::new((taxa.len() - i - 1) as nat, |k: int| dist_rec(rm, cm, id, taxa[i], taxa[i + 1 + k]))
}

/// The distance records of every taxa pair whose first index is below
/// `i`, row by row.
pub open spec fn dist_records_upto(
    rm: DistanceMatrix<EdgeLength>,
    cm: DistanceMatrix<EdgeLength>,
    id: Seq<char>,
    taxa: Seq<Seq<char>>,
    i: int,
) -> Seq<DistanceRecordView>
    decreases i,
{
    if i <= 0 {
        Seq::empty()
    } else {
        dist_records_upto(rm, cm, id, taxa, i - 1) + dist_records_row(rm, cm, id, taxa, i - 1)
    }
}

proof fn lemma_dist_upto_len(
    rm: DistanceMatrix<EdgeLength>,
    cm: DistanceMatrix<EdgeLength>,
    id: Seq<char>,
    taxa: Seq<Seq<char>>,
    i: int,
)
    requires
        0 <= i <= taxa.len(),
    ensures
        dist_records_upto(rm, cm, id, taxa, i).len() + pair_count(taxa.len() - i) == pair_count(
            taxa.len() as int,
        ),
    decreases i,
{
    if i > 0 {
        lemma_dist_upto_len(rm, cm, id, taxa, i - 1);
    }
}

proof fn lemma_dist_upto_id(
    rm: DistanceMatrix<EdgeLength>,
    cm: DistanceMatrix<EdgeLength>,
    id: Seq<char>,
    taxa: Seq<Seq<char>>,
    i: int,
)
    ensures
        forall|k: int|
            0 <= k < dist_records_upto(rm, cm, id, taxa, i).len() ==> (
            #[trigger] dist_records_upto(rm, cm, id, taxa, i)[k]).id == id,
    decreases i,
{
    if i > 0 {
        lemma_dist_upto_id(rm, cm, id, taxa, i - 1);
        let u = dist_records_upto(rm, cm, id, taxa, i);
        let p = dist_records_upto(rm, cm, id, taxa, i - 1);
        let row = dist_records_row(rm, cm, id, taxa, i - 1);
        assert forall|k: int| 0 <= k < u.len() implies (#[trigger] u[k]).id == id by {
            if k < p.len() {
                assert(u[k] == p[k]);
            } else {
                assert(u[k] == row[k - p.len()]);
            }
        }
    }
}

impl DistanceRecord {
    /// Assemble the distance records of one comparison from the two
    /// distance matrices: one record per unordered pair of taxa of the
    /// reference matrix, pairing the two matrices' distances for that
    /// pair, in the reference matrix's taxa order.
    pub fn from_matrices(
        rm: &DistanceMatrix<EdgeLength>,
        cm: &DistanceMatrix<EdgeLength>,
        id: &String,
    ) -> (r: Vec<DistanceRecord>)
        requires
            mat_wf(*rm),
            mat_wf(*cm),
        ensures
            r.deep_view() == dist_records_upto(*rm, *cm, id@, mat_taxa(*rm), mat_taxa(*rm).len() as int),
            r@.len() == pair_count(mat_taxa(*rm).len() as int),
            forall|k: int| 0 <= k < r.deep_view().len() ==> (#[trigger] r.deep_view()[k]).id == id@,
    {
        let taxa = engine::matrix_taxa(rm);
        let ghost taxa_v = mat_taxa(*rm);
        let n = taxa.len();
        let mut records: Vec<DistanceRecord> = Vec::new();
        proof {
            assert(records.deep_view() =~~= dist_records_upto(*rm, *cm, id@, taxa_v, 0));
        }
        let mut i: usize = 0;
        while i < n
            invariant
                mat_wf(*rm),
                mat_wf(*cm),
                i <= n,
                n == taxa@.len(),
                taxa.deep_view() == taxa_v,
                records@.len() == dist_records_upto(*rm, *cm, id@, taxa_v, i as int).len(),
                records.deep_view() == dist_records_upto(*rm, *cm, id@, taxa_v, i as int),
            decreases n - i,
        {
            proof {
                assert(records.deep_view() =~~= dist_records_upto(*rm, *cm, id@, taxa_v, i as int)
                    + dist_records_row(*rm, *cm, id@, taxa_v, i as int).take(0));
            }
            let mut j: usize = i + 1;
            while j < n
                invariant
                    mat_wf(*rm),
                    mat_wf(*cm),
                    i < j <= n,
                    i < n,
                    n == taxa@.len(),
                    taxa.deep_view() == taxa_v,
                    records@.len() == dist_records_upto(*rm, *cm, id@, taxa_v, i as int).len() + (
                    j - i - 1),
                    records.deep_view() == dist_records_upto(*rm, *cm, id@, taxa_v, i as int)
                        + dist_records_row(*rm, *cm, id@, taxa_v, i as int).take(j - i - 1),
                decreases n - j,
            {
                let a = &taxa[i];
                let b = &taxa[j];
                let rd = match engine::matrix_get(rm, a.as_str(), b.as_str()) {
                    Some(d) => d,
                    None => String::from_str("NaN"),
                };
                let cd = match engine::matrix_get(cm, a.as_str(), b.as_str()) {
                    Some(d) => d,
                    None => String::from_str("NaN"),
                };
                let ghost prev = records.deep_view();
                records.push(DistanceRecord { id: id.clone(), ref_dist: rd, cmp_dist: cd });
                j += 1;
                proof {
                    let ghost a = dist_records_upto(*rm, *cm, id@, taxa_v, i as int);
                    let ghost row = dist_records_row(*rm, *cm, id@, taxa_v, i as int);
                    let ghost rhs = a + row.take(j - i - 1);
                    assert(taxa.deep_view()[i as int] == taxa@[i as int]@);
                    assert(taxa.deep_view()[j - 1] == taxa@[j - 1]@);
                    assert(records.deep_view().len() == prev.len() + 1);
                    assert(prev.len() == a.len() + (j - i - 2));
                    assert(rhs.len() == a.len() + (j - i - 1));
                    assert forall|t: int| 0 <= t < prev.len() implies records.deep_view()[t]
                        == prev[t] by {}
                    assert(row[j - i - 2] == dist_rec(
                        *rm,
                        *cm,
                        id@,
                        taxa_v[i as int],
                        taxa_v[j - 1],
                    ));
                    assert(records.deep_view()[prev.len() as int] =~~= dist_rec(
                        *rm,
                        *cm,
                        id@,
                        taxa_v[i as int],
                        taxa_v[j - 1],
                    ));
                    assert forall|t: int| 0 <= t < rhs.len() implies records.deep_view()[t]
                        =~~= rhs[t] by {
                        if t < a.len() {
                            assert(rhs[t] == a[t]);
                            assert(prev[t] == a[t]);
                        } else if t < prev.len() {
                            assert(rhs[t] == row.take(j - i - 1)[t - a.len()]);
                            assert(prev[t] == row.take(j - i - 2)[t - a.len()]);
                        } else {
                            assert(rhs[t] == row[j - i - 2]);
                        }
                    }
                    assert(records.deep_view() =~~= rhs);
                }
            }
            i += 1;
            proof {
                let row = dist_records_row(*rm, *cm, id@, taxa_v, i - 1);
                assert(row.take(row.len() as int) =~~= row);
                assert(records.deep_view() =~~= dist_records_upto(*rm, *cm, id@, taxa_v, i as int));
            }
        }
        proof {
            lemma_dist_upto_len(*rm, *cm, id@, taxa_v, n as int);
            lemma_dist_upto_id(*rm, *cm, id@, taxa_v, n as int);
            assert(records@.len() == records.deep_view().len());
        }
        records
    }

    /// Compare the pairwise leaf distances of a matched pair of trees.
    /// Succeeds exactly when both trees are distance-computable: every
    /// leaf named (else the engine cannot build a distance matrix) and
    /// the engine accepts both trees.  A successful outcome has
    /// exactly one record per unordered pair of reference-tree leaves.
    pub fn from_trees(reftree: &Tree, cmptree: &Tree, id: &String) -> (r: Result<
        Vec<DistanceRecord>,
        PipelineError,
    >)
        ensures
            r is Ok <==> dist_computable(*reftree, *cmptree),
            r matches Ok(v) ==> v@.len() == pair_count(leaf_labels(*reftree).len() as int),
            r matches Ok(v) ==> forall|k: int|
                0 <= k < v.deep_view().len() ==> (#[trigger] v.deep_view()[k]).id == id@,
            r matches Err(e) ==> e is Comparison,
    {
        let ref_labels = engine::leaf_names(reftree);
        if !all_named(&ref_labels) {
            let mut msg = String::from_str("distance comparison failed for ");
            msg.append(id.as_str());
            msg.append(": the reference tree has unnamed leaves");
            return Err(PipelineError::Comparison(msg));
        }
        let cmp_labels = engine::leaf_names(cmptree);
        if !all_named(&cmp_labels) {
            let mut msg = String::from_str("distance comparison failed for ");
            msg.append(id.as_str());
            msg.append(": the candidate tree has unnamed leaves");
            return Err(PipelineError::Comparison(msg));
        }
        let rm = match engine::distance_matrix(reftree) {
            Ok(m) => m,
            Err(m) => {
                let mut msg = String::from_str("distance comparison failed for ");
                msg.append(id.as_str());
                msg.append(": ");
                msg.append(m.as_str());
                return Err(PipelineError::Comparison(msg));
            },
        };
        let cm = match engine::distance_matrix(cmptree) {
            Ok(m) => m,
            Err(m) => {
                let mut msg = String::from_str("distance comparison failed for ");
                msg.append(id.as_str());
                msg.append(": ");
                msg.append(m.as_str());
                return Err(PipelineError::Comparison(msg));
            },
        };
        Ok(DistanceRecord::from_matrices(&rm, &cm, id))
    }
}

/// Whether every leaf label is present.
fn all_named(labels: &Vec<Option<String>>) -> (r: bool)
    ensures
        r == (forall|i: int|
            0 <= i < labels.deep_view().len() ==> (#[trigger] labels.deep_view()[i]) is Some),
{
    let mut i: usize = 0;
    while i < labels.len()
        invariant
            i <= labels@.len(),
            forall|k: int| 0 <= k < i ==> (#[trigger] labels.deep_view()[k]) is Some,
        decreases labels@.len() - i,
    {
        if labels[i].is_none() {
            proof {
                assert(!(labels.deep_view()[i as int] is Some));
            }
            return false;
        }
        i += 1;
    }
    true
}

/// The raw result of one comparison: each mode's records are present
/// exactly when that mode was requested.
#[derive(Debug)]
pub struct ComparisonRecord {
    /// The topology row, when topology mode is active.
    pub topology: Option<TopologyRecord>,
    /// The branch rows, when branch mode is active.
    pub branches: Option<Vec<BranchRecord>>,
    /// The distance rows, when distance mode is active.
    pub distances: Option<Vec<DistanceRecord>>,
}

/// Compare a matched pair of trees in the requested modes.  Each
/// requested mode is computed independently; an unrequested mode is
/// omitted entirely.  The comparison succeeds exactly when every
/// requested mode is computable for the pair; the first failing mode
/// fails the task with a comparison fault.  On success: the topology
/// record carries the pair's identifier and the reference tree's leaf
/// count; every branch record satisfies the bucket invariant; and the
/// distance records number exactly one per unordered pair of
/// reference-tree leaves.
pub fn compare_trees(
    id: String,
    reftree: &Tree,
    cmptree: &Tree,
    compare_topo: bool,
    compare_lens: bool,
    compare_dist: bool,
    include_tips: bool,
) -> (r: Result<ComparisonRecord, PipelineError>)
    ensures
        r is Ok <==> {
            &&& compare_topo ==> topo_comparable(*reftree, *cmptree)
            &&& compare_lens ==> branches_comparable(*reftree, *cmptree, include_tips)
            &&& compare_dist ==> dist_computable(*reftree, *cmptree)
        },
        r matches Ok(rec) ==> {
            &&& rec.topology is Some <==> compare_topo
            &&& rec.branches is Some <==> compare_lens
            &&& rec.distances is Some <==> compare_dist
            &&& rec.topology matches Some(t) ==> t@.id == id@ && t@.n_tips == leaf_labels(
                *reftree,
            ).len()
            &&& rec.branches matches Some(b) ==> forall|k: int|
                0 <= k < b.deep_view().len() ==> (#[trigger] b.deep_view()[k]).wf()
                    && b.deep_view()[k].id == id@
            &&& rec.distances matches Some(d) ==> d@.len() == pair_count(
                leaf_labels(*reftree).len() as int,
            ) && forall|k: int|
                0 <= k < d.deep_view().len() ==> (#[trigger] d.deep_view()[k]).id == id@
        },
        r matches Err(e) ==> e is Comparison,
{
    let mut record = ComparisonRecord { topology: None, branches: None, distances: None };
    if compare_topo {
        match engine::compare_topologies(reftree, cmptree) {
            Ok(metrics) => {
                let n_tips = engine::leaf_names(reftree).len();
                record.topology = Some(TopologyRecord::from_metrics(metrics, id.clone(), n_tips));
            },
            Err(m) => {
                let mut msg = String::from_str("topology comparison failed for ");
                msg.append(id.as_str());
                msg.append(": ");
                msg.append(m.as_str());
                return Err(PipelineError::Comparison(msg));
            },
        }
    }
    if compare_lens {
        match BranchRecord::from_trees(reftree, cmptree, include_tips, &id) {
            Ok(records) => {
                record.branches = Some(records);
            },
            Err(e) => {
                return Err(e);
            },
        }
    }
    if compare_dist {
        match DistanceRecord::from_trees(reftree, cmptree, &id) {
            Ok(records) => {
                record.distances = Some(records);
            },
            Err(e) => {
                return Err(e);
            },
        }
    }
    Ok(record)
}

} // verus!
