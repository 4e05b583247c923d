//! The comparison pipeline's decision core.
//!
//! The concurrent run wires three stages — a producer that matches
//! candidate files against the reference index, a worker pool that
//! compares matched pairs, and a consumer that routes outcomes to the
//! sinks — through bounded channels.  Every decision those stages make
//! is a function in this module: matching one candidate, comparing one
//! task, rendering one outcome, accounting one failure.  The
//! sequential driver at the end composes them in order and is what the
//! scenario tests exercise; a concurrent harness makes the same calls
//! from its threads.
//!
//! Failure policy: parse faults and comparison faults abort the run in
//! strict mode and are accumulated otherwise; a reference miss is
//! never fatal.

use vstd::prelude::*;

use phylotree::tree::Tree;

use crate::comp::{compare_trees, ComparisonRecord};
use crate::csv::{marker_suffix, Marker};
use crate::engine;
use crate::errors::PipelineError;
use crate::index::{read_tree, tree_readable, ReferenceIndex};
use crate::paths::file_id_spec;
use crate::route::{branch_rows_of, dist_rows_of, ends_with, topo_rows_of};
use crate::route::{lemma_marker_trailing, render_record};

verus! {

/// The run configuration of the pipeline core.
#[derive(Debug)]
pub struct RunConfig {
    /// Compare topologies.
    pub compare_topo: bool,
    /// Compare branch lengths.
    pub compare_lens: bool,
    /// Compare pairwise leaf distances.
    pub compare_dist: bool,
    /// Include leaf branches in the branch comparison.
    pub include_tips: bool,
    /// Abort on the first parse or comparison fault instead of
    /// accumulating them.
    pub strict: bool,
}

/// Resolve the mode toggles of the command line into the three
/// comparison modes: `all` activates every mode, and the branch mode
/// has two spellings.
pub fn resolve_modes(topology: bool, branches: bool, lengths: bool, distances: bool, all: bool) -> (r: (
    bool,
    bool,
    bool,
))
    ensures
        r.0 == (topology || all),
        r.1 == (branches || lengths || all),
        r.2 == (distances || all),
{
    (topology || all, branches || lengths || all, distances || all)
}

/// Check the run configuration: at least one candidate directory and
/// at least one comparison mode must be given.
pub fn validate_config(
    n_candidate_dirs: usize,
    compare_topo: bool,
    compare_lens: bool,
    compare_dist: bool,
) -> (r: Result<(), PipelineError>)
    ensures
        r is Ok <==> (n_candidate_dirs > 0 && (compare_topo || compare_lens || compare_dist)),
        r matches Err(e) ==> e is Config,
{
    if n_candidate_dirs == 0 {
        Err(
            PipelineError::Config(
                String::from_str(
                    "at least one directory of candidate trees must be compared to the reference",
                ),
            ),
        )
    } else if !compare_topo && !compare_lens && !compare_dist {
        Err(
            PipelineError::Config(
                String::from_str(
                    "at least one comparison mode must be selected: topology, branches, distances or all",
                ),
            ),
        )
    } else {
        Ok(())
    }
}

/// One unit of work: a matched pair of trees under one identifier,
/// consumed exactly once by exactly one worker.
#[derive(Debug)]
pub struct ComparisonTask {
    /// The shared identifier.
    pub id: String,
    /// The reference tree, copied out of the index.
    pub reference: Tree,
    /// The candidate tree, owned by the task.
    pub candidate: Tree,
}

/// What the producer does with one candidate file.
#[derive(Debug)]
pub enum ProducerStep {
    /// The candidate parsed and its identifier is in the reference
    /// index: a task.
    Matched(ComparisonTask),
    /// The candidate parsed but its identifier has no reference tree:
    /// a recorded miss.
    Miss(String),
    /// The candidate did not parse and the run is lenient: a recorded
    /// fault, the candidate is dropped.
    Skipped(PipelineError),
    /// The candidate did not parse and the run is strict: the whole
    /// run aborts.
    Aborted(PipelineError),
}

/// Decide what to do with one candidate file: parse it, look its
/// identifier up, and either emit a task, record a miss, or fail by
/// the strict/lenient policy.  A readable candidate (an acceptable
/// newick text under a path with a usable file name) becomes a task
/// exactly when its identifier has a reference tree and a miss
/// otherwise; an unreadable one is skipped or aborts, by the policy.
pub fn process_candidate(index: &ReferenceIndex, path: &str, content: &str, strict: bool) -> (r:
    ProducerStep)
    requires
        index.wf(),
    ensures
        r is Matched <==> tree_readable(path@, content@) && index@.contains_key(
            file_id_spec(path@).unwrap(),
        ),
        r is Miss <==> tree_readable(path@, content@) && !index@.contains_key(
            file_id_spec(path@).unwrap(),
        ),
        r matches ProducerStep::Matched(t) ==> Some(t.id@) == file_id_spec(path@) && t.reference
            == index@[t.id@],
        r matches ProducerStep::Miss(id) ==> Some(id@) == file_id_spec(path@),
        r matches ProducerStep::Skipped(e) ==> e is Parse && !strict,
        r matches ProducerStep::Aborted(e) ==> e is Parse && strict,
        !tree_readable(path@, content@) && strict ==> r is Aborted,
        !tree_readable(path@, content@) && !strict ==> r is Skipped,
{
    match read_tree(path, content) {
        Ok((id, tree)) => {
            match index.lookup(id.as_str()) {
                Some(rt) => ProducerStep::Matched(
                    ComparisonTask {
                        id,
                        reference: engine::clone_tree(rt),
                        candidate: tree,
                    },
                ),
                None => ProducerStep::Miss(id),
            }
        },
        Err(e) => {
            if strict {
                ProducerStep::Aborted(e)
            } else {
                ProducerStep::Skipped(e)
            }
        },
    }
}

/// The identifiers of a parsed candidate listing.
pub open spec fn ids_of(ps: Seq<(String, Tree)>) -> Seq<Seq<char>> {
    ps.map_values(|p: (String, Tree)| p.0@)
}

/// The identifiers of a task listing.
pub open spec fn task_ids(ts: Seq<ComparisonTask>) -> Seq<Seq<char>> {
    ts.map_values(|t: ComparisonTask| t.id@)
}

/// Match a listing of parsed candidates against the reference index:
/// the candidates whose identifier has a reference tree become tasks,
/// in order; the others become the miss listing, in order.
pub fn match_candidates(index: &ReferenceIndex, parsed: Vec<(String, Tree)>) -> (r: (
    Vec<ComparisonTask>,
    Vec<String>,
))
    requires
        index.wf(),
    ensures
        task_ids(r.0@) == ids_of(parsed@).filter(|i: Seq<char>| index@.contains_key(i)),
        r.1.deep_view() == ids_of(parsed@).filter(|i: Seq<char>| !index@.contains_key(i)),
        forall|k: int|
            0 <= k < r.0@.len() ==> index@.contains_key(#[trigger] r.0@[k].id@)
                && r.0@[k].reference == index@[r.0@[k].id@],
{
    broadcast use vstd::seq::Seq::lemma_filter_push;

    let ghost orig = parsed@;
    let ghost keep = |i: Seq<char>| index@.contains_key(i);
    let ghost drop = |i: Seq<char>| !index@.contains_key(i);
    let mut rest = parsed;
    let mut tasks: Vec<ComparisonTask> = Vec::new();
    let mut misses: Vec<String> = Vec::new();
    let ghost mut i: int = 0;
    proof {
        reveal(Seq::filter);
        assert(rest@ =~= orig.skip(0));
        assert(ids_of(orig.take(0)) =~= Seq::<Seq<char>>::empty());
        assert(task_ids(tasks@) =~~= ids_of(orig.take(0)).filter(keep));
        assert(misses.deep_view() =~~= ids_of(orig.take(0)).filter(drop));
    }
    while rest.len() > 0
        invariant
            index.wf(),
            0 <= i,
            i + rest@.len() == orig.len(),
            rest@ == orig.skip(i),
            keep == (|i: Seq<char>| index@.contains_key(i)),
            drop == (|i: Seq<char>| !index@.contains_key(i)),
            task_ids(tasks@) == ids_of(orig.take(i)).filter(keep),
            misses.deep_view() == ids_of(orig.take(i)).filter(drop),
            forall|k: int|
                0 <= k < tasks@.len() ==> index@.contains_key(#[trigger] tasks@[k].id@)
                    && tasks@[k].reference == index@[tasks@[k].id@],
        decreases rest@.len(),
    {
        let p = rest.remove(0);
        let ghost prev_tasks = task_ids(tasks@);
        let ghost prev_misses = misses.deep_view();
        match index.lookup(p.0.as_str()) {
            Some(rt) => {
                tasks.push(
                    ComparisonTask {
                        id: p.0,
                        reference: engine::clone_tree(rt),
                        candidate: p.1,
                    },
                );
            },
            None => {
                misses.push(p.0);
            },
        }
        proof {
            i = i + 1;
            assert(rest@ =~= orig.skip(i));
            assert(p == orig[i - 1]);
            let x = orig[i - 1].0@;
            let base = ids_of(orig.take(i - 1));
            assert(ids_of(orig.take(i)) =~~= base.push(x));
            base.lemma_filter_push(x, keep);
            base.lemma_filter_push(x, drop);
            assert(base.push(x).filter(keep) == if keep(x) {
                base.filter(keep).push(x)
            } else {
                base.filter(keep)
            });
            assert(base.push(x).filter(drop) == if drop(x) {
                base.filter(drop).push(x)
            } else {
                base.filter(drop)
            });
            if keep(x) {
                assert(task_ids(tasks@) =~~= prev_tasks.push(x));
                assert(misses.deep_view() =~~= prev_misses);
            } else {
                assert(task_ids(tasks@) =~~= prev_tasks);
                assert(misses.deep_view() =~~= prev_misses.push(x));
            }
        }
    }
    proof {
        assert(orig.take(orig.len() as int) =~= orig);
    }
    (tasks, misses)
}

/// Law: matching accounts for every candidate exactly once — however
/// the identifiers split between matches and misses, the two listings
/// together number the candidates.
pub proof fn lemma_match_accounting(ids: Seq<Seq<char>>, keys: Set<Seq<char>>)
    ensures
        ids.filter(|i: Seq<char>| keys.contains(i)).len() + ids.filter(
            |i: Seq<char>| !keys.contains(i),
        ).len() == ids.len(),
    decreases ids.len(),
{
    broadcast use vstd::seq::Seq::lemma_filter_push;

    reveal(Seq::filter);
    if ids.len() > 0 {
        lemma_match_accounting(ids.drop_last(), keys);
        assert(ids =~= ids.drop_last().push(ids.last()));
    }
}

/// The failure aggregator: parse and comparison faults, and candidate
/// identifiers with no matching reference, accumulated during a
/// lenient run for end-of-run reporting.
#[derive(Debug)]
pub struct FailureLog {
    /// The fault messages, in order of occurrence.
    pub errors: Vec<String>,
    /// The missed identifiers, in order of occurrence.
    pub misses: Vec<String>,
}

impl FailureLog {
    /// An empty log.
    pub fn new() -> (r: FailureLog)
        ensures
            r.errors@.len() == 0,
            r.misses@.len() == 0,
    {
        FailureLog { errors: Vec::new(), misses: Vec::new() }
    }

    /// Record one fault message.
    pub fn record_error(&mut self, message: String)
        ensures
            final(self).errors@ == old(self).errors@.push(message),
            final(self).misses == old(self).misses,
    {
        self.errors.push(message);
    }

    /// Record one missed identifier.
    pub fn record_miss(&mut self, id: String)
        ensures
            final(self).misses@ == old(self).misses@.push(id),
            final(self).errors == old(self).errors,
    {
        self.misses.push(id);
    }
}

/// A listing cut for display: the first ten entries, and an ellipsis
/// marker when more exist.
pub open spec fn elided_spec(xs: Seq<Seq<char>>) -> Seq<Seq<char>> {
    if xs.len() <= 10 {
        xs
    } else {
        xs.take(10).push("..."@)
    }
}

/// Cut a listing for display: the first ten entries, and an ellipsis
/// marker when more exist.
pub fn elide_list(xs: &Vec<String>) -> (r: Vec<String>)
    ensures
        r.deep_view() == elided_spec(xs.deep_view()),
{
    let mut out: Vec<String> = Vec::new();
    let cap = if xs.len() <= 10 {
        xs.len()
    } else {
        10
    };
    proof {
        assert(out.deep_view() =~~= xs.deep_view().take(0));
    }
    let mut i: usize = 0;
    while i < cap
        invariant
            i <= cap,
            cap <= xs@.len(),
            out@.len() == i,
            out.deep_view() == xs.deep_view().take(i as int),
        decreases cap - i,
    {
        out.push(xs[i].clone());
        i += 1;
        proof {
            assert(out.deep_view() =~~= xs.deep_view().take(i as int));
        }
    }
    if xs.len() > 10 {
        out.push(String::from_str("..."));
        proof {
            assert(out.deep_view() =~~= xs.deep_view().take(10).push("..."@));
        }
    } else {
        proof {
            assert(xs.deep_view().take(xs.deep_view().len() as int) =~~= xs.deep_view());
        }
    }
    out
}

/// Whether an outcome's present modes are exactly the requested ones.
spec fn modes_match(rec: ComparisonRecord, topo: bool, lens: bool, dist: bool) -> bool {
    &&& rec.topology is Some <==> topo
    &&& rec.branches is Some <==> lens
    &&& rec.distances is Some <==> dist
}

/// What a completed run produced: every sink's rows, the processed
/// task count, and the failure listings.
#[derive(Debug)]
pub struct RunOutput {
    /// Rows of the topology sink, in completion order.
    pub topo_rows: Vec<String>,
    /// Rows of the branch sink, in completion order.
    pub branch_rows: Vec<String>,
    /// Rows of the distance sink, in completion order.
    pub dist_rows: Vec<String>,
    /// Candidate identifiers with no matching reference.
    pub misses: Vec<String>,
    /// Parse fault messages of a lenient run, one per unreadable
    /// candidate.
    pub parse_errors: Vec<String>,
    /// Comparison fault messages of a lenient run, one per matched
    /// pair the engine rejected.
    pub comparison_errors: Vec<String>,
    /// The number of matched pairs the engine compared successfully.
    pub compared: usize,
}

/// The identifiers of the readable candidates, in order: those whose
/// content the engine's parser accepts and whose path yields an
/// identifier.
pub open spec fn readable_ids(cands: Seq<(String, String)>) -> Seq<Seq<char>> {
    cands.filter(|c: (String, String)| tree_readable(c.0@, c.1@)).map_values(
        |c: (String, String)| file_id_spec(c.0@).unwrap(),
    )
}

/// Run the pipeline over in-memory candidates, stage by stage: parse
/// every candidate, match the parsed ones against the index, compare
/// every matched pair, and route every outcome's records to the sink
/// rows, the marker stamped on each.  In strict mode the first parse
/// or comparison fault aborts the run before any row is produced for
/// it; a lenient run never aborts and accumulates one parse fault per
/// unreadable candidate and one comparison fault per rejected pair.
/// The miss listing holds exactly the readable identifiers the index
/// does not hold; compared pairs and comparison faults together
/// number the matched tasks; the topology sink holds one row per
/// compared pair when topology mode is active; a mode that was not
/// requested produces no rows; and every row carries the marker
/// values as its trailing columns.
pub fn run_pipeline(
    index: &ReferenceIndex,
    candidates: Vec<(String, String)>,
    cfg: &RunConfig,
    marker: &Marker,
) -> (r: Result<RunOutput, PipelineError>)
    requires
        index.wf(),
    ensures
        !cfg.strict ==> r is Ok,
        r matches Err(e) ==> cfg.strict && (e is Parse || e is Comparison),
        r matches Ok(out) ==> {
            &&& out.misses.deep_view() == readable_ids(candidates@).filter(
                |i: Seq<char>| !index@.contains_key(i),
            )
            &&& out.parse_errors@.len() == candidates@.filter(
                |c: (String, String)| !tree_readable(c.0@, c.1@),
            ).len()
            &&& out.compared + out.comparison_errors@.len() == readable_ids(
                candidates@,
            ).filter(|i: Seq<char>| index@.contains_key(i)).len()
            &&& cfg.strict ==> out.parse_errors@.len() == 0 && out.comparison_errors@.len() == 0
            &&& out.topo_rows@.len() == if cfg.compare_topo {
                out.compared as int
            } else {
                0
            }
            &&& !cfg.compare_lens ==> out.branch_rows@.len() == 0
            &&& !cfg.compare_dist ==> out.dist_rows@.len() == 0
            &&& forall|k: int|
                0 <= k < out.topo_rows.deep_view().len() ==> ends_with(
                    #[trigger] out.topo_rows.deep_view()[k],
                    marker_suffix(marker.values_view()),
                )
            &&& forall|k: int|
                0 <= k < out.branch_rows.deep_view().len() ==> ends_with(
                    #[trigger] out.branch_rows.deep_view()[k],
                    marker_suffix(marker.values_view()),
                )
            &&& forall|k: int|
                0 <= k < out.dist_rows.deep_view().len() ==> ends_with(
                    #[trigger] out.dist_rows.deep_view()[k],
                    marker_suffix(marker.values_view()),
                )
        },
{
    broadcast use vstd::seq::Seq::lemma_filter_push;

    let strict = cfg.strict;
    let ghost orig = candidates@;
    let ghost readable = |c: (String, String)| tree_readable(c.0@, c.1@);
    let ghost unreadable = |c: (String, String)| !tree_readable(c.0@, c.1@);
    let mut parse_errors: Vec<String> = Vec::new();
    let mut parsed: Vec<(String, Tree)> = Vec::new();
    let mut crest = candidates;
    let ghost mut i: int = 0;
    proof {
        reveal(Seq::filter);
        assert(crest@ =~= orig.skip(0));
        assert(ids_of(parsed@) =~~= readable_ids(orig.take(0)));
        assert(orig.take(0).filter(unreadable) =~~= Seq::<(String, String)>::empty());
    }
    while crest.len() > 0
        invariant
            strict == cfg.strict,
            0 <= i,
            i + crest@.len() == orig.len(),
            crest@ == orig.skip(i),
            readable == (|c: (String, String)| tree_readable(c.0@, c.1@)),
            unreadable == (|c: (String, String)| !tree_readable(c.0@, c.1@)),
            ids_of(parsed@) == readable_ids(orig.take(i)),
            parse_errors@.len() == orig.take(i).filter(unreadable).len(),
            strict ==> parse_errors@.len() == 0,
        decreases crest@.len(),
    {
        let c = crest.remove(0);
        let ghost prev_ids = ids_of(parsed@);
        match read_tree(c.0.as_str(), c.1.as_str()) {
            Ok(p) => {
                parsed.push(p);
            },
            Err(e) => {
                if strict {
                    return Err(e);
                }
                parse_errors.push(e.message());
            },
        }
        proof {
            i = i + 1;
            assert(crest@ =~= orig.skip(i));
            assert(c == orig[i - 1]);
            let base = orig.take(i - 1);
            assert(orig.take(i) =~= base.push(orig[i - 1]));
            base.lemma_filter_push(orig[i - 1], readable);
            base.lemma_filter_push(orig[i - 1], unreadable);
            if readable(orig[i - 1]) {
                assert(readable_ids(orig.take(i)) =~~= readable_ids(base).push(
                    file_id_spec(orig[i - 1].0@).unwrap(),
                ));
                assert(ids_of(parsed@) =~~= prev_ids.push(file_id_spec(orig[i - 1].0@).unwrap()));
            } else {
                assert(readable_ids(orig.take(i)) =~~= readable_ids(base));
                assert(ids_of(parsed@) =~~= prev_ids);
            }
        }
    }
    proof {
        assert(orig.take(orig.len() as int) =~= orig);
    }
    let ghost parsedv = parsed@;
    let (tasks, misses) = match_candidates(index, parsed);
    let ghost n_tasks = tasks@.len() as int;
    proof {
        assert(misses.deep_view() == readable_ids(orig).filter(
            |i: Seq<char>| !index@.contains_key(i),
        ));
        assert(task_ids(tasks@).len() == tasks@.len());
        assert(n_tasks == readable_ids(orig).filter(|i: Seq<char>| index@.contains_key(i)).len());
    }
    let mut outcomes: Vec<ComparisonRecord> = Vec::new();
    let mut comparison_errors: Vec<String> = Vec::new();
    let mut trest = tasks;
    while trest.len() > 0
        invariant
            strict == cfg.strict,
            outcomes@.len() + comparison_errors@.len() + trest@.len() == n_tasks,
            strict ==> comparison_errors@.len() == 0,
            forall|k: int|
                0 <= k < outcomes@.len() ==> modes_match(
                    #[trigger] outcomes@[k],
                    cfg.compare_topo,
                    cfg.compare_lens,
                    cfg.compare_dist,
                ),
        decreases trest@.len(),
    {
        let t = trest.remove(0);
        match compare_trees(
            t.id,
            &t.reference,
            &t.candidate,
            cfg.compare_topo,
            cfg.compare_lens,
            cfg.compare_dist,
            cfg.include_tips,
        ) {
            Ok(rec) => {
                outcomes.push(rec);
            },
            Err(e) => {
                if strict {
                    return Err(e);
                }
                comparison_errors.push(e.message());
            },
        }
    }
    let compared = outcomes.len();
    let ghost n_out = outcomes@.len() as int;
    let ghost mv = marker.values_view();
    let mut topo_rows: Vec<String> = Vec::new();
    let mut branch_rows: Vec<String> = Vec::new();
    let mut dist_rows: Vec<String> = Vec::new();
    let mut orest = outcomes;
    while orest.len() > 0
        invariant
            mv == marker.values_view(),
            orest@.len() <= n_out,
            forall|k: int|
                0 <= k < orest@.len() ==> modes_match(
                    #[trigger] orest@[k],
                    cfg.compare_topo,
                    cfg.compare_lens,
                    cfg.compare_dist,
                ),
            topo_rows@.len() == if cfg.compare_topo {
                n_out - orest@.len()
            } else {
                0
            },
            !cfg.compare_lens ==> branch_rows@.len() == 0,
            !cfg.compare_dist ==> dist_rows@.len() == 0,
            forall|k: int|
                0 <= k < topo_rows.deep_view().len() ==> ends_with(
                    #[trigger] topo_rows.deep_view()[k],
                    marker_suffix(mv),
                ),
            forall|k: int|
                0 <= k < branch_rows.deep_view().len() ==> ends_with(
                    #[trigger] branch_rows.deep_view()[k],
                    marker_suffix(mv),
                ),
            forall|k: int|
                0 <= k < dist_rows.deep_view().len() ==> ends_with(
                    #[trigger] dist_rows.deep_view()[k],
                    marker_suffix(mv),
                ),
        decreases orest@.len(),
    {
        let rec = orest.remove(0);
        let ghost pt = topo_rows.deep_view();
        let ghost pb = branch_rows.deep_view();
        let ghost pd = dist_rows.deep_view();
        let mut rows = render_record(&rec, marker);
        proof {
            lemma_marker_trailing(rec, mv);
            assert(rows.topo@.len() == rows.topo.deep_view().len());
            assert(rows.branch@.len() == rows.branch.deep_view().len());
            assert(rows.dist@.len() == rows.dist.deep_view().len());
            if cfg.compare_topo {
                assert(topo_rows_of(rec, mv).len() == 1);
            } else {
                assert(topo_rows_of(rec, mv).len() == 0);
            }
        }
        topo_rows.append(&mut rows.topo);
        branch_rows.append(&mut rows.branch);
        dist_rows.append(&mut rows.dist);
        proof {
            assert forall|k: int| 0 <= k < topo_rows.deep_view().len() implies ends_with(
                #[trigger] topo_rows.deep_view()[k],
                marker_suffix(mv),
            ) by {
                if k < pt.len() {
                    assert(topo_rows.deep_view()[k] == pt[k]);
                } else {
                    assert(topo_rows.deep_view()[k] == topo_rows_of(rec, mv)[k - pt.len()]);
                }
            }
            assert forall|k: int| 0 <= k < branch_rows.deep_view().len() implies ends_with(
                #[trigger] branch_rows.deep_view()[k],
                marker_suffix(mv),
            ) by {
                if k < pb.len() {
                    assert(branch_rows.deep_view()[k] == pb[k]);
                } else {
                    assert(branch_rows.deep_view()[k] == branch_rows_of(rec, mv)[k - pb.len()]);
                }
            }
            assert forall|k: int| 0 <= k < dist_rows.deep_view().len() implies ends_with(
                #[trigger] dist_rows.deep_view()[k],
                marker_suffix(mv),
            ) by {
                if k < pd.len() {
                    assert(dist_rows.deep_view()[k] == pd[k]);
                } else {
                    assert(dist_rows.deep_view()[k] == dist_rows_of(rec, mv)[k - pd.len()]);
                }
            }
        }
    }
    Ok(
        RunOutput {
            topo_rows,
            branch_rows,
            dist_rows,
            misses,
            parse_errors,
            comparison_errors,
            compared,
        },
    )
}

} // verus!
