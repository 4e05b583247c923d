use treecomp::csv::resolve_marker;
use treecomp::index::{read_tree, ReferenceIndex};
use treecomp::pipeline::{elide_list, match_candidates, process_candidate, resolve_modes, FailureLog};
use treecomp::pipeline::{run_pipeline, validate_config, ProducerStep, RunConfig};

const FIVE_LEAVES: &str = "(((L1:1,L2:1):1,(L3:1,L4:1):1):1,L5:1);";
const SEVEN_LEAVES: &str = "((((L1:1,L2:1):1,(L3:1,L4:1):1):1,(L6:1,L7:1):1):1,L5:1);";

fn reference_index() -> ReferenceIndex {
    let a = read_tree("refs/A.nwk", FIVE_LEAVES).unwrap();
    let b = read_tree("refs/B.nwk", SEVEN_LEAVES).unwrap();
    ReferenceIndex::from_pairs(vec![a, b])
}

fn all_modes(strict: bool) -> RunConfig {
    RunConfig {
        compare_topo: true,
        compare_lens: true,
        compare_dist: true,
        include_tips: false,
        strict,
    }
}

#[test]
fn modes_resolve_with_all_and_synonyms() {
    assert_eq!(resolve_modes(true, false, false, false, false), (true, false, false));
    assert_eq!(resolve_modes(false, true, false, false, false), (false, true, false));
    assert_eq!(resolve_modes(false, false, true, false, false), (false, true, false));
    assert_eq!(resolve_modes(false, false, false, true, false), (false, false, true));
    assert_eq!(resolve_modes(false, false, false, false, true), (true, true, true));
}

#[test]
fn config_needs_candidates_and_a_mode() {
    assert!(validate_config(1, true, false, false).is_ok());
    let no_dirs = validate_config(0, true, true, true).unwrap_err();
    assert!(no_dirs.is_config());
    let no_modes = validate_config(2, false, false, false).unwrap_err();
    assert!(no_modes.is_config());
}

#[test]
fn lookup_finds_the_last_entry() {
    let mut index = ReferenceIndex::new();
    let (id5, t5) = read_tree("A.nwk", FIVE_LEAVES).unwrap();
    assert_eq!(id5, "A");
    index.insert(id5, t5);
    let (id7, t7) = read_tree("A.nwk", SEVEN_LEAVES).unwrap();
    index.insert(id7, t7);
    let found = index.lookup("A").expect("A must be present");
    assert_eq!(found.n_leaves(), 7);
    assert!(index.lookup("B").is_none());
}

#[test]
fn producer_steps_follow_the_policy() {
    let index = reference_index();
    match process_candidate(&index, "in/A.nwk", FIVE_LEAVES, false) {
        ProducerStep::Matched(t) => assert_eq!(t.id, "A"),
        _ => panic!("a matching candidate must become a task"),
    }
    match process_candidate(&index, "in/C.nwk", FIVE_LEAVES, false) {
        ProducerStep::Miss(id) => assert_eq!(id, "C"),
        _ => panic!("an unmatched candidate must become a miss"),
    }
    match process_candidate(&index, "in/D.nwk", "garbage", false) {
        ProducerStep::Skipped(e) => assert!(e.is_parse()),
        _ => panic!("a lenient parse failure must be skipped"),
    }
    match process_candidate(&index, "in/D.nwk", "garbage", true) {
        ProducerStep::Aborted(e) => assert!(e.is_parse()),
        _ => panic!("a strict parse failure must abort"),
    }
}

#[test]
fn matching_accounts_for_every_candidate() {
    // three identifiers match the reference set, two do not
    let index = reference_index();
    let parsed = vec![
        read_tree("in/A.nwk", FIVE_LEAVES).unwrap(),
        read_tree("in/X.nwk", FIVE_LEAVES).unwrap(),
        read_tree("in/B.nwk", SEVEN_LEAVES).unwrap(),
        read_tree("in/Y.nwk", FIVE_LEAVES).unwrap(),
        read_tree("in/A.nwk", FIVE_LEAVES).unwrap(),
    ];
    let total = parsed.len();
    let (tasks, misses) = match_candidates(&index, parsed);
    assert_eq!(tasks.len(), 3);
    assert_eq!(misses, vec!["X", "Y"]);
    assert_eq!(tasks.len() + misses.len(), total);
}

#[test]
fn scenario_lenient_run() {
    // reference: A (5 leaves), B (7 leaves); candidates: A matches,
    // C has no reference, D does not parse
    let index = reference_index();
    let candidates = vec![
        (String::from("in/A.nwk"), String::from(FIVE_LEAVES)),
        (String::from("in/C.nwk"), String::from(FIVE_LEAVES)),
        (String::from("in/D.nwk"), String::from("this is not a newick")),
    ];
    let marker = resolve_marker(&None);
    let out = run_pipeline(&index, candidates, &all_modes(false), &marker).unwrap();
    assert_eq!(out.misses, vec!["C"]);
    assert_eq!(out.parse_errors.len(), 1);
    assert!(out.parse_errors[0].contains("D.nwk"));
    assert!(out.comparison_errors.is_empty());
    assert_eq!(out.compared, 1);
    assert_eq!(out.topo_rows.len(), 1);
    assert!(out.topo_rows[0].starts_with("A,5,"));
    assert_eq!(out.dist_rows.len(), 5 * 4 / 2);
}

#[test]
fn scenario_strict_run_aborts_on_the_parse_error() {
    let index = reference_index();
    let candidates = vec![
        (String::from("in/A.nwk"), String::from(FIVE_LEAVES)),
        (String::from("in/C.nwk"), String::from(FIVE_LEAVES)),
        (String::from("in/D.nwk"), String::from("this is not a newick")),
    ];
    let marker = resolve_marker(&None);
    let e = run_pipeline(&index, candidates, &all_modes(true), &marker).unwrap_err();
    assert!(e.is_parse());
    assert!(e.message().contains("D.nwk"));
}

#[test]
fn constant_marker_trails_every_row() {
    let index = reference_index();
    let candidates = vec![
        (String::from("in/A.nwk"), String::from(FIVE_LEAVES)),
        (String::from("in/B.nwk"), String::from(SEVEN_LEAVES)),
    ];
    let marker = resolve_marker(&Some(String::from("foo")));
    let out = run_pipeline(&index, candidates, &all_modes(false), &marker).unwrap();
    assert!(!out.topo_rows.is_empty());
    assert!(!out.branch_rows.is_empty());
    assert!(!out.dist_rows.is_empty());
    for row in out.topo_rows.iter().chain(&out.branch_rows).chain(&out.dist_rows) {
        assert!(row.ends_with(",foo"), "row without marker: {row}");
    }
}

#[test]
fn keyed_marker_trails_every_row_with_its_values() {
    let index = reference_index();
    let candidates = vec![(String::from("in/A.nwk"), String::from(FIVE_LEAVES))];
    let marker = resolve_marker(&Some(String::from("{\"a\":\"1\",\"b\":\"2\"}")));
    let out = run_pipeline(&index, candidates, &all_modes(false), &marker).unwrap();
    for row in out.topo_rows.iter().chain(&out.branch_rows).chain(&out.dist_rows) {
        assert!(row.ends_with(",1,2"), "row without marker: {row}");
    }
}

#[test]
fn unrequested_modes_produce_no_rows() {
    let index = reference_index();
    let candidates = vec![(String::from("in/A.nwk"), String::from(FIVE_LEAVES))];
    let marker = resolve_marker(&None);
    let cfg = RunConfig {
        compare_topo: true,
        compare_lens: false,
        compare_dist: false,
        include_tips: false,
        strict: false,
    };
    let out = run_pipeline(&index, candidates, &cfg, &marker).unwrap();
    assert_eq!(out.topo_rows.len(), 1);
    assert!(out.branch_rows.is_empty());
    assert!(out.dist_rows.is_empty());
}

#[test]
fn two_runs_produce_the_same_rows_up_to_order() {
    let index = reference_index();
    let marker = resolve_marker(&Some(String::from("run")));
    let mut sorted_rows = Vec::new();
    for ordering in [[0, 1], [1, 0]] {
        let pool = [
            (String::from("in/A.nwk"), String::from(FIVE_LEAVES)),
            (String::from("in/B.nwk"), String::from(SEVEN_LEAVES)),
        ];
        let candidates: Vec<(String, String)> =
            ordering.iter().map(|&i| pool[i].clone()).collect();
        let out = run_pipeline(&index, candidates, &all_modes(false), &marker).unwrap();
        let mut rows = Vec::new();
        rows.extend(out.topo_rows);
        rows.extend(out.branch_rows);
        rows.extend(out.dist_rows);
        rows.sort();
        sorted_rows.push(rows);
    }
    assert_eq!(sorted_rows[0], sorted_rows[1]);
}

#[test]
fn comparison_faults_are_recorded_in_lenient_runs() {
    // the candidate under B's identifier has a different taxon set,
    // so the engine rejects the topology comparison of that pair
    let index = reference_index();
    let candidates = vec![
        (String::from("in/A.nwk"), String::from(FIVE_LEAVES)),
        (String::from("in/B.nwk"), String::from(FIVE_LEAVES)),
    ];
    let marker = resolve_marker(&None);
    let out = run_pipeline(&index, candidates, &all_modes(false), &marker).unwrap();
    assert!(out.parse_errors.is_empty());
    // every matched task is accounted: compared or faulted
    assert_eq!(out.compared + out.comparison_errors.len(), 2);
    assert_eq!(out.topo_rows.len(), out.compared);
}

#[test]
fn constant_marker_with_a_comma_is_quoted() {
    let index = reference_index();
    let candidates = vec![(String::from("in/A.nwk"), String::from(FIVE_LEAVES))];
    let marker = resolve_marker(&Some(String::from("x,y")));
    let out = run_pipeline(&index, candidates, &all_modes(false), &marker).unwrap();
    assert!(!out.topo_rows.is_empty());
    for row in out.topo_rows.iter().chain(&out.branch_rows).chain(&out.dist_rows) {
        assert!(row.ends_with(",\"x,y\""), "row without quoted marker: {row}");
    }
}

#[test]
fn failure_log_accumulates_in_order() {
    let mut log = FailureLog::new();
    assert!(log.errors.is_empty() && log.misses.is_empty());
    log.record_error(String::from("first"));
    log.record_miss(String::from("X"));
    log.record_error(String::from("second"));
    assert_eq!(log.errors, vec!["first", "second"]);
    assert_eq!(log.misses, vec!["X"]);
}

#[test]
fn long_listings_are_elided_after_ten() {
    let short: Vec<String> = (0..5).map(|i| format!("id{i}")).collect();
    assert_eq!(elide_list(&short), short);
    let long: Vec<String> = (0..12).map(|i| format!("id{i}")).collect();
    let elided = elide_list(&long);
    assert_eq!(elided.len(), 11);
    assert_eq!(elided[..10], long[..10]);
    assert_eq!(elided[10], "...");
}
