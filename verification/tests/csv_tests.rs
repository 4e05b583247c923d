use treecomp::comp::{BranchRecord, DistanceRecord, TopologyRecord};
use treecomp::csv::{add_marker, full_header, get_header_string, parse_markers, resolve_marker};
use treecomp::csv::{format_branch_record, format_distance_record, format_tree_record, CSVType};
use treecomp::num::{u64_to_string, usize_to_string};

#[test]
fn decimal_formatting_is_exact() {
    assert_eq!(u64_to_string(0), "0");
    assert_eq!(u64_to_string(7), "7");
    assert_eq!(u64_to_string(10), "10");
    assert_eq!(u64_to_string(123456789), "123456789");
    assert_eq!(u64_to_string(u64::MAX), "18446744073709551615");
    assert_eq!(usize_to_string(42), "42");
}

#[test]
fn headers_match_the_schemas() {
    assert_eq!(get_header_string(CSVType::Trees), "id,size,rf,norm_rf,rf_weight,kf_score");
    assert_eq!(get_header_string(CSVType::Branches), "id,ref_len,ref_depth,comp_len,comp_depth");
    assert_eq!(get_header_string(CSVType::Distances), "id,ref,comp");
}

#[test]
fn marker_is_appended_with_a_comma() {
    let mut row = String::from("a,b");
    add_marker(&mut row, "m1,m2");
    assert_eq!(row, "a,b,m1,m2");
}

#[test]
fn tree_record_row_is_exact() {
    let rec = TopologyRecord {
        id: String::from("A"),
        rf: String::from("2"),
        norm_rf: String::from("0.5"),
        weighted_rf: String::from("1.5"),
        kf_score: String::from("0.25"),
        n_tips: 5,
    };
    assert_eq!(format_tree_record(&rec, None), "A,5,2,0.5,1.5,0.25");
    assert_eq!(format_tree_record(&rec, Some("foo")), "A,5,2,0.5,1.5,0.25,foo");
}

#[test]
fn branch_record_row_leaves_absent_fields_empty() {
    let ref_only = BranchRecord {
        id: String::from("A"),
        ref_len: Some(String::from("0.1")),
        ref_depth: Some(3),
        cmp_len: None,
        cmp_depth: None,
    };
    assert_eq!(format_branch_record(&ref_only, None), "A,0.1,3,,");
    let common = BranchRecord {
        id: String::from("A"),
        ref_len: Some(String::from("0.1")),
        ref_depth: Some(3),
        cmp_len: Some(String::from("0.2")),
        cmp_depth: Some(4),
    };
    assert_eq!(format_branch_record(&common, Some("x")), "A,0.1,3,0.2,4,x");
}

#[test]
fn distance_record_row_is_exact() {
    let rec = DistanceRecord {
        id: String::from("A"),
        ref_dist: String::from("3"),
        cmp_dist: String::from("NaN"),
    };
    assert_eq!(format_distance_record(&rec, None), "A,3,NaN");
    assert_eq!(format_distance_record(&rec, Some("foo")), "A,3,NaN,foo");
}

#[test]
fn fields_with_commas_or_quotes_are_quoted() {
    let rec = DistanceRecord {
        id: String::from("a,b"),
        ref_dist: String::from("3"),
        cmp_dist: String::from("4"),
    };
    assert_eq!(format_distance_record(&rec, None), "\"a,b\",3,4");
    let rec = DistanceRecord {
        id: String::from("a\"b"),
        ref_dist: String::from("3"),
        cmp_dist: String::from("4"),
    };
    assert_eq!(format_distance_record(&rec, None), "\"a\"\"b\",3,4");
}

#[test]
fn marker_columns_with_commas_are_quoted() {
    let constant = resolve_marker(&Some(String::from("x,y")));
    assert_eq!(constant.values.as_deref(), Some("\"x,y\""));
    let keyed = resolve_marker(&Some(String::from("{\"a\":\"1,2\",\"b\":\"3\"}")));
    assert_eq!(keyed.header.as_deref(), Some("a,b"));
    assert_eq!(keyed.values.as_deref(), Some("\"1,2\",3"));
}

#[test]
fn markers_parse_sorted_by_key() {
    let (header, values) = parse_markers("{\"b\":\"2\",\"a\":\"1\"}").unwrap();
    assert_eq!(header, "a,b");
    assert_eq!(values, "1,2");
}

#[test]
fn marker_parse_failures_are_config_faults() {
    let e = parse_markers("foo").unwrap_err();
    assert!(e.is_config());
    assert!(parse_markers("{\"a\":1}").is_err());
    assert!(parse_markers("[1,2]").is_err());
}

#[test]
fn constant_marker_resolves_to_one_column() {
    let m = resolve_marker(&Some(String::from("foo")));
    assert_eq!(m.header.as_deref(), Some("marker"));
    assert_eq!(m.values.as_deref(), Some("foo"));
}

#[test]
fn json_marker_resolves_to_keyed_columns() {
    let m = resolve_marker(&Some(String::from("{\"a\":\"1\",\"b\":\"2\"}")));
    assert_eq!(m.header.as_deref(), Some("a,b"));
    assert_eq!(m.values.as_deref(), Some("1,2"));
}

#[test]
fn missing_and_empty_markers_resolve_to_no_columns() {
    let none = resolve_marker(&None);
    assert!(none.header.is_none());
    assert!(none.values.is_none());
    let empty = resolve_marker(&Some(String::from("{}")));
    assert!(empty.header.is_none());
    assert!(empty.values.is_none());
}

#[test]
fn full_header_gains_the_marker_columns() {
    let keyed = resolve_marker(&Some(String::from("{\"a\":\"1\",\"b\":\"2\"}")));
    assert_eq!(full_header(CSVType::Trees, &keyed), "id,size,rf,norm_rf,rf_weight,kf_score,a,b");
    let constant = resolve_marker(&Some(String::from("foo")));
    assert_eq!(full_header(CSVType::Distances, &constant), "id,ref,comp,marker");
    let none = resolve_marker(&None);
    assert_eq!(full_header(CSVType::Branches, &none), "id,ref_len,ref_depth,comp_len,comp_depth");
}
