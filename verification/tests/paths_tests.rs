use treecomp::paths::{add_gz_ext, get_file_id, get_suffixed_filenme, is_newick};

#[test]
fn newick_extensions_are_recognized() {
    assert!(is_newick("a.nwk"));
    assert!(is_newick("a.newick"));
    assert!(is_newick("dir/sub/tree.nwk"));
    assert!(is_newick("a.tar.nwk"));
    assert!(!is_newick("a.txt"));
    assert!(!is_newick("a"));
    assert!(!is_newick(".nwk"));
    assert!(!is_newick("a.nwk.gz"));
    assert!(!is_newick(""));
}

#[test]
fn file_id_strips_all_extensions() {
    assert_eq!(get_file_id("A.nwk").unwrap(), "A");
    assert_eq!(get_file_id("dir/A.nwk").unwrap(), "A");
    assert_eq!(get_file_id("A.tar.gz").unwrap(), "A");
    assert_eq!(get_file_id("A").unwrap(), "A");
    assert_eq!(get_file_id("deep/dir/tree42.newick").unwrap(), "tree42");
}

#[test]
fn file_id_of_dotfile_is_empty() {
    assert_eq!(get_file_id(".bashrc").unwrap(), "");
    assert_eq!(get_file_id(".a.b").unwrap(), "");
}

#[test]
fn file_id_fails_without_a_file_name() {
    assert!(get_file_id("").is_err());
    assert!(get_file_id(".").is_err());
    assert!(get_file_id("..").is_err());
    assert!(get_file_id("dir/..").is_err());
    let e = get_file_id("").unwrap_err();
    assert!(e.is_parse());
}

#[test]
fn gz_extension_is_added_once() {
    assert_eq!(add_gz_ext(String::from("out.csv")), "out.csv.gz");
    assert_eq!(add_gz_ext(String::from("out.gz")), "out.gz");
    assert_eq!(add_gz_ext(String::from("out")), "out.gz");
    assert_eq!(add_gz_ext(String::from("dir/out.csv")), "dir/out.csv.gz");
}

#[test]
fn suffixed_filename_uses_the_stem() {
    assert_eq!(get_suffixed_filenme("out", "dist", "csv", false).unwrap(), "out_dist.csv");
    assert_eq!(get_suffixed_filenme("out.txt", "topo", "csv", false).unwrap(), "out_topo.csv");
    assert_eq!(
        get_suffixed_filenme("results/run.1.txt", "brlen", "csv", false).unwrap(),
        "results/run_brlen.csv"
    );
}

#[test]
fn suffixed_filename_can_be_zipped() {
    assert_eq!(get_suffixed_filenme("out", "dist", "csv", true).unwrap(), "out_dist.csv.gz");
    assert_eq!(
        get_suffixed_filenme("a/b/prefix.csv", "topo", "csv", true).unwrap(),
        "a/b/prefix_topo.csv.gz"
    );
}

#[test]
fn suffixed_filename_fails_without_a_file_name() {
    let e = get_suffixed_filenme("..", "dist", "csv", false).unwrap_err();
    assert!(e.is_config());
    assert!(get_suffixed_filenme("", "dist", "csv", false).is_err());
}
