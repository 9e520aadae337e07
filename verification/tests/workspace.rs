use tether::store::Keyed;
use tether::workspace::{
    added_file_stat, fingerprint, git_stats, git_statuses, snapshot_file, snapshot_paths,
    status_label,
};

#[test]
fn status_labels() {
    assert_eq!(status_label("A "), "Added");
    assert_eq!(status_label("??"), "Added");
    assert_eq!(status_label(" D"), "Deleted");
    assert_eq!(status_label("R "), "Renamed");
    assert_eq!(status_label(" M"), "Modified");
    assert_eq!(status_label("MD"), "Deleted");
    assert_eq!(status_label("UU"), "Changed");
}

#[test]
fn statuses_from_porcelain() {
    let out = " M src/lib.rs\n?? notes.txt\r\nD  gone.rs\nxy\n M src/lib.rs\n";
    let s = git_statuses(out);
    assert_eq!(s.get("src/lib.rs").map(|v| v.as_str()), Some("Modified"));
    assert_eq!(s.get("notes.txt").map(|v| v.as_str()), Some("Added"));
    assert_eq!(s.get("gone.rs").map(|v| v.as_str()), Some("Deleted"));
    assert!(s.get("xy").is_none());
    assert_eq!(s.keys().len(), 3);
}

#[test]
fn stats_from_numstat() {
    let out = "3\t1\tsrc/lib.rs\n-\t-\tlogo.png\nbad line\n+7\t0\tb.rs\n";
    let s = git_stats(out);
    assert_eq!(s.get("src/lib.rs"), Some(&(3, 1)));
    assert_eq!(s.get("logo.png"), Some(&(0, 0)));
    assert_eq!(s.get("b.rs"), Some(&(7, 0)));
    assert_eq!(s.keys().len(), 3);
    let s = git_stats("99999999999\t2\tbig.rs\n");
    assert_eq!(s.get("big.rs"), Some(&(0, 2)));
}

#[test]
fn paths_are_merged_and_sorted() {
    let statuses = git_statuses(" M b.rs\n?? a.rs\n");
    let stats = git_stats("1\t1\tc.rs\n2\t0\tb.rs\n");
    assert_eq!(snapshot_paths(&statuses, &stats), vec!["a.rs", "b.rs", "c.rs"]);
    let statuses = git_statuses("?? Zeta\n?? alpha\n?? Ä\n");
    assert_eq!(snapshot_paths(&statuses, &Keyed::new()), vec!["Zeta", "alpha", "Ä"]);
}

#[test]
fn files_of_the_snapshot() {
    let statuses = git_statuses("?? new.rs\n M old.rs\n");
    let stats = git_stats("4\t2\told.rs\n1\t0\tgit-only.rs\n");
    let f = snapshot_file(&statuses, &stats, "new.rs".to_string(), Some("a\nb\nc"), "10:5".to_string());
    assert_eq!((f.path.as_str(), f.status.as_str(), f.additions, f.deletions, f.fingerprint.as_str()), ("new.rs", "Added", 3, 0, "10:5"));
    let f = snapshot_file(&statuses, &stats, "old.rs".to_string(), Some("x"), "missing".to_string());
    assert_eq!((f.status.as_str(), f.additions, f.deletions), ("Modified", 4, 2));
    let f = snapshot_file(&statuses, &stats, "git-only.rs".to_string(), None, "missing".to_string());
    assert_eq!((f.status.as_str(), f.additions, f.deletions), ("Modified", 1, 0));
}

#[test]
fn added_stats_and_fingerprints() {
    assert_eq!(added_file_stat("Added", Some("one\ntwo\n")), (2, 0));
    assert_eq!(added_file_stat("Added", Some("")), (0, 0));
    assert_eq!(added_file_stat("Added", None), (0, 0));
    assert_eq!(added_file_stat("Modified", Some("one")), (0, 0));
    assert_eq!(fingerprint(Some((1234, 1700000000))), "1234:1700000000");
    assert_eq!(fingerprint(None), "missing");
}
