use coderlm_server::git::{parse_name_status, FileStatus};

#[test]
fn test_parse_name_status() {
    let input = "A\tsrc/new.rs\nD\tsrc/old.rs\nM\tsrc/existing.rs\nR100\told_name.rs\tnew_name.rs\n";
    let diffs = parse_name_status(input).unwrap();
    assert_eq!(diffs.len(), 4);
    assert!(matches!(diffs[0].status, FileStatus::Added));
    assert!(matches!(diffs[1].status, FileStatus::Deleted));
    assert!(matches!(diffs[2].status, FileStatus::Modified));
    assert!(matches!(diffs[3].status, FileStatus::Renamed { .. }));
    assert_eq!(diffs[3].path, "new_name.rs");
}

#[test]
fn name_status_rename_keeps_old_path() {
    let diffs = parse_name_status("R087\ta/old.rs\tb/new.rs").unwrap();
    assert_eq!(diffs.len(), 1);
    assert_eq!(diffs[0].path, "b/new.rs");
    match &diffs[0].status {
        FileStatus::Renamed { from } => assert_eq!(from, "a/old.rs"),
        other => panic!("unexpected status {:?}", other),
    }
}

#[test]
fn name_status_other_codes_count_as_modified() {
    let diffs = parse_name_status("C75\tsrc/copy.rs\nT\tsrc/link.rs\r\nU\tsrc/conflict.rs\n").unwrap();
    assert_eq!(diffs.len(), 3);
    assert!(diffs.iter().all(|d| matches!(d.status, FileStatus::Modified)));
    assert_eq!(diffs[0].path, "src/copy.rs");
    assert_eq!(diffs[1].path, "src/link.rs");
}

#[test]
fn name_status_skips_lines_without_path() {
    let diffs = parse_name_status("\n\nA\n\nM\t\nD\tgone.rs\n").unwrap();
    assert_eq!(diffs.len(), 1);
    assert_eq!(diffs[0].path, "gone.rs");
    assert!(matches!(diffs[0].status, FileStatus::Deleted));
}

#[test]
fn name_status_empty_output() {
    assert!(parse_name_status("").unwrap().is_empty());
}
