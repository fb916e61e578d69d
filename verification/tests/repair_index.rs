use fluvio_control::repair_index::{
    collect_partition_dirs, sorted_logs, DirTree, IndexFile, RepairAction, RepairIndexOpt,
    RepairStage,
};

fn names(list: &[&str]) -> Vec<String> {
    list.iter().map(|s| s.to_string()).collect()
}

fn leaf(files: &[&str]) -> DirTree {
    DirTree {
        files: names(files),
        dirs: vec![],
    }
}

fn opt(dry_run: bool) -> RepairIndexOpt {
    RepairIndexOpt {
        data_dir: "/data".to_string(),
        dry_run,
    }
}

#[test]
fn a_missing_data_directory() {
    assert!(opt(false).check_data_dir(true).is_ok());
    assert_eq!(
        opt(false).check_data_dir(false),
        Err("Data directory does not exist: /data".to_string())
    );
}

#[test]
fn directories_with_logs_are_found() {
    let tree = DirTree {
        files: names(&["README", ".log"]),
        dirs: vec![
            (
                "a-0".to_string(),
                DirTree {
                    files: names(&["0.log"]),
                    dirs: vec![("deep".to_string(), leaf(&["1.log"]))],
                },
            ),
            ("empty".to_string(), leaf(&["x.index"])),
            ("b-0".to_string(), leaf(&["x.log"])),
        ],
    };
    assert_eq!(
        collect_partition_dirs(&tree),
        names(&["a-0", "a-0/deep", "b-0"])
    );
    assert_eq!(collect_partition_dirs(&leaf(&["0.log"])), names(&[""]));
}

#[test]
fn logs_are_sorted_by_name() {
    assert_eq!(
        sorted_logs(&names(&["20.log", "3.log", "a.index", "100.log", ".log", "2.log"])),
        names(&["100.log", "2.log", "20.log", "3.log"])
    );
}

#[test]
fn a_run_over_an_empty_directory() {
    let run = opt(false).start(&leaf(&[]));
    assert_eq!(run.stage, RepairStage::Finished);
    assert_eq!(
        run.output,
        names(&["No partition directories found under /data"])
    );
}

fn tree() -> DirTree {
    DirTree {
        files: vec![],
        dirs: vec![("t-0".to_string(), leaf(&["1.log"]))],
    }
}

#[test]
fn a_run_that_repairs() {
    let mut run = opt(false).start(&tree());
    match run.next() {
        RepairAction::List { path } => assert_eq!(path, "/data/t-0"),
        other => panic!("{other:?}"),
    }
    run.listed(&names(&["x.log", "00000000000000000000.log", "5.log", "7.log", "9.log"]));
    match run.next() {
        RepairAction::Scan {
            log_path,
            index_path,
            base_offset,
        } => {
            assert_eq!(log_path, "/data/t-0/00000000000000000000.log");
            assert_eq!(index_path, "/data/t-0/00000000000000000000.index");
            assert_eq!(base_offset, 0);
        }
        other => panic!("{other:?}"),
    }
    let mut index: Vec<u8> = vec![0, 0, 0, 2, 0, 0, 0, 79];
    index.extend_from_slice(&[0; 8]);
    assert!(!run.scanned(&[(0, 0), (2, 79)], 158, &IndexFile::Bytes(index)));
    assert!(matches!(run.next(), RepairAction::Scan { base_offset: 5, .. }));
    run.scan_failed("broken");
    assert!(matches!(run.next(), RepairAction::Scan { base_offset: 7, .. }));
    assert!(run.scanned(&[(7, 0)], 40, &IndexFile::Missing));
    run.rebuilt(&Ok(3));
    assert!(matches!(run.next(), RepairAction::Scan { base_offset: 9, .. }));
    assert!(run.scanned(&[], 0, &IndexFile::Unreadable("denied".to_string())));
    run.rebuilt(&Err("no space".to_string()));
    assert!(matches!(run.next(), RepairAction::Finish));
    assert_eq!(run.stage, RepairStage::Finished);
    assert_eq!(
        run.output,
        names(&[
            "\nPartition: t-0",
            "  Segment 0: OK (2 batches, 1 index entries)",
            "  Segment 5: ERROR scanning log: broken",
            "  Segment 7: CORRUPT (1 errors, 1 batches, 0 index entries)",
            "    - Offset 0: index position 0 != actual position 0",
            "    Rebuilt: 3 index entries written",
            "  Segment 9: ERROR opening index: denied",
            "  Segment 9: CORRUPT (1 errors, 0 batches, 0 index entries)",
            "    - Slot 0: position 0 past EOF (log size 0)",
            "    ERROR rebuilding index: no space",
            "  Skipping non-standard log file: /data/t-0/x.log",
            "\n--- Summary ---",
            "Segments scanned: 5",
            "Corrupt segments: 3",
            "Segments repaired: 1",
        ])
    );
}

#[test]
fn a_dry_run_rebuilds_nothing() {
    let mut run = opt(true).start(&tree());
    assert!(matches!(run.next(), RepairAction::List { .. }));
    run.listed(&names(&["4.log"]));
    assert!(matches!(run.next(), RepairAction::Scan { base_offset: 4, .. }));
    let index: Vec<u8> = vec![0, 0, 0, 9, 0, 0, 0, 5, 0, 0, 0, 8, 0, 0, 0, 5];
    assert!(!run.scanned(&[(4, 5)], 158, &IndexFile::Bytes(index)));
    assert!(matches!(run.next(), RepairAction::Finish));
    assert_eq!(
        run.output[1..],
        names(&[
            "  Segment 4: CORRUPT (1 errors, 1 batches, 2 index entries)",
            "    - Slot 1: offset 8 < previous offset 9",
            "    (dry-run: skipping rebuild)",
            "\n--- Summary ---",
            "Segments scanned: 1",
            "Corrupt segments: 1",
            "Mode: dry-run (no changes made)",
        ])
    );
}

#[test]
fn a_partition_that_lost_its_logs() {
    let mut run = opt(false).start(&tree());
    assert!(matches!(run.next(), RepairAction::List { .. }));
    run.listed(&names(&["a.index"]));
    assert!(matches!(run.next(), RepairAction::Finish));
    assert_eq!(run.output[1], "  No .log files found");
    assert_eq!(run.output.last().unwrap(), "Segments repaired: 0");
}
