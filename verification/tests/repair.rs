use fluvio_control::repair::{
    rebuild_index, read_entries, rebuilt_report, used_entries, validate_index, RepairError,
};

#[test]
fn test_validate_index_clean() {
    let log_batches: Vec<(i64, u32)> = vec![(100, 0), (102, 79), (104, 158)];
    let index_entries: Vec<(u32, u32)> = vec![(2, 79), (4, 158), (0, 0)];
    let errors = validate_index(&index_entries, &log_batches, 237);
    assert!(errors.is_empty(), "Expected no errors for clean index");
}

#[test]
fn test_validate_index_position_past_eof() {
    let log_batches: Vec<(i64, u32)> = vec![(100, 0), (102, 79)];
    let index_entries: Vec<(u32, u32)> = vec![(2, 79), (4, 500), (0, 0)];
    let errors = validate_index(&index_entries, &log_batches, 158);
    assert!(!errors.is_empty());
    assert!(matches!(
        errors[0],
        RepairError::PositionPastEof {
            slot: 1,
            position: 500,
            log_size: 158
        }
    ));
}

#[test]
fn test_validate_index_non_monotonic() {
    let log_batches: Vec<(i64, u32)> = vec![(100, 0), (102, 79), (104, 158)];
    let index_entries: Vec<(u32, u32)> = vec![(4, 158), (2, 79), (0, 0)];
    let errors = validate_index(&index_entries, &log_batches, 237);
    let has_non_monotonic = errors
        .iter()
        .any(|e| matches!(e, RepairError::NonMonotonicOffset { .. }));
    assert!(has_non_monotonic, "Expected non-monotonic offset error");
}

#[test]
fn test_validate_index_position_mismatch() {
    let log_batches: Vec<(i64, u32)> = vec![(100, 0), (102, 79), (104, 158)];
    let index_entries: Vec<(u32, u32)> = vec![(2, 100), (0, 0)];
    let errors = validate_index(&index_entries, &log_batches, 237);
    let has_mismatch = errors.iter().any(|e| {
        matches!(
            e,
            RepairError::PositionMismatch {
                offset: 2,
                index_pos: 100,
                ..
            }
        )
    });
    assert!(has_mismatch, "Expected position mismatch error");
}

#[test]
fn the_position_of_a_mismatched_entry_is_counted_from_the_first_batch() {
    let log_batches: Vec<(i64, u32)> = vec![(100, 0), (102, 79), (104, 158)];
    assert_eq!(
        validate_index(&[(2, 100)], &log_batches, 237),
        vec![RepairError::PositionMismatch {
            offset: 2,
            index_pos: 100,
            actual_pos: 79
        }]
    );
    // No batch lies so far behind the first one.
    assert_eq!(
        validate_index(&[(102, 100)], &log_batches, 237),
        vec![RepairError::PositionMismatch {
            offset: 102,
            index_pos: 100,
            actual_pos: 0
        }]
    );
    let far: Vec<(i64, u32)> = vec![(i64::MIN, 5), (i64::MAX, 9)];
    assert_eq!(
        validate_index(&[(u32::MAX, 7)], &far, 237),
        vec![RepairError::PositionMismatch {
            offset: u32::MAX,
            index_pos: 7,
            actual_pos: 0
        }]
    );
}

#[test]
fn all_errors_of_an_index_in_order() {
    let log_batches: Vec<(i64, u32)> = vec![(700, 0), (702, 79), (703, 90)];
    let index_entries: Vec<(u32, u32)> = vec![(5, 79), (3, 500), (0, 7)];
    assert_eq!(
        validate_index(&index_entries, &log_batches, 158),
        vec![
            RepairError::PositionPastEof {
                slot: 1,
                position: 500,
                log_size: 158
            },
            RepairError::NonMonotonicOffset {
                slot: 1,
                offset: 3,
                prev_offset: 5
            },
            RepairError::PositionMismatch {
                offset: 3,
                index_pos: 500,
                actual_pos: 90
            },
            RepairError::NonMonotonicOffset {
                slot: 2,
                offset: 0,
                prev_offset: 3
            },
            RepairError::PositionMismatch {
                offset: 0,
                index_pos: 7,
                actual_pos: 0
            },
        ]
    );
}

#[test]
fn an_empty_slot_ends_the_index() {
    let log_batches: Vec<(i64, u32)> = vec![(0, 0), (2, 79)];
    let index_entries: Vec<(u32, u32)> = vec![(2, 79), (0, 0), (1, 999)];
    assert!(validate_index(&index_entries, &log_batches, 100).is_empty());
    assert_eq!(used_entries(&index_entries), 1);
    assert_eq!(used_entries(&[]), 0);
}

#[test]
fn entries_are_read_with_the_high_byte_first() {
    let bytes: Vec<u8> = vec![0, 0, 1, 2, 0x10, 0, 0, 3, 9, 9, 9];
    assert_eq!(read_entries(&bytes), vec![(0x102, 0x1000_0003)]);
    assert!(read_entries(&vec![1, 2, 3]).is_empty());
}

#[test]
fn a_rebuilt_index_is_consistent() {
    let log_batches: Vec<(i64, u32)> = vec![(700, 0), (702, 79), (704, 158)];
    let writes = rebuild_index(700, &log_batches, 10);
    assert_eq!(
        writes
            .iter()
            .map(|w| (w.offset, w.position, w.batch_size))
            .collect::<Vec<_>>(),
        vec![(0, 0, 11), (2, 79, 79), (4, 158, 79)]
    );
    let entries: Vec<(u32, u32)> = writes.iter().map(|w| (w.offset, w.position)).collect();
    assert!(validate_index(&entries, &log_batches, 237).is_empty());
    assert!(validate_index(&entries[1..], &log_batches, 237).is_empty());
}

#[test]
fn the_report_of_a_rebuilt_index() {
    let report = rebuilt_report(700, &[(700, 0), (702, 79)], 2);
    assert_eq!(report.base_offset, 700);
    assert_eq!(report.batches_found, 2);
    assert_eq!(report.index_entries_before, 0);
    assert_eq!(report.index_entries_after, 2);
    assert!(report.errors.is_empty());
}
