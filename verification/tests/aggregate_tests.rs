use line_counter::aggregate::LineCount;

#[test]
fn empty_record_totals_zero() {
    let record = LineCount::new();
    assert_eq!(record.totals(), (0, 0, 0, 0));
    assert_eq!(record.file_names.len(), 0);
}

#[test]
fn recorded_files_are_kept_in_order() {
    let mut record = LineCount::new();
    record.record_file(String::from("a.rs"), (3, 1, 2, 2));
    record.record_file(String::from("b.rs"), (10, 0, 4, 5));
    assert_eq!(record.file_names, vec![String::from("a.rs"), String::from("b.rs")]);
    assert_eq!(record.program_line_counts, vec![3, 10]);
    assert_eq!(record.blank_line_counts, vec![1, 0]);
    assert_eq!(record.comment_line_counts, vec![2, 4]);
    assert_eq!(record.comment_counts, vec![2, 5]);
}

#[test]
fn totals_sum_every_column() {
    let mut record = LineCount::new();
    record.record_file(String::from("a.rs"), (3, 1, 2, 2));
    record.record_file(String::from("b.rs"), (10, 0, 4, 5));
    record.record_file(String::from("c.rs"), (0, 0, 0, 0));
    assert_eq!(record.totals(), (13, 1, 6, 7));
}

#[test]
fn totals_do_not_overflow() {
    let mut record = LineCount::new();
    record.record_file(String::from("big1"), (u32::MAX, u32::MAX, u32::MAX, u32::MAX));
    record.record_file(String::from("big2"), (u32::MAX, u32::MAX, u32::MAX, u32::MAX));
    let expected = 2 * (u32::MAX as u64);
    assert_eq!(record.totals(), (expected, expected, expected, expected));
}
