//! The conflict resolver on raw store text.

use utodo::conflict::{
    conflict_blocks, resolve_conflicts, resolve_lines, MergeDecision,
};
use utodo::errors::TodoError;

#[test]
fn keep_both_splices_both_sides_in_document_order() {
    let raw = "A\n<<<<<<< HEAD\nlocal1\n=======\nremote1\n>>>>>>> origin/main\nB\n";
    let decisions = vec![MergeDecision::KeepBoth];
    let resolved = resolve_conflicts(raw, &decisions).unwrap();
    assert_eq!(resolved, "A\nlocal1\nremote1\nB\n");
}

#[test]
fn keep_local_and_keep_incoming_pick_one_side() {
    let raw = "A\n<<<<<<< HEAD\nlocal1\n=======\nremote1\n>>>>>>> origin/main\nB\n";
    let local = resolve_conflicts(raw, &vec![MergeDecision::KeepLocal]).unwrap();
    assert_eq!(local, "A\nlocal1\nB\n");
    let incoming = resolve_conflicts(raw, &vec![MergeDecision::KeepIncoming]).unwrap();
    assert_eq!(incoming, "A\nremote1\nB\n");
}

#[test]
fn an_invalid_choice_discards_the_block() {
    let raw = "A\n<<<<<<< HEAD\nlocal1\n=======\nremote1\n>>>>>>> origin/main\nB\n";
    let resolved = resolve_conflicts(raw, &vec![MergeDecision::Discard]).unwrap();
    assert_eq!(resolved, "A\nB\n");
}

#[test]
fn conflict_free_text_comes_back_byte_identical() {
    let raw = "{\"id\":0}\n\nplain line\nanother >>>>>>> not at line start? no: midline\n";
    let resolved = resolve_conflicts(raw, &vec![]).unwrap();
    assert_eq!(resolved, raw);
}

#[test]
fn text_without_trailing_newline_is_kept_exactly() {
    let raw = "one\ntwo";
    let resolved = resolve_conflicts(raw, &vec![MergeDecision::KeepBoth]).unwrap();
    assert_eq!(resolved, raw);
}

#[test]
fn missing_decisions_leave_the_file_untouched() {
    let raw = "<<<<<<< HEAD\na\n=======\nb\n>>>>>>> other\n<<<<<<< HEAD\nc\n=======\nd\n>>>>>>> other\n";
    let err = resolve_conflicts(raw, &vec![MergeDecision::KeepBoth]).expect_err(
        "one decision cannot settle two regions",
    );
    assert_eq!(
        err.message(),
        "conflict resolution was interrupted - the store file is unchanged"
    );
    match err {
        TodoError::ConflictUnresolved => {}
        _ => panic!("wrong error variant"),
    }
}

#[test]
fn two_regions_take_two_decisions_in_order() {
    let raw = "<<<<<<< HEAD\na\n=======\nb\n>>>>>>> other\nmid\n<<<<<<< HEAD\nc\n=======\nd\n>>>>>>> other\n";
    let decisions = vec![MergeDecision::KeepLocal, MergeDecision::KeepIncoming];
    let resolved = resolve_conflicts(raw, &decisions).unwrap();
    assert_eq!(resolved, "a\nmid\nd\n");
}

#[test]
fn conflict_blocks_cut_out_both_sides() {
    let lines: Vec<String> = vec![
        "A".to_string(),
        "<<<<<<< HEAD".to_string(),
        "local1".to_string(),
        "local2".to_string(),
        "=======".to_string(),
        "remote1".to_string(),
        ">>>>>>> origin/main".to_string(),
        "B".to_string(),
    ];
    let blocks = conflict_blocks(&lines);
    assert_eq!(blocks.len(), 1);
    assert_eq!(blocks[0].local_lines, vec!["local1".to_string(), "local2".to_string()]);
    assert_eq!(blocks[0].incoming_lines, vec!["remote1".to_string()]);
}

#[test]
fn resolve_lines_copies_ordinary_lines_verbatim() {
    let lines: Vec<String> = vec!["x".to_string(), "y".to_string()];
    let out = resolve_lines(&lines, &vec![]).unwrap();
    assert_eq!(out, lines);
}

#[test]
fn a_choice_is_read_as_the_original_read_it() {
    assert_eq!(MergeDecision::from_choice("1"), MergeDecision::KeepLocal);
    assert_eq!(MergeDecision::from_choice("2"), MergeDecision::KeepIncoming);
    assert_eq!(MergeDecision::from_choice("3"), MergeDecision::KeepBoth);
    assert_eq!(MergeDecision::from_choice("yes"), MergeDecision::Discard);
    assert_eq!(MergeDecision::from_choice(""), MergeDecision::Discard);
}
