use pdf_viewer_core::document_edit::EditorResolvedDocumentState;
use pdf_viewer_core::read_core_version;
use pdf_viewer_core::session_types::{HistoryState, HistoryStepResult};
use pdf_viewer_core::text_diff::compute_text_diff;
use pdf_viewer_core::text_format::{codepoint_preview, concat_str, decimal_string, push_hex4};

#[test]
fn core_version() {
    assert_eq!(read_core_version(), "0.1.0");
}

#[test]
fn decimal_and_hex_text() {
    assert_eq!(decimal_string(0), "0");
    assert_eq!(decimal_string(1234567890), "1234567890");
    assert_eq!(decimal_string(u64::MAX), "18446744073709551615");
    let mut s = String::from("U+");
    push_hex4(&mut s, 0x4e2d);
    assert_eq!(s, "U+4E2D");
    let mut t = String::new();
    push_hex4(&mut t, 0x2a);
    assert_eq!(t, "002A");
    assert_eq!(concat_str("ab", "cd"), "abcd");
}

#[test]
fn text_diff_of_identical_and_appended_texts() {
    let same = compute_text_diff("abc", "abc");
    assert!(!same.has_inserted());
    assert_eq!(same.prefix_len, 3);

    let appended = compute_text_diff("abc", "abcXY");
    assert!(appended.has_inserted());
    assert_eq!(appended.inserted_start(), 3);
    assert_eq!(appended.inserted_end(), 5);
}

#[test]
fn history_records_default_to_empty() {
    let state = HistoryState::default();
    assert!(!state.can_undo && !state.can_redo);
    assert_eq!(state.revision, 0);
    let step = HistoryStepResult::default();
    assert!(!step.changed);
    let resolved = EditorResolvedDocumentState {
        source_text: "ab".to_string(),
        current_text: "ab".to_string(),
        current_chars: vec!['a', 'b'],
        mutation_chars: vec!['a', 'b'],
        caret_index: 0,
        is_pristine: true,
        is_slot_backed: false,
    };
    assert_eq!(resolved.char_count(), 2);
}

#[test]
fn codepoint_preview_lists_the_first_characters() {
    assert_eq!(codepoint_preview("Aé", 5), "U+0041(A),U+00E9(é)");
    assert_eq!(codepoint_preview("Aé", 1), "U+0041(A)");
    assert_eq!(codepoint_preview("😀x", 2), "U+1F600(😀),U+0078(x)");
    assert_eq!(codepoint_preview("abc", 0), "");
    assert_eq!(codepoint_preview("", 3), "");
}
