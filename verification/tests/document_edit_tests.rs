use pdf_viewer_core::document_edit::{
    delete_backward, delete_forward, insert_text, resolve_document_state,
};
use pdf_viewer_core::editor_state::{LayoutAlignment, ListMarkerKind, LiveEditorParagraphState};

fn state_with_text(text: &str, caret_index: usize) -> LiveEditorParagraphState {
    LiveEditorParagraphState::new(
        "p-mutation".to_string(),
        text.to_string(),
        text.chars().collect(),
        ListMarkerKind::NoMarker,
        None,
        LayoutAlignment::Left,
        caret_index,
    )
}

#[test]
fn delete_commands_use_char_indices() {
    let state = state_with_text("abcd", 2);

    let backspace = delete_backward(&state);
    assert_eq!(backspace.text, "acd");
    assert_eq!(backspace.caret_index, 1);

    let delete = delete_forward(&state);
    assert_eq!(delete.text, "abd");
    assert_eq!(delete.caret_index, 2);
}

#[test]
fn mutations_count_unicode_scalars_not_bytes() {
    let state = state_with_text("你a好", 1);

    let inserted = insert_text(&state, "🦀");
    assert_eq!(inserted.text, "你🦀a好");
    assert_eq!(inserted.caret_index, 2);

    let backspace = delete_backward(&state);
    assert_eq!(backspace.text, "a好");
    assert_eq!(backspace.caret_index, 0);

    let delete = delete_forward(&state);
    assert_eq!(delete.text, "你好");
    assert_eq!(delete.caret_index, 1);
}

#[test]
fn delete_boundaries_are_noops() {
    let at_start = state_with_text("abc", 0);
    let backspace = delete_backward(&at_start);
    assert_eq!(backspace.text, "abc");
    assert_eq!(backspace.caret_index, 0);

    let at_end = state_with_text("abc", 3);
    let delete = delete_forward(&at_end);
    assert_eq!(delete.text, "abc");
    assert_eq!(delete.caret_index, 3);
}

#[test]
fn mutation_uses_semantic_text_not_raw_slot_text() {
    let state = LiveEditorParagraphState::new(
        "p-mutation".to_string(),
        "编程语言: Rust".to_string(),
        "编程语言:Rust".chars().collect(),
        ListMarkerKind::NoMarker,
        None,
        LayoutAlignment::Left,
        "编程语言: ".chars().count(),
    );

    let backspace = delete_backward(&state);
    assert_eq!(backspace.text, "编程语言:Rust");
    assert_eq!(backspace.caret_index, "编程语言:".chars().count());

    let delete = delete_forward(&state);
    assert_eq!(delete.text, "编程语言: ust");
    assert_eq!(delete.caret_index, "编程语言: ".chars().count());
}

#[test]
fn caret_past_the_end_is_clamped() {
    let state = state_with_text("ab", 9);
    let resolved = resolve_document_state(&state);
    assert_eq!(resolved.caret_index, 2);
    assert_eq!(resolved.char_count(), 2);
    assert!(resolved.is_pristine);
    assert!(resolved.is_slot_backed);

    let inserted = insert_text(&state, "c");
    assert_eq!(inserted.text, "abc");
    assert_eq!(inserted.caret_index, 3);
}

#[test]
fn backspace_undoes_an_insert() {
    let state = state_with_text("hello", 2);
    let inserted = insert_text(&state, "X");
    let mut after = state_with_text("hello", 2);
    after.set_draft_text(inserted.text.clone());
    after.set_caret_index(inserted.caret_index);
    let undone = delete_backward(&after);
    assert_eq!(undone.text, "hello");
    assert_eq!(undone.caret_index, 2);
}

#[test]
fn slot_text_that_differs_is_not_slot_backed() {
    let state = LiveEditorParagraphState::new(
        "p".to_string(),
        "a b".to_string(),
        "ab".chars().collect(),
        ListMarkerKind::NoMarker,
        None,
        LayoutAlignment::Left,
        0,
    );
    let resolved = resolve_document_state(&state);
    assert!(resolved.is_pristine);
    assert!(!resolved.is_slot_backed);
}
