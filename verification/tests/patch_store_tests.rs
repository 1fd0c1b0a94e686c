use pdf_viewer_core::editor_state::ListMarkerKind;
use pdf_viewer_core::patch_store::{
    apply_patch, apply_patch_maps, bump_patch_revision, capture_existing_patch, clear_history,
    collect_semantic_ops, has_visible_patches, pagination_window, push_command, redo,
    remove_patch_maps, should_prefetch_page, undo, GlobalPatchState, HistoryStore, PatchCommand,
    PersistableRegionPatch, PersistableSemanticOperation, MAX_UNDO_DEPTH,
};

fn semantic_patch() -> PersistableRegionPatch {
    PersistableRegionPatch {
        patch_key: "list:p1".to_string(),
        region_id: "p1".to_string(),
        source: "list-item-region".to_string(),
        original_text: "Body".to_string(),
        new_text: "Body edited".to_string(),
        semantic_ops: vec![PersistableSemanticOperation::SetListKind {
            block_id: "p1".to_string(),
            list_kind: ListMarkerKind::Bullet,
            marker_text: Some("●".to_string()),
        }],
        ..Default::default()
    }
}

fn text_patch(key: &str, source: &str, text: &str) -> PersistableRegionPatch {
    PersistableRegionPatch {
        patch_key: key.to_string(),
        region_id: key.to_string(),
        source: source.to_string(),
        new_text: text.to_string(),
        ..Default::default()
    }
}

fn command(key: &str, old: Option<&str>, new: &str) -> PatchCommand {
    PatchCommand {
        patch_key: key.to_string(),
        old_patch: old.map(|t| text_patch(key, "paragraph-region", t)),
        new_patch: text_patch(key, "paragraph-region", new),
    }
}

fn paragraph_text(state: &GlobalPatchState, key: &str) -> Option<String> {
    state.paragraph_texts.get(key).cloned()
}

#[test]
fn apply_and_remove_patch_maps_tracks_semantic_ops() {
    let mut state = GlobalPatchState::new();
    let patch = semantic_patch();

    apply_patch_maps(&mut state, &patch, None, None);
    assert_eq!(collect_semantic_ops(&state).len(), 1);
    assert!(state.semantic_ops.contains_key("p1"));

    remove_patch_maps(&mut state, &patch);
    assert!(collect_semantic_ops(&state).is_empty());
    assert!(!state.semantic_ops.contains_key("p1"));
}

#[test]
fn applying_patch_without_semantic_ops_clears_previous_region_ops() {
    let mut state = GlobalPatchState::new();
    let patch = semantic_patch();
    apply_patch_maps(&mut state, &patch, None, None);

    let replacement = PersistableRegionPatch {
        patch_key: "list:p1".to_string(),
        region_id: "p1".to_string(),
        source: "list-item-region".to_string(),
        original_text: "Body".to_string(),
        new_text: "Body edited again".to_string(),
        ..Default::default()
    };
    apply_patch_maps(&mut state, &replacement, None, None);

    assert!(collect_semantic_ops(&state).is_empty());
    assert!(!state.semantic_ops.contains_key("p1"));
}

#[test]
fn visible_patches_follow_the_maps() {
    let mut state = GlobalPatchState::new();
    assert!(!has_visible_patches(&state));
    apply_patch_maps(&mut state, &semantic_patch(), None, None);
    assert!(has_visible_patches(&state));
    remove_patch_maps(&mut state, &semantic_patch());
    assert!(!has_visible_patches(&state));
}

#[test]
fn revision_saturates() {
    let mut state = GlobalPatchState::new();
    bump_patch_revision(&mut state);
    assert_eq!(state.patch_revision, 1);
    state.patch_revision = u64::MAX;
    bump_patch_revision(&mut state);
    assert_eq!(state.patch_revision, u64::MAX);
}

#[test]
fn field_rows_go_to_the_field_maps() {
    let mut state = GlobalPatchState::new();
    let mut patch = text_patch("row-1", "field-row", "Name: Ada");
    patch.snapshot = Some("{\"k\":1}".to_string());
    apply_patch(&mut state, &patch);
    assert_eq!(state.field_group_texts.get("row-1").cloned(), Some("Name: Ada".to_string()));
    assert_eq!(
        state.field_group_snapshots.get("row-1").cloned(),
        Some("{\"k\":1}".to_string())
    );
    assert!(paragraph_text(&state, "row-1").is_none());

    apply_patch(&mut state, &text_patch("p-1", "paragraph-region", "Hello"));
    assert_eq!(paragraph_text(&state, "p-1"), Some("Hello".to_string()));
}

#[test]
fn captured_patch_carries_the_stored_text() {
    let mut state = GlobalPatchState::new();
    let first = text_patch("p1", "paragraph-region", "first");
    apply_patch_maps(&mut state, &first, None, None);
    let next = text_patch("p1", "paragraph-region", "second");
    let captured = capture_existing_patch(&state, &next).expect("a patch is recorded");
    assert_eq!(captured.new_text, "first");
    assert_eq!(captured.region_id, "p1");

    let unknown = text_patch("p2", "paragraph-region", "x");
    assert!(capture_existing_patch(&state, &unknown).is_none());
    let other = text_patch("p1", "some-other-source", "x");
    assert!(capture_existing_patch(&state, &other).is_none());
}

#[test]
fn undo_and_redo_walk_the_history() {
    let mut state = GlobalPatchState::new();
    let mut history = HistoryStore::new();

    push_command(&mut history, &mut state, command("p1", None, "one"));
    push_command(&mut history, &mut state, command("p1", Some("one"), "two"));
    assert_eq!(paragraph_text(&state, "p1"), Some("two".to_string()));

    assert!(undo(&mut history, &mut state));
    assert_eq!(paragraph_text(&state, "p1"), Some("one".to_string()));
    assert!(undo(&mut history, &mut state));
    assert_eq!(paragraph_text(&state, "p1"), None);
    assert!(!undo(&mut history, &mut state));

    assert!(redo(&mut history, &mut state));
    assert_eq!(paragraph_text(&state, "p1"), Some("one".to_string()));
    assert!(redo(&mut history, &mut state));
    assert_eq!(paragraph_text(&state, "p1"), Some("two".to_string()));
    assert!(!redo(&mut history, &mut state));
}

#[test]
fn a_new_command_clears_redo() {
    let mut state = GlobalPatchState::new();
    let mut history = HistoryStore::new();
    push_command(&mut history, &mut state, command("p1", None, "one"));
    assert!(undo(&mut history, &mut state));
    push_command(&mut history, &mut state, command("p2", None, "x"));
    assert!(!redo(&mut history, &mut state));
    assert_eq!(paragraph_text(&state, "p2"), Some("x".to_string()));
}

#[test]
fn history_keeps_the_most_recent_commands() {
    let mut state = GlobalPatchState::new();
    let mut history = HistoryStore::new();
    for i in 0..(MAX_UNDO_DEPTH + 5) {
        push_command(&mut history, &mut state, command(&format!("p{i}"), None, "t"));
    }
    assert_eq!(history.undo_stack.len(), MAX_UNDO_DEPTH);
    assert_eq!(history.undo_stack[0].patch_key, "p5");
    clear_history(&mut history);
    assert!(history.undo_stack.is_empty());
    assert!(history.redo_stack.is_empty());
    assert!(!undo(&mut history, &mut state));
}

#[test]
fn prefetch_covers_neighbours_only() {
    assert!(!should_prefetch_page(3, 3, 2));
    assert!(should_prefetch_page(3, 5, 2));
    assert!(should_prefetch_page(3, 1, 2));
    assert!(!should_prefetch_page(3, 6, 2));
    assert!(!should_prefetch_page(3, 0, 2));
}

#[test]
fn pagination_window_stays_inside_the_document() {
    assert_eq!(pagination_window(0, 10), vec![0, 1]);
    assert_eq!(pagination_window(5, 10), vec![4, 5, 6]);
    assert_eq!(pagination_window(9, 10), vec![8, 9]);
    assert_eq!(pagination_window(0, 1), vec![0]);
    assert_eq!(pagination_window(0, 0), vec![0]);
}

#[test]
fn history_steps_leave_the_revision_and_recorded_patches_alone() {
    let mut state = GlobalPatchState::new();
    let mut history = HistoryStore::new();
    bump_patch_revision(&mut state);
    let revision = state.patch_revision;
    push_command(&mut history, &mut state, command("p1", None, "one"));
    assert!(undo(&mut history, &mut state));
    assert!(redo(&mut history, &mut state));
    assert_eq!(state.patch_revision, revision);
    assert!(state.paragraph_patches.get("p1").is_none());
}

#[test]
fn paragraph_patches_record_snapshot_and_replacement_target() {
    let mut state = GlobalPatchState::new();
    let patch = text_patch("p1", "paragraph-region", "new");
    apply_patch_maps(
        &mut state,
        &patch,
        Some("{\"regionId\":\"p1\"}".to_string()),
        Some("{\"paragraphId\":\"p1\"}".to_string()),
    );
    assert_eq!(
        state.paragraph_snapshots.get("p1").cloned(),
        Some("{\"regionId\":\"p1\"}".to_string())
    );
    assert_eq!(
        state.paragraph_replacement_targets.get("p1").cloned(),
        Some("{\"paragraphId\":\"p1\"}".to_string())
    );
    assert!(has_visible_patches(&state));
    remove_patch_maps(&mut state, &patch);
    assert!(state.paragraph_snapshots.get("p1").is_none());
    assert!(state.paragraph_replacement_targets.get("p1").is_none());
    assert!(!has_visible_patches(&state));
}

#[test]
fn undoing_a_first_paragraph_edit_drops_its_layout_snapshot() {
    let mut state = GlobalPatchState::new();
    let mut history = HistoryStore::new();
    push_command(&mut history, &mut state, command("p1", None, "one"));
    state.paragraph_layout_snapshots.insert("p1".to_string(), "{\"lines\":[]}".to_string());
    assert!(state.find_paragraph_snapshot("p1").is_some());
    assert!(undo(&mut history, &mut state));
    assert!(state.find_paragraph_snapshot("p1").is_none());

    push_command(&mut history, &mut state, command("p2", None, "one"));
    push_command(&mut history, &mut state, command("p2", Some("one"), "two"));
    state.paragraph_layout_snapshots.insert("p2".to_string(), "{}".to_string());
    assert!(undo(&mut history, &mut state));
    assert!(state.find_paragraph_snapshot("p2").is_some());
}
