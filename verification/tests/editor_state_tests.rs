use pdf_viewer_core::editor_state::{
    alignment_label, derive_next_marker_text, list_kind_label, resolve_edited_text_geometry_policy,
    EditedTextGeometryPolicy, LayoutAlignment, ListMarkerKind, LiveEditorParagraphState,
    SessionState,
};

fn state(text: &str, kind: ListMarkerKind, marker: Option<&str>) -> LiveEditorParagraphState {
    LiveEditorParagraphState::new(
        "p1".to_string(),
        text.to_string(),
        text.chars().collect(),
        kind,
        marker.map(|m| m.to_string()),
        LayoutAlignment::Left,
        0,
    )
}

#[test]
fn session_state_names() {
    assert_eq!(SessionState::Viewing.as_str(), "Viewing");
    assert_eq!(SessionState::Editing.as_str(), "Editing");
    assert_eq!(SessionState::EditingBlock.as_str(), "EditingBlock");
    assert_eq!(SessionState::Saving.as_str(), "Saving");
}

#[test]
fn labels() {
    assert_eq!(alignment_label(LayoutAlignment::Left), "left");
    assert_eq!(alignment_label(LayoutAlignment::Center), "center");
    assert_eq!(alignment_label(LayoutAlignment::Right), "right");
    assert_eq!(alignment_label(LayoutAlignment::Justify), "justify");
    assert_eq!(list_kind_label(ListMarkerKind::NoMarker), "none");
    assert_eq!(list_kind_label(ListMarkerKind::Bullet), "bullet");
    assert_eq!(list_kind_label(ListMarkerKind::Numbering), "numbering");
    assert_eq!(list_kind_label(ListMarkerKind::Symbol), "symbol");
    assert_eq!(list_kind_label(ListMarkerKind::Custom), "custom");
}

#[test]
fn next_marker_text_keeps_a_fitting_source_marker() {
    assert_eq!(
        derive_next_marker_text(ListMarkerKind::Bullet, ListMarkerKind::Bullet, Some("●")),
        "●"
    );
    assert_eq!(
        derive_next_marker_text(ListMarkerKind::Bullet, ListMarkerKind::Numbering, Some("3.")),
        "\u{2022}"
    );
    assert_eq!(
        derive_next_marker_text(ListMarkerKind::Numbering, ListMarkerKind::Numbering, Some("3.")),
        "3."
    );
    assert_eq!(
        derive_next_marker_text(ListMarkerKind::Numbering, ListMarkerKind::Bullet, Some("●")),
        "1."
    );
    assert_eq!(
        derive_next_marker_text(ListMarkerKind::Symbol, ListMarkerKind::NoMarker, None),
        "\u{2022}"
    );
    assert_eq!(
        derive_next_marker_text(ListMarkerKind::NoMarker, ListMarkerKind::Bullet, Some("●")),
        ""
    );
}

#[test]
fn geometry_policy() {
    assert_eq!(
        resolve_edited_text_geometry_policy("abc", "abc", true),
        EditedTextGeometryPolicy::PreserveSourceGeometry
    );
    assert_eq!(
        resolve_edited_text_geometry_policy("abc", "abd", true),
        EditedTextGeometryPolicy::MeasureEditedText
    );
    assert_eq!(
        resolve_edited_text_geometry_policy("abc", "abc", false),
        EditedTextGeometryPolicy::MeasureEditedText
    );
}

#[test]
fn list_kind_toggles_off_when_picked_twice() {
    let mut s = state("Body", ListMarkerKind::NoMarker, None);
    assert!(s.set_list_kind(ListMarkerKind::Bullet));
    assert_eq!(s.active_list_kind(), ListMarkerKind::Bullet);
    assert_eq!(s.scene_revision, 1);
    assert!(s.has_session_changes());
    assert!(s.set_list_kind(ListMarkerKind::Bullet));
    assert_eq!(s.active_list_kind(), ListMarkerKind::NoMarker);
    assert_eq!(s.scene_revision, 2);
    assert!(!s.set_list_kind(ListMarkerKind::NoMarker));
    assert_eq!(s.scene_revision, 2);
}

#[test]
fn caret_and_draft_updates() {
    let mut s = state("abc", ListMarkerKind::NoMarker, None);
    assert!(s.set_caret_index(10));
    assert_eq!(s.caret_index, 3);
    assert!(!s.set_caret_index(3));
    assert!(s.set_draft_text("ab".to_string()));
    assert_eq!(s.draft_text(), "ab");
    assert_eq!(s.source_text(), "abc");
    assert_eq!(s.normalized_caret_index(), 2);
    assert!(!s.set_draft_text("ab".to_string()));
    assert!(s.set_alignment(LayoutAlignment::Center));
    assert_eq!(s.active_alignment(), LayoutAlignment::Center);
    assert_eq!(s.active_alignment_label(), "center");
    assert_eq!(s.source_alignment(), LayoutAlignment::Left);
    assert!(!s.set_alignment(LayoutAlignment::Center));
}

#[test]
fn marker_text_for_patch() {
    let plain = state("Body", ListMarkerKind::NoMarker, None);
    assert_eq!(plain.resolved_marker_text_for_patch(), None);
    assert_eq!(plain.source_marker_text_for_patch(), None);

    let mut listed = state("Body", ListMarkerKind::Bullet, Some("●"));
    assert_eq!(listed.resolved_marker_text_for_patch(), Some("●".to_string()));
    assert_eq!(listed.source_marker_text_for_patch(), Some("●"));
    listed.set_list_kind(ListMarkerKind::Bullet);
    assert_eq!(listed.resolved_marker_text_for_patch(), Some(String::new()));

    let mut numbered = state("Body", ListMarkerKind::NoMarker, None);
    numbered.set_list_kind(ListMarkerKind::Numbering);
    assert_eq!(numbered.resolved_marker_text_for_patch(), Some("1.".to_string()));
    assert_eq!(numbered.active_list_kind_label(), "numbering");
}
