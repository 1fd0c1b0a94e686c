use pdf_viewer_core::editor_state::ListMarkerKind;
use pdf_viewer_core::page_models::VisualMarkerKind;
use pdf_viewer_core::semantic_block::{list_item_provenance, list_item_source_list_kind, semantic_marker_kind};
use pdf_viewer_core::semantic_block::{
    collect_layout_run_object_indices, insert_sorted_unique, validate_body_text_matches_body_runs,
    validate_list_item_body_excludes_marker, validate_marker_body_object_sets_do_not_overlap,
    validate_semantic_block, SemanticMarkerContent, SourceProvenanceLite, GraphicType,
};

fn provenance(body: &[usize], marker: &[usize], graphic: &[usize]) -> SourceProvenanceLite {
    SourceProvenanceLite {
        body_object_indices: body.to_vec(),
        marker_object_indices: marker.to_vec(),
        graphic_marker_object_indices: graphic.to_vec(),
    }
}

#[test]
fn validation_rejects_overlapping_marker_and_body_objects() {
    let result = validate_marker_body_object_sets_do_not_overlap(&vec![1, 2], &vec![2], &vec![]);
    assert!(result.is_err());
}

#[test]
fn overlap_message_lists_shared_objects_in_order() {
    let result =
        validate_marker_body_object_sets_do_not_overlap(&vec![9, 4, 1, 4], &vec![4], &vec![9, 7]);
    assert_eq!(
        result,
        Err("body and marker object sets overlap: [4, 9]".to_string())
    );
    assert_eq!(
        validate_marker_body_object_sets_do_not_overlap(&vec![1], &vec![2], &vec![3]),
        Ok(())
    );
}

#[test]
fn validation_rejects_marker_in_body_text() {
    assert!(validate_list_item_body_excludes_marker("●Body", Some("●")).is_err());
    assert_eq!(
        validate_list_item_body_excludes_marker("●Body", Some("●")),
        Err("list body starts with marker text".to_string())
    );
    assert!(validate_list_item_body_excludes_marker("Body", Some("●")).is_ok());
    assert!(validate_list_item_body_excludes_marker("●Body", Some("")).is_ok());
    assert!(validate_list_item_body_excludes_marker("●Body", None).is_ok());
}

#[test]
fn body_text_must_match_non_empty_run_text() {
    let runs = vec!["Bo".to_string(), "dy".to_string()];
    assert!(validate_body_text_matches_body_runs("Body", &runs).is_ok());
    assert!(validate_body_text_matches_body_runs("Anything", &vec![String::new()]).is_ok());
    assert_eq!(
        validate_body_text_matches_body_runs("Other", &runs),
        Err("semantic body text differs from body run text".to_string())
    );
}

#[test]
fn list_item_body_excludes_text_marker() {
    let provenance = list_item_provenance(vec![2], Some(vec![1]), &vec![]);
    let validation = validate_semantic_block(
        "Body",
        &vec!["Body".to_string()],
        Some(Some("●")),
        &provenance,
    );
    assert!(validation.valid, "{:?}", validation.errors);
    assert!(validation.errors.is_empty());
    let marker = SemanticMarkerContent::Text { text: "●".to_string() };
    assert_eq!(marker.text_content(), Some("●"));
    assert_eq!(provenance.body_object_indices, vec![2]);
    assert_eq!(provenance.marker_object_indices, vec![1]);
}

#[test]
fn block_validation_reports_every_failure_in_order() {
    let validation = validate_semantic_block(
        "●Body",
        &vec!["Body".to_string()],
        Some(Some("●")),
        &provenance(&[1, 2], &[1], &[]),
    );
    assert!(!validation.valid);
    assert_eq!(
        validation.errors,
        vec![
            "semantic body text differs from body run text".to_string(),
            "list body starts with marker text".to_string(),
            "body and marker object sets overlap: [1]".to_string(),
        ]
    );

    let paragraph = validate_semantic_block(
        "●Body",
        &vec!["●Body".to_string()],
        None,
        &provenance(&[1], &[1], &[]),
    );
    assert!(paragraph.valid);
}

#[test]
fn run_object_indices_are_sorted_and_unique() {
    let runs = vec![vec![5, 1], vec![], vec![3, 5, 1]];
    assert_eq!(collect_layout_run_object_indices(&runs), vec![1, 3, 5]);
    let mut v = vec![1, 4];
    insert_sorted_unique(&mut v, 3);
    insert_sorted_unique(&mut v, 4);
    insert_sorted_unique(&mut v, 0);
    assert_eq!(v, vec![0, 1, 3, 4]);
}

#[test]
fn marker_content_text() {
    let text = SemanticMarkerContent::Text { text: "●".to_string() };
    assert_eq!(text.text_content(), Some("●"));
    let graphic = SemanticMarkerContent::Graphic {
        object_index: 3,
        object_type: GraphicType::Image,
        object_id: "img-3".to_string(),
    };
    assert_eq!(graphic.text_content(), None);
}

#[test]
fn list_item_source_kind_prefers_the_text_marker() {
    assert_eq!(
        list_item_source_list_kind(Some(ListMarkerKind::Numbering), &vec![ListMarkerKind::Bullet]),
        ListMarkerKind::Numbering
    );
    assert_eq!(
        list_item_source_list_kind(None, &vec![ListMarkerKind::Symbol, ListMarkerKind::Bullet]),
        ListMarkerKind::Symbol
    );
    assert_eq!(list_item_source_list_kind(None, &vec![]), ListMarkerKind::NoMarker);
}

#[test]
fn semantic_marker_kinds() {
    assert_eq!(semantic_marker_kind(VisualMarkerKind::TextNumbering, false), ListMarkerKind::Numbering);
    assert_eq!(semantic_marker_kind(VisualMarkerKind::TextBullet, false), ListMarkerKind::Bullet);
    assert_eq!(semantic_marker_kind(VisualMarkerKind::GraphicBullet, false), ListMarkerKind::Bullet);
    assert_eq!(semantic_marker_kind(VisualMarkerKind::Custom, false), ListMarkerKind::Custom);
    assert_eq!(semantic_marker_kind(VisualMarkerKind::NoMarker, false), ListMarkerKind::NoMarker);
    assert_eq!(semantic_marker_kind(VisualMarkerKind::TextNumbering, true), ListMarkerKind::Bullet);
}

#[test]
fn list_item_provenance_collects_graphic_markers() {
    let p = list_item_provenance(vec![2], Some(vec![1]), &vec![vec![8, 5], vec![5, 3]]);
    assert_eq!(p.body_object_indices, vec![2]);
    assert_eq!(p.marker_object_indices, vec![1]);
    assert_eq!(p.graphic_marker_object_indices, vec![3, 5, 8]);
    let plain = list_item_provenance(vec![4], None, &vec![]);
    assert!(plain.marker_object_indices.is_empty());
    assert!(plain.graphic_marker_object_indices.is_empty());
}
