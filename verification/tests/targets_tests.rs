use pdf_viewer_core::edit_target::{choose_edit_target, plan_edit_targets, EditTargetChoice, EditTargetPlan, VisualSegment};
use pdf_viewer_core::edit_target::{
    edit_target_base_paragraph_id, edit_target_segment_key, make_edit_segment_target_id,
    visual_segment_from_indices,
};
use pdf_viewer_core::target_resolution::{
    is_supported_region_kind, normalize_target_text, resolve_region_target, resolve_region_text_target,
    RegionTextTarget,
};

fn target(page_index: u16, region_id: &str, text: &str) -> RegionTextTarget {
    RegionTextTarget {
        page_index,
        region_id: region_id.to_string(),
        text: text.to_string(),
    }
}

#[test]
fn segment_ids_round_trip() {
    let id = make_edit_segment_target_id("p-7", "r2-5");
    assert_eq!(id, "p-7::edit-segment::r2-5");
    assert_eq!(edit_target_base_paragraph_id(&id), "p-7");
    assert_eq!(edit_target_segment_key(&id), Some("r2-5"));
}

#[test]
fn plain_ids_have_no_segment() {
    assert_eq!(edit_target_base_paragraph_id("p-7"), "p-7");
    assert_eq!(edit_target_segment_key("p-7"), None);
}

#[test]
fn visual_segment_keys_name_first_and_last_run() {
    let segment = visual_segment_from_indices(vec![3, 4, 9]);
    assert_eq!(segment.key, "r3-9");
    assert_eq!(segment.run_indices, vec![3, 4, 9]);
    assert_eq!(visual_segment_from_indices(vec![]).key, "r0-0");
}

#[test]
fn supported_region_kinds() {
    assert!(is_supported_region_kind("paragraph-region"));
    assert!(is_supported_region_kind("list-item-region"));
    assert!(!is_supported_region_kind("field-row"));
    assert!(!is_supported_region_kind(""));
}

#[test]
fn target_text_key_drops_spaces_and_folds_colons() {
    assert_eq!(normalize_target_text(" 编程语言\u{FF1A} Rust \n"), "编程语言:Rust");
    assert_eq!(normalize_target_text("a b\tc"), "abc");
}

#[test]
fn region_target_prefers_matching_text_in_the_region() {
    let targets = vec![
        target(0, "r1", "Other"),
        target(0, "r1", "Hello World"),
        target(1, "r1", "Hello World"),
    ];
    assert_eq!(resolve_region_text_target(&targets, 0, "r1", "HelloWorld"), Some(1));
}

#[test]
fn region_target_falls_back_to_the_only_region_target() {
    let targets = vec![target(0, "r2", "x"), target(0, "r1", "Something")];
    assert_eq!(resolve_region_text_target(&targets, 0, "r1", "Nothing"), Some(1));
}

#[test]
fn region_target_falls_back_to_page_text() {
    let targets = vec![
        target(0, "r1", "a"),
        target(0, "r1", "b"),
        target(0, "r9", "Body"),
    ];
    assert_eq!(resolve_region_text_target(&targets, 0, "r1", "Body"), Some(2));
    assert_eq!(resolve_region_text_target(&targets, 0, "r1", "Nope"), None);
    assert_eq!(resolve_region_text_target(&targets, 3, "r1", "Body"), None);
}

#[test]
fn edit_target_choice() {
    let ids = vec![
        "p::edit-segment::r0-1".to_string(),
        "p::edit-segment::r2-3".to_string(),
    ];
    assert_eq!(choose_edit_target(&vec![], "p", "p", None), EditTargetChoice::Whole);
    assert_eq!(
        choose_edit_target(&ids, "p", "p::edit-segment::r2-3", Some(0)),
        EditTargetChoice::Target(1)
    );
    assert_eq!(
        choose_edit_target(&ids, "p", "p::edit-segment::r9-9", Some(0)),
        EditTargetChoice::Target(0)
    );
    assert_eq!(choose_edit_target(&ids, "p", "p", None), EditTargetChoice::Whole);
    assert_eq!(
        choose_edit_target(&vec!["p".to_string()], "p", "p", None),
        EditTargetChoice::Target(0)
    );
    let plain = vec!["a".to_string(), "b".to_string()];
    assert_eq!(choose_edit_target(&plain, "p", "b", None), EditTargetChoice::Target(1));
    assert_eq!(choose_edit_target(&plain, "p", "c", None), EditTargetChoice::Whole);
}

fn segment(indices: &[usize]) -> VisualSegment {
    visual_segment_from_indices(indices.to_vec())
}

fn plan_segments(plan: EditTargetPlan) -> Option<Vec<usize>> {
    match plan {
        EditTargetPlan::Whole => None,
        EditTargetPlan::Segments(s) => Some(s),
    }
}

#[test]
fn edit_target_plans() {
    let runs: Vec<String> = vec!["a".into(), "".into(), "b".into()];
    assert_eq!(plan_segments(plan_edit_targets(&runs, &vec![])), None);
    assert_eq!(plan_segments(plan_edit_targets(&runs, &vec![segment(&[0, 2])])), None);
    assert_eq!(
        plan_segments(plan_edit_targets(&runs, &vec![segment(&[0])])),
        Some(vec![0])
    );
    assert_eq!(
        plan_segments(plan_edit_targets(&runs, &vec![segment(&[0]), segment(&[7]), segment(&[2])])),
        Some(vec![0, 2])
    );
}

#[test]
fn region_target_needs_a_text_region_and_targets() {
    let targets = vec![target(0, "r1", "Body")];
    assert_eq!(
        resolve_region_target(Some(&targets), 0, "r1", "paragraph-region", "Body"),
        Some(0)
    );
    assert_eq!(
        resolve_region_target(Some(&targets), 0, "r1", "list-item-region", "Other"),
        Some(0)
    );
    assert_eq!(resolve_region_target(Some(&targets), 0, "r1", "field-row", "Body"), None);
    assert_eq!(resolve_region_target(None, 0, "r1", "paragraph-region", "Body"), None);
}
