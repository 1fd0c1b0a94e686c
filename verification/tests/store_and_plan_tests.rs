use pdf_viewer_core::keyed_map::KeyedMap;
use pdf_viewer_core::patch_store::PersistableRegionPatch;
use pdf_viewer_core::save_plan::{build_persistable_save_plan, get_reflow_key, RegionTextReflow};

fn reflow(page_index: u16, indices: &[usize], text: &str, source: &str) -> RegionTextReflow {
    RegionTextReflow {
        page_index,
        target_indices: indices.to_vec(),
        new_text: text.to_string(),
        source: source.to_string(),
    }
}

fn patch(page_index: u16, indices: &[usize], text: &str, source: &str) -> PersistableRegionPatch {
    PersistableRegionPatch {
        patch_key: format!("{page_index}:{text}"),
        page_index,
        region_id: format!("r-{text}"),
        new_text: text.to_string(),
        source: source.to_string(),
        target_indices: indices.to_vec(),
        ..Default::default()
    }
}

#[test]
fn keyed_map_insert_get_remove() {
    let mut map: KeyedMap<u32> = KeyedMap::new();
    assert!(map.is_empty());
    map.insert("a".to_string(), 1);
    map.insert("b".to_string(), 2);
    map.insert("a".to_string(), 3);
    assert_eq!(map.len(), 2);
    assert_eq!(map.get("a"), Some(&3));
    assert!(map.contains_key("b"));
    assert_eq!(map.remove("b"), Some(2));
    assert_eq!(map.remove("b"), None);
    assert!(!map.contains_key("b"));
    assert_eq!(map.len(), 1);
    assert!(!map.is_empty());
}

#[test]
fn reflow_key_names_page_and_objects() {
    assert_eq!(get_reflow_key(&reflow(3, &[7, 8, 10], "x", "s")), "3::7,8,10");
    assert_eq!(get_reflow_key(&reflow(0, &[], "x", "s")), "0::");
}

#[test]
fn save_plan_suppresses_legacy_reflows_of_patched_objects() {
    let patches = vec![
        patch(0, &[1, 2], "Hello", "paragraph-region"),
        patch(1, &[4], "Name: Ada", "field-row"),
    ];
    let legacy = vec![
        reflow(0, &[1, 2], "old hello", "legacy"),
        reflow(0, &[5], "other", "legacy"),
        reflow(1, &[4, 5], "not the same objects", "legacy"),
    ];
    let plan = build_persistable_save_plan(patches, legacy);

    assert_eq!(plan.region_patches.len(), 2);
    let texts: Vec<&str> = plan.text_reflows.iter().map(|r| r.new_text.as_str()).collect();
    assert_eq!(texts, vec!["Hello", "Name: Ada", "other", "not the same objects"]);
    assert_eq!(plan.text_reflows[0].target_indices, vec![1, 2]);
    assert_eq!(plan.text_reflows[1].source, "field-row");

    assert_eq!(plan.suppressed_text_reflows.len(), 1);
    assert_eq!(plan.suppressed_text_reflows[0].new_text, "old hello");

    assert!(plan.covered_field_row_object_ids.contains_key("1_4"));
    assert_eq!(plan.covered_field_row_object_ids.len(), 1);
    assert!(plan.covered_paragraph_object_ids.contains_key("0_1"));
    assert!(plan.covered_paragraph_object_ids.contains_key("0_2"));
    assert_eq!(plan.covered_paragraph_object_ids.len(), 2);
}

#[test]
fn empty_save_plan() {
    let plan = build_persistable_save_plan(Vec::new(), Vec::new());
    assert!(plan.text_reflows.is_empty());
    assert!(plan.suppressed_text_reflows.is_empty());
    assert!(plan.covered_field_row_object_ids.is_empty());
    assert!(plan.covered_paragraph_object_ids.is_empty());
}
