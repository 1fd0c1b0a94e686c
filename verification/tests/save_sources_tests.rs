use pdf_viewer_core::keyed_map::KeyedMap;
use pdf_viewer_core::patch_store::GlobalPatchState;
use pdf_viewer_core::save_sources::{
    collect_legacy_text_reflows, collect_persistable_region_patches, FieldGroupSource,
    FieldRowSource, PageRegionSources, TextObjectSource, TextRegionSource,
};
use pdf_viewer_core::editor_state::LayoutAlignment;

fn region(id: &str, text: &str, indices: &[usize]) -> TextRegionSource {
    TextRegionSource {
        id: id.to_string(),
        text: text.to_string(),
        object_indices: indices.to_vec(),
    }
}

fn object(id: &str, run_count: usize, indices: &[usize]) -> TextObjectSource {
    TextObjectSource {
        id: id.to_string(),
        run_count,
        object_indices: indices.to_vec(),
    }
}

fn sources() -> PageRegionSources {
    PageRegionSources {
        field_rows: vec![FieldRowSource {
            id: "row-1".to_string(),
            groups: vec![
                FieldGroupSource {
                    id: "g-1".to_string(),
                    pair_id: "pair-1".to_string(),
                    key_text: "Name:".to_string(),
                    value_text: "Ada".to_string(),
                    object_indices: vec![4, 5],
                },
                FieldGroupSource {
                    id: "g-2".to_string(),
                    pair_id: "pair-2".to_string(),
                    key_text: "Age:".to_string(),
                    value_text: "36".to_string(),
                    object_indices: vec![6],
                },
            ],
        }],
        paragraph_regions: vec![region("p-1", "Hello", &[1]), region("p-2", "Untouched", &[2])],
        list_item_regions: vec![region("li-1", "Item", &[3])],
        text_objects: vec![
            object("obj-a", 2, &[1]),
            object("obj-b", 3, &[7]),
            object("obj-c", 1, &[8]),
            object("obj-d", 1, &[9]),
        ],
    }
}

#[test]
fn region_patches_cover_edited_groups_and_regions() {
    let mut state = GlobalPatchState::new();
    state.field_group_texts.insert("pair-1".to_string(), "Name:Grace".to_string());
    state.field_group_snapshots.insert("pair-1".to_string(), "{\"v\":1}".to_string());
    state.paragraph_texts.insert("p-1".to_string(), "Hello there".to_string());
    state.paragraph_texts.insert("li-1".to_string(), "Item edited".to_string());
    state.paragraph_snapshots.insert("li-1".to_string(), "{\"lines\":2}".to_string());

    let patches = collect_persistable_region_patches(&sources(), 3, &state);
    assert_eq!(patches.len(), 3);

    assert_eq!(patches[0].patch_key, "pair-1");
    assert_eq!(patches[0].region_id, "row-1");
    assert_eq!(patches[0].original_text, "Name:Ada");
    assert_eq!(patches[0].new_text, "Name:Grace");
    assert_eq!(patches[0].source, "field-row");
    assert_eq!(patches[0].snapshot.as_deref(), Some("{\"v\":1}"));
    assert_eq!(patches[0].group_id.as_deref(), Some("g-1"));
    assert_eq!(patches[0].target_indices, vec![4, 5]);
    assert_eq!(patches[0].page_index, 3);
    assert_eq!(patches[0].align, Some(LayoutAlignment::Left));

    assert_eq!(patches[1].patch_key, "p-1");
    assert_eq!(patches[1].source, "paragraph-region");
    assert_eq!(patches[1].snapshot.as_deref(), Some("null"));
    assert_eq!(patches[1].group_id, None);

    assert_eq!(patches[2].patch_key, "li-1");
    assert_eq!(patches[2].source, "list-item-region");
    assert_eq!(patches[2].snapshot.as_deref(), Some("{\"lines\":2}"));
    assert_eq!(patches[2].new_text, "Item edited");
}

#[test]
fn no_edits_no_patches() {
    let state = GlobalPatchState::new();
    let patches = collect_persistable_region_patches(&sources(), 0, &state);
    assert!(patches.is_empty());
}

#[test]
fn legacy_reflows_skip_covered_objects() {
    let mut state = GlobalPatchState::new();
    state.patched_texts.insert("obj-a".to_string(), "A!".to_string());
    state.patched_texts.insert("obj-b".to_string(), "B!".to_string());
    state.patched_texts.insert("obj-c".to_string(), "C!".to_string());
    state.patched_run_texts.insert("obj-b_2".to_string(), "b".to_string());
    state.patched_run_texts.insert("obj-c_1".to_string(), "past the runs".to_string());

    let mut covered_fields: KeyedMap<()> = KeyedMap::new();
    covered_fields.insert("obj-a".to_string(), ());
    let covered_paragraphs: KeyedMap<()> = KeyedMap::new();

    let reflows =
        collect_legacy_text_reflows(&sources(), 2, &covered_fields, &covered_paragraphs, &state);
    assert_eq!(reflows.len(), 2);
    assert_eq!(reflows[0].new_text, "B!");
    assert_eq!(reflows[0].source, "run");
    assert_eq!(reflows[0].target_indices, vec![7]);
    assert_eq!(reflows[0].page_index, 2);
    assert_eq!(reflows[1].new_text, "C!");
    assert_eq!(reflows[1].source, "object");
}
