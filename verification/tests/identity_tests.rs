use pdf_viewer_core::editor_state::LayoutAlignment;
use pdf_viewer_core::save_sources::{build_rich_patch, SceneMarkerSource};
use pdf_viewer_core::source_identity::{
    collect_run_indices, collect_target_source_object_ids, collect_target_source_object_indices,
    resolve_vector_source_object_order, VectorTextRef,
};

fn ids(groups: &[&[&str]]) -> Vec<Vec<String>> {
    groups
        .iter()
        .map(|g| g.iter().map(|s| s.to_string()).collect())
        .collect()
}

#[test]
fn run_indices_prefer_direct_object_indices() {
    let objects = vec![VectorTextRef { id: "t1".to_string(), z_index: 99 }];
    let found = collect_run_indices(
        &vec![vec![7, 3], vec![3, 5]],
        &ids(&[&["t1"], &[]]),
        Some(&objects),
    );
    assert_eq!(found, vec![3, 5, 7]);
}

#[test]
fn run_indices_fall_back_to_named_vector_objects() {
    let objects = vec![
        VectorTextRef { id: "t1".to_string(), z_index: 12 },
        VectorTextRef { id: "t2".to_string(), z_index: 4 },
        VectorTextRef { id: "t3".to_string(), z_index: 12 },
        VectorTextRef { id: "t4".to_string(), z_index: 1 },
    ];
    let found = collect_run_indices(
        &vec![vec![], vec![]],
        &ids(&[&["t3", "t1"], &["t2"]]),
        Some(&objects),
    );
    assert_eq!(found, vec![4, 12]);
    assert!(collect_run_indices(&vec![vec![]], &ids(&[&["t1"]]), None).is_empty());
    assert!(collect_run_indices(&vec![vec![]], &ids(&[&[]]), Some(&objects)).is_empty());
}

#[test]
fn rich_patch_for_a_paragraph() {
    let patch = build_rich_patch(
        "p-3",
        2,
        "Old".to_string(),
        "New".to_string(),
        None,
        vec![4, 6],
        "{\"s\":1}".to_string(),
        LayoutAlignment::Center,
    );
    assert_eq!(patch.patch_key, "paragraph:p-3");
    assert_eq!(patch.region_id, "p-3");
    assert_eq!(patch.source, "paragraph-region");
    assert_eq!(patch.kind.as_deref(), Some("paragraph"));
    assert_eq!(patch.marker_text, None);
    assert_eq!(patch.target_indices, vec![4, 6]);
    assert!(patch.full_target_indices.is_empty());
    assert_eq!(patch.snapshot.as_deref(), Some("{\"s\":1}"));
    assert_eq!(patch.align, Some(LayoutAlignment::Center));
    assert_eq!(patch.page_index, 2);
}

#[test]
fn rich_patch_for_a_list_item_covers_marker_objects() {
    let marker = SceneMarkerSource {
        text: "●".to_string(),
        run_object_indices: vec![vec![9, 2]],
    };
    let patch = build_rich_patch(
        "li-1",
        0,
        "Body".to_string(),
        "Body!".to_string(),
        Some(&marker),
        vec![4, 9],
        "{}".to_string(),
        LayoutAlignment::Left,
    );
    assert_eq!(patch.patch_key, "list-item:li-1");
    assert_eq!(patch.source, "list-item-region");
    assert_eq!(patch.kind.as_deref(), Some("list-item"));
    assert_eq!(patch.marker_text.as_deref(), Some("●"));
    assert_eq!(patch.target_indices, vec![4, 9]);
    assert_eq!(patch.full_target_indices, vec![2, 4, 9]);
}

#[test]
fn source_object_order_keeps_first_occurrences() {
    let order = resolve_vector_source_object_order(
        &ids(&[&["b", "a"], &["a", "c", "b"]]),
        &ids(&[&["z"]]),
    );
    assert_eq!(order, vec!["b", "a", "c"]);
}

#[test]
fn source_object_order_falls_back_to_the_session() {
    let order = resolve_vector_source_object_order(
        &ids(&[&[], &[]]),
        &ids(&[&["s2", "s1"], &["s2"]]),
    );
    assert_eq!(order, vec!["s2", "s1"]);
    assert!(resolve_vector_source_object_order(&ids(&[]), &ids(&[])).is_empty());
}

#[test]
fn collects_marker_run_source_identity() {
    // original runs, scene body runs, plan body runs, editor session runs, marker runs
    let id_groups = vec![
        ids(&[]),
        ids(&[]),
        ids(&[]),
        ids(&[]),
        ids(&[&["marker-object"]]),
    ];
    let index_groups = vec![vec![], vec![], vec![], vec![], vec![vec![41]]];

    let object_ids = collect_target_source_object_ids(&id_groups);
    let object_indices = collect_target_source_object_indices(&index_groups);

    assert!(object_ids.contains(&"marker-object".to_string()));
    assert!(object_indices.contains(&41));
}

#[test]
fn target_source_identity_merges_all_groups() {
    let id_groups = vec![ids(&[&["a", "b"]]), ids(&[&["b"], &["c"]]), ids(&[&["a"]])];
    assert_eq!(collect_target_source_object_ids(&id_groups), vec!["a", "b", "c"]);
    let index_groups = vec![vec![vec![5, 1]], vec![vec![], vec![3, 5]]];
    assert_eq!(collect_target_source_object_indices(&index_groups), vec![1, 3, 5]);
}
