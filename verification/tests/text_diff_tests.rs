use pdf_viewer_core::text_diff::{build_index_map, compute_text_diff, remap_caret_indices_to_draft_space};

#[test]
fn test_build_index_map_no_spaces() {
    let source_text = "HelloWorld";
    let runs_text = "HelloWorld";
    let (s_to_r, r_to_s) = build_index_map(source_text, runs_text);
    assert_eq!(s_to_r, (0..=10).collect::<Vec<_>>());
    assert_eq!(r_to_s, (0..=10).collect::<Vec<_>>());
}

#[test]
fn test_build_index_map_with_synthetic_spaces() {
    let source_text = "Hello World";
    let runs_text = "HelloWorld";
    let (s_to_r, r_to_s) = build_index_map(source_text, runs_text);
    assert_eq!(s_to_r, vec![0, 1, 2, 3, 4, 5, 5, 6, 7, 8, 9, 10]);
    assert_eq!(r_to_s, vec![0, 1, 2, 3, 4, 6, 7, 8, 9, 10, 11]);
}

#[test]
fn test_build_index_map_with_real_spaces() {
    let source_text = "Hello World";
    let runs_text = "Hello World";
    let (s_to_r, r_to_s) = build_index_map(source_text, runs_text);
    assert_eq!(s_to_r, (0..=11).collect::<Vec<_>>());
    assert_eq!(r_to_s, (0..=11).collect::<Vec<_>>());
}

#[test]
fn test_build_index_map_mixed_spaces() {
    let source_text = "编程语言: Rust";
    let runs_text = "编程语言:Rust";
    let (s_to_r, r_to_s) = build_index_map(source_text, runs_text);
    assert_eq!(s_to_r.len(), 11);
    assert_eq!(r_to_s.len(), 10);
    assert_eq!(s_to_r[5], 5);
    assert_eq!(s_to_r[6], 5);
    assert_eq!(r_to_s[5], 6);
}

#[test]
fn test_build_index_map_deletion_middle() {
    let source_text = "Rst";
    let runs_text = "Rust";
    let (s_to_r, r_to_s) = build_index_map(source_text, runs_text);
    assert_eq!(s_to_r, vec![0, 2, 3, 4]);
    assert_eq!(r_to_s, vec![0, 1, 1, 2, 3]);
}

#[test]
fn test_build_index_map_insertion_middle() {
    let source_text = "Rust";
    let runs_text = "Rst";
    let (s_to_r, r_to_s) = build_index_map(source_text, runs_text);
    assert_eq!(s_to_r, vec![0, 1, 1, 2, 3]);
    assert_eq!(r_to_s, vec![0, 2, 3, 4]);
}

#[test]
fn test_build_index_map_mixed_real_synthetic() {
    let source_text = "A  B";
    let runs_text = "A B";
    let (s_to_r, r_to_s) = build_index_map(source_text, runs_text);
    assert_eq!(s_to_r, vec![0, 1, 2, 2, 3]);
    assert_eq!(r_to_s, vec![0, 1, 3, 4]);
}

#[test]
fn maps_synthetic_spaces() {
    let source = "编程语言: Rust";
    let runs = "编程语言:Rust";
    let (_, inv) = build_index_map(source, runs);
    assert_eq!(inv, vec![0, 1, 2, 3, 4, 6, 7, 8, 9, 10]);
}

#[test]
fn clamps_missing_source_chars() {
    let source = "Ru";
    let runs = "Rust";
    let (_, inv) = build_index_map(source, runs);
    assert_eq!(inv.len(), 5);
    assert_eq!(inv, vec![0, 1, 2, 2, 2]);
    let source_len = source.chars().count();
    for v in &inv {
        assert!(*v <= source_len, "inverse value {} exceeds source_len {}", v, source_len);
    }
}

#[test]
fn index_map_both_sides_mismatch_realigns_on_nearer_side() {
    // 'x' never occurs in the runs and 'y' never in the source: both cursors step together.
    let (s_to_r, r_to_s) = build_index_map("axb", "ayb");
    assert_eq!(s_to_r, vec![0, 1, 2, 3]);
    assert_eq!(r_to_s, vec![0, 1, 2, 3]);
    // Empty texts map end to end.
    let (s_to_r, r_to_s) = build_index_map("", "ab");
    assert_eq!(s_to_r, vec![2]);
    assert_eq!(r_to_s, vec![0, 0, 0]);
}

#[test]
fn text_diff_finds_edited_span() {
    let diff = compute_text_diff("Hello World", "Hello Brave World");
    assert_eq!(diff.prefix_len, 6);
    assert_eq!(diff.suffix_len, 5);
    assert_eq!(diff.source_len, 11);
    assert_eq!(diff.draft_len, 17);
    assert_eq!(diff.inserted_start(), 6);
    assert_eq!(diff.inserted_end(), 12);
    assert!(diff.has_inserted());

    let same = compute_text_diff("abc", "abc");
    assert_eq!(same.prefix_len, 3);
    assert_eq!(same.suffix_len, 0);
    assert!(!same.has_inserted());

    // Deletion only: no inserted span, suffix does not overlap the prefix.
    let deleted = compute_text_diff("aaa", "aa");
    assert_eq!(deleted.prefix_len, 2);
    assert_eq!(deleted.suffix_len, 0);
    assert!(!deleted.has_inserted());
}

#[test]
fn test_remap_caret_indices() {
    let mut caret_lines = vec![vec![0usize, 5, 10]];
    remap_caret_indices_to_draft_space(&mut caret_lines, "HelloWorld", "Hello World");
    let stops = &caret_lines[0];
    assert_eq!(stops[0], 0);
    assert_eq!(stops[1], 6);
    assert_eq!(stops[2], 11);
}

#[test]
fn remap_caret_indices_clamps_deleted_suffix_stops() {
    let mut caret_lines = vec![vec![0usize, 1, 2, 3, 4]];
    remap_caret_indices_to_draft_space(&mut caret_lines, "Rust", "Ru");
    assert_eq!(caret_lines[0], vec![0, 1, 2, 2, 2]);
}

#[test]
fn remap_caret_indices_handles_multiple_synthetic_gaps() {
    let mut caret_lines = vec![vec![0usize, 1, 2, 3]];
    remap_caret_indices_to_draft_space(&mut caret_lines, "ABC", "A B C");
    assert_eq!(caret_lines[0], vec![0, 2, 4, 5]);
}

#[test]
fn remap_keeps_stops_of_equal_texts_and_stops_past_the_map() {
    let mut caret_lines = vec![vec![0usize, 3, 7], vec![2]];
    remap_caret_indices_to_draft_space(&mut caret_lines, "abc", "abc");
    assert_eq!(caret_lines, vec![vec![0, 3, 7], vec![2]]);

    let mut lines = vec![vec![9usize], vec![1]];
    remap_caret_indices_to_draft_space(&mut lines, "AB", "A B");
    assert_eq!(lines, vec![vec![9], vec![2]]);
}

#[test]
fn body_runs_spell_the_source_text() {
    let runs = vec!["编程语言:".to_string(), "Rust".to_string()];
    assert_eq!(pdf_viewer_core::text_diff::body_runs_text(&runs), "编程语言:Rust");
    assert!(pdf_viewer_core::text_diff::body_runs_match_source_text(&runs, "编程语言:Rust"));
    assert!(!pdf_viewer_core::text_diff::body_runs_match_source_text(&runs, "编程语言: Rust"));
    assert!(pdf_viewer_core::text_diff::body_runs_match_source_text(&vec![], ""));
}

#[test]
fn no_edited_span_exactly_when_a_block_was_removed() {
    assert!(!compute_text_diff("Rust", "Rst").has_inserted());
    assert!(!compute_text_diff("Rust", "Rt").has_inserted());
    assert!(!compute_text_diff("Rust", "").has_inserted());
    assert!(!compute_text_diff("Rust", "Rust").has_inserted());
    assert!(compute_text_diff("Ru", "Rust").has_inserted());
    assert!(compute_text_diff("Rust", "Rxst").has_inserted());
    assert!(compute_text_diff("Rust", "tsuR").has_inserted());
}

#[test]
fn one_synthesized_space_maps_to_the_next_character() {
    let (s_to_r, r_to_s) = build_index_map("ab cd", "abcd");
    assert_eq!(s_to_r, vec![0, 1, 2, 2, 3, 4]);
    assert_eq!(r_to_s, vec![0, 1, 3, 4, 5]);
    let (s_to_r, r_to_s) = build_index_map("abcd ", "abcd");
    assert_eq!(s_to_r, vec![0, 1, 2, 3, 4, 4]);
    assert_eq!(r_to_s, vec![0, 1, 2, 3, 5]);
}

#[test]
fn several_synthesized_spaces_map_to_the_characters_they_precede() {
    let (s_to_r, r_to_s) = build_index_map("a  b c", "abc");
    assert_eq!(s_to_r, vec![0, 1, 1, 1, 2, 2, 3]);
    assert_eq!(r_to_s, vec![0, 3, 5, 6]);
    let (s_to_r, r_to_s) = build_index_map("ab  ", "ab");
    assert_eq!(s_to_r, vec![0, 1, 2, 2, 2]);
    assert_eq!(r_to_s, vec![0, 1, 4]);
}
