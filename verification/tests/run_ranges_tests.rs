use pdf_viewer_core::editor_state::ListMarkerKind;
use pdf_viewer_core::run_ranges::{
    choose_marker_cut, marker_strategy_after_split, MarkerStrategy,
    detect_symbolic_font_marker, find_source_run_index_at_char, plan_char_range_slices,
    plan_marker_split, select_style_run, split_runs_by_body_start, RunPlacement,
};

#[test]
fn split_assigns_runs_by_character_position() {
    // "● " | "Bo" | "dy"  with the body starting at character 2
    let plan = plan_marker_split(&vec![2, 2, 2], 2).expect("body left");
    assert_eq!(plan, vec![RunPlacement::Marker, RunPlacement::Body, RunPlacement::Body]);

    let plan = plan_marker_split(&vec![3, 4], 2).expect("body left");
    assert_eq!(plan, vec![RunPlacement::Split(2), RunPlacement::Body]);

    let plan = plan_marker_split(&vec![1, 0, 3, 2], 3).expect("body left");
    assert_eq!(
        plan,
        vec![
            RunPlacement::Marker,
            RunPlacement::Marker,
            RunPlacement::Split(2),
            RunPlacement::Body
        ]
    );
}

#[test]
fn split_at_zero_keeps_everything_in_the_body() {
    let plan = plan_marker_split(&vec![2, 3], 0).expect("whole body");
    assert_eq!(plan, vec![RunPlacement::Body, RunPlacement::Body]);
}

#[test]
fn split_without_body_characters_fails() {
    assert_eq!(plan_marker_split(&vec![2, 3], 5), None);
    assert_eq!(plan_marker_split(&vec![2, 3], 9), None);
    assert_eq!(plan_marker_split(&vec![], 1), None);
}

#[test]
fn symbol_font_marker_body_starts_after_spaces() {
    let texts = vec!["\u{F0B7}".to_string(), "  Body".to_string()];
    assert_eq!(
        detect_symbolic_font_marker(&texts, &vec![true, false]),
        Some((3, ListMarkerKind::Symbol))
    );
}

#[test]
fn symbol_font_marker_skips_empty_runs() {
    let texts = vec![
        String::new(),
        "\u{F0A7}".to_string(),
        String::new(),
        "\u{F0A7}".to_string(),
        "Body".to_string(),
    ];
    assert_eq!(
        detect_symbolic_font_marker(&texts, &vec![false, true, false, true, false]),
        Some((2, ListMarkerKind::Symbol))
    );
}

#[test]
fn symbol_font_marker_needs_two_text_runs_and_a_symbol_first() {
    assert_eq!(
        detect_symbolic_font_marker(&vec!["\u{F0B7} Body".to_string()], &vec![true]),
        None
    );
    assert_eq!(
        detect_symbolic_font_marker(
            &vec!["Body".to_string(), "\u{F0B7}".to_string()],
            &vec![false, true]
        ),
        None
    );
    assert_eq!(
        detect_symbolic_font_marker(
            &vec!["\u{F0B7}".to_string(), "   ".to_string()],
            &vec![true, false]
        ),
        None
    );
}

#[test]
fn run_at_char() {
    let counts = vec![3, 0, 2, 4];
    assert_eq!(find_source_run_index_at_char(&counts, 0), Some(0));
    assert_eq!(find_source_run_index_at_char(&counts, 2), Some(0));
    assert_eq!(find_source_run_index_at_char(&counts, 3), Some(2));
    assert_eq!(find_source_run_index_at_char(&counts, 5), Some(3));
    assert_eq!(find_source_run_index_at_char(&counts, 8), Some(3));
    assert_eq!(find_source_run_index_at_char(&counts, 9), None);
    assert_eq!(find_source_run_index_at_char(&vec![], 0), None);
}

#[test]
fn range_slices() {
    let counts = vec![3, 0, 2, 4];
    let slices: Vec<(usize, usize, usize)> = plan_char_range_slices(&counts, 2, 7)
        .iter()
        .map(|s| (s.run, s.from, s.to))
        .collect();
    assert_eq!(slices, vec![(0, 2, 3), (2, 0, 2), (3, 0, 2)]);

    let whole: Vec<(usize, usize, usize)> = plan_char_range_slices(&counts, 0, 100)
        .iter()
        .map(|s| (s.run, s.from, s.to))
        .collect();
    assert_eq!(whole, vec![(0, 0, 3), (2, 0, 2), (3, 0, 4)]);

    assert!(plan_char_range_slices(&counts, 4, 4).is_empty());
    assert!(plan_char_range_slices(&counts, 5, 2).is_empty());
    assert!(plan_char_range_slices(&counts, 9, 12).is_empty());
}

fn texts(ts: &[&str]) -> Vec<String> {
    ts.iter().map(|t| t.to_string()).collect()
}

#[test]
fn split_pieces_cut_the_line_at_the_body_start() {
    let (marker, body) = split_runs_by_body_start(&texts(&["●", " Bo", "dy"]), 2, "l1");
    let m: Vec<(String, usize, String)> =
        marker.into_iter().map(|p| (p.id, p.run_index, p.text)).collect();
    let b: Vec<(String, usize, String)> =
        body.into_iter().map(|p| (p.id, p.run_index, p.text)).collect();
    assert_eq!(
        m,
        vec![
            ("l1::marker::0".to_string(), 0, "●".to_string()),
            ("l1::marker::1".to_string(), 1, " ".to_string()),
        ]
    );
    assert_eq!(
        b,
        vec![
            ("l1::body::1".to_string(), 1, "Bo".to_string()),
            ("l1::body::2".to_string(), 2, "dy".to_string()),
        ]
    );
}

#[test]
fn split_pieces_at_the_ends() {
    let (marker, body) = split_runs_by_body_start(&texts(&["ab", "cd"]), 0, "k");
    assert!(marker.is_empty());
    assert_eq!(body.len(), 2);
    let (marker, body) = split_runs_by_body_start(&texts(&["ab", "cd"]), 9, "k");
    assert_eq!(marker.len(), 2);
    assert!(body.is_empty());
    let (marker, body) = split_runs_by_body_start(&texts(&["", "abc"]), 0, "k");
    assert_eq!(marker.len(), 1);
    assert_eq!(marker[0].text, "");
    assert_eq!(body[0].text, "abc");
}

#[test]
fn style_run_is_the_nearest_good_run() {
    let counts = vec![2, 2, 2, 2];
    // anchor run 1 is good
    assert_eq!(select_style_run(&counts, &vec![false, true, false, false], 2), Some(1));
    // anchor run 2 is not: the run before wins over the run after at the same distance
    assert_eq!(select_style_run(&counts, &vec![false, true, false, true], 4), Some(1));
    assert_eq!(select_style_run(&counts, &vec![true, false, false, true], 4), Some(3));
    assert_eq!(select_style_run(&counts, &vec![true, false, false, false], 7), Some(0));
    assert_eq!(select_style_run(&counts, &vec![false, false, false, false], 3), None);
    // past the text: no anchor run
    assert_eq!(select_style_run(&counts, &vec![true, true, true, true], 8), None);
}

#[test]
fn marker_cut_prefers_the_list_semantics() {
    let texts = vec!["\u{F0B7}".to_string(), "  Body".to_string()];
    let symbolic = vec![true, false];
    assert_eq!(
        choose_marker_cut(true, 2, ListMarkerKind::Bullet, &texts, &symbolic),
        Some((2, ListMarkerKind::Bullet, MarkerStrategy::Semantic))
    );
    assert_eq!(
        choose_marker_cut(true, 0, ListMarkerKind::Bullet, &texts, &symbolic),
        Some((3, ListMarkerKind::Symbol, MarkerStrategy::SymbolicFont))
    );
    assert_eq!(
        choose_marker_cut(false, 2, ListMarkerKind::Bullet, &texts, &symbolic),
        Some((3, ListMarkerKind::Symbol, MarkerStrategy::SymbolicFont))
    );
    let plain = vec!["Body".to_string()];
    assert_eq!(choose_marker_cut(false, 0, ListMarkerKind::NoMarker, &plain, &vec![false]), None);
}

#[test]
fn geometric_strategies_only_fill_a_missing_marker() {
    assert_eq!(marker_strategy_after_split(MarkerStrategy::Semantic, true, true, true), MarkerStrategy::Semantic);
    assert_eq!(marker_strategy_after_split(MarkerStrategy::Semantic, false, true, true), MarkerStrategy::Geometric);
    assert_eq!(marker_strategy_after_split(MarkerStrategy::NoStrategy, false, false, true), MarkerStrategy::CrossParagraph);
    assert_eq!(marker_strategy_after_split(MarkerStrategy::SymbolicFont, false, false, false), MarkerStrategy::SymbolicFont);
    assert_eq!(marker_strategy_after_split(MarkerStrategy::NoStrategy, false, false, false), MarkerStrategy::NoStrategy);
}
