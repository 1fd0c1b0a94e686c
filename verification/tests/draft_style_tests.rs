use pdf_viewer_core::draft_style::plan_draft_styles;

fn texts(parts: &[&str]) -> Vec<String> {
    parts.iter().map(|p| p.to_string()).collect()
}

#[test]
fn insertion_after_a_synthesized_space_is_cut_in_run_space() {
    let plan = plan_draft_styles("ab cd", "ab Xcd", &texts(&["ab", "cd"]));
    assert_eq!(plan.diff.prefix_len, 3);
    assert_eq!(plan.diff.suffix_len, 2);
    assert_eq!(plan.runs_total_chars, 4);
    assert_eq!(plan.prefix_runs_end, 2);
    assert_eq!(plan.suffix_runs_start, 2);
    assert_eq!(plan.anchor_runs_index, Some(2));
    assert_eq!(plan.inserted_text, "X");
}

#[test]
fn unchanged_draft_keeps_all_runs_and_inserts_nothing() {
    let plan = plan_draft_styles("abc", "abc", &texts(&["a", "bc"]));
    assert_eq!(plan.prefix_runs_end, 3);
    assert_eq!(plan.suffix_runs_start, 3);
    assert_eq!(plan.anchor_runs_index, None);
    assert_eq!(plan.inserted_text, "");
}

#[test]
fn replacement_in_matching_runs_uses_the_identity() {
    let plan = plan_draft_styles("hello world", "hello there world", &texts(&["hello ", "world"]));
    assert_eq!(plan.diff.prefix_len, 6);
    assert_eq!(plan.prefix_runs_end, 6);
    assert_eq!(plan.suffix_runs_start, 6);
    assert_eq!(plan.anchor_runs_index, Some(5));
    assert_eq!(plan.inserted_text, "there ");
}

#[test]
fn insertion_at_the_start_takes_the_first_character_style() {
    let plan = plan_draft_styles("abc", "Zabc", &texts(&["abc"]));
    assert_eq!(plan.diff.prefix_len, 0);
    assert_eq!(plan.anchor_runs_index, Some(0));
    assert_eq!(plan.inserted_text, "Z");
    assert_eq!(plan.suffix_runs_start, 0);
}
