use pdf_viewer_core::page_text::{
    infer_scene_hint, join_line_texts, paragraph_region_id, plan_style_runs, read_object_display_text,
    run_object_indices, split_key_value_text, text_or_object_text, trim_text,
};

#[test]
fn display_text_prefers_runs() {
    let runs = vec!["Hel".to_string(), "lo".to_string()];
    assert_eq!(read_object_display_text(&runs, "ignored"), "Hello");
    assert_eq!(read_object_display_text(&Vec::new(), "own text"), "own text");
}

#[test]
fn key_value_split_prefers_full_width_colon() {
    assert_eq!(
        split_key_value_text("姓名：张三"),
        ("姓名".to_string(), "张三".to_string())
    );
    assert_eq!(
        split_key_value_text("Time: 10:30"),
        ("Time".to_string(), " 10:30".to_string())
    );
    assert_eq!(
        split_key_value_text("a:b：c"),
        ("a:b".to_string(), "c".to_string())
    );
    assert_eq!(split_key_value_text("no colon"), ("no colon".to_string(), String::new()));
    assert_eq!(split_key_value_text(":"), (String::new(), String::new()));
}

#[test]
fn trimming() {
    assert_eq!(trim_text("  a b \n"), "a b");
    assert_eq!(trim_text("\t \n"), "");
    assert_eq!(trim_text("x"), "x");
    assert_eq!(trim_text("\u{3000}全角\u{3000}"), "全角");
}

#[test]
fn scene_hints() {
    let resume = vec!["张三".to_string(), " 求职意向 ".to_string()];
    assert_eq!(infer_scene_hint(&resume), "resume");
    let form = vec!["姓名".to_string(), "电话".to_string()];
    assert_eq!(infer_scene_hint(&form), "form-like");
    let generic = vec!["Invoice".to_string(), "Total".to_string()];
    assert_eq!(infer_scene_hint(&generic), "generic");
    // tokens split across two objects do not count
    let split = vec!["简".to_string(), "历".to_string()];
    assert_eq!(infer_scene_hint(&split), "generic");
}

#[test]
fn scene_hint_reads_only_the_first_forty_objects() {
    let mut texts: Vec<String> = (0..40).map(|i| format!("line {i}")).collect();
    texts.push("简历".to_string());
    assert_eq!(infer_scene_hint(&texts), "generic");
    texts.insert(0, "教育背景".to_string());
    assert_eq!(infer_scene_hint(&texts), "resume");
}

#[test]
fn style_runs_skip_empty_runs_and_count_characters() {
    let runs = vec!["Hé".to_string(), String::new(), "llo".to_string()];
    let plans = plan_style_runs("line-3", &runs, "ignored");
    assert_eq!(plans.len(), 2);
    assert_eq!(plans[0].id, "line-3::run::0");
    assert_eq!(plans[0].text, "Hé");
    assert_eq!((plans[0].start, plans[0].end), (0, 2));
    assert_eq!(plans[0].run_index, Some(0));
    assert_eq!(plans[1].id, "line-3::run::2");
    assert_eq!((plans[1].start, plans[1].end), (2, 5));
    assert_eq!(plans[1].run_index, Some(2));
}

#[test]
fn object_without_runs_gives_one_whole_run() {
    let plans = plan_style_runs("l", &Vec::new(), "Total: 12");
    assert_eq!(plans.len(), 1);
    assert_eq!(plans[0].id, "l::run::0");
    assert_eq!(plans[0].text, "Total: 12");
    assert_eq!((plans[0].start, plans[0].end), (0, 9));
    assert_eq!(plans[0].run_index, None);
    let empty_runs = plan_style_runs("l", &vec![String::new()], "own");
    assert_eq!(empty_runs.len(), 1);
    assert_eq!(empty_runs[0].text, "");
}

#[test]
fn run_styles_fall_back_to_the_object() {
    assert_eq!(text_or_object_text("", "Helvetica"), "Helvetica");
    assert_eq!(text_or_object_text("Times", "Helvetica"), "Times");
    assert_eq!(run_object_indices(4, &vec![2, 4]), vec![4]);
    assert_eq!(run_object_indices(0, &vec![7]), vec![7]);
    assert_eq!(run_object_indices(0, &vec![7, 8]), vec![0]);
    assert_eq!(run_object_indices(5, &vec![]), vec![5]);
}

#[test]
fn paragraph_region_ids_and_text() {
    assert_eq!(
        paragraph_region_id(2, 0, Some((Some("para-9".to_string()), "obj-1".to_string()))),
        "para-9"
    );
    assert_eq!(paragraph_region_id(2, 0, Some((None, "obj-1".to_string()))), "obj-1");
    assert_eq!(paragraph_region_id(2, 0, None), "paragraph-2-0");
    assert_eq!(
        join_line_texts(&vec!["one".to_string(), "two".to_string(), "".to_string()]),
        "one\ntwo\n"
    );
    assert_eq!(join_line_texts(&Vec::new()), "");
}
