use pdf_viewer_core::line_break::{find_run_at_text_offset, is_no_end, is_no_start, run_breaks_line};

#[test]
fn cjk_punctuation_sets() {
    for c in ['。', '，', '、', '！', '）', '」', '.', ',', '!', ')', '%', '~', '’'] {
        assert!(is_no_start(c), "{c}");
    }
    for c in ['(', '「', '《', '$', '@', '¥', '’'] {
        assert!(is_no_end(c), "{c}");
    }
    assert!(!is_no_start('世'));
    assert!(!is_no_start('a'));
    assert!(!is_no_end('。'));
    assert!(!is_no_end('（'));
    assert!(!is_no_end('x'));
}

#[test]
fn no_start_punctuation_is_pulled_back_onto_the_line() {
    // "Hello" | "世界" | "。" with room for three runs of width 10 minus a bit:
    // "。" would start the third line but is pulled back onto the line.
    assert!(!run_breaks_line(false, false, Some('。'), Some('界')));
    assert!(run_breaks_line(false, false, Some('世'), Some('o')));
    assert!(!run_breaks_line(true, false, Some('世'), Some('o')));
    assert!(!run_breaks_line(false, true, Some('世'), None));
    assert!(!run_breaks_line(false, false, Some('A'), Some('(')));
}

#[test]
fn run_at_text_offset() {
    let lines = vec![vec![3, 2], vec![4]];
    assert_eq!(find_run_at_text_offset(&lines, 0), (0, 0, 0));
    assert_eq!(find_run_at_text_offset(&lines, 3), (0, 0, 3));
    assert_eq!(find_run_at_text_offset(&lines, 4), (0, 1, 1));
    assert_eq!(find_run_at_text_offset(&lines, 5), (0, 1, 2));
    assert_eq!(find_run_at_text_offset(&lines, 6), (1, 0, 1));
    assert_eq!(find_run_at_text_offset(&lines, 9), (1, 0, 4));
    assert_eq!(find_run_at_text_offset(&lines, 50), (1, 0, 4));
    assert_eq!(find_run_at_text_offset(&vec![], 5), (0, 0, 0));
    assert_eq!(find_run_at_text_offset(&vec![vec![2], vec![]], 7), (1, 0, 0));
}
