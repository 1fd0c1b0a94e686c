use pdf_viewer_core::source_text::{
    boundary_needs_visual_space, needs_compact_text_space, normalize_compact_pdf_text,
    starts_with_compact_word_boundary,
};

#[test]
fn compact_pdf_text_restores_resume_word_boundaries() {
    assert_eq!(
        normalize_compact_pdf_text("智能合约:AnchorFramework,SolanaProgramLibrary(SPL),ERC-20/721"),
        "智能合约: Anchor Framework, Solana Program Library (SPL), ERC-20/721"
    );
}

#[test]
fn compact_pdf_text_does_not_split_acronyms() {
    let text = normalize_compact_pdf_text("SPL,ERC-20/721");
    assert_eq!(text, "SPL, ERC-20/721");
    assert!(!text.contains("S PL"));
    assert!(!text.contains("ER C"));
}

#[test]
fn keeps_technical_names() {
    let text = normalize_compact_pdf_text("SpringBoot,MyBatisPlus");
    assert_eq!(text, "SpringBoot, MyBatisPlus");
}

#[test]
fn visual_space_boundaries() {
    assert!(boundary_needs_visual_space(':', 'a'));
    assert!(boundary_needs_visual_space('）', 'x'));
    assert!(boundary_needs_visual_space('a', 'B'));
    assert!(boundary_needs_visual_space('3', 'x'));
    assert!(!boundary_needs_visual_space('a', 'b'));
    assert!(!boundary_needs_visual_space(':', ' '));
    assert!(!boundary_needs_visual_space('\u{3000}', '('));
}

#[test]
fn compact_space_positions() {
    let chars: Vec<char> = "aLibrary".chars().collect();
    assert!(starts_with_compact_word_boundary(&chars, 1));
    assert!(!starts_with_compact_word_boundary(&chars, 2));
    assert!(needs_compact_text_space(&chars, 1));
    assert!(!needs_compact_text_space(&chars, 0));
    let short: Vec<char> = "aLib".chars().collect();
    assert!(!needs_compact_text_space(&short, 1));
    assert_eq!(normalize_compact_pdf_text("plain text"), "plain text");
    assert_eq!(normalize_compact_pdf_text("f(x)"), "f (x)");
}

#[test]
fn whitespace_test_agrees_with_std_on_every_char() {
    for code in 0u32..=0x10FFFF {
        if let Some(c) = char::from_u32(code) {
            assert_eq!(boundary_needs_visual_space(c, '('), !c.is_whitespace(), "{:#x}", code);
        }
    }
}

#[test]
fn normalizing_twice_changes_nothing_more() {
    for text in [
        "智能合约:AnchorFramework,SolanaProgramLibrary(SPL),ERC-20/721",
        "a:b,c;d(e)f",
        "UseFrameworkProgramLibrary",
        "x: y",
        "",
    ] {
        let once = normalize_compact_pdf_text(text);
        assert_eq!(normalize_compact_pdf_text(&once), once);
    }
}

#[test]
fn no_space_is_needed_at_the_start_of_an_empty_text() {
    assert!(!needs_compact_text_space(&[], 0));
}
