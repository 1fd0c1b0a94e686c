use pdf_viewer_core::page_models::{decompress_palette, PathColors, VectorPalette};

fn path(fill_color: Option<&str>, stroke_color: Option<&str>) -> PathColors {
    PathColors {
        fill_color: fill_color.map(|s| s.to_string()),
        stroke_color: stroke_color.map(|s| s.to_string()),
        fill_color_index: None,
        stroke_color_index: None,
    }
}

fn palette(colors: &[&str]) -> VectorPalette {
    VectorPalette {
        colors: colors.iter().map(|c| c.to_string()).collect(),
    }
}

#[test]
fn decompress_palette_resolves_fill_color_index() {
    let mut paths = vec![PathColors {
        fill_color_index: Some(0),
        ..path(None, None)
    }];
    decompress_palette(&palette(&["#0000ff"]), &mut paths);
    assert_eq!(paths[0].fill_color.as_deref(), Some("#0000ff"));
    assert_eq!(paths[0].fill_color_index, None);
}

#[test]
fn decompress_palette_resolves_stroke_color_index() {
    let mut paths = vec![PathColors {
        stroke_color_index: Some(1),
        ..path(None, None)
    }];
    decompress_palette(&palette(&["#ff0000", "#00ff00"]), &mut paths);
    assert_eq!(paths[0].stroke_color.as_deref(), Some("#00ff00"));
    assert_eq!(paths[0].stroke_color_index, None);
}

#[test]
fn decompress_palette_handles_empty_palette() {
    let mut paths = vec![path(Some("#aaa"), None)];
    decompress_palette(&VectorPalette::default(), &mut paths);
    assert_eq!(paths[0].fill_color.as_deref(), Some("#aaa"));
}

#[test]
fn decompress_palette_preserves_inline_colors() {
    let mut paths = vec![path(Some("#123456"), None)];
    decompress_palette(&palette(&["#ff0000"]), &mut paths);
    assert_eq!(paths[0].fill_color.as_deref(), Some("#123456"));
}

#[test]
fn decompress_palette_out_of_range_index_does_not_panic() {
    let mut paths = vec![PathColors {
        fill_color_index: Some(99),
        ..path(None, None)
    }];
    decompress_palette(&palette(&["#fff"]), &mut paths);
    assert_eq!(paths[0].fill_color, None);
    assert_eq!(paths[0].fill_color_index, None);
}

#[test]
fn decompress_palette_multiple_paths() {
    let mut paths = vec![
        PathColors {
            fill_color_index: Some(0),
            stroke_color_index: Some(2),
            ..path(None, None)
        },
        path(Some("#inline"), None),
        PathColors {
            stroke_color_index: Some(1),
            ..path(None, None)
        },
    ];
    decompress_palette(&palette(&["#aaa", "#bbb", "#ccc"]), &mut paths);
    assert_eq!(paths[0].fill_color.as_deref(), Some("#aaa"));
    assert_eq!(paths[0].stroke_color.as_deref(), Some("#ccc"));
    assert_eq!(paths[1].fill_color.as_deref(), Some("#inline"));
    assert_eq!(paths[2].stroke_color.as_deref(), Some("#bbb"));
}

#[test]
fn empty_palette_keeps_indices() {
    let mut paths = vec![PathColors {
        fill_color_index: Some(3),
        ..path(None, None)
    }];
    decompress_palette(&VectorPalette::default(), &mut paths);
    assert_eq!(paths[0].fill_color_index, Some(3));
}
