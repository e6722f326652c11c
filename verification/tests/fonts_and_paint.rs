use mado::appearance::{
    contains_japanese, contains_private_use, cursor_cell_columns, cursor_color, font_name_for_role,
    font_role_for_text, ime_available_columns, is_icon_font_family, is_unified_font_family,
    TextFontRole,
};
use mado::grid::GridState;
use mado::redraw::{CursorShape, CursorStyle, GridCell, HighlightAttrs, RedrawEvent};
use mado::render_plan::{
    block_cursor_column, cell_draws_text, cell_paint, cursor_paint, glyph_color, preedit_cursor_offset,
    grown_vertex_capacity, preedit_font, preedit_paint, row_is_current, translucent_alpha_mode,
    uses_basic_shaping, AlphaMode, SelectionMark,
};

fn one_row_grid(width: u64, text: &str, col: u64) -> GridState {
    let mut grid = GridState::default();
    grid.apply(&RedrawEvent::GridResize { grid: 1, width, height: 1 });
    grid.apply(&RedrawEvent::GridLine {
        grid: 1,
        row: 0,
        col_start: 0,
        cells: vec![GridCell { text: text.into(), highlight_id: Some(0), repeat: 1 }],
        wrap: false,
    });
    grid.apply(&RedrawEvent::GridCursorGoto { grid: 1, row: 0, col });
    grid
}

#[test]
fn prefers_japanese_fallback_only_for_japanese_text() {
    assert_eq!(font_role_for_text("日本語", false, true, true), TextFontRole::JapaneseFallback);
    assert_eq!(font_role_for_text("\u{f07c}", false, true, true), TextFontRole::IconFallback);
    assert_eq!(font_role_for_text("plain ASCII", false, true, true), TextFontRole::Primary);
    assert_eq!(font_role_for_text("日本語", true, true, true), TextFontRole::Primary);
}

#[test]
fn expands_cursor_to_cover_a_wide_character() {
    let grid = one_row_grid(3, "日", 0);
    assert_eq!(cursor_cell_columns(&grid), 2);
}

#[test]
fn recognizes_japanese_text() {
    assert!(contains_japanese("日本語入力"));
    assert!(contains_japanese("ひらがな"));
    assert!(!contains_japanese("plain ASCII"));
}

#[test]
fn recognizes_nerd_font_private_use_characters() {
    assert!(contains_private_use("\u{f07c}"));
    assert!(contains_private_use("\u{e0b0}"));
    assert!(!contains_private_use("日本語 abc ◀"));
}

#[test]
fn recognizes_common_icon_font_family_names() {
    assert!(is_icon_font_family("HackGen Console NF"));
    assert!(is_icon_font_family("JetBrainsMono Nerd Font Mono"));
    assert!(!is_icon_font_family("SF Mono"));
    assert!(is_unified_font_family("HackGen Console NF"));
    assert!(!is_unified_font_family("JetBrainsMono Nerd Font Mono"));
}

#[test]
fn falls_back_without_the_needed_font() {
    assert_eq!(font_role_for_text("日本語", false, true, false), TextFontRole::Primary);
    assert_eq!(font_role_for_text("\u{f07c}日", false, false, true), TextFontRole::JapaneseFallback);
    assert_eq!(font_name_for_role(TextFontRole::JapaneseFallback, Some("Main"), None, Some("Icons")), Some("Main"));
    assert_eq!(font_name_for_role(TextFontRole::IconFallback, Some("Main"), None, Some("Icons")), Some("Icons"));
    assert_eq!(font_name_for_role(TextFontRole::Primary, None, Some("JP"), Some("Icons")), None);
}

#[test]
fn matches_font_names_ignoring_ascii_case() {
    assert!(is_icon_font_family("hackgen35 console nf"));
    assert!(!is_icon_font_family("HackGen Console"));
    assert!(is_unified_font_family("HACKGEN NF Mono"));
}

#[test]
fn gives_the_preedit_the_room_right_of_the_cursor() {
    let grid = one_row_grid(10, "x", 7);
    assert_eq!(ime_available_columns(&grid), 3);
    let past_edge = one_row_grid(10, "x", 12);
    assert_eq!(ime_available_columns(&past_edge), 1);
}

#[test]
fn colours_the_cursor_from_its_highlight_or_the_cell() {
    let mut grid = one_row_grid(3, "a", 0);
    let attrs = HighlightAttrs { background: Some(0x00ff00), ..HighlightAttrs::default() };
    grid.apply(&RedrawEvent::HighlightDefine { id: 5, attrs });
    let cell = grid.resolve_highlight(0);
    let styled = CursorStyle { attr_id: Some(5), ..CursorStyle::default() };
    assert_eq!(cursor_color(&grid, &styled, cell), 0x00ff00);
    let unstyled = CursorStyle { attr_id: Some(0), ..CursorStyle::default() };
    assert_eq!(cursor_color(&grid, &unstyled, cell), cell.foreground);
}

#[test]
fn paints_backgrounds_and_lines_of_cells() {
    let grid = GridState::default();
    let mut highlight = grid.resolve_highlight(0);
    let plain = cell_paint(highlight, grid.background());
    assert_eq!(plain.background, None);
    highlight.background = 0x123456;
    highlight.underline = true;
    highlight.undercurl = true;
    highlight.special = 0xabcdef;
    let fancy = cell_paint(highlight, grid.background());
    assert_eq!(fancy.background, Some(0x123456));
    assert!(fancy.undercurl && !fancy.underline);
    assert_eq!(fancy.line_color, 0xabcdef);
}

#[test]
fn draws_the_cursor_only_when_shown_on_the_main_grid() {
    let mut grid = one_row_grid(3, "日", 0);
    let paint = cursor_paint(&grid, true).unwrap();
    assert_eq!((paint.row, paint.col, paint.columns, paint.percentage), (0, 0, 2, 1));
    assert_eq!(paint.shape, CursorShape::Block);
    assert!(cursor_paint(&grid, false).is_none());
    grid.apply(&RedrawEvent::GridCursorGoto { grid: 2, row: 0, col: 0 });
    assert!(cursor_paint(&grid, true).is_none());
}

#[test]
fn inverts_text_under_a_block_cursor() {
    let grid = one_row_grid(3, "a", 1);
    assert_eq!(block_cursor_column(&grid, 0, true), Some(1));
    assert_eq!(block_cursor_column(&grid, 1, true), None);
    assert_eq!(block_cursor_column(&grid, 0, false), None);
    let highlight = grid.resolve_highlight(0);
    assert_eq!(glyph_color(highlight, true), highlight.background);
    assert_eq!(glyph_color(highlight, false), highlight.foreground);
}

#[test]
fn reuses_rows_whose_revision_and_cursor_are_unchanged() {
    assert!(row_is_current(Some(4), None, 4, None));
    assert!(!row_is_current(Some(4), None, 5, None));
    assert!(!row_is_current(Some(4), Some(1), 4, None));
    assert!(!row_is_current(None, None, 0, None));
}

#[test]
fn skips_blank_cells_and_chooses_shaping() {
    assert!(!cell_draws_text(""));
    assert!(!cell_draws_text(" "));
    assert!(cell_draws_text("  "));
    assert!(cell_draws_text("a"));
    assert!(uses_basic_shaping(TextFontRole::IconFallback, false));
    assert!(!uses_basic_shaping(TextFontRole::Primary, false));
    assert!(uses_basic_shaping(TextFontRole::Primary, true));
    assert_eq!(preedit_font(Some("HackGen Console NF"), Some("JP")), (Some("HackGen Console NF"), true));
    assert_eq!(preedit_font(Some("SF Mono"), Some("JP")), (Some("JP"), true));
    assert_eq!(preedit_font(Some("SF Mono"), None), (None, false));
}

#[test]
fn overlays_the_preedit_at_the_cursor() {
    let grid = one_row_grid(4, "x", 1);
    assert!(preedit_paint(&grid, None).is_none());
    assert!(preedit_paint(&grid, Some(("", None))).is_none());
    let paint = preedit_paint(&grid, Some(("abcdef", Some((6, 6))))).unwrap();
    assert_eq!((paint.row, paint.col, paint.columns), (0, 1, 3));
    assert_eq!(paint.text, "def");
    assert!(paint.clipped_start && !paint.clipped_end);
    assert_eq!(paint.selection, Some(SelectionMark::Caret { column: 3 }));
    let span = preedit_paint(&grid, Some(("ab", Some((0, 2))))).unwrap();
    assert_eq!(span.selection, Some(SelectionMark::Span { start: 0, columns: 2 }));
    assert_eq!(preedit_cursor_offset(&grid, Some(("ab", Some((0, 1))))), 1);
    assert_eq!(preedit_cursor_offset(&grid, None), 0);
}

#[test]
fn grows_the_vertex_buffer_to_a_power_of_two() {
    assert_eq!(grown_vertex_capacity(0, 0), None);
    assert_eq!(grown_vertex_capacity(100, 128), None);
    assert_eq!(grown_vertex_capacity(129, 128), Some(256));
    assert_eq!(grown_vertex_capacity(1, 0), Some(1));
    assert_eq!(grown_vertex_capacity(1 << 63, 0), Some(1 << 63));
}

#[test]
fn picks_the_best_supported_translucent_mode() {
    assert_eq!(translucent_alpha_mode(&vec![AlphaMode::Auto, AlphaMode::PostMultiplied]), AlphaMode::PostMultiplied);
    assert_eq!(translucent_alpha_mode(&vec![AlphaMode::Opaque, AlphaMode::PreMultiplied]), AlphaMode::PreMultiplied);
    assert_eq!(translucent_alpha_mode(&vec![AlphaMode::Opaque]), AlphaMode::Opaque);
    assert_eq!(translucent_alpha_mode(&vec![]), AlphaMode::Opaque);
}
