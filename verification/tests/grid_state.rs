use mado::grid::{GridState, MAX_GRID_CELLS};
use mado::redraw::{CursorShape, CursorStyle, GridCell, HighlightAttrs, RedrawEvent};

fn line(row: u64, col_start: u64, cells: Vec<GridCell>) -> RedrawEvent {
    RedrawEvent::GridLine { grid: 1, row, col_start, cells, wrap: false }
}

fn run(text: &str, highlight_id: Option<u64>, repeat: u64) -> GridCell {
    GridCell { text: text.to_string(), highlight_id, repeat }
}

fn column_grid(texts: &[&str]) -> GridState {
    let mut grid = GridState::default();
    grid.resize(1, texts.len());
    for (row, text) in texts.iter().enumerate() {
        grid.cell_mut(row, 0).unwrap().text = text.to_string();
    }
    grid
}

fn column_texts(grid: &GridState) -> Vec<String> {
    (0..grid.height()).map(|row| grid.cell(row, 0).unwrap().text.clone()).collect()
}

#[test]
fn expands_repeat_and_inherits_highlight() {
    let mut grid = GridState::default();
    grid.apply(&RedrawEvent::GridResize { grid: 1, width: 5, height: 1 });
    grid.apply(&line(0, 0, vec![run("x", Some(3), 2), run("y", None, 1)]));

    assert_eq!(grid.cell(0, 0).unwrap().text, "x");
    assert_eq!(grid.cell(0, 1).unwrap().highlight_id, 3);
    assert_eq!(grid.cell(0, 2).unwrap().highlight_id, 3);
}

#[test]
fn scrolls_region_up() {
    let mut grid = GridState::default();
    grid.resize(1, 3);
    for (row, text) in ["a", "b", "c"].into_iter().enumerate() {
        grid.cell_mut(row, 0).unwrap().text = text.into();
    }
    grid.scroll(0, 3, 0, 1, 1, 0);
    assert_eq!(grid.cell(0, 0).unwrap().text, "b");
    assert_eq!(grid.cell(1, 0).unwrap().text, "c");
    assert_eq!(grid.cell(2, 0).unwrap().text, "");
}

#[test]
fn scrolls_region_down_without_overwriting_sources() {
    let mut grid = GridState::default();
    grid.resize(1, 3);
    for (row, text) in ["a", "b", "c"].into_iter().enumerate() {
        grid.cell_mut(row, 0).unwrap().text = text.into();
    }
    grid.scroll(0, 3, 0, 1, -1, 0);
    assert_eq!(grid.cell(0, 0).unwrap().text, "");
    assert_eq!(grid.cell(1, 0).unwrap().text, "a");
    assert_eq!(grid.cell(2, 0).unwrap().text, "b");
}

#[test]
fn rejects_excessively_large_grids() {
    let mut grid = GridState::default();
    grid.resize(80, 24);
    grid.resize(usize::MAX, 2);
    assert_eq!((grid.width(), grid.height()), (80, 24));

    grid.resize(MAX_GRID_CELLS + 1, 1);
    assert_eq!((grid.width(), grid.height()), (80, 24));
}

#[test]
fn clamps_cell_repeat_to_the_visible_grid() {
    let mut grid = GridState::default();
    grid.resize(2, 1);
    grid.apply(&line(0, 0, vec![run("x", None, u64::MAX)]));
    assert_eq!(
        grid.cells().iter().map(|cell| cell.text.as_str()).collect::<Vec<_>>(),
        ["x", "x"]
    );
}

#[test]
fn revisions_only_the_rows_changed_by_line_updates() {
    let mut grid = GridState::default();
    grid.resize(3, 2);
    let first_row = grid.row_revision(0);
    let second_row = grid.row_revision(1);

    grid.apply(&line(1, 0, vec![run("changed", Some(1), 1)]));

    assert_eq!(grid.row_revision(0), first_row);
    assert_ne!(grid.row_revision(1), second_row);
}

#[test]
fn line_update_leaves_other_rows_alone() {
    let mut grid = column_grid(&["a", "b", "c"]);
    let before: Vec<u64> = (0..3).map(|row| grid.row_revision(row)).collect();
    let flush = grid.apply(&line(1, 0, vec![run("z", Some(2), 1)]));
    assert!(!flush);
    assert_eq!(column_texts(&grid), ["a", "z", "c"]);
    assert_eq!(grid.row_revision(0), before[0]);
    assert_eq!(grid.row_revision(2), before[2]);
    assert_ne!(grid.row_revision(1), 0);
}

#[test]
fn resize_keeps_overlapping_cells_and_blanks_new_ones() {
    let mut grid = column_grid(&["a", "b"]);
    grid.resize(2, 3);
    assert_eq!(grid.cell(0, 0).unwrap().text, "a");
    assert_eq!(grid.cell(1, 0).unwrap().text, "b");
    assert_eq!(grid.cell(0, 1).unwrap().text, "");
    assert_eq!(grid.cell(2, 0).unwrap().text, "");
    for row in 0..3 {
        assert_ne!(grid.row_revision(row), 0);
    }
    assert!(grid.cell(3, 0).is_none());
    assert!(grid.cell(0, 2).is_none());
}

#[test]
fn scroll_leaves_cells_outside_the_region() {
    let mut grid = GridState::default();
    grid.resize(2, 3);
    for row in 0..3 {
        for col in 0..2 {
            grid.cell_mut(row, col).unwrap().text = format!("{row}{col}");
        }
    }
    grid.scroll(0, 3, 0, 1, 1, 0);
    assert_eq!(grid.cell(0, 0).unwrap().text, "10");
    assert_eq!(grid.cell(1, 0).unwrap().text, "20");
    assert_eq!(grid.cell(2, 0).unwrap().text, "");
    for row in 0..3 {
        assert_eq!(grid.cell(row, 1).unwrap().text, format!("{row}1"));
    }
}

#[test]
fn horizontal_scroll_moves_columns() {
    let mut grid = GridState::default();
    grid.resize(3, 1);
    for (col, text) in ["a", "b", "c"].into_iter().enumerate() {
        grid.cell_mut(0, col).unwrap().text = text.into();
    }
    grid.scroll(0, 1, 0, 3, 0, -1);
    let texts: Vec<&str> = grid.cells().iter().map(|cell| cell.text.as_str()).collect();
    assert_eq!(texts, ["", "a", "b"]);
}

#[test]
fn clear_blanks_every_cell() {
    let mut grid = column_grid(&["a", "b"]);
    grid.apply(&RedrawEvent::GridClear { grid: 1 });
    assert_eq!(column_texts(&grid), ["", ""]);
}

#[test]
fn flush_changes_nothing() {
    let mut grid = column_grid(&["a", "b"]);
    let revision = grid.row_revision(1);
    assert!(grid.apply(&RedrawEvent::Flush));
    assert_eq!(column_texts(&grid), ["a", "b"]);
    assert_eq!(grid.row_revision(1), revision);
}

#[test]
fn ignores_events_for_other_grids() {
    let mut grid = column_grid(&["a"]);
    grid.apply(&RedrawEvent::GridLine {
        grid: 2,
        row: 0,
        col_start: 0,
        cells: vec![run("z", None, 1)],
        wrap: false,
    });
    grid.apply(&RedrawEvent::GridClear { grid: 2 });
    assert_eq!(column_texts(&grid), ["a"]);
    grid.apply(&RedrawEvent::GridCursorGoto { grid: 2, row: 0, col: 0 });
    assert!(!grid.cursor_is_on_main_grid());
    grid.apply(&RedrawEvent::GridCursorGoto { grid: 1, row: 0, col: 0 });
    assert!(grid.cursor_is_on_main_grid());
}

#[test]
fn resolves_highlights_with_defaults_and_reverse() {
    let mut grid = GridState::default();
    grid.apply(&RedrawEvent::DefaultColorsSet { foreground: 0x111111, background: 0x222222, special: -1 });
    assert_eq!(grid.background(), 0x222222);
    let attrs = HighlightAttrs { foreground: Some(0xff0000), reverse: true, ..HighlightAttrs::default() };
    grid.apply(&RedrawEvent::HighlightDefine { id: 7, attrs });
    let resolved = grid.resolve_highlight(7);
    assert_eq!(resolved.foreground, 0x222222);
    assert_eq!(resolved.background, 0xff0000);
    let plain = grid.resolve_highlight(99);
    assert_eq!(plain.foreground, 0x111111);
    assert_eq!(plain.background, 0x222222);
}

#[test]
fn cursor_style_follows_mode() {
    let mut grid = GridState::default();
    assert_eq!(grid.cursor_style(), CursorStyle::default());
    let bar = CursorStyle { shape: CursorShape::Vertical, cell_percentage: 25, ..CursorStyle::default() };
    grid.apply(&RedrawEvent::ModeInfoSet { cursor_style_enabled: true, styles: vec![CursorStyle::default(), bar] });
    grid.apply(&RedrawEvent::ModeChange { mode: "insert".to_string(), mode_index: 1 });
    assert_eq!(grid.cursor_style(), bar);
    grid.apply(&RedrawEvent::ModeChange { mode: "other".to_string(), mode_index: 9 });
    assert_eq!(grid.cursor_style(), CursorStyle::default());
}

#[test]
fn latest_mode_events_decide_the_cursor_style() {
    let mut grid = GridState::default();
    let bar = CursorStyle { shape: CursorShape::Vertical, cell_percentage: 25, ..CursorStyle::default() };
    let underline = CursorStyle { shape: CursorShape::Horizontal, cell_percentage: 20, ..CursorStyle::default() };
    grid.apply(&RedrawEvent::ModeChange { mode: "insert".to_string(), mode_index: 1 });
    assert_eq!(grid.cursor_style(), CursorStyle::default());
    grid.apply(&RedrawEvent::ModeInfoSet { cursor_style_enabled: true, styles: vec![bar, underline] });
    assert_eq!(grid.cursor_style(), underline);
    grid.apply(&RedrawEvent::ModeInfoSet { cursor_style_enabled: true, styles: vec![underline, bar] });
    grid.apply(&RedrawEvent::Flush);
    assert_eq!(grid.cursor_style(), bar);
    grid.apply(&RedrawEvent::ModeChange { mode: "normal".to_string(), mode_index: 0 });
    assert_eq!(grid.cursor_style(), underline);
    grid.apply(&RedrawEvent::ModeInfoSet { cursor_style_enabled: false, styles: vec![underline, bar] });
    assert_eq!(grid.cursor_style(), CursorStyle::default());
}

#[test]
fn latest_definitions_decide_highlights() {
    let mut grid = GridState::default();
    let red = HighlightAttrs { foreground: Some(0xff0000), ..HighlightAttrs::default() };
    let blue = HighlightAttrs { background: Some(0x0000ff), underdashed: true, ..HighlightAttrs::default() };
    grid.apply(&RedrawEvent::HighlightDefine { id: 3, attrs: red });
    grid.apply(&RedrawEvent::HighlightDefine { id: 4, attrs: red });
    grid.apply(&RedrawEvent::HighlightDefine { id: 3, attrs: blue });
    grid.apply(&RedrawEvent::DefaultColorsSet { foreground: 0x101010, background: 0x202020, special: 0x303030 });
    grid.apply(&RedrawEvent::DefaultColorsSet { foreground: -1, background: 0x404040, special: -1 });
    let three = grid.resolve_highlight(3);
    assert_eq!(three.foreground, 0x101010);
    assert_eq!(three.background, 0x0000ff);
    assert_eq!(three.special, 0x303030);
    assert!(three.underline);
    let four = grid.resolve_highlight(4);
    assert_eq!(four.foreground, 0xff0000);
    assert_eq!(four.background, 0x404040);
    assert!(!four.underline);
    let undefined = grid.resolve_highlight(5);
    assert_eq!(undefined.foreground, 0x101010);
    assert_eq!(undefined.background, 0x404040);
}

#[test]
fn every_row_of_a_reachable_grid_has_a_nonzero_revision() {
    let mut grid = GridState::default();
    assert_eq!(grid.row_revision(0), 0);
    grid.apply(&RedrawEvent::GridResize { grid: 1, width: 4, height: 3 });
    grid.apply(&line(1, 0, vec![run("x", Some(1), 2)]));
    grid.apply(&RedrawEvent::GridScroll { grid: 1, top: 0, bottom: 3, left: 0, right: 4, rows: 1, cols: 0 });
    grid.apply(&RedrawEvent::GridClear { grid: 1 });
    for row in 0..3 {
        assert_ne!(grid.row_revision(row), 0);
    }
    assert_eq!(grid.row_revision(3), 0);
    grid.apply(&RedrawEvent::GridResize { grid: 1, width: 2, height: 5 });
    for row in 0..5 {
        assert_ne!(grid.row_revision(row), 0);
    }
    assert_eq!(grid.row_revision(5), 0);
}
