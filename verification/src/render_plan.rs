use vstd::prelude::*;
use vstd::arithmetic::power2::{
    lemma2_to64, lemma2_to64_rest, lemma_pow2_strictly_increases, lemma_pow2_unfold, pow2,
};
use vstd::string::StrSliceExecFns;

use crate::appearance::{
    cursor_cell_columns, cursor_color, ime_available_columns, is_unified_font_family,
    unified_family, TextFontRole,
};
use crate::grid::{GridModel, GridState, ResolvedHighlight};
use crate::layout::{str_display_width, visible_preedit, visible_preedit_is, VisiblePreedit};
use crate::redraw::CursorShape;

verus! {

/// What is painted under and over the text of one cell: its background
/// when it differs from the grid's, and its line decorations in the
/// highlight's special colour (an undercurl replaces an underline).
#[derive(Debug, Clone, Copy, PartialEq, Eq)]
pub struct CellPaint {
    pub background: Option<u32>,
    pub undercurl: bool,
    pub underline: bool,
    pub strikethrough: bool,
    pub overline: bool,
    pub line_color: u32,
}

pub fn cell_paint(highlight: ResolvedHighlight, grid_background: u32) -> (r: CellPaint)
    ensures
        r.background == if highlight.background != grid_background {
            Some(highlight.background)
        } else {
            None
        },
        r.undercurl == highlight.undercurl,
        r.underline == (highlight.underline && !highlight.undercurl),
        r.strikethrough == highlight.strikethrough,
        r.overline == highlight.overline,
        r.line_color == highlight.special,
{
    CellPaint {
        background: if highlight.background != grid_background {
            Some(highlight.background)
        } else {
            None
        },
        undercurl: highlight.undercurl,
        underline: highlight.underline && !highlight.undercurl,
        strikethrough: highlight.strikethrough,
        overline: highlight.overline,
        line_color: highlight.special,
    }
}

/// The cursor box: at (`row`, `col`), `columns` cells wide for a block or a
/// horizontal bar, `percentage` of a cell thick for a bar.
#[derive(Debug, Clone, Copy, PartialEq, Eq)]
pub struct CursorPaint {
    pub row: usize,
    pub col: usize,
    pub shape: CursorShape,
    pub columns: usize,
    pub percentage: u64,
    pub color: u32,
}

/// The highlight of the cell under the cursor, or highlight 0 when the
/// cursor is off the grid.
pub open spec fn cursor_cell_highlight(g: GridModel) -> ResolvedHighlight {
    if g.cursor.row < g.height && g.cursor.col < g.width {
        g.resolved(g.rows[g.cursor.row as int][g.cursor.col as int].highlight_id)
    } else {
        g.resolved(0)
    }
}

/// The cursor is drawn when it is shown, on the main grid and on a row of
/// the grid, in the colour `cursor_color` gives and with the cell
/// percentage of its style kept between 1 and 100.
pub fn cursor_paint(grid: &GridState, cursor_visible: bool) -> (r: Option<CursorPaint>)
    ensures
        r is Some <==> (cursor_visible && grid@.cursor_grid == 1 && grid@.cursor.row
            < grid@.height),
        r matches Some(p) ==> {
            let style = grid@.current_cursor_style();
            let highlight = cursor_cell_highlight(grid@);
            &&& p.row == grid@.cursor.row && p.col == grid@.cursor.col
            &&& p.shape == style.shape
            &&& p.percentage == if style.cell_percentage < 1 {
                1
            } else if style.cell_percentage > 100 {
                100
            } else {
                style.cell_percentage
            }
            &&& p.color == match style.attr_id {
                Some(id) => if id != 0 {
                    grid@.resolved(id).background
                } else {
                    highlight.foreground
                },
                None => highlight.foreground,
            }
            &&& p.columns == if grid@.cursor.col < grid@.width {
                let w = str_display_width(
                    grid@.rows[grid@.cursor.row as int][grid@.cursor.col as int].text,
                );
                if w >= 1 {
                    w
                } else {
                    1usize
                }
            } else {
                1usize
            }
        },
{
    let cursor = grid.cursor();
    if !(cursor_visible && grid.cursor_is_on_main_grid() && cursor.row < grid.height()) {
        return None;
    }
    let style = grid.cursor_style();
    let highlight = match grid.cell(cursor.row, cursor.col) {
        Some(cell) => grid.resolve_highlight(cell.highlight_id),
        None => grid.resolve_highlight(0),
    };
    let percentage = if style.cell_percentage < 1 {
        1
    } else if style.cell_percentage > 100 {
        100
    } else {
        style.cell_percentage
    };
    Some(
        CursorPaint {
            row: cursor.row,
            col: cursor.col,
            shape: style.shape,
            columns: cursor_cell_columns(grid),
            percentage,
            color: cursor_color(grid, &style, highlight),
        },
    )
}

/// The column of a block cursor on `row`, where the cell's text is drawn in
/// the background colour; other cursor shapes leave the text alone.
pub fn block_cursor_column(grid: &GridState, row: usize, cursor_visible: bool) -> (r: Option<usize>)
    ensures
        r == if cursor_visible && grid@.current_cursor_style().shape == CursorShape::Block
            && grid@.cursor_grid == 1 && grid@.cursor.row == row {
            Some(grid@.cursor.col)
        } else {
            None
        },
{
    let cursor = grid.cursor();
    if cursor_visible && grid.cursor_style().shape == CursorShape::Block
        && grid.cursor_is_on_main_grid() && cursor.row == row {
        Some(cursor.col)
    } else {
        None
    }
}

/// A row's shaped glyphs can be reused when neither its revision nor the
/// block cursor on it changed since they were shaped.
pub fn row_is_current(
    cached_revision: Option<u64>,
    cached_cursor: Option<usize>,
    revision: u64,
    cursor_col: Option<usize>,
) -> (r: bool)
    ensures
        r == (cached_revision == Some(revision) && cached_cursor == cursor_col),
{
    let same_revision = match cached_revision {
        Some(cached) => cached == revision,
        None => false,
    };
    let same_cursor = match (cached_cursor, cursor_col) {
        (Some(a), Some(b)) => a == b,
        (None, None) => true,
        _ => false,
    };
    same_revision && same_cursor
}

/// Whether a cell's text needs glyphs: empty cells and single spaces do not.
pub fn cell_draws_text(text: &str) -> (r: bool)
    ensures
        r == !(text@.len() == 0 || text@ == " "@),
{
    proof {
        reveal_strlit(" ");
    }
    let n = text.unicode_len();
    if n == 0 {
        return false;
    }
    if n == 1 && text.get_char(0) == ' ' {
        assert(text@ =~= " "@);
        return false;
    }
    true
}

/// The colour of a cell's text: its background under a block cursor, its
/// foreground elsewhere.
pub fn glyph_color(highlight: ResolvedHighlight, under_block_cursor: bool) -> (r: u32)
    ensures
        r == if under_block_cursor {
            highlight.background
        } else {
            highlight.foreground
        },
{
    if under_block_cursor {
        highlight.background
    } else {
        highlight.foreground
    }
}

/// Fallback fonts and unified fonts are shaped glyph by glyph; the primary
/// font of another family gets full shaping.
pub fn uses_basic_shaping(role: TextFontRole, uses_unified_font: bool) -> (r: bool)
    ensures
        r == (role != TextFontRole::Primary || uses_unified_font),
{
    match role {
        TextFontRole::Primary => uses_unified_font,
        _ => true,
    }
}

/// The font of the preedit: the configured family when it is a unified
/// font, else the Japanese font, else the generic monospace family (`None`);
/// and whether it is shaped glyph by glyph, which it is with a named font.
pub fn preedit_font<'a>(family: Option<&'a str>, japanese: Option<&'a str>) -> (r: (
    Option<&'a str>,
    bool,
))
    ensures
        ({
            let unified = family matches Some(f) && unified_family(f@);
            &&& r.0 == if unified {
                family
            } else {
                japanese
            }
            &&& r.1 == (unified || japanese is Some)
        }),
{
    let unified = match family {
        Some(f) => is_unified_font_family(f),
        None => false,
    };
    if unified {
        (family, true)
    } else {
        (japanese, japanese.is_some())
    }
}

/// How the selection of the preedit is marked, in columns from the start of
/// the visible window: a highlighted span, or a caret where the selection
/// is empty.
#[derive(Debug, Clone, Copy, PartialEq, Eq)]
pub enum SelectionMark {
    Span { start: usize, columns: usize },
    Caret { column: usize },
}

/// The preedit overlay at the cursor: the visible text, the columns it
/// covers (at least one), whether text is cut off on either side, and the
/// selection mark when the selection does not end before the window.
#[derive(Debug, Clone, Copy)]
pub struct PreeditPaint<'a> {
    pub row: usize,
    pub col: usize,
    pub text: &'a str,
    pub columns: usize,
    pub clipped_start: bool,
    pub clipped_end: bool,
    pub selection: Option<SelectionMark>,
}

/// `a - b`, or 0 when `b` is larger.
pub open spec fn minus(a: usize, b: usize) -> usize {
    if a >= b {
        (a - b) as usize
    } else {
        0
    }
}

/// The mark of the selection from column `start` to `end` of a window that
/// starts at column `first`.
pub open spec fn selection_mark(start: usize, end: usize, first: usize) -> Option<SelectionMark> {
    if end < first {
        None
    } else {
        let a = minus(start, first);
        let b = minus(end, first);
        let lo = if a <= b {
            a
        } else {
            b
        };
        let hi = if a <= b {
            b
        } else {
            a
        };
        if hi > lo {
            Some(SelectionMark::Span { start: lo, columns: (hi - lo) as usize })
        } else {
            Some(SelectionMark::Caret { column: lo })
        }
    }
}

fn mark_selection(start: usize, end: usize, first: usize) -> (r: Option<SelectionMark>)
    ensures
        r == selection_mark(start, end, first),
{
    if end < first {
        return None;
    }
    let a = if start >= first {
        start - first
    } else {
        0
    };
    let b = if end >= first {
        end - first
    } else {
        0
    };
    let lo = if a <= b {
        a
    } else {
        b
    };
    let hi = if a <= b {
        b
    } else {
        a
    };
    if hi > lo {
        Some(SelectionMark::Span { start: lo, columns: hi - lo })
    } else {
        Some(SelectionMark::Caret { column: lo })
    }
}

/// The columns left for the preedit on the cursor's row, at least one.
pub open spec fn preedit_room(g: GridModel) -> usize {
    if g.cursor.col < g.width {
        (g.width - g.cursor.col) as usize
    } else {
        1usize
    }
}

/// The overlay for the visible window `v` of a preedit at the cursor.
pub open spec fn overlay_of<'a>(g: GridModel, v: VisiblePreedit<'a>) -> PreeditPaint<'a> {
    PreeditPaint {
        row: g.cursor.row,
        col: g.cursor.col,
        text: v.text,
        columns: if v.width >= 1 {
            v.width
        } else {
            1usize
        },
        clipped_start: v.clipped_start,
        clipped_end: v.clipped_end,
        selection: selection_mark(v.selection_start, v.selection_end, v.start_column),
    }
}

/// The preedit overlay, drawn when there is a non-empty preedit whose
/// visible window holds text.
pub fn preedit_paint<'a>(grid: &GridState, preedit: Option<(&'a str, Option<(usize, usize)>)>) -> (r:
    Option<PreeditPaint<'a>>)
    ensures
        match preedit {
            None => r is None,
            Some((text, cursor)) => if text@.len() == 0 {
                r is None
            } else {
                exists|v: VisiblePreedit<'a>|
                    #![trigger visible_preedit_is(text@, cursor, preedit_room(grid@), v)]
                    visible_preedit_is(text@, cursor, preedit_room(grid@), v) && if v.text@.len()
                        == 0 {
                        r is None
                    } else {
                        r == Some(overlay_of(grid@, v))
                    }
            },
        },
{
    let (text, cursor) = match preedit {
        Some(p) => p,
        None => {
            return None;
        },
    };
    if text.unicode_len() == 0 {
        return None;
    }
    let room = ime_available_columns(grid);
    let visible = visible_preedit(text, cursor, room);
    assert(visible_preedit_is(text@, cursor, preedit_room(grid@), visible));
    if visible.text.unicode_len() == 0 {
        return None;
    }
    let at = grid.cursor();
    let paint = PreeditPaint {
        row: at.row,
        col: at.col,
        text: visible.text,
        columns: if visible.width >= 1 {
            visible.width
        } else {
            1
        },
        clipped_start: visible.clipped_start,
        clipped_end: visible.clipped_end,
        selection: mark_selection(
            visible.selection_start,
            visible.selection_end,
            visible.start_column,
        ),
    };
    assert(paint == overlay_of(grid@, visible));
    Some(paint)
}

/// How many columns right of the cursor the input method's candidate window
/// goes: to the end of the preedit's selection within its visible window,
/// or none without a preedit.
pub fn preedit_cursor_offset(grid: &GridState, preedit: Option<(&str, Option<(usize, usize)>)>) -> (r:
    usize)
    ensures
        match preedit {
            None => r == 0,
            Some((text, cursor)) => if text@.len() == 0 {
                r == 0
            } else {
                exists|v: VisiblePreedit|
                    #![trigger visible_preedit_is(text@, cursor, preedit_room(grid@), v)]
                    visible_preedit_is(text@, cursor, preedit_room(grid@), v) && r == minus(
                        v.selection_end,
                        v.start_column,
                    )
            },
        },
{
    match preedit {
        Some((text, cursor)) => {
            if text.unicode_len() == 0 {
                0
            } else {
                let room = ime_available_columns(grid);
                let visible = visible_preedit(text, cursor, room);
                assert(visible_preedit_is(text@, cursor, preedit_room(grid@), visible));
                if visible.selection_end >= visible.start_column {
                    visible.selection_end - visible.start_column
                } else {
                    0
                }
            }
        },
        None => 0,
    }
}

/// The size the vertex buffer grows to for `required` bytes when it holds
/// `capacity`: the smallest power of two of at least `required` bytes, or
/// nothing when the buffer is large enough or nothing is drawn.
pub fn grown_vertex_capacity(required: u64, capacity: u64) -> (r: Option<u64>)
    requires
        required <= 0x8000_0000_0000_0000,
    ensures
        required == 0 || required <= capacity ==> r is None,
        !(required == 0 || required <= capacity) ==> (r matches Some(size) && exists|e: nat|
            size == #[trigger] pow2(e) && size >= required && (e == 0 || pow2((e - 1) as nat) < required)),
{
    if required == 0 || required <= capacity {
        return None;
    }
    let mut size: u64 = 1;
    let ghost mut e: nat = 0;
    proof {
        lemma2_to64();
        lemma2_to64_rest();
    }
    while size < required
        invariant
            required <= 0x8000_0000_0000_0000,
            size == pow2(e),
            e <= 63,
            pow2(63) == 0x8000_0000_0000_0000,
            1 <= size <= 0x8000_0000_0000_0000,
            e == 0 || pow2((e - 1) as nat) < required,
        decreases 0x8000_0000_0000_0000 - size,
    {
        proof {
            lemma_pow2_unfold(e + 1);
            if e == 63 {
                assert(false);
            }
            if e + 1 < 63 {
                lemma_pow2_strictly_increases(e + 1, 63);
            }
        }
        size = size * 2;
        proof {
            e = e + 1;
        }
    }
    Some(size)
}
/// How the window's surface is composited with what is behind it.
#[derive(Debug, Clone, Copy, PartialEq, Eq, Structural)]
pub enum AlphaMode {
    Opaque,
    PreMultiplied,
    PostMultiplied,
    Inherit,
    Auto,
}

/// The modes a translucent window may use, best first.
pub open spec fn translucent_preference() -> Seq<AlphaMode> {
    seq![AlphaMode::PreMultiplied, AlphaMode::PostMultiplied, AlphaMode::Inherit, AlphaMode::Auto]
}

/// The mode for a translucent window: the first of `translucent_preference`
/// that the surface supports, or opaque when it supports none of them.
pub fn translucent_alpha_mode(supported: &Vec<AlphaMode>) -> (r: AlphaMode)
    ensures
        r != AlphaMode::Opaque ==> exists|k: int|
            0 <= k < translucent_preference().len() && r == #[trigger] translucent_preference()[k]
                && supported@.contains(r) && forall|m: int|
                0 <= m < k ==> !supported@.contains(#[trigger] translucent_preference()[m]),
        r == AlphaMode::Opaque ==> forall|m: int|
            0 <= m < translucent_preference().len() ==> !supported@.contains(
                #[trigger] translucent_preference()[m],
            ),
{
    let preference = vec![
        AlphaMode::PreMultiplied,
        AlphaMode::PostMultiplied,
        AlphaMode::Inherit,
        AlphaMode::Auto,
    ];
    assert(preference@ =~= translucent_preference());
    let mut k: usize = 0;
    while k < preference.len()
        invariant
            preference@ == translucent_preference(),
            k <= preference@.len(),
            forall|m: int| 0 <= m < k ==> !supported@.contains(#[trigger] preference@[m]),
        decreases preference@.len() - k,
    {
        let candidate = preference[k];
        let mut i: usize = 0;
        while i < supported.len()
            invariant
                preference@ == translucent_preference(),
                k < preference@.len(),
                candidate == preference@[k as int],
                forall|m: int| 0 <= m < k ==> !supported@.contains(#[trigger] preference@[m]),
                i <= supported@.len(),
                forall|j: int| 0 <= j < i ==> supported@[j] != candidate,
            decreases supported@.len() - i,
        {
            if supported[i] == candidate {
                assert(supported@.contains(candidate)) by {
                    assert(supported@[i as int] == candidate);
                }
                assert(translucent_preference()[k as int] == candidate);
                return candidate;
            }
            i += 1;
        }
        assert(!supported@.contains(candidate));
        k += 1;
    }
    AlphaMode::Opaque
}
} // verus!
