use std::collections::HashMap;

use vstd::prelude::*;

use crate::grid_laws::{
    lemma_events_keep_revisions_fresh, lemma_resize_keeps_revisions_fresh,
    lemma_scroll_keeps_revisions_fresh,
};
use crate::redraw::{
    plain_attrs, plain_cursor_style, CursorStyle, GridCell, HighlightAttrs, RedrawEvent,
};

verus! {

broadcast use vstd::std_specs::hash::group_hash_axioms;

pub const DEFAULT_FOREGROUND: u32 = 0xd8dee9;

pub const DEFAULT_BACKGROUND: u32 = 0x1e222a;

/// Grids with more cells than this are refused.
pub const MAX_GRID_CELLS: usize = 4_000_000;

/// One cell of the main grid.
#[derive(Debug, Clone, PartialEq, Eq)]
pub struct Cell {
    pub text: String,
    pub highlight_id: u64,
}

/// The content of a cell.
#[verifier::ext_equal]
pub struct CellView {
    pub text: Seq<char>,
    pub highlight_id: u64,
}

impl View for Cell {
    type V = CellView;

    open spec fn view(&self) -> CellView {
        CellView { text: self.text@, highlight_id: self.highlight_id }
    }
}

/// An empty cell drawn with the default highlight.
pub open spec fn blank_cell() -> CellView {
    CellView { text: Seq::empty(), highlight_id: 0 }
}

impl Default for Cell {
    fn default() -> (c: Self)
        ensures
            c@ == blank_cell(),
    {
        Cell { text: String::new(), highlight_id: 0 }
    }
}

#[derive(Debug, Clone, Copy, PartialEq, Eq)]
pub struct Cursor {
    pub row: usize,
    pub col: usize,
}

impl Default for Cursor {
    fn default() -> (c: Self)
        ensures
            c == (Cursor { row: 0, col: 0 }),
    {
        Cursor { row: 0, col: 0 }
    }
}

/// A highlight with the default colours filled in and `reverse` applied.
#[derive(Debug, Clone, Copy, PartialEq, Eq)]
pub struct ResolvedHighlight {
    pub foreground: u32,
    pub background: u32,
    pub special: u32,
    pub bold: bool,
    pub italic: bool,
    pub underline: bool,
    pub undercurl: bool,
    pub strikethrough: bool,
    pub overline: bool,
}

/// The revision that follows `r`; revision 0 is never handed out, so it can
/// stand for "never drawn".
pub open spec fn next_revision_after(r: u64) -> u64 {
    if r == u64::MAX {
        1
    } else {
        (r + 1) as u64
    }
}

/// The revision handed out `n` steps after `r`.
pub open spec fn revision_after(r: u64, n: nat) -> u64
    decreases n,
{
    if n == 0 {
        r
    } else {
        next_revision_after(revision_after(r, (n - 1) as nat))
    }
}

pub open spec fn unwrap_or_u32(o: Option<u32>, d: u32) -> u32 {
    match o {
        Some(v) => v,
        None => d,
    }
}

/// The state of the main grid (grid 1) as a mathematical value: cells by row
/// and column, cursor, default colours, highlight table, cursor styles and
/// per-row revisions.
#[verifier::ext_equal]
pub struct GridModel {
    pub width: nat,
    pub height: nat,
    pub rows: Seq<Seq<CellView>>,
    pub cursor: Cursor,
    pub cursor_grid: u64,
    pub foreground: u32,
    pub background: u32,
    pub special: u32,
    pub highlights: Map<u64, HighlightAttrs>,
    pub cursor_style_enabled: bool,
    pub cursor_styles: Seq<CursorStyle>,
    pub mode_index: nat,
    pub row_revisions: Seq<u64>,
    pub next_revision: u64,
}

impl GridModel {
    /// Every row holds `width` cells, there are `height` rows and as many
    /// row revisions, and the grid is no larger than `MAX_GRID_CELLS`.
    pub open spec fn wf(self) -> bool {
        &&& self.rows.len() == self.height
        &&& forall|r: int| 0 <= r < self.height ==> #[trigger] self.rows[r].len() == self.width
        &&& self.width * self.height <= MAX_GRID_CELLS
        &&& self.row_revisions.len() == self.height
    }

    /// Rows `from..to` receive consecutive fresh revisions, in order.
    pub open spec fn with_rows_marked(self, from: nat, to: nat) -> GridModel {
        GridModel {
            row_revisions: Seq::new(
                self.row_revisions.len(),
                |i: int|
                    if from <= i < to {
                        revision_after(self.next_revision, (i - from) as nat)
                    } else {
                        self.row_revisions[i]
                    },
            ),
            next_revision: if from <= to {
                revision_after(self.next_revision, (to - from) as nat)
            } else {
                self.next_revision
            },
            ..self
        }
    }

    /// Row `row` receives a fresh revision, if the grid has such a row.
    pub open spec fn with_row_marked(self, row: nat) -> GridModel {
        if row < self.row_revisions.len() {
            self.with_rows_marked(row, row + 1)
        } else {
            self
        }
    }

    /// Every row receives a fresh revision, top to bottom.
    pub open spec fn with_all_rows_marked(self) -> GridModel {
        self.with_rows_marked(0, self.row_revisions.len())
    }

    /// The grid resized to `width` x `height`: the cells that both sizes have
    /// keep their content, new cells are blank, and every row gets a fresh
    /// revision. A size of more than `MAX_GRID_CELLS` cells leaves the grid
    /// unchanged.
    pub open spec fn resized(self, width: nat, height: nat) -> GridModel {
        if width * height > MAX_GRID_CELLS {
            self
        } else {
            GridModel {
                width,
                height,
                rows: Seq::new(
                    height,
                    |r: int|
                        Seq::new(
                            width,
                            |c: int|
                                if r < self.height && c < self.width {
                                    self.rows[r][c]
                                } else {
                                    blank_cell()
                                },
                        ),
                ),
                row_revisions: Seq::new(height, |i: int| 0u64),
                ..self
            }.with_all_rows_marked()
        }
    }

    /// The content of cell (`r`, `c`) after the region `top..bottom` x
    /// `left..right` scrolls by `rows` and `cols`: a cell of the region
    /// takes the old content of the cell `rows` below and `cols` to the right
    /// of it when that cell is in the region too, and is blank otherwise;
    /// cells outside the region keep their content.
    pub open spec fn scroll_value(
        self,
        top: int,
        bottom: int,
        left: int,
        right: int,
        rows: int,
        cols: int,
        r: int,
        c: int,
    ) -> CellView {
        if top <= r < bottom && left <= c < right {
            let sr = r + rows;
            let sc = c + cols;
            if top <= sr < bottom && left <= sc < right {
                self.rows[sr][sc]
            } else {
                blank_cell()
            }
        } else {
            self.rows[r][c]
        }
    }

    /// The grid after Neovim scrolls the region `top..bottom` x
    /// `left..right` (clipped to the grid) by `rows` rows and `cols` columns;
    /// the rows of the region get fresh revisions. An empty region changes
    /// nothing.
    pub open spec fn scrolled(
        self,
        top: nat,
        bottom: nat,
        left: nat,
        right: nat,
        rows: int,
        cols: int,
    ) -> GridModel {
        let bottom = if bottom < self.height { bottom } else { self.height };
        let right = if right < self.width { right } else { self.width };
        if top >= bottom || left >= right {
            self
        } else {
            GridModel {
                rows: Seq::new(
                    self.height,
                    |r: int|
                        Seq::new(
                            self.width,
                            |c: int|
                                self.scroll_value(
                                    top as int,
                                    bottom as int,
                                    left as int,
                                    right as int,
                                    rows,
                                    cols,
                                    r,
                                    c,
                                ),
                        ),
                ),
                ..self
            }.with_rows_marked(top, bottom)
        }
    }

    /// The grid after the runs `cells` of a `grid_line` event are drawn on
    /// row `row` from column `col`, `highlight` being the highlight of the
    /// previous run. Each run covers `repeat` columns, clipped at the right
    /// edge; drawing stops at the right edge. A row the grid does not have
    /// receives nothing.
    pub open spec fn line_written(self, row: nat, col: nat, highlight: u64, cells: Seq<GridCell>) -> GridModel
        decreases cells.len(),
    {
        if cells.len() == 0 || col >= self.width {
            self
        } else {
            let run = cells[0];
            let id = match run.highlight_id {
                Some(id) => id,
                None => highlight,
            };
            let n: nat = if run.repeat < self.width - col {
                run.repeat as nat
            } else {
                (self.width - col) as nat
            };
            let written = if row < self.height {
                GridModel {
                    rows: self.rows.update(
                        row as int,
                        Seq::new(
                            self.width,
                            |c: int|
                                if col <= c < col + n {
                                    CellView { text: run.text@, highlight_id: id }
                                } else {
                                    self.rows[row as int][c]
                                },
                        ),
                    ),
                    ..self
                }
            } else {
                self
            };
            written.line_written(row, col + n, id, cells.drop_first())
        }
    }

    /// Every cell blank, every row with a fresh revision.
    pub open spec fn cleared(self) -> GridModel {
        GridModel {
            rows: Seq::new(self.height, |r: int| Seq::new(self.width, |c: int| blank_cell())),
            ..self
        }.with_all_rows_marked()
    }

    /// The grid after one redraw event. Events for grids other than the main
    /// grid, and events that carry no grid state, leave it unchanged, except
    /// `grid_cursor_goto`, which records the grid it names.
    pub open spec fn applied(self, event: RedrawEvent) -> GridModel {
        match event {
            RedrawEvent::GridResize { grid, width, height } => {
                if grid == 1 && width <= usize::MAX && height <= usize::MAX {
                    self.resized(width as nat, height as nat)
                } else {
                    self
                }
            },
            RedrawEvent::GridLine { grid, row, col_start, cells, .. } => {
                if grid == 1 && row <= usize::MAX && col_start <= usize::MAX {
                    self.line_written(row as nat, col_start as nat, 0, cells@).with_row_marked(
                        row as nat,
                    )
                } else {
                    self
                }
            },
            RedrawEvent::GridClear { grid } => {
                if grid == 1 {
                    self.cleared()
                } else {
                    self
                }
            },
            RedrawEvent::GridCursorGoto { grid, row, col } => GridModel {
                cursor_grid: grid,
                cursor: Cursor { row: row as usize, col: col as usize },
                ..self
            },
            RedrawEvent::GridScroll { grid, top, bottom, left, right, rows, cols } => {
                if grid == 1 {
                    self.scrolled(
                        top as usize as nat,
                        bottom as usize as nat,
                        left as usize as nat,
                        right as usize as nat,
                        rows as int,
                        cols as int,
                    )
                } else {
                    self
                }
            },
            RedrawEvent::DefaultColorsSet { foreground, background, special } => GridModel {
                foreground: if foreground >= 0 {
                    foreground as u32
                } else {
                    self.foreground
                },
                background: if background >= 0 {
                    background as u32
                } else {
                    self.background
                },
                special: if special >= 0 {
                    special as u32
                } else {
                    self.special
                },
                ..self
            }.with_all_rows_marked(),
            RedrawEvent::HighlightDefine { id, attrs } => GridModel {
                highlights: self.highlights.insert(id, attrs),
                ..self
            }.with_all_rows_marked(),
            RedrawEvent::ModeInfoSet { cursor_style_enabled, styles } => GridModel {
                cursor_style_enabled,
                cursor_styles: styles@,
                ..self
            },
            RedrawEvent::ModeChange { mode_index, .. } => GridModel {
                mode_index: mode_index as usize as nat,
                ..self
            },
            _ => self,
        }
    }

    /// Every row revision is nonzero, and so is the next one to be handed
    /// out: revision 0 stays free to mean "never drawn".
    pub open spec fn revisions_are_fresh(self) -> bool {
        &&& self.next_revision != 0
        &&& forall|r: int| 0 <= r < self.row_revisions.len() ==> #[trigger] self.row_revisions[r] != 0
    }

    /// The attributes defined for highlight `id`, or the plain attributes.
    pub open spec fn attrs(self, id: u64) -> HighlightAttrs {
        if self.highlights.contains_key(id) {
            self.highlights[id]
        } else {
            plain_attrs()
        }
    }

    /// The highlight `id` with the default colours filled in.
    pub open spec fn resolved(self, id: u64) -> ResolvedHighlight {
        resolved_from(self.attrs(id), self.foreground, self.background, self.special)
    }

    /// The cursor style of the current mode, or the plain style when styling
    /// is off or the mode has no style.
    pub open spec fn current_cursor_style(self) -> CursorStyle {
        cursor_style_from(self.cursor_style_enabled, self.cursor_styles, self.mode_index)
    }
}

/// The attributes `a` with the default colours `fg`, `bg` and `sp` filled
/// in: `reverse` swaps foreground and background, and underline, double,
/// dotted and dashed underlines all count as an underline.
pub open spec fn resolved_from(a: HighlightAttrs, fg: u32, bg: u32, sp: u32) -> ResolvedHighlight {
    let f = unwrap_or_u32(a.foreground, fg);
    let b = unwrap_or_u32(a.background, bg);
    ResolvedHighlight {
        foreground: if a.reverse { b } else { f },
        background: if a.reverse { f } else { b },
        special: unwrap_or_u32(a.special, sp),
        bold: a.bold,
        italic: a.italic,
        underline: a.underline || a.underdouble || a.underdotted || a.underdashed,
        undercurl: a.undercurl,
        strikethrough: a.strikethrough,
        overline: a.overline,
    }
}

/// The style of mode `index` among `styles` when styling is `enabled`, and
/// the plain style otherwise or when there is no such mode.
pub open spec fn cursor_style_from(enabled: bool, styles: Seq<CursorStyle>, index: nat) -> CursorStyle {
    if enabled && index < styles.len() {
        styles[index as int]
    } else {
        plain_cursor_style()
    }
}

/// The grid after the events of a redraw batch, applied in order.
pub open spec fn applied_all(grid: GridModel, events: Seq<RedrawEvent>) -> GridModel
    decreases events.len(),
{
    if events.len() == 0 {
        grid
    } else {
        applied_all(grid, events.drop_last()).applied(events.last())
    }
}

/// An empty grid with the default colours, the cursor at the origin of the
/// main grid, no highlights and no cursor styles.
pub open spec fn initial_grid() -> GridModel {
    GridModel {
        width: 0,
        height: 0,
        rows: Seq::empty(),
        cursor: Cursor { row: 0, col: 0 },
        cursor_grid: 1,
        foreground: DEFAULT_FOREGROUND,
        background: DEFAULT_BACKGROUND,
        special: DEFAULT_FOREGROUND,
        highlights: Map::empty(),
        cursor_style_enabled: false,
        cursor_styles: Seq::empty(),
        mode_index: 0,
        row_revisions: Seq::empty(),
        next_revision: 1,
    }
}

/// The grid's storage: a row-major cell vector with the rest of the state.
struct Grid {
    width: usize,
    height: usize,
    cells: Vec<Cell>,
    cursor: Cursor,
    cursor_grid: u64,
    foreground: u32,
    background: u32,
    special: u32,
    highlights: HashMap<u64, HighlightAttrs>,
    cursor_style_enabled: bool,
    cursor_styles: Vec<CursorStyle>,
    mode_index: usize,
    row_revisions: Vec<u64>,
    next_revision: u64,
}

/// The content of cell (`r`, `c`) of a row-major cell vector of width `w`.
pub open spec fn cell_at(cells: Seq<Cell>, w: int, r: int, c: int) -> CellView {
    cells[r * w + c]@
}

/// Row-major cells of width `w` seen as `h` rows.
pub open spec fn rows_of(cells: Seq<Cell>, w: nat, h: nat) -> Seq<Seq<CellView>> {
    Seq::new(h, |r: int| Seq::new(w, |c: int| cell_at(cells, w as int, r, c)))
}

proof fn lemma_flat_index(w: int, h: int, r: int, c: int)
    by (nonlinear_arith)
    requires
        0 <= r < h,
        0 <= c < w,
    ensures
        0 <= r * w,
        r * w + w <= w * h,
        0 <= r * w + c < w * h,
{
}

proof fn lemma_flat_rows_apart(w: int, r1: int, c1: int, r2: int, c2: int)
    by (nonlinear_arith)
    requires
        0 <= r1 < r2,
        0 <= c1 < w,
        0 <= c2 < w,
    ensures
        r1 * w + c1 < r2 * w + c2,
{
}

/// Distinct cells of a row-major layout have distinct indices.
proof fn lemma_flat_injective(w: int, r1: int, c1: int, r2: int, c2: int)
    requires
        0 <= r1,
        0 <= r2,
        0 <= c1 < w,
        0 <= c2 < w,
        r1 * w + c1 == r2 * w + c2,
    ensures
        r1 == r2,
        c1 == c2,
{
    if r1 < r2 {
        lemma_flat_rows_apart(w, r1, c1, r2, c2);
    } else if r2 < r1 {
        lemma_flat_rows_apart(w, r2, c2, r1, c1);
    }
}

proof fn lemma_row_prefix(w: int, row: int, r: int, c: int)
    by (nonlinear_arith)
    requires
        0 <= r < row,
        0 <= c < w,
    ensures
        0 <= r * w + c < row * w,
        0 <= r * w,
{
}

proof fn lemma_next_row(w: int, row: int)
    by (nonlinear_arith)
    ensures
        row * w + w == (row + 1) * w,
{
}

proof fn lemma_mul_commutes(a: int, b: int)
    by (nonlinear_arith)
    ensures
        a * b == b * a,
{
}

proof fn lemma_mul_mono(a: int, b: int, c: int)
    by (nonlinear_arith)
    requires
        0 <= a <= b,
        0 <= c,
    ensures
        a * c <= b * c,
{
}

/// Rows read from a row-major vector equal `expected` when every cell does.
proof fn lemma_rows_of(cells: Seq<Cell>, w: nat, h: nat, expected: Seq<Seq<CellView>>)
    requires
        expected.len() == h,
        forall|r: int| 0 <= r < h ==> #[trigger] expected[r].len() == w,
        forall|r: int, c: int|
            0 <= r < h && 0 <= c < w ==> #[trigger] cell_at(cells, w as int, r, c)
                == expected[r][c],
    ensures
        rows_of(cells, w, h) == expected,
{
    let rows = rows_of(cells, w, h);
    assert forall|r: int| 0 <= r < h implies rows[r] =~= expected[r] by {
        assert forall|c: int| 0 <= c < w implies rows[r][c] == expected[r][c] by {
            assert(cell_at(cells, w as int, r, c) == expected[r][c]);
        }
    }
    assert(rows =~= expected);
}

spec fn in_region(top: int, bottom: int, left: int, right: int, r: int, c: int) -> bool {
    top <= r < bottom && left <= c < right
}

/// What a scrolled cell of the region receives, read from the cells as they
/// were before the scroll.
spec fn scroll_source(
    old: Seq<Cell>,
    w: int,
    top: int,
    bottom: int,
    left: int,
    right: int,
    rows: int,
    cols: int,
    r: int,
    c: int,
) -> CellView {
    if in_region(top, bottom, left, right, r + rows, c + cols) {
        cell_at(old, w, r + rows, c + cols)
    } else {
        blank_cell()
    }
}

/// The cells of the region that `done` names hold their scrolled content,
/// all other cells their old content.
spec fn scroll_progress(
    cur: Seq<Cell>,
    old: Seq<Cell>,
    w: int,
    h: int,
    top: int,
    bottom: int,
    left: int,
    right: int,
    rows: int,
    cols: int,
    done: spec_fn(int, int) -> bool,
) -> bool {
    &&& cur.len() == old.len()
    &&& forall|r: int, c: int|
        0 <= r < h && 0 <= c < w ==> #[trigger] cell_at(cur, w, r, c) == if in_region(
            top,
            bottom,
            left,
            right,
            r,
            c,
        ) && done(r, c) {
            scroll_source(old, w, top, bottom, left, right, rows, cols, r, c)
        } else {
            cell_at(old, w, r, c)
        }
}

/// Moving one cell keeps the progress invariant, with that cell now done.
proof fn lemma_scroll_step(
    cur: Seq<Cell>,
    new: Seq<Cell>,
    old: Seq<Cell>,
    w: int,
    h: int,
    top: int,
    bottom: int,
    left: int,
    right: int,
    rows: int,
    cols: int,
    row: int,
    col: int,
    done: spec_fn(int, int) -> bool,
    done_after: spec_fn(int, int) -> bool,
)
    requires
        scroll_progress(cur, old, w, h, top, bottom, left, right, rows, cols, done),
        0 <= top <= row < bottom <= h,
        0 <= left <= col < right <= w,
        cur.len() == w * h,
        new.len() == cur.len(),
        forall|i: int| 0 <= i < cur.len() && i != row * w + col ==> new[i] == cur[i],
        cell_at(new, w, row, col) == scroll_source(
            old,
            w,
            top,
            bottom,
            left,
            right,
            rows,
            cols,
            row,
            col,
        ),
        forall|r: int, c: int|
            #![trigger done_after(r, c)]
            done_after(r, c) == (done(r, c) || (r == row && c == col)),
    ensures
        scroll_progress(new, old, w, h, top, bottom, left, right, rows, cols, done_after),
{
    assert forall|r: int, c: int| 0 <= r < h && 0 <= c < w implies #[trigger] cell_at(new, w, r, c)
        == if in_region(top, bottom, left, right, r, c) && done_after(r, c) {
        scroll_source(old, w, top, bottom, left, right, rows, cols, r, c)
    } else {
        cell_at(old, w, r, c)
    } by {
        lemma_flat_index(w, h, r, c);
        if r != row || c != col {
            if r * w + c == row * w + col {
                lemma_flat_injective(w, r, c, row, col);
            }
            assert(cell_at(new, w, r, c) == cell_at(cur, w, r, c));
        }
        assert(done_after(r, c) == (done(r, c) || (r == row && c == col)));
    }
}

impl View for Grid {
    type V = GridModel;

    closed spec fn view(&self) -> GridModel {
        GridModel {
            width: self.width as nat,
            height: self.height as nat,
            rows: rows_of(self.cells@, self.width as nat, self.height as nat),
            cursor: self.cursor,
            cursor_grid: self.cursor_grid,
            foreground: self.foreground,
            background: self.background,
            special: self.special,
            highlights: self.highlights@,
            cursor_style_enabled: self.cursor_style_enabled,
            cursor_styles: self.cursor_styles@,
            mode_index: self.mode_index as nat,
            row_revisions: self.row_revisions@,
            next_revision: self.next_revision,
        }
    }
}

impl Grid {
    /// The cell vector is row-major of `width * height` cells, within the
    /// size limit, with one revision per row.
    spec fn wf(&self) -> bool {
        &&& self.cells@.len() == self.width * self.height
        &&& self.width * self.height <= MAX_GRID_CELLS
        &&& self.row_revisions@.len() == self.height
    }

    fn width(&self) -> (r: usize)
        ensures
            r == self@.width,
    {
        self.width
    }

    fn height(&self) -> (r: usize)
        ensures
            r == self@.height,
    {
        self.height
    }

    /// All cells, row by row.
    fn cells(&self) -> (r: &[Cell])
        requires
            self.wf(),
        ensures
            r@.len() == self@.width * self@.height,
            forall|row: int, col: int|
                0 <= row < self@.height && 0 <= col < self@.width ==> #[trigger] cell_at(
                    r@,
                    self@.width as int,
                    row,
                    col,
                ) == self@.rows[row][col],
    {
        self.cells.as_slice()
    }

    /// The cell at (`row`, `col`), if the grid has it.
    fn cell(&self, row: usize, col: usize) -> (r: Option<&Cell>)
        requires
            self.wf(),
        ensures
            row < self@.height && col < self@.width ==> (r matches Some(c) && c@
                == self@.rows[row as int][col as int]),
            !(row < self@.height && col < self@.width) ==> r is None,
    {
        if row < self.height && col < self.width {
            proof {
                lemma_flat_index(self.width as int, self.height as int, row as int, col as int);
            }
            Some(&self.cells[row * self.width + col])
        } else {
            None
        }
    }

    /// Writing any cell at (`row`, `col`) of the cell vector changes that
    /// cell of the rows only.
    spec fn cell_update_law(&self, row: int, col: int) -> bool {
        forall|v: Cell|
            #![trigger self.cells@.update(row * self.width + col, v)]
            self.cells@.update(row * self.width + col, v).len() == self.cells@.len() && rows_of(
                self.cells@.update(row * self.width + col, v),
                self.width as nat,
                self.height as nat,
            ) == self@.rows.update(row, self@.rows[row].update(col, v@))
    }

    proof fn lemma_cell_update(&self, row: int, col: int)
        requires
            self.wf(),
            0 <= row < self.height,
            0 <= col < self.width,
        ensures
            self.cell_update_law(row, col),
    {
        let w = self.width as int;
        lemma_flat_index(w, self.height as int, row, col);
        assert forall|v: Cell|
            #![trigger self.cells@.update(row * self.width + col, v)]
            self.cells@.update(row * self.width + col, v).len() == self.cells@.len() && rows_of(
                self.cells@.update(row * self.width + col, v),
                self.width as nat,
                self.height as nat,
            ) == self@.rows.update(row, self@.rows[row].update(col, v@)) by {
            let updated = self.cells@.update(row * self.width + col, v);
            let expected = self@.rows.update(row, self@.rows[row].update(col, v@));
            assert forall|r: int, c: int|
                0 <= r < self.height && 0 <= c < w implies #[trigger] cell_at(updated, w, r, c)
                == expected[r][c] by {
                lemma_flat_index(w, self.height as int, r, c);
                assert(self@.rows[r][c] == cell_at(self.cells@, w, r, c));
                if r * w + c == row * w + col {
                    lemma_flat_injective(w, r, c, row, col);
                }
            }
            lemma_rows_of(updated, self.width as nat, self.height as nat, expected);
        }
    }

    /// The cell at (`row`, `col`) for writing, if the grid has it; writing
    /// through it changes that cell only.
    fn cell_mut(&mut self, row: usize, col: usize) -> (r: Option<&mut Cell>)
        requires
            old(self).wf(),
        ensures
            final(self).wf(),
            !(row < old(self)@.height && col < old(self)@.width) ==> r is None && *final(self)
                == *old(self),
            row < old(self)@.height && col < old(self)@.width ==> r is Some && (*r->0)@
                == old(self)@.rows[row as int][col as int] && final(self).wf()
                && final(self)@ == (GridModel {
                rows: old(self)@.rows.update(
                    row as int,
                    old(self)@.rows[row as int].update(col as int, (*final(r->0))@),
                ),
                ..old(self)@
            }),
        no_unwind
    {
        if row < self.height && col < self.width {
            proof {
                lemma_flat_index(self.width as int, self.height as int, row as int, col as int);
            }
            let index = row * self.width;
            proof {
                self.lemma_cell_update(row as int, col as int);
            }
            Some(&mut self.cells[index + col])
        } else {
            None
        }
    }

    fn cursor(&self) -> (r: Cursor)
        ensures
            r == self@.cursor,
    {
        self.cursor
    }

    /// Whether the last cursor movement was on the main grid.
    fn cursor_is_on_main_grid(&self) -> (r: bool)
        ensures
            r == (self@.cursor_grid == 1),
    {
        self.cursor_grid == 1
    }

    fn background(&self) -> (r: u32)
        ensures
            r == self@.background,
    {
        self.background
    }

    fn cursor_style(&self) -> (r: CursorStyle)
        ensures
            r == self@.current_cursor_style(),
    {
        if !self.cursor_style_enabled {
            return CursorStyle::default();
        }
        if self.mode_index < self.cursor_styles.len() {
            self.cursor_styles[self.mode_index]
        } else {
            CursorStyle::default()
        }
    }

    /// The revision of `row`, or 0 for a row the grid does not have.
    fn row_revision(&self, row: usize) -> (r: u64)
        ensures
            r == if row < self@.row_revisions.len() {
                self@.row_revisions[row as int]
            } else {
                0
            },
    {
        if row < self.row_revisions.len() {
            self.row_revisions[row]
        } else {
            0
        }
    }

    fn resolve_highlight(&self, id: u64) -> (r: ResolvedHighlight)
        ensures
            r == self@.resolved(id),
    {
        let attrs = match self.highlights.get(&id) {
            Some(attrs) => *attrs,
            None => HighlightAttrs::default(),
        };
        let mut foreground = match attrs.foreground {
            Some(c) => c,
            None => self.foreground,
        };
        let mut background = match attrs.background {
            Some(c) => c,
            None => self.background,
        };
        if attrs.reverse {
            let swapped = foreground;
            foreground = background;
            background = swapped;
        }
        ResolvedHighlight {
            foreground,
            background,
            special: match attrs.special {
                Some(c) => c,
                None => self.special,
            },
            bold: attrs.bold,
            italic: attrs.italic,
            underline: attrs.underline || attrs.underdouble || attrs.underdotted
                || attrs.underdashed,
            undercurl: attrs.undercurl,
            strikethrough: attrs.strikethrough,
            overline: attrs.overline,
        }
    }

    /// Resizes the grid to `width` x `height`, keeping the cells that both
    /// sizes have; a grid of more than `MAX_GRID_CELLS` cells is refused.
    fn resize(&mut self, width: usize, height: usize)
        requires
            old(self).wf(),
        ensures
            final(self).wf(),
            final(self)@ == old(self)@.resized(width as nat, height as nat),
    {
        let cell_count = match width.checked_mul(height) {
            Some(n) => n,
            None => {
                return;
            },
        };
        if cell_count > MAX_GRID_CELLS {
            return;
        }
        let ghost old_model = self@;
        let ghost expected = old_model.resized(width as nat, height as nat).rows;
        proof {
            lemma_mul_commutes(width as int, height as int);
        }
        let mut cells: Vec<Cell> = Vec::new();
        let mut row: usize = 0;
        while row < height
            invariant
                self.wf(),
                self@ == old_model,
                cell_count == width * height,
                cell_count <= MAX_GRID_CELLS,
                width * height == height * width,
                expected == old_model.resized(width as nat, height as nat).rows,
                row <= height,
                cells@.len() == row * width,
                forall|r: int, c: int|
                    0 <= r < row && 0 <= c < width ==> #[trigger] cell_at(cells@, width as int, r, c)
                        == expected[r][c],
            decreases height - row,
        {
            proof {
                lemma_mul_mono(row as int + 1, height as int, width as int);
                lemma_next_row(width as int, row as int);
            }
            let mut col: usize = 0;
            while col < width
                invariant
                    self.wf(),
                    self@ == old_model,
                    expected == old_model.resized(width as nat, height as nat).rows,
                    row < height,
                    width * height <= MAX_GRID_CELLS,
                    (row + 1) * width <= height * width,
                    row * width + width == (row + 1) * width,
                    col <= width,
                    cells@.len() == row * width + col,
                    forall|r: int, c: int|
                        (0 <= r < row && 0 <= c < width) || (r == row && 0 <= c < col)
                            ==> #[trigger] cell_at(cells@, width as int, r, c) == expected[r][c],
                decreases width - col,
            {
                let cell = if row < self.height && col < self.width {
                    proof {
                        lemma_flat_index(
                            self.width as int,
                            self.height as int,
                            row as int,
                            col as int,
                        );
                    }
                    let source = &self.cells[row * self.width + col];
                    Cell { text: source.text.clone(), highlight_id: source.highlight_id }
                } else {
                    Cell::default()
                };
                proof {
                    if row < self.height && col < self.width {
                        assert(old_model.rows[row as int][col as int] == cell_at(
                            self.cells@,
                            self.width as int,
                            row as int,
                            col as int,
                        ));
                    }
                }
                assert(cell@ == expected[row as int][col as int]);
                let ghost before = cells@;
                cells.push(cell);
                proof {
                    assert forall|r: int, c: int|
                        (0 <= r < row && 0 <= c < width) || (r == row && 0 <= c < col + 1)
                            implies #[trigger] cell_at(cells@, width as int, r, c)
                            == expected[r][c] by {
                        if r < row {
                            lemma_row_prefix(width as int, row as int, r, c);
                            assert(cell_at(before, width as int, r, c) == expected[r][c]);
                        } else if c < col {
                            assert(cell_at(before, width as int, r, c) == expected[r][c]);
                        } else {
                            assert(r * width + c == before.len());
                        }
                    }
                }
                col += 1;
            }
            row += 1;
        }
        proof {
            lemma_rows_of(cells@, width as nat, height as nat, expected);
        }
        self.width = width;
        self.height = height;
        self.cells = cells;
        self.row_revisions.resize(height, 0);
        proof {
            lemma_mul_commutes(width as int, height as int);
        }
        let ghost unmarked = self@;
        self.mark_all_rows_dirty();
        proof {
            let target = old_model.resized(width as nat, height as nat);
            assert(self@.row_revisions =~= target.row_revisions);
            assert(self@ =~~= target);
        }
    }

    /// Moves the content of the cell `rows` below and `cols` to the right of
    /// (`row`, `col`) into it, or blanks it when that cell is outside the
    /// region `top..bottom` x `left..right`.
    fn scroll_cell(
        &mut self,
        row: usize,
        col: usize,
        top: usize,
        bottom: usize,
        left: usize,
        right: usize,
        rows: i64,
        cols: i64,
    )
        requires
            old(self).wf(),
            top <= row < bottom <= old(self).height,
            left <= col < right <= old(self).width,
        ensures
            final(self).wf(),
            final(self)@.width == old(self)@.width,
            final(self)@.height == old(self)@.height,
            final(self).cells@.len() == old(self).cells@.len(),
            forall|i: int|
                0 <= i < old(self).cells@.len() && i != row * old(self).width + col
                    ==> final(self).cells@[i] == old(self).cells@[i],
            cell_at(final(self).cells@, old(self).width as int, row as int, col as int)
                == scroll_source(
                old(self).cells@,
                old(self).width as int,
                top as int,
                bottom as int,
                left as int,
                right as int,
                rows as int,
                cols as int,
                row as int,
                col as int,
            ),
            final(self)@ == (GridModel { rows: final(self)@.rows, ..old(self)@ }),
    {
        proof {
            lemma_flat_index(self.width as int, self.height as int, row as int, col as int);
        }
        let source_row = row as i128 + rows as i128;
        let source_col = col as i128 + cols as i128;
        let target = row * self.width + col;
        if source_row >= top as i128 && source_row < bottom as i128 && source_col >= left as i128
            && source_col < right as i128 {
            proof {
                lemma_flat_index(
                    self.width as int,
                    self.height as int,
                    source_row as int,
                    source_col as int,
                );
            }
            let source = source_row as usize * self.width + source_col as usize;
            clone_cell(&mut self.cells, target, source);
        } else {
            self.cells.set(target, Cell { text: String::new(), highlight_id: 0 });
        }
        assert(self@ =~~= (GridModel { rows: self@.rows, ..old(self)@ }));
    }

    /// Scrolls the region `top..bottom` x `left..right` (clipped to the
    /// grid) by `rows` rows and `cols` columns, as Neovim's `grid_scroll`
    /// describes: every cell of the region takes the content that the cell
    /// `rows` below and `cols` to the right of it had before the scroll.
    fn scroll(
        &mut self,
        top: usize,
        bottom: usize,
        left: usize,
        right: usize,
        rows: i64,
        cols: i64,
    )
        requires
            old(self).wf(),
        ensures
            final(self).wf(),
            final(self)@ == old(self)@.scrolled(
                top as nat,
                bottom as nat,
                left as nat,
                right as nat,
                rows as int,
                cols as int,
            ),
    {
        let bottom = if bottom < self.height {
            bottom
        } else {
            self.height
        };
        let right = if right < self.width {
            right
        } else {
            self.width
        };
        if top >= bottom || left >= right {
            return;
        }
        let ghost old_model = self@;
        let ghost old_cells = self.cells@;
        let ghost w = self.width as int;
        let ghost h = self.height as int;
        let ghost (t, b, l, rt) = (top as int, bottom as int, left as int, right as int);
        let ghost (dr, dc) = (rows as int, cols as int);
        assert(scroll_progress(old_cells, old_cells, w, h, t, b, l, rt, dr, dc, |r: int, c: int| false));
        if rows < 0 {
            // Rows move down: fill from the bottom so that every source row
            // is read before it is overwritten.
            let mut row = bottom;
            while row > top
                invariant
                    self.wf(),
                    self@ == (GridModel { rows: self@.rows, ..old_model }),
                    self.width == w,
                    self.height == h,
                    top <= row <= bottom <= h,
                    left < right <= w,
                    t == top && b == bottom && l == left && rt == right && dr == rows && dc == cols,
                    dr < 0,
                    scroll_progress(self.cells@, old_cells, w, h, t, b, l, rt, dr, dc, |r: int, c: int| r >= row),
                decreases row - top,
            {
                row -= 1;
                let mut col = left;
                while col < right
                    invariant
                        self.wf(),
                        self@ == (GridModel { rows: self@.rows, ..old_model }),
                        self.width == w,
                        self.height == h,
                        top <= row < bottom <= h,
                        left <= col <= right <= w,
                        t == top && b == bottom && l == left && rt == right && dr == rows && dc == cols,
                        dr < 0,
                        scroll_progress(
                            self.cells@,
                            old_cells,
                            w,
                            h,
                            t,
                            b,
                            l,
                            rt,
                            dr,
                            dc,
                            |r: int, c: int| r > row || (r == row && c < col),
                        ),
                    decreases right - col,
                {
                    let ghost cur = self.cells@;
                    proof {
                        let (sr, sc) = (row + dr, col + dc);
                        if in_region(t, b, l, rt, sr, sc) {
                            assert(cell_at(cur, w, sr, sc) == cell_at(old_cells, w, sr, sc));
                        }
                    }
                    self.scroll_cell(row, col, top, bottom, left, right, rows, cols);
                    proof {
                        lemma_scroll_step(
                            cur,
                            self.cells@,
                            old_cells,
                            w,
                            h,
                            t,
                            b,
                            l,
                            rt,
                            dr,
                            dc,
                            row as int,
                            col as int,
                            |r: int, c: int| r > row || (r == row && c < col),
                            |r: int, c: int| r > row || (r == row && c < col + 1),
                        );
                    }
                    col += 1;
                }
                assert(scroll_progress(self.cells@, old_cells, w, h, t, b, l, rt, dr, dc, |r: int, c: int| r >= row)) by {
                    assert forall|r: int, c: int| 0 <= r < h && 0 <= c < w && in_region(t, b, l, rt, r, c) implies
                        (r >= row) == (r > row || (r == row && c < col)) by {}
                }
            }
        } else if rows == 0 && cols < 0 {
            // Columns move right within each row: fill from the right.
            let mut row = top;
            while row < bottom
                invariant
                    self.wf(),
                    self@ == (GridModel { rows: self@.rows, ..old_model }),
                    self.width == w,
                    self.height == h,
                    top <= row <= bottom <= h,
                    left < right <= w,
                    t == top && b == bottom && l == left && rt == right && dr == rows && dc == cols,
                    dr == 0 && dc < 0,
                    scroll_progress(self.cells@, old_cells, w, h, t, b, l, rt, dr, dc, |r: int, c: int| r < row),
                decreases bottom - row,
            {
                let mut col = right;
                while col > left
                    invariant
                        self.wf(),
                        self@ == (GridModel { rows: self@.rows, ..old_model }),
                        self.width == w,
                        self.height == h,
                        top <= row < bottom <= h,
                        left <= col <= right <= w,
                        t == top && b == bottom && l == left && rt == right && dr == rows && dc == cols,
                        dr == 0 && dc < 0,
                        scroll_progress(
                            self.cells@,
                            old_cells,
                            w,
                            h,
                            t,
                            b,
                            l,
                            rt,
                            dr,
                            dc,
                            |r: int, c: int| r < row || (r == row && c >= col),
                        ),
                    decreases col - left,
                {
                    col -= 1;
                    let ghost cur = self.cells@;
                    proof {
                        let (sr, sc) = (row + dr, col + dc);
                        if in_region(t, b, l, rt, sr, sc) {
                            assert(cell_at(cur, w, sr, sc) == cell_at(old_cells, w, sr, sc));
                        }
                    }
                    self.scroll_cell(row, col, top, bottom, left, right, rows, cols);
                    proof {
                        lemma_scroll_step(
                            cur,
                            self.cells@,
                            old_cells,
                            w,
                            h,
                            t,
                            b,
                            l,
                            rt,
                            dr,
                            dc,
                            row as int,
                            col as int,
                            |r: int, c: int| r < row || (r == row && c >= col + 1),
                            |r: int, c: int| r < row || (r == row && c >= col),
                        );
                    }
                }
                assert(scroll_progress(self.cells@, old_cells, w, h, t, b, l, rt, dr, dc, |r: int, c: int| r < row + 1)) by {
                    assert forall|r: int, c: int| 0 <= r < h && 0 <= c < w && in_region(t, b, l, rt, r, c) implies
                        (r < row + 1) == (r < row || (r == row && c >= col)) by {}
                }
                row += 1;
            }
        } else {
            // Rows move up, or columns move left: fill from the top left.
            let mut row = top;
            while row < bottom
                invariant
                    self.wf(),
                    self@ == (GridModel { rows: self@.rows, ..old_model }),
                    self.width == w,
                    self.height == h,
                    top <= row <= bottom <= h,
                    left < right <= w,
                    t == top && b == bottom && l == left && rt == right && dr == rows && dc == cols,
                    dr > 0 || (dr == 0 && dc >= 0),
                    scroll_progress(self.cells@, old_cells, w, h, t, b, l, rt, dr, dc, |r: int, c: int| r < row),
                decreases bottom - row,
            {
                let mut col = left;
                while col < right
                    invariant
                        self.wf(),
                        self@ == (GridModel { rows: self@.rows, ..old_model }),
                        self.width == w,
                        self.height == h,
                        top <= row < bottom <= h,
                        left <= col <= right <= w,
                        t == top && b == bottom && l == left && rt == right && dr == rows && dc == cols,
                        dr > 0 || (dr == 0 && dc >= 0),
                        scroll_progress(
                            self.cells@,
                            old_cells,
                            w,
                            h,
                            t,
                            b,
                            l,
                            rt,
                            dr,
                            dc,
                            |r: int, c: int| r < row || (r == row && c < col),
                        ),
                    decreases right - col,
                {
                    let ghost cur = self.cells@;
                    proof {
                        let (sr, sc) = (row + dr, col + dc);
                        if in_region(t, b, l, rt, sr, sc) {
                            assert(cell_at(cur, w, sr, sc) == cell_at(old_cells, w, sr, sc));
                        }
                    }
                    self.scroll_cell(row, col, top, bottom, left, right, rows, cols);
                    proof {
                        lemma_scroll_step(
                            cur,
                            self.cells@,
                            old_cells,
                            w,
                            h,
                            t,
                            b,
                            l,
                            rt,
                            dr,
                            dc,
                            row as int,
                            col as int,
                            |r: int, c: int| r < row || (r == row && c < col),
                            |r: int, c: int| r < row || (r == row && c < col + 1),
                        );
                    }
                    col += 1;
                }
                assert(scroll_progress(self.cells@, old_cells, w, h, t, b, l, rt, dr, dc, |r: int, c: int| r < row + 1)) by {
                    assert forall|r: int, c: int| 0 <= r < h && 0 <= c < w && in_region(t, b, l, rt, r, c) implies
                        (r < row + 1) == (r < row || (r == row && c < col)) by {}
                }
                row += 1;
            }
        }
        proof {
            let expected = Seq::new(
                h as nat,
                |r: int| Seq::new(w as nat, |c: int| old_model.scroll_value(t, b, l, rt, dr, dc, r, c)),
            );
            assert forall|r: int, c: int| 0 <= r < h && 0 <= c < w implies #[trigger] cell_at(
                self.cells@,
                w,
                r,
                c,
            ) == expected[r][c] by {
                if in_region(t, b, l, rt, r + dr, c + dc) {
                    lemma_flat_index(w, h, r + dr, c + dc);
                }
            }
            lemma_rows_of(self.cells@, w as nat, h as nat, expected);
        }
        let ghost moved = self@;
        let mut row = top;
        while row < bottom
            invariant
                self.wf(),
                top <= row <= bottom <= self@.height,
                self@ == moved.with_rows_marked(top as nat, row as nat),
            decreases bottom - row,
        {
            let ghost before = self@;
            self.mark_row_dirty(row);
            proof {
                let n = moved.next_revision;
                let target = moved.with_rows_marked(top as nat, (row + 1) as nat);
                assert(revision_after(before.next_revision, 0) == before.next_revision);
                assert(revision_after(before.next_revision, 1) == next_revision_after(
                    before.next_revision,
                ));
                assert(revision_after(n, (row + 1 - top) as nat) == next_revision_after(
                    revision_after(n, (row - top) as nat),
                ));
                assert(self@.row_revisions =~= target.row_revisions);
                assert(self@ =~~= target);
            }
            row += 1;
        }
        assert(self@ =~~= old_model.scrolled(
            top as nat,
            bottom as nat,
            left as nat,
            right as nat,
            rows as int,
            cols as int,
        ));
    }

    /// Applies one redraw event to the grid; returns whether the event ends
    /// a frame (`flush`).
    fn apply(&mut self, event: &RedrawEvent) -> (flush: bool)
        requires
            old(self).wf(),
        ensures
            final(self).wf(),
            flush == (*event is Flush),
            final(self)@ == old(self)@.applied(*event),
    {
        match event {
            RedrawEvent::GridResize { grid, width, height } => {
                if *grid == 1 && *width <= usize::MAX as u64 && *height <= usize::MAX as u64 {
                    self.resize(*width as usize, *height as usize);
                }
            },
            RedrawEvent::GridLine { grid, row, col_start, cells, .. } => {
                if *grid == 1 && *row <= usize::MAX as u64 && *col_start <= usize::MAX as u64 {
                    self.put_line(*row as usize, *col_start as usize, cells);
                }
            },
            RedrawEvent::GridClear { grid } => {
                if *grid == 1 {
                    self.clear();
                }
            },
            RedrawEvent::GridCursorGoto { grid, row, col } => {
                self.cursor_grid = *grid;
                self.cursor = Cursor { row: *row as usize, col: *col as usize };
                assert(self@ =~~= old(self)@.applied(*event));
            },
            RedrawEvent::GridScroll { grid, top, bottom, left, right, rows, cols } => {
                if *grid == 1 {
                    self.scroll(
                        *top as usize,
                        *bottom as usize,
                        *left as usize,
                        *right as usize,
                        *rows,
                        *cols,
                    );
                }
            },
            RedrawEvent::DefaultColorsSet { foreground, background, special } => {
                if *foreground >= 0 {
                    self.foreground = *foreground as u32;
                }
                if *background >= 0 {
                    self.background = *background as u32;
                }
                if *special >= 0 {
                    self.special = *special as u32;
                }
                self.mark_all_rows_dirty();
            },
            RedrawEvent::HighlightDefine { id, attrs } => {
                self.highlights.insert(*id, *attrs);
                self.mark_all_rows_dirty();
            },
            RedrawEvent::ModeInfoSet { cursor_style_enabled, styles } => {
                self.cursor_style_enabled = *cursor_style_enabled;
                self.cursor_styles = copy_styles(styles);
                assert(self@ =~~= old(self)@.applied(*event));
            },
            RedrawEvent::ModeChange { mode_index, .. } => {
                self.mode_index = *mode_index as usize;
                assert(self@ =~~= old(self)@.applied(*event));
            },
            RedrawEvent::Flush => {
                return true;
            },
            _ => {},
        }
        false
    }

    /// Blanks every cell.
    fn clear(&mut self)
        requires
            old(self).wf(),
        ensures
            final(self).wf(),
            final(self)@ == old(self)@.cleared(),
    {
        let ghost old_model = self@;
        let mut i: usize = 0;
        while i < self.cells.len()
            invariant
                self.wf(),
                self@ == (GridModel { rows: self@.rows, ..old_model }),
                self.width == old_model.width,
                self.height == old_model.height,
                i <= self.cells@.len(),
                forall|j: int| 0 <= j < i ==> #[trigger] self.cells@[j]@ == blank_cell(),
            decreases self.cells@.len() - i,
        {
            self.cells.set(i, Cell::default());
            i += 1;
        }
        proof {
            let expected = Seq::new(
                self.height as nat,
                |r: int| Seq::new(self.width as nat, |c: int| blank_cell()),
            );
            assert forall|r: int, c: int|
                0 <= r < self.height && 0 <= c < self.width implies #[trigger] cell_at(
                self.cells@,
                self.width as int,
                r,
                c,
            ) == expected[r][c] by {
                lemma_flat_index(self.width as int, self.height as int, r, c);
            }
            lemma_rows_of(self.cells@, self.width as nat, self.height as nat, expected);
        }
        let ghost blanked = self@;
        self.mark_all_rows_dirty();
        assert(blanked =~~= (GridModel { rows: blanked.rows, ..old_model }));
    }

    /// Draws the runs `cells` on `row` from `col_start` (a `grid_line`
    /// event) and gives the row a fresh revision.
    fn put_line(&mut self, row: usize, col_start: usize, cells: &Vec<GridCell>)
        requires
            old(self).wf(),
        ensures
            final(self).wf(),
            final(self)@ == old(self)@.line_written(row as nat, col_start as nat, 0, cells@).with_row_marked(
                row as nat,
            ),
    {
        let ghost target = self@.line_written(row as nat, col_start as nat, 0, cells@);
        let mut col = col_start;
        let mut highlight_id: u64 = 0;
        let mut i: usize = 0;
        assert(cells@.skip(0) =~= cells@);
        while i < cells.len()
            invariant
                self.wf(),
                i <= cells@.len(),
                self@.line_written(row as nat, col as nat, highlight_id, cells@.skip(i as int))
                    == target,
            ensures
                self.wf(),
                self@ == target,
            decreases cells@.len() - i,
        {
            if col >= self.width {
                break;
            }
            let ghost before = self@;
            let run = &cells[i];
            if let Some(id) = run.highlight_id {
                highlight_id = id;
            }
            let remaining = self.width - col;
            let repeat: usize = if run.repeat < remaining as u64 {
                run.repeat as usize
            } else {
                remaining
            };
            if row < self.height {
                proof {
                    lemma_flat_index(self.width as int, self.height as int, row as int, col as int);
                }
                let base = row * self.width;
                let ghost start = self.cells@;
                let ghost written = Cell { text: run.text, highlight_id };
                let mut k: usize = 0;
                while k < repeat
                    invariant
                        self.wf(),
                        self@ == (GridModel { rows: self@.rows, ..before }),
                        self.width == before.width,
                        self.height == before.height,
                        row < self.height,
                        col + repeat <= self.width,
                        base == row * self.width,
                        base + self.width <= self.width * self.height,
                        k <= repeat,
                        written == (Cell { text: run.text, highlight_id }),
                        self.cells@.len() == start.len(),
                        forall|j: int|
                            0 <= j < start.len() ==> #[trigger] self.cells@[j] == if base + col <= j
                                < base + col + k {
                                written
                            } else {
                                start[j]
                            },
                    decreases repeat - k,
                {
                    let cell = Cell { text: run.text.clone(), highlight_id };
                    assert(cell == written);
                    self.cells.set(base + col + k, cell);
                    k += 1;
                }
                proof {
                    let w = self.width as int;
                    let expected = before.rows.update(
                        row as int,
                        Seq::new(
                            self.width as nat,
                            |c: int|
                                if col <= c < col + repeat {
                                    CellView { text: run.text@, highlight_id }
                                } else {
                                    before.rows[row as int][c]
                                },
                        ),
                    );
                    assert forall|r: int, c: int|
                        0 <= r < self.height && 0 <= c < w implies #[trigger] cell_at(
                        self.cells@,
                        w,
                        r,
                        c,
                    ) == expected[r][c] by {
                        lemma_flat_index(w, self.height as int, r, c);
                        assert(before.rows[r][c] == cell_at(start, w, r, c));
                        if r < row {
                            lemma_flat_rows_apart(w, r, c, row as int, 0);
                        } else if r > row {
                            lemma_flat_rows_apart(w, row as int, w - 1, r, c);
                        }
                    }
                    lemma_rows_of(self.cells@, self.width as nat, self.height as nat, expected);
                    assert(self@ =~~= (GridModel { rows: expected, ..before }));
                }
            }
            proof {
                let rest = cells@.skip(i as int);
                assert(rest[0] == cells@[i as int]);
                assert(rest.drop_first() =~= cells@.skip(i + 1));
            }
            col += repeat;
            i += 1;
        }
        self.mark_row_dirty(row);
    }

    fn mark_row_dirty(&mut self, row: usize)
        requires
            old(self).wf(),
        ensures
            final(self).wf(),
            final(self)@ == old(self)@.with_row_marked(row as nat),
    {
        if row < self.row_revisions.len() {
            self.row_revisions.set(row, self.next_revision);
            self.next_revision = if self.next_revision == u64::MAX {
                1
            } else {
                self.next_revision + 1
            };
            assert(revision_after(old(self).next_revision, 0) == old(self).next_revision);
            assert(revision_after(old(self).next_revision, 1) == self.next_revision);
            assert(self@.row_revisions =~= old(self)@.with_row_marked(row as nat).row_revisions);
            assert(self@ =~~= old(self)@.with_row_marked(row as nat));
        }
    }

    fn mark_all_rows_dirty(&mut self)
        requires
            old(self).wf(),
        ensures
            final(self).wf(),
            final(self)@ == old(self)@.with_all_rows_marked(),
    {
        let len = self.row_revisions.len();
        let mut row: usize = 0;
        assert(self@ =~~= old(self)@.with_rows_marked(0, 0));
        while row < len
            invariant
                self.wf(),
                len == self.row_revisions@.len(),
                row <= len,
                self@ == old(self)@.with_rows_marked(0, row as nat),
            decreases len - row,
        {
            let ghost before = self@;
            self.mark_row_dirty(row);
            proof {
                let n = old(self).next_revision;
                assert(before.next_revision == revision_after(n, row as nat));
                assert(revision_after(n, (row + 1) as nat) == next_revision_after(
                    revision_after(n, row as nat),
                ));
            }
            row += 1;
            proof {
                let target = old(self)@.with_rows_marked(0, row as nat);
                let n = old(self).next_revision;
                assert(revision_after(before.next_revision, 0) == before.next_revision);
                assert(revision_after(before.next_revision, 1) == next_revision_after(
                    before.next_revision,
                ));
                assert(self@.next_revision == target.next_revision);
                assert forall|i: int| 0 <= i < len implies self@.row_revisions[i]
                    == target.row_revisions[i] by {
                    if i == row - 1 {
                        assert(revision_after(before.next_revision, 0) == before.next_revision);
                    }
                }
                assert(self@.row_revisions =~= target.row_revisions);
                assert(self@ =~~= target);
            }
        }
    }
}

/// A copy of a list of cursor styles.
fn copy_styles(styles: &Vec<CursorStyle>) -> (r: Vec<CursorStyle>)
    ensures
        r@ == styles@,
{
    let mut out: Vec<CursorStyle> = Vec::new();
    let mut i: usize = 0;
    while i < styles.len()
        invariant
            i <= styles@.len(),
            out@ == styles@.subrange(0, i as int),
        decreases styles@.len() - i,
    {
        out.push(styles[i]);
        i += 1;
        assert(out@ =~= styles@.subrange(0, i as int));
    }
    assert(styles@.subrange(0, styles@.len() as int) =~= styles@);
    out
}

/// Copies the cell at `source` over the cell at `target`.
fn clone_cell(cells: &mut Vec<Cell>, target: usize, source: usize)
    requires
        target < old(cells)@.len(),
        source < old(cells)@.len(),
    ensures
        final(cells)@ == old(cells)@.update(target as int, old(cells)@[source as int]),
{
    if target == source {
        assert(cells@ =~= old(cells)@.update(target as int, old(cells)@[source as int]));
        return;
    }
    let copy = Cell { text: cells[source].text.clone(), highlight_id: cells[source].highlight_id };
    cells.set(target, copy);
}

impl Grid {
    fn empty() -> (g: Self)
        ensures
            g.wf(),
            g@ == initial_grid(),
    {
        let g = Grid {
            width: 0,
            height: 0,
            cells: Vec::new(),
            cursor: Cursor { row: 0, col: 0 },
            cursor_grid: 1,
            foreground: DEFAULT_FOREGROUND,
            background: DEFAULT_BACKGROUND,
            special: DEFAULT_FOREGROUND,
            highlights: HashMap::new(),
            cursor_style_enabled: false,
            cursor_styles: Vec::new(),
            mode_index: 0,
            row_revisions: Vec::new(),
            next_revision: 1,
        };
        assert(g@ =~~= initial_grid());
        g
    }
}

/// The state Mado keeps of Neovim's main grid. Its cell storage always
/// matches its size: `width * height` cells, no more than `MAX_GRID_CELLS`,
/// and one revision per row, each of them nonzero.
pub struct GridState {
    grid: Grid,
}

impl GridState {
    #[verifier::type_invariant]
    spec fn storage_matches_size(self) -> bool {
        &&& self.grid.wf()
        &&& self.grid@.revisions_are_fresh()
    }

}

impl View for GridState {
    type V = GridModel;

    closed spec fn view(&self) -> GridModel {
        self.grid@
    }
}

impl Default for GridState {
    fn default() -> (g: Self)
        ensures
            g@ == initial_grid(),
            g@.wf(),
            g@.revisions_are_fresh(),
    {
        GridState { grid: Grid::empty() }
    }
}

impl GridState {
    pub fn width(&self) -> (r: usize)
        ensures
            r == self@.width,
            self@.wf(),
            self@.revisions_are_fresh(),
    {
        proof {
            use_type_invariant(self);
        }
        self.grid.width()
    }

    pub fn height(&self) -> (r: usize)
        ensures
            r == self@.height,
            self@.wf(),
            self@.revisions_are_fresh(),
    {
        proof {
            use_type_invariant(self);
        }
        self.grid.height()
    }

    /// All cells, row by row.
    pub fn cells(&self) -> (r: &[Cell])
        ensures
            r@.len() == self@.width * self@.height,
            forall|row: int, col: int|
                0 <= row < self@.height && 0 <= col < self@.width ==> #[trigger] cell_at(
                    r@,
                    self@.width as int,
                    row,
                    col,
                ) == self@.rows[row][col],
    {
        proof {
            use_type_invariant(self);
        }
        self.grid.cells()
    }

    /// The cell at (`row`, `col`), if the grid has it.
    pub fn cell(&self, row: usize, col: usize) -> (r: Option<&Cell>)
        ensures
            row < self@.height && col < self@.width ==> (r matches Some(c) && c@
                == self@.rows[row as int][col as int]),
            !(row < self@.height && col < self@.width) ==> r is None,
    {
        proof {
            use_type_invariant(self);
        }
        self.grid.cell(row, col)
    }

    /// The cell at (`row`, `col`) for writing, if the grid has it; writing
    /// through it changes that cell only.
    pub fn cell_mut(&mut self, row: usize, col: usize) -> (r: Option<&mut Cell>)
        ensures
            !(row < old(self)@.height && col < old(self)@.width) ==> r is None && final(self)@
                == old(self)@,
            row < old(self)@.height && col < old(self)@.width ==> r is Some && (*r->0)@
                == old(self)@.rows[row as int][col as int] && final(self)@ == (GridModel {
                rows: old(self)@.rows.update(
                    row as int,
                    old(self)@.rows[row as int].update(col as int, (*final(r->0))@),
                ),
                ..old(self)@
            }),
            old(self)@.wf(),
            old(self)@.revisions_are_fresh(),
    {
        proof {
            use_type_invariant(&*self);
        }
        self.grid.cell_mut(row, col)
    }

    pub fn cursor(&self) -> (r: Cursor)
        ensures
            r == self@.cursor,
    {
        self.grid.cursor()
    }

    /// Whether the last cursor movement was on the main grid.
    pub fn cursor_is_on_main_grid(&self) -> (r: bool)
        ensures
            r == (self@.cursor_grid == 1),
    {
        self.grid.cursor_is_on_main_grid()
    }

    pub fn background(&self) -> (r: u32)
        ensures
            r == self@.background,
    {
        self.grid.background()
    }

    pub fn cursor_style(&self) -> (r: CursorStyle)
        ensures
            r == self@.current_cursor_style(),
    {
        self.grid.cursor_style()
    }

    /// The revision of `row`, or 0 for a row the grid does not have; every
    /// row the grid has carries a nonzero revision.
    pub fn row_revision(&self, row: usize) -> (r: u64)
        ensures
            r == if row < self@.row_revisions.len() {
                self@.row_revisions[row as int]
            } else {
                0
            },
            (r == 0) == (row >= self@.height),
            self@.wf(),
            self@.revisions_are_fresh(),
    {
        proof {
            use_type_invariant(self);
        }
        self.grid.row_revision(row)
    }

    pub fn resolve_highlight(&self, id: u64) -> (r: ResolvedHighlight)
        ensures
            r == self@.resolved(id),
    {
        self.grid.resolve_highlight(id)
    }

    /// Resizes the grid to `width` x `height`, keeping the cells that both
    /// sizes have; a grid of more than `MAX_GRID_CELLS` cells is refused.
    pub fn resize(&mut self, width: usize, height: usize)
        ensures
            final(self)@ == old(self)@.resized(width as nat, height as nat),
            old(self)@.wf(),
            old(self)@.revisions_are_fresh(),
            final(self)@.wf(),
            final(self)@.revisions_are_fresh(),
    {
        proof {
            use_type_invariant(&*self);
        }
        let ghost before = self@;
        let mut grid = Grid::empty();
        std::mem::swap(&mut grid, &mut self.grid);
        grid.resize(width, height);
        proof {
            lemma_resize_keeps_revisions_fresh(before, width as nat, height as nat);
        }
        self.grid = grid;
    }

    /// Scrolls the region `top..bottom` x `left..right` (clipped to the
    /// grid) by `rows` rows and `cols` columns, as Neovim's `grid_scroll`
    /// describes: every cell of the region takes the content that the cell
    /// `rows` below and `cols` to the right of it had before the scroll.
    pub fn scroll(
        &mut self,
        top: usize,
        bottom: usize,
        left: usize,
        right: usize,
        rows: i64,
        cols: i64,
    )
        ensures
            final(self)@ == old(self)@.scrolled(
                top as nat,
                bottom as nat,
                left as nat,
                right as nat,
                rows as int,
                cols as int,
            ),
            old(self)@.wf(),
            old(self)@.revisions_are_fresh(),
            final(self)@.wf(),
            final(self)@.revisions_are_fresh(),
    {
        proof {
            use_type_invariant(&*self);
        }
        let ghost before = self@;
        let mut grid = Grid::empty();
        std::mem::swap(&mut grid, &mut self.grid);
        grid.scroll(top, bottom, left, right, rows, cols);
        proof {
            lemma_scroll_keeps_revisions_fresh(
                before,
                top as nat,
                bottom as nat,
                left as nat,
                right as nat,
                rows as int,
                cols as int,
            );
        }
        self.grid = grid;
    }

    /// Applies one redraw event to the grid; returns whether the event ends
    /// a frame (`flush`).
    pub fn apply(&mut self, event: &RedrawEvent) -> (flush: bool)
        ensures
            flush == (*event is Flush),
            final(self)@ == old(self)@.applied(*event),
            old(self)@.wf(),
            old(self)@.revisions_are_fresh(),
            final(self)@.wf(),
            final(self)@.revisions_are_fresh(),
    {
        proof {
            use_type_invariant(&*self);
        }
        let ghost before = self@;
        let mut grid = Grid::empty();
        std::mem::swap(&mut grid, &mut self.grid);
        let flush = grid.apply(event);
        proof {
            lemma_events_keep_revisions_fresh(before, *event);
        }
        self.grid = grid;
        flush
    }
}

} // verus!
