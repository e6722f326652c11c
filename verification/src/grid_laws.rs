use vstd::prelude::*;

use crate::grid::{
    applied_all, blank_cell, cursor_style_from, initial_grid, next_revision_after, resolved_from,
    revision_after, GridModel, MAX_GRID_CELLS,
};
use crate::redraw::{CursorStyle, GridCell, HighlightAttrs, RedrawEvent};

verus! {

/// Drawing runs on a row changes the cells of that row only: every other
/// row, the size and all other state stay as they were.
proof fn lemma_line_written_stays_on_row(
    g: GridModel,
    row: nat,
    col: nat,
    highlight: u64,
    cells: Seq<GridCell>,
)
    requires
        g.wf(),
    ensures
        ({
            let n = g.line_written(row, col, highlight, cells);
            &&& n.wf()
            &&& n == (GridModel { rows: n.rows, ..g })
            &&& forall|r: int| 0 <= r < g.height && r != row ==> #[trigger] n.rows[r] == g.rows[r]
        }),
    decreases cells.len(),
{
    if cells.len() == 0 || col >= g.width {
    } else {
        let run = cells[0];
        let id = match run.highlight_id {
            Some(id) => id,
            None => highlight,
        };
        let n: nat = if run.repeat < g.width - col {
            run.repeat as nat
        } else {
            (g.width - col) as nat
        };
        let written = if row < g.height {
            GridModel {
                rows: g.rows.update(
                    row as int,
                    Seq::new(
                        g.width,
                        |c: int|
                            if col <= c < col + n {
                                crate::grid::CellView { text: run.text@, highlight_id: id }
                            } else {
                                g.rows[row as int][c]
                            },
                    ),
                ),
                ..g
            }
        } else {
            g
        };
        assert(written.wf());
        lemma_line_written_stays_on_row(written, row, col + n, id, cells.drop_first());
    }
}

/// A `grid_line` event on a row of the main grid changes that row's cells
/// and revision only: the row gets the next revision, every other row keeps
/// its cells and its revision, and the grid stays well formed.
pub proof fn lemma_line_update_changes_only_its_row(g: GridModel, event: RedrawEvent)
    requires
        g.wf(),
        event matches RedrawEvent::GridLine { grid, row, col_start, .. } && grid == 1 && row
            < g.height && row <= usize::MAX && col_start <= usize::MAX,
    ensures
        ({
            let n = g.applied(event);
            let row = event->GridLine_row as int;
            &&& n.wf()
            &&& n.width == g.width && n.height == g.height
            &&& n.cursor == g.cursor && n.highlights == g.highlights
            &&& n.row_revisions[row] == g.next_revision
            &&& n.next_revision == next_revision_after(g.next_revision)
            &&& forall|r: int|
                0 <= r < g.height && r != row ==> #[trigger] n.rows[r] == g.rows[r]
                    && n.row_revisions[r] == g.row_revisions[r]
        }),
{
    let row = event->GridLine_row;
    let col = event->GridLine_col_start;
    let cells = event->GridLine_cells@;
    lemma_line_written_stays_on_row(g, row as nat, col as nat, 0, cells);
    let w = g.line_written(row as nat, col as nat, 0, cells);
    assert(g.applied(event) == w.with_row_marked(row as nat));
    assert(revision_after(g.next_revision, 0) == g.next_revision);
    assert(revision_after(g.next_revision, 1) == next_revision_after(g.next_revision));
    let n = w.with_row_marked(row as nat);
    assert(w.row_revisions.len() == g.height);
    assert(n == w.with_rows_marked(row as nat, row as nat + 1));
    assert(n.rows == w.rows);
    assert(n.row_revisions.len() == g.height);
}

/// Scrolling a region moves its content by `rows` and `cols`: a cell of the
/// region takes the content of the cell `rows` below and `cols` right of it
/// when that cell is in the region, and is blank otherwise. Cells and row
/// revisions outside the region stay as they were, and the size does not
/// change.
pub proof fn lemma_scroll_moves_region(
    g: GridModel,
    top: nat,
    bottom: nat,
    left: nat,
    right: nat,
    rows: int,
    cols: int,
)
    requires
        g.wf(),
    ensures
        ({
            let n = g.scrolled(top, bottom, left, right, rows, cols);
            let bottom = if bottom < g.height {
                bottom
            } else {
                g.height
            };
            let right = if right < g.width {
                right
            } else {
                g.width
            };
            &&& n.wf()
            &&& n.width == g.width && n.height == g.height
            &&& forall|r: int, c: int|
                0 <= r < g.height && 0 <= c < g.width && !(top <= r < bottom && left <= c < right)
                    ==> #[trigger] n.rows[r][c] == g.rows[r][c]
            &&& forall|r: int, c: int|
                top <= r < bottom && left <= c < right ==> #[trigger] n.rows[r][c] == if top <= r
                    + rows < bottom && left <= c + cols < right {
                    g.rows[r + rows][c + cols]
                } else {
                    blank_cell()
                }
            &&& forall|r: int|
                0 <= r < g.height && !(top <= r < bottom) ==> #[trigger] n.row_revisions[r]
                    == g.row_revisions[r]
        }),
{
}

/// A resize to more than `MAX_GRID_CELLS` cells is refused: the grid stays
/// as it was.
pub proof fn lemma_oversized_resize_is_refused(g: GridModel, width: nat, height: nat)
    requires
        width * height > MAX_GRID_CELLS,
    ensures
        g.resized(width, height) == g,
{
}

/// A resize within the limit keeps the cells that both sizes have, leaves
/// the new cells blank, and gives every row a nonzero revision.
pub proof fn lemma_resize_keeps_overlap(g: GridModel, width: nat, height: nat)
    requires
        g.wf(),
        width * height <= MAX_GRID_CELLS,
        g.next_revision != 0,
    ensures
        ({
            let n = g.resized(width, height);
            &&& n.wf()
            &&& n.width == width && n.height == height
            &&& forall|r: int, c: int|
                0 <= r < height && 0 <= c < width ==> #[trigger] n.rows[r][c] == if r < g.height
                    && c < g.width {
                    g.rows[r][c]
                } else {
                    blank_cell()
                }
            &&& forall|r: int| 0 <= r < height ==> #[trigger] n.row_revisions[r] != 0
        }),
{
    assert forall|r: int| 0 <= r < height implies #[trigger] g.resized(
        width,
        height,
    ).row_revisions[r] != 0 by {
        lemma_fresh_revisions_are_nonzero(g.next_revision, r as nat);
    }
}

/// Revision 0 is never handed out: starting from a nonzero revision, every
/// later revision is nonzero.
pub proof fn lemma_fresh_revisions_are_nonzero(r: u64, n: nat)
    requires
        r != 0,
    ensures
        revision_after(r, n) != 0,
    decreases n,
{
    if n > 0 {
        lemma_fresh_revisions_are_nonzero(r, (n - 1) as nat);
    }
}

/// Clearing blanks every cell and keeps the size.
pub proof fn lemma_clear_blanks_every_cell(g: GridModel)
    requires
        g.wf(),
    ensures
        ({
            let n = g.cleared();
            &&& n.wf()
            &&& n.width == g.width && n.height == g.height
            &&& forall|r: int, c: int|
                0 <= r < g.height && 0 <= c < g.width ==> #[trigger] n.rows[r][c] == blank_cell()
        }),
{
}

/// A `flush` ends a frame and changes nothing in the grid, and neither do
/// options and events Mado does not know.
pub proof fn lemma_flush_changes_nothing(g: GridModel, event: RedrawEvent)
    requires
        event is Flush || event is OptionSet || event is Unknown,
    ensures
        g.applied(event) == g,
{
}

/// Every redraw event keeps the grid well formed: each row as wide as the
/// grid, one revision per row, and no more than `MAX_GRID_CELLS` cells.
pub proof fn lemma_events_keep_the_grid_well_formed(g: GridModel, event: RedrawEvent)
    requires
        g.wf(),
    ensures
        g.applied(event).wf(),
{
    match event {
        RedrawEvent::GridResize { grid, width, height } => {
            if grid == 1 && width <= usize::MAX && height <= usize::MAX && width * height
                <= MAX_GRID_CELLS && g.next_revision != 0 {
                lemma_resize_keeps_overlap(g, width as nat, height as nat);
            }
        },
        RedrawEvent::GridLine { grid, row, col_start, cells, .. } => {
            if grid == 1 && row <= usize::MAX && col_start <= usize::MAX {
                lemma_line_written_stays_on_row(g, row as nat, col_start as nat, 0, cells@);
            }
        },
        RedrawEvent::GridScroll { grid, top, bottom, left, right, rows, cols } => {
            if grid == 1 {
                lemma_scroll_moves_region(
                    g,
                    top as usize as nat,
                    bottom as usize as nat,
                    left as usize as nat,
                    right as usize as nat,
                    rows as int,
                    cols as int,
                );
            }
        },
        _ => {},
    }
}
/// Marking rows `from..to` leaves every revision nonzero when the next
/// revision and the revisions of the other rows are nonzero.
proof fn lemma_marking_keeps_revisions_fresh(m: GridModel, from: nat, to: nat)
    requires
        m.next_revision != 0,
        forall|i: int|
            0 <= i < m.row_revisions.len() && !(from <= i < to) ==> #[trigger] m.row_revisions[i]
                != 0,
    ensures
        m.with_rows_marked(from, to).revisions_are_fresh(),
{
    let n = m.with_rows_marked(from, to);
    if from <= to {
        lemma_fresh_revisions_are_nonzero(m.next_revision, (to - from) as nat);
    }
    assert forall|i: int| 0 <= i < n.row_revisions.len() implies #[trigger] n.row_revisions[i]
        != 0 by {
        if from <= i < to {
            lemma_fresh_revisions_are_nonzero(m.next_revision, (i - from) as nat);
        }
    }
}

proof fn lemma_marking_always_keeps_revisions_fresh()
    ensures
        forall|m: GridModel, from: nat, to: nat|
            #![trigger m.with_rows_marked(from, to)]
            m.next_revision != 0 && (forall|i: int|
                0 <= i < m.row_revisions.len() && !(from <= i < to) ==> #[trigger] m.row_revisions[i]
                    != 0) ==> m.with_rows_marked(from, to).revisions_are_fresh(),
{
    assert forall|m: GridModel, from: nat, to: nat|
        #![trigger m.with_rows_marked(from, to)]
        m.next_revision != 0 && (forall|i: int|
            0 <= i < m.row_revisions.len() && !(from <= i < to) ==> #[trigger] m.row_revisions[i]
                != 0) implies m.with_rows_marked(from, to).revisions_are_fresh() by {
        lemma_marking_keeps_revisions_fresh(m, from, to);
    }
}

/// A resize leaves every row revision, and the next one, nonzero.
pub proof fn lemma_resize_keeps_revisions_fresh(g: GridModel, width: nat, height: nat)
    requires
        g.revisions_are_fresh(),
    ensures
        g.resized(width, height).revisions_are_fresh(),
{
    lemma_marking_always_keeps_revisions_fresh();
}

/// A scroll leaves every row revision, and the next one, nonzero.
pub proof fn lemma_scroll_keeps_revisions_fresh(
    g: GridModel,
    top: nat,
    bottom: nat,
    left: nat,
    right: nat,
    rows: int,
    cols: int,
)
    requires
        g.revisions_are_fresh(),
    ensures
        g.scrolled(top, bottom, left, right, rows, cols).revisions_are_fresh(),
{
    lemma_marking_always_keeps_revisions_fresh();
}

/// Every redraw event leaves every row revision, and the next one, nonzero.
pub proof fn lemma_events_keep_revisions_fresh(g: GridModel, event: RedrawEvent)
    requires
        g.wf(),
        g.revisions_are_fresh(),
    ensures
        g.applied(event).revisions_are_fresh(),
{
    lemma_marking_always_keeps_revisions_fresh();
    match event {
        RedrawEvent::GridLine { grid, row, col_start, cells, .. } => {
            if grid == 1 && row <= usize::MAX && col_start <= usize::MAX {
                lemma_line_written_stays_on_row(g, row as nat, col_start as nat, 0, cells@);
            }
        },
        _ => {},
    }
}

/// A batch of events keeps a well-formed grid with nonzero revisions so.
pub proof fn lemma_batches_keep_the_grid_sound(g: GridModel, events: Seq<RedrawEvent>)
    requires
        g.wf(),
        g.revisions_are_fresh(),
    ensures
        applied_all(g, events).wf(),
        applied_all(g, events).revisions_are_fresh(),
    decreases events.len(),
{
    if events.len() > 0 {
        let prev = events.drop_last();
        lemma_batches_keep_the_grid_sound(g, prev);
        lemma_events_keep_the_grid_well_formed(applied_all(g, prev), events.last());
        lemma_events_keep_revisions_fresh(applied_all(g, prev), events.last());
    }
}

/// Every grid that redraw events make from the initial grid is well formed
/// and has one revision per row, each nonzero: a row the grid has never
/// reads as "never drawn", and a row it lacks reads as revision 0.
pub proof fn lemma_reachable_grids_have_nonzero_revisions(events: Seq<RedrawEvent>)
    ensures
        ({
            let n = applied_all(initial_grid(), events);
            &&& n.wf()
            &&& n.row_revisions.len() == n.height
            &&& n.next_revision != 0
            &&& forall|row: int| 0 <= row < n.height ==> #[trigger] n.row_revisions[row] != 0
        }),
{
    lemma_batches_keep_the_grid_sound(initial_grid(), events);
}

/// What `pick` finds in the latest event of `events` in which it finds
/// anything, or nothing.
pub open spec fn latest<T>(events: Seq<RedrawEvent>, pick: spec_fn(RedrawEvent) -> Option<T>) -> Option<T>
    decreases events.len(),
{
    if events.len() == 0 {
        None
    } else {
        match pick(events.last()) {
            Some(v) => Some(v),
            None => latest(events.drop_last(), pick),
        }
    }
}

/// The value `o` holds, or `d`.
pub open spec fn found_or<T>(o: Option<T>, d: T) -> T {
    match o {
        Some(v) => v,
        None => d,
    }
}

/// What a `mode_info_set` event sets: whether cursor styling is on, and the
/// cursor style of each mode.
pub open spec fn mode_info_set() -> spec_fn(RedrawEvent) -> Option<(bool, Seq<CursorStyle>)> {
    |e: RedrawEvent|
        match e {
            RedrawEvent::ModeInfoSet { cursor_style_enabled, styles } => Some(
                (cursor_style_enabled, styles@),
            ),
            _ => None,
        }
}

/// The mode index a `mode_change` event sets.
pub open spec fn mode_change() -> spec_fn(RedrawEvent) -> Option<nat> {
    |e: RedrawEvent|
        match e {
            RedrawEvent::ModeChange { mode_index, .. } => Some(mode_index as usize as nat),
            _ => None,
        }
}

/// The attributes an `hl_attr_define` event gives highlight `id`.
pub open spec fn highlight_define(id: u64) -> spec_fn(RedrawEvent) -> Option<HighlightAttrs> {
    |e: RedrawEvent|
        match e {
            RedrawEvent::HighlightDefine { id: defined, attrs } => if defined == id {
                Some(attrs)
            } else {
                None
            },
            _ => None,
        }
}

/// The default foreground a `default_colors_set` event sets; a negative
/// colour sets none.
pub open spec fn foreground_set() -> spec_fn(RedrawEvent) -> Option<u32> {
    |e: RedrawEvent|
        match e {
            RedrawEvent::DefaultColorsSet { foreground, .. } => if foreground >= 0 {
                Some(foreground as u32)
            } else {
                None
            },
            _ => None,
        }
}

/// The default background a `default_colors_set` event sets; a negative
/// colour sets none.
pub open spec fn background_set() -> spec_fn(RedrawEvent) -> Option<u32> {
    |e: RedrawEvent|
        match e {
            RedrawEvent::DefaultColorsSet { background, .. } => if background >= 0 {
                Some(background as u32)
            } else {
                None
            },
            _ => None,
        }
}

/// The default special colour a `default_colors_set` event sets; a
/// negative colour sets none.
pub open spec fn special_set() -> spec_fn(RedrawEvent) -> Option<u32> {
    |e: RedrawEvent|
        match e {
            RedrawEvent::DefaultColorsSet { special, .. } => if special >= 0 {
                Some(special as u32)
            } else {
                None
            },
            _ => None,
        }
}

/// One event changes the mode settings, highlight definitions and default
/// colours only as far as it sets them.
proof fn lemma_event_settings(g: GridModel, e: RedrawEvent)
    requires
        g.wf(),
    ensures
        ({
            let n = g.applied(e);
            &&& (n.cursor_style_enabled, n.cursor_styles) == found_or(
                mode_info_set()(e),
                (g.cursor_style_enabled, g.cursor_styles),
            )
            &&& n.mode_index == found_or(mode_change()(e), g.mode_index)
            &&& n.foreground == found_or(foreground_set()(e), g.foreground)
            &&& n.background == found_or(background_set()(e), g.background)
            &&& n.special == found_or(special_set()(e), g.special)
            &&& forall|id: u64| #[trigger] n.attrs(id) == found_or(highlight_define(id)(e), g.attrs(id))
        }),
{
    match e {
        RedrawEvent::GridLine { grid, row, col_start, cells, .. } => {
            if grid == 1 && row <= usize::MAX && col_start <= usize::MAX {
                lemma_line_written_stays_on_row(g, row as nat, col_start as nat, 0, cells@);
            }
        },
        _ => {},
    }
}

/// A batch of events changes the mode settings, highlight definitions and
/// default colours as its latest events that set them say.
proof fn lemma_batch_settings(g: GridModel, events: Seq<RedrawEvent>)
    requires
        g.wf(),
    ensures
        ({
            let n = applied_all(g, events);
            &&& n.wf()
            &&& (n.cursor_style_enabled, n.cursor_styles) == found_or(
                latest(events, mode_info_set()),
                (g.cursor_style_enabled, g.cursor_styles),
            )
            &&& n.mode_index == found_or(latest(events, mode_change()), g.mode_index)
            &&& n.foreground == found_or(latest(events, foreground_set()), g.foreground)
            &&& n.background == found_or(latest(events, background_set()), g.background)
            &&& n.special == found_or(latest(events, special_set()), g.special)
            &&& forall|id: u64| #[trigger]
                n.attrs(id) == found_or(latest(events, highlight_define(id)), g.attrs(id))
        }),
    decreases events.len(),
{
    if events.len() > 0 {
        let prev = events.drop_last();
        let m = applied_all(g, prev);
        lemma_batch_settings(g, prev);
        lemma_events_keep_the_grid_well_formed(m, events.last());
        lemma_event_settings(m, events.last());
        let n = applied_all(g, events);
        assert forall|id: u64| #[trigger]
            n.attrs(id) == found_or(latest(events, highlight_define(id)), g.attrs(id)) by {
            assert(m.attrs(id) == found_or(latest(prev, highlight_define(id)), g.attrs(id)));
        }
    }
}

/// The cursor style follows the latest mode events: after a batch of
/// events, it is the style, among those of the latest `mode_info_set`, of
/// the mode of the latest `mode_change` (each taken from the grid before
/// the batch where the batch has none), or the plain style when styling is
/// off or that mode has no style.
pub proof fn lemma_cursor_style_follows_latest_mode_events(g: GridModel, events: Seq<RedrawEvent>)
    requires
        g.wf(),
    ensures
        ({
            let info = found_or(
                latest(events, mode_info_set()),
                (g.cursor_style_enabled, g.cursor_styles),
            );
            let index = found_or(latest(events, mode_change()), g.mode_index);
            applied_all(g, events).current_cursor_style() == cursor_style_from(
                info.0,
                info.1,
                index,
            )
        }),
{
    lemma_batch_settings(g, events);
}

/// Highlights resolve by their latest definitions: after a batch of events,
/// highlight `id` resolves with the attributes of the latest
/// `hl_attr_define` of `id` and with the default colours of the latest
/// `default_colors_set` that sets each of them, each taken from the grid
/// before the batch where the batch has none.
pub proof fn lemma_highlights_follow_latest_definitions(
    g: GridModel,
    events: Seq<RedrawEvent>,
    id: u64,
)
    requires
        g.wf(),
    ensures
        applied_all(g, events).resolved(id) == resolved_from(
            found_or(latest(events, highlight_define(id)), g.attrs(id)),
            found_or(latest(events, foreground_set()), g.foreground),
            found_or(latest(events, background_set()), g.background),
            found_or(latest(events, special_set()), g.special),
        ),
{
    lemma_batch_settings(g, events);
}

/// A `grid_scroll` event for the main grid moves the content of its region
/// (clipped to the grid) by the event's `rows` and `cols`: cell (`r`, `c`)
/// of the region takes the old content of cell (`r + rows`, `c + cols`)
/// when that cell is in the region, and is blank otherwise. Cells outside
/// the region keep their content, and the size stays.
pub proof fn lemma_scroll_event_moves_region(g: GridModel, event: RedrawEvent)
    requires
        g.wf(),
        event matches RedrawEvent::GridScroll { grid, .. } && grid == 1,
    ensures
        ({
            let n = g.applied(event);
            let top = event->GridScroll_top as usize as int;
            let bottom = if (event->GridScroll_bottom as usize as int) < g.height {
                event->GridScroll_bottom as usize as int
            } else {
                g.height as int
            };
            let left = event->GridScroll_left as usize as int;
            let right = if (event->GridScroll_right as usize as int) < g.width {
                event->GridScroll_right as usize as int
            } else {
                g.width as int
            };
            let rows = event->GridScroll_rows as int;
            let cols = event->GridScroll_cols as int;
            &&& n.wf()
            &&& n.width == g.width && n.height == g.height
            &&& forall|r: int, c: int|
                top <= r < bottom && left <= c < right ==> #[trigger] n.rows[r][c] == if top <= r
                    + rows < bottom && left <= c + cols < right {
                    g.rows[r + rows][c + cols]
                } else {
                    blank_cell()
                }
            &&& forall|r: int, c: int|
                0 <= r < g.height && 0 <= c < g.width && !(top <= r < bottom && left <= c < right)
                    ==> #[trigger] n.rows[r][c] == g.rows[r][c]
        }),
{
    lemma_scroll_moves_region(
        g,
        event->GridScroll_top as usize as nat,
        event->GridScroll_bottom as usize as nat,
        event->GridScroll_left as usize as nat,
        event->GridScroll_right as usize as nat,
        event->GridScroll_rows as int,
        event->GridScroll_cols as int,
    );
}

/// Resolving a highlight keeps each of its text attributes (bold, italic,
/// undercurl, strikethrough, overline), counts any of the four underline
/// styles as an underline, fills a missing colour in from the defaults,
/// and `reverse` swaps the foreground and background colours it would
/// otherwise have.
pub proof fn lemma_resolving_keeps_attributes(a: HighlightAttrs, fg: u32, bg: u32, sp: u32)
    ensures
        ({
            let r = resolved_from(a, fg, bg, sp);
            let plain = resolved_from(HighlightAttrs { reverse: false, ..a }, fg, bg, sp);
            &&& r.bold == a.bold
            &&& r.italic == a.italic
            &&& r.undercurl == a.undercurl
            &&& r.strikethrough == a.strikethrough
            &&& r.overline == a.overline
            &&& r.underline == (a.underline || a.underdouble || a.underdotted || a.underdashed)
            &&& plain.foreground == found_or(a.foreground, fg)
            &&& plain.background == found_or(a.background, bg)
            &&& r.special == found_or(a.special, sp)
            &&& a.reverse ==> r.foreground == plain.background && r.background == plain.foreground
            &&& !a.reverse ==> r.foreground == plain.foreground && r.background == plain.background
        }),
{
}

/// A `grid_cursor_goto` event puts the cursor at the event's row and
/// column and records the event's grid; cells and revisions stay.
pub proof fn lemma_cursor_goto_moves_the_cursor(g: GridModel, event: RedrawEvent)
    requires
        event is GridCursorGoto,
    ensures
        ({
            let n = g.applied(event);
            &&& n.cursor.row == event->GridCursorGoto_row as usize
            &&& n.cursor.col == event->GridCursorGoto_col as usize
            &&& n.cursor_grid == event->GridCursorGoto_grid
            &&& n.rows == g.rows
            &&& n.row_revisions == g.row_revisions
        }),
{
}

/// A `grid_resize` event for the main grid within the cell limit makes the
/// grid the event's `width` columns by `height` rows: the cells both sizes
/// have keep their content and the new cells are blank.
pub proof fn lemma_resize_event_sets_the_size(g: GridModel, event: RedrawEvent)
    requires
        g.wf(),
        event matches RedrawEvent::GridResize { grid, width, height } && grid == 1 && width
            <= usize::MAX && height <= usize::MAX && width * height <= MAX_GRID_CELLS,
    ensures
        ({
            let n = g.applied(event);
            let width = event->GridResize_width as int;
            let height = event->GridResize_height as int;
            &&& n.wf()
            &&& n.width == width && n.height == height
            &&& forall|r: int, c: int|
                0 <= r < height && 0 <= c < width ==> #[trigger] n.rows[r][c] == if r < g.height
                    && c < g.width {
                    g.rows[r][c]
                } else {
                    blank_cell()
                }
        }),
{
}

/// A `grid_clear` event for the main grid blanks every cell and keeps the
/// size.
pub proof fn lemma_clear_event_blanks_the_grid(g: GridModel, event: RedrawEvent)
    requires
        g.wf(),
        event == (RedrawEvent::GridClear { grid: 1 }),
    ensures
        ({
            let n = g.applied(event);
            &&& n.width == g.width && n.height == g.height
            &&& forall|r: int, c: int|
                0 <= r < g.height && 0 <= c < g.width ==> #[trigger] n.rows[r][c] == blank_cell()
        }),
{
}

/// Drawing runs from column `col` on leaves the cells of `row` left of
/// `col`, and the size, as they were.
proof fn lemma_line_written_keeps_earlier_columns(
    g: GridModel,
    row: nat,
    col: nat,
    highlight: u64,
    cells: Seq<GridCell>,
)
    requires
        g.wf(),
        row < g.height,
    ensures
        ({
            let n = g.line_written(row, col, highlight, cells);
            &&& n.width == g.width && n.height == g.height
            &&& n.rows[row as int].len() == g.width
            &&& forall|c: int| 0 <= c < col && c < g.width ==> #[trigger] n.rows[row as int][c]
                == g.rows[row as int][c]
        }),
    decreases cells.len(),
{
    lemma_line_written_stays_on_row(g, row, col, highlight, cells);
    if cells.len() == 0 || col >= g.width {
    } else {
        let run = cells[0];
        let id = match run.highlight_id {
            Some(id) => id,
            None => highlight,
        };
        let n: nat = if run.repeat < g.width - col {
            run.repeat as nat
        } else {
            (g.width - col) as nat
        };
        let written = GridModel {
            rows: g.rows.update(
                row as int,
                Seq::new(
                    g.width,
                    |c: int|
                        if col <= c < col + n {
                            crate::grid::CellView { text: run.text@, highlight_id: id }
                        } else {
                            g.rows[row as int][c]
                        },
                ),
            ),
            ..g
        };
        assert(written.wf());
        lemma_line_written_keeps_earlier_columns(written, row, col + n, id, cells.drop_first());
    }
}

/// The first run of a `grid_line` event on a row of the main grid writes
/// its text and highlight (highlight 0 when it names none) into `repeat`
/// cells from `col_start` on, stopping at the right edge.
pub proof fn lemma_line_event_writes_its_first_run(g: GridModel, event: RedrawEvent)
    requires
        g.wf(),
        event matches RedrawEvent::GridLine { grid, row, col_start, cells, .. } && grid == 1 && row
            < g.height && row <= usize::MAX && col_start <= usize::MAX && cells@.len() > 0,
    ensures
        ({
            let n = g.applied(event);
            let row = event->GridLine_row as int;
            let col = event->GridLine_col_start as int;
            let run = event->GridLine_cells@[0];
            &&& n.width == g.width && n.height == g.height
            &&& forall|c: int|
                col <= c < col + run.repeat && c < g.width ==> #[trigger] n.rows[row][c] == (
                crate::grid::CellView {
                    text: run.text@,
                    highlight_id: match run.highlight_id {
                        Some(id) => id,
                        None => 0,
                    },
                })
        }),
{
    let row = event->GridLine_row as nat;
    let col = event->GridLine_col_start as nat;
    let cells = event->GridLine_cells@;
    let run = cells[0];
    if col < g.width {
        let id = match run.highlight_id {
            Some(id) => id,
            None => 0,
        };
        let k: nat = if run.repeat < g.width - col {
            run.repeat as nat
        } else {
            (g.width - col) as nat
        };
        let written = GridModel {
            rows: g.rows.update(
                row as int,
                Seq::new(
                    g.width,
                    |c: int|
                        if col <= c < col + k {
                            crate::grid::CellView { text: run.text@, highlight_id: id }
                        } else {
                            g.rows[row as int][c]
                        },
                ),
            ),
            ..g
        };
        assert(written.wf());
        assert(g.line_written(row, col, 0, cells) == written.line_written(
            row,
            col + k,
            id,
            cells.drop_first(),
        ));
        lemma_line_written_keeps_earlier_columns(written, row, col + k, id, cells.drop_first());
        lemma_line_written_stays_on_row(g, row, col, 0, cells);
        let w = g.line_written(row, col, 0, cells);
        assert(g.applied(event) == w.with_row_marked(row));
        assert(w.with_row_marked(row).rows == w.rows);
        assert forall|c: int| col <= c < col + run.repeat && c < g.width implies #[trigger] w.rows[
            row as int][c] == (crate::grid::CellView { text: run.text@, highlight_id: id }) by {
            assert(c < col + k);
            assert(written.rows[row as int][c] == (crate::grid::CellView {
                text: run.text@,
                highlight_id: id,
            }));
        }
    }
}

} // verus!
