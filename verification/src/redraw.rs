use vstd::prelude::*;

use crate::text::{decimal, decimal_text};
use crate::msgpack::{
    copy_values, lookup, spec_as_bool, spec_as_i64, spec_as_str, spec_as_u64, spec_lookup, MsgValue,
};

verus! {

/// One run of a `grid_line` event: `text` repeated `repeat` times, drawn
/// with `highlight_id` when given and otherwise with the highlight of the
/// previous run of the same line.
#[derive(Debug, Clone, PartialEq, Eq)]
pub struct GridCell {
    pub text: String,
    pub highlight_id: Option<u64>,
    pub repeat: u64,
}

/// The RGB attributes of a highlight group, as Neovim defines them.
#[derive(Debug, Clone, Copy, PartialEq, Eq)]
pub struct HighlightAttrs {
    pub foreground: Option<u32>,
    pub background: Option<u32>,
    pub special: Option<u32>,
    pub reverse: bool,
    pub bold: bool,
    pub italic: bool,
    pub underline: bool,
    pub undercurl: bool,
    pub strikethrough: bool,
    pub underdouble: bool,
    pub underdotted: bool,
    pub underdashed: bool,
    pub overline: bool,
}

/// Attributes with no colour and no flag set.
pub open spec fn plain_attrs() -> HighlightAttrs {
    HighlightAttrs {
        foreground: None,
        background: None,
        special: None,
        reverse: false,
        bold: false,
        italic: false,
        underline: false,
        undercurl: false,
        strikethrough: false,
        underdouble: false,
        underdotted: false,
        underdashed: false,
        overline: false,
    }
}

impl Default for HighlightAttrs {
    fn default() -> (r: Self)
        ensures
            r == plain_attrs(),
    {
        HighlightAttrs {
            foreground: None,
            background: None,
            special: None,
            reverse: false,
            bold: false,
            italic: false,
            underline: false,
            undercurl: false,
            strikethrough: false,
            underdouble: false,
            underdotted: false,
            underdashed: false,
            overline: false,
        }
    }
}

#[derive(Debug, Clone, Copy, PartialEq, Eq, Structural)]
pub enum CursorShape {
    Block,
    Vertical,
    Horizontal,
}

impl Default for CursorShape {
    fn default() -> (r: Self)
        ensures
            r == CursorShape::Block,
    {
        CursorShape::Block
    }
}

/// How the cursor looks in one editor mode (an entry of `mode_info_set`).
#[derive(Debug, Clone, Copy, PartialEq, Eq)]
pub struct CursorStyle {
    pub shape: CursorShape,
    pub cell_percentage: u64,
    pub blink_wait: u64,
    pub blink_on: u64,
    pub blink_off: u64,
    pub attr_id: Option<u64>,
}

/// The style used when Neovim has not enabled cursor styling.
pub open spec fn plain_cursor_style() -> CursorStyle {
    CursorStyle {
        shape: CursorShape::Block,
        cell_percentage: 0,
        blink_wait: 0,
        blink_on: 0,
        blink_off: 0,
        attr_id: None,
    }
}

impl Default for CursorStyle {
    fn default() -> (r: Self)
        ensures
            r == plain_cursor_style(),
    {
        CursorStyle {
            shape: CursorShape::Block,
            cell_percentage: 0,
            blink_wait: 0,
            blink_on: 0,
            blink_off: 0,
            attr_id: None,
        }
    }
}

/// One event of a `redraw` notification of Neovim's line-grid UI protocol.
#[derive(Debug, Clone, PartialEq)]
pub enum RedrawEvent {
    GridResize { grid: u64, width: u64, height: u64 },
    GridLine { grid: u64, row: u64, col_start: u64, cells: Vec<GridCell>, wrap: bool },
    GridClear { grid: u64 },
    GridCursorGoto { grid: u64, row: u64, col: u64 },
    GridScroll {
        grid: u64,
        top: u64,
        bottom: u64,
        left: u64,
        right: u64,
        rows: i64,
        cols: i64,
    },
    DefaultColorsSet { foreground: i64, background: i64, special: i64 },
    HighlightDefine { id: u64, attrs: HighlightAttrs },
    ModeChange { mode: String, mode_index: u64 },
    ModeInfoSet { cursor_style_enabled: bool, styles: Vec<CursorStyle> },
    OptionSet { name: String, value: MsgValue },
    Flush,
    Unknown { name: String, args: Vec<MsgValue> },
}

/// A malformed `redraw` notification; `message` says what was wrong.
#[derive(Debug, Clone, PartialEq, Eq)]
pub struct DecodeError {
    pub message: String,
}

pub open spec fn arg_u64(args: Seq<MsgValue>, i: int) -> Option<u64> {
    if 0 <= i < args.len() {
        spec_as_u64(args[i])
    } else {
        None
    }
}

pub open spec fn arg_i64(args: Seq<MsgValue>, i: int) -> Option<i64> {
    if 0 <= i < args.len() {
        spec_as_i64(args[i])
    } else {
        None
    }
}

pub open spec fn arg_bool(args: Seq<MsgValue>, i: int) -> Option<bool> {
    if 0 <= i < args.len() {
        spec_as_bool(args[i])
    } else {
        None
    }
}

pub open spec fn arg_str(args: Seq<MsgValue>, i: int) -> Option<Seq<char>> {
    if 0 <= i < args.len() {
        spec_as_str(args[i])
    } else {
        None
    }
}

/// A `grid_line` cell is `[text]`, `[text, highlight]` or
/// `[text, highlight, repeat]`.
pub open spec fn raw_cell_ok(raw: MsgValue) -> bool {
    match raw {
        MsgValue::Array(fields) => {
            &&& fields@.len() <= 3
            &&& arg_str(fields@, 0) is Some
            &&& fields@.len() > 1 ==> spec_as_u64(fields@[1]) is Some
            &&& fields@.len() > 2 ==> spec_as_u64(fields@[2]) is Some
        },
        _ => false,
    }
}

/// `cell` is what the raw `grid_line` cell says; a missing repeat count is 1.
pub open spec fn cell_decodes(raw: MsgValue, cell: GridCell) -> bool {
    match raw {
        MsgValue::Array(fields) => {
            &&& arg_str(fields@, 0) == Some(cell.text@)
            &&& cell.highlight_id == arg_u64(fields@, 1)
            &&& cell.repeat == if fields@.len() > 2 {
                arg_u64(fields@, 2)->0
            } else {
                1
            }
        },
        _ => false,
    }
}

pub open spec fn cells_ok(raw: MsgValue) -> bool {
    match raw {
        MsgValue::Array(items) => forall|i: int|
            0 <= i < items@.len() ==> raw_cell_ok(#[trigger] items@[i]),
        _ => false,
    }
}

pub open spec fn cells_decode(raw: MsgValue, cells: Seq<GridCell>) -> bool {
    match raw {
        MsgValue::Array(items) => {
            &&& cells.len() == items@.len()
            &&& forall|i: int|
                0 <= i < items@.len() ==> #[trigger] cell_decodes(items@[i], cells[i])
        },
        _ => false,
    }
}

/// An RGB colour of a highlight map; the integer is cut to its low 32 bits.
pub open spec fn color_of(entries: Seq<(MsgValue, MsgValue)>, name: Seq<char>) -> Option<u32> {
    match spec_lookup(entries, name) {
        Some(v) => match spec_as_u64(v) {
            Some(n) => Some(n as u32),
            None => None,
        },
        None => None,
    }
}

/// A flag of a highlight map: set only when present and `true`.
pub open spec fn flag_of(entries: Seq<(MsgValue, MsgValue)>, name: Seq<char>) -> bool {
    match spec_lookup(entries, name) {
        Some(v) => spec_as_bool(v) == Some(true),
        None => false,
    }
}

pub open spec fn attrs_from(entries: Seq<(MsgValue, MsgValue)>) -> HighlightAttrs {
    HighlightAttrs {
        foreground: color_of(entries, "foreground"@),
        background: color_of(entries, "background"@),
        special: color_of(entries, "special"@),
        reverse: flag_of(entries, "reverse"@),
        bold: flag_of(entries, "bold"@),
        italic: flag_of(entries, "italic"@),
        underline: flag_of(entries, "underline"@),
        undercurl: flag_of(entries, "undercurl"@),
        strikethrough: flag_of(entries, "strikethrough"@),
        underdouble: flag_of(entries, "underdouble"@),
        underdotted: flag_of(entries, "underdotted"@),
        underdashed: flag_of(entries, "underdashed"@),
        overline: flag_of(entries, "overline"@),
    }
}

pub open spec fn u64_entry(entries: Seq<(MsgValue, MsgValue)>, name: Seq<char>) -> Option<u64> {
    match spec_lookup(entries, name) {
        Some(v) => spec_as_u64(v),
        None => None,
    }
}

pub open spec fn u64_entry_or(entries: Seq<(MsgValue, MsgValue)>, name: Seq<char>, d: u64) -> u64 {
    match u64_entry(entries, name) {
        Some(n) => n,
        None => d,
    }
}

pub open spec fn shape_from(entries: Seq<(MsgValue, MsgValue)>) -> CursorShape {
    match spec_lookup(entries, "cursor_shape"@) {
        Some(v) => match spec_as_str(v) {
            Some(s) => if s == "vertical"@ {
                CursorShape::Vertical
            } else if s == "horizontal"@ {
                CursorShape::Horizontal
            } else {
                CursorShape::Block
            },
            None => CursorShape::Block,
        },
        None => CursorShape::Block,
    }
}

/// The cursor style of one `mode_info_set` entry; missing values default to
/// a full block that does not blink.
pub open spec fn style_from(entries: Seq<(MsgValue, MsgValue)>) -> CursorStyle {
    CursorStyle {
        shape: shape_from(entries),
        cell_percentage: u64_entry_or(entries, "cell_percentage"@, 100),
        blink_wait: u64_entry_or(entries, "blinkwait"@, 0),
        blink_on: u64_entry_or(entries, "blinkon"@, 0),
        blink_off: u64_entry_or(entries, "blinkoff"@, 0),
        attr_id: u64_entry(entries, "attr_id"@),
    }
}

pub open spec fn styles_ok(raw: MsgValue) -> bool {
    match raw {
        MsgValue::Array(items) => forall|i: int|
            0 <= i < items@.len() ==> #[trigger] items@[i] is Dict,
        _ => false,
    }
}

pub open spec fn style_decodes(raw: MsgValue, style: CursorStyle) -> bool {
    match raw {
        MsgValue::Dict(entries) => style == style_from(entries@),
        _ => false,
    }
}

pub open spec fn styles_decode(raw: MsgValue, styles: Seq<CursorStyle>) -> bool {
    match raw {
        MsgValue::Array(items) => {
            &&& styles.len() == items@.len()
            &&& forall|i: int|
                0 <= i < items@.len() ==> #[trigger] style_decodes(items@[i], styles[i])
        },
        _ => false,
    }
}

/// The argument list `args` of an event called `name` is well formed.
/// Events of other names are always accepted.
pub open spec fn event_ok(name: Seq<char>, args: Seq<MsgValue>) -> bool {
    if name == "grid_resize"@ || name == "grid_cursor_goto"@ {
        arg_u64(args, 0) is Some && arg_u64(args, 1) is Some && arg_u64(args, 2) is Some
    } else if name == "grid_line"@ {
        &&& arg_u64(args, 0) is Some
        &&& arg_u64(args, 1) is Some
        &&& arg_u64(args, 2) is Some
        &&& 3 < args.len()
        &&& cells_ok(args[3])
        &&& arg_bool(args, 4) is Some
    } else if name == "grid_clear"@ {
        arg_u64(args, 0) is Some
    } else if name == "grid_scroll"@ {
        &&& forall|i: int| 0 <= i < 5 ==> #[trigger] arg_u64(args, i) is Some
        &&& arg_i64(args, 5) is Some
        &&& arg_i64(args, 6) is Some
    } else if name == "default_colors_set"@ {
        arg_i64(args, 0) is Some && arg_i64(args, 1) is Some && arg_i64(args, 2) is Some
    } else if name == "hl_attr_define"@ {
        arg_u64(args, 0) is Some && 1 < args.len() && args[1] is Dict
    } else if name == "mode_change"@ {
        arg_str(args, 0) is Some && arg_u64(args, 1) is Some
    } else if name == "mode_info_set"@ {
        arg_bool(args, 0) is Some && 1 < args.len() && styles_ok(args[1])
    } else if name == "option_set"@ {
        arg_str(args, 0) is Some && 1 < args.len()
    } else {
        true
    }
}

/// `event` is the event that `name` and `args` describe. Unknown names are
/// kept with their arguments, so that newer Neovim versions still work.
pub open spec fn event_decodes(name: Seq<char>, args: Seq<MsgValue>, event: RedrawEvent) -> bool {
    if name == "grid_resize"@ {
        event == RedrawEvent::GridResize {
            grid: arg_u64(args, 0)->0,
            width: arg_u64(args, 1)->0,
            height: arg_u64(args, 2)->0,
        }
    } else if name == "grid_cursor_goto"@ {
        event == RedrawEvent::GridCursorGoto {
            grid: arg_u64(args, 0)->0,
            row: arg_u64(args, 1)->0,
            col: arg_u64(args, 2)->0,
        }
    } else if name == "grid_line"@ {
        match event {
            RedrawEvent::GridLine { grid, row, col_start, cells, wrap } => {
                &&& grid == arg_u64(args, 0)->0
                &&& row == arg_u64(args, 1)->0
                &&& col_start == arg_u64(args, 2)->0
                &&& cells_decode(args[3], cells@)
                &&& wrap == arg_bool(args, 4)->0
            },
            _ => false,
        }
    } else if name == "grid_clear"@ {
        event == RedrawEvent::GridClear { grid: arg_u64(args, 0)->0 }

    } else if name == "grid_scroll"@ {
        event == RedrawEvent::GridScroll {
            grid: arg_u64(args, 0)->0,
            top: arg_u64(args, 1)->0,
            bottom: arg_u64(args, 2)->0,
            left: arg_u64(args, 3)->0,
            right: arg_u64(args, 4)->0,
            rows: arg_i64(args, 5)->0,
            cols: arg_i64(args, 6)->0,
        }
    } else if name == "default_colors_set"@ {
        event == RedrawEvent::DefaultColorsSet {
            foreground: arg_i64(args, 0)->0,
            background: arg_i64(args, 1)->0,
            special: arg_i64(args, 2)->0,
        }
    } else if name == "hl_attr_define"@ {
        event == RedrawEvent::HighlightDefine {
            id: arg_u64(args, 0)->0,
            attrs: attrs_from(args[1]->Dict_0@),
        }
    } else if name == "mode_change"@ {
        match event {
            RedrawEvent::ModeChange { mode, mode_index } => {
                &&& arg_str(args, 0) == Some(mode@)
                &&& mode_index == arg_u64(args, 1)->0
            },
            _ => false,
        }
    } else if name == "mode_info_set"@ {
        match event {
            RedrawEvent::ModeInfoSet { cursor_style_enabled, styles } => {
                &&& cursor_style_enabled == arg_bool(args, 0)->0
                &&& styles_decode(args[1], styles@)
            },
            _ => false,
        }
    } else if name == "option_set"@ {
        match event {
            RedrawEvent::OptionSet { name: option, value } => {
                &&& arg_str(args, 0) == Some(option@)
                &&& value.model() == args[1].model()
            },
            _ => false,
        }
    } else if name == "flush"@ {
        event is Flush
    } else {
        match event {
            RedrawEvent::Unknown { name: n, args: a } => {
                &&& n@ == name
                &&& a@.len() == args.len()
                &&& forall|i: int| 0 <= i < args.len() ==> #[trigger] a@[i].model() == args[i].model()
            },
            _ => false,
        }
    }
}

/// The calls of one batch `[name, args1, args2, ...]` of a `redraw`
/// notification: each argument list with the batch's event name.
pub open spec fn batch_calls(raw: MsgValue) -> Option<Seq<(Seq<char>, Seq<MsgValue>)>> {
    match raw {
        MsgValue::Array(items) => {
            if items@.len() > 0 && spec_as_str(items@[0]) is Some && forall|k: int|
                1 <= k < items@.len() ==> #[trigger] items@[k] is Array {
                Some(
                    Seq::new(
                        (items@.len() - 1) as nat,
                        |k: int| (spec_as_str(items@[0])->0, items@[k + 1]->Array_0@),
                    ),
                )
            } else {
                None
            }
        },
        _ => None,
    }
}

/// A batch is well formed and each of its calls is.
pub open spec fn batch_ok(raw: MsgValue) -> bool {
    match batch_calls(raw) {
        Some(calls) => forall|k: int|
            0 <= k < calls.len() ==> #[trigger] event_ok(calls[k].0, calls[k].1),
        None => false,
    }
}

/// The calls of all batches, in order.
pub open spec fn notification_calls(params: Seq<MsgValue>) -> Option<
    Seq<(Seq<char>, Seq<MsgValue>)>,
>
    decreases params.len(),
{
    if params.len() == 0 {
        Some(Seq::empty())
    } else {
        match (notification_calls(params.drop_last()), batch_calls(params.last())) {
            (Some(before), Some(last)) => Some(before + last),
            _ => None,
        }
    }
}

/// `events` holds one decoded event per call of the notification, in order.
pub open spec fn notification_decodes(params: Seq<MsgValue>, events: Seq<RedrawEvent>) -> bool {
    match notification_calls(params) {
        Some(calls) => {
            &&& events.len() == calls.len()
            &&& forall|j: int|
                0 <= j < calls.len() ==> #[trigger] event_decodes(calls[j].0, calls[j].1, events[j])
        },
        None => false,
    }
}

/// "`name` argument `index` must be `what`".
pub open spec fn argument_error_text(name: Seq<char>, index: nat, what: Seq<char>) -> Seq<char> {
    name + " argument "@ + decimal_text(index) + " must be "@ + what
}

/// The complaint about the first of arguments `from..to` that is not an
/// unsigned integer.
pub open spec fn unsigned_error(name: Seq<char>, args: Seq<MsgValue>, from: nat, to: nat) -> Seq<char>
    decreases to - from,
{
    if from >= to {
        Seq::empty()
    } else if arg_u64(args, from as int) is None {
        argument_error_text(name, from, "an unsigned integer"@)
    } else {
        unsigned_error(name, args, from + 1, to)
    }
}

/// The complaint about the first of arguments `from..to` that is not an
/// integer.
pub open spec fn signed_error(name: Seq<char>, args: Seq<MsgValue>, from: nat, to: nat) -> Seq<char>
    decreases to - from,
{
    if from >= to {
        Seq::empty()
    } else if arg_i64(args, from as int) is None {
        argument_error_text(name, from, "an integer"@)
    } else {
        signed_error(name, args, from + 1, to)
    }
}

/// What is wrong with a raw `grid_line` cell that is not well formed.
pub open spec fn cell_error(raw: MsgValue) -> Seq<char> {
    match raw {
        MsgValue::Array(fields) => if fields@.len() > 3 {
            "grid cell has more than three fields"@
        } else if arg_str(fields@, 0) is None {
            "grid cell text must be a string"@
        } else if fields@.len() > 1 && spec_as_u64(fields@[1]) is None {
            "grid cell highlight id must be an integer"@
        } else {
            "grid cell repeat must be an integer"@
        },
        _ => "grid cell must be an array"@,
    }
}

/// What is wrong with the first malformed cell of `items`.
pub open spec fn cells_error_from(items: Seq<MsgValue>) -> Seq<char>
    decreases items.len(),
{
    if items.len() == 0 {
        Seq::empty()
    } else if !raw_cell_ok(items[0]) {
        cell_error(items[0])
    } else {
        cells_error_from(items.drop_first())
    }
}

/// What is wrong with the cells of a `grid_line` event.
pub open spec fn cells_error(raw: MsgValue) -> Seq<char> {
    match raw {
        MsgValue::Array(items) => cells_error_from(items@),
        _ => "grid_line cells must be an array"@,
    }
}

/// What is wrong with the cursor styles of a `mode_info_set` event.
pub open spec fn styles_error(raw: MsgValue) -> Seq<char> {
    match raw {
        MsgValue::Array(_) => "cursor style must be a map"@,
        _ => "mode_info_set styles must be an array"@,
    }
}

/// What is wrong with the arguments `args` of an event called `name` that
/// are not well formed: the first wrong argument, checked in order.
pub open spec fn event_error(name: Seq<char>, args: Seq<MsgValue>) -> Seq<char> {
    if name == "grid_resize"@ || name == "grid_cursor_goto"@ {
        unsigned_error(name, args, 0, 3)
    } else if name == "grid_line"@ {
        if !(arg_u64(args, 0) is Some && arg_u64(args, 1) is Some && arg_u64(args, 2) is Some) {
            unsigned_error(name, args, 0, 3)
        } else if args.len() <= 3 {
            "grid_line is missing cells"@
        } else if !cells_ok(args[3]) {
            cells_error(args[3])
        } else {
            "grid_line wrap must be a boolean"@
        }
    } else if name == "grid_clear"@ {
        unsigned_error(name, args, 0, 1)
    } else if name == "grid_scroll"@ {
        if exists|k: int| 0 <= k < 5 && #[trigger] arg_u64(args, k) is None {
            unsigned_error(name, args, 0, 5)
        } else {
            signed_error(name, args, 5, 7)
        }
    } else if name == "default_colors_set"@ {
        signed_error(name, args, 0, 3)
    } else if name == "hl_attr_define"@ {
        if arg_u64(args, 0) is None {
            argument_error_text(name, 0, "an unsigned integer"@)
        } else if args.len() <= 1 {
            "hl_attr_define is missing RGB attributes"@
        } else {
            "highlight RGB attributes must be a map"@
        }
    } else if name == "mode_change"@ {
        if arg_str(args, 0) is None {
            "mode_change mode must be a string"@
        } else {
            argument_error_text(name, 1, "an unsigned integer"@)
        }
    } else if name == "mode_info_set"@ {
        if arg_bool(args, 0) is None {
            "mode_info_set enabled flag must be a boolean"@
        } else if args.len() <= 1 {
            "mode_info_set is missing cursor styles"@
        } else {
            styles_error(args[1])
        }
    } else if name == "option_set"@ {
        if arg_str(args, 0) is None {
            "option_set name must be a string"@
        } else {
            "option_set is missing value"@
        }
    } else {
        Seq::empty()
    }
}

/// What is wrong with the first malformed argument list among `lists`, the
/// calls of event `name`.
pub open spec fn calls_error_from(name: Seq<char>, lists: Seq<MsgValue>) -> Seq<char>
    decreases lists.len(),
{
    if lists.len() == 0 {
        Seq::empty()
    } else if !(lists[0] is Array) {
        name + " arguments must be an array"@
    } else if !event_ok(name, lists[0]->Array_0@) {
        event_error(name, lists[0]->Array_0@)
    } else {
        calls_error_from(name, lists.drop_first())
    }
}

/// What is wrong with a batch that is not well formed.
pub open spec fn batch_error(raw: MsgValue) -> Seq<char> {
    match raw {
        MsgValue::Array(items) => if items@.len() > 0 && spec_as_str(items@[0]) is Some {
            calls_error_from(spec_as_str(items@[0])->0, items@.drop_first())
        } else {
            "redraw event name must be a string"@
        },
        _ => "redraw event must be an array"@,
    }
}

/// What is wrong with the first malformed batch of a notification.
pub open spec fn notification_error(params: Seq<MsgValue>) -> Seq<char>
    decreases params.len(),
{
    if params.len() == 0 {
        Seq::empty()
    } else if !batch_ok(params[0]) {
        batch_error(params[0])
    } else {
        notification_error(params.drop_first())
    }
}

fn error(message: &str) -> (e: DecodeError)
    ensures
        e.message@ == message@,
{
    DecodeError { message: String::from_str(message) }
}

/// "`event` argument `index` must be `what`".
fn argument_error(event: &String, index: usize, what: &str) -> (e: DecodeError)
    ensures
        e.message@ == argument_error_text(event@, index as nat, what@),
{
    let mut message = event.clone();
    message.append(" argument ");
    message.append(decimal(index as u64).as_str());
    message.append(" must be ");
    message.append(what);
    DecodeError { message }
}

fn number(args: &Vec<MsgValue>, index: usize, event: &String) -> (r: Result<u64, DecodeError>)
    ensures
        match r {
            Ok(n) => arg_u64(args@, index as int) == Some(n),
            Err(e) => arg_u64(args@, index as int) is None && e.message@ == argument_error_text(
                event@,
                index as nat,
                "an unsigned integer"@,
            ),
        },
{
    if index < args.len() {
        if let Some(n) = args[index].as_u64() {
            return Ok(n);
        }
    }
    Err(argument_error(event, index, "an unsigned integer"))
}

fn signed_number(args: &Vec<MsgValue>, index: usize, event: &String) -> (r: Result<i64, DecodeError>)
    ensures
        match r {
            Ok(n) => arg_i64(args@, index as int) == Some(n),
            Err(e) => arg_i64(args@, index as int) is None && e.message@ == argument_error_text(
                event@,
                index as nat,
                "an integer"@,
            ),
        },
{
    if index < args.len() {
        if let Some(n) = args[index].as_i64() {
            return Ok(n);
        }
    }
    Err(argument_error(event, index, "an integer"))
}

fn flag_entry(entries: &Vec<(MsgValue, MsgValue)>, name: &str) -> (r: bool)
    ensures
        r == flag_of(entries@, name@),
{
    match lookup(entries, &String::from_str(name)) {
        Some(v) => match v.as_bool() {
            Some(b) => b,
            None => false,
        },
        None => false,
    }
}

fn color_entry(entries: &Vec<(MsgValue, MsgValue)>, name: &str) -> (r: Option<u32>)
    ensures
        r == color_of(entries@, name@),
{
    match lookup(entries, &String::from_str(name)) {
        Some(v) => match v.as_u64() {
            Some(n) => Some(n as u32),
            None => None,
        },
        None => None,
    }
}

fn u64_entry_exec(entries: &Vec<(MsgValue, MsgValue)>, name: &str) -> (r: Option<u64>)
    ensures
        r == u64_entry(entries@, name@),
{
    match lookup(entries, &String::from_str(name)) {
        Some(v) => v.as_u64(),
        None => None,
    }
}

fn decode_highlight(value: &MsgValue) -> (r: Result<HighlightAttrs, DecodeError>)
    ensures
        match r {
            Ok(attrs) => value matches MsgValue::Dict(e) && attrs == attrs_from(e@),
            Err(e) => !(value is Dict) && e.message@ == "highlight RGB attributes must be a map"@,
        },
{
    let entries = match value.as_map() {
        Some(entries) => entries,
        None => {
            return Err(error("highlight RGB attributes must be a map"));
        },
    };
    Ok(
        HighlightAttrs {
            foreground: color_entry(entries, "foreground"),
            background: color_entry(entries, "background"),
            special: color_entry(entries, "special"),
            reverse: flag_entry(entries, "reverse"),
            bold: flag_entry(entries, "bold"),
            italic: flag_entry(entries, "italic"),
            underline: flag_entry(entries, "underline"),
            undercurl: flag_entry(entries, "undercurl"),
            strikethrough: flag_entry(entries, "strikethrough"),
            underdouble: flag_entry(entries, "underdouble"),
            underdotted: flag_entry(entries, "underdotted"),
            underdashed: flag_entry(entries, "underdashed"),
            overline: flag_entry(entries, "overline"),
        },
    )
}

fn decode_style(entries: &Vec<(MsgValue, MsgValue)>) -> (r: CursorStyle)
    ensures
        r == style_from(entries@),
{
    let shape = match lookup(entries, &String::from_str("cursor_shape")) {
        Some(v) => match v {
            MsgValue::Str(s) => {
                if *s == String::from_str("vertical") {
                    CursorShape::Vertical
                } else if *s == String::from_str("horizontal") {
                    CursorShape::Horizontal
                } else {
                    CursorShape::Block
                }
            },
            _ => CursorShape::Block,
        },
        None => CursorShape::Block,
    };
    CursorStyle {
        shape,
        cell_percentage: match u64_entry_exec(entries, "cell_percentage") {
            Some(n) => n,
            None => 100,
        },
        blink_wait: match u64_entry_exec(entries, "blinkwait") {
            Some(n) => n,
            None => 0,
        },
        blink_on: match u64_entry_exec(entries, "blinkon") {
            Some(n) => n,
            None => 0,
        },
        blink_off: match u64_entry_exec(entries, "blinkoff") {
            Some(n) => n,
            None => 0,
        },
        attr_id: u64_entry_exec(entries, "attr_id"),
    }
}

fn decode_cursor_styles(value: &MsgValue) -> (r: Result<Vec<CursorStyle>, DecodeError>)
    ensures
        match r {
            Ok(styles) => styles_ok(*value) && styles_decode(*value, styles@),
            Err(e) => !styles_ok(*value) && e.message@ == styles_error(*value),
        },
{
    let items = match value.as_array() {
        Some(items) => items,
        None => {
            return Err(error("mode_info_set styles must be an array"));
        },
    };
    let mut styles: Vec<CursorStyle> = Vec::new();
    let mut i: usize = 0;
    while i < items.len()
        invariant
            *value == MsgValue::Array(*items),
            i <= items@.len(),
            styles@.len() == i,
            forall|j: int| 0 <= j < i ==> #[trigger] style_decodes(items@[j], styles@[j]),
            forall|j: int| 0 <= j < i ==> #[trigger] items@[j] is Dict,
        decreases items@.len() - i,
    {
        let entries = match items[i].as_map() {
            Some(entries) => entries,
            None => {
                return Err(error("cursor style must be a map"));
            },
        };
        styles.push(decode_style(entries));
        i += 1;
    }
    Ok(styles)
}

fn decode_cell(raw: &MsgValue) -> (r: Result<GridCell, DecodeError>)
    ensures
        match r {
            Ok(cell) => raw_cell_ok(*raw) && cell_decodes(*raw, cell),
            Err(e) => !raw_cell_ok(*raw) && e.message@ == cell_error(*raw),
        },
{
    let fields = match raw.as_array() {
        Some(fields) => fields,
        None => {
            return Err(error("grid cell must be an array"));
        },
    };
    if fields.len() > 3 {
        return Err(error("grid cell has more than three fields"));
    }
    let text = if fields.len() > 0 {
        match fields[0].as_str() {
            Some(text) => text.to_owned(),
            None => {
                return Err(error("grid cell text must be a string"));
            },
        }
    } else {
        return Err(error("grid cell text must be a string"));
    };
    let highlight_id = if fields.len() > 1 {
        match fields[1].as_u64() {
            Some(id) => Some(id),
            None => {
                return Err(error("grid cell highlight id must be an integer"));
            },
        }
    } else {
        None
    };
    let repeat = if fields.len() > 2 {
        match fields[2].as_u64() {
            Some(n) => n,
            None => {
                return Err(error("grid cell repeat must be an integer"));
            },
        }
    } else {
        1
    };
    Ok(GridCell { text, highlight_id, repeat })
}

fn decode_cells(value: &MsgValue) -> (r: Result<Vec<GridCell>, DecodeError>)
    ensures
        match r {
            Ok(cells) => cells_ok(*value) && cells_decode(*value, cells@),
            Err(e) => !cells_ok(*value) && e.message@ == cells_error(*value),
        },
{
    let items = match value.as_array() {
        Some(items) => items,
        None => {
            return Err(error("grid_line cells must be an array"));
        },
    };
    let mut decoded: Vec<GridCell> = Vec::new();
    let mut i: usize = 0;
    assert(items@.subrange(0, items@.len() as int) =~= items@);
    while i < items.len()
        invariant
            *value == MsgValue::Array(*items),
            i <= items@.len(),
            decoded@.len() == i,
            forall|j: int| 0 <= j < i ==> #[trigger] cell_decodes(items@[j], decoded@[j]),
            forall|j: int| 0 <= j < i ==> #[trigger] raw_cell_ok(items@[j]),
            cells_error_from(items@) == cells_error_from(items@.subrange(i as int, items@.len() as int)),
        decreases items@.len() - i,
    {
        let ghost rest = items@.subrange(i as int, items@.len() as int);
        assert(rest[0] == items@[i as int]);
        assert(rest.drop_first() =~= items@.subrange(i + 1, items@.len() as int));
        let cell = match decode_cell(&items[i]) {
            Ok(cell) => cell,
            Err(e) => {
                proof {
                    assert(!raw_cell_ok(items@[i as int]));
                    if cells_ok(*value) {
                        let v = *value;
                        assert(v->Array_0 == *items);
                        assert(raw_cell_ok(v->Array_0@[i as int]));
                    }
                }
                return Err(e);
            },
        };
        decoded.push(cell);
        i += 1;
    }
    Ok(decoded)
}

fn is_named(name: &String, expected: &str) -> (r: bool)
    ensures
        r == (name@ == expected@),
{
    *name == String::from_str(expected)
}

/// Decodes the arguments of one call of a redraw event.
fn decode_event(name: &String, args: &Vec<MsgValue>) -> (r: Result<RedrawEvent, DecodeError>)
    ensures
        match r {
            Ok(event) => event_ok(name@, args@) && event_decodes(name@, args@, event),
            Err(e) => !event_ok(name@, args@) && e.message@ == event_error(name@, args@),
        },
{
    proof {
        reveal_with_fuel(unsigned_error, 6);
        reveal_with_fuel(signed_error, 4);
    }
    if is_named(name, "grid_resize") || is_named(name, "grid_cursor_goto") {
        let grid = match number(args, 0, name) {
            Ok(n) => n,
            Err(e) => {
                return Err(e);
            },
        };
        let first = match number(args, 1, name) {
            Ok(n) => n,
            Err(e) => {
                return Err(e);
            },
        };
        let second = match number(args, 2, name) {
            Ok(n) => n,
            Err(e) => {
                return Err(e);
            },
        };
        if is_named(name, "grid_resize") {
            Ok(RedrawEvent::GridResize { grid, width: first, height: second })
        } else {
            Ok(RedrawEvent::GridCursorGoto { grid, row: first, col: second })
        }
    } else if is_named(name, "grid_line") {
        let grid = match number(args, 0, name) {
            Ok(n) => n,
            Err(e) => {
                return Err(e);
            },
        };
        let row = match number(args, 1, name) {
            Ok(n) => n,
            Err(e) => {
                return Err(e);
            },
        };
        let col_start = match number(args, 2, name) {
            Ok(n) => n,
            Err(e) => {
                return Err(e);
            },
        };
        if args.len() <= 3 {
            return Err(error("grid_line is missing cells"));
        }
        let cells = match decode_cells(&args[3]) {
            Ok(cells) => cells,
            Err(e) => {
                return Err(e);
            },
        };
        let wrap = if args.len() > 4 {
            match args[4].as_bool() {
                Some(b) => b,
                None => {
                    return Err(error("grid_line wrap must be a boolean"));
                },
            }
        } else {
            return Err(error("grid_line wrap must be a boolean"));
        };
        Ok(RedrawEvent::GridLine { grid, row, col_start, cells, wrap })
    } else if is_named(name, "grid_clear") {
        match number(args, 0, name) {
            Ok(grid) => Ok(RedrawEvent::GridClear { grid }),
            Err(e) => Err(e),
        }
    } else if is_named(name, "grid_scroll") {
        let grid = match number(args, 0, name) {
            Ok(n) => n,
            Err(e) => {
                return Err(e);
            },
        };
        let top = match number(args, 1, name) {
            Ok(n) => n,
            Err(e) => {
                return Err(e);
            },
        };
        let bottom = match number(args, 2, name) {
            Ok(n) => n,
            Err(e) => {
                return Err(e);
            },
        };
        let left = match number(args, 3, name) {
            Ok(n) => n,
            Err(e) => {
                return Err(e);
            },
        };
        let right = match number(args, 4, name) {
            Ok(n) => n,
            Err(e) => {
                return Err(e);
            },
        };
        let rows = match signed_number(args, 5, name) {
            Ok(n) => n,
            Err(e) => {
                return Err(e);
            },
        };
        let cols = match signed_number(args, 6, name) {
            Ok(n) => n,
            Err(e) => {
                return Err(e);
            },
        };
        assert forall|k: int| 0 <= k < 5 implies #[trigger] arg_u64(args@, k) is Some by {
            if k == 0 {
            } else if k == 1 {
            } else if k == 2 {
            } else if k == 3 {
            } else {
            }
        }
        Ok(RedrawEvent::GridScroll { grid, top, bottom, left, right, rows, cols })
    } else if is_named(name, "default_colors_set") {
        let foreground = match signed_number(args, 0, name) {
            Ok(n) => n,
            Err(e) => {
                return Err(e);
            },
        };
        let background = match signed_number(args, 1, name) {
            Ok(n) => n,
            Err(e) => {
                return Err(e);
            },
        };
        let special = match signed_number(args, 2, name) {
            Ok(n) => n,
            Err(e) => {
                return Err(e);
            },
        };
        Ok(RedrawEvent::DefaultColorsSet { foreground, background, special })
    } else if is_named(name, "hl_attr_define") {
        let id = match number(args, 0, name) {
            Ok(n) => n,
            Err(e) => {
                return Err(e);
            },
        };
        if args.len() <= 1 {
            return Err(error("hl_attr_define is missing RGB attributes"));
        }
        match decode_highlight(&args[1]) {
            Ok(attrs) => Ok(RedrawEvent::HighlightDefine { id, attrs }),
            Err(e) => Err(e),
        }
    } else if is_named(name, "mode_change") {
        let mode = if args.len() > 0 {
            match args[0].as_str() {
                Some(mode) => mode.to_owned(),
                None => {
                    return Err(error("mode_change mode must be a string"));
                },
            }
        } else {
            return Err(error("mode_change mode must be a string"));
        };
        match number(args, 1, name) {
            Ok(mode_index) => {
                let ev = RedrawEvent::ModeChange { mode, mode_index };
                assert(event_decodes(name@, args@, ev));
                Ok(ev)
            },
            Err(e) => Err(e),
        }
    } else if is_named(name, "mode_info_set") {
        let cursor_style_enabled = if args.len() > 0 {
            match args[0].as_bool() {
                Some(b) => b,
                None => {
                    return Err(error("mode_info_set enabled flag must be a boolean"));
                },
            }
        } else {
            return Err(error("mode_info_set enabled flag must be a boolean"));
        };
        if args.len() <= 1 {
            return Err(error("mode_info_set is missing cursor styles"));
        }
        match decode_cursor_styles(&args[1]) {
            Ok(styles) => {
                let ev = RedrawEvent::ModeInfoSet { cursor_style_enabled, styles };
                assert(event_decodes(name@, args@, ev));
                Ok(ev)
            },
            Err(e) => Err(e),
        }
    } else if is_named(name, "option_set") {
        let option = if args.len() > 0 {
            match args[0].as_str() {
                Some(option) => option.to_owned(),
                None => {
                    return Err(error("option_set name must be a string"));
                },
            }
        } else {
            return Err(error("option_set name must be a string"));
        };
        if args.len() <= 1 {
            return Err(error("option_set is missing value"));
        }
        let ev = RedrawEvent::OptionSet { name: option, value: args[1].clone() };
        assert(event_decodes(name@, args@, ev));
        Ok(ev)
    } else if is_named(name, "flush") {
        Ok(RedrawEvent::Flush)
    } else {
        let ev = RedrawEvent::Unknown { name: name.clone(), args: copy_values(args) };
        assert(event_decodes(name@, args@, ev));
        Ok(ev)
    }
}

/// Decodes the parameters of a `redraw` notification: a list of batches
/// `[name, args1, args2, ...]`, each argument list giving one event.
pub fn decode_redraw_notification(params: &[MsgValue]) -> (r: Result<
    Vec<RedrawEvent>,
    DecodeError,
>)
    ensures
        r is Ok <==> forall|i: int| 0 <= i < params@.len() ==> #[trigger] batch_ok(params@[i]),
        r matches Ok(events) ==> notification_decodes(params@, events@),
        r matches Err(e) ==> e.message@ == notification_error(params@),
{
    let mut decoded: Vec<RedrawEvent> = Vec::new();
    let ghost mut calls: Seq<(Seq<char>, Seq<MsgValue>)> = Seq::empty();
    let mut i: usize = 0;
    assert(params@.take(0) =~= Seq::<MsgValue>::empty());
    assert(params@.subrange(0, params@.len() as int) =~= params@);
    while i < params.len()
        invariant
            i <= params@.len(),
            forall|j: int| 0 <= j < i ==> #[trigger] batch_ok(params@[j]),
            notification_error(params@) == notification_error(
                params@.subrange(i as int, params@.len() as int),
            ),
            notification_calls(params@.take(i as int)) == Some(calls),
            decoded@.len() == calls.len(),
            forall|j: int|
                0 <= j < calls.len() ==> #[trigger] event_decodes(
                    calls[j].0,
                    calls[j].1,
                    decoded@[j],
                ),
        decreases params@.len() - i,
    {
        let raw_event = &params[i];
        let ghost remaining = params@.subrange(i as int, params@.len() as int);
        proof {
            assert(remaining[0] == params@[i as int]);
            assert(remaining.drop_first() =~= params@.subrange(i + 1, params@.len() as int));
        }
        let event = match raw_event.as_array() {
            Some(event) => event,
            None => {
                assert(!batch_ok(params@[i as int]));
                return Err(error("redraw event must be an array"));
            },
        };
        let name = if event.len() > 0 {
            match &event[0] {
                MsgValue::Str(name) => name,
                _ => {
                    assert(!batch_ok(params@[i as int]));
                    return Err(error("redraw event name must be a string"));
                },
            }
        } else {
            assert(!batch_ok(params@[i as int]));
            return Err(error("redraw event name must be a string"));
        };
        let ghost prefix = decoded@;
        let mut k: usize = 1;
        proof {
            assert(event@.drop_first() =~= event@.subrange(1, event@.len() as int));
        }
        while k < event.len()
            invariant
                *raw_event == MsgValue::Array(*event),
                raw_event == params@[i as int],
                i < params@.len(),
                notification_error(params@) == notification_error(
                    params@.subrange(i as int, params@.len() as int),
                ),
                params@.subrange(i as int, params@.len() as int)[0] == params@[i as int],
                batch_error(params@[i as int]) == calls_error_from(
                    name@,
                    event@.subrange(k as int, event@.len() as int),
                ),
                event@.len() > 0,
                event@[0] == MsgValue::Str(*name),
                1 <= k <= event@.len(),
                decoded@.len() == prefix.len() + k - 1,
                forall|j: int| 0 <= j < prefix.len() ==> #[trigger] decoded@[j] == prefix[j],
                forall|m: int|
                    1 <= m < k ==> (#[trigger] event@[m] matches MsgValue::Array(args) && event_ok(
                        name@,
                        args@,
                    ) && event_decodes(name@, args@, decoded@[prefix.len() + m - 1])),
            decreases event@.len() - k,
        {
            let ghost lists = event@.subrange(k as int, event@.len() as int);
            proof {
                assert(lists[0] == event@[k as int]);
                assert(lists.drop_first() =~= event@.subrange(k + 1, event@.len() as int));
            }
            let args = match event[k].as_array() {
                Some(args) => args,
                None => {
                    assert(!batch_ok(params@[i as int]));
                    let mut message = name.clone();
                    message.append(" arguments must be an array");
                    return Err(DecodeError { message });
                },
            };
            match decode_event(name, args) {
                Ok(ev) => {
                    decoded.push(ev);
                },
                Err(e) => {
                    proof {
                        if let Some(b) = batch_calls(params@[i as int]) {
                            assert(b[k - 1] == (name@, args@));
                            assert(!event_ok(b[k - 1].0, b[k - 1].1));
                        }
                        assert(!batch_ok(params@[i as int]));
                    }
                    return Err(e);
                },
            }
            k += 1;
        }
        proof {
            let b = Seq::new(
                (event@.len() - 1) as nat,
                |m: int| (spec_as_str(event@[0])->0, event@[m + 1]->Array_0@),
            );
            assert forall|m: int| 1 <= m < event@.len() implies #[trigger] event@[m] is Array by {}
            assert(batch_calls(params@[i as int]) == Some(b));
            assert forall|m: int| 0 <= m < b.len() implies #[trigger] event_ok(b[m].0, b[m].1) by {
                assert(event@[m + 1] is Array);
            }
            assert(batch_ok(params@[i as int]));
            let next = params@.take(i + 1);
            assert(next.drop_last() =~= params@.take(i as int));
            assert(next.last() == params@[i as int]);
            let new_calls = calls + b;
            assert(notification_calls(next) == Some(new_calls));
            assert forall|j: int| 0 <= j < new_calls.len() implies #[trigger] event_decodes(
                new_calls[j].0,
                new_calls[j].1,
                decoded@[j],
            ) by {
                if j >= calls.len() {
                    let m = j - calls.len() + 1;
                    assert(event@[m] is Array);
                }
            }
            calls = new_calls;
        }
        i += 1;
    }
    assert(params@.take(params@.len() as int) =~= params@);
    Ok(decoded)
}

/// A `mode_info_set` entry's `cursor_shape` names the cursor's shape: the
/// string `vertical` gives the vertical bar, `horizontal` the horizontal
/// bar, and any other value, or none, the block.
pub proof fn lemma_cursor_shape_follows_its_name(entries: Seq<(MsgValue, MsgValue)>)
    ensures
        (style_from(entries).shape is Vertical) == (spec_lookup(entries, "cursor_shape"@) matches Some(
            v,
        ) && spec_as_str(v) == Some("vertical"@)),
        (style_from(entries).shape is Horizontal) == (spec_lookup(entries, "cursor_shape"@) matches Some(
            v,
        ) && spec_as_str(v) == Some("horizontal"@)),
{
    reveal_strlit("vertical");
    reveal_strlit("horizontal");
    assert("vertical"@.len() == 8);
    assert("horizontal"@.len() == 10);
}

/// Each number of a `mode_info_set` entry sets the style field it names:
/// `cell_percentage`, `blinkwait`, `blinkon`, `blinkoff` and `attr_id`; a
/// missing one leaves the percentage at 100, the blink times at 0 and the
/// highlight unset.
pub proof fn lemma_style_fields_follow_their_names(entries: Seq<(MsgValue, MsgValue)>)
    ensures
        spec_lookup(entries, "cell_percentage"@) is Some && spec_as_u64(spec_lookup(entries, "cell_percentage"@)->0)
            is Some ==> style_from(entries).cell_percentage == spec_as_u64(spec_lookup(entries, "cell_percentage"@)->0)->0,
        spec_lookup(entries, "cell_percentage"@) is None ==> style_from(entries).cell_percentage == 100,
        spec_lookup(entries, "blinkwait"@) is Some && spec_as_u64(spec_lookup(entries, "blinkwait"@)->0)
            is Some ==> style_from(entries).blink_wait == spec_as_u64(spec_lookup(entries, "blinkwait"@)->0)->0,
        spec_lookup(entries, "blinkwait"@) is None ==> style_from(entries).blink_wait == 0,
        spec_lookup(entries, "blinkon"@) is Some && spec_as_u64(spec_lookup(entries, "blinkon"@)->0)
            is Some ==> style_from(entries).blink_on == spec_as_u64(spec_lookup(entries, "blinkon"@)->0)->0,
        spec_lookup(entries, "blinkon"@) is None ==> style_from(entries).blink_on == 0,
        spec_lookup(entries, "blinkoff"@) is Some && spec_as_u64(spec_lookup(entries, "blinkoff"@)->0)
            is Some ==> style_from(entries).blink_off == spec_as_u64(spec_lookup(entries, "blinkoff"@)->0)->0,
        spec_lookup(entries, "blinkoff"@) is None ==> style_from(entries).blink_off == 0,
        spec_lookup(entries, "attr_id"@) is Some && spec_as_u64(spec_lookup(entries, "attr_id"@)->0)
            is Some ==> style_from(entries).attr_id == Some(spec_as_u64(spec_lookup(entries, "attr_id"@)->0)->0),
        spec_lookup(entries, "attr_id"@) is None ==> style_from(entries).attr_id is None,
{
}

/// Each entry of an `hl_attr_define` map sets the attribute it names: the
/// colours `foreground`, `background` and `special` (cut to 32 bits), and
/// each flag, which is set exactly when its entry is `true`.
pub proof fn lemma_highlight_attributes_follow_their_names(entries: Seq<(MsgValue, MsgValue)>)
    ensures
        spec_lookup(entries, "foreground"@) is Some && spec_as_u64(spec_lookup(entries, "foreground"@)->0)
            is Some ==> attrs_from(entries).foreground == Some(spec_as_u64(spec_lookup(entries, "foreground"@)->0)->0 as u32),
        spec_lookup(entries, "foreground"@) is None ==> attrs_from(entries).foreground is None,
        spec_lookup(entries, "background"@) is Some && spec_as_u64(spec_lookup(entries, "background"@)->0)
            is Some ==> attrs_from(entries).background == Some(spec_as_u64(spec_lookup(entries, "background"@)->0)->0 as u32),
        spec_lookup(entries, "background"@) is None ==> attrs_from(entries).background is None,
        spec_lookup(entries, "special"@) is Some && spec_as_u64(spec_lookup(entries, "special"@)->0)
            is Some ==> attrs_from(entries).special == Some(spec_as_u64(spec_lookup(entries, "special"@)->0)->0 as u32),
        spec_lookup(entries, "special"@) is None ==> attrs_from(entries).special is None,
        attrs_from(entries).reverse == (spec_lookup(entries, "reverse"@) == Some(MsgValue::Boolean(true))),
        attrs_from(entries).bold == (spec_lookup(entries, "bold"@) == Some(MsgValue::Boolean(true))),
        attrs_from(entries).italic == (spec_lookup(entries, "italic"@) == Some(MsgValue::Boolean(true))),
        attrs_from(entries).underline == (spec_lookup(entries, "underline"@) == Some(MsgValue::Boolean(true))),
        attrs_from(entries).undercurl == (spec_lookup(entries, "undercurl"@) == Some(MsgValue::Boolean(true))),
        attrs_from(entries).strikethrough == (spec_lookup(entries, "strikethrough"@) == Some(MsgValue::Boolean(true))),
        attrs_from(entries).underdouble == (spec_lookup(entries, "underdouble"@) == Some(MsgValue::Boolean(true))),
        attrs_from(entries).underdotted == (spec_lookup(entries, "underdotted"@) == Some(MsgValue::Boolean(true))),
        attrs_from(entries).underdashed == (spec_lookup(entries, "underdashed"@) == Some(MsgValue::Boolean(true))),
        attrs_from(entries).overline == (spec_lookup(entries, "overline"@) == Some(MsgValue::Boolean(true))),
{
}

} // verus!
