use unicode_width::{UnicodeWidthChar, UnicodeWidthStr};
use vstd::prelude::*;
use vstd::string::StrSliceExecFns;
use vstd::utf8::{encode_scalar, encode_utf8};

use crate::text::chars_of;

verus! {

/// What `UnicodeWidthChar::width` (unicode-width) returns for `c`: its
/// display width in columns, or nothing for a control character.
pub uninterp spec fn char_display_width(c: char) -> Option<usize>;

/// What `UnicodeWidthStr::width` (unicode-width) returns for a string of
/// the characters `s`. It is not always the sum of the character widths
/// (emoji sequences and some ligatures count differently).
pub uninterp spec fn str_display_width(s: Seq<char>) -> usize;

/// `UnicodeWidthChar::width`. Besides the named result, the crate's source
/// shows that characters below U+0020 and from U+007F to U+009F are control
/// characters, U+0020 to U+007E are one column wide, and every character
/// from U+00A0 on has a width; the widths of those are not stated here.
#[verifier::external_body]
fn char_width(c: char) -> (r: Option<usize>)
    ensures
        r == char_display_width(c),
        (c as u32) < 0x20 ==> r is None,
        0x20 <= (c as u32) < 0x7F ==> r == Some(1usize),
        0x7F <= (c as u32) < 0xA0 ==> r is None,
        0xA0 <= (c as u32) ==> r is Some,
{
    UnicodeWidthChar::width(c)
}

/// `UnicodeWidthStr::width`: the display width of `s`, which the crate
/// computes from the characters of `s` alone. Its source folds the
/// characters from the end, starting from 0, and counts each character from
/// U+0020 to U+007E as one column when nothing but such characters follows
/// it; so the empty string is 0 wide and a string of those characters alone
/// is one column per character. Other values are not stated here.
#[verifier::external_body]
pub(crate) fn str_width(s: &str) -> (r: usize)
    ensures
        r == str_display_width(s@),
        s@.len() == 0 ==> r == 0,
        (forall|i: int| 0 <= i < s@.len() ==> 0x20 <= #[trigger] (s@[i] as u32) < 0x7F) ==> r
            == s@.len(),
{
    UnicodeWidthStr::width(s)
}

/// The number of bytes of the UTF-8 encoding of `c`.
pub open spec fn utf8_len(c: char) -> nat {
    if (c as u32) < 0x80 {
        1
    } else if (c as u32) < 0x800 {
        2
    } else if (c as u32) < 0x10000 {
        3
    } else {
        4
    }
}

/// The byte offset at which character `n` of `s` starts in UTF-8.
pub open spec fn utf8_offset(s: Seq<char>, n: int) -> nat
    decreases n,
{
    if n <= 0 {
        0
    } else {
        utf8_offset(s, n - 1) + utf8_len(s[n - 1])
    }
}

/// The byte length of `s` in UTF-8.
pub open spec fn utf8_size(s: Seq<char>) -> nat {
    utf8_offset(s, s.len() as int)
}

/// A character's width inside a sum: control characters count 0.
pub open spec fn width_or_zero(c: char) -> nat {
    match char_display_width(c) {
        Some(w) => w as nat,
        None => 0,
    }
}

/// The sum of the widths of the characters of `s`.
pub open spec fn width_sum(s: Seq<char>) -> nat
    decreases s.len(),
{
    if s.len() == 0 {
        0
    } else {
        width_sum(s.drop_last()) + width_or_zero(s.last())
    }
}

pub open spec fn cap(n: nat) -> usize {
    if n <= usize::MAX {
        n as usize
    } else {
        usize::MAX
    }
}

proof fn lemma_offset_monotone(s: Seq<char>, m: int, n: int)
    requires
        0 <= m <= n,
    ensures
        utf8_offset(s, m) <= utf8_offset(s, n),
    decreases n - m,
{
    if m < n {
        lemma_offset_monotone(s, m, n - 1);
    }
}

proof fn lemma_offset_increasing(s: Seq<char>, m: int, n: int)
    requires
        0 <= m < n,
    ensures
        utf8_offset(s, m) < utf8_offset(s, n),
    decreases n - m,
{
    if m < n - 1 {
        lemma_offset_increasing(s, m, n - 1);
    }
}

fn char_utf8_len(c: char) -> (r: usize)
    ensures
        r == utf8_len(c),
{
    if (c as u32) < 0x80 {
        1
    } else if (c as u32) < 0x800 {
        2
    } else if (c as u32) < 0x10000 {
        3
    } else {
        4
    }
}

fn width_of_char(c: char) -> (r: usize)
    ensures
        r == width_or_zero(c),
{
    match char_width(c) {
        Some(w) => w,
        None => 0,
    }
}

/// The first `n` characters of `s` are the shortest prefix that is `target`
/// columns wide or wider (control characters count 0), or all of `s` when
/// no prefix is that wide.
pub open spec fn column_prefix(s: Seq<char>, target: int, n: int) -> bool {
    &&& 0 <= n <= s.len()
    &&& forall|m: int| 0 <= m < n ==> #[trigger] width_sum(s.take(m)) < target
    &&& width_sum(s.take(n)) >= target || n == s.len()
}

/// The byte offset in `text` of the end of the shortest prefix whose
/// characters are `target_column` columns wide or wider, or the length of
/// `text` when no prefix is that wide. Control characters count 0.
pub fn byte_index_for_column(text: &str, target_column: usize) -> (r: usize)
    ensures
        exists|n: int| column_prefix(text@, target_column as int, n) && r == utf8_offset(text@, n),
{
    column_boundary(text, target_column).0
}

/// The byte offset and the character count of the prefix that
/// `byte_index_for_column` finds.
fn column_boundary(text: &str, target_column: usize) -> (r: (usize, usize))
    ensures
        column_prefix(text@, target_column as int, r.1 as int),
        r.0 == utf8_offset(text@, r.1 as int),
{
    let total = byte_length(text);
    let chars = chars_of(text);
    if target_column == 0 {
        assert(text@.take(0) =~= Seq::<char>::empty());
        return (0, 0);
    }
    let mut consumed: usize = 0;
    let mut offset: usize = 0;
    let mut i: usize = 0;
    assert(text@.take(0) =~= Seq::<char>::empty());
    while i < chars.len()
        invariant
            chars@ == text@,
            total == utf8_size(text@),
            target_column > 0,
            i <= chars@.len(),
            offset == utf8_offset(text@, i as int),
            consumed == width_sum(text@.take(i as int)),
            consumed < target_column,
            forall|m: int| 0 <= m <= i ==> #[trigger] width_sum(text@.take(m)) < target_column,
        decreases chars@.len() - i,
    {
        let c = chars[i];
        let w = width_of_char(c);
        let len = char_utf8_len(c);
        proof {
            let next = text@.take(i + 1);
            assert(next.drop_last() =~= text@.take(i as int));
            assert(next.last() == c);
            lemma_offset_monotone(text@, i + 1, text@.len() as int);
        }
        if w >= target_column - consumed {
            return (offset + len, i + 1);
        }
        consumed = consumed + w;
        offset = offset + len;
        i += 1;
    }
    assert(text@.take(chars@.len() as int) =~= text@);
    (offset, i)
}

/// Character `n` of `s` starts after the first character and the first
/// `n - 1` characters of the rest.
proof fn lemma_offset_drop_first(s: Seq<char>, n: int)
    requires
        1 <= n <= s.len(),
    ensures
        utf8_offset(s, n) == utf8_len(s[0]) + utf8_offset(s.drop_first(), n - 1),
    decreases n,
{
    let rest = s.drop_first();
    if n > 1 {
        lemma_offset_drop_first(s, n - 1);
        assert(rest[n - 2] == s[n - 1]);
        assert(utf8_offset(rest, n - 1) == utf8_offset(rest, n - 2) + utf8_len(rest[n - 2]));
    } else {
        assert(utf8_offset(s, 0) == 0);
        assert(utf8_offset(rest, 0) == 0);
    }
}

/// `utf8_size` is the length of vstd's UTF-8 encoding of the characters.
proof fn lemma_encoded_size(s: Seq<char>)
    ensures
        encode_utf8(s).len() == utf8_size(s),
    decreases s.len(),
{
    if s.len() > 0 {
        lemma_offset_drop_first(s, s.len() as int);
        lemma_encoded_size(s.drop_first());
        vstd::utf8::char_is_scalar(s[0]);
        let v = s[0] as u32;
        assert(encode_scalar(v).len() == utf8_len(s[0]));
    }
}

/// The byte length of `text`.
fn byte_length(text: &str) -> (r: usize)
    ensures
        r == utf8_size(text@),
{
    proof {
        lemma_encoded_size(text@);
    }
    text.as_bytes().len()
}

/// `byte_index`, or the byte length of `s` when it lies past the end.
pub open spec fn clamp_offset(s: Seq<char>, byte_index: usize) -> nat {
    if byte_index < utf8_size(s) {
        byte_index as nat
    } else {
        utf8_size(s)
    }
}

/// `col` is the grid column of byte `byte_index` of `s`: where the byte
/// (clamped to the end of `s`) is a character boundary, the display width of
/// the text before it; otherwise the summed widths (saturating) of the
/// characters that start before it, control characters counting 0.
pub open spec fn byte_column_is(s: Seq<char>, byte_index: usize, col: usize) -> bool {
    let k = clamp_offset(s, byte_index);
    &&& forall|n: int|
        0 <= n <= s.len() && #[trigger] utf8_offset(s, n) == k ==> col == str_display_width(
            s.take(n),
        )
    &&& (forall|n: int| 0 <= n <= s.len() ==> #[trigger] utf8_offset(s, n) != k) ==> exists|
        m: int,
    |
        0 <= m <= s.len() && (forall|i: int| 0 <= i < m ==> #[trigger] utf8_offset(s, i) < k) && (m
            < s.len() ==> utf8_offset(s, m) > k) && col == cap(width_sum(s.take(m)))
}

/// The grid column at which byte `byte_index` of `text` falls: the width of
/// the text before it when it is a character boundary (the text's whole
/// width past its end), and otherwise the summed widths of the characters
/// that start before it.
pub fn byte_column(text: &str, byte_index: usize) -> (r: usize)
    ensures
        byte_column_is(text@, byte_index, r),
{
    let chars = chars_of(text);
    let total = byte_length(text);
    let k = if byte_index < total {
        byte_index
    } else {
        total
    };
    let mut offset: usize = 0;
    let mut columns: usize = 0;
    let mut i: usize = 0;
    assert(text@.take(0) =~= Seq::<char>::empty());
    while i < chars.len() && offset < k
        invariant
            chars@ == text@,
            total == utf8_size(text@),
            k <= utf8_size(text@),
            i <= chars@.len(),
            offset == utf8_offset(text@, i as int),
            columns == cap(width_sum(text@.take(i as int))),
            forall|j: int| 0 <= j < i ==> #[trigger] utf8_offset(text@, j) < k,
        decreases chars@.len() - i,
    {
        let c = chars[i];
        proof {
            let next = text@.take(i + 1);
            assert(next.drop_last() =~= text@.take(i as int));
            assert(next.last() == c);
            lemma_offset_monotone(text@, i + 1, text@.len() as int);
        }
        columns = columns.saturating_add(width_of_char(c));
        offset = offset + char_utf8_len(c);
        i += 1;
    }
    proof {
        if i == chars@.len() {
            assert(offset == utf8_size(text@));
        }
    }
    if offset == k {
        proof {
            assert forall|n: int|
                0 <= n <= text@.len() && #[trigger] utf8_offset(text@, n) == k implies n == i by {
                if n < i {
                    lemma_offset_increasing(text@, n, i as int);
                } else if n > i {
                    lemma_offset_increasing(text@, i as int, n);
                }
            }
            assert(utf8_offset(text@, i as int) == k);
        }
        let prefix = text.substring_char(0, i);
        proof {
            assert(prefix@ =~= text@.take(i as int));
        }
        str_width(prefix)
    } else {
        proof {
            assert(utf8_offset(text@, i as int) != k);
            assert(i < chars@.len() ==> utf8_offset(text@, i as int) > k);
            assert forall|n: int| 0 <= n <= text@.len() implies #[trigger] utf8_offset(text@, n)
                != k by {
                if n > i {
                    lemma_offset_increasing(text@, i as int, n);
                }
            }
            assert(columns == cap(width_sum(text@.take(i as int))));
        }
        columns
    }
}

/// The first column of the preedit window: 0 when the whole preedit fits;
/// otherwise a window of `available` columns that ends inside the text and
/// shows the selection, or starts at the selection when the selection is
/// wider than the window.
pub open spec fn window_start(
    selection_start: usize,
    selection_end: usize,
    total_width: usize,
    available: usize,
) -> int {
    let lo = if selection_start <= selection_end {
        selection_start as int
    } else {
        selection_end as int
    };
    let hi = if selection_start <= selection_end {
        selection_end as int
    } else {
        selection_start as int
    };
    let last = total_width - available;
    if total_width <= available {
        0
    } else if hi - lo >= available {
        if lo <= last {
            lo
        } else {
            last
        }
    } else {
        let start = if hi > available {
            hi - available
        } else {
            0
        };
        let start = if lo < start {
            lo
        } else {
            start
        };
        if start <= last {
            start
        } else {
            last
        }
    }
}

/// Where the preedit window starts when `total_width` columns of preedit
/// must be shown in `available_columns` columns with the selection from
/// `selection_start` to `selection_end` (in either order).
pub fn preedit_window_start(
    selection_start: usize,
    selection_end: usize,
    total_width: usize,
    available_columns: usize,
) -> (r: usize)
    ensures
        r == window_start(selection_start, selection_end, total_width, available_columns),
{
    if total_width <= available_columns {
        return 0;
    }
    let selection_min = if selection_start <= selection_end {
        selection_start
    } else {
        selection_end
    };
    let selection_max = if selection_start <= selection_end {
        selection_end
    } else {
        selection_start
    };
    let selection_width = selection_max - selection_min;
    let last = total_width - available_columns;
    if selection_width >= available_columns {
        return if selection_min <= last {
            selection_min
        } else {
            last
        };
    }
    let mut start = if selection_max > available_columns {
        selection_max - available_columns
    } else {
        0
    };
    if selection_min < start {
        start = selection_min;
    }
    if start <= last {
        start
    } else {
        last
    }
}

/// A window on the preedit text: a selection that fits the window is shown
/// whole, and the window lies inside the text.
pub proof fn lemma_window_shows_selection(
    selection_start: usize,
    selection_end: usize,
    total_width: usize,
    available: usize,
)
    requires
        selection_start <= total_width,
        selection_end <= total_width,
    ensures
        ({
            let start = window_start(selection_start, selection_end, total_width, available);
            let lo = if selection_start <= selection_end {
                selection_start
            } else {
                selection_end
            };
            let hi = if selection_start <= selection_end {
                selection_end
            } else {
                selection_start
            };
            &&& 0 <= start
            &&& total_width <= available ==> start == 0
            &&& total_width > available ==> start + available <= total_width
            &&& hi - lo < available ==> start <= lo && hi <= start + available
            &&& hi - lo >= available && total_width > available ==> start == lo || start
                + available == total_width
        }),
{
}

/// The last column of the preedit window.
pub open spec fn window_end(start: usize, available: usize, total_width: usize) -> usize {
    if start + available <= total_width {
        (start + available) as usize
    } else {
        total_width
    }
}

/// The part of a preedit that fits the space left of the cursor's row.
#[derive(Debug, Clone, Copy)]
pub struct VisiblePreedit<'a> {
    pub text: &'a str,
    pub width: usize,
    pub start_column: usize,
    pub selection_start: usize,
    pub selection_end: usize,
    pub clipped_start: bool,
    pub clipped_end: bool,
}

/// `v` is the window of the preedit `text` to draw in `available` columns,
/// with the input method's selection (`cursor`, byte offsets) turned into
/// columns; no selection stands at the end of the text. The window is no
/// wider than `available`.
pub open spec fn visible_preedit_is(
    text: Seq<char>,
    cursor: Option<(usize, usize)>,
    available: usize,
    v: VisiblePreedit,
) -> bool {
    let total = str_display_width(text);
    let end = window_end(v.start_column, available, total);
    &&& cursor matches Some((s, e)) ==> byte_column_is(text, s, v.selection_start)
        && byte_column_is(text, e, v.selection_end)
    &&& cursor is None ==> v.selection_start == total && v.selection_end == total
    &&& v.start_column == window_start(v.selection_start, v.selection_end, total, available)
    &&& v.width == end - v.start_column
    &&& v.width <= available
    &&& v.clipped_start == (v.start_column > 0)
    &&& v.clipped_end == (end < total)
    &&& exists|a: int, b: int|
        column_prefix(text, v.start_column as int, a) && column_prefix(text, end as int, b) && a
            <= b && v.text@ == text.subrange(a, b)
}

/// The window of `text` to draw in `available_columns` columns.
pub fn visible_preedit<'a>(
    text: &'a str,
    cursor: Option<(usize, usize)>,
    available_columns: usize,
) -> (r: VisiblePreedit<'a>)
    ensures
        visible_preedit_is(text@, cursor, available_columns, r),
{
    let total_width = str_width(text);
    let (selection_start, selection_end) = match cursor {
        Some((start, end)) => (byte_column(text, start), byte_column(text, end)),
        None => (total_width, total_width),
    };
    let start_column = preedit_window_start(
        selection_start,
        selection_end,
        total_width,
        available_columns,
    );
    let end_column = if start_column <= total_width && available_columns <= total_width
        - start_column {
        start_column + available_columns
    } else {
        total_width
    };
    let (_, first) = column_boundary(text, start_column);
    let (_, last) = column_boundary(text, end_column);
    proof {
        if last < first {
            assert(width_sum(text@.take(last as int)) < start_column);
        }
    }
    let width = if end_column >= start_column {
        end_column - start_column
    } else {
        0
    };
    VisiblePreedit {
        text: text.substring_char(first, last),
        width,
        start_column,
        selection_start,
        selection_end,
        clipped_start: start_column > 0,
        clipped_end: end_column < total_width,
    }
}

} // verus!
