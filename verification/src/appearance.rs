use vstd::prelude::*;

use crate::grid::{GridState, ResolvedHighlight};
use crate::layout::{str_display_width, str_width};
use crate::redraw::CursorStyle;
use crate::text::{
    ascii_lowercase, chars_of, contains, ends_with, has_infix, has_prefix, has_suffix,
    starts_with, to_ascii_lowercase,
};

verus! {

/// The columns left for the preedit on the cursor's row, at least one.
pub fn ime_available_columns(grid: &GridState) -> (r: usize)
    ensures
        r == if grid@.cursor.col < grid@.width {
            (grid@.width - grid@.cursor.col) as usize
        } else {
            1usize
        },
{
    let width = grid.width();
    let col = grid.cursor().col;
    if col < width {
        width - col
    } else {
        1
    }
}

/// How many columns the cursor covers: the display width of the cell under
/// it, at least one.
pub fn cursor_cell_columns(grid: &GridState) -> (r: usize)
    ensures
        ({
            let cursor = grid@.cursor;
            r == if cursor.row < grid@.height && cursor.col < grid@.width {
                let w = str_display_width(grid@.rows[cursor.row as int][cursor.col as int].text);
                if w >= 1 {
                    w
                } else {
                    1usize
                }
            } else {
                1usize
            }
        }),
{
    let cursor = grid.cursor();
    match grid.cell(cursor.row, cursor.col) {
        Some(cell) => {
            let w = str_width(cell.text.as_str());
            if w >= 1 {
                w
            } else {
                1
            }
        },
        None => 1,
    }
}

/// The colour of the cursor: the background of the cursor style's highlight
/// when it names one other than 0, else the foreground of the cell under it.
pub fn cursor_color(grid: &GridState, style: &CursorStyle, cell: ResolvedHighlight) -> (r: u32)
    ensures
        r == match style.attr_id {
            Some(id) => if id != 0 {
                grid@.resolved(id).background
            } else {
                cell.foreground
            },
            None => cell.foreground,
        },
{
    match style.attr_id {
        Some(id) => if id != 0 {
            grid.resolve_highlight(id).background
        } else {
            cell.foreground
        },
        None => cell.foreground,
    }
}

/// The red, green and blue bytes of a `0xRRGGBB` colour.
pub fn rgb_channels(rgb: u32) -> (r: (u8, u8, u8))
    ensures
        r.0 == (rgb >> 16) & 0xff,
        r.1 == (rgb >> 8) & 0xff,
        r.2 == rgb & 0xff,
{
    let red = (rgb >> 16) & 0xff;
    let green = (rgb >> 8) & 0xff;
    let blue = rgb & 0xff;
    assert(red < 256 && green < 256 && blue < 256) by (bit_vector)
        requires
            red == (rgb >> 16) & 0xff,
            green == (rgb >> 8) & 0xff,
            blue == rgb & 0xff,
    ;
    (red as u8, green as u8, blue as u8)
}

/// Which font draws a run of text.
#[derive(Debug, Clone, Copy, PartialEq, Eq)]
pub enum TextFontRole {
    Primary,
    JapaneseFallback,
    IconFallback,
}

/// `c` is in one of the blocks used for Japanese text: CJK symbols, kana,
/// kana extensions, CJK ideographs (with extension A and compatibility
/// ideographs) and half- and full-width forms.
pub open spec fn is_japanese_char(c: char) -> bool {
    let v = c as u32;
    ||| 0x3000 <= v <= 0x30ff
    ||| 0x31f0 <= v <= 0x31ff
    ||| 0x3400 <= v <= 0x4dbf
    ||| 0x4e00 <= v <= 0x9fff
    ||| 0xf900 <= v <= 0xfaff
    ||| 0xff00 <= v <= 0xffef
}

/// `c` is a private-use character, where icon fonts put their glyphs.
pub open spec fn is_private_use_char(c: char) -> bool {
    let v = c as u32;
    ||| 0xe000 <= v <= 0xf8ff
    ||| 0xf0000 <= v <= 0xffffd
    ||| 0x100000 <= v <= 0x10fffd
}

fn japanese_char(c: char) -> (r: bool)
    ensures
        r == is_japanese_char(c),
{
    let v = c as u32;
    (0x3000 <= v && v <= 0x30ff) || (0x31f0 <= v && v <= 0x31ff) || (0x3400 <= v && v <= 0x4dbf)
        || (0x4e00 <= v && v <= 0x9fff) || (0xf900 <= v && v <= 0xfaff) || (0xff00 <= v && v
        <= 0xffef)
}

fn private_use_char(c: char) -> (r: bool)
    ensures
        r == is_private_use_char(c),
{
    let v = c as u32;
    (0xe000 <= v && v <= 0xf8ff) || (0xf0000 <= v && v <= 0xffffd) || (0x100000 <= v && v
        <= 0x10fffd)
}

/// Whether `text` has a character used for Japanese.
pub fn contains_japanese(text: &str) -> (r: bool)
    ensures
        r == exists|i: int| 0 <= i < text@.len() && #[trigger] is_japanese_char(text@[i]),
{
    let chars = chars_of(text);
    let mut i: usize = 0;
    while i < chars.len()
        invariant
            chars@ == text@,
            i <= chars@.len(),
            forall|j: int| 0 <= j < i ==> !#[trigger] is_japanese_char(text@[j]),
        decreases chars@.len() - i,
    {
        if japanese_char(chars[i]) {
            return true;
        }
        i += 1;
    }
    false
}

/// Whether `text` has a private-use character.
pub fn contains_private_use(text: &str) -> (r: bool)
    ensures
        r == exists|i: int| 0 <= i < text@.len() && #[trigger] is_private_use_char(text@[i]),
{
    let chars = chars_of(text);
    let mut i: usize = 0;
    while i < chars.len()
        invariant
            chars@ == text@,
            i <= chars@.len(),
            forall|j: int| 0 <= j < i ==> !#[trigger] is_private_use_char(text@[j]),
        decreases chars@.len() - i,
    {
        if private_use_char(chars[i]) {
            return true;
        }
        i += 1;
    }
    false
}

/// The font for a run of text: the primary font when it covers everything
/// (a unified font), else the icon font for private-use characters, else
/// the Japanese font for Japanese text, else the primary font.
pub open spec fn font_role(
    text: Seq<char>,
    uses_unified_font: bool,
    has_icon_font: bool,
    has_japanese_font: bool,
) -> TextFontRole {
    if uses_unified_font {
        TextFontRole::Primary
    } else if has_icon_font && exists|i: int|
        0 <= i < text.len() && #[trigger] is_private_use_char(text[i]) {
        TextFontRole::IconFallback
    } else if has_japanese_font && exists|i: int|
        0 <= i < text.len() && #[trigger] is_japanese_char(text[i]) {
        TextFontRole::JapaneseFallback
    } else {
        TextFontRole::Primary
    }
}

pub fn font_role_for_text(
    text: &str,
    uses_unified_font: bool,
    has_icon_font: bool,
    has_japanese_font: bool,
) -> (r: TextFontRole)
    ensures
        r == font_role(text@, uses_unified_font, has_icon_font, has_japanese_font),
{
    if uses_unified_font {
        return TextFontRole::Primary;
    }
    if has_icon_font && contains_private_use(text) {
        return TextFontRole::IconFallback;
    }
    if has_japanese_font && contains_japanese(text) {
        return TextFontRole::JapaneseFallback;
    }
    TextFontRole::Primary
}

/// The name of the font family to use for `role`: the fallback font when
/// there is one, else the primary font; `None` stands for the generic
/// monospace family.
pub fn font_name_for_role<'a>(
    role: TextFontRole,
    primary: Option<&'a str>,
    japanese: Option<&'a str>,
    icon: Option<&'a str>,
) -> (r: Option<&'a str>)
    ensures
        r == match role {
            TextFontRole::Primary => primary,
            TextFontRole::JapaneseFallback => if japanese is Some {
                japanese
            } else {
                primary
            },
            TextFontRole::IconFallback => if icon is Some {
                icon
            } else {
                primary
            },
        },
{
    match role {
        TextFontRole::Primary => primary,
        TextFontRole::JapaneseFallback => match japanese {
            Some(name) => Some(name),
            None => primary,
        },
        TextFontRole::IconFallback => match icon {
            Some(name) => Some(name),
            None => primary,
        },
    }
}

/// A font family is a Nerd Font: its ASCII-lower-case name contains
/// "nerd font", or starts with "hackgen" and ends with " nf".
pub open spec fn icon_family(name: Seq<char>) -> bool {
    let lower = ascii_lowercase(name);
    has_infix(lower, "nerd font"@) || (has_prefix(lower, "hackgen"@) && has_suffix(lower, " nf"@))
}

/// A font family covers Latin, Japanese and icons alike (HackGen's NF
/// builds): its ASCII-lower-case name starts with "hackgen" and contains
/// " nf".
pub open spec fn unified_family(name: Seq<char>) -> bool {
    let lower = ascii_lowercase(name);
    has_prefix(lower, "hackgen"@) && has_infix(lower, " nf"@)
}

/// Whether a font family is a Nerd Font.
pub fn is_icon_font_family(name: &str) -> (r: bool)
    ensures
        r == icon_family(name@),
{
    let lower = to_ascii_lowercase(name);
    contains(&lower, "nerd font") || (starts_with(&lower, "hackgen") && ends_with(&lower, " nf"))
}

/// Whether a font family covers Latin, Japanese and icons alike.
pub fn is_unified_font_family(name: &str) -> (r: bool)
    ensures
        r == unified_family(name@),
{
    let lower = to_ascii_lowercase(name);
    starts_with(&lower, "hackgen") && contains(&lower, " nf")
}

} // verus!
