use vstd::prelude::*;

use crate::text::chars_of;

verus! {

/// The colour scheme the window asks the platform for.
#[derive(Debug, Clone, Copy, PartialEq, Eq)]
pub enum WindowTheme {
    Auto,
    Light,
    Dark,
}

impl Default for WindowTheme {
    fn default() -> (r: Self)
        ensures
            r == WindowTheme::Auto,
    {
        WindowTheme::Auto
    }
}

/// The font family used when the settings name none.
pub fn default_font_family() -> (r: String)
    ensures
        r@ == "HackGen Console NF"@,
{
    String::from_str("HackGen Console NF")
}

/// The default window size, in logical pixels.
pub const DEFAULT_WINDOW_WIDTH: u32 = 960;

pub const DEFAULT_WINDOW_HEIGHT: u32 = 640;

/// The window sizes the settings may ask for.
pub const MIN_WINDOW_WIDTH: u32 = 320;

pub const MIN_WINDOW_HEIGHT: u32 = 200;

pub const MAX_WINDOW_SIDE: u32 = 16_384;

/// The settings file written when there is none: the default settings.
pub fn default_config_template() -> (r: &'static str)
    ensures
        r@ == "[font]\nfamily = \"HackGen Console NF\"\nsize = 15.0\n\n[window]\nwidth = 960\nheight = 640\ntheme = \"auto\"\nopacity = 1.0\nblur = false\n"@,
{
    "[font]\nfamily = \"HackGen Console NF\"\nsize = 15.0\n\n[window]\nwidth = 960\nheight = 640\ntheme = \"auto\"\nopacity = 1.0\nblur = false\n"
}

/// `c` has the Unicode White_Space property.
pub open spec fn is_white_space(c: char) -> bool {
    let v = c as u32;
    ||| 0x09 <= v <= 0x0d
    ||| v == 0x20
    ||| v == 0x85
    ||| v == 0xa0
    ||| v == 0x1680
    ||| 0x2000 <= v <= 0x200a
    ||| v == 0x2028
    ||| v == 0x2029
    ||| v == 0x202f
    ||| v == 0x205f
    ||| v == 0x3000
}

fn white_space(c: char) -> (r: bool)
    ensures
        r == is_white_space(c),
{
    let v = c as u32;
    (0x09 <= v && v <= 0x0d) || v == 0x20 || v == 0x85 || v == 0xa0 || v == 0x1680 || (0x2000
        <= v && v <= 0x200a) || v == 0x2028 || v == 0x2029 || v == 0x202f || v == 0x205f || v
        == 0x3000
}

/// Whether a font family name has anything besides white space: a name that
/// trims to nothing is refused.
pub fn font_family_is_valid(family: &str) -> (r: bool)
    ensures
        r == exists|i: int| 0 <= i < family@.len() && !#[trigger] is_white_space(family@[i]),
{
    let chars = chars_of(family);
    let mut i: usize = 0;
    while i < chars.len()
        invariant
            chars@ == family@,
            i <= chars@.len(),
            forall|j: int| 0 <= j < i ==> #[trigger] is_white_space(family@[j]),
        decreases chars@.len() - i,
    {
        if !white_space(chars[i]) {
            return true;
        }
        i += 1;
    }
    false
}

/// Whether a window size is one the settings may ask for: 320 to 16384
/// pixels wide and 200 to 16384 pixels high.
pub fn window_size_is_valid(width: u32, height: u32) -> (r: bool)
    ensures
        r == (MIN_WINDOW_WIDTH <= width <= MAX_WINDOW_SIDE && MIN_WINDOW_HEIGHT <= height
            <= MAX_WINDOW_SIDE),
{
    MIN_WINDOW_WIDTH <= width && width <= MAX_WINDOW_SIDE && MIN_WINDOW_HEIGHT <= height && height
        <= MAX_WINDOW_SIDE
}

} // verus!
