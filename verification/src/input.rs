use vstd::prelude::*;

use crate::text::{chars_of, push_char, to_lowercase, unicode_lowercase};

verus! {

#[derive(Debug, Clone, Copy, PartialEq, Eq)]
pub enum WheelDirection {
    Up,
    Down,
    Left,
    Right,
}

/// The magnitude of `steps`.
pub open spec fn step_count(steps: i32) -> nat {
    if steps >= 0 {
        steps as nat
    } else {
        (-steps) as nat
    }
}

/// `|steps|` copies of `positive` when `steps` is not negative, of
/// `negative` otherwise.
pub fn repeated_direction(steps: i32, positive: WheelDirection, negative: WheelDirection) -> (r: Vec<
    WheelDirection,
>)
    ensures
        r@.len() == step_count(steps),
        forall|i: int|
            0 <= i < r@.len() ==> #[trigger] r@[i] == if steps >= 0 {
                positive
            } else {
                negative
            },
{
    let direction = if steps >= 0 {
        positive
    } else {
        negative
    };
    let count: u32 = if steps >= 0 {
        steps as u32
    } else {
        (-(steps as i64)) as u32
    };
    let mut out: Vec<WheelDirection> = Vec::new();
    let mut i: u32 = 0;
    while i < count
        invariant
            i <= count,
            count == step_count(steps),
            out@.len() == i,
            forall|j: int| 0 <= j < i ==> #[trigger] out@[j] == direction,
        decreases count - i,
    {
        out.push(direction);
        i += 1;
    }
    out
}

/// The wheel steps of one scroll event: vertical steps first (up for
/// positive counts), then horizontal ones (right for positive counts).
pub fn wheel_directions(vertical_steps: i32, horizontal_steps: i32) -> (r: Vec<WheelDirection>)
    ensures
        r@.len() == step_count(vertical_steps) + step_count(horizontal_steps),
        forall|i: int|
            0 <= i < step_count(vertical_steps) ==> #[trigger] r@[i] == if vertical_steps >= 0 {
                WheelDirection::Up
            } else {
                WheelDirection::Down
            },
        forall|i: int|
            step_count(vertical_steps) <= i < r@.len() ==> #[trigger] r@[i] == if horizontal_steps
                >= 0 {
                WheelDirection::Right
            } else {
                WheelDirection::Left
            },
{
    let mut directions = repeated_direction(vertical_steps, WheelDirection::Up, WheelDirection::Down);
    let mut horizontal = repeated_direction(
        horizontal_steps,
        WheelDirection::Right,
        WheelDirection::Left,
    );
    let ghost first = directions@;
    let ghost second = horizontal@;
    directions.append(&mut horizontal);
    assert(directions@ == first + second);
    directions
}

/// The modifier keys held during an input event.
#[derive(Debug, Clone, Copy, PartialEq, Eq)]
pub struct Modifiers {
    pub shift: bool,
    pub control: bool,
    pub alt: bool,
    pub super_key: bool,
}

impl Default for Modifiers {
    fn default() -> (m: Self)
        ensures
            !m.shift && !m.control && !m.alt && !m.super_key,
    {
        Modifiers { shift: false, control: false, alt: false, super_key: false }
    }
}

/// The keys Mado forwards by name.
#[derive(Debug, Clone, Copy, PartialEq, Eq)]
pub enum NamedKey {
    Escape,
    Enter,
    Tab,
    Backspace,
    Delete,
    Insert,
    ArrowUp,
    ArrowDown,
    ArrowLeft,
    ArrowRight,
    Home,
    End,
    PageUp,
    PageDown,
    F1,
    F2,
    F3,
    F4,
    F5,
    F6,
    F7,
    F8,
    F9,
    F10,
    F11,
    F12,
    Space,
    Other,
}

/// What a key means, independently of the keyboard layout's physical key.
#[derive(Debug, Clone, PartialEq, Eq)]
pub enum LogicalKey {
    Character(String),
    Named(NamedKey),
    Dead,
    Unidentified,
}

/// A keyboard event: whether the key went down, what it means, and the
/// text it committed, if any.
#[derive(Debug, Clone, PartialEq, Eq)]
pub struct KeyInput {
    pub pressed: bool,
    pub logical_key: LogicalKey,
    pub text: Option<String>,
}

/// Each letter followed by `-`.
pub open spec fn dashed(letters: Seq<char>) -> Seq<char>
    decreases letters.len(),
{
    if letters.len() == 0 {
        Seq::empty()
    } else {
        dashed(letters.drop_last()) + seq![letters.last(), '-']
    }
}

/// Neovim's letters for the modifiers held, in the order `S`, `C`, `A`, `D`.
pub open spec fn modifier_letters(m: Modifiers) -> Seq<char> {
    (if m.shift {
        seq!['S']
    } else {
        Seq::empty()
    }) + (if m.control {
        seq!['C']
    } else {
        Seq::empty()
    }) + (if m.alt {
        seq!['A']
    } else {
        Seq::empty()
    }) + (if m.super_key {
        seq!['D']
    } else {
        Seq::empty()
    })
}

/// The modifier letters of a character key, in the order `C`, `A`, `D`, `S`.
pub open spec fn command_letters(m: Modifiers) -> Seq<char> {
    (if m.control {
        seq!['C']
    } else {
        Seq::empty()
    }) + (if m.alt {
        seq!['A']
    } else {
        Seq::empty()
    }) + (if m.super_key {
        seq!['D']
    } else {
        Seq::empty()
    }) + (if m.shift {
        seq!['S']
    } else {
        Seq::empty()
    })
}

/// `s` with every `<` written as `<LT>`, as `nvim_input` wants.
pub open spec fn escape_lt(s: Seq<char>) -> Seq<char>
    decreases s.len(),
{
    if s.len() == 0 {
        Seq::empty()
    } else {
        escape_lt(s.drop_last()) + if s.last() == '<' {
            seq!['<', 'L', 'T', '>']
        } else {
            seq![s.last()]
        }
    }
}

/// The input Neovim receives for a character key: the committed text,
/// escaped, when no command modifier (control, alt, super) is held; the
/// key in `<C-A-D-S-key>` notation otherwise.
pub open spec fn character_key_text(
    logical: Seq<char>,
    committed: Option<Seq<char>>,
    m: Modifiers,
) -> Option<Seq<char>> {
    if !(m.control || m.alt || m.super_key) {
        match committed {
            Some(text) => if text.len() > 0 {
                Some(escape_lt(text))
            } else {
                None
            },
            None => None,
        }
    } else if logical.len() == 0 {
        None
    } else {
        Some(seq!['<'] + dashed(command_letters(m)) + unicode_lowercase(logical) + seq!['>'])
    }
}

/// Neovim's name of a named key.
pub open spec fn key_name(key: NamedKey) -> Option<Seq<char>> {
    match key {
        NamedKey::Escape => Some("Esc"@),
        NamedKey::Enter => Some("CR"@),
        NamedKey::Tab => Some("Tab"@),
        NamedKey::Backspace => Some("BS"@),
        NamedKey::Delete => Some("Del"@),
        NamedKey::Insert => Some("Insert"@),
        NamedKey::ArrowUp => Some("Up"@),
        NamedKey::ArrowDown => Some("Down"@),
        NamedKey::ArrowLeft => Some("Left"@),
        NamedKey::ArrowRight => Some("Right"@),
        NamedKey::Home => Some("Home"@),
        NamedKey::End => Some("End"@),
        NamedKey::PageUp => Some("PageUp"@),
        NamedKey::PageDown => Some("PageDown"@),
        NamedKey::F1 => Some("F1"@),
        NamedKey::F2 => Some("F2"@),
        NamedKey::F3 => Some("F3"@),
        NamedKey::F4 => Some("F4"@),
        NamedKey::F5 => Some("F5"@),
        NamedKey::F6 => Some("F6"@),
        NamedKey::F7 => Some("F7"@),
        NamedKey::F8 => Some("F8"@),
        NamedKey::F9 => Some("F9"@),
        NamedKey::F10 => Some("F10"@),
        NamedKey::F11 => Some("F11"@),
        NamedKey::F12 => Some("F12"@),
        NamedKey::Space => Some("Space"@),
        NamedKey::Other => None,
    }
}

/// The input Neovim receives for a named key: `<name>`, or with the
/// modifiers held, `<S-C-A-D-name>`.
pub open spec fn named_key_text(key: NamedKey, m: Modifiers) -> Option<Seq<char>> {
    match key_name(key) {
        Some(name) => Some(seq!['<'] + dashed(modifier_letters(m)) + name + seq!['>']),
        None => None,
    }
}

/// The input Neovim receives for a key event: nothing unless a key went
/// down.
pub open spec fn key_text(event: KeyInput, m: Modifiers) -> Option<Seq<char>> {
    if !event.pressed {
        None
    } else {
        match event.logical_key {
            LogicalKey::Character(text) => character_key_text(
                text@,
                match event.text {
                    Some(t) => Some(t@),
                    None => None,
                },
                m,
            ),
            LogicalKey::Named(key) => named_key_text(key, m),
            _ => None,
        }
    }
}

fn push_letter(letters: &mut Vec<char>, held: bool, letter: char)
    ensures
        final(letters)@ == old(letters)@ + if held {
            seq![letter]
        } else {
            Seq::<char>::empty()
        },
{
    if held {
        letters.push(letter);
    } else {
        assert(letters@ =~= old(letters)@ + Seq::<char>::empty());
    }
}

/// Appends each letter followed by `-`.
fn append_dashed(out: &mut String, letters: &Vec<char>)
    ensures
        final(out)@ == old(out)@ + dashed(letters@),
{
    let mut i: usize = 0;
    assert(letters@.take(0) =~= Seq::<char>::empty());
    assert(out@ =~= old(out)@ + dashed(letters@.take(0)));
    while i < letters.len()
        invariant
            i <= letters@.len(),
            out@ == old(out)@ + dashed(letters@.take(i as int)),
        decreases letters@.len() - i,
    {
        push_char(out, letters[i]);
        push_char(out, '-');
        proof {
            let next = letters@.take(i + 1);
            assert(next.drop_last() =~= letters@.take(i as int));
            assert(next.last() == letters@[i as int]);
        }
        i += 1;
        assert(out@ =~= old(out)@ + dashed(letters@.take(i as int)));
    }
    assert(letters@.take(letters@.len() as int) =~= letters@);
}

/// Neovim's modifier letters (`S`, `C`, `A`, `D`) for the keys held.
pub fn nvim_modifiers(modifiers: Modifiers) -> (r: String)
    ensures
        r@ == modifier_letters(modifiers),
{
    let mut result = String::new();
    if modifiers.shift {
        push_char(&mut result, 'S');
    }
    if modifiers.control {
        push_char(&mut result, 'C');
    }
    if modifiers.alt {
        push_char(&mut result, 'A');
    }
    if modifiers.super_key {
        push_char(&mut result, 'D');
    }
    assert(result@ =~= modifier_letters(modifiers));
    result
}

/// `text` with every `<` written as `<LT>`.
fn escape_text(text: &str) -> (r: String)
    ensures
        r@ == escape_lt(text@),
{
    let chars = chars_of(text);
    let mut out = String::new();
    let mut i: usize = 0;
    assert(chars@.take(0) =~= Seq::<char>::empty());
    while i < chars.len()
        invariant
            i <= chars@.len(),
            chars@ == text@,
            out@ == escape_lt(chars@.take(i as int)),
        decreases chars@.len() - i,
    {
        let c = chars[i];
        if c == '<' {
            push_char(&mut out, '<');
            push_char(&mut out, 'L');
            push_char(&mut out, 'T');
            push_char(&mut out, '>');
        } else {
            push_char(&mut out, c);
        }
        proof {
            let next = chars@.take(i + 1);
            assert(next.drop_last() =~= chars@.take(i as int));
            assert(next.last() == c);
        }
        i += 1;
        assert(out@ =~= escape_lt(chars@.take(i as int)));
    }
    assert(chars@.take(chars@.len() as int) =~= chars@);
    out
}

/// The input for a character key whose logical text is `logical_text` and
/// which committed `committed_text`.
pub fn character_key(logical_text: &str, committed_text: Option<&str>, modifiers: Modifiers) -> (r:
    Option<String>)
    ensures
        match r {
            Some(s) => character_key_text(
                logical_text@,
                match committed_text {
                    Some(t) => Some(t@),
                    None => None,
                },
                modifiers,
            ) == Some(s@),
            None => character_key_text(
                logical_text@,
                match committed_text {
                    Some(t) => Some(t@),
                    None => None,
                },
                modifiers,
            ) is None,
        },
{
    let has_command_modifier = modifiers.control || modifiers.alt || modifiers.super_key;
    if !has_command_modifier {
        return match committed_text {
            Some(text) => {
                if text.is_empty() {
                    None
                } else {
                    Some(escape_text(text))
                }
            },
            None => None,
        };
    }
    if logical_text.is_empty() {
        return None;
    }
    let mut letters: Vec<char> = Vec::new();
    push_letter(&mut letters, modifiers.control, 'C');
    push_letter(&mut letters, modifiers.alt, 'A');
    push_letter(&mut letters, modifiers.super_key, 'D');
    push_letter(&mut letters, modifiers.shift, 'S');
    assert(letters@ =~= command_letters(modifiers));
    let mut out = String::from_str("<");
    append_dashed(&mut out, &letters);
    let lower = to_lowercase(logical_text);
    out.append(lower.as_str());
    push_char(&mut out, '>');
    proof {
        reveal_strlit("<");
        assert(out@ =~= seq!['<'] + dashed(command_letters(modifiers)) + unicode_lowercase(
            logical_text@,
        ) + seq!['>']);
    }
    Some(out)
}

fn named_key_name(key: NamedKey) -> (r: Option<&'static str>)
    ensures
        match r {
            Some(name) => key_name(key) == Some(name@),
            None => key_name(key) is None,
        },
{
    match key {
        NamedKey::Escape => Some("Esc"),
        NamedKey::Enter => Some("CR"),
        NamedKey::Tab => Some("Tab"),
        NamedKey::Backspace => Some("BS"),
        NamedKey::Delete => Some("Del"),
        NamedKey::Insert => Some("Insert"),
        NamedKey::ArrowUp => Some("Up"),
        NamedKey::ArrowDown => Some("Down"),
        NamedKey::ArrowLeft => Some("Left"),
        NamedKey::ArrowRight => Some("Right"),
        NamedKey::Home => Some("Home"),
        NamedKey::End => Some("End"),
        NamedKey::PageUp => Some("PageUp"),
        NamedKey::PageDown => Some("PageDown"),
        NamedKey::F1 => Some("F1"),
        NamedKey::F2 => Some("F2"),
        NamedKey::F3 => Some("F3"),
        NamedKey::F4 => Some("F4"),
        NamedKey::F5 => Some("F5"),
        NamedKey::F6 => Some("F6"),
        NamedKey::F7 => Some("F7"),
        NamedKey::F8 => Some("F8"),
        NamedKey::F9 => Some("F9"),
        NamedKey::F10 => Some("F10"),
        NamedKey::F11 => Some("F11"),
        NamedKey::F12 => Some("F12"),
        NamedKey::Space => Some("Space"),
        NamedKey::Other => None,
    }
}

/// The input for a named key.
pub fn named_key(key: NamedKey, modifiers: Modifiers) -> (r: Option<String>)
    ensures
        match r {
            Some(s) => named_key_text(key, modifiers) == Some(s@),
            None => named_key_text(key, modifiers) is None,
        },
{
    let name = match named_key_name(key) {
        Some(name) => name,
        None => {
            return None;
        },
    };
    let letters = chars_of(nvim_modifiers(modifiers).as_str());
    let mut out = String::new();
    push_char(&mut out, '<');
    append_dashed(&mut out, &letters);
    out.append(name);
    push_char(&mut out, '>');
    assert(out@ =~= seq!['<'] + dashed(modifier_letters(modifiers)) + name@ + seq!['>']);
    Some(out)
}

/// The input Neovim receives for a key event, if any.
pub fn key_to_nvim(event: &KeyInput, modifiers: Modifiers) -> (r: Option<String>)
    ensures
        match r {
            Some(s) => key_text(*event, modifiers) == Some(s@),
            None => key_text(*event, modifiers) is None,
        },
{
    if !event.pressed {
        return None;
    }
    match &event.logical_key {
        LogicalKey::Character(text) => {
            let committed = match &event.text {
                Some(t) => Some(t.as_str()),
                None => None,
            };
            character_key(text.as_str(), committed, modifiers)
        },
        LogicalKey::Named(key) => named_key(*key, modifiers),
        _ => None,
    }
}

/// The arrow keys are sent under the names of their directions: whatever
/// modifiers are held, pressing the up, down, left or right arrow sends
/// `<`, the modifier letters each followed by `-`, then `Up`, `Down`,
/// `Left` or `Right`, then `>`.
pub proof fn lemma_arrow_keys_name_their_direction(event: KeyInput, m: Modifiers)
    requires
        event.pressed,
    ensures
        event.logical_key == LogicalKey::Named(NamedKey::ArrowUp) ==> key_text(event, m) == Some(
            seq!['<'] + dashed(modifier_letters(m)) + "Up"@ + seq!['>'],
        ),
        event.logical_key == LogicalKey::Named(NamedKey::ArrowDown) ==> key_text(event, m) == Some(
            seq!['<'] + dashed(modifier_letters(m)) + "Down"@ + seq!['>'],
        ),
        event.logical_key == LogicalKey::Named(NamedKey::ArrowLeft) ==> key_text(event, m) == Some(
            seq!['<'] + dashed(modifier_letters(m)) + "Left"@ + seq!['>'],
        ),
        event.logical_key == LogicalKey::Named(NamedKey::ArrowRight) ==> key_text(event, m)
            == Some(seq!['<'] + dashed(modifier_letters(m)) + "Right"@ + seq!['>']),
{
}

/// No two named keys share a Neovim name: a name tells which key was
/// pressed.
#[verifier::rlimit(100)]
pub proof fn lemma_named_keys_have_distinct_names(a: NamedKey, b: NamedKey)
    ensures
        key_name(a) is Some && key_name(a) == key_name(b) ==> a == b,
{
    reveal_strlit("Esc");
    reveal_strlit("CR");
    reveal_strlit("Tab");
    reveal_strlit("BS");
    reveal_strlit("Del");
    reveal_strlit("Insert");
    reveal_strlit("Up");
    reveal_strlit("Down");
    reveal_strlit("Left");
    reveal_strlit("Right");
    reveal_strlit("Home");
    reveal_strlit("End");
    reveal_strlit("PageUp");
    reveal_strlit("PageDown");
    reveal_strlit("F1");
    reveal_strlit("F2");
    reveal_strlit("F3");
    reveal_strlit("F4");
    reveal_strlit("F5");
    reveal_strlit("F6");
    reveal_strlit("F7");
    reveal_strlit("F8");
    reveal_strlit("F9");
    reveal_strlit("F10");
    reveal_strlit("F11");
    reveal_strlit("F12");
    reveal_strlit("Space");
    assert("Esc"@.len() == 3 && "Esc"@[0] == 'E' && "Esc"@[1] == 's');
    assert("CR"@.len() == 2 && "CR"@[0] == 'C');
    assert("Tab"@.len() == 3 && "Tab"@[0] == 'T');
    assert("BS"@.len() == 2 && "BS"@[0] == 'B');
    assert("Del"@.len() == 3 && "Del"@[0] == 'D');
    assert("Insert"@.len() == 6 && "Insert"@[0] == 'I');
    assert("Up"@.len() == 2 && "Up"@[0] == 'U');
    assert("Down"@.len() == 4 && "Down"@[0] == 'D');
    assert("Left"@.len() == 4 && "Left"@[0] == 'L');
    assert("Right"@.len() == 5 && "Right"@[0] == 'R');
    assert("Home"@.len() == 4 && "Home"@[0] == 'H');
    assert("End"@.len() == 3 && "End"@[0] == 'E' && "End"@[1] == 'n');
    assert("PageUp"@.len() == 6 && "PageUp"@[0] == 'P');
    assert("PageDown"@.len() == 8 && "PageDown"@[0] == 'P');
    assert("F1"@.len() == 2 && "F1"@[0] == 'F' && "F1"@[1] == '1');
    assert("F2"@.len() == 2 && "F2"@[0] == 'F' && "F2"@[1] == '2');
    assert("F3"@.len() == 2 && "F3"@[0] == 'F' && "F3"@[1] == '3');
    assert("F4"@.len() == 2 && "F4"@[0] == 'F' && "F4"@[1] == '4');
    assert("F5"@.len() == 2 && "F5"@[0] == 'F' && "F5"@[1] == '5');
    assert("F6"@.len() == 2 && "F6"@[0] == 'F' && "F6"@[1] == '6');
    assert("F7"@.len() == 2 && "F7"@[0] == 'F' && "F7"@[1] == '7');
    assert("F8"@.len() == 2 && "F8"@[0] == 'F' && "F8"@[1] == '8');
    assert("F9"@.len() == 2 && "F9"@[0] == 'F' && "F9"@[1] == '9');
    assert("F10"@.len() == 3 && "F10"@[0] == 'F' && "F10"@[1] == '1' && "F10"@[2] == '0');
    assert("F11"@.len() == 3 && "F11"@[0] == 'F' && "F11"@[1] == '1' && "F11"@[2] == '1');
    assert("F12"@.len() == 3 && "F12"@[0] == 'F' && "F12"@[1] == '1' && "F12"@[2] == '2');
    assert("Space"@.len() == 5 && "Space"@[0] == 'S');
}

/// The page and line-end keys are sent under their own names: `PageUp`,
/// `PageDown`, `Home` and `End`, whatever modifiers are held.
pub proof fn lemma_page_keys_name_their_direction(event: KeyInput, m: Modifiers)
    requires
        event.pressed,
    ensures
        event.logical_key == LogicalKey::Named(NamedKey::PageUp) ==> key_text(event, m) == Some(
            seq!['<'] + dashed(modifier_letters(m)) + "PageUp"@ + seq!['>'],
        ),
        event.logical_key == LogicalKey::Named(NamedKey::PageDown) ==> key_text(event, m)
            == Some(seq!['<'] + dashed(modifier_letters(m)) + "PageDown"@ + seq!['>']),
        event.logical_key == LogicalKey::Named(NamedKey::Home) ==> key_text(event, m) == Some(
            seq!['<'] + dashed(modifier_letters(m)) + "Home"@ + seq!['>'],
        ),
        event.logical_key == LogicalKey::Named(NamedKey::End) ==> key_text(event, m) == Some(
            seq!['<'] + dashed(modifier_letters(m)) + "End"@ + seq!['>'],
        ),
{
}

/// `a + b` holds `x` exactly when `a` or `b` does.
proof fn lemma_concat_contains(a: Seq<char>, b: Seq<char>, x: char)
    ensures
        (a + b).contains(x) == (a.contains(x) || b.contains(x)),
{
    if a.contains(x) {
        let i = choose|i: int| 0 <= i < a.len() && a[i] == x;
        assert((a + b)[i] == x);
    }
    if b.contains(x) {
        let i = choose|i: int| 0 <= i < b.len() && b[i] == x;
        assert((a + b)[a.len() + i] == x);
    }
    if (a + b).contains(x) {
        let i = choose|i: int| 0 <= i < (a + b).len() && (a + b)[i] == x;
        if i < a.len() {
            assert(a[i] == x);
        } else {
            assert(b[i - a.len()] == x);
        }
    }
}

/// The letter `letter` when `held`, and nothing otherwise.
spec fn letter_if(held: bool, letter: char) -> Seq<char> {
    if held {
        seq![letter]
    } else {
        Seq::empty()
    }
}

proof fn lemma_letters_contain(s: bool, c: bool, a: bool, d: bool, x: char)
    ensures
        (letter_if(s, 'S') + letter_if(c, 'C') + letter_if(a, 'A') + letter_if(d, 'D')).contains(
            x,
        ) == ((s && x == 'S') || (c && x == 'C') || (a && x == 'A') || (d && x == 'D')),
        (letter_if(c, 'C') + letter_if(a, 'A') + letter_if(d, 'D') + letter_if(s, 'S')).contains(
            x,
        ) == ((s && x == 'S') || (c && x == 'C') || (a && x == 'A') || (d && x == 'D')),
{
    let ls = letter_if(s, 'S');
    let lc = letter_if(c, 'C');
    let la = letter_if(a, 'A');
    let ld = letter_if(d, 'D');
    assert(ls.contains(x) == (s && x == 'S')) by {
        if s {
            assert(ls[0] == 'S');
        }
    }
    assert(lc.contains(x) == (c && x == 'C')) by {
        if c {
            assert(lc[0] == 'C');
        }
    }
    assert(la.contains(x) == (a && x == 'A')) by {
        if a {
            assert(la[0] == 'A');
        }
    }
    assert(ld.contains(x) == (d && x == 'D')) by {
        if d {
            assert(ld[0] == 'D');
        }
    }
    lemma_concat_contains(ls, lc, x);
    lemma_concat_contains(ls + lc, la, x);
    lemma_concat_contains(ls + lc + la, ld, x);
    lemma_concat_contains(lc, la, x);
    lemma_concat_contains(lc + la, ld, x);
    lemma_concat_contains(lc + la + ld, ls, x);
}

/// Each modifier has its own letter in Neovim's key notation: `S` is sent
/// exactly when shift is held, `C` when control is, `A` when alt is and `D`
/// when super is, both for named keys and for keys with a command modifier.
pub proof fn lemma_modifier_letters_name_the_modifiers(m: Modifiers)
    ensures
        modifier_letters(m).contains('S') == m.shift,
        modifier_letters(m).contains('C') == m.control,
        modifier_letters(m).contains('A') == m.alt,
        modifier_letters(m).contains('D') == m.super_key,
        command_letters(m).contains('S') == m.shift,
        command_letters(m).contains('C') == m.control,
        command_letters(m).contains('A') == m.alt,
        command_letters(m).contains('D') == m.super_key,
{
    let named = letter_if(m.shift, 'S') + letter_if(m.control, 'C') + letter_if(m.alt, 'A')
        + letter_if(m.super_key, 'D');
    let command = letter_if(m.control, 'C') + letter_if(m.alt, 'A') + letter_if(m.super_key, 'D')
        + letter_if(m.shift, 'S');
    assert(modifier_letters(m) == named);
    assert(command_letters(m) == command);
    lemma_letters_contain(m.shift, m.control, m.alt, m.super_key, 'S');
    lemma_letters_contain(m.shift, m.control, m.alt, m.super_key, 'C');
    lemma_letters_contain(m.shift, m.control, m.alt, m.super_key, 'A');
    lemma_letters_contain(m.shift, m.control, m.alt, m.super_key, 'D');
}

} // verus!
