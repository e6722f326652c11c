use vstd::prelude::*;

use crate::appearance::{icon_family, is_icon_font_family};
use crate::config::is_white_space;
use crate::text::{ascii_lowercase, chars_of, to_ascii_lowercase};

verus! {

/// `s` without its leading white space.
pub open spec fn trim_start(s: Seq<char>) -> Seq<char>
    decreases s.len(),
{
    if s.len() > 0 && is_white_space(s[0]) {
        trim_start(s.drop_first())
    } else {
        s
    }
}

/// `s` without its trailing white space.
pub open spec fn trim_end(s: Seq<char>) -> Seq<char>
    decreases s.len(),
{
    if s.len() > 0 && is_white_space(s.last()) {
        trim_end(s.drop_last())
    } else {
        s
    }
}

/// `s` without leading and trailing white space.
pub open spec fn trimmed(s: Seq<char>) -> Seq<char> {
    trim_end(trim_start(s))
}

/// `a` and `b` are equal up to the case of ASCII letters.
pub open spec fn same_ignoring_ascii_case(a: Seq<char>, b: Seq<char>) -> bool {
    ascii_lowercase(a) == ascii_lowercase(b)
}

fn white_space_char(c: char) -> (r: bool)
    ensures
        r == is_white_space(c),
{
    let v = c as u32;
    (0x09 <= v && v <= 0x0d) || v == 0x20 || v == 0x85 || v == 0xa0 || v == 0x1680 || (0x2000
        <= v && v <= 0x200a) || v == 0x2028 || v == 0x2029 || v == 0x202f || v == 0x205f || v
        == 0x3000
}

/// The characters of `text` without leading and trailing white space.
pub fn trim_chars(text: &str) -> (r: Vec<char>)
    ensures
        r@ == trimmed(text@),
{
    let chars = chars_of(text);
    let n = chars.len();
    let mut start: usize = 0;
    assert(text@.subrange(0, n as int) =~= text@);
    while start < n && white_space_char(chars[start])
        invariant
            chars@ == text@,
            n == chars@.len(),
            start <= n,
            trim_start(text@) == trim_start(text@.subrange(start as int, n as int)),
        decreases n - start,
    {
        proof {
            let rest = text@.subrange(start as int, n as int);
            assert(rest.drop_first() =~= text@.subrange(start + 1, n as int));
        }
        start += 1;
    }
    let ghost middle = text@.subrange(start as int, n as int);
    assert(trim_start(text@) == middle);
    let mut end: usize = n;
    while end > start && white_space_char(chars[end - 1])
        invariant
            chars@ == text@,
            n == chars@.len(),
            start <= end <= n,
            middle == text@.subrange(start as int, n as int),
            trim_end(middle) == trim_end(text@.subrange(start as int, end as int)),
        decreases end - start,
    {
        proof {
            let part = text@.subrange(start as int, end as int);
            assert(part.drop_last() =~= text@.subrange(start as int, end - 1));
        }
        end -= 1;
    }
    let mut out: Vec<char> = Vec::new();
    let mut i: usize = start;
    while i < end
        invariant
            chars@ == text@,
            start <= i <= end <= n,
            n == chars@.len(),
            out@ == text@.subrange(start as int, i as int),
        decreases end - i,
    {
        out.push(chars[i]);
        i += 1;
        assert(out@ =~= text@.subrange(start as int, i as int));
    }
    out
}

fn same_chars(a: &Vec<char>, b: &Vec<char>) -> (r: bool)
    ensures
        r == (a@ == b@),
{
    if a.len() != b.len() {
        return false;
    }
    let mut i: usize = 0;
    while i < a.len()
        invariant
            a@.len() == b@.len(),
            i <= a@.len(),
            forall|j: int| 0 <= j < i ==> a@[j] == b@[j],
        decreases a@.len() - i,
    {
        if a[i] != b[i] {
            return false;
        }
        i += 1;
    }
    assert(a@ =~= b@);
    true
}

/// The first of `families` that is `wanted` up to ASCII case.
pub open spec fn first_match(families: Seq<String>, wanted: Seq<char>, i: int) -> bool {
    &&& 0 <= i < families.len()
    &&& same_ignoring_ascii_case(families[i]@, wanted)
    &&& forall|j: int| 0 <= j < i ==> !same_ignoring_ascii_case(#[trigger] families[j]@, wanted)
}

/// No family is `wanted` up to ASCII case.
pub open spec fn no_match(families: Seq<String>, wanted: Seq<char>) -> bool {
    forall|j: int| 0 <= j < families.len() ==> !same_ignoring_ascii_case(#[trigger] families[j]@, wanted)
}

/// The index of the first family that is `wanted` up to ASCII case.
fn find_ignoring_ascii_case(families: &Vec<String>, wanted: &Vec<char>) -> (r: Option<usize>)
    ensures
        match r {
            Some(i) => first_match(families@, wanted@, i as int),
            None => no_match(families@, wanted@),
        },
{
    let wanted_lower = lower_chars(wanted);
    let mut i: usize = 0;
    while i < families.len()
        invariant
            wanted_lower@ == ascii_lowercase(wanted@),
            i <= families@.len(),
            forall|j: int|
                0 <= j < i ==> !same_ignoring_ascii_case(#[trigger] families@[j]@, wanted@),
        decreases families@.len() - i,
    {
        let lower = to_ascii_lowercase(families[i].as_str());
        if same_chars(&lower, &wanted_lower) {
            return Some(i);
        }
        i += 1;
    }
    None
}

fn lower_chars(chars: &Vec<char>) -> (r: Vec<char>)
    ensures
        r@ == ascii_lowercase(chars@),
{
    let mut out: Vec<char> = Vec::new();
    let mut i: usize = 0;
    while i < chars.len()
        invariant
            i <= chars@.len(),
            out@ == ascii_lowercase(chars@).subrange(0, i as int),
        decreases chars@.len() - i,
    {
        let c = chars[i];
        let lower = if 'A' <= c && c <= 'Z' {
            ((c as u32 + 32) as u8) as char
        } else {
            c
        };
        out.push(lower);
        i += 1;
        assert(out@ =~= ascii_lowercase(chars@).subrange(0, i as int));
    }
    assert(ascii_lowercase(chars@).subrange(0, chars@.len() as int) =~= ascii_lowercase(chars@));
    out
}

/// The installed family that the settings ask for: the first family equal
/// to `requested`, trimmed, up to ASCII case.
pub fn pick_font_family(families: &Vec<String>, requested: &str) -> (r: Option<usize>)
    ensures
        match r {
            Some(i) => first_match(families@, trimmed(requested@), i as int),
            None => no_match(families@, trimmed(requested@)),
        },
{
    let wanted = trim_chars(requested);
    find_ignoring_ascii_case(families, &wanted)
}

/// The Japanese fonts Mado looks for, best first.
pub open spec fn japanese_candidates() -> Seq<Seq<char>> {
    seq![
        "Hiragino Sans"@,
        "Hiragino Kaku Gothic ProN"@,
        "Hiragino Kaku Gothic Pro"@,
        "Yu Gothic UI"@,
        "Yu Gothic"@,
        "YuGothic"@,
        "Meiryo"@,
        "MS Gothic"@,
        "Noto Sans CJK JP"@,
        "Noto Sans JP"@,
        "Noto Sans CJK"@,
        "Osaka"@,
    ]
}

/// The icon (Nerd) fonts Mado looks for, best first.
pub open spec fn icon_candidates() -> Seq<Seq<char>> {
    seq![
        "HackGen Console NF"@,
        "HackGen35 Console NF"@,
        "Symbols Nerd Font Mono"@,
        "Symbols Nerd Font"@,
        "CaskaydiaCove Nerd Font Mono"@,
        "JetBrainsMono Nerd Font Mono"@,
        "Hack Nerd Font Mono"@,
        "FiraCode Nerd Font Mono"@,
        "MesloLGM Nerd Font Mono"@,
    ]
}

fn japanese_candidate_list() -> (r: Vec<&'static str>)
    ensures
        r@.map_values(|s: &str| s@) == japanese_candidates(),
{
    let r = vec![
        "Hiragino Sans",
        "Hiragino Kaku Gothic ProN",
        "Hiragino Kaku Gothic Pro",
        "Yu Gothic UI",
        "Yu Gothic",
        "YuGothic",
        "Meiryo",
        "MS Gothic",
        "Noto Sans CJK JP",
        "Noto Sans JP",
        "Noto Sans CJK",
        "Osaka",
    ];
    assert(r@.map_values(|s: &str| s@) =~= japanese_candidates());
    r
}

fn icon_candidate_list() -> (r: Vec<&'static str>)
    ensures
        r@.map_values(|s: &str| s@) == icon_candidates(),
{
    let r = vec![
        "HackGen Console NF",
        "HackGen35 Console NF",
        "Symbols Nerd Font Mono",
        "Symbols Nerd Font",
        "CaskaydiaCove Nerd Font Mono",
        "JetBrainsMono Nerd Font Mono",
        "Hack Nerd Font Mono",
        "FiraCode Nerd Font Mono",
        "MesloLGM Nerd Font Mono",
    ];
    assert(r@.map_values(|s: &str| s@) =~= icon_candidates());
    r
}

/// The family chosen by trying `candidates` in order: the first family
/// matching the first candidate that any family matches.
pub open spec fn candidate_pick(families: Seq<String>, candidates: Seq<Seq<char>>, r: Option<usize>) -> bool {
    match r {
        Some(i) => exists|k: int|
            0 <= k < candidates.len() && first_match(families, candidates[k], i as int) && forall|
                m: int,
            |
                0 <= m < k ==> #[trigger] no_match(families, candidates[m]),
        None => forall|k: int| 0 <= k < candidates.len() ==> #[trigger] no_match(families, candidates[k]),
    }
}

fn pick_candidate(families: &Vec<String>, candidates: &Vec<&'static str>) -> (r: Option<usize>)
    ensures
        candidate_pick(families@, candidates@.map_values(|s: &str| s@), r),
{
    let ghost wanted = candidates@.map_values(|s: &str| s@);
    let mut k: usize = 0;
    while k < candidates.len()
        invariant
            wanted == candidates@.map_values(|s: &str| s@),
            k <= candidates@.len(),
            forall|m: int| 0 <= m < k ==> #[trigger] no_match(families@, wanted[m]),
        decreases candidates@.len() - k,
    {
        let candidate = chars_of(candidates[k]);
        assert(candidate@ == wanted[k as int]);
        match find_ignoring_ascii_case(families, &candidate) {
            Some(i) => {
                return Some(i);
            },
            None => {},
        }
        k += 1;
    }
    None
}

/// The Japanese fallback font: the first candidate that is installed.
pub fn pick_japanese_font(families: &Vec<String>) -> (r: Option<usize>)
    ensures
        candidate_pick(families@, japanese_candidates(), r),
{
    pick_candidate(families, &japanese_candidate_list())
}

/// The icon fallback font: the first candidate that is installed, else the
/// first installed family that is a Nerd Font.
pub fn pick_icon_font(families: &Vec<String>) -> (r: Option<usize>)
    ensures
        (exists|k: int| 0 <= k < icon_candidates().len() && !no_match(families@, icon_candidates()[k]))
            ==> candidate_pick(families@, icon_candidates(), r),
        (forall|k: int| 0 <= k < icon_candidates().len() ==> #[trigger] no_match(families@, icon_candidates()[k]))
            ==> match r {
            Some(i) => 0 <= i < families@.len() && icon_family(families@[i as int]@) && forall|
                j: int,
            |
                0 <= j < i ==> !#[trigger] icon_family(families@[j]@),
            None => forall|j: int| 0 <= j < families@.len() ==> !#[trigger] icon_family(families@[j]@),
        },
{
    let first = pick_candidate(families, &icon_candidate_list());
    if first.is_some() {
        proof {
            let i = first->0 as int;
            let k = choose|k: int|
                0 <= k < icon_candidates().len() && first_match(families@, icon_candidates()[k], i)
                    && forall|m: int| 0 <= m < k ==> #[trigger] no_match(families@, icon_candidates()[m]);
            assert(!no_match(families@, icon_candidates()[k]));
        }
        return first;
    }
    proof {
        assert forall|k: int| 0 <= k < icon_candidates().len() implies #[trigger] no_match(
            families@,
            icon_candidates()[k],
        ) by {}
    }
    let mut i: usize = 0;
    while i < families.len()
        invariant
            i <= families@.len(),
            forall|j: int| 0 <= j < i ==> !#[trigger] icon_family(families@[j]@),
            forall|k: int|
                0 <= k < icon_candidates().len() ==> #[trigger] no_match(
                    families@,
                    icon_candidates()[k],
                ),
        decreases families@.len() - i,
    {
        if is_icon_font_family(families[i].as_str()) {
            return Some(i);
        }
        i += 1;
    }
    None
}

} // verus!
