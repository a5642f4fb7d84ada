//! Hexadecimal RGB color strings: validation, parsing and canonical
//! formatting.
//!
//! A color string is `#RRGGBB` or `#RGB`, case-insensitive.  The short form
//! stands for the long form with every nibble doubled.

use vstd::prelude::*;
use vstd::string::StrSliceExecFns;

verus! {

/// A character is a hexadecimal digit: `0-9`, `a-f` or `A-F`.
pub open spec fn is_hex_digit(c: char) -> bool {
    (48 <= c as u32 && c as u32 <= 57)  // '0' ..= '9'
    || (97 <= c as u32 && c as u32 <= 102)  // 'a' ..= 'f'
    || (65 <= c as u32 && c as u32 <= 70)  // 'A' ..= 'F'
}

/// The numeric value of a hexadecimal digit.
pub open spec fn hex_digit_value(c: char) -> u8 {
    if 48 <= c as u32 && c as u32 <= 57 {
        (c as u32 - 48) as u8
    } else if 97 <= c as u32 && c as u32 <= 102 {
        (c as u32 - 87) as u8
    } else {
        (c as u32 - 55) as u8
    }
}

/// The uppercase hexadecimal digit with the given value (`0 <= v < 16`).
pub open spec fn hex_upper_char(v: u8) -> char {
    if v == 0 {
        '0'
    } else if v == 1 {
        '1'
    } else if v == 2 {
        '2'
    } else if v == 3 {
        '3'
    } else if v == 4 {
        '4'
    } else if v == 5 {
        '5'
    } else if v == 6 {
        '6'
    } else if v == 7 {
        '7'
    } else if v == 8 {
        '8'
    } else if v == 9 {
        '9'
    } else if v == 10 {
        'A'
    } else if v == 11 {
        'B'
    } else if v == 12 {
        'C'
    } else if v == 13 {
        'D'
    } else if v == 14 {
        'E'
    } else {
        'F'
    }
}

/// Uppercasing of a hexadecimal digit: the uppercase digit with the same
/// value.  Characters that are no hexadecimal digit are left unchanged.
pub open spec fn to_upper_hex_char(c: char) -> char {
    if is_hex_digit(c) {
        hex_upper_char(hex_digit_value(c))
    } else {
        c
    }
}

/// A string matches the accepted color language `^#([0-9a-fA-F]{6}|[0-9a-fA-F]{3})$`.
pub open spec fn is_valid_hex_color(s: Seq<char>) -> bool {
    &&& s.len() == 7 || s.len() == 4
    &&& s[0] == '#'
    &&& forall|i: int| 1 <= i < s.len() ==> is_hex_digit(#[trigger] s[i])
}

/// The six digits of a color string, with the short form expanded by
/// doubling each nibble.
pub open spec fn hex_digit_seq(s: Seq<char>) -> Seq<char> {
    if s.len() == 7 {
        s.subrange(1, 7)
    } else {
        seq![s[1], s[1], s[2], s[2], s[3], s[3]]
    }
}

/// The byte value of two hexadecimal digits, high nibble first.
pub open spec fn byte_of_hex_pair(hi: char, lo: char) -> u8 {
    (hex_digit_value(hi) * 16 + hex_digit_value(lo)) as u8
}

/// The RGB triple denoted by a valid color string.
pub open spec fn rgb_of_hex(s: Seq<char>) -> (u8, u8, u8) {
    let d = hex_digit_seq(s);
    (
        byte_of_hex_pair(d[0], d[1]),
        byte_of_hex_pair(d[2], d[3]),
        byte_of_hex_pair(d[4], d[5]),
    )
}

/// The canonical uppercase `#RRGGBB` form of an RGB triple.
pub open spec fn canonical_hex_chars(rgb: (u8, u8, u8)) -> Seq<char> {
    seq![
        '#',
        hex_upper_char((rgb.0 / 16) as u8),
        hex_upper_char((rgb.0 % 16) as u8),
        hex_upper_char((rgb.1 / 16) as u8),
        hex_upper_char((rgb.1 % 16) as u8),
        hex_upper_char((rgb.2 / 16) as u8),
        hex_upper_char((rgb.2 % 16) as u8),
    ]
}

fn is_ascii_hex_digit(c: char) -> (r: bool)
    ensures
        r == is_hex_digit(c),
{
    let u = c as u32;
    (48 <= u && u <= 57) || (97 <= u && u <= 102) || (65 <= u && u <= 70)
}

/// Whether a string matches the accepted color language.
pub fn is_valid_hex_color_str(s: &str) -> (r: bool)
    ensures
        r == is_valid_hex_color(s@),
{
    let n = s.unicode_len();
    if n != 7 && n != 4 {
        return false;
    }
    if s.get_char(0) != '#' {
        return false;
    }
    let mut i: usize = 1;
    while i < n
        invariant
            1 <= i <= n,
            n == s@.len(),
            n == 7 || n == 4,
            s@[0] == '#',
            forall|j: int| 1 <= j < i ==> is_hex_digit(#[trigger] s@[j]),
        decreases n - i,
    {
        if !is_ascii_hex_digit(s.get_char(i)) {
            assert(!is_hex_digit(s@[i as int]));
            return false;
        }
        i += 1;
    }
    true
}

fn hex_digit_val(c: char) -> (v: u8)
    requires
        is_hex_digit(c),
    ensures
        v == hex_digit_value(c),
        v < 16,
{
    let u = c as u32;
    if u <= 57 {
        (u - 48) as u8
    } else if u >= 97 {
        (u - 87) as u8
    } else {
        (u - 55) as u8
    }
}

fn hex_pair_value(hi: char, lo: char) -> (v: u8)
    requires
        is_hex_digit(hi),
        is_hex_digit(lo),
    ensures
        v == byte_of_hex_pair(hi, lo),
{
    let h = hex_digit_val(hi);
    let l = hex_digit_val(lo);
    h * 16 + l
}

/// Parse a valid color string into its RGB triple.  The six (expanded)
/// digits are read as a 24-bit number whose bytes are, from the highest,
/// red, green and blue.
pub fn hex_to_rgb(hex: &str) -> (rgb: (u8, u8, u8))
    requires
        is_valid_hex_color(hex@),
    ensures
        rgb == rgb_of_hex(hex@),
{
    let n = hex.unicode_len();
    if n == 7 {
        let r = hex_pair_value(hex.get_char(1), hex.get_char(2));
        let g = hex_pair_value(hex.get_char(3), hex.get_char(4));
        let b = hex_pair_value(hex.get_char(5), hex.get_char(6));
        (r, g, b)
    } else {
        let r = hex_pair_value(hex.get_char(1), hex.get_char(1));
        let g = hex_pair_value(hex.get_char(2), hex.get_char(2));
        let b = hex_pair_value(hex.get_char(3), hex.get_char(3));
        (r, g, b)
    }
}

fn hex_upper_str(v: u8) -> (r: &'static str)
    requires
        v < 16,
    ensures
        r@ == seq![hex_upper_char(v)],
{
    proof {
        reveal_strlit("0");
        reveal_strlit("1");
        reveal_strlit("2");
        reveal_strlit("3");
        reveal_strlit("4");
        reveal_strlit("5");
        reveal_strlit("6");
        reveal_strlit("7");
        reveal_strlit("8");
        reveal_strlit("9");
        reveal_strlit("A");
        reveal_strlit("B");
        reveal_strlit("C");
        reveal_strlit("D");
        reveal_strlit("E");
        reveal_strlit("F");
    }
    if v == 0 {
        "0"
    } else if v == 1 {
        "1"
    } else if v == 2 {
        "2"
    } else if v == 3 {
        "3"
    } else if v == 4 {
        "4"
    } else if v == 5 {
        "5"
    } else if v == 6 {
        "6"
    } else if v == 7 {
        "7"
    } else if v == 8 {
        "8"
    } else if v == 9 {
        "9"
    } else if v == 10 {
        "A"
    } else if v == 11 {
        "B"
    } else if v == 12 {
        "C"
    } else if v == 13 {
        "D"
    } else if v == 14 {
        "E"
    } else {
        "F"
    }
}

/// Format an RGB triple in the canonical uppercase `#RRGGBB` form.
pub fn rgb_to_hex(rgb: (u8, u8, u8)) -> (s: String)
    ensures
        s@ == canonical_hex_chars(rgb),
{
    let mut s = String::new();
    proof {
        reveal_strlit("#");
    }
    s.append("#");
    s.append(hex_upper_str(rgb.0 / 16));
    s.append(hex_upper_str(rgb.0 % 16));
    s.append(hex_upper_str(rgb.1 / 16));
    s.append(hex_upper_str(rgb.1 % 16));
    s.append(hex_upper_str(rgb.2 / 16));
    s.append(hex_upper_str(rgb.2 % 16));
    proof {
        assert(s@ =~= canonical_hex_chars(rgb));
    }
    s
}

proof fn lemma_hex_pair_split(hi: char, lo: char)
    requires
        is_hex_digit(hi),
        is_hex_digit(lo),
    ensures
        byte_of_hex_pair(hi, lo) / 16 == hex_digit_value(hi),
        byte_of_hex_pair(hi, lo) % 16 == hex_digit_value(lo),
{
    let a = hex_digit_value(hi) as int;
    let b = hex_digit_value(lo) as int;
    assert((a * 16 + b) / 16 == a && (a * 16 + b) % 16 == b) by (nonlinear_arith)
        requires
            0 <= a < 16,
            0 <= b < 16,
    ;
}

/// Law: parsing a valid six-digit color string and formatting the result
/// yields the same string in its canonical uppercase form.
pub proof fn lemma_hex_round_trip(s: Seq<char>)
    requires
        is_valid_hex_color(s),
        s.len() == 7,
    ensures
        canonical_hex_chars(rgb_of_hex(s)) == s.map_values(|c: char| to_upper_hex_char(c)),
{
    let d = hex_digit_seq(s);
    lemma_hex_pair_split(d[0], d[1]);
    lemma_hex_pair_split(d[2], d[3]);
    lemma_hex_pair_split(d[4], d[5]);
    assert(!is_hex_digit('#'));
    assert(canonical_hex_chars(rgb_of_hex(s)) =~= s.map_values(|c: char| to_upper_hex_char(c)));
}

/// The short color form with each nibble doubled into the long form.
pub open spec fn expand_short_hex(s: Seq<char>) -> Seq<char> {
    seq![s[0], s[1], s[1], s[2], s[2], s[3], s[3]]
}

/// Law: a valid `#RGB` string parses to the same RGB triple as the
/// `#RRGGBB` string got by doubling each of its nibbles.
pub proof fn lemma_short_form_equivalence(s: Seq<char>)
    requires
        is_valid_hex_color(s),
        s.len() == 4,
    ensures
        is_valid_hex_color(expand_short_hex(s)),
        rgb_of_hex(expand_short_hex(s)) == rgb_of_hex(s),
{
    let e = expand_short_hex(s);
    assert(forall|i: int| 1 <= i < 7 ==> is_hex_digit(#[trigger] e[i]));
    assert(hex_digit_seq(e) =~= hex_digit_seq(s));
}

} // verus!
