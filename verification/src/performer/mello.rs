use vstd::prelude::*;
use crate::engine::{is_digit, digit_value};

verus! {

/// A layer described by its file name: note name, pitch, and peak
/// amplitude in units of 1/100000 (the name carries five decimals).
#[derive(PartialEq, Eq, Debug)]
pub struct Mello {
    pub name: String,
    pub pitch: u8,
    pub amplitude: u32,
}

/// Whether a character is a decimal digit of any script (Unicode general
/// category Nd, Unicode 16.0), as `\d` of a Unicode regular expression.
pub open spec fn is_decimal_digit(c: char) -> bool {
    let u = c as u32;
    (0x30 <= u && u <= 0x39) ||
    (0x660 <= u && u <= 0x669) ||
    (0x6F0 <= u && u <= 0x6F9) ||
    (0x7C0 <= u && u <= 0x7C9) ||
    (0x966 <= u && u <= 0x96F) ||
    (0x9E6 <= u && u <= 0x9EF) ||
    (0xA66 <= u && u <= 0xA6F) ||
    (0xAE6 <= u && u <= 0xAEF) ||
    (0xB66 <= u && u <= 0xB6F) ||
    (0xBE6 <= u && u <= 0xBEF) ||
    (0xC66 <= u && u <= 0xC6F) ||
    (0xCE6 <= u && u <= 0xCEF) ||
    (0xD66 <= u && u <= 0xD6F) ||
    (0xDE6 <= u && u <= 0xDEF) ||
    (0xE50 <= u && u <= 0xE59) ||
    (0xED0 <= u && u <= 0xED9) ||
    (0xF20 <= u && u <= 0xF29) ||
    (0x1040 <= u && u <= 0x1049) ||
    (0x1090 <= u && u <= 0x1099) ||
    (0x17E0 <= u && u <= 0x17E9) ||
    (0x1810 <= u && u <= 0x1819) ||
    (0x1946 <= u && u <= 0x194F) ||
    (0x19D0 <= u && u <= 0x19D9) ||
    (0x1A80 <= u && u <= 0x1A89) ||
    (0x1A90 <= u && u <= 0x1A99) ||
    (0x1B50 <= u && u <= 0x1B59) ||
    (0x1BB0 <= u && u <= 0x1BB9) ||
    (0x1C40 <= u && u <= 0x1C49) ||
    (0x1C50 <= u && u <= 0x1C59) ||
    (0xA620 <= u && u <= 0xA629) ||
    (0xA8D0 <= u && u <= 0xA8D9) ||
    (0xA900 <= u && u <= 0xA909) ||
    (0xA9D0 <= u && u <= 0xA9D9) ||
    (0xA9F0 <= u && u <= 0xA9F9) ||
    (0xAA50 <= u && u <= 0xAA59) ||
    (0xABF0 <= u && u <= 0xABF9) ||
    (0xFF10 <= u && u <= 0xFF19) ||
    (0x104A0 <= u && u <= 0x104A9) ||
    (0x10D30 <= u && u <= 0x10D39) ||
    (0x10D40 <= u && u <= 0x10D49) ||
    (0x11066 <= u && u <= 0x1106F) ||
    (0x110F0 <= u && u <= 0x110F9) ||
    (0x11136 <= u && u <= 0x1113F) ||
    (0x111D0 <= u && u <= 0x111D9) ||
    (0x112F0 <= u && u <= 0x112F9) ||
    (0x11450 <= u && u <= 0x11459) ||
    (0x114D0 <= u && u <= 0x114D9) ||
    (0x11650 <= u && u <= 0x11659) ||
    (0x116C0 <= u && u <= 0x116C9) ||
    (0x116D0 <= u && u <= 0x116E3) ||
    (0x11730 <= u && u <= 0x11739) ||
    (0x118E0 <= u && u <= 0x118E9) ||
    (0x11950 <= u && u <= 0x11959) ||
    (0x11BF0 <= u && u <= 0x11BF9) ||
    (0x11C50 <= u && u <= 0x11C59) ||
    (0x11D50 <= u && u <= 0x11D59) ||
    (0x11DA0 <= u && u <= 0x11DA9) ||
    (0x11F50 <= u && u <= 0x11F59) ||
    (0x16130 <= u && u <= 0x16139) ||
    (0x16A60 <= u && u <= 0x16A69) ||
    (0x16AC0 <= u && u <= 0x16AC9) ||
    (0x16B50 <= u && u <= 0x16B59) ||
    (0x16D70 <= u && u <= 0x16D79) ||
    (0x1CCF0 <= u && u <= 0x1CCF9) ||
    (0x1D7CE <= u && u <= 0x1D7FF) ||
    (0x1E140 <= u && u <= 0x1E149) ||
    (0x1E2F0 <= u && u <= 0x1E2F9) ||
    (0x1E4F0 <= u && u <= 0x1E4F9) ||
    (0x1E5F1 <= u && u <= 0x1E5FA) ||
    (0x1E950 <= u && u <= 0x1E959) ||
    (0x1FBF0 <= u && u <= 0x1FBF9)
}

/// A digit of the naming pattern: an ASCII digit, or with `wide` a decimal
/// digit of any script.
pub open spec fn pattern_digit(c: char, wide: bool) -> bool {
    is_digit(c) || (wide && is_decimal_digit(c))
}

/// Whether a character is a decimal digit of any script.
fn decimal_digit(c: char) -> (r: bool)
    ensures
        r == is_decimal_digit(c),
{
    let u = c as u32;
    (0x30 <= u && u <= 0x39) ||
    (0x660 <= u && u <= 0x669) ||
    (0x6F0 <= u && u <= 0x6F9) ||
    (0x7C0 <= u && u <= 0x7C9) ||
    (0x966 <= u && u <= 0x96F) ||
    (0x9E6 <= u && u <= 0x9EF) ||
    (0xA66 <= u && u <= 0xA6F) ||
    (0xAE6 <= u && u <= 0xAEF) ||
    (0xB66 <= u && u <= 0xB6F) ||
    (0xBE6 <= u && u <= 0xBEF) ||
    (0xC66 <= u && u <= 0xC6F) ||
    (0xCE6 <= u && u <= 0xCEF) ||
    (0xD66 <= u && u <= 0xD6F) ||
    (0xDE6 <= u && u <= 0xDEF) ||
    (0xE50 <= u && u <= 0xE59) ||
    (0xED0 <= u && u <= 0xED9) ||
    (0xF20 <= u && u <= 0xF29) ||
    (0x1040 <= u && u <= 0x1049) ||
    (0x1090 <= u && u <= 0x1099) ||
    (0x17E0 <= u && u <= 0x17E9) ||
    (0x1810 <= u && u <= 0x1819) ||
    (0x1946 <= u && u <= 0x194F) ||
    (0x19D0 <= u && u <= 0x19D9) ||
    (0x1A80 <= u && u <= 0x1A89) ||
    (0x1A90 <= u && u <= 0x1A99) ||
    (0x1B50 <= u && u <= 0x1B59) ||
    (0x1BB0 <= u && u <= 0x1BB9) ||
    (0x1C40 <= u && u <= 0x1C49) ||
    (0x1C50 <= u && u <= 0x1C59) ||
    (0xA620 <= u && u <= 0xA629) ||
    (0xA8D0 <= u && u <= 0xA8D9) ||
    (0xA900 <= u && u <= 0xA909) ||
    (0xA9D0 <= u && u <= 0xA9D9) ||
    (0xA9F0 <= u && u <= 0xA9F9) ||
    (0xAA50 <= u && u <= 0xAA59) ||
    (0xABF0 <= u && u <= 0xABF9) ||
    (0xFF10 <= u && u <= 0xFF19) ||
    (0x104A0 <= u && u <= 0x104A9) ||
    (0x10D30 <= u && u <= 0x10D39) ||
    (0x10D40 <= u && u <= 0x10D49) ||
    (0x11066 <= u && u <= 0x1106F) ||
    (0x110F0 <= u && u <= 0x110F9) ||
    (0x11136 <= u && u <= 0x1113F) ||
    (0x111D0 <= u && u <= 0x111D9) ||
    (0x112F0 <= u && u <= 0x112F9) ||
    (0x11450 <= u && u <= 0x11459) ||
    (0x114D0 <= u && u <= 0x114D9) ||
    (0x11650 <= u && u <= 0x11659) ||
    (0x116C0 <= u && u <= 0x116C9) ||
    (0x116D0 <= u && u <= 0x116E3) ||
    (0x11730 <= u && u <= 0x11739) ||
    (0x118E0 <= u && u <= 0x118E9) ||
    (0x11950 <= u && u <= 0x11959) ||
    (0x11BF0 <= u && u <= 0x11BF9) ||
    (0x11C50 <= u && u <= 0x11C59) ||
    (0x11D50 <= u && u <= 0x11D59) ||
    (0x11DA0 <= u && u <= 0x11DA9) ||
    (0x11F50 <= u && u <= 0x11F59) ||
    (0x16130 <= u && u <= 0x16139) ||
    (0x16A60 <= u && u <= 0x16A69) ||
    (0x16AC0 <= u && u <= 0x16AC9) ||
    (0x16B50 <= u && u <= 0x16B59) ||
    (0x16D70 <= u && u <= 0x16D79) ||
    (0x1CCF0 <= u && u <= 0x1CCF9) ||
    (0x1D7CE <= u && u <= 0x1D7FF) ||
    (0x1E140 <= u && u <= 0x1E149) ||
    (0x1E2F0 <= u && u <= 0x1E2F9) ||
    (0x1E4F0 <= u && u <= 0x1E4F9) ||
    (0x1E5F1 <= u && u <= 0x1E5FA) ||
    (0x1E950 <= u && u <= 0x1E959) ||
    (0x1FBF0 <= u && u <= 0x1FBF9)
}

/// A note letter of the naming pattern.
pub open spec fn note_letter(c: char) -> bool {
    'A' <= c <= 'H'
}

/// Where the `_` after the note name stands, for a match starting at `i`:
/// the note name is a letter, an optional `#`, and a digit.
pub open spec fn name_end(s: Seq<char>, i: int) -> int {
    if i + 4 < s.len() && s[i + 4] == '#' {
        i + 6
    } else {
        i + 5
    }
}

/// Whether the naming pattern `PP_NN_A.AAAAA.aif` (pitch `PP` of two digits,
/// note name `NN` of a letter `A`..`H`, an optional `#` and a digit,
/// amplitude of one digit, a point and five digits) starts at position `i`.
/// With `wide`, the digits of the pitch and the amplitude may be decimal
/// digits of any script; the digit of the note name always may, since it is
/// only kept as text.
pub open spec fn matches_at(s: Seq<char>, i: int, wide: bool) -> bool {
    let k = name_end(s, i);
    &&& 0 <= i
    &&& k + 12 <= s.len()
    &&& pattern_digit(s[i], wide)
    &&& pattern_digit(s[i + 1], wide)
    &&& s[i + 2] == '_'
    &&& note_letter(s[i + 3])
    &&& pattern_digit(s[k - 1], true)
    &&& s[k] == '_'
    &&& pattern_digit(s[k + 1], wide)
    &&& s[k + 2] == '.'
    &&& pattern_digit(s[k + 3], wide)
    &&& pattern_digit(s[k + 4], wide)
    &&& pattern_digit(s[k + 5], wide)
    &&& pattern_digit(s[k + 6], wide)
    &&& pattern_digit(s[k + 7], wide)
    &&& s[k + 8] == '.'
    &&& s[k + 9] == 'a'
    &&& s[k + 10] == 'i'
    &&& s[k + 11] == 'f'
}

/// `i` is where the pattern is found in `s`: it matches there with ASCII
/// digits, and nowhere before, not even with digits of other scripts.
pub open spec fn found_at(s: Seq<char>, i: int) -> bool {
    &&& matches_at(s, i, false)
    &&& forall|j: int| 0 <= j < i ==> !#[trigger] matches_at(s, j, true)
}

/// The name can be analysed: the pattern is found in it.
pub open spec fn analysable(s: Seq<char>) -> bool {
    exists|i: int| found_at(s, i)
}

/// The position where the pattern is found.
pub open spec fn found_position(s: Seq<char>) -> int {
    choose|i: int| found_at(s, i)
}

/// The amplitude written at `k + 1 ..= k + 7` (`A.AAAAA`), in units of 1/100000.
pub open spec fn amplitude_at(s: Seq<char>, k: int) -> nat {
    digit_value(s[k + 1]) * 100000 + digit_value(s[k + 3]) * 10000 + digit_value(s[k + 4]) * 1000
        + digit_value(s[k + 5]) * 100 + digit_value(s[k + 6]) * 10 + digit_value(s[k + 7])
}

/// The pattern is found at one place only.
pub proof fn lemma_found_at_unique(s: Seq<char>, i: int, j: int)
    requires
        found_at(s, i),
        found_at(s, j),
    ensures
        i == j,
{
    if i < j {
        assert(matches_at(s, i, true));
    } else if j < i {
        assert(matches_at(s, j, true));
    }
}

/// A name that starts with `PP_LD_A.AAAAA.aif` (ASCII digits, a note
/// letter `L` and its octave digit `D`) is analysed from its start: the
/// pitch is `PP`, the note name `LD` and the amplitude `A.AAAAA`.
pub proof fn lemma_found_at_start(s: Seq<char>)
    requires
        s.len() >= 17,
        is_digit(s[0]),
        is_digit(s[1]),
        s[2] == '_',
        note_letter(s[3]),
        is_digit(s[4]),
        s[5] == '_',
        is_digit(s[6]),
        s[7] == '.',
        is_digit(s[8]),
        is_digit(s[9]),
        is_digit(s[10]),
        is_digit(s[11]),
        is_digit(s[12]),
        s[13] == '.',
        s[14] == 'a',
        s[15] == 'i',
        s[16] == 'f',
    ensures
        analysable(s),
        found_position(s) == 0,
        name_end(s, 0) == 5,
{
    assert(s[4] != '#');
    assert(matches_at(s, 0, false));
    assert(found_at(s, 0));
    lemma_found_at_unique(s, 0, found_position(s));
}

/// The amplitude is the number `A.AAAAA` written in the name, times
/// 100000: read back digit by digit, its units of 10^5, 10^4, 10^3, 10^2,
/// 10 and 1 are the digits of the name in the order they are written, so
/// formatting it as `A.AAAAA` gives the characters of the name again.
pub proof fn lemma_amplitude_digits(s: Seq<char>, k: int)
    requires
        0 <= k,
        k + 7 < s.len(),
        is_digit(s[k + 1]),
        is_digit(s[k + 3]),
        is_digit(s[k + 4]),
        is_digit(s[k + 5]),
        is_digit(s[k + 6]),
        is_digit(s[k + 7]),
    ensures
        amplitude_at(s, k) < 1000000,
        amplitude_at(s, k) / 100000 == digit_value(s[k + 1]),
        (amplitude_at(s, k) / 10000) % 10 == digit_value(s[k + 3]),
        (amplitude_at(s, k) / 1000) % 10 == digit_value(s[k + 4]),
        (amplitude_at(s, k) / 100) % 10 == digit_value(s[k + 5]),
        (amplitude_at(s, k) / 10) % 10 == digit_value(s[k + 6]),
        amplitude_at(s, k) % 10 == digit_value(s[k + 7]),
{
    let a = digit_value(s[k + 1]) as int;
    let b = digit_value(s[k + 3]) as int;
    let c = digit_value(s[k + 4]) as int;
    let d = digit_value(s[k + 5]) as int;
    let e = digit_value(s[k + 6]) as int;
    let f = digit_value(s[k + 7]) as int;
    let x = amplitude_at(s, k) as int;
    assert(x == a * 100000 + b * 10000 + c * 1000 + d * 100 + e * 10 + f);
    lemma_split_digit(x, 100000, a, b * 10000 + c * 1000 + d * 100 + e * 10 + f);
    lemma_split_digit(x, 10000, a * 10 + b, c * 1000 + d * 100 + e * 10 + f);
    lemma_split_digit(x, 1000, a * 100 + b * 10 + c, d * 100 + e * 10 + f);
    lemma_split_digit(x, 100, a * 1000 + b * 100 + c * 10 + d, e * 10 + f);
    lemma_split_digit(x, 10, a * 10000 + b * 1000 + c * 100 + d * 10 + e, f);
    lemma_split_digit(a * 10 + b, 10, a, b);
    lemma_split_digit(a * 100 + b * 10 + c, 10, a * 10 + b, c);
    lemma_split_digit(a * 1000 + b * 100 + c * 10 + d, 10, a * 100 + b * 10 + c, d);
    lemma_split_digit(a * 10000 + b * 1000 + c * 100 + d * 10 + e, 10, a * 1000 + b * 100 + c * 10 + d, e);
}

/// `x = q * d + r` with `0 <= r < d` gives the quotient and the remainder
/// of `x` by `d`.
proof fn lemma_split_digit(x: int, d: int, q: int, r: int)
    requires
        0 < d,
        0 <= r < d,
        x == q * d + r,
    ensures
        x / d == q,
        x % d == r,
{
    vstd::arithmetic::div_mod::lemma_fundamental_div_mod_converse(x, d, q, r);
}

/// Whether the pattern matches at `i`, checked on the characters.
fn matches_here(s: &Vec<char>, i: usize, wide: bool) -> (r: bool)
    ensures
        r == matches_at(s@, i as int, wide),
{
    let n = s.len();
    if i >= n || n - i < 17 {
        // the shortest match has 17 characters
        return false;
    }
    let k = if s[i + 4] == '#' { i + 6 } else { i + 5 };
    if n - k < 12 {
        return false;
    }
    let d = |c: char| -> (r: bool)
        ensures
            r == pattern_digit(c, wide),
        { ('0' <= c && c <= '9') || (wide && decimal_digit(c)) };
    let name_digit = |c: char| -> (r: bool)
        ensures
            r == pattern_digit(c, true),
        { ('0' <= c && c <= '9') || decimal_digit(c) };
    d(s[i]) && d(s[i + 1]) && s[i + 2] == '_' && 'A' <= s[i + 3] && s[i + 3] <= 'H' && name_digit(s[k - 1])
        && s[k] == '_' && d(s[k + 1]) && s[k + 2] == '.' && d(s[k + 3]) && d(s[k + 4]) && d(
        s[k + 5],
    ) && d(s[k + 6]) && d(s[k + 7]) && s[k + 8] == '.' && s[k + 9] == 'a' && s[k + 10] == 'i'
        && s[k + 11] == 'f'
}

/// The characters of a string.
fn chars_of(text: &str) -> (r: Vec<char>)
    ensures
        r@ == text@,
{
    let n = text.unicode_len();
    let mut chars: Vec<char> = Vec::new();
    let mut j: usize = 0;
    while j < n
        invariant
            j <= n,
            n == text@.len(),
            chars@ == text@.take(j as int),
        decreases n - j,
    {
        chars.push(text.get_char(j));
        proof {
            assert(text@.take(j + 1) =~= text@.take(j as int).push(text@[j as int]));
        }
        j = j + 1;
    }
    proof {
        assert(chars@ =~= text@);
    }
    chars
}

/// Whether `note_analyzer` can read a file name (see `analysable`).
pub fn is_analysable(filename: &str) -> (r: bool)
    ensures
        r == analysable(filename@),
{
    let chars = chars_of(filename);
    let ghost s = filename@;
    let n = chars.len();
    let mut j: usize = 0;
    while j < n
        invariant
            chars@ == s,
            s == filename@,
            n == s.len(),
            j <= n,
            forall|i: int| 0 <= i < j ==> !#[trigger] matches_at(s, i, true),
        decreases n - j,
    {
        if matches_here(&chars, j, true) {
            let strict = matches_here(&chars, j, false);
            proof {
                if strict {
                    assert(found_at(s, j as int));
                    assert(analysable(s));
                } else {
                    assert forall|i: int| !found_at(s, i) by {
                        if found_at(s, i) {
                            if i > j {
                                assert(!matches_at(s, j as int, true));
                            } else if i == j {
                            } else {
                                assert(matches_at(s, i, true));
                            }
                        }
                    }
                    assert(!analysable(s));
                }
            }
            return strict;
        }
        j = j + 1;
    }
    proof {
        assert forall|i: int| !found_at(s, i) by {
            if found_at(s, i) {
                assert(matches_at(s, i, true));
            }
        }
        assert(!analysable(s));
    }
    false
}

fn digit(c: char) -> (r: u32)
    requires
        is_digit(c),
    ensures
        r == digit_value(c),
        r <= 9,
{
    c as u32 - '0' as u32
}

/// Reads a layer's description from its file name, which holds
/// `PP_NN_A.AAAAA.aif` somewhere (first occurrence): pitch `PP`, note name
/// `NN` (`B2`, `C#3`, ...), amplitude `A.AAAAA`.
pub fn note_analyzer(filename: &str) -> (m: Mello)
    requires
        analysable(filename@),
    ensures
        ({
            let s = filename@;
            let i = found_position(s);
            let k = name_end(s, i);
            &&& m.name@ == s.subrange(i + 3, k)
            &&& m.pitch == 10 * digit_value(s[i]) + digit_value(s[i + 1])
            &&& m.amplitude == amplitude_at(s, k)
        }),
        ({
            let s = filename@;
            let k = name_end(s, found_position(s));
            &&& m.amplitude < 1000000
            &&& m.amplitude / 100000 == digit_value(s[k + 1])
            &&& (m.amplitude / 10000) % 10 == digit_value(s[k + 3])
            &&& (m.amplitude / 1000) % 10 == digit_value(s[k + 4])
            &&& (m.amplitude / 100) % 10 == digit_value(s[k + 5])
            &&& (m.amplitude / 10) % 10 == digit_value(s[k + 6])
            &&& m.amplitude % 10 == digit_value(s[k + 7])
        }),
{
    let ghost s = filename@;
    let ghost pos = found_position(s);
    proof {
        assert(found_at(s, pos));
    }
    let chars = chars_of(filename);
    let n = chars.len();
    let mut i: usize = 0;
    while !matches_here(&chars, i, false)
        invariant
            chars@ == s,
            n == s.len(),
            found_at(s, pos),
            i <= pos,
            forall|j: int| 0 <= j < i ==> !#[trigger] matches_at(s, j, false),
        decreases pos - i,
    {
        proof {
            if i == pos {
                assert(matches_at(s, pos, false));
            }
            assert(i < pos);
            assert(pos < s.len());
        }
        i = i + 1;
    }
    proof {
        if (i as int) < pos {
            assert(!matches_at(s, i as int, true));
        }
        assert(i == pos);
    }
    let k = if chars[i + 4] == '#' { i + 6 } else { i + 5 };
    proof {
        lemma_amplitude_digits(s, k as int);
    }
    let name = filename.substring_char(i + 3, k).to_owned();
    let pitch = (10 * digit(chars[i]) + digit(chars[i + 1])) as u8;
    let amplitude = digit(chars[k + 1]) * 100000 + digit(chars[k + 3]) * 10000 + digit(chars[k + 4])
        * 1000 + digit(chars[k + 5]) * 100 + digit(chars[k + 6]) * 10 + digit(chars[k + 7]);
    Mello { name, pitch, amplitude }
}

} // verus!
