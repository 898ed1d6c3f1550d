//! Colors given on the command line: `R,G,B`, `#RRGGBB` or a color name.
use vstd::prelude::*;
use vstd::utf8::{encode_utf8, is_char_boundary};

use crate::names::{chars_equal, lowercase, to_lowercase};
use crate::text::{str_chars, string_from_chars, trim, trim_exec};

verus! {

/// Why parsing an unsigned integer failed.
#[derive(Debug, Clone, Copy, PartialEq, Eq, Structural)]
pub enum IntErrorKind {
    Empty,
    InvalidDigit,
    PosOverflow,
}

/// The value of the ASCII digit `b` in base `radix` (10 or 16), if it is one.
pub open spec fn digit_value(b: u8, radix: nat) -> Option<nat> {
    if 0x30 <= b <= 0x39 && b - 0x30 < radix {
        Some((b - 0x30) as nat)
    } else if radix > 10 && 0x61 <= b <= 0x7A && b - 0x61 + 10 < radix {
        Some((b - 0x61 + 10) as nat)
    } else if radix > 10 && 0x41 <= b <= 0x5A && b - 0x41 + 10 < radix {
        Some((b - 0x41 + 10) as nat)
    } else {
        None
    }
}

/// Accumulate the digits of `digits` onto `acc`, failing on the first
/// non-digit, or as soon as the value leaves the `u8` range.
pub open spec fn accumulate_u8(digits: Seq<u8>, radix: nat, acc: nat) -> Result<u8, IntErrorKind>
    decreases digits.len(),
{
    if digits.len() == 0 {
        Ok(acc as u8)
    } else {
        match digit_value(digits[0], radix) {
            None => Err(IntErrorKind::InvalidDigit),
            Some(d) => if acc * radix > 255 || acc * radix + d > 255 {
                Err(IntErrorKind::PosOverflow)
            } else {
                accumulate_u8(digits.drop_first(), radix, acc * radix + d)
            },
        }
    }
}

/// `u8::from_str_radix` on the bytes `b`: an optional `+` sign, then digits.
pub open spec fn parse_u8(b: Seq<u8>, radix: nat) -> Result<u8, IntErrorKind> {
    if b.len() == 0 {
        Err(IntErrorKind::Empty)
    } else if b.len() == 1 && (b[0] == 0x2B || b[0] == 0x2D) {
        Err(IntErrorKind::InvalidDigit)
    } else if b[0] == 0x2B {
        accumulate_u8(b.drop_first(), radix, 0)
    } else {
        accumulate_u8(b, radix, 0)
    }
}

/// The message of an integer parse error.
pub open spec fn int_error_message(kind: IntErrorKind) -> Seq<char> {
    match kind {
        IntErrorKind::Empty => "cannot parse integer from empty string"@,
        IntErrorKind::InvalidDigit => "invalid digit found in string"@,
        IntErrorKind::PosOverflow => "number too large to fit in target type"@,
    }
}

fn digit_of(b: u8, radix: u8) -> (d: Option<u8>)
    requires
        radix == 10 || radix == 16,
    ensures
        match d {
            Some(v) => digit_value(b, radix as nat) == Some(v as nat),
            None => digit_value(b, radix as nat) is None,
        },
{
    if 0x30 <= b && b <= 0x39 && b - 0x30 < radix {
        Some(b - 0x30)
    } else if radix > 10 && 0x61 <= b && b <= 0x7A && b - 0x61 + 10 < radix {
        Some(b - 0x61 + 10)
    } else if radix > 10 && 0x41 <= b && b <= 0x5A && b - 0x41 + 10 < radix {
        Some(b - 0x41 + 10)
    } else {
        None
    }
}

/// Parse the bytes `b[start..end]` as a `u8` in base `radix`.
pub fn parse_u8_bytes(b: &[u8], start: usize, end: usize, radix: u8) -> (r: Result<
    u8,
    IntErrorKind,
>)
    requires
        start <= end <= b@.len(),
        radix == 10 || radix == 16,
    ensures
        r == parse_u8(b@.subrange(start as int, end as int), radix as nat),
{
    let ghost s = b@.subrange(start as int, end as int);
    if start == end {
        return Err(IntErrorKind::Empty);
    }
    if end - start == 1 && (b[start] == 0x2B || b[start] == 0x2D) {
        return Err(IntErrorKind::InvalidDigit);
    }
    let mut i = start;
    if b[start] == 0x2B {
        i = start + 1;
        assert(s.drop_first() =~= b@.subrange(i as int, end as int));
    } else {
        assert(s =~= b@.subrange(i as int, end as int));
    }
    let mut acc: u8 = 0;
    while i < end
        invariant
            start <= i <= end <= b@.len(),
            radix == 10 || radix == 16,
            s == b@.subrange(start as int, end as int),
            parse_u8(s, radix as nat) == accumulate_u8(
                b@.subrange(i as int, end as int),
                radix as nat,
                acc as nat,
            ),
        decreases end - i,
    {
        let ghost rest = b@.subrange(i as int, end as int);
        match digit_of(b[i], radix) {
            None => {
                return Err(IntErrorKind::InvalidDigit);
            },
            Some(d) => {
                let scaled: u32 = (acc as u32) * (radix as u32);
                if scaled > 255 || scaled + (d as u32) > 255 {
                    return Err(IntErrorKind::PosOverflow);
                }
                acc = (scaled + d as u32) as u8;
                assert(rest.drop_first() =~= b@.subrange(i + 1, end as int));
            },
        }
        i = i + 1;
    }
    Ok(acc)
}

/// The pieces of `s` between occurrences of `sep`, as `str::split` gives them.
pub open spec fn split_acc(s: Seq<char>, sep: char, cur: Seq<char>) -> Seq<Seq<char>>
    decreases s.len(),
{
    if s.len() == 0 {
        seq![cur]
    } else if s[0] == sep {
        seq![cur] + split_acc(s.drop_first(), sep, Seq::empty())
    } else {
        split_acc(s.drop_first(), sep, cur.push(s[0]))
    }
}

/// The pieces of `s` between occurrences of `sep`.
pub open spec fn split_on(s: Seq<char>, sep: char) -> Seq<Seq<char>> {
    split_acc(s, sep, Seq::empty())
}

fn split_exec(s: &Vec<char>, sep: char) -> (pieces: Vec<Vec<char>>)
    ensures
        pieces@.map_values(|p: Vec<char>| p@) == split_on(s@, sep),
{
    let mut pieces: Vec<Vec<char>> = Vec::new();
    let mut cur: Vec<char> = Vec::new();
    let mut i: usize = 0;
    assert(s@.skip(0) =~= s@);
    while i < s.len()
        invariant
            i <= s@.len(),
            split_on(s@, sep) == pieces@.map_values(|p: Vec<char>| p@) + split_acc(
                s@.skip(i as int),
                sep,
                cur@,
            ),
        decreases s@.len() - i,
    {
        let ghost rest = s@.skip(i as int);
        assert(rest.drop_first() =~= s@.skip(i + 1));
        if s[i] == sep {
            let ghost old_pieces = pieces@.map_values(|p: Vec<char>| p@);
            let done = cur;
            pieces.push(done);
            cur = Vec::new();
            assert(pieces@.map_values(|p: Vec<char>| p@) =~= old_pieces + seq![done@]);
        } else {
            cur.push(s[i]);
        }
        i = i + 1;
    }
    let ghost old_pieces = pieces@.map_values(|p: Vec<char>| p@);
    assert(s@.skip(i as int) =~= Seq::<char>::empty());
    let last = cur;
    pieces.push(last);
    assert(pieces@.map_values(|p: Vec<char>| p@) =~= old_pieces + seq![last@]);
    pieces
}

/// The named colors, by lowercase name.
pub open spec fn named_color(name: Seq<char>) -> Option<Seq<u8>> {
    if name == "red"@ {
        Some(seq![255u8, 0u8, 0u8])
    } else if name == "green"@ {
        Some(seq![0u8, 255u8, 0u8])
    } else if name == "blue"@ {
        Some(seq![0u8, 0u8, 255u8])
    } else if name == "white"@ {
        Some(seq![255u8, 255u8, 255u8])
    } else if name == "black"@ {
        Some(seq![0u8, 0u8, 0u8])
    } else if name == "yellow"@ {
        Some(seq![255u8, 255u8, 0u8])
    } else if name == "cyan"@ {
        Some(seq![0u8, 255u8, 255u8])
    } else if name == "magenta"@ {
        Some(seq![255u8, 0u8, 255u8])
    } else if name == "orange"@ {
        Some(seq![255u8, 165u8, 0u8])
    } else if name == "purple"@ {
        Some(seq![128u8, 0u8, 128u8])
    } else {
        None
    }
}

/// The colour `#RRGGBB` gives, with its six hexadecimal digits given as
/// ASCII bytes, when they are valid.
pub open spec fn hex_color(digits: Seq<u8>) -> Option<Seq<u8>> {
    match rgb_from_hex(digits) {
        Ok(c) => Some(c),
        Err(_) => None,
    }
}

/// Two hexadecimal digits parse to their value.
proof fn lemma_two_hex_digits(h: Seq<u8>)
    requires
        h.len() == 2,
        digit_value(h[0], 16) is Some,
        digit_value(h[1], 16) is Some,
    ensures
        parse_u8(h, 16) == Ok::<u8, IntErrorKind>(
            (digit_value(h[0], 16)->0 * 16 + digit_value(h[1], 16)->0) as u8,
        ),
{
    let d0 = digit_value(h[0], 16)->0;
    let d1 = digit_value(h[1], 16)->0;
    assert(d0 < 16 && d1 < 16);
    assert(h.drop_first().drop_first().len() == 0);
    assert(h.drop_first()[0] == h[1]);
    assert(accumulate_u8(h.drop_first(), 16, d0) == accumulate_u8(
        h.drop_first().drop_first(),
        16,
        d0 * 16 + d1,
    ));
}

/// Six hexadecimal digits give the colour of their three pairs.
proof fn lemma_hex_code(h: Seq<u8>, r: u8, g: u8, b: u8)
    requires
        h.len() == 6,
        forall|i: int| 0 <= i < 6 ==> digit_value(#[trigger] h[i], 16) is Some,
        r == digit_value(h[0], 16)->0 * 16 + digit_value(h[1], 16)->0,
        g == digit_value(h[2], 16)->0 * 16 + digit_value(h[3], 16)->0,
        b == digit_value(h[4], 16)->0 * 16 + digit_value(h[5], 16)->0,
    ensures
        hex_color(h) == Some(seq![r, g, b]),
{
    let p0 = h.subrange(0, 2);
    let p1 = h.subrange(2, 4);
    let p2 = h.subrange(4, 6);
    assert(p0[0] == h[0] && p0[1] == h[1]);
    assert(p1[0] == h[2] && p1[1] == h[3]);
    assert(p2[0] == h[4] && p2[1] == h[5]);
    assert(digit_value(h[0], 16) is Some && digit_value(h[1], 16) is Some);
    assert(digit_value(h[2], 16) is Some && digit_value(h[3], 16) is Some);
    assert(digit_value(h[4], 16) is Some && digit_value(h[5], 16) is Some);
    lemma_two_hex_digits(p0);
    lemma_two_hex_digits(p1);
    lemma_two_hex_digits(p2);
}

/// Every colour name stands for the colour of its usual hexadecimal code:
/// red is `#FF0000`, green `#00FF00`, blue `#0000FF`, white `#FFFFFF`,
/// black `#000000`, yellow `#FFFF00`, cyan `#00FFFF`, magenta `#FF00FF`,
/// orange `#FFA500` and purple `#800080`.
pub proof fn lemma_named_colors_are_their_hex_codes()
    ensures
        named_color("red"@) == hex_color(seq![70u8, 70u8, 48u8, 48u8, 48u8, 48u8]),
        named_color("green"@) == hex_color(seq![48u8, 48u8, 70u8, 70u8, 48u8, 48u8]),
        named_color("blue"@) == hex_color(seq![48u8, 48u8, 48u8, 48u8, 70u8, 70u8]),
        named_color("white"@) == hex_color(seq![70u8, 70u8, 70u8, 70u8, 70u8, 70u8]),
        named_color("black"@) == hex_color(seq![48u8, 48u8, 48u8, 48u8, 48u8, 48u8]),
        named_color("yellow"@) == hex_color(seq![70u8, 70u8, 70u8, 70u8, 48u8, 48u8]),
        named_color("cyan"@) == hex_color(seq![48u8, 48u8, 70u8, 70u8, 70u8, 70u8]),
        named_color("magenta"@) == hex_color(seq![70u8, 70u8, 48u8, 48u8, 70u8, 70u8]),
        named_color("orange"@) == hex_color(seq![70u8, 70u8, 65u8, 53u8, 48u8, 48u8]),
        named_color("purple"@) == hex_color(seq![56u8, 48u8, 48u8, 48u8, 56u8, 48u8]),
{
    reveal_strlit("red");
    reveal_strlit("green");
    reveal_strlit("blue");
    reveal_strlit("white");
    reveal_strlit("black");
    reveal_strlit("yellow");
    reveal_strlit("cyan");
    reveal_strlit("magenta");
    reveal_strlit("orange");
    reveal_strlit("purple");
    assert(named_color("red"@) == hex_color(seq![70u8, 70u8, 48u8, 48u8, 48u8, 48u8])) by {
        let h = seq![70u8, 70u8, 48u8, 48u8, 48u8, 48u8];
        assert(forall|i: int| 0 <= i < 6 ==> digit_value(#[trigger] h[i], 16) is Some);
        lemma_hex_code(h, 255u8, 0u8, 0u8);
    }
    assert(named_color("green"@) == hex_color(seq![48u8, 48u8, 70u8, 70u8, 48u8, 48u8])) by {
        assert("green"@ != "red"@) by { assert("green"@.len() != "red"@.len() || "green"@[0] != "red"@[0] || "green"@[1] != "red"@[1]); }
        let h = seq![48u8, 48u8, 70u8, 70u8, 48u8, 48u8];
        assert(forall|i: int| 0 <= i < 6 ==> digit_value(#[trigger] h[i], 16) is Some);
        lemma_hex_code(h, 0u8, 255u8, 0u8);
    }
    assert(named_color("blue"@) == hex_color(seq![48u8, 48u8, 48u8, 48u8, 70u8, 70u8])) by {
        assert("blue"@ != "red"@) by { assert("blue"@.len() != "red"@.len() || "blue"@[0] != "red"@[0] || "blue"@[1] != "red"@[1]); }
        assert("blue"@ != "green"@) by { assert("blue"@.len() != "green"@.len() || "blue"@[0] != "green"@[0] || "blue"@[1] != "green"@[1]); }
        let h = seq![48u8, 48u8, 48u8, 48u8, 70u8, 70u8];
        assert(forall|i: int| 0 <= i < 6 ==> digit_value(#[trigger] h[i], 16) is Some);
        lemma_hex_code(h, 0u8, 0u8, 255u8);
    }
    assert(named_color("white"@) == hex_color(seq![70u8, 70u8, 70u8, 70u8, 70u8, 70u8])) by {
        assert("white"@ != "red"@) by { assert("white"@.len() != "red"@.len() || "white"@[0] != "red"@[0] || "white"@[1] != "red"@[1]); }
        assert("white"@ != "green"@) by { assert("white"@.len() != "green"@.len() || "white"@[0] != "green"@[0] || "white"@[1] != "green"@[1]); }
        assert("white"@ != "blue"@) by { assert("white"@.len() != "blue"@.len() || "white"@[0] != "blue"@[0] || "white"@[1] != "blue"@[1]); }
        let h = seq![70u8, 70u8, 70u8, 70u8, 70u8, 70u8];
        assert(forall|i: int| 0 <= i < 6 ==> digit_value(#[trigger] h[i], 16) is Some);
        lemma_hex_code(h, 255u8, 255u8, 255u8);
    }
    assert(named_color("black"@) == hex_color(seq![48u8, 48u8, 48u8, 48u8, 48u8, 48u8])) by {
        assert("black"@ != "red"@) by { assert("black"@.len() != "red"@.len() || "black"@[0] != "red"@[0] || "black"@[1] != "red"@[1]); }
        assert("black"@ != "green"@) by { assert("black"@.len() != "green"@.len() || "black"@[0] != "green"@[0] || "black"@[1] != "green"@[1]); }
        assert("black"@ != "blue"@) by { assert("black"@.len() != "blue"@.len() || "black"@[0] != "blue"@[0] || "black"@[1] != "blue"@[1]); }
        assert("black"@ != "white"@) by { assert("black"@.len() != "white"@.len() || "black"@[0] != "white"@[0] || "black"@[1] != "white"@[1]); }
        let h = seq![48u8, 48u8, 48u8, 48u8, 48u8, 48u8];
        assert(forall|i: int| 0 <= i < 6 ==> digit_value(#[trigger] h[i], 16) is Some);
        lemma_hex_code(h, 0u8, 0u8, 0u8);
    }
    assert(named_color("yellow"@) == hex_color(seq![70u8, 70u8, 70u8, 70u8, 48u8, 48u8])) by {
        assert("yellow"@ != "red"@) by { assert("yellow"@.len() != "red"@.len() || "yellow"@[0] != "red"@[0] || "yellow"@[1] != "red"@[1]); }
        assert("yellow"@ != "green"@) by { assert("yellow"@.len() != "green"@.len() || "yellow"@[0] != "green"@[0] || "yellow"@[1] != "green"@[1]); }
        assert("yellow"@ != "blue"@) by { assert("yellow"@.len() != "blue"@.len() || "yellow"@[0] != "blue"@[0] || "yellow"@[1] != "blue"@[1]); }
        assert("yellow"@ != "white"@) by { assert("yellow"@.len() != "white"@.len() || "yellow"@[0] != "white"@[0] || "yellow"@[1] != "white"@[1]); }
        assert("yellow"@ != "black"@) by { assert("yellow"@.len() != "black"@.len() || "yellow"@[0] != "black"@[0] || "yellow"@[1] != "black"@[1]); }
        let h = seq![70u8, 70u8, 70u8, 70u8, 48u8, 48u8];
        assert(forall|i: int| 0 <= i < 6 ==> digit_value(#[trigger] h[i], 16) is Some);
        lemma_hex_code(h, 255u8, 255u8, 0u8);
    }
    assert(named_color("cyan"@) == hex_color(seq![48u8, 48u8, 70u8, 70u8, 70u8, 70u8])) by {
        assert("cyan"@ != "red"@) by { assert("cyan"@.len() != "red"@.len() || "cyan"@[0] != "red"@[0] || "cyan"@[1] != "red"@[1]); }
        assert("cyan"@ != "green"@) by { assert("cyan"@.len() != "green"@.len() || "cyan"@[0] != "green"@[0] || "cyan"@[1] != "green"@[1]); }
        assert("cyan"@ != "blue"@) by { assert("cyan"@.len() != "blue"@.len() || "cyan"@[0] != "blue"@[0] || "cyan"@[1] != "blue"@[1]); }
        assert("cyan"@ != "white"@) by { assert("cyan"@.len() != "white"@.len() || "cyan"@[0] != "white"@[0] || "cyan"@[1] != "white"@[1]); }
        assert("cyan"@ != "black"@) by { assert("cyan"@.len() != "black"@.len() || "cyan"@[0] != "black"@[0] || "cyan"@[1] != "black"@[1]); }
        assert("cyan"@ != "yellow"@) by { assert("cyan"@.len() != "yellow"@.len() || "cyan"@[0] != "yellow"@[0] || "cyan"@[1] != "yellow"@[1]); }
        let h = seq![48u8, 48u8, 70u8, 70u8, 70u8, 70u8];
        assert(forall|i: int| 0 <= i < 6 ==> digit_value(#[trigger] h[i], 16) is Some);
        lemma_hex_code(h, 0u8, 255u8, 255u8);
    }
    assert(named_color("magenta"@) == hex_color(seq![70u8, 70u8, 48u8, 48u8, 70u8, 70u8])) by {
        assert("magenta"@ != "red"@) by { assert("magenta"@.len() != "red"@.len() || "magenta"@[0] != "red"@[0] || "magenta"@[1] != "red"@[1]); }
        assert("magenta"@ != "green"@) by { assert("magenta"@.len() != "green"@.len() || "magenta"@[0] != "green"@[0] || "magenta"@[1] != "green"@[1]); }
        assert("magenta"@ != "blue"@) by { assert("magenta"@.len() != "blue"@.len() || "magenta"@[0] != "blue"@[0] || "magenta"@[1] != "blue"@[1]); }
        assert("magenta"@ != "white"@) by { assert("magenta"@.len() != "white"@.len() || "magenta"@[0] != "white"@[0] || "magenta"@[1] != "white"@[1]); }
        assert("magenta"@ != "black"@) by { assert("magenta"@.len() != "black"@.len() || "magenta"@[0] != "black"@[0] || "magenta"@[1] != "black"@[1]); }
        assert("magenta"@ != "yellow"@) by { assert("magenta"@.len() != "yellow"@.len() || "magenta"@[0] != "yellow"@[0] || "magenta"@[1] != "yellow"@[1]); }
        assert("magenta"@ != "cyan"@) by { assert("magenta"@.len() != "cyan"@.len() || "magenta"@[0] != "cyan"@[0] || "magenta"@[1] != "cyan"@[1]); }
        let h = seq![70u8, 70u8, 48u8, 48u8, 70u8, 70u8];
        assert(forall|i: int| 0 <= i < 6 ==> digit_value(#[trigger] h[i], 16) is Some);
        lemma_hex_code(h, 255u8, 0u8, 255u8);
    }
    assert(named_color("orange"@) == hex_color(seq![70u8, 70u8, 65u8, 53u8, 48u8, 48u8])) by {
        assert("orange"@ != "red"@) by { assert("orange"@.len() != "red"@.len() || "orange"@[0] != "red"@[0] || "orange"@[1] != "red"@[1]); }
        assert("orange"@ != "green"@) by { assert("orange"@.len() != "green"@.len() || "orange"@[0] != "green"@[0] || "orange"@[1] != "green"@[1]); }
        assert("orange"@ != "blue"@) by { assert("orange"@.len() != "blue"@.len() || "orange"@[0] != "blue"@[0] || "orange"@[1] != "blue"@[1]); }
        assert("orange"@ != "white"@) by { assert("orange"@.len() != "white"@.len() || "orange"@[0] != "white"@[0] || "orange"@[1] != "white"@[1]); }
        assert("orange"@ != "black"@) by { assert("orange"@.len() != "black"@.len() || "orange"@[0] != "black"@[0] || "orange"@[1] != "black"@[1]); }
        assert("orange"@ != "yellow"@) by { assert("orange"@.len() != "yellow"@.len() || "orange"@[0] != "yellow"@[0] || "orange"@[1] != "yellow"@[1]); }
        assert("orange"@ != "cyan"@) by { assert("orange"@.len() != "cyan"@.len() || "orange"@[0] != "cyan"@[0] || "orange"@[1] != "cyan"@[1]); }
        assert("orange"@ != "magenta"@) by { assert("orange"@.len() != "magenta"@.len() || "orange"@[0] != "magenta"@[0] || "orange"@[1] != "magenta"@[1]); }
        let h = seq![70u8, 70u8, 65u8, 53u8, 48u8, 48u8];
        assert(forall|i: int| 0 <= i < 6 ==> digit_value(#[trigger] h[i], 16) is Some);
        lemma_hex_code(h, 255u8, 165u8, 0u8);
    }
    assert(named_color("purple"@) == hex_color(seq![56u8, 48u8, 48u8, 48u8, 56u8, 48u8])) by {
        assert("purple"@ != "red"@) by { assert("purple"@.len() != "red"@.len() || "purple"@[0] != "red"@[0] || "purple"@[1] != "red"@[1]); }
        assert("purple"@ != "green"@) by { assert("purple"@.len() != "green"@.len() || "purple"@[0] != "green"@[0] || "purple"@[1] != "green"@[1]); }
        assert("purple"@ != "blue"@) by { assert("purple"@.len() != "blue"@.len() || "purple"@[0] != "blue"@[0] || "purple"@[1] != "blue"@[1]); }
        assert("purple"@ != "white"@) by { assert("purple"@.len() != "white"@.len() || "purple"@[0] != "white"@[0] || "purple"@[1] != "white"@[1]); }
        assert("purple"@ != "black"@) by { assert("purple"@.len() != "black"@.len() || "purple"@[0] != "black"@[0] || "purple"@[1] != "black"@[1]); }
        assert("purple"@ != "yellow"@) by { assert("purple"@.len() != "yellow"@.len() || "purple"@[0] != "yellow"@[0] || "purple"@[1] != "yellow"@[1]); }
        assert("purple"@ != "cyan"@) by { assert("purple"@.len() != "cyan"@.len() || "purple"@[0] != "cyan"@[0] || "purple"@[1] != "cyan"@[1]); }
        assert("purple"@ != "magenta"@) by { assert("purple"@.len() != "magenta"@.len() || "purple"@[0] != "magenta"@[0] || "purple"@[1] != "magenta"@[1]); }
        assert("purple"@ != "orange"@) by { assert("purple"@.len() != "orange"@.len() || "purple"@[0] != "orange"@[0] || "purple"@[1] != "orange"@[1]); }
        let h = seq![56u8, 48u8, 48u8, 48u8, 56u8, 48u8];
        assert(forall|i: int| 0 <= i < 6 ==> digit_value(#[trigger] h[i], 16) is Some);
        lemma_hex_code(h, 128u8, 0u8, 128u8);
    }
}

/// `t` is a `#` followed by six bytes whose byte offsets 2 and 4 are not
/// character boundaries: slicing it into two-byte chunks would panic.
pub open spec fn hex_slicing_panics(t: Seq<char>) -> bool {
    &&& !crate::text::contains_char(t, ',')
    &&& t.len() > 0
    &&& t[0] == '#'
    &&& encode_utf8(t.drop_first()).len() == 6
    &&& !(is_char_boundary(encode_utf8(t.drop_first()), 2) && is_char_boundary(
        encode_utf8(t.drop_first()),
        4,
    ))
}

/// The three components parsed as decimal `u8`s, or the first error.
pub open spec fn rgb_from_parts(parts: Seq<Seq<char>>) -> Result<Seq<u8>, Seq<char>> {
    match parse_u8(encode_utf8(trim(parts[0])), 10) {
        Err(e) => Err(int_error_message(e)),
        Ok(r) => match parse_u8(encode_utf8(trim(parts[1])), 10) {
            Err(e) => Err(int_error_message(e)),
            Ok(g) => match parse_u8(encode_utf8(trim(parts[2])), 10) {
                Err(e) => Err(int_error_message(e)),
                Ok(b) => Ok(seq![r, g, b]),
            },
        },
    }
}

/// The three two-byte hexadecimal components, or the first error.
pub open spec fn rgb_from_hex(hex: Seq<u8>) -> Result<Seq<u8>, Seq<char>> {
    match parse_u8(hex.subrange(0, 2), 16) {
        Err(e) => Err(int_error_message(e)),
        Ok(r) => match parse_u8(hex.subrange(2, 4), 16) {
            Err(e) => Err(int_error_message(e)),
            Ok(g) => match parse_u8(hex.subrange(4, 6), 16) {
                Err(e) => Err(int_error_message(e)),
                Ok(b) => Ok(seq![r, g, b]),
            },
        },
    }
}

/// What `parse_color` gives for `s`.
pub open spec fn color_of(s: Seq<char>) -> Result<Seq<u8>, Seq<char>> {
    let t = trim(s);
    if crate::text::contains_char(t, ',') {
        let parts = split_on(t, ',');
        if parts.len() != 3 {
            Err("expected R,G,B, got "@ + t)
        } else {
            rgb_from_parts(parts)
        }
    } else if t.len() > 0 && t[0] == '#' {
        let hex = encode_utf8(t.drop_first());
        if hex.len() != 6 {
            Err("expected #RRGGBB, got "@ + t)
        } else {
            rgb_from_hex(hex)
        }
    } else {
        match named_color(lowercase(t)) {
            Some(c) => Ok(c),
            None => Err("unknown color: "@ + t),
        }
    }
}

fn int_error_text(kind: IntErrorKind) -> (msg: String)
    ensures
        msg@ == int_error_message(kind),
{
    match kind {
        IntErrorKind::Empty => "cannot parse integer from empty string".to_owned(),
        IntErrorKind::InvalidDigit => "invalid digit found in string".to_owned(),
        IntErrorKind::PosOverflow => "number too large to fit in target type".to_owned(),
    }
}

fn with_prefix(prefix: &str, t: &Vec<char>) -> (msg: String)
    ensures
        msg@ == prefix@ + t@,
{
    let mut chars = str_chars(prefix);
    let ghost p = chars@;
    let mut i: usize = 0;
    while i < t.len()
        invariant
            i <= t@.len(),
            chars@ == p + t@.take(i as int),
        decreases t@.len() - i,
    {
        chars.push(t[i]);
        i = i + 1;
        assert(chars@ =~= p + t@.take(i as int));
    }
    assert(t@.take(t@.len() as int) =~= t@);
    string_from_chars(&chars)
}

fn parse_decimal_part(part: &Vec<char>) -> (r: Result<u8, String>)
    ensures
        match r {
            Ok(v) => parse_u8(encode_utf8(trim(part@)), 10) == Ok::<u8, IntErrorKind>(v),
            Err(m) => parse_u8(encode_utf8(trim(part@)), 10) matches Err(e) && m@ == int_error_message(e),
        },
{
    let trimmed = trim_exec(part);
    let text = string_from_chars(&trimmed);
    let bytes = text.as_str().as_bytes();
    assert(bytes@.subrange(0, bytes@.len() as int) =~= bytes@);
    match parse_u8_bytes(bytes, 0, bytes.len(), 10) {
        Ok(v) => Ok(v),
        Err(e) => Err(int_error_text(e)),
    }
}

fn lowercase_is(lower: &Vec<char>, name: &str) -> (b: bool)
    ensures
        b == (lower@ == name@),
{
    let n = str_chars(name);
    chars_equal(lower, &n)
}

/// Whether parsing `s` as a color would slice a multi-byte character: a
/// `#` followed by six bytes whose two-byte chunks split a character (the
/// one input `parse_color` does not accept).
pub fn hex_split_would_panic(s: &str) -> (b: bool)
    ensures
        b == hex_slicing_panics(trim(s@)),
{
    let t = trim_exec(&str_chars(s));
    let mut has_comma = false;
    let mut k: usize = 0;
    while k < t.len()
        invariant
            k <= t@.len(),
            has_comma == exists|j: int| 0 <= j < k && t@[j] == ',',
        decreases t@.len() - k,
    {
        if t[k] == ',' {
            has_comma = true;
        }
        k = k + 1;
    }
    if has_comma || t.len() == 0 || t[0] != '#' {
        return false;
    }
    let mut rest: Vec<char> = Vec::new();
    let mut j: usize = 1;
    while j < t.len()
        invariant
            1 <= j <= t@.len(),
            rest@ == t@.subrange(1, j as int),
        decreases t@.len() - j,
    {
        rest.push(t[j]);
        j = j + 1;
    }
    assert(rest@ =~= t@.drop_first());
    let text = string_from_chars(&rest);
    let bytes = text.as_str().as_bytes();
    if bytes.len() != 6 {
        return false;
    }
    !(text.as_str().is_char_boundary(2) && text.as_str().is_char_boundary(4))
}

/// Parse a color: `R,G,B` (decimal components), `#RRGGBB` (hexadecimal
/// components) or one of the color names, after trimming whitespace.
pub fn parse_color(s: &str) -> (r: Result<[u8; 3], String>)
    requires
        !hex_slicing_panics(trim(s@)),
    ensures
        match r {
            Ok(c) => color_of(s@) == Ok::<Seq<u8>, Seq<char>>(c@),
            Err(m) => color_of(s@) == Err::<Seq<u8>, Seq<char>>(m@),
        },
{
    let chars = str_chars(s);
    let t = trim_exec(&chars);
    let mut has_comma = false;
    let mut k: usize = 0;
    while k < t.len()
        invariant
            k <= t@.len(),
            has_comma == exists|j: int| 0 <= j < k && t@[j] == ',',
        decreases t@.len() - k,
    {
        if t[k] == ',' {
            has_comma = true;
        }
        k = k + 1;
    }
    if has_comma {
        let parts = split_exec(&t, ',');
        if parts.len() != 3 {
            proof {
                reveal_strlit("expected R,G,B, got ");
            }
            return Err(with_prefix("expected R,G,B, got ", &t));
        }
        assert(parts@[0]@ == split_on(t@, ',')[0]);
        assert(parts@[1]@ == split_on(t@, ',')[1]);
        assert(parts@[2]@ == split_on(t@, ',')[2]);
        let r = match parse_decimal_part(&parts[0]) {
            Ok(v) => v,
            Err(m) => {
                return Err(m);
            },
        };
        let g = match parse_decimal_part(&parts[1]) {
            Ok(v) => v,
            Err(m) => {
                return Err(m);
            },
        };
        let b = match parse_decimal_part(&parts[2]) {
            Ok(v) => v,
            Err(m) => {
                return Err(m);
            },
        };
        let c = [r, g, b];
        assert(c@ =~= seq![r, g, b]);
        return Ok(c);
    }
    if t.len() > 0 && t[0] == '#' {
        let mut hex_chars: Vec<char> = Vec::new();
        let mut j: usize = 1;
        while j < t.len()
            invariant
                1 <= j <= t@.len(),
                hex_chars@ == t@.subrange(1, j as int),
            decreases t@.len() - j,
        {
            hex_chars.push(t[j]);
            j = j + 1;
            assert(hex_chars@ =~= t@.subrange(1, j as int));
        }
        assert(hex_chars@ =~= t@.drop_first());
        let hex = string_from_chars(&hex_chars);
        let bytes = hex.as_str().as_bytes();
        if bytes.len() != 6 {
            proof {
                reveal_strlit("expected #RRGGBB, got ");
            }
            return Err(with_prefix("expected #RRGGBB, got ", &t));
        }
        let r = match parse_u8_bytes(bytes, 0, 2, 16) {
            Ok(v) => v,
            Err(e) => {
                return Err(int_error_text(e));
            },
        };
        let g = match parse_u8_bytes(bytes, 2, 4, 16) {
            Ok(v) => v,
            Err(e) => {
                return Err(int_error_text(e));
            },
        };
        let b = match parse_u8_bytes(bytes, 4, 6, 16) {
            Ok(v) => v,
            Err(e) => {
                return Err(int_error_text(e));
            },
        };
        let c = [r, g, b];
        assert(c@ =~= seq![r, g, b]);
        return Ok(c);
    }
    let t_string = string_from_chars(&t);
    let lower_string = to_lowercase(t_string.as_str());
    let lower = str_chars(lower_string.as_str());
    let c: [u8; 3] = if lowercase_is(&lower, "red") {
        [255, 0, 0]
    } else if lowercase_is(&lower, "green") {
        [0, 255, 0]
    } else if lowercase_is(&lower, "blue") {
        [0, 0, 255]
    } else if lowercase_is(&lower, "white") {
        [255, 255, 255]
    } else if lowercase_is(&lower, "black") {
        [0, 0, 0]
    } else if lowercase_is(&lower, "yellow") {
        [255, 255, 0]
    } else if lowercase_is(&lower, "cyan") {
        [0, 255, 255]
    } else if lowercase_is(&lower, "magenta") {
        [255, 0, 255]
    } else if lowercase_is(&lower, "orange") {
        [255, 165, 0]
    } else if lowercase_is(&lower, "purple") {
        [128, 0, 128]
    } else {
        proof {
            reveal_strlit("unknown color: ");
        }
        return Err(with_prefix("unknown color: ", &t));
    };
    assert(named_color(lowercase(t@)) == Some(c@));
    Ok(c)
}

} // verus!
