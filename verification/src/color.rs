//! `Rgb`: hex parsing and the two text forms adapters print.
use vstd::prelude::*;
use crate::error::{Error, ErrorView};
use crate::text::{chars_of, decimal, push_char, push_decimal, push_str, string_of};

verus! {

/// An sRGB color with one byte per channel.
#[derive(Clone, Copy, Debug, PartialEq, Eq, Structural)]
pub struct Rgb {
    pub r: u8,
    pub g: u8,
    pub b: u8,
}

/// The value of a hex digit, either case.
pub open spec fn hex_value(c: char) -> Option<nat> {
    if '0' <= c && c <= '9' {
        Some((c as nat - '0' as nat) as nat)
    } else if 'a' <= c && c <= 'f' {
        Some((c as nat - 'a' as nat + 10) as nat)
    } else if 'A' <= c && c <= 'F' {
        Some((c as nat - 'A' as nat + 10) as nat)
    } else {
        None
    }
}

/// `u8::from_str_radix(c0 c1, 16)`: two hex digits, or `+` and one hex digit.
pub open spec fn hex_pair(c0: char, c1: char) -> Option<u8> {
    if c0 == '+' {
        match hex_value(c1) {
            Some(l) => Some(l as u8),
            None => None,
        }
    } else {
        match (hex_value(c0), hex_value(c1)) {
            (Some(h), Some(l)) => Some((h * 16 + l) as u8),
            _ => None,
        }
    }
}

/// The text after one optional leading `#`.
pub open spec fn strip_hash(s: Seq<char>) -> Seq<char> {
    if s.len() > 0 && s[0] == '#' {
        s.drop_first()
    } else {
        s
    }
}

/// The color that six hex characters (after one optional `#`) denote.
pub open spec fn parse_rgb_spec(s: Seq<char>) -> Option<Rgb> {
    let h = strip_hash(s);
    if h.len() == 6 {
        match (hex_pair(h[0], h[1]), hex_pair(h[2], h[3]), hex_pair(h[4], h[5])) {
            (Some(r), Some(g), Some(b)) => Some(Rgb { r, g, b }),
            _ => None,
        }
    } else {
        None
    }
}

/// Upper-case hex digit for `d < 16`.
pub open spec fn hex_digit(d: nat) -> char {
    if d < 10 {
        ((d + 48) as u8) as char
    } else {
        ((d + 55) as u8) as char
    }
}

/// The two upper-case hex digits of a byte.
pub open spec fn hex_byte(b: u8) -> Seq<char> {
    seq![hex_digit((b / 16) as nat), hex_digit((b % 16) as nat)]
}

/// `#RRGGBB` with upper-case digits.
pub open spec fn hex_text(c: Rgb) -> Seq<char> {
    seq!['#'] + hex_byte(c.r) + hex_byte(c.g) + hex_byte(c.b)
}

/// `[r, g, b]` in decimal.
pub open spec fn array_text(c: Rgb) -> Seq<char> {
    seq!['['] + decimal(c.r as nat) + ", "@ + decimal(c.g as nat) + ", "@ + decimal(c.b as nat)
        + seq![']']
}

/// `r g b` in decimal, e.g. `226 106 59`.
pub open spec fn space_text(c: Rgb) -> Seq<char> {
    decimal(c.r as nat) + seq![' '] + decimal(c.g as nat) + seq![' '] + decimal(c.b as nat)
}

fn exec_hex_value(c: char) -> (r: Option<u8>)
    ensures
        match hex_value(c) {
            Some(v) => r == Some(v as u8) && v < 16,
            None => r is None,
        },
{
    if '0' <= c && c <= '9' {
        Some(((c as u32) - 48) as u8)
    } else if 'a' <= c && c <= 'f' {
        Some(((c as u32) - 87) as u8)
    } else if 'A' <= c && c <= 'F' {
        Some(((c as u32) - 55) as u8)
    } else {
        None
    }
}

fn exec_hex_pair(c0: char, c1: char) -> (r: Option<u8>)
    ensures
        r == hex_pair(c0, c1),
{
    if c0 == '+' {
        exec_hex_value(c1)
    } else {
        match (exec_hex_value(c0), exec_hex_value(c1)) {
            (Some(h), Some(l)) => Some(h * 16 + l),
            _ => None,
        }
    }
}

fn exec_hex_digit(d: u8) -> (c: char)
    requires
        d < 16,
    ensures
        c == hex_digit(d as nat),
{
    if d < 10 {
        (d + 48) as char
    } else {
        (d + 55) as char
    }
}

impl Rgb {
    /// Parses `#RRGGBB` or `RRGGBB`, either case.
    ///
    /// Fails with `InvalidHex` holding the text after the optional `#`.
    pub fn parse(s: &str) -> (r: Result<Rgb, Error>)
        ensures
            match parse_rgb_spec(s@) {
                Some(c) => r == Ok::<Rgb, Error>(c),
                None => r matches Err(e) && e@ == ErrorView::InvalidHex(strip_hash(s@)),
            },
    {
        let v = chars_of(s);
        let start: usize = if v.len() > 0 && v[0] == '#' {
            1
        } else {
            0
        };
        proof {
            assert(v@.subrange(start as int, v@.len() as int) == strip_hash(s@));
        }
        if v.len() - start == 6 {
            let r = exec_hex_pair(v[start], v[start + 1]);
            let g = exec_hex_pair(v[start + 2], v[start + 3]);
            let b = exec_hex_pair(v[start + 4], v[start + 5]);
            match (r, g, b) {
                (Some(r), Some(g), Some(b)) => {
                    return Ok(Rgb { r, g, b });
                },
                _ => {},
            }
        }
        Err(Error::InvalidHex(string_of(&v, start, v.len())))
    }

    /// `#RRGGBB` with upper-case digits: the text `Display` prints.
    pub fn to_hex_string(&self) -> (s: String)
        ensures
            s@ == hex_text(*self),
    {
        let mut s = String::new();
        push_char(&mut s, '#');
        push_char(&mut s, exec_hex_digit(self.r / 16));
        push_char(&mut s, exec_hex_digit(self.r % 16));
        push_char(&mut s, exec_hex_digit(self.g / 16));
        push_char(&mut s, exec_hex_digit(self.g % 16));
        push_char(&mut s, exec_hex_digit(self.b / 16));
        push_char(&mut s, exec_hex_digit(self.b % 16));
        assert(s@ =~= hex_text(*self));
        s
    }

    /// `[r, g, b]` in decimal, e.g. `[226, 106, 59]`.
    pub fn to_array_string(self) -> (s: String)
        ensures
            s@ == array_text(self),
    {
        let mut s = String::new();
        push_char(&mut s, '[');
        push_decimal(&mut s, self.r as u64);
        push_str(&mut s, ", ");
        push_decimal(&mut s, self.g as u64);
        push_str(&mut s, ", ");
        push_decimal(&mut s, self.b as u64);
        push_char(&mut s, ']');
        assert(s@ =~= array_text(self));
        s
    }

    /// `r g b` in decimal, e.g. `226 106 59`.
    pub fn to_space_separated(self) -> (s: String)
        ensures
            s@ == space_text(self),
    {
        let mut s = String::new();
        push_decimal(&mut s, self.r as u64);
        push_char(&mut s, ' ');
        push_decimal(&mut s, self.g as u64);
        push_char(&mut s, ' ');
        push_decimal(&mut s, self.b as u64);
        assert(s@ =~= space_text(self));
        s
    }
}

proof fn lemma_hex_digit_value(d: nat)
    requires
        d < 16,
    ensures
        hex_value(hex_digit(d)) == Some(d),
{
    if d < 10 {
        assert(((d + 48) as u8) as char as nat == d + 48);
    } else {
        assert(((d + 55) as u8) as char as nat == d + 55);
    }
}

proof fn lemma_hex_byte_pair(b: u8)
    ensures
        hex_pair(hex_byte(b)[0], hex_byte(b)[1]) == Some(b),
{
    lemma_hex_digit_value((b / 16) as nat);
    lemma_hex_digit_value((b % 16) as nat);
    assert(hex_digit((b / 16) as nat) != '+');
}

/// A hex digit in upper case: `a`..`f` become `A`..`F`; others stay.
pub open spec fn upper_hex(c: char) -> char {
    if 'a' <= c && c <= 'f' {
        ((c as nat - 32) as u8) as char
    } else {
        c
    }
}

proof fn lemma_digit_of_value(c: char)
    requires
        hex_value(c) is Some,
    ensures
        hex_value(c)->0 < 16,
        hex_digit(hex_value(c)->0) == upper_hex(c),
{
    let d = hex_value(c)->0;
    if '0' <= c && c <= '9' {
        assert(d + 48 == c as nat);
        assert(((d + 48) as u8) as char as nat == c as nat);
    } else if 'a' <= c && c <= 'f' {
        assert(d + 55 == c as nat - 32);
        assert(((d + 55) as u8) as char as nat == ((c as nat - 32) as u8) as char as nat);
    } else {
        assert(d + 55 == c as nat);
        assert(((d + 55) as u8) as char as nat == c as nat);
    }
}

proof fn lemma_pair_prints_upper(c0: char, c1: char)
    requires
        hex_value(c0) is Some,
        hex_value(c1) is Some,
    ensures
        hex_pair(c0, c1) matches Some(b) && hex_byte(b) == seq![upper_hex(c0), upper_hex(c1)],
{
    lemma_digit_of_value(c0);
    lemma_digit_of_value(c1);
    let h = hex_value(c0)->0;
    let l = hex_value(c1)->0;
    assert(c0 != '+');
    let b = (h * 16 + l) as u8;
    assert(h * 16 + l < 256);
    assert(b / 16 == h && b % 16 == l) by (nonlinear_arith)
        requires
            h < 16,
            l < 16,
            b == h * 16 + l,
    ;
    assert(hex_byte(b) =~= seq![upper_hex(c0), upper_hex(c1)]);
}

/// A color written as six hex digits (after an optional `#`), parsed and
/// printed, reads `#` and the same digits in upper case.
pub proof fn law_parsed_hex_prints_upper(s: Seq<char>)
    requires
        strip_hash(s).len() == 6,
        forall|i: int| 0 <= i < 6 ==> hex_value(#[trigger] strip_hash(s)[i]) is Some,
    ensures
        parse_rgb_spec(s) matches Some(c) && hex_text(c) == seq!['#'] + strip_hash(s).map_values(
            |ch: char| upper_hex(ch),
        ),
{
    let h = strip_hash(s);
    assert(hex_value(h[0]) is Some && hex_value(h[1]) is Some);
    assert(hex_value(h[2]) is Some && hex_value(h[3]) is Some);
    assert(hex_value(h[4]) is Some && hex_value(h[5]) is Some);
    lemma_pair_prints_upper(h[0], h[1]);
    lemma_pair_prints_upper(h[2], h[3]);
    lemma_pair_prints_upper(h[4], h[5]);
    let c = parse_rgb_spec(s)->0;
    assert(hex_text(c) =~= seq!['#'] + h.map_values(|ch: char| upper_hex(ch)));
}

/// Printing a color as `#RRGGBB` and parsing the text gives the color back.
pub proof fn law_hex_text_parses_back(c: Rgb)
    ensures
        parse_rgb_spec(hex_text(c)) == Some(c),
{
    let t = hex_text(c);
    lemma_hex_byte_pair(c.r);
    lemma_hex_byte_pair(c.g);
    lemma_hex_byte_pair(c.b);
    let h = strip_hash(t);
    assert(h =~= hex_byte(c.r) + hex_byte(c.g) + hex_byte(c.b));
    assert(h[0] == hex_byte(c.r)[0] && h[1] == hex_byte(c.r)[1]);
    assert(h[2] == hex_byte(c.g)[0] && h[3] == hex_byte(c.g)[1]);
    assert(h[4] == hex_byte(c.b)[0] && h[5] == hex_byte(c.b)[1]);
}

/// Every color prints as seven characters, `#` and six upper-case hex digits.
pub proof fn law_hex_text_shape(c: Rgb)
    ensures
        hex_text(c).len() == 7,
        hex_text(c)[0] == '#',
        forall|i: int|
            1 <= i < 7 ==> {
                let ch = #[trigger] hex_text(c)[i];
                ('0' <= ch && ch <= '9') || ('A' <= ch && ch <= 'F')
            },
{
    let t = hex_text(c);
    assert(t =~= seq![
        '#',
        hex_digit((c.r / 16) as nat),
        hex_digit((c.r % 16) as nat),
        hex_digit((c.g / 16) as nat),
        hex_digit((c.g % 16) as nat),
        hex_digit((c.b / 16) as nat),
        hex_digit((c.b % 16) as nat),
    ]);
    assert forall|d: nat| d < 16 implies {
        let ch = #[trigger] hex_digit(d);
        ('0' <= ch && ch <= '9') || ('A' <= ch && ch <= 'F')
    } by {
        if d < 10 {
            assert(((d + 48) as u8) as char as nat == d + 48);
        } else {
            assert(((d + 55) as u8) as char as nat == d + 55);
        }
    }
}

/// ASCII upper-casing of one character.
pub open spec fn ascii_upper(c: char) -> char {
    if 'a' <= c && c <= 'z' {
        ((c as nat - 32) as u8) as char
    } else {
        c
    }
}

proof fn lemma_hex_value_upper(c: char)
    ensures
        hex_value(ascii_upper(c)) == hex_value(c),
        (ascii_upper(c) == '+') == (c == '+'),
{
    if 'a' <= c && c <= 'z' {
        assert(((c as nat - 32) as u8) as char as nat == c as nat - 32);
    }
}

/// Parsing ignores the case of the hex digits.
pub proof fn law_parse_ignores_case(s: Seq<char>)
    ensures
        parse_rgb_spec(s.map_values(|c: char| ascii_upper(c))) == parse_rgb_spec(s),
{
    let u = s.map_values(|c: char| ascii_upper(c));
    if s.len() > 0 {
        assert(u[0] == ascii_upper(s[0]));
        lemma_hex_value_upper(s[0]);
        if 'a' <= s[0] && s[0] <= 'z' {
            assert(((s[0] as nat - 32) as u8) as char as nat == s[0] as nat - 32);
        }
        assert((u[0] == '#') == (s[0] == '#'));
    }
    let hs = strip_hash(s);
    let hu = strip_hash(u);
    assert(hu.len() == hs.len());
    if hs.len() == 6 {
        assert forall|i: int| 0 <= i < 6 implies hu[i] == ascii_upper(hs[i]) by {
            if s.len() > 0 && s[0] == '#' {
                assert(hu[i] == u[i + 1]);
                assert(hs[i] == s[i + 1]);
            } else {
                assert(hu[i] == u[i]);
            }
        }
        lemma_hex_value_upper(hs[0]);
        lemma_hex_value_upper(hs[1]);
        lemma_hex_value_upper(hs[2]);
        lemma_hex_value_upper(hs[3]);
        lemma_hex_value_upper(hs[4]);
        lemma_hex_value_upper(hs[5]);
    }
}

/// A leading `#` is optional: `#RRGGBB` and `RRGGBB` parse alike.
pub proof fn law_hash_is_optional(s: Seq<char>)
    requires
        s.len() == 0 || s[0] != '#',
    ensures
        parse_rgb_spec(seq!['#'] + s) == parse_rgb_spec(s),
{
    assert((seq!['#'] + s).drop_first() =~= s);
}

impl core::str::FromStr for Rgb {
    type Err = Error;

    fn from_str(s: &str) -> (r: Result<Rgb, Error>)
        ensures
            match parse_rgb_spec(s@) {
                Some(c) => r == Ok::<Rgb, Error>(c),
                None => r matches Err(e) && e@ == ErrorView::InvalidHex(strip_hash(s@)),
            },
    {
        Rgb::parse(s)
    }
}

} // verus!
