//! Which texts `f64::from_str` accepts.
//!
//! std documents the accepted strings as those that, lower-cased, match
//!
//! ```text
//! Float  ::= Sign? ( 'inf' | 'infinity' | 'nan' | Number )
//! Number ::= ( Digit+ | Digit+ '.' Digit* | Digit* '.' Digit+ ) Exp?
//! Exp    ::= 'e' Sign? Digit+
//! Sign   ::= [+-]
//! Digit  ::= [0-9]
//! ```
//!
//! Color expressions keep their factor as text; this module decides whether
//! the text is a factor at all, so that a malformed factor is reported
//! where the expression is parsed.
use vstd::prelude::*;

verus! {

pub open spec fn is_digit(c: char) -> bool {
    '0' <= c && c <= '9'
}

pub open spec fn is_sign(c: char) -> bool {
    c == '+' || c == '-'
}

/// ASCII lower-casing of one character.
pub open spec fn ascii_lower(c: char) -> char {
    if 'A' <= c && c <= 'Z' {
        ((c as nat + 32) as u8) as char
    } else {
        c
    }
}

pub open spec fn is_exp_mark(c: char) -> bool {
    c == 'e' || c == 'E'
}

/// `s`, lower-cased, equals `w`.
pub open spec fn eq_ignore_case(s: Seq<char>, w: Seq<char>) -> bool {
    s.len() == w.len() && forall|i: int| 0 <= i < s.len() ==> ascii_lower(#[trigger] s[i]) == w[i]
}

/// `Digit+ | Digit+ '.' Digit* | Digit* '.' Digit+`.
pub open spec fn mantissa_ok(m: Seq<char>) -> bool {
    &&& forall|i: int| 0 <= i < m.len() ==> is_digit(#[trigger] m[i]) || m[i] == '.'
    &&& exists|i: int| 0 <= i < m.len() && is_digit(#[trigger] m[i])
    &&& forall|i: int, j: int| 0 <= i < m.len() && 0 <= j < m.len() && #[trigger] m[i] == '.' && #[trigger] m[j] == '.' ==> i == j
}

/// `Sign? Digit+`.
pub open spec fn exponent_ok(e: Seq<char>) -> bool {
    exponent_digits(e).len() > 0 && forall|i: int|
        0 <= i < exponent_digits(e).len() ==> is_digit(#[trigger] exponent_digits(e)[i])
}

/// The exponent without its sign.
pub open spec fn exponent_digits(e: Seq<char>) -> Seq<char> {
    if e.len() > 0 && is_sign(e[0]) {
        e.drop_first()
    } else {
        e
    }
}

/// `Number` of the grammar above.
pub open spec fn number_ok(b: Seq<char>) -> bool {
    ||| ((forall|i: int| 0 <= i < b.len() ==> !is_exp_mark(#[trigger] b[i])) && mantissa_ok(b))
    ||| exists|i: int|
        0 <= i < b.len() && is_exp_mark(#[trigger] b[i]) && mantissa_ok(b.take(i)) && exponent_ok(
            b.skip(i + 1),
        )
}

/// The texts `f64::from_str` accepts.
pub open spec fn float_text_ok(s: Seq<char>) -> bool {
    let b = if s.len() > 0 && is_sign(s[0]) {
        s.drop_first()
    } else {
        s
    };
    ||| eq_ignore_case(b, "inf"@)
    ||| eq_ignore_case(b, "infinity"@)
    ||| eq_ignore_case(b, "nan"@)
    ||| number_ok(b)
}

fn exec_ascii_lower(c: char) -> (r: char)
    ensures
        r == ascii_lower(c),
{
    if 'A' <= c && c <= 'Z' {
        ((c as u32 + 32) as u8) as char
    } else {
        c
    }
}

fn window_eq_ignore_case(v: &Vec<char>, lo: usize, hi: usize, w: &Vec<char>) -> (b: bool)
    requires
        lo <= hi <= v@.len(),
    ensures
        b == eq_ignore_case(v@.subrange(lo as int, hi as int), w@),
{
    let ghost s = v@.subrange(lo as int, hi as int);
    if hi - lo != w.len() {
        return false;
    }
    let mut i: usize = 0;
    while i < w.len()
        invariant
            s == v@.subrange(lo as int, hi as int),
            lo <= hi <= v@.len(),
            hi - lo == w@.len(),
            i <= w@.len(),
            forall|j: int| 0 <= j < i ==> ascii_lower(#[trigger] s[j]) == w@[j],
        decreases w@.len() - i,
    {
        if exec_ascii_lower(v[lo + i]) != w[i] {
            assert(s[i as int] == v@[lo + i]);
            return false;
        }
        assert(s[i as int] == v@[lo + i]);
        i = i + 1;
    }
    true
}

fn mantissa_window_ok(v: &Vec<char>, lo: usize, hi: usize) -> (b: bool)
    requires
        lo <= hi <= v@.len(),
    ensures
        b == mantissa_ok(v@.subrange(lo as int, hi as int)),
{
    let ghost m = v@.subrange(lo as int, hi as int);
    let mut digits = false;
    let mut dot: Option<usize> = None;
    let mut i = lo;
    while i < hi
        invariant
            m == v@.subrange(lo as int, hi as int),
            lo <= i <= hi <= v@.len(),
            forall|j: int| 0 <= j < i - lo ==> is_digit(#[trigger] m[j]) || m[j] == '.',
            digits == exists|j: int| 0 <= j < i - lo && is_digit(#[trigger] m[j]),
            match dot {
                Some(p) => lo <= p < i && m[p - lo] == '.' && forall|j: int|
                    0 <= j < i - lo && #[trigger] m[j] == '.' ==> j == p - lo,
                None => forall|j: int| 0 <= j < i - lo ==> #[trigger] m[j] != '.',
            },
        decreases hi - i,
    {
        let c = v[i];
        assert(m[i - lo] == c);
        if '0' <= c && c <= '9' {
            digits = true;
        } else if c == '.' {
            match dot {
                Some(p) => {
                    assert(m[p - lo] == '.' && m[i - lo] == '.');
                    return false;
                },
                None => {
                    dot = Some(i);
                },
            }
        } else {
            return false;
        }
        i = i + 1;
    }
    digits
}

fn exponent_window_ok(v: &Vec<char>, lo: usize, hi: usize) -> (b: bool)
    requires
        lo <= hi <= v@.len(),
    ensures
        b == exponent_ok(v@.subrange(lo as int, hi as int)),
{
    let ghost e = v@.subrange(lo as int, hi as int);
    let start = if lo < hi && (v[lo] == '+' || v[lo] == '-') {
        lo + 1
    } else {
        lo
    };
    let ghost d = v@.subrange(start as int, hi as int);
    assert(d == exponent_digits(e));
    if start == hi {
        return false;
    }
    let mut i = start;
    while i < hi
        invariant
            d == v@.subrange(start as int, hi as int),
            e == v@.subrange(lo as int, hi as int),
            d == exponent_digits(e),
            start <= i <= hi <= v@.len(),
            forall|j: int| 0 <= j < i - start ==> is_digit(#[trigger] d[j]),
        decreases hi - i,
    {
        assert(d[i - start] == v@[i as int]);
        if !('0' <= v[i] && v[i] <= '9') {
            assert(!is_digit(d[i - start]));
            return false;
        }
        i = i + 1;
    }
    true
}

/// Whether `v@[lo..hi]` is a text that `f64::from_str` accepts.
pub(crate) fn float_window_ok(v: &Vec<char>, lo: usize, hi: usize) -> (ok: bool)
    requires
        lo <= hi <= v@.len(),
    ensures
        ok == float_text_ok(v@.subrange(lo as int, hi as int)),
{
    let ghost s = v@.subrange(lo as int, hi as int);
    let start = if lo < hi && (v[lo] == '+' || v[lo] == '-') {
        lo + 1
    } else {
        lo
    };
    let ghost b = v@.subrange(start as int, hi as int);
    assert(b == if s.len() > 0 && is_sign(s[0]) {
        s.drop_first()
    } else {
        s
    });
    let inf: Vec<char> = vec!['i', 'n', 'f'];
    let infinity: Vec<char> = vec!['i', 'n', 'f', 'i', 'n', 'i', 't', 'y'];
    let nan: Vec<char> = vec!['n', 'a', 'n'];
    proof {
        reveal_strlit("inf");
        reveal_strlit("infinity");
        reveal_strlit("nan");
        assert(inf@ =~= "inf"@);
        assert(infinity@ =~= "infinity"@);
        assert(nan@ =~= "nan"@);
    }
    if window_eq_ignore_case(v, start, hi, &inf) || window_eq_ignore_case(v, start, hi, &infinity)
        || window_eq_ignore_case(v, start, hi, &nan) {
        return true;
    }
    // Locate the first exponent mark.

    let mut i = start;
    while i < hi
        invariant
            b == v@.subrange(start as int, hi as int),
            start <= i <= hi <= v@.len(),
            forall|j: int| 0 <= j < i - start ==> !is_exp_mark(#[trigger] b[j]),
        ensures
            start <= i <= hi,
            forall|j: int| 0 <= j < i - start ==> !is_exp_mark(#[trigger] b[j]),
            i < hi ==> is_exp_mark(v@[i as int]),
        decreases hi - i,
    {
        assert(b[i - start] == v@[i as int]);
        if v[i] == 'e' || v[i] == 'E' {
            break;
        }
        i = i + 1;
    }
    if i == hi {
        let ok = mantissa_window_ok(v, start, hi);
        proof {
            if !ok {
                assert forall|k: int|
                    0 <= k < b.len() && is_exp_mark(#[trigger] b[k]) && mantissa_ok(b.take(k))
                        && exponent_ok(b.skip(k + 1)) implies false by {}
            }
        }
        ok
    } else {
        let k = i - start;
        assert(b[k as int] == v@[i as int]);
        let m = mantissa_window_ok(v, start, i);
        let x = exponent_window_ok(v, i + 1, hi);
        proof {
            assert(v@.subrange(start as int, i as int) == b.take(k as int));
            assert(v@.subrange(i + 1, hi as int) == b.skip(k + 1));
            // Any exponent mark of a well-formed number is the first one.
            assert forall|k2: int|
                0 <= k2 < b.len() && is_exp_mark(#[trigger] b[k2]) && mantissa_ok(b.take(k2))
                    && exponent_ok(b.skip(k2 + 1)) implies k2 == k by {
                if k2 > k {
                    assert(b.take(k2)[k as int] == b[k as int]);
                }
                if k2 < k {
                    assert(!is_exp_mark(b[k2]));
                }
            }
        }
        m && x
    }
}

} // verus!
