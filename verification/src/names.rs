//! Text substitution for output names: `str::replace`, suffix stripping and
//! capitalizing.
use vstd::prelude::*;
use crate::text::{chars_of, push_char, push_seq, string_of, window_eq};

verus! {

/// `str::replace(s, pat, with)` for a non-empty `pat`: every occurrence,
/// found left to right without overlap, is replaced.
pub open spec fn replace_spec(s: Seq<char>, pat: Seq<char>, with: Seq<char>) -> Seq<char>
    recommends
        pat.len() > 0,
    decreases s.len(),
{
    if pat.len() == 0 || s.len() < pat.len() {
        s
    } else if s.take(pat.len() as int) == pat {
        with + replace_spec(s.skip(pat.len() as int), pat, with)
    } else {
        seq![s[0]] + replace_spec(s.drop_first(), pat, with)
    }
}

/// Whether `pat` occurs in `s`.
pub open spec fn contains_spec(s: Seq<char>, pat: Seq<char>) -> bool {
    exists|i: int| 0 <= i && i + pat.len() <= s.len() && #[trigger] s.subrange(i, i + pat.len()) == pat
}

/// Replaces every occurrence of `pat` in `s` by `with` (`pat` non-empty).
pub fn replace_all(s: &str, pat: &str, with: &str) -> (r: String)
    requires
        pat@.len() > 0,
    ensures
        r@ == replace_spec(s@, pat@, with@),
{
    let v = chars_of(s);
    let p = chars_of(pat);
    let w = chars_of(with);
    let mut out = String::new();
    let mut i: usize = 0;
    assert(v@.skip(0) =~= v@);
    while i < v.len()
        invariant
            i <= v@.len(),
            p@.len() > 0,
            replace_spec(v@, p@, w@) == out@ + replace_spec(v@.skip(i as int), p@, w@),
        decreases v@.len() - i,
    {
        let ghost rest = v@.skip(i as int);
        if v.len() - i >= p.len() && window_eq(&v, i, i + p.len(), &p) {
            assert(rest.take(p@.len() as int) == v@.subrange(i as int, i + p@.len()));
            assert(rest.skip(p@.len() as int) == v@.skip(i + p@.len()));
            push_seq(&mut out, &w);
            i = i + p.len();
        } else {
            proof {
                if v@.len() - i >= p@.len() {
                    assert(rest.take(p@.len() as int) == v@.subrange(i as int, i + p@.len()));
                }
                assert(rest.drop_first() == v@.skip(i + 1));
                assert(rest[0] == v@[i as int]);
            }
            push_char(&mut out, v[i]);
            i = i + 1;
        }
    }
    assert(v@.skip(i as int) =~= Seq::<char>::empty());
    out
}

/// Whether `pat` occurs in `s`.
pub fn contains(s: &str, pat: &str) -> (b: bool)
    ensures
        b == contains_spec(s@, pat@),
{
    let v = chars_of(s);
    let p = chars_of(pat);
    if p.len() > v.len() {
        return false;
    }
    let last = v.len() - p.len();
    let mut i: usize = 0;
    loop
        invariant_except_break
            p@.len() <= v@.len(),
            v@.len() == v.len(),
            p@.len() == p.len(),
            last == v@.len() - p@.len(),
            v@ == s@,
            p@ == pat@,
            i <= last,
            forall|j: int| 0 <= j < i ==> #[trigger] v@.subrange(j, j + p@.len()) != p@,
        ensures
            forall|j: int| 0 <= j <= last ==> #[trigger] v@.subrange(j, j + p@.len()) != p@,
            v@ == s@,
            p@ == pat@,
            last == v@.len() - p@.len(),
        decreases last - i,
    {
        if window_eq(&v, i, i + p.len(), &p) {
            return true;
        }
        if i == last {
            break;
        }
        i = i + 1;
    }
    false
}

/// Whether `s` ends with `suffix`.
pub open spec fn ends_with_spec(s: Seq<char>, suffix: Seq<char>) -> bool {
    s.len() >= suffix.len() && s.skip(s.len() - suffix.len()) == suffix
}

/// Whether `s` ends with `suffix`.
pub fn ends_with(s: &str, suffix: &str) -> (b: bool)
    ensures
        b == ends_with_spec(s@, suffix@),
{
    let v = chars_of(s);
    let x = chars_of(suffix);
    if v.len() >= x.len() {
        assert(v@.skip(v@.len() - x@.len()) == v@.subrange(v@.len() - x@.len(), v@.len() as int));
        window_eq(&v, v.len() - x.len(), v.len(), &x)
    } else {
        false
    }
}

/// `s` without `suffix` if it ends with it.
pub open spec fn strip_suffix_spec(s: Seq<char>, suffix: Seq<char>) -> Seq<char> {
    if s.len() >= suffix.len() && s.skip(s.len() - suffix.len()) == suffix {
        s.take(s.len() - suffix.len())
    } else {
        s
    }
}

/// `s` without `suffix` if it ends with it, else `s` unchanged.
pub fn strip_suffix(s: &str, suffix: &str) -> (r: String)
    ensures
        r@ == strip_suffix_spec(s@, suffix@),
{
    let v = chars_of(s);
    let x = chars_of(suffix);
    if v.len() >= x.len() && window_eq(&v, v.len() - x.len(), v.len(), &x) {
        assert(v@.skip(v@.len() - x@.len()) == v@.subrange(v@.len() - x@.len(), v@.len() as int));
        assert(v@.take(v@.len() - x@.len()) == v@.subrange(0, v@.len() - x@.len()));
        string_of(&v, 0, v.len() - x.len())
    } else {
        proof {
            if v@.len() >= x@.len() {
                assert(v@.skip(v@.len() - x@.len()) == v@.subrange(v@.len() - x@.len(), v@.len() as int));
            }
        }
        assert(v@.subrange(0, v@.len() as int) == v@);
        string_of(&v, 0, v.len())
    }
}

/// ASCII upper-casing of one character.
pub open spec fn upper(c: char) -> char {
    if 'a' <= c && c <= 'z' {
        ((c as nat - 32) as u8) as char
    } else {
        c
    }
}

fn exec_upper(c: char) -> (r: char)
    ensures
        r == upper(c),
{
    if 'a' <= c && c <= 'z' {
        ((c as u32 - 32) as u8) as char
    } else {
        c
    }
}

/// The first character upper-cased (ASCII only), the rest unchanged.
pub open spec fn capitalize_spec(s: Seq<char>) -> Seq<char> {
    if s.len() == 0 {
        s
    } else {
        seq![upper(s[0])] + s.drop_first()
    }
}

/// Upper-cases the first character (ASCII only) and keeps the rest.
pub fn capitalize(s: &str) -> (r: String)
    ensures
        r@ == capitalize_spec(s@),
{
    let v = chars_of(s);
    if v.len() == 0 {
        assert(v@ =~= Seq::<char>::empty());
        return String::new();
    }
    let mut r = String::new();
    push_char(&mut r, exec_upper(v[0]));
    let rest = string_of(&v, 1, v.len());
    crate::text::push_str(&mut r, rest.as_str());
    assert(v@.subrange(1, v@.len() as int) == v@.drop_first());
    r
}

/// Replacing a pattern that does not occur leaves the text unchanged.
pub proof fn law_replace_without_occurrence(s: Seq<char>, pat: Seq<char>, with: Seq<char>)
    requires
        pat.len() > 0,
        !contains_spec(s, pat),
    ensures
        replace_spec(s, pat, with) == s,
    decreases s.len(),
{
    if s.len() >= pat.len() {
        assert(s.take(pat.len() as int) == s.subrange(0, pat.len() as int));
        assert(s.subrange(0int, 0int + pat.len()) != pat);
        assert(!contains_spec(s.drop_first(), pat)) by {
            if contains_spec(s.drop_first(), pat) {
                let i = choose|i: int| 0 <= i && i + pat.len() <= s.drop_first().len() && #[trigger] s.drop_first().subrange(i, i + pat.len()) == pat;
                assert(s.drop_first().subrange(i, i + pat.len()) == s.subrange(i + 1, i + 1 + pat.len()));
            }
        }
        law_replace_without_occurrence(s.drop_first(), pat, with);
        assert(seq![s[0]] + s.drop_first() == s);
    }
}

/// Stripping a suffix from a text that ends with it gives the text before it.
pub proof fn law_strip_suffix_of_concat(s: Seq<char>, suffix: Seq<char>)
    ensures
        strip_suffix_spec(s + suffix, suffix) == s,
{
    assert((s + suffix).skip(s.len() as int) == suffix);
    assert((s + suffix).take(s.len() as int) == s);
}

/// Capitalizing keeps the length and every character after the first.
pub proof fn law_capitalize_keeps_rest(s: Seq<char>)
    ensures
        capitalize_spec(s).len() == s.len(),
        forall|i: int| 1 <= i < s.len() ==> capitalize_spec(s)[i] == s[i],
        s.len() > 0 ==> capitalize_spec(s)[0] == upper(s[0]),
{
}

} // verus!
