//! Color expressions: what a role, an ANSI slot or a palette entry may hold.
//!
//! An expression is one of
//! - a hex literal: `"#E26A3B"`
//! - a reference `section.key`: `"colors.lantern"`, `"ansi.bright.red"`
//! - `lighten(e, f)`, `darken(e, f)`, `brighten(e, f)`, `mix(e1, e2, f)`.
//!
//! Only `colors`, `base` and `ansi` can be referenced; `ansi.bright.*` is the
//! `ansi` section with key `bright.*`. Factors are kept as the text that was
//! written (checked to be a number `f64::from_str` accepts); applying the
//! color functions is floating-point work that the caller does on the
//! resolved tree (see [`ResolvedExpr`]).
use vstd::prelude::*;
use crate::color::{hex_text, law_hex_text_parses_back, law_hex_text_shape, parse_rgb_spec, Rgb};
use crate::error::{Error, ErrorView};
use crate::float_text::{float_text_ok, float_window_ok};
use crate::text::{
    chars_of, find_first, find_last, first_index_of, last_index_of, lemma_trim_noop, push_str, string_from,
    string_of, trim, trim_end, trim_start, trim_window, window_eq,
};

verus! {

/// Sections that can be referenced in color expressions.
#[derive(Clone, Copy, Debug, PartialEq, Eq, Structural)]
pub enum Section {
    Colors,
    Base,
    Ansi,
}

/// The name a section is referenced by.
pub open spec fn section_name(s: Section) -> Seq<char> {
    match s {
        Section::Colors => "colors"@,
        Section::Base => "base"@,
        Section::Ansi => "ansi"@,
    }
}

/// The section a name references, if any.
pub open spec fn section_named(s: Seq<char>) -> Option<Section> {
    if s == "colors"@ {
        Some(Section::Colors)
    } else if s == "base"@ {
        Some(Section::Base)
    } else if s == "ansi"@ {
        Some(Section::Ansi)
    } else {
        None
    }
}

/// The message for a name that is not a referenceable section.
pub open spec fn not_referenceable_message(s: Seq<char>) -> Seq<char> {
    "'"@ + s + "' cannot be referenced (allowed: colors, base, ansi)"@
}

/// The result of parsing a section name.
pub open spec fn section_parse_spec(s: Seq<char>) -> Result<Section, ErrorView> {
    match section_named(s) {
        Some(sec) => Ok(sec),
        None => Err(ErrorView::InvalidColorExpr(not_referenceable_message(s))),
    }
}

fn section_of_window(v: &Vec<char>, lo: usize, hi: usize) -> (r: Result<Section, Error>)
    requires
        lo <= hi <= v@.len(),
    ensures
        match section_parse_spec(v@.subrange(lo as int, hi as int)) {
            Ok(sec) => r == Ok::<Section, Error>(sec),
            Err(e) => r matches Err(x) && x@ == e,
        },
{
    let colors = chars_of("colors");
    let base = chars_of("base");
    let ansi = chars_of("ansi");
    if window_eq(v, lo, hi, &colors) {
        Ok(Section::Colors)
    } else if window_eq(v, lo, hi, &base) {
        Ok(Section::Base)
    } else if window_eq(v, lo, hi, &ansi) {
        Ok(Section::Ansi)
    } else {
        let mut m = string_from("'");
        let name = string_of(v, lo, hi);
        push_str(&mut m, name.as_str());
        push_str(&mut m, "' cannot be referenced (allowed: colors, base, ansi)");
        Err(Error::InvalidColorExpr(m))
    }
}

impl Section {
    /// Parses a section name: `colors`, `base` or `ansi`.
    pub fn parse(s: &str) -> (r: Result<Section, Error>)
        ensures
            match section_parse_spec(s@) {
                Ok(sec) => r == Ok::<Section, Error>(sec),
                Err(e) => r matches Err(x) && x@ == e,
            },
    {
        let v = chars_of(s);
        assert(v@.subrange(0, v@.len() as int) == s@);
        section_of_window(&v, 0, v.len())
    }

    /// The name this section is referenced by.
    pub fn as_str(&self) -> (r: &'static str)
        ensures
            r@ == section_name(*self),
    {
        match self {
            Section::Colors => "colors",
            Section::Base => "base",
            Section::Ansi => "ansi",
        }
    }
}

/// A parsed color expression. Factors keep the text they were written as.
#[derive(Debug)]
pub enum ColorExpr {
    /// A literal hex color (e.g. `#E26A3B`).
    Literal(Rgb),
    /// A reference to another field (e.g. `colors.lantern`).
    Ref { section: Section, key: String },
    /// Lighten a color by a factor (0.0 = unchanged, 1.0 = white).
    Lighten(Box<ColorExpr>, String),
    /// Darken a color by a factor (0.0 = unchanged, 1.0 = black).
    Darken(Box<ColorExpr>, String),
    /// Brighten a color by an absolute amount (positive = brighter).
    Brighten(Box<ColorExpr>, String),
    /// Mix two colors (0.0 = first color, 1.0 = second color).
    Mix(Box<ColorExpr>, Box<ColorExpr>, String),
}

/// [`ColorExpr`] with each string taken by its characters.
pub enum ExprView {
    Literal(Rgb),
    Ref(Section, Seq<char>),
    Lighten(Box<ExprView>, Seq<char>),
    Darken(Box<ExprView>, Seq<char>),
    Brighten(Box<ExprView>, Seq<char>),
    Mix(Box<ExprView>, Box<ExprView>, Seq<char>),
}

pub open spec fn expr_view(e: ColorExpr) -> ExprView
    decreases e,
{
    match e {
        ColorExpr::Literal(c) => ExprView::Literal(c),
        ColorExpr::Ref { section, key } => ExprView::Ref(section, key@),
        ColorExpr::Lighten(x, f) => ExprView::Lighten(Box::new(expr_view(*x)), f@),
        ColorExpr::Darken(x, f) => ExprView::Darken(Box::new(expr_view(*x)), f@),
        ColorExpr::Brighten(x, f) => ExprView::Brighten(Box::new(expr_view(*x)), f@),
        ColorExpr::Mix(x, y, f) => ExprView::Mix(
            Box::new(expr_view(*x)),
            Box::new(expr_view(*y)),
            f@,
        ),
    }
}

impl View for ColorExpr {
    type V = ExprView;

    open spec fn view(&self) -> ExprView {
        expr_view(*self)
    }
}

/// `name(args)` gives `Some(args)`.
pub open spec fn call_args(t: Seq<char>, name: Seq<char>) -> Option<Seq<char>> {
    if t.len() >= name.len() + 2 && t.take(name.len() as int) == name && t[name.len() as int]
        == '(' && t.last() == ')' {
        Some(t.subrange(name.len() + 1int, t.len() - 1))
    } else {
        None
    }
}

/// Stripping the call syntax: `name(args)` gives exactly `args`, and a
/// text gives `Some(a)` only when it is `name`, `(`, `a` and `)`.
pub proof fn law_call_args_strips_exactly(t: Seq<char>, name: Seq<char>, a: Seq<char>)
    ensures
        call_args(name + seq!['('] + a + seq![')'], name) == Some(a),
        call_args(t, name) == Some(a) <==> t == name + seq!['('] + a + seq![')'],
{
    let w = name + seq!['('] + a + seq![')'];
    assert(w.take(name.len() as int) =~= name);
    assert(w[name.len() as int] == '(');
    assert(w.subrange(name.len() + 1int, w.len() - 1) =~= a);
    if call_args(t, name) == Some(a) {
        assert(t =~= name + seq!['('] + a + seq![')']) by {
            assert(t.take(name.len() as int) == name);
            assert forall|i: int| 0 <= i < t.len() implies t[i] == w[i] by {
                if i < name.len() {
                    assert(t[i] == t.take(name.len() as int)[i]);
                } else if i == name.len() {
                } else if i < t.len() - 1 {
                    assert(t[i] == t.subrange(name.len() + 1int, t.len() - 1)[i - name.len() - 1]);
                }
            }
        }
    }
}

proof fn lemma_trim_start_len(s: Seq<char>)
    ensures
        trim_start(s).len() <= s.len(),
    decreases s.len(),
{
    if s.len() > 0 && crate::text::is_ws(s[0]) {
        lemma_trim_start_len(s.drop_first());
    }
}

proof fn lemma_trim_end_len(s: Seq<char>)
    ensures
        trim_end(s).len() <= s.len(),
    decreases s.len(),
{
    if s.len() > 0 && crate::text::is_ws(s.last()) {
        lemma_trim_end_len(s.drop_last());
    }
}

pub proof fn lemma_trim_len(s: Seq<char>)
    ensures
        trim(s).len() <= s.len(),
{
    lemma_trim_start_len(s);
    lemma_trim_end_len(trim_start(s));
}

pub open spec fn expected_unary_message(args: Seq<char>) -> Seq<char> {
    "expected 'color, factor': "@ + args
}

pub open spec fn expected_mix_message(args: Seq<char>) -> Seq<char> {
    "expected 'color1, color2, factor': "@ + args
}

pub open spec fn invalid_factor_message(f: Seq<char>) -> Seq<char> {
    "invalid factor: "@ + f
}

/// `parse_color_expr`: the expression a text denotes, or why it denotes none.
///
/// The text is trimmed first. `#...` is a literal; `lighten(...)`,
/// `darken(...)`, `brighten(...)` and `mix(...)` split their arguments at the
/// last commas, checking the trailing factor before the colors; anything
/// else is `section.key`, split at the first dot.
pub open spec fn parse_expr_spec(s: Seq<char>) -> Result<ExprView, ErrorView>
    decreases s.len(),
{
    let t = trim(s);
    proof {
        lemma_trim_len(s);
    }
    if t.len() > 0 && t[0] == '#' {
        match parse_rgb_spec(t) {
            Some(c) => Ok(ExprView::Literal(c)),
            None => Err(ErrorView::InvalidHex(t)),
        }
    } else if call_args(t, "lighten"@) is Some {
        let args = call_args(t, "lighten"@)->0;
        match parse_unary_spec(args) {
            Ok((x, f)) => Ok(ExprView::Lighten(Box::new(x), f)),
            Err(e) => Err(e),
        }
    } else if call_args(t, "darken"@) is Some {
        let args = call_args(t, "darken"@)->0;
        match parse_unary_spec(args) {
            Ok((x, f)) => Ok(ExprView::Darken(Box::new(x), f)),
            Err(e) => Err(e),
        }
    } else if call_args(t, "brighten"@) is Some {
        let args = call_args(t, "brighten"@)->0;
        match parse_unary_spec(args) {
            Ok((x, f)) => Ok(ExprView::Brighten(Box::new(x), f)),
            Err(e) => Err(e),
        }
    } else if call_args(t, "mix"@) is Some {
        let args = call_args(t, "mix"@)->0;
        match parse_mix_spec(args) {
            Ok((x, y, f)) => Ok(ExprView::Mix(Box::new(x), Box::new(y), f)),
            Err(e) => Err(e),
        }
    } else {
        match first_index_of(t, '.') {
            None => Err(ErrorView::InvalidColorExpr(t)),
            Some(i) => match section_parse_spec(t.take(i)) {
                Ok(sec) => Ok(ExprView::Ref(sec, t.skip(i + 1))),
                Err(e) => Err(e),
            },
        }
    }
}

/// Each color function parses to its own node: `lighten(a)` to `Lighten`,
/// `darken(a)` to `Darken`, `brighten(a)` to `Brighten` (with the color and
/// factor that `a` gives), and `mix(a)` to `Mix`; a malformed `a` gives its
/// error.
pub proof fn law_function_names_pick_their_node(a: Seq<char>)
    ensures
        parse_expr_spec("lighten"@ + seq!['('] + a + seq![')']) == match parse_unary_spec(a) {
            Ok((x, f)) => Ok(ExprView::Lighten(Box::new(x), f)),
            Err(e) => Err(e),
        },
        parse_expr_spec("darken"@ + seq!['('] + a + seq![')']) == match parse_unary_spec(a) {
            Ok((x, f)) => Ok(ExprView::Darken(Box::new(x), f)),
            Err(e) => Err(e),
        },
        parse_expr_spec("brighten"@ + seq!['('] + a + seq![')']) == match parse_unary_spec(a) {
            Ok((x, f)) => Ok(ExprView::Brighten(Box::new(x), f)),
            Err(e) => Err(e),
        },
        parse_expr_spec("mix"@ + seq!['('] + a + seq![')']) == match parse_mix_spec(a) {
            Ok((x, y, f)) => Ok(ExprView::Mix(Box::new(x), Box::new(y), f)),
            Err(e) => Err(e),
        },
{
    reveal_strlit("lighten");
    reveal_strlit("darken");
    reveal_strlit("brighten");
    reveal_strlit("mix");
    let l = "lighten"@ + seq!['('] + a + seq![')'];
    let d = "darken"@ + seq!['('] + a + seq![')'];
    let b = "brighten"@ + seq!['('] + a + seq![')'];
    let m = "mix"@ + seq!['('] + a + seq![')'];
    assert(l[0] == 'l' && l.last() == ')');
    assert(d[0] == 'd' && d.last() == ')');
    assert(b[0] == 'b' && b.last() == ')');
    assert(m[0] == 'm' && m.last() == ')');
    lemma_trim_noop(l);
    lemma_trim_noop(d);
    lemma_trim_noop(b);
    lemma_trim_noop(m);
    law_call_args_strips_exactly(l, "lighten"@, a);
    law_call_args_strips_exactly(d, "darken"@, a);
    law_call_args_strips_exactly(b, "brighten"@, a);
    law_call_args_strips_exactly(m, "mix"@, a);
    lemma_call_args_first_char(d, "lighten"@);
    lemma_call_args_first_char(b, "lighten"@);
    lemma_call_args_first_char(b, "darken"@);
    lemma_call_args_first_char(m, "lighten"@);
    lemma_call_args_first_char(m, "darken"@);
    lemma_call_args_first_char(m, "brighten"@);
}

proof fn lemma_call_args_first_char(t: Seq<char>, name: Seq<char>)
    requires
        name.len() > 0,
        t.len() > 0,
        t[0] != name[0],
    ensures
        call_args(t, name) is None,
{
    if t.len() >= name.len() + 2 {
        assert(t.take(name.len() as int)[0] == t[0]);
    }
}

/// `color, factor`: the factor after the last comma, then the color before it.
pub open spec fn parse_unary_spec(args: Seq<char>) -> Result<(ExprView, Seq<char>), ErrorView>
    decreases args.len(),
{
    match last_index_of(args, ',') {
        None => Err(ErrorView::InvalidColorExpr(expected_unary_message(args))),
        Some(i) => {
            let f = trim(args.skip(i + 1));
            if !float_text_ok(f) {
                Err(ErrorView::InvalidColorExpr(invalid_factor_message(f)))
            } else {
                proof {
                    crate::text::lemma_last_index_of(args, ',');
                    lemma_trim_len(args.take(i));
                }
                match parse_expr_spec(trim(args.take(i))) {
                    Ok(x) => Ok((x, f)),
                    Err(e) => Err(e),
                }
            }
        },
    }
}

/// `color1, color2, factor`, split at the last two commas.
pub open spec fn parse_mix_spec(args: Seq<char>) -> Result<
    (ExprView, ExprView, Seq<char>),
    ErrorView,
>
    decreases args.len(),
{
    match last_index_of(args, ',') {
        None => Err(ErrorView::InvalidColorExpr(expected_mix_message(args))),
        Some(i) => {
            let f = trim(args.skip(i + 1));
            if !float_text_ok(f) {
                Err(ErrorView::InvalidColorExpr(invalid_factor_message(f)))
            } else {
                let rest = args.take(i);
                match last_index_of(rest, ',') {
                    None => Err(ErrorView::InvalidColorExpr(expected_mix_message(args))),
                    Some(j) => {
                        proof {
                            crate::text::lemma_last_index_of(args, ',');
                            crate::text::lemma_last_index_of(rest, ',');
                            lemma_trim_len(rest.take(j));
                            lemma_trim_len(rest.skip(j + 1));
                        }
                        match parse_expr_spec(trim(rest.take(j))) {
                            Err(e) => Err(e),
                            Ok(x) => match parse_expr_spec(trim(rest.skip(j + 1))) {
                                Err(e) => Err(e),
                                Ok(y) => Ok((x, y, f)),
                            },
                        }
                    },
                }
            }
        },
    }
}


/// The parse result taken by its view.
pub open spec fn parse_result_view(r: Result<ColorExpr, Error>) -> Result<ExprView, ErrorView> {
    match r {
        Ok(e) => Ok(e@),
        Err(e) => Err(e@),
    }
}

pub open spec fn unary_result_view(r: Result<(ColorExpr, String), Error>) -> Result<
    (ExprView, Seq<char>),
    ErrorView,
> {
    match r {
        Ok((e, f)) => Ok((e@, f@)),
        Err(e) => Err(e@),
    }
}

pub open spec fn mix_result_view(r: Result<(ColorExpr, ColorExpr, String), Error>) -> Result<
    (ExprView, ExprView, Seq<char>),
    ErrorView,
> {
    match r {
        Ok((x, y, f)) => Ok((x@, y@, f@)),
        Err(e) => Err(e@),
    }
}

/// Strips the call syntax `name(args)` off `v@[a..b]`: the window of `args`.
fn strip_fn_call(v: &Vec<char>, a: usize, b: usize, name: &Vec<char>) -> (r: Option<(usize, usize)>)
    requires
        a <= b <= v@.len(),
    ensures
        match r {
            Some((x, y)) => a < x <= y < b && call_args(v@.subrange(a as int, b as int), name@)
                == Some(v@.subrange(x as int, y as int)),
            None => call_args(v@.subrange(a as int, b as int), name@) is None,
        },
{
    let ghost t = v@.subrange(a as int, b as int);
    if b - a >= 2 && b - a - 2 >= name.len() {
        let n = name.len();
        if window_eq(v, a, a + n, name) && v[a + n] == '(' && v[b - 1] == ')' {
            assert(t.take(n as int) == v@.subrange(a as int, a + n));
            assert(t[n as int] == v@[a + n]);
            assert(t.last() == v@[b - 1]);
            assert(t.subrange(n + 1int, t.len() - 1) == v@.subrange(a + n + 1, b - 1));
            return Some((a + n + 1, b - 1));
        }
        proof {
            assert(t.take(n as int) == v@.subrange(a as int, a + n));
            assert(t[n as int] == v@[a + n]);
            assert(t.last() == v@[b - 1]);
        }
    }
    None
}

fn parse_window(v: &Vec<char>, lo: usize, hi: usize) -> (r: Result<ColorExpr, Error>)
    requires
        lo <= hi <= v@.len(),
    ensures
        parse_result_view(r) == parse_expr_spec(v@.subrange(lo as int, hi as int)),
    decreases hi - lo,
{
    let ghost s = v@.subrange(lo as int, hi as int);
    let (a, b) = trim_window(v, lo, hi);
    let ghost t = v@.subrange(a as int, b as int);
    assert(t == trim(s));
    if a < b && v[a] == '#' {
        assert(t[0] == v@[a as int]);
        let lit = string_of(v, a, b);
        let parsed = Rgb::parse(lit.as_str());
        match parsed {
            Ok(c) => {
                return Ok(ColorExpr::Literal(c));
            },
            Err(_) => {
                return Err(Error::InvalidHex(lit));
            },
        }
    }
    proof {
        if a < b {
            assert(t[0] == v@[a as int]);
        }
    }
    let lighten = chars_of("lighten");
    let darken = chars_of("darken");
    let brighten = chars_of("brighten");
    let mix = chars_of("mix");
    if let Some((x, y)) = strip_fn_call(v, a, b, &lighten) {
        match parse_unary_window(v, x, y) {
            Ok((e, f)) => {
                return Ok(ColorExpr::Lighten(Box::new(e), f));
            },
            Err(e) => {
                return Err(e);
            },
        }
    }
    if let Some((x, y)) = strip_fn_call(v, a, b, &darken) {
        match parse_unary_window(v, x, y) {
            Ok((e, f)) => {
                return Ok(ColorExpr::Darken(Box::new(e), f));
            },
            Err(e) => {
                return Err(e);
            },
        }
    }
    if let Some((x, y)) = strip_fn_call(v, a, b, &brighten) {
        match parse_unary_window(v, x, y) {
            Ok((e, f)) => {
                return Ok(ColorExpr::Brighten(Box::new(e), f));
            },
            Err(e) => {
                return Err(e);
            },
        }
    }
    if let Some((x, y)) = strip_fn_call(v, a, b, &mix) {
        match parse_mix_window(v, x, y) {
            Ok((e1, e2, f)) => {
                return Ok(ColorExpr::Mix(Box::new(e1), Box::new(e2), f));
            },
            Err(e) => {
                return Err(e);
            },
        }
    }
    match find_first(v, a, b, '.') {
        None => Err(Error::InvalidColorExpr(string_of(v, a, b))),
        Some(p) => {
            assert(t.take(p - a) == v@.subrange(a as int, p as int));
            assert(t.skip(p - a + 1) == v@.subrange(p + 1, b as int));
            match section_of_window(v, a, p) {
                Ok(section) => Ok(ColorExpr::Ref { section, key: string_of(v, p + 1, b) }),
                Err(e) => Err(e),
            }
        },
    }
}

fn parse_unary_window(v: &Vec<char>, lo: usize, hi: usize) -> (r: Result<(ColorExpr, String), Error>)
    requires
        lo <= hi <= v@.len(),
    ensures
        unary_result_view(r) == parse_unary_spec(v@.subrange(lo as int, hi as int)),
    decreases hi - lo,
{
    let ghost args = v@.subrange(lo as int, hi as int);
    match find_last(v, lo, hi, ',') {
        None => {
            let mut m = string_from("expected 'color, factor': ");
            let a = string_of(v, lo, hi);
            push_str(&mut m, a.as_str());
            Err(Error::InvalidColorExpr(m))
        },
        Some(p) => {
            assert(args.skip(p - lo + 1) == v@.subrange(p + 1, hi as int));
            assert(args.take(p - lo) == v@.subrange(lo as int, p as int));
            let (fa, fb) = trim_window(v, p + 1, hi);
            if !float_window_ok(v, fa, fb) {
                let mut m = string_from("invalid factor: ");
                let f = string_of(v, fa, fb);
                push_str(&mut m, f.as_str());
                return Err(Error::InvalidColorExpr(m));
            }
            let (ca, cb) = trim_window(v, lo, p);
            match parse_window(v, ca, cb) {
                Ok(e) => Ok((e, string_of(v, fa, fb))),
                Err(e) => Err(e),
            }
        },
    }
}

fn parse_mix_window(v: &Vec<char>, lo: usize, hi: usize) -> (r: Result<
    (ColorExpr, ColorExpr, String),
    Error,
>)
    requires
        lo <= hi <= v@.len(),
    ensures
        mix_result_view(r) == parse_mix_spec(v@.subrange(lo as int, hi as int)),
    decreases hi - lo,
{
    let ghost args = v@.subrange(lo as int, hi as int);
    match find_last(v, lo, hi, ',') {
        None => {
            let mut m = string_from("expected 'color1, color2, factor': ");
            let a = string_of(v, lo, hi);
            push_str(&mut m, a.as_str());
            Err(Error::InvalidColorExpr(m))
        },
        Some(p) => {
            assert(args.skip(p - lo + 1) == v@.subrange(p + 1, hi as int));
            let ghost rest = args.take(p - lo);
            assert(rest == v@.subrange(lo as int, p as int));
            let (fa, fb) = trim_window(v, p + 1, hi);
            if !float_window_ok(v, fa, fb) {
                let mut m = string_from("invalid factor: ");
                let f = string_of(v, fa, fb);
                push_str(&mut m, f.as_str());
                return Err(Error::InvalidColorExpr(m));
            }
            match find_last(v, lo, p, ',') {
                None => {
                    let mut m = string_from("expected 'color1, color2, factor': ");
                    let a = string_of(v, lo, hi);
                    push_str(&mut m, a.as_str());
                    Err(Error::InvalidColorExpr(m))
                },
                Some(q) => {
                    assert(rest.take(q - lo) == v@.subrange(lo as int, q as int));
                    assert(rest.skip(q - lo + 1) == v@.subrange(q + 1, p as int));
                    let (xa, xb) = trim_window(v, lo, q);
                    let first = parse_window(v, xa, xb);
                    match first {
                        Err(e) => Err(e),
                        Ok(x) => {
                            let (ya, yb) = trim_window(v, q + 1, p);
                            match parse_window(v, ya, yb) {
                                Err(e) => Err(e),
                                Ok(y) => Ok((x, y, string_of(v, fa, fb))),
                            }
                        },
                    }
                },
            }
        },
    }
}

/// Parses a color expression (see the module documentation).
pub fn parse_color_expr(s: &str) -> (r: Result<ColorExpr, Error>)
    ensures
        parse_result_view(r) == parse_expr_spec(s@),
{
    let v = chars_of(s);
    assert(v@.subrange(0, v@.len() as int) == s@);
    parse_window(&v, 0, v.len())
}


/// Leading and trailing whitespace around an expression does not matter.
pub proof fn law_parse_ignores_surrounding_whitespace(s: Seq<char>)
    ensures
        parse_expr_spec(trim(s)) == parse_expr_spec(s),
{
    crate::text::lemma_trim_idempotent(s);
}

/// A printed color (`#RRGGBB`) parses as that literal color.
pub proof fn law_hex_text_is_a_literal(c: Rgb)
    ensures
        parse_expr_spec(hex_text(c)) == Ok::<ExprView, ErrorView>(ExprView::Literal(c)),
{
    let t = hex_text(c);
    law_hex_text_shape(c);
    law_hex_text_parses_back(c);
    let last = t[6];
    assert(t.last() == last);
    assert(!crate::text::is_ws(t[0]));
    assert(!crate::text::is_ws(last));
    crate::text::lemma_trim_noop(t);
}

/// Each section parses back from its name, and no other name is a section.
pub proof fn law_section_names_round_trip(sec: Section, name: Seq<char>)
    ensures
        section_parse_spec(section_name(sec)) == Ok::<Section, ErrorView>(sec),
        section_named(name) is None ==> section_parse_spec(name) == Err::<Section, ErrorView>(
            ErrorView::InvalidColorExpr(not_referenceable_message(name)),
        ),
{
    reveal_strlit("colors");
    reveal_strlit("base");
    reveal_strlit("ansi");
    assert("base"@ != "colors"@) by {
        assert("base"@.len() != "colors"@.len());
    }
    assert("ansi"@ != "colors"@) by {
        assert("ansi"@.len() != "colors"@.len());
    }
    assert("ansi"@ != "base"@) by {
        assert("ansi"@[0] != "base"@[0]);
    }
}

} // verus!
