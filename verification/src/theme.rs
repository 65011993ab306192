//! The theme model: `theme.toml` plus one self-contained file per variant,
//! resolved into role colors for adapters.
//!
//! Reading the files is the caller's part; this module holds the model's
//! types and the rules that do not depend on how the files were read: id
//! syntax, flattening `[colors]` into dotted keys, the lookup tables of the
//! `base` section, and the length of `roles.series`.
use vstd::prelude::*;
pub use crate::ansi::{Ansi, AnsiColors};
use crate::color::{parse_rgb_spec, Rgb};
use crate::error::{Error, ErrorView};
use crate::table::{lookup, Table};
use crate::text::{chars_of, push_str, string_from};
use vstd::string::StrSliceExecFns;

verus! {

/// Lower-case ASCII letter.
pub open spec fn is_id_start(c: char) -> bool {
    'a' <= c && c <= 'z'
}

/// Lower-case ASCII letter or ASCII digit.
pub open spec fn is_id_continue(c: char) -> bool {
    ('a' <= c && c <= 'z') || ('0' <= c && c <= '9')
}

/// `[a-z][a-z0-9]*`.
pub open spec fn id_ok(s: Seq<char>) -> bool {
    s.len() > 0 && is_id_start(s[0]) && forall|i: int| 1 <= i < s.len() ==> is_id_continue(#[trigger] s[i])
}

/// A theme or variant id: `[a-z][a-z0-9]*`.
#[derive(Debug)]
pub struct Id(String);

impl View for Id {
    type V = Seq<char>;

    closed spec fn view(&self) -> Seq<char> {
        self.0@
    }
}

impl Id {
    /// Every `Id`'s text matches `[a-z][a-z0-9]*`.
    #[verifier::type_invariant]
    spec fn inv(&self) -> bool {
        id_ok(self.0@)
    }

    /// Accepts exactly the texts matching `[a-z][a-z0-9]*`; anything else is
    /// `InvalidId` holding the text.
    pub fn parse(s: &str) -> (r: Result<Id, Error>)
        ensures
            id_ok(s@) ==> (r matches Ok(id) && id@ == s@),
            !id_ok(s@) ==> (r matches Err(e) && e@ == ErrorView::InvalidId(s@)),
    {
        let v = chars_of(s);
        let mut ok = v.len() > 0 && 'a' <= v[0] && v[0] <= 'z';
        let mut i: usize = 1;
        while ok && i < v.len()
            invariant
                v@ == s@,
                1 <= i <= v@.len() || !ok,
                ok ==> v@.len() > 0 && is_id_start(v@[0]),
                ok ==> forall|j: int| 1 <= j < i ==> is_id_continue(#[trigger] v@[j]),
                !ok ==> !id_ok(s@),
            decreases v@.len() - i,
        {
            let c = v[i];
            if !(('a' <= c && c <= 'z') || ('0' <= c && c <= '9')) {
                ok = false;
            }
            i = i + 1;
        }
        if ok {
            Ok(Id(string_from(s)))
        } else {
            Err(Error::InvalidId(string_from(s)))
        }
    }

    /// The id's text, which matches `[a-z][a-z0-9]*`.
    pub fn as_str(&self) -> (r: &str)
        ensures
            r@ == self@,
            id_ok(r@),
    {
        proof {
            use_type_invariant(self);
        }
        self.0.as_str()
    }

    /// Whether two ids are the same text.
    pub fn same(&self, other: &Id) -> (b: bool)
        ensures
            b == (self@ == other@),
    {
        self.0 == other.0
    }

    /// A copy of this id.
    pub fn duplicate(&self) -> (r: Id)
        ensures
            r@ == self@,
    {
        proof {
            use_type_invariant(self);
        }
        Id(self.0.clone())
    }
}

impl core::str::FromStr for Id {
    type Err = Error;

    fn from_str(s: &str) -> (r: Result<Id, Error>)
        ensures
            id_ok(s@) ==> (r matches Ok(id) && id@ == s@),
            !id_ok(s@) ==> (r matches Err(e) && e@ == ErrorView::InvalidId(s@)),
    {
        Id::parse(s)
    }
}

/// Whether a variant is meant for a dark or a light background.
#[derive(Clone, Copy, Debug, PartialEq, Eq, Structural)]
pub enum Appearance {
    Dark,
    Light,
}

/// `[theme]` in `theme.toml`.
#[derive(Debug)]
pub struct ThemeMetadata {
    pub id: Id,
    pub name: String,
    pub description: String,
    pub repository: Option<String>,
    pub license: Option<String>,
    pub variants: Vec<Id>,
    /// Tool names to generate by default, in the order given. `None` means
    /// every tool the generator knows.
    pub tools: Option<Vec<String>>,
}

/// `[variant]` in a variant file.
#[derive(Debug)]
pub struct VariantMetadata {
    pub id: Id,
    pub name: String,
    pub appearance: Appearance,
    pub description: String,
}

/// `[base]`: the two colors every tool needs.
#[derive(Clone, Copy, Debug, PartialEq, Eq, Structural)]
pub struct Base {
    pub background: Rgb,
    pub foreground: Rgb,
}

/// The `base` section as references see it.
pub open spec fn base_map(b: Base) -> Map<Seq<char>, Rgb> {
    Map::empty().insert("background"@, b.background).insert("foreground"@, b.foreground)
}

/// `base.background` and `base.foreground` read their own fields, and
/// `base` has no other key.
pub proof fn law_base_keys_read_their_fields(b: Base, k: Seq<char>)
    ensures
        lookup(base_map(b), "background"@) == Some(b.background),
        lookup(base_map(b), "foreground"@) == Some(b.foreground),
        k != "background"@ && k != "foreground"@ ==> lookup(base_map(b), k) is None,
{
    reveal_strlit("background");
    reveal_strlit("foreground");
    assert("background"@[0] != "foreground"@[0]);
}

impl Base {
    /// The table `base.background` and `base.foreground` are looked up in.
    pub fn to_table(&self) -> (t: Table)
        ensures
            t@ == base_map(*self),
    {
        let mut t = Table::new();
        t.insert(string_from("background"), self.background);
        t.insert(string_from("foreground"), self.foreground);
        t
    }
}

#[derive(Clone, Copy, Debug, PartialEq, Eq, Structural)]
pub struct Ui {
    pub surface: Rgb,
    pub sunken: Rgb,
    pub raised: Rgb,
    pub inset: Rgb,
    pub border: Rgb,
    pub muted: Rgb,
    pub accent: Rgb,
    pub accent_secondary: Rgb,
    pub on_accent: Rgb,
    pub selection_bg: Rgb,
    pub selection_fg: Rgb,
    pub match_bg: Rgb,
    pub cursor: Rgb,
    pub cursor_text: Rgb,
    pub active_bg: Rgb,
    pub link: Rgb,
}

#[derive(Clone, Copy, Debug, PartialEq, Eq, Structural)]
pub struct Diagnostic {
    pub error: Rgb,
    pub warning: Rgb,
    pub info: Rgb,
    pub hint: Rgb,
    pub success: Rgb,
}

#[derive(Clone, Copy, Debug, PartialEq, Eq, Structural)]
pub struct Diff {
    pub added: Rgb,
    pub added_bg: Rgb,
    pub removed: Rgb,
    pub removed_bg: Rgb,
    pub changed: Rgb,
    pub moved: Rgb,
    pub conflict: Rgb,
    pub ours: Rgb,
    pub theirs: Rgb,
}

#[derive(Clone, Copy, Debug, PartialEq, Eq, Structural)]
pub struct Syntax {
    pub text: Rgb,
    pub comment: Rgb,
    pub keyword: Rgb,
    pub string: Rgb,
    pub character: Rgb,
    pub number: Rgb,
    pub constant: Rgb,
    pub type_: Rgb,
    pub function: Rgb,
    pub variable: Rgb,
    pub member: Rgb,
    pub builtin: Rgb,
    pub namespace: Rgb,
    pub attribute: Rgb,
    pub label: Rgb,
    pub tag: Rgb,
    pub punctuation_special: Rgb,
    pub decorator: Rgb,
    pub macro_: Rgb,
    pub escape: Rgb,
    pub regexp: Rgb,
    pub path: Rgb,
    pub directory: Rgb,
}

#[derive(Clone, Copy, Debug, PartialEq, Eq, Structural)]
pub struct Markup {
    pub heading_1: Rgb,
    pub heading_2: Rgb,
    pub heading_3: Rgb,
    pub heading_4: Rgb,
    pub list: Rgb,
    pub raw: Rgb,
}

/// `[roles.*]`, resolved. Consumers only: nothing references a role.
#[derive(Clone, Copy, Debug)]
pub struct Roles {
    pub ui: Ui,
    pub diagnostic: Diagnostic,
    pub diff: Diff,
    pub syntax: Syntax,
    pub markup: Markup,
    pub series: [Rgb; 8],
}

/// One variant with every expression resolved. Carries no `colors`:
/// adapters never read pigments.
#[derive(Debug)]
pub struct ResolvedVariant {
    pub variant: VariantMetadata,
    pub base: Base,
    pub ansi: Ansi,
    pub roles: Roles,
}

/// `roles.series` must hold exactly eight colors.
pub fn series_from(v: Vec<Rgb>) -> (r: Result<[Rgb; 8], Error>)
    ensures
        v@.len() == 8 ==> (r matches Ok(a) && a@ == v@),
        v@.len() != 8 ==> (r matches Err(e) && e@ == ErrorView::SeriesLength(v@.len())),
{
    if v.len() == 8 {
        let a = [v[0], v[1], v[2], v[3], v[4], v[5], v[6], v[7]];
        assert(a@ =~= v@);
        Ok(a)
    } else {
        Err(Error::SeriesLength(v.len()))
    }
}

/// A value of the `[colors]` table, as written.
#[derive(Debug)]
pub enum ColorsValue {
    /// A nested table, entries in the order the file's table yields them.
    Table(Vec<(String, ColorsValue)>),
    /// A string, with the TOML text it is written as.
    Text { text: String, written: String },
    /// Any other value, by the TOML text it is written as.
    Other(String),
}

/// `prefix.key`, or `key` at the top.
pub open spec fn dotted(prefix: Seq<char>, key: Seq<char>) -> Seq<char> {
    if prefix.len() == 0 {
        key
    } else {
        prefix + "."@ + key
    }
}

/// `flatten_colors` over a list of entries: each string is a hex literal
/// stored under its dotted key; the first other value is the error.
pub open spec fn flatten_entries_spec(
    prefix: Seq<char>,
    es: Seq<(String, ColorsValue)>,
    m: Map<Seq<char>, Rgb>,
) -> Result<Map<Seq<char>, Rgb>, ErrorView>
    decreases es,
{
    if es.len() == 0 {
        Ok(m)
    } else {
        match flatten_value_spec(prefix, es[0].0@, es[0].1, m) {
            Err(e) => Err(e),
            Ok(m2) => flatten_entries_spec(prefix, es.drop_first(), m2),
        }
    }
}

/// `flatten_colors` on one entry.
pub open spec fn flatten_value_spec(
    prefix: Seq<char>,
    key: Seq<char>,
    v: ColorsValue,
    m: Map<Seq<char>, Rgb>,
) -> Result<Map<Seq<char>, Rgb>, ErrorView>
    decreases v,
{
    let d = dotted(prefix, key);
    match v {
        ColorsValue::Table(sub) => flatten_entries_spec(d, sub@, m),
        ColorsValue::Text { text, written } => match parse_rgb_spec(text@) {
            Some(c) => Ok(m.insert(d, c)),
            None => Err(ErrorView::ExpectedHexLiteral { key: "colors."@ + d, value: written@ }),
        },
        ColorsValue::Other(written) => Err(
            ErrorView::ExpectedHexLiteral { key: "colors."@ + d, value: written@ },
        ),
    }
}

/// Whether every leaf of a list of `[colors]` entries is a hex string.
pub open spec fn entries_hex(es: Seq<(String, ColorsValue)>) -> bool
    decreases es,
{
    if es.len() == 0 {
        true
    } else {
        value_hex(es[0].1) && entries_hex(es.drop_first())
    }
}

/// Whether every leaf of a `[colors]` value is a hex string.
pub open spec fn value_hex(v: ColorsValue) -> bool
    decreases v,
{
    match v {
        ColorsValue::Table(sub) => entries_hex(sub@),
        ColorsValue::Text { text, written: _ } => parse_rgb_spec(text@) is Some,
        ColorsValue::Other(_) => false,
    }
}

/// Flattening `[colors]` succeeds exactly when every leaf is a hex string,
/// whatever was stored before.
pub proof fn law_flatten_ok_iff_all_hex(prefix: Seq<char>, es: Seq<(String, ColorsValue)>, m: Map<Seq<char>, Rgb>)
    ensures
        flatten_entries_spec(prefix, es, m) is Ok <==> entries_hex(es),
    decreases es,
{
    if es.len() > 0 {
        assert(decreases_to!(es => es[0].1)) by {
            assert(decreases_to!(es => es[0]));
        };
        lemma_flatten_value_ok(prefix, es[0].0@, es[0].1, m);
        match flatten_value_spec(prefix, es[0].0@, es[0].1, m) {
            Ok(m2) => law_flatten_ok_iff_all_hex(prefix, es.drop_first(), m2),
            Err(_) => {},
        }
    }
}

proof fn lemma_flatten_value_ok(prefix: Seq<char>, key: Seq<char>, v: ColorsValue, m: Map<Seq<char>, Rgb>)
    ensures
        flatten_value_spec(prefix, key, v, m) is Ok <==> value_hex(v),
    decreases v,
{
    match v {
        ColorsValue::Table(sub) => {
            assert(decreases_to!(v => sub@));
            law_flatten_ok_iff_all_hex(dotted(prefix, key), sub@, m);
        },
        _ => {},
    }
}

/// A hex string in `[colors]` is stored under its dotted key, over what
/// was there.
pub proof fn law_flatten_stores_a_leaf_under_its_dotted_key(
    prefix: Seq<char>,
    key: Seq<char>,
    text: String,
    written: String,
    m: Map<Seq<char>, Rgb>,
)
    requires
        parse_rgb_spec(text@) is Some,
    ensures
        flatten_value_spec(prefix, key, ColorsValue::Text { text, written }, m) == Ok::<
            Map<Seq<char>, Rgb>,
            ErrorView,
        >(m.insert(dotted(prefix, key), parse_rgb_spec(text@)->0)),
{
}

/// A nested table in `[colors]` stores its entries below the table's own
/// dotted key: `prefix.key.<entry>`, never below `key` or `prefix` alone.
pub proof fn law_flatten_nests_under_the_table_key(
    prefix: Seq<char>,
    key: Seq<char>,
    sub: Vec<(String, ColorsValue)>,
    m: Map<Seq<char>, Rgb>,
)
    ensures
        flatten_value_spec(prefix, key, ColorsValue::Table(sub), m) == flatten_entries_spec(
            dotted(prefix, key),
            sub@,
            m,
        ),
{
}

/// `[colors.a.b]` holding `c = "<hex>"`, alone in `[colors]`, flattens to
/// the single key `a.b.c` holding that color (for non-empty table names
/// `a` and `b`; an empty name adds no dot).
pub proof fn law_flatten_nested_path(
    es: Seq<(String, ColorsValue)>,
    sub: Vec<(String, ColorsValue)>,
    subsub: Vec<(String, ColorsValue)>,
    text: String,
    written: String,
)
    requires
        es.len() == 1,
        es[0].0@.len() > 0,
        es[0].1 == ColorsValue::Table(sub),
        sub@.len() == 1,
        sub@[0].0@.len() > 0,
        sub@[0].1 == ColorsValue::Table(subsub),
        subsub@.len() == 1,
        subsub@[0].1 == (ColorsValue::Text { text, written }),
        parse_rgb_spec(text@) is Some,
    ensures
        flatten_entries_spec(Seq::empty(), es, Map::empty()) == Ok::<Map<Seq<char>, Rgb>, ErrorView>(
            Map::empty().insert(
                es[0].0@ + "."@ + sub@[0].0@ + "."@ + subsub@[0].0@,
                parse_rgb_spec(text@)->0,
            ),
        ),
{
    let a = es[0].0@;
    let b = sub@[0].0@;
    let c = subsub@[0].0@;
    let e = Seq::<char>::empty();
    let m0 = Map::<Seq<char>, Rgb>::empty();
    let ab = a + "."@ + b;
    let key = ab + "."@ + c;
    assert(dotted(e, a) == a);
    assert(dotted(a, b) == ab);
    assert(ab.len() > 0);
    assert(dotted(ab, c) == key);
    let m1 = m0.insert(key, parse_rgb_spec(text@)->0);
    let none = Seq::<(String, ColorsValue)>::empty();
    assert(flatten_value_spec(ab, c, subsub@[0].1, m0) == Ok::<Map<Seq<char>, Rgb>, ErrorView>(m1));
    assert(subsub@.drop_first() =~= none);
    assert(flatten_entries_spec(ab, subsub@.drop_first(), m1) == Ok::<Map<Seq<char>, Rgb>, ErrorView>(m1));
    assert(flatten_entries_spec(ab, subsub@, m0) == Ok::<Map<Seq<char>, Rgb>, ErrorView>(m1));
    assert(flatten_value_spec(a, b, sub@[0].1, m0) == Ok::<Map<Seq<char>, Rgb>, ErrorView>(m1));
    assert(sub@.drop_first() =~= none);
    assert(flatten_entries_spec(a, sub@.drop_first(), m1) == Ok::<Map<Seq<char>, Rgb>, ErrorView>(m1));
    assert(flatten_entries_spec(a, sub@, m0) == Ok::<Map<Seq<char>, Rgb>, ErrorView>(m1));
    assert(flatten_value_spec(e, a, es[0].1, m0) == Ok::<Map<Seq<char>, Rgb>, ErrorView>(m1));
    assert(es.drop_first() =~= none);
    assert(flatten_entries_spec(e, es.drop_first(), m1) == Ok::<Map<Seq<char>, Rgb>, ErrorView>(m1));
}

fn dotted_key(prefix: &String, key: &String) -> (d: String)
    ensures
        d@ == dotted(prefix@, key@),
{
    if prefix.as_str().unicode_len() == 0 {
        key.clone()
    } else {
        let mut d = string_from(prefix.as_str());
        push_str(&mut d, ".");
        push_str(&mut d, key.as_str());
        d
    }
}

fn flatten_into(prefix: &String, entries: &Vec<(String, ColorsValue)>, out: &mut Table) -> (r: Result<(), Error>)
    ensures
        match flatten_entries_spec(prefix@, entries@, old(out)@) {
            Ok(m) => r is Ok && final(out)@ == m,
            Err(e) => r matches Err(x) && x@ == e,
        },
    decreases entries@,
{
    let ghost es = entries@;
    let mut i: usize = 0;
    assert(es.skip(0) =~= es);
    while i < entries.len()
        invariant
            es == entries@,
            i <= es.len(),
            flatten_entries_spec(prefix@, es, old(out)@) == flatten_entries_spec(prefix@, es.skip(i as int), out@),
        decreases es.len() - i,
    {
        let ghost tail = es.skip(i as int);
        assert(tail[0] == es[i as int]);
        assert(tail.drop_first() == es.skip(i + 1));
        let (key, value) = &entries[i];
        let d = dotted_key(prefix, key);
        assert(flatten_entries_spec(prefix@, tail, out@) == match flatten_value_spec(prefix@, key@, *value, out@) {
            Err(e) => Err(e),
            Ok(m2) => flatten_entries_spec(prefix@, es.skip(i + 1), m2),
        });
        match value {
            ColorsValue::Table(sub) => {
                assert(decreases_to!(entries@ => sub@)) by {
                    assert(decreases_to!(entries@ => entries@[i as int]));
                    assert(decreases_to!(entries@[i as int] => entries@[i as int].1));
                };
                match flatten_into(&d, sub, out) {
                    Ok(()) => {},
                    Err(e) => {
                        return Err(e);
                    },
                }
            },
            ColorsValue::Text { text, written } => {
                match Rgb::parse(text.as_str()) {
                    Ok(c) => {
                        out.insert(d, c);
                    },
                    Err(_) => {
                        let mut k = string_from("colors.");
                        push_str(&mut k, d.as_str());
                        return Err(Error::ExpectedHexLiteral { key: k, value: written.clone() });
                    },
                }
            },
            ColorsValue::Other(written) => {
                let mut k = string_from("colors.");
                push_str(&mut k, d.as_str());
                return Err(Error::ExpectedHexLiteral { key: k, value: written.clone() });
            },
        }
        i = i + 1;
    }
    assert(es.skip(i as int) =~= Seq::<(String, ColorsValue)>::empty());
    Ok(())
}

/// Walks `[colors]` into the dotted keys (`lantern.mid`) that references
/// look up. The first value that is not a hex literal is the error, named
/// by its key (`colors.lantern.mid`).
pub fn flatten_colors(entries: &Vec<(String, ColorsValue)>) -> (r: Result<Table, Error>)
    ensures
        match flatten_entries_spec(Seq::empty(), entries@, Map::empty()) {
            Ok(m) => r matches Ok(t) && t@ == m,
            Err(e) => r matches Err(x) && x@ == e,
        },
{
    let mut t = Table::new();
    let prefix = String::new();
    match flatten_into(&prefix, entries, &mut t) {
        Ok(()) => Ok(t),
        Err(e) => Err(e),
    }
}

} // verus!
