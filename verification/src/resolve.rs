//! Resolving the references of color expressions, in the theme model's
//! stages.
//!
//! References are replaced by what they name: a `colors.*` or `base.*`
//! reference by its color, an `ansi.*` reference by the resolved tree of
//! that slot. The color functions are applied afterwards by the caller,
//! which evaluates each tree; since evaluation is a function of the tree, a
//! slot's tree stands for the color it evaluates to.
//!
//! The stages: the normal ANSI slots see `colors` and `base`; the bright
//! slots also see the normal slots; everything after that (roles, layers,
//! state, semantic) also sees the bright slots, as `ansi.bright.*`.
use vstd::prelude::*;
use crate::ansi::{lemma_slot_names_shape, slot_name_list, slot_names};
use crate::palette::{colors_map, Colors};
use crate::theme::{base_map, flatten_colors, flatten_entries_spec, Base, ColorsValue};
use crate::color::Rgb;
use crate::error::{Error, ErrorView};
use crate::expr::{section_name, ColorExpr, ExprView, Section};
use crate::table::{lookup, Table};
use crate::text::{push_str, string_from};

verus! {

/// A color expression whose references have been replaced by the colors
/// they name. The color functions are left for the caller to apply.
#[derive(Debug)]
pub enum ResolvedExpr {
    Color(Rgb),
    Lighten(Box<ResolvedExpr>, String),
    Darken(Box<ResolvedExpr>, String),
    Brighten(Box<ResolvedExpr>, String),
    Mix(Box<ResolvedExpr>, Box<ResolvedExpr>, String),
}

/// [`ResolvedExpr`] with each factor taken by its characters.
pub enum ResolvedView {
    Color(Rgb),
    Lighten(Box<ResolvedView>, Seq<char>),
    Darken(Box<ResolvedView>, Seq<char>),
    Brighten(Box<ResolvedView>, Seq<char>),
    Mix(Box<ResolvedView>, Box<ResolvedView>, Seq<char>),
}

pub open spec fn resolved_view(e: ResolvedExpr) -> ResolvedView
    decreases e,
{
    match e {
        ResolvedExpr::Color(c) => ResolvedView::Color(c),
        ResolvedExpr::Lighten(x, f) => ResolvedView::Lighten(Box::new(resolved_view(*x)), f@),
        ResolvedExpr::Darken(x, f) => ResolvedView::Darken(Box::new(resolved_view(*x)), f@),
        ResolvedExpr::Brighten(x, f) => ResolvedView::Brighten(Box::new(resolved_view(*x)), f@),
        ResolvedExpr::Mix(x, y, f) => ResolvedView::Mix(
            Box::new(resolved_view(*x)),
            Box::new(resolved_view(*y)),
            f@,
        ),
    }
}

impl View for ResolvedExpr {
    type V = ResolvedView;

    open spec fn view(&self) -> ResolvedView {
        resolved_view(*self)
    }
}

impl ResolvedExpr {
    /// A copy of this tree.
    pub fn duplicate(&self) -> (r: ResolvedExpr)
        ensures
            r@ == self@,
        decreases self,
    {
        match self {
            ResolvedExpr::Color(c) => ResolvedExpr::Color(*c),
            ResolvedExpr::Lighten(x, f) => ResolvedExpr::Lighten(Box::new(x.duplicate()), f.clone()),
            ResolvedExpr::Darken(x, f) => ResolvedExpr::Darken(Box::new(x.duplicate()), f.clone()),
            ResolvedExpr::Brighten(x, f) => ResolvedExpr::Brighten(Box::new(x.duplicate()), f.clone()),
            ResolvedExpr::Mix(x, y, f) => ResolvedExpr::Mix(
                Box::new(x.duplicate()),
                Box::new(y.duplicate()),
                f.clone(),
            ),
        }
    }
}

/// `Some(m[k])` when `m` has `k`.
pub open spec fn tree_lookup(m: Map<Seq<char>, ResolvedView>, k: Seq<char>) -> Option<ResolvedView> {
    if m.dom().contains(k) {
        Some(m[k])
    } else {
        None
    }
}

/// The map a list of slot entries denotes: later entries win.
pub open spec fn slot_entries_map(s: Seq<(String, ResolvedExpr)>) -> Map<Seq<char>, ResolvedView>
    decreases s.len(),
{
    if s.len() == 0 {
        Map::empty()
    } else {
        slot_entries_map(s.drop_last()).insert(s.last().0@, s.last().1@)
    }
}

proof fn lemma_slot_entries_tail(s: Seq<(String, ResolvedExpr)>, i: int, k: Seq<char>)
    requires
        0 <= i <= s.len(),
        forall|j: int| i <= j < s.len() ==> (#[trigger] s[j]).0@ != k,
    ensures
        tree_lookup(slot_entries_map(s), k) == tree_lookup(slot_entries_map(s.take(i)), k),
    decreases s.len() - i,
{
    if i < s.len() {
        let d = s.drop_last();
        assert forall|j: int| i <= j < d.len() implies (#[trigger] d[j]).0@ != k by {
            assert(d[j] == s[j]);
        }
        lemma_slot_entries_tail(d, i, k);
        assert(d.take(i) == s.take(i));
        assert(s.last() == s[s.len() - 1]);
    } else {
        assert(s.take(i) == s);
    }
}

/// The resolved trees of ANSI slots, by name (`red`, `bright.red`).
#[derive(Debug)]
pub struct SlotTable {
    entries: Vec<(String, ResolvedExpr)>,
}

impl View for SlotTable {
    type V = Map<Seq<char>, ResolvedView>;

    closed spec fn view(&self) -> Map<Seq<char>, ResolvedView> {
        slot_entries_map(self.entries@)
    }
}

impl SlotTable {
    pub fn new() -> (t: SlotTable)
        ensures
            t@ == Map::<Seq<char>, ResolvedView>::empty(),
    {
        SlotTable { entries: Vec::new() }
    }

    /// Sets `key` to `tree`, replacing any earlier tree of `key`.
    pub fn insert(&mut self, key: String, tree: ResolvedExpr)
        ensures
            final(self)@ == old(self)@.insert(key@, tree@),
    {
        self.entries.push((key, tree));
        proof {
            assert(self.entries@.drop_last() == old(self).entries@);
        }
    }

    /// The tree of `key`, if any.
    pub fn get(&self, key: &String) -> (r: Option<&ResolvedExpr>)
        ensures
            match r {
                Some(x) => tree_lookup(self@, key@) == Some(x@),
                None => tree_lookup(self@, key@) is None,
            },
    {
        let ghost s = self.entries@;
        let mut i = self.entries.len();
        while i > 0
            invariant
                i <= s.len(),
                s == self.entries@,
                forall|j: int| i <= j < s.len() ==> (#[trigger] s[j]).0@ != key@,
            decreases i,
        {
            if self.entries[i - 1].0 == *key {
                proof {
                    lemma_slot_entries_tail(s, i as int, key@);
                    assert(s.take(i as int).drop_last() == s.take(i - 1));
                    assert(s.take(i as int).last() == s[i - 1]);
                }
                return Some(&self.entries[i - 1].1);
            }
            i = i - 1;
        }
        proof {
            lemma_slot_entries_tail(s, 0, key@);
            assert(s.take(0) == Seq::<(String, ResolvedExpr)>::empty());
        }
        None
    }
}

/// A slot tree stored under a key reads back as that tree; other keys keep
/// what they had.
pub proof fn law_slot_table_reads_back_writes(
    m: Map<Seq<char>, ResolvedView>,
    k: Seq<char>,
    t: ResolvedView,
    other: Seq<char>,
)
    ensures
        tree_lookup(m.insert(k, t), k) == Some(t),
        other != k ==> tree_lookup(m.insert(k, t), other) == tree_lookup(m, other),
{
}

/// What references can see: `colors`, `base`, and `ansi` once it exists.
pub struct Scope {
    pub colors: Map<Seq<char>, Rgb>,
    pub base: Map<Seq<char>, Rgb>,
    pub ansi: Option<Map<Seq<char>, ResolvedView>>,
}

/// Looks references up. `ansi` is `None` while the ANSI slots themselves are
/// being resolved, so that they cannot reference each other.
pub struct Resolver<'a> {
    pub colors: &'a Table,
    pub base: &'a Table,
    pub ansi: Option<&'a SlotTable>,
}

impl<'a> Resolver<'a> {
    pub open spec fn scope(&self) -> Scope {
        Scope {
            colors: self.colors@,
            base: self.base@,
            ansi: match self.ansi {
                Some(t) => Some(t@),
                None => None,
            },
        }
    }
}

/// What `section.key` names in `sc`, or `UnresolvedRef("section.key")`.
pub open spec fn resolve_ref_spec(sc: Scope, section: Section, key: Seq<char>) -> Result<
    ResolvedView,
    ErrorView,
> {
    let found = match section {
        Section::Colors => match lookup(sc.colors, key) {
            Some(c) => Some(ResolvedView::Color(c)),
            None => None,
        },
        Section::Base => match lookup(sc.base, key) {
            Some(c) => Some(ResolvedView::Color(c)),
            None => None,
        },
        Section::Ansi => match sc.ansi {
            Some(m) => tree_lookup(m, key),
            None => None,
        },
    };
    match found {
        Some(c) => Ok(c),
        None => Err(ErrorView::UnresolvedRef(section_name(section) + "."@ + key)),
    }
}

/// Resolves every reference of `e`, innermost and leftmost first; the first
/// reference that names nothing is the error.
pub open spec fn resolve_spec(sc: Scope, e: ExprView) -> Result<ResolvedView, ErrorView>
    decreases e,
{
    match e {
        ExprView::Literal(c) => Ok(ResolvedView::Color(c)),
        ExprView::Ref(section, key) => resolve_ref_spec(sc, section, key),
        ExprView::Lighten(x, f) => match resolve_spec(sc, *x) {
            Ok(r) => Ok(ResolvedView::Lighten(Box::new(r), f)),
            Err(err) => Err(err),
        },
        ExprView::Darken(x, f) => match resolve_spec(sc, *x) {
            Ok(r) => Ok(ResolvedView::Darken(Box::new(r), f)),
            Err(err) => Err(err),
        },
        ExprView::Brighten(x, f) => match resolve_spec(sc, *x) {
            Ok(r) => Ok(ResolvedView::Brighten(Box::new(r), f)),
            Err(err) => Err(err),
        },
        ExprView::Mix(x, y, f) => match resolve_spec(sc, *x) {
            Err(err) => Err(err),
            Ok(rx) => match resolve_spec(sc, *y) {
                Err(err) => Err(err),
                Ok(ry) => Ok(ResolvedView::Mix(Box::new(rx), Box::new(ry), f)),
            },
        },
    }
}

pub open spec fn resolved_result_view(r: Result<ResolvedExpr, Error>) -> Result<
    ResolvedView,
    ErrorView,
> {
    match r {
        Ok(e) => Ok(e@),
        Err(e) => Err(e@),
    }
}

impl<'a> Resolver<'a> {
    /// What `section.key` names.
    pub fn resolve_ref(&self, section: Section, key: &String) -> (r: Result<ResolvedExpr, Error>)
        ensures
            resolved_result_view(r) == resolve_ref_spec(self.scope(), section, key@),
    {
        let found: Option<ResolvedExpr> = match section {
            Section::Colors => match self.colors.get(key) {
                Some(c) => Some(ResolvedExpr::Color(c)),
                None => None,
            },
            Section::Base => match self.base.get(key) {
                Some(c) => Some(ResolvedExpr::Color(c)),
                None => None,
            },
            Section::Ansi => match self.ansi {
                Some(t) => match t.get(key) {
                    Some(x) => Some(x.duplicate()),
                    None => None,
                },
                None => None,
            },
        };
        match found {
            Some(c) => Ok(c),
            None => {
                let mut m = string_from(section.as_str());
                push_str(&mut m, ".");
                push_str(&mut m, key.as_str());
                Err(Error::UnresolvedRef(m))
            },
        }
    }
}

/// Replaces every reference of `expr` by the color it names.
pub fn resolve_refs(resolver: &Resolver, expr: &ColorExpr) -> (r: Result<ResolvedExpr, Error>)
    ensures
        resolved_result_view(r) == resolve_spec(resolver.scope(), expr@),
    decreases expr,
{
    match expr {
        ColorExpr::Literal(c) => Ok(ResolvedExpr::Color(*c)),
        ColorExpr::Ref { section, key } => resolver.resolve_ref(*section, key),
        ColorExpr::Lighten(x, f) => match resolve_refs(resolver, x) {
            Ok(r) => Ok(ResolvedExpr::Lighten(Box::new(r), f.clone())),
            Err(e) => Err(e),
        },
        ColorExpr::Darken(x, f) => match resolve_refs(resolver, x) {
            Ok(r) => Ok(ResolvedExpr::Darken(Box::new(r), f.clone())),
            Err(e) => Err(e),
        },
        ColorExpr::Brighten(x, f) => match resolve_refs(resolver, x) {
            Ok(r) => Ok(ResolvedExpr::Brighten(Box::new(r), f.clone())),
            Err(e) => Err(e),
        },
        ColorExpr::Mix(x, y, f) => match resolve_refs(resolver, x) {
            Err(e) => Err(e),
            Ok(rx) => match resolve_refs(resolver, y) {
                Err(e) => Err(e),
                Ok(ry) => Ok(ResolvedExpr::Mix(Box::new(rx), Box::new(ry), f.clone())),
            },
        },
    }
}

/// Whether a resolved tree has the shape of an expression: each literal is
/// that color, each function node is the same function with the same
/// factor over resolved operands, and a reference may be any tree.
pub open spec fn keeps_shape(e: ExprView, r: ResolvedView) -> bool
    decreases e,
{
    match (e, r) {
        (ExprView::Literal(c), ResolvedView::Color(d)) => c == d,
        (ExprView::Ref(_, _), _) => true,
        (ExprView::Lighten(x, f), ResolvedView::Lighten(y, g)) => f == g && keeps_shape(*x, *y),
        (ExprView::Darken(x, f), ResolvedView::Darken(y, g)) => f == g && keeps_shape(*x, *y),
        (ExprView::Brighten(x, f), ResolvedView::Brighten(y, g)) => f == g && keeps_shape(*x, *y),
        (ExprView::Mix(x1, x2, f), ResolvedView::Mix(y1, y2, g)) => f == g && keeps_shape(*x1, *y1)
            && keeps_shape(*x2, *y2),
        _ => false,
    }
}

/// Resolution replaces references and nothing else: what an expression
/// resolves to has its shape, with every function and factor in place.
pub proof fn law_resolution_keeps_functions(sc: Scope, e: ExprView)
    ensures
        resolve_spec(sc, e) matches Ok(r) ==> keeps_shape(e, r),
    decreases e,
{
    match e {
        ExprView::Lighten(x, _) => law_resolution_keeps_functions(sc, *x),
        ExprView::Darken(x, _) => law_resolution_keeps_functions(sc, *x),
        ExprView::Brighten(x, _) => law_resolution_keeps_functions(sc, *x),
        ExprView::Mix(x, y, _) => {
            law_resolution_keeps_functions(sc, *x);
            law_resolution_keeps_functions(sc, *y);
        },
        _ => {},
    }
}

/// A function node resolves to the same function over its resolved
/// operands, with its factor; an operand that fails is the error (the first
/// operand before the second).
pub proof fn law_function_nodes_resolve_to_themselves(sc: Scope, x: ExprView, y: ExprView, f: Seq<char>)
    ensures
        resolve_spec(sc, ExprView::Lighten(Box::new(x), f)) == match resolve_spec(sc, x) {
            Ok(r) => Ok(ResolvedView::Lighten(Box::new(r), f)),
            Err(e) => Err(e),
        },
        resolve_spec(sc, ExprView::Darken(Box::new(x), f)) == match resolve_spec(sc, x) {
            Ok(r) => Ok(ResolvedView::Darken(Box::new(r), f)),
            Err(e) => Err(e),
        },
        resolve_spec(sc, ExprView::Brighten(Box::new(x), f)) == match resolve_spec(sc, x) {
            Ok(r) => Ok(ResolvedView::Brighten(Box::new(r), f)),
            Err(e) => Err(e),
        },
        resolve_spec(sc, ExprView::Mix(Box::new(x), Box::new(y), f)) == match resolve_spec(sc, x) {
            Err(e) => Err(e),
            Ok(rx) => match resolve_spec(sc, y) {
                Err(e) => Err(e),
                Ok(ry) => Ok(ResolvedView::Mix(Box::new(rx), Box::new(ry), f)),
            },
        },
{
}

/// Resolves a list of expressions in order; the first failure is the error.
pub open spec fn resolve_all_spec(sc: Scope, es: Seq<ExprView>) -> Result<
    Seq<ResolvedView>,
    ErrorView,
>
    decreases es.len(),
{
    if es.len() == 0 {
        Ok(Seq::empty())
    } else {
        match resolve_all_spec(sc, es.drop_last()) {
            Err(e) => Err(e),
            Ok(rs) => match resolve_spec(sc, es.last()) {
                Ok(r) => Ok(rs.push(r)),
                Err(e) => Err(e),
            },
        }
    }
}

proof fn lemma_resolve_all_err_sticks(sc: Scope, es: Seq<ExprView>, i: int)
    requires
        0 <= i <= es.len(),
        resolve_all_spec(sc, es.take(i)) is Err,
    ensures
        resolve_all_spec(sc, es) == resolve_all_spec(sc, es.take(i)),
    decreases es.len() - i,
{
    if i < es.len() {
        assert(es.drop_last().take(i) == es.take(i));
        lemma_resolve_all_err_sticks(sc, es.drop_last(), i);
    } else {
        assert(es.take(i) == es);
    }
}

pub open spec fn views_of(es: Seq<ColorExpr>) -> Seq<ExprView> {
    es.map_values(|e: ColorExpr| e@)
}

pub open spec fn resolved_views_of(rs: Seq<ResolvedExpr>) -> Seq<ResolvedView> {
    rs.map_values(|r: ResolvedExpr| r@)
}

/// Resolves each expression in turn, stopping at the first failure.
pub fn resolve_all(resolver: &Resolver, exprs: &Vec<ColorExpr>) -> (r: Result<
    Vec<ResolvedExpr>,
    Error,
>)
    ensures
        match resolve_all_spec(resolver.scope(), views_of(exprs@)) {
            Ok(rs) => r matches Ok(out) && resolved_views_of(out@) == rs,
            Err(e) => r matches Err(x) && x@ == e,
        },
{
    let ghost es = views_of(exprs@);
    let mut out: Vec<ResolvedExpr> = Vec::new();
    let mut i: usize = 0;
    assert(es.take(0) == Seq::<ExprView>::empty());
    assert(resolved_views_of(out@) == Seq::<ResolvedView>::empty());
    while i < exprs.len()
        invariant
            es == views_of(exprs@),
            i <= exprs@.len(),
            resolve_all_spec(resolver.scope(), es.take(i as int)) == Ok::<
                Seq<ResolvedView>,
                ErrorView,
            >(resolved_views_of(out@)),
        decreases exprs@.len() - i,
    {
        let ghost before = resolved_views_of(out@);
        assert(es.take(i + 1).drop_last() == es.take(i as int));
        assert(es.take(i + 1).last() == exprs@[i as int]@);
        match resolve_refs(resolver, &exprs[i]) {
            Ok(x) => {
                out.push(x);
                assert(resolved_views_of(out@) == before.push(out@.last()@));
            },
            Err(e) => {
                proof {
                    lemma_resolve_all_err_sticks(resolver.scope(), es, i + 1);
                }
                return Err(e);
            },
        }
        i = i + 1;
    }
    assert(es.take(i as int) == es);
    Ok(out)
}


/// Whether an expression names any section.
pub open spec fn refs_free(e: ExprView) -> bool
    decreases e,
{
    match e {
        ExprView::Literal(_) => true,
        ExprView::Ref(_, _) => false,
        ExprView::Lighten(x, _) => refs_free(*x),
        ExprView::Darken(x, _) => refs_free(*x),
        ExprView::Brighten(x, _) => refs_free(*x),
        ExprView::Mix(x, y, _) => refs_free(*x) && refs_free(*y),
    }
}

/// Whether an expression references `section`.
pub open spec fn mentions(e: ExprView, section: Section) -> bool
    decreases e,
{
    match e {
        ExprView::Literal(_) => false,
        ExprView::Ref(s, _) => s == section,
        ExprView::Lighten(x, _) => mentions(*x, section),
        ExprView::Darken(x, _) => mentions(*x, section),
        ExprView::Brighten(x, _) => mentions(*x, section),
        ExprView::Mix(x, y, _) => mentions(*x, section) || mentions(*y, section),
    }
}

/// An expression without references resolves, and to the same tree in
/// every scope.
pub proof fn law_reference_free_resolves_everywhere(a: Scope, b: Scope, e: ExprView)
    requires
        refs_free(e),
    ensures
        resolve_spec(a, e) is Ok,
        resolve_spec(a, e) == resolve_spec(b, e),
    decreases e,
{
    match e {
        ExprView::Literal(_) => {},
        ExprView::Ref(_, _) => {},
        ExprView::Lighten(x, _) => law_reference_free_resolves_everywhere(a, b, *x),
        ExprView::Darken(x, _) => law_reference_free_resolves_everywhere(a, b, *x),
        ExprView::Brighten(x, _) => law_reference_free_resolves_everywhere(a, b, *x),
        ExprView::Mix(x, y, _) => {
            law_reference_free_resolves_everywhere(a, b, *x);
            law_reference_free_resolves_everywhere(a, b, *y);
        },
    }
}

/// While the ANSI slots themselves resolve (no `ansi` table yet), any
/// expression that references `ansi` fails: slots cannot reference slots.
pub proof fn law_ansi_unreachable_before_it_exists(sc: Scope, e: ExprView)
    requires
        sc.ansi is None,
        mentions(e, Section::Ansi),
    ensures
        resolve_spec(sc, e) is Err,
    decreases e,
{
    match e {
        ExprView::Literal(_) => {},
        ExprView::Ref(_, _) => {},
        ExprView::Lighten(x, _) => law_ansi_unreachable_before_it_exists(sc, *x),
        ExprView::Darken(x, _) => law_ansi_unreachable_before_it_exists(sc, *x),
        ExprView::Brighten(x, _) => law_ansi_unreachable_before_it_exists(sc, *x),
        ExprView::Mix(x, y, _) => {
            if mentions(*x, Section::Ansi) {
                law_ansi_unreachable_before_it_exists(sc, *x);
            } else {
                if resolve_spec(sc, *x) is Ok {
                    law_ansi_unreachable_before_it_exists(sc, *y);
                }
            }
        },
    }
}

/// A reference resolves exactly when its section's table has the key, to
/// what is stored there; otherwise the error names `section.key`.
pub proof fn law_reference_reads_its_table(sc: Scope, section: Section, key: Seq<char>)
    ensures
        section == Section::Colors ==> resolve_spec(sc, ExprView::Ref(section, key)) == if sc.colors.dom().contains(key) {
            Ok::<ResolvedView, ErrorView>(ResolvedView::Color(sc.colors[key]))
        } else {
            Err(ErrorView::UnresolvedRef("colors"@ + "."@ + key))
        },
        section == Section::Base ==> resolve_spec(sc, ExprView::Ref(section, key)) == if sc.base.dom().contains(key) {
            Ok::<ResolvedView, ErrorView>(ResolvedView::Color(sc.base[key]))
        } else {
            Err(ErrorView::UnresolvedRef("base"@ + "."@ + key))
        },
        section == Section::Ansi ==> resolve_spec(sc, ExprView::Ref(section, key)) == match sc.ansi {
            Some(m) => if m.dom().contains(key) {
                Ok::<ResolvedView, ErrorView>(m[key])
            } else {
                Err(ErrorView::UnresolvedRef("ansi"@ + "."@ + key))
            },
            None => Err(ErrorView::UnresolvedRef("ansi"@ + "."@ + key)),
        },
{
}


proof fn lemma_resolve_all_len(sc: Scope, es: Seq<ExprView>)
    ensures
        resolve_all_spec(sc, es) matches Ok(rs) ==> rs.len() == es.len(),
    decreases es.len(),
{
    if es.len() > 0 {
        lemma_resolve_all_len(sc, es.drop_last());
    }
}

/// The first `n` slot trees stored under `prefix` + slot name.
pub open spec fn slots_into(
    m: Map<Seq<char>, ResolvedView>,
    prefix: Seq<char>,
    trees: Seq<ResolvedView>,
    n: int,
) -> Map<Seq<char>, ResolvedView>
    decreases n,
{
    if n <= 0 {
        m
    } else {
        slots_into(m, prefix, trees, n - 1).insert(prefix + slot_names()[n - 1], trees[n - 1])
    }
}

/// What stage 2 sees of `ansi`: each normal slot under its name.
pub open spec fn normal_slots(n: Seq<ResolvedView>) -> Map<Seq<char>, ResolvedView> {
    slots_into(Map::empty(), Seq::empty(), n, 8)
}

/// What stage 3 sees of `ansi`: the normal slots, and each bright slot as
/// `bright.<name>`.
pub open spec fn all_slots(n: Seq<ResolvedView>, b: Seq<ResolvedView>) -> Map<Seq<char>, ResolvedView> {
    slots_into(normal_slots(n), "bright."@, b, 8)
}

proof fn lemma_prefix_cancels(p: Seq<char>, x: Seq<char>, y: Seq<char>)
    requires
        p + x == p + y,
    ensures
        x == y,
{
    assert(x == (p + x).subrange(p.len() as int, (p + x).len() as int));
    assert(y == (p + y).subrange(p.len() as int, (p + y).len() as int));
}

proof fn lemma_slots_into_hit(
    m: Map<Seq<char>, ResolvedView>,
    p: Seq<char>,
    t: Seq<ResolvedView>,
    n: int,
    i: int,
)
    requires
        0 <= i < n <= 8,
    ensures
        tree_lookup(slots_into(m, p, t, n), p + slot_names()[i]) == Some(t[i]),
    decreases n,
{
    if i < n - 1 {
        lemma_slot_names_shape();
        if p + slot_names()[n - 1] == p + slot_names()[i] {
            lemma_prefix_cancels(p, slot_names()[n - 1], slot_names()[i]);
        }
        lemma_slots_into_hit(m, p, t, n - 1, i);
    }
}

proof fn lemma_slots_into_miss(
    m: Map<Seq<char>, ResolvedView>,
    p: Seq<char>,
    t: Seq<ResolvedView>,
    n: int,
    k: Seq<char>,
)
    requires
        n <= 8,
        forall|j: int| 0 <= j < n ==> k != p + #[trigger] slot_names()[j],
    ensures
        tree_lookup(slots_into(m, p, t, n), k) == tree_lookup(m, k),
    decreases n,
{
    if n > 0 {
        lemma_slots_into_miss(m, p, t, n - 1, k);
    }
}

/// The stages as later lookups see them: after stage 1, `ansi` holds each
/// normal slot under its name and no bright slot; after stage 2 it holds
/// the normal slots under their names and each bright slot under
/// `bright.<name>`.
pub proof fn law_ansi_stages(n: Seq<ResolvedView>, b: Seq<ResolvedView>, i: int)
    requires
        n.len() == 8,
        b.len() == 8,
        0 <= i < 8,
    ensures
        tree_lookup(normal_slots(n), slot_names()[i]) == Some(n[i]),
        tree_lookup(normal_slots(n), "bright."@ + slot_names()[i]) is None,
        tree_lookup(all_slots(n, b), slot_names()[i]) == Some(n[i]),
        tree_lookup(all_slots(n, b), "bright."@ + slot_names()[i]) == Some(b[i]),
{
    reveal_strlit("bright.");
    lemma_slot_names_shape();
    let e = Seq::<char>::empty();
    let br = "bright."@;
    assert(e + slot_names()[i] == slot_names()[i]);
    lemma_slots_into_hit(Map::empty(), e, n, 8, i);
    let k = br + slot_names()[i];
    assert forall|j: int| 0 <= j < 8 implies k != e + #[trigger] slot_names()[j] by {
        assert(e + slot_names()[j] == slot_names()[j]);
        assert(k.len() == 7 + slot_names()[i].len());
    }
    lemma_slots_into_miss(Map::empty(), e, n, 8, k);
    lemma_slots_into_hit(normal_slots(n), br, b, 8, i);
    let s = slot_names()[i];
    assert forall|j: int| 0 <= j < 8 implies s != br + #[trigger] slot_names()[j] by {
        assert((br + slot_names()[j]).len() == 7 + slot_names()[j].len());
    }
    lemma_slots_into_miss(normal_slots(n), br, b, 8, s);
}

proof fn lemma_slots_into_dom(
    m: Map<Seq<char>, ResolvedView>,
    p: Seq<char>,
    t: Seq<ResolvedView>,
    n: int,
    k: Seq<char>,
)
    requires
        0 <= n <= 8,
    ensures
        slots_into(m, p, t, n).dom().contains(k) <==> (m.dom().contains(k) || exists|j: int|
            0 <= j < n && k == p + #[trigger] slot_names()[j]),
    decreases n,
{
    if n > 0 {
        lemma_slots_into_dom(m, p, t, n - 1, k);
        if k == p + slot_names()[n - 1] {
            assert(0 <= n - 1 < n && k == p + slot_names()[n - 1]);
        }
        if exists|j: int| 0 <= j < n && k == p + #[trigger] slot_names()[j] {
            let j = choose|j: int| 0 <= j < n && k == p + #[trigger] slot_names()[j];
            if j < n - 1 {
                assert(0 <= j < n - 1 && k == p + slot_names()[j]);
            }
        }
    }
}

/// What the stages leave in `ansi`, and nothing else: after stage 1 the
/// eight slot names; after stage 2 those and the eight `bright.<name>`
/// keys.
pub proof fn law_ansi_tables_hold_exactly_the_slots(n: Seq<ResolvedView>, b: Seq<ResolvedView>, k: Seq<char>)
    requires
        n.len() == 8,
        b.len() == 8,
    ensures
        normal_slots(n).dom().contains(k) <==> exists|i: int| 0 <= i < 8 && k == #[trigger] slot_names()[i],
        all_slots(n, b).dom().contains(k) <==> exists|i: int|
            0 <= i < 8 && (k == #[trigger] slot_names()[i] || k == "bright."@ + slot_names()[i]),
{
    let e = Seq::<char>::empty();
    assert forall|i: int| 0 <= i < 8 implies e + #[trigger] slot_names()[i] == slot_names()[i] by {
        assert(e + slot_names()[i] =~= slot_names()[i]);
    }
    lemma_slots_into_dom(Map::empty(), e, n, 8, k);
    lemma_slots_into_dom(normal_slots(n), "bright."@, b, 8, k);
    if exists|i: int| 0 <= i < 8 && k == #[trigger] slot_names()[i] {
        let i = choose|i: int| 0 <= i < 8 && k == #[trigger] slot_names()[i];
        assert(k == e + slot_names()[i]);
    }
    if exists|i: int| 0 <= i < 8 && k == e + #[trigger] slot_names()[i] {
        let i = choose|i: int| 0 <= i < 8 && k == e + #[trigger] slot_names()[i];
        assert(k == slot_names()[i]);
    }
}

/// Read through the stages: while the bright slots resolve, `ansi.<name>`
/// is the normal slot's tree and `ansi.bright.<name>` names nothing; after
/// both stages, `ansi.<name>` and `ansi.bright.<name>` are the normal and
/// the bright slot's trees.
pub proof fn law_ansi_references_by_stage(
    colors: Map<Seq<char>, Rgb>,
    base: Map<Seq<char>, Rgb>,
    n: Seq<ResolvedView>,
    b: Seq<ResolvedView>,
    i: int,
)
    requires
        n.len() == 8,
        b.len() == 8,
        0 <= i < 8,
    ensures
        resolve_spec(
            Scope { colors, base, ansi: Some(normal_slots(n)) },
            ExprView::Ref(Section::Ansi, slot_names()[i]),
        ) == Ok::<ResolvedView, ErrorView>(n[i]),
        resolve_spec(
            Scope { colors, base, ansi: Some(normal_slots(n)) },
            ExprView::Ref(Section::Ansi, "bright."@ + slot_names()[i]),
        ) == Err::<ResolvedView, ErrorView>(
            ErrorView::UnresolvedRef("ansi"@ + "."@ + ("bright."@ + slot_names()[i])),
        ),
        resolve_spec(
            stage3_scope(colors, base, n, b),
            ExprView::Ref(Section::Ansi, slot_names()[i]),
        ) == Ok::<ResolvedView, ErrorView>(n[i]),
        resolve_spec(
            stage3_scope(colors, base, n, b),
            ExprView::Ref(Section::Ansi, "bright."@ + slot_names()[i]),
        ) == Ok::<ResolvedView, ErrorView>(b[i]),
{
    law_ansi_stages(n, b, i);
}

fn add_slots(t: &mut SlotTable, prefix: &str, trees: &Vec<ResolvedExpr>)
    requires
        trees@.len() == 8,
    ensures
        final(t)@ == slots_into(old(t)@, prefix@, resolved_views_of(trees@), 8),
{
    let names = slot_name_list();
    let ghost tv = resolved_views_of(trees@);
    let mut i: usize = 0;
    while i < 8
        invariant
            i <= 8,
            names@.len() == 8,
            trees@.len() == 8,
            tv == resolved_views_of(trees@),
            forall|j: int| 0 <= j < 8 ==> (#[trigger] names@[j])@ == slot_names()[j],
            t@ == slots_into(old(t)@, prefix@, tv, i as int),
        decreases 8 - i,
    {
        let mut key = string_from(prefix);
        push_str(&mut key, names[i]);
        t.insert(key, trees[i].duplicate());
        i = i + 1;
    }
}

/// Stages 1 and 2: the normal slots against `colors` and `base`, then the
/// bright slots against those and the normal slots.
pub open spec fn resolve_ansi_spec(
    colors: Map<Seq<char>, Rgb>,
    base: Map<Seq<char>, Rgb>,
    normal: Seq<ExprView>,
    bright: Seq<ExprView>,
) -> Result<(Seq<ResolvedView>, Seq<ResolvedView>), ErrorView> {
    match resolve_all_spec(Scope { colors, base, ansi: None }, normal) {
        Err(e) => Err(e),
        Ok(n) => match resolve_all_spec(Scope { colors, base, ansi: Some(normal_slots(n)) }, bright) {
            Err(e) => Err(e),
            Ok(b) => Ok((n, b)),
        },
    }
}

/// The resolved slots, and the table later stages look them up in.
#[derive(Debug)]
pub struct AnsiTrees {
    /// `black` … `white`, in terminal order.
    pub normal: Vec<ResolvedExpr>,
    /// `bright.black` … `bright.white`, in terminal order.
    pub bright: Vec<ResolvedExpr>,
    pub table: SlotTable,
}

/// Resolves the 16 slots (each list in terminal order) in stages 1 and 2.
pub fn resolve_ansi(colors: &Table, base: &Table, normal: &Vec<ColorExpr>, bright: &Vec<ColorExpr>) -> (r: Result<AnsiTrees, Error>)
    requires
        normal@.len() == 8,
        bright@.len() == 8,
    ensures
        match resolve_ansi_spec(colors@, base@, views_of(normal@), views_of(bright@)) {
            Ok((n, b)) => r matches Ok(t) && resolved_views_of(t.normal@) == n
                && resolved_views_of(t.bright@) == b && t.table@ == all_slots(n, b)
                && t.normal@.len() == 8 && t.bright@.len() == 8,
            Err(e) => r matches Err(x) && x@ == e,
        },
{
    let stage1 = Resolver { colors, base, ansi: None };
    let n = match resolve_all(&stage1, normal) {
        Ok(n) => n,
        Err(e) => {
            return Err(e);
        },
    };
    proof {
        lemma_resolve_all_len(stage1.scope(), views_of(normal@));
    }
    let mut table = SlotTable::new();
    add_slots(&mut table, "", &n);
    proof {
        reveal_strlit("");
        assert(""@ =~= Seq::<char>::empty());
    }
    let b = {
        let stage2 = Resolver { colors, base, ansi: Some(&table) };
        let b = match resolve_all(&stage2, bright) {
            Ok(b) => b,
            Err(e) => {
                return Err(e);
            },
        };
        proof {
            lemma_resolve_all_len(stage2.scope(), views_of(bright@));
        }
        b
    };
    add_slots(&mut table, "bright.", &b);
    Ok(AnsiTrees { normal: n, bright: b, table })
}

/// Sections resolved one after another; the first failure is the error.
pub open spec fn resolve_sections_spec(sc: Scope, secs: Seq<Seq<ExprView>>) -> Result<
    Seq<Seq<ResolvedView>>,
    ErrorView,
>
    decreases secs.len(),
{
    if secs.len() == 0 {
        Ok(Seq::empty())
    } else {
        match resolve_sections_spec(sc, secs.drop_last()) {
            Err(e) => Err(e),
            Ok(rs) => match resolve_all_spec(sc, secs.last()) {
                Ok(r) => Ok(rs.push(r)),
                Err(e) => Err(e),
            },
        }
    }
}

proof fn lemma_sections_err_sticks(sc: Scope, secs: Seq<Seq<ExprView>>, i: int)
    requires
        0 <= i <= secs.len(),
        resolve_sections_spec(sc, secs.take(i)) is Err,
    ensures
        resolve_sections_spec(sc, secs) == resolve_sections_spec(sc, secs.take(i)),
    decreases secs.len() - i,
{
    if i < secs.len() {
        assert(secs.drop_last().take(i) == secs.take(i));
        lemma_sections_err_sticks(sc, secs.drop_last(), i);
    } else {
        assert(secs.take(i) == secs);
    }
}

pub open spec fn section_views(secs: Seq<Vec<ColorExpr>>) -> Seq<Seq<ExprView>> {
    secs.map_values(|v: Vec<ColorExpr>| views_of(v@))
}

pub open spec fn resolved_section_views(rs: Seq<Vec<ResolvedExpr>>) -> Seq<Seq<ResolvedView>> {
    rs.map_values(|v: Vec<ResolvedExpr>| resolved_views_of(v@))
}

/// Resolves each section in turn (each in field order), stopping at the
/// first failure.
pub fn resolve_sections(resolver: &Resolver, sections: &Vec<Vec<ColorExpr>>) -> (r: Result<
    Vec<Vec<ResolvedExpr>>,
    Error,
>)
    ensures
        match resolve_sections_spec(resolver.scope(), section_views(sections@)) {
            Ok(rs) => r matches Ok(out) && resolved_section_views(out@) == rs,
            Err(e) => r matches Err(x) && x@ == e,
        },
{
    let ghost secs = section_views(sections@);
    let mut out: Vec<Vec<ResolvedExpr>> = Vec::new();
    let mut i: usize = 0;
    assert(secs.take(0) == Seq::<Seq<ExprView>>::empty());
    assert(resolved_section_views(out@) == Seq::<Seq<ResolvedView>>::empty());
    while i < sections.len()
        invariant
            secs == section_views(sections@),
            i <= sections@.len(),
            resolve_sections_spec(resolver.scope(), secs.take(i as int)) == Ok::<
                Seq<Seq<ResolvedView>>,
                ErrorView,
            >(resolved_section_views(out@)),
        decreases sections@.len() - i,
    {
        let ghost before = resolved_section_views(out@);
        assert(secs.take(i + 1).drop_last() == secs.take(i as int));
        assert(secs.take(i + 1).last() == views_of(sections@[i as int]@));
        match resolve_all(resolver, &sections[i]) {
            Ok(x) => {
                out.push(x);
                assert(resolved_section_views(out@) == before.push(resolved_views_of(out@.last()@)));
            },
            Err(e) => {
                proof {
                    lemma_sections_err_sticks(resolver.scope(), secs, i + 1);
                }
                return Err(e);
            },
        }
        i = i + 1;
    }
    assert(secs.take(i as int) == secs);
    Ok(out)
}

/// The scope of stage 3.
pub open spec fn stage3_scope(
    colors: Map<Seq<char>, Rgb>,
    base: Map<Seq<char>, Rgb>,
    n: Seq<ResolvedView>,
    b: Seq<ResolvedView>,
) -> Scope {
    Scope { colors, base, ansi: Some(all_slots(n, b)) }
}

/// One variant file: `[colors]` is flattened, the ANSI slots resolve in
/// stages 1 and 2, then `roles.series` (which must hold eight colors) and
/// the other role sections resolve in stage 3, in order.
pub open spec fn resolve_variant_spec(
    colors: Seq<(String, ColorsValue)>,
    base: Base,
    normal: Seq<ExprView>,
    bright: Seq<ExprView>,
    series: Seq<ExprView>,
    sections: Seq<Seq<ExprView>>,
) -> Result<
    (Seq<ResolvedView>, Seq<ResolvedView>, Seq<ResolvedView>, Seq<Seq<ResolvedView>>),
    ErrorView,
> {
    match flatten_entries_spec(Seq::empty(), colors, Map::empty()) {
        Err(e) => Err(e),
        Ok(cm) => match resolve_ansi_spec(cm, base_map(base), normal, bright) {
            Err(e) => Err(e),
            Ok((n, b)) => {
                let sc = stage3_scope(cm, base_map(base), n, b);
                match resolve_all_spec(sc, series) {
                    Err(e) => Err(e),
                    Ok(s) => if s.len() != 8 {
                        Err(ErrorView::SeriesLength(s.len()))
                    } else {
                        match resolve_sections_spec(sc, sections) {
                            Err(e) => Err(e),
                            Ok(ss) => Ok((n, b, s, ss)),
                        }
                    },
                }
            },
        },
    }
}

proof fn lemma_resolve_fails_only_unresolved(sc: Scope, e: ExprView)
    ensures
        resolve_spec(sc, e) matches Err(x) ==> x is UnresolvedRef,
    decreases e,
{
    match e {
        ExprView::Lighten(x, _) => lemma_resolve_fails_only_unresolved(sc, *x),
        ExprView::Darken(x, _) => lemma_resolve_fails_only_unresolved(sc, *x),
        ExprView::Brighten(x, _) => lemma_resolve_fails_only_unresolved(sc, *x),
        ExprView::Mix(x, y, _) => {
            lemma_resolve_fails_only_unresolved(sc, *x);
            lemma_resolve_fails_only_unresolved(sc, *y);
        },
        _ => {},
    }
}

proof fn lemma_resolve_all_fails_only_unresolved(sc: Scope, es: Seq<ExprView>)
    ensures
        resolve_all_spec(sc, es) matches Err(x) ==> x is UnresolvedRef,
    decreases es.len(),
{
    if es.len() > 0 {
        lemma_resolve_all_fails_only_unresolved(sc, es.drop_last());
        lemma_resolve_fails_only_unresolved(sc, es.last());
    }
}

proof fn lemma_sections_fail_only_unresolved(sc: Scope, secs: Seq<Seq<ExprView>>)
    ensures
        resolve_sections_spec(sc, secs) matches Err(x) ==> x is UnresolvedRef,
    decreases secs.len(),
{
    if secs.len() > 0 {
        lemma_sections_fail_only_unresolved(sc, secs.drop_last());
        lemma_resolve_all_fails_only_unresolved(sc, secs.last());
    }
}

/// When each expression of a list resolves, the list resolves to their
/// trees, in order.
pub proof fn law_resolve_all_in_order(sc: Scope, es: Seq<ExprView>)
    requires
        forall|i: int| 0 <= i < es.len() ==> (#[trigger] resolve_spec(sc, es[i])) is Ok,
    ensures
        resolve_all_spec(sc, es) matches Ok(rs) && rs.len() == es.len() && forall|i: int|
            0 <= i < es.len() ==> Ok::<ResolvedView, ErrorView>(#[trigger] rs[i]) == resolve_spec(sc, es[i]),
    decreases es.len(),
{
    if es.len() > 0 {
        let d = es.drop_last();
        assert forall|i: int| 0 <= i < d.len() implies (#[trigger] resolve_spec(sc, d[i])) is Ok by {
            assert(d[i] == es[i]);
        }
        law_resolve_all_in_order(sc, d);
        assert(resolve_spec(sc, es[es.len() - 1]) is Ok);
        let rs = resolve_all_spec(sc, d)->Ok_0;
        let r = resolve_spec(sc, es.last())->Ok_0;
        assert forall|i: int| 0 <= i < es.len() implies Ok::<ResolvedView, ErrorView>(#[trigger] rs.push(r)[i]) == resolve_spec(sc, es[i]) by {
            if i < d.len() {
                assert(d[i] == es[i]);
            }
        }
    }
}

/// `roles.series`: once `[colors]` and the ANSI slots resolve (to `cm`,
/// `n`, `b`) and every series entry resolves in stage 3, the variant fails
/// with `SeriesLength(len)` exactly when the series does not hold eight
/// entries; when it resolves, its series is the entries' trees in order.
pub proof fn law_series_length_decides(
    colors: Seq<(String, ColorsValue)>,
    base: Base,
    normal: Seq<ExprView>,
    bright: Seq<ExprView>,
    series: Seq<ExprView>,
    sections: Seq<Seq<ExprView>>,
    cm: Map<Seq<char>, Rgb>,
    n: Seq<ResolvedView>,
    b: Seq<ResolvedView>,
)
    requires
        flatten_entries_spec(Seq::empty(), colors, Map::empty()) == Ok::<Map<Seq<char>, Rgb>, ErrorView>(cm),
        resolve_ansi_spec(cm, base_map(base), normal, bright) == Ok::<(Seq<ResolvedView>, Seq<ResolvedView>), ErrorView>((n, b)),
        forall|i: int| 0 <= i < series.len() ==> (#[trigger] resolve_spec(stage3_scope(cm, base_map(base), n, b), series[i])) is Ok,
    ensures
        resolve_variant_spec(colors, base, normal, bright, series, sections) == Err::<
            (Seq<ResolvedView>, Seq<ResolvedView>, Seq<ResolvedView>, Seq<Seq<ResolvedView>>),
            ErrorView,
        >(ErrorView::SeriesLength(series.len())) <==> series.len() != 8,
        resolve_variant_spec(colors, base, normal, bright, series, sections) matches Ok(t) ==> t.2.len() == 8
            && forall|i: int| 0 <= i < 8 ==> Ok::<ResolvedView, ErrorView>(#[trigger] t.2[i]) == resolve_spec(
                stage3_scope(cm, base_map(base), n, b),
                series[i],
            ),
{
    let sc = stage3_scope(cm, base_map(base), n, b);
    law_resolve_all_in_order(sc, series);
    lemma_sections_fail_only_unresolved(sc, sections);
}

/// A list resolves entry by entry: when it resolves, its trees are those of
/// its expressions, in order and one each.
pub proof fn law_resolve_all_is_entrywise(sc: Scope, es: Seq<ExprView>)
    ensures
        resolve_all_spec(sc, es) matches Ok(rs) ==> rs.len() == es.len() && forall|i: int|
            0 <= i < es.len() ==> Ok::<ResolvedView, ErrorView>(#[trigger] rs[i]) == resolve_spec(sc, es[i]),
    decreases es.len(),
{
    if es.len() > 0 {
        let d = es.drop_last();
        law_resolve_all_is_entrywise(sc, d);
        if resolve_all_spec(sc, es) is Ok {
            let rs = resolve_all_spec(sc, d)->Ok_0;
            let r = resolve_spec(sc, es.last())->Ok_0;
            assert forall|i: int| 0 <= i < es.len() implies Ok::<ResolvedView, ErrorView>(#[trigger] rs.push(r)[i]) == resolve_spec(sc, es[i]) by {
                if i < d.len() {
                    assert(d[i] == es[i]);
                }
            }
        }
    }
}

/// Sections resolve section by section: when they resolve, each result is
/// its own section resolved, in order.
pub proof fn law_resolve_sections_is_sectionwise(sc: Scope, secs: Seq<Seq<ExprView>>)
    ensures
        resolve_sections_spec(sc, secs) matches Ok(rss) ==> rss.len() == secs.len() && forall|j: int|
            0 <= j < secs.len() ==> Ok::<Seq<ResolvedView>, ErrorView>(#[trigger] rss[j]) == resolve_all_spec(sc, secs[j]),
    decreases secs.len(),
{
    if secs.len() > 0 {
        let d = secs.drop_last();
        law_resolve_sections_is_sectionwise(sc, d);
        if resolve_sections_spec(sc, secs) is Ok {
            let rss = resolve_sections_spec(sc, d)->Ok_0;
            let r = resolve_all_spec(sc, secs.last())->Ok_0;
            assert forall|j: int| 0 <= j < secs.len() implies Ok::<Seq<ResolvedView>, ErrorView>(#[trigger] rss.push(r)[j]) == resolve_all_spec(sc, secs[j]) by {
                if j < d.len() {
                    assert(d[j] == secs[j]);
                }
            }
        }
    }
}

/// Stages 1 and 2 as a caller sees them: the normal slots are `normal`
/// resolved against `colors` and `base` alone, one tree per slot in order;
/// the bright slots are `bright` resolved against those and the normal
/// slots' table.
pub proof fn law_ansi_slots_are_their_own_stages(
    colors: Map<Seq<char>, Rgb>,
    base: Map<Seq<char>, Rgb>,
    normal: Seq<ExprView>,
    bright: Seq<ExprView>,
)
    ensures
        resolve_ansi_spec(colors, base, normal, bright) matches Ok((n, b)) ==> n.len() == normal.len()
            && b.len() == bright.len() && (forall|i: int|
            0 <= i < normal.len() ==> Ok::<ResolvedView, ErrorView>(#[trigger] n[i]) == resolve_spec(
                Scope { colors, base, ansi: None },
                normal[i],
            )) && (forall|i: int|
            0 <= i < bright.len() ==> Ok::<ResolvedView, ErrorView>(#[trigger] b[i]) == resolve_spec(
                Scope { colors, base, ansi: Some(normal_slots(n)) },
                bright[i],
            )),
{
    law_resolve_all_is_entrywise(Scope { colors, base, ansi: None }, normal);
    if resolve_ansi_spec(colors, base, normal, bright) is Ok {
        let n = resolve_all_spec(Scope { colors, base, ansi: None }, normal)->Ok_0;
        law_resolve_all_is_entrywise(Scope { colors, base, ansi: Some(normal_slots(n)) }, bright);
    }
}

/// A resolved variant, component by component: its normal slots are
/// `normal` in stage 1, its bright slots `bright` in stage 2, its series
/// `series` and its sections `sections` in stage 3, each entry resolved
/// against the flattened `[colors]` and `base`, in order.
pub proof fn law_variant_parts_are_their_own_stages(
    colors: Seq<(String, ColorsValue)>,
    base: Base,
    normal: Seq<ExprView>,
    bright: Seq<ExprView>,
    series: Seq<ExprView>,
    sections: Seq<Seq<ExprView>>,
)
    ensures
        resolve_variant_spec(colors, base, normal, bright, series, sections) matches Ok(t) ==> {
            let cm = flatten_entries_spec(Seq::empty(), colors, Map::empty())->Ok_0;
            let s1 = Scope { colors: cm, base: base_map(base), ansi: None };
            let s2 = Scope { colors: cm, base: base_map(base), ansi: Some(normal_slots(t.0)) };
            let s3 = Scope { colors: cm, base: base_map(base), ansi: Some(all_slots(t.0, t.1)) };
            &&& t.0.len() == normal.len()
            &&& forall|i: int| 0 <= i < normal.len() ==> Ok::<ResolvedView, ErrorView>(#[trigger] t.0[i]) == resolve_spec(s1, normal[i])
            &&& t.1.len() == bright.len()
            &&& forall|i: int| 0 <= i < bright.len() ==> Ok::<ResolvedView, ErrorView>(#[trigger] t.1[i]) == resolve_spec(s2, bright[i])
            &&& t.2.len() == series.len()
            &&& forall|i: int| 0 <= i < series.len() ==> Ok::<ResolvedView, ErrorView>(#[trigger] t.2[i]) == resolve_spec(s3, series[i])
            &&& t.3.len() == sections.len()
            &&& forall|j: int| 0 <= j < sections.len() ==> Ok::<Seq<ResolvedView>, ErrorView>(#[trigger] t.3[j]) == resolve_all_spec(s3, sections[j])
        },
{
    if resolve_variant_spec(colors, base, normal, bright, series, sections) is Ok {
        let cm = flatten_entries_spec(Seq::empty(), colors, Map::empty())->Ok_0;
        let bm = base_map(base);
        law_ansi_slots_are_their_own_stages(cm, bm, normal, bright);
        let nb = resolve_ansi_spec(cm, bm, normal, bright)->Ok_0;
        let s3 = stage3_scope(cm, bm, nb.0, nb.1);
        law_resolve_all_is_entrywise(s3, series);
        law_resolve_sections_is_sectionwise(s3, sections);
    }
}

/// A resolved palette, component by component: its normal and bright
/// slots are stages 1 and 2 of its ANSI expressions against its `colors`
/// and `base`, and its sections are stage 3 of each section, in order.
pub proof fn law_palette_parts_are_their_own_stages(
    colors: Colors,
    base: Base,
    normal: Seq<ExprView>,
    bright: Seq<ExprView>,
    sections: Seq<Seq<ExprView>>,
)
    ensures
        resolve_palette_spec(colors, base, normal, bright, sections) matches Ok(t) ==> {
            let s1 = Scope { colors: colors_map(colors), base: base_map(base), ansi: None };
            let s2 = Scope { colors: colors_map(colors), base: base_map(base), ansi: Some(normal_slots(t.0)) };
            let s3 = Scope { colors: colors_map(colors), base: base_map(base), ansi: Some(all_slots(t.0, t.1)) };
            &&& t.0.len() == normal.len()
            &&& forall|i: int| 0 <= i < normal.len() ==> Ok::<ResolvedView, ErrorView>(#[trigger] t.0[i]) == resolve_spec(s1, normal[i])
            &&& t.1.len() == bright.len()
            &&& forall|i: int| 0 <= i < bright.len() ==> Ok::<ResolvedView, ErrorView>(#[trigger] t.1[i]) == resolve_spec(s2, bright[i])
            &&& t.2.len() == sections.len()
            &&& forall|j: int| 0 <= j < sections.len() ==> Ok::<Seq<ResolvedView>, ErrorView>(#[trigger] t.2[j]) == resolve_all_spec(s3, sections[j])
        },
{
    if resolve_palette_spec(colors, base, normal, bright, sections) is Ok {
        let cm = colors_map(colors);
        let bm = base_map(base);
        law_ansi_slots_are_their_own_stages(cm, bm, normal, bright);
        let nb = resolve_ansi_spec(cm, bm, normal, bright)->Ok_0;
        law_resolve_sections_is_sectionwise(stage3_scope(cm, bm, nb.0, nb.1), sections);
    }
}

/// The resolved trees of one variant file.
#[derive(Debug)]
pub struct VariantTrees {
    /// `ansi.black` … `ansi.white`.
    pub normal: Vec<ResolvedExpr>,
    /// `ansi.bright.black` … `ansi.bright.white`.
    pub bright: Vec<ResolvedExpr>,
    /// `roles.series`, eight entries.
    pub series: Vec<ResolvedExpr>,
    /// The other role sections, in the order given.
    pub sections: Vec<Vec<ResolvedExpr>>,
}

/// Resolves one variant file: `colors` as written, the 16 ANSI slots in
/// terminal order, `roles.series`, then the other role sections (each in
/// field order).
pub fn resolve_variant(
    colors: &Vec<(String, ColorsValue)>,
    base: &Base,
    normal: &Vec<ColorExpr>,
    bright: &Vec<ColorExpr>,
    series: &Vec<ColorExpr>,
    sections: &Vec<Vec<ColorExpr>>,
) -> (r: Result<VariantTrees, Error>)
    requires
        normal@.len() == 8,
        bright@.len() == 8,
    ensures
        match resolve_variant_spec(colors@, *base, views_of(normal@), views_of(bright@), views_of(series@), section_views(sections@)) {
            Ok((n, b, s, ss)) => r matches Ok(t) && resolved_views_of(t.normal@) == n
                && resolved_views_of(t.bright@) == b && resolved_views_of(t.series@) == s
                && resolved_section_views(t.sections@) == ss && t.normal@.len() == 8
                && t.bright@.len() == 8 && t.series@.len() == 8,
            Err(e) => r matches Err(x) && x@ == e,
        },
{
    let color_table = match flatten_colors(colors) {
        Ok(t) => t,
        Err(e) => {
            return Err(e);
        },
    };
    let base_table = base.to_table();
    let ansi = match resolve_ansi(&color_table, &base_table, normal, bright) {
        Ok(a) => a,
        Err(e) => {
            return Err(e);
        },
    };
    let stage3 = Resolver { colors: &color_table, base: &base_table, ansi: Some(&ansi.table) };
    let s = match resolve_all(&stage3, series) {
        Ok(s) => s,
        Err(e) => {
            return Err(e);
        },
    };
    if s.len() != 8 {
        return Err(Error::SeriesLength(s.len()));
    }
    let ss = match resolve_sections(&stage3, sections) {
        Ok(ss) => ss,
        Err(e) => {
            return Err(e);
        },
    };
    Ok(VariantTrees { normal: ansi.normal, bright: ansi.bright, series: s, sections: ss })
}

/// A palette: the ANSI slots resolve in stages 1 and 2 against
/// the palette's `colors` and `base`, then the sections (layers, state,
/// semantic) in stage 3, in order.
pub open spec fn resolve_palette_spec(
    colors: Colors,
    base: Base,
    normal: Seq<ExprView>,
    bright: Seq<ExprView>,
    sections: Seq<Seq<ExprView>>,
) -> Result<(Seq<ResolvedView>, Seq<ResolvedView>, Seq<Seq<ResolvedView>>), ErrorView> {
    match resolve_ansi_spec(colors_map(colors), base_map(base), normal, bright) {
        Err(e) => Err(e),
        Ok((n, b)) => match resolve_sections_spec(
            stage3_scope(colors_map(colors), base_map(base), n, b),
            sections,
        ) {
            Err(e) => Err(e),
            Ok(ss) => Ok((n, b, ss)),
        },
    }
}

/// Resolves a palette: the 16 ANSI slots in terminal order, then the
/// sections (each in field order).
pub fn resolve_palette(
    colors: &Colors,
    base: &Base,
    normal: &Vec<ColorExpr>,
    bright: &Vec<ColorExpr>,
    sections: &Vec<Vec<ColorExpr>>,
) -> (r: Result<(Vec<ResolvedExpr>, Vec<ResolvedExpr>, Vec<Vec<ResolvedExpr>>), Error>)
    requires
        normal@.len() == 8,
        bright@.len() == 8,
    ensures
        match resolve_palette_spec(*colors, *base, views_of(normal@), views_of(bright@), section_views(sections@)) {
            Ok((n, b, ss)) => r matches Ok(t) && resolved_views_of(t.0@) == n
                && resolved_views_of(t.1@) == b && resolved_section_views(t.2@) == ss
                && t.0@.len() == 8 && t.1@.len() == 8,
            Err(e) => r matches Err(x) && x@ == e,
        },
{
    let color_table = colors.to_table();
    let base_table = base.to_table();
    let ansi = match resolve_ansi(&color_table, &base_table, normal, bright) {
        Ok(a) => a,
        Err(e) => {
            return Err(e);
        },
    };
    let stage3 = Resolver { colors: &color_table, base: &base_table, ansi: Some(&ansi.table) };
    let ss = match resolve_sections(&stage3, sections) {
        Ok(ss) => ss,
        Err(e) => {
            return Err(e);
        },
    };
    Ok((ansi.normal, ansi.bright, ss))
}

} // verus!
