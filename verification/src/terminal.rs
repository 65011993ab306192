//! Which color each key of a macOS Terminal profile holds.
//!
//! The profile itself is a property list whose color values are archived
//! `NSColor` objects; encoding them is the caller's part. This module names
//! the keys and picks their colors from a palette or a theme variant.
use vstd::prelude::*;
use crate::ansi::{slot_colors, slot_names, AnsiColors};
use crate::color::Rgb;
use crate::names::{capitalize, capitalize_spec};
use crate::palette::{variant_title, Palette};
use crate::text::{push_str, string_from};
use crate::theme::{Base, ResolvedVariant};

verus! {

/// `<prefix><Name>Color` for each slot.
pub open spec fn slot_keys(prefix: Seq<char>, c: AnsiColors) -> Seq<(Seq<char>, Rgb)> {
    Seq::new(8, |i: int| (prefix + capitalize_spec(slot_names()[i]) + "Color"@, slot_colors(c)[i]))
}

/// A profile's colors: ANSI, bright ANSI, then base, cursor and selection.
pub open spec fn profile_entries(
    normal: AnsiColors,
    bright: AnsiColors,
    base: Base,
    cursor: Rgb,
    cursor_text: Rgb,
    selection_bg: Rgb,
    selection_fg: Rgb,
) -> Seq<(Seq<char>, Rgb)> {
    slot_keys("ANSI"@, normal) + slot_keys("ANSIBright"@, bright) + seq![
        ("BackgroundColor"@, base.background),
        ("TextColor"@, base.foreground),
        ("TextBoldColor"@, base.foreground),
        ("CursorColor"@, cursor),
        ("CursorTextColor"@, cursor_text),
        ("SelectionColor"@, selection_bg),
        ("SelectedTextColor"@, selection_fg),
    ]
}

/// The colors of a palette's profile: cursor and selection from `state`.
pub open spec fn profile_colors_spec(p: Palette) -> Seq<(Seq<char>, Rgb)> {
    profile_entries(
        p.ansi,
        p.ansi_bright,
        p.base,
        p.state.cursor,
        p.state.cursor_text,
        p.state.selection_bg,
        p.state.selection_fg,
    )
}

/// The colors of a theme variant's profile: cursor and selection from
/// `roles.ui`.
pub open spec fn variant_profile_colors_spec(v: &ResolvedVariant) -> Seq<(Seq<char>, Rgb)> {
    profile_entries(
        v.ansi.normal,
        v.ansi.bright,
        v.base,
        v.roles.ui.cursor,
        v.roles.ui.cursor_text,
        v.roles.ui.selection_bg,
        v.roles.ui.selection_fg,
    )
}

pub open spec fn pairs_view(v: Seq<(String, Rgb)>) -> Seq<(Seq<char>, Rgb)> {
    v.map_values(|e: (String, Rgb)| (e.0@, e.1))
}

fn push_slots(out: &mut Vec<(String, Rgb)>, prefix: &str, c: &AnsiColors)
    ensures
        pairs_view(final(out)@) == pairs_view(old(out)@) + slot_keys(prefix@, *c),
{
    let entries = c.entries();
    let mut i: usize = 0;
    while i < 8
        invariant
            i <= 8,
            entries@.len() == 8,
            forall|j: int| 0 <= j < 8 ==> (#[trigger] entries@[j]).0@ == slot_names()[j] && entries@[j].1 == slot_colors(*c)[j],
            pairs_view(out@) == pairs_view(old(out)@) + slot_keys(prefix@, *c).take(i as int),
        decreases 8 - i,
    {
        let mut key = string_from(prefix);
        let cap = capitalize(entries[i].0);
        push_str(&mut key, cap.as_str());
        push_str(&mut key, "Color");
        let ghost before = pairs_view(out@);
        out.push((key, entries[i].1));
        assert(pairs_view(out@) == before.push((out@.last().0@, out@.last().1)));
        assert(slot_keys(prefix@, *c).take(i + 1) == slot_keys(prefix@, *c).take(i as int).push(
            slot_keys(prefix@, *c)[i as int],
        ));
        i = i + 1;
    }
    assert(slot_keys(prefix@, *c).take(8) == slot_keys(prefix@, *c));
}

fn entries_of(
    normal: &AnsiColors,
    bright: &AnsiColors,
    base: &Base,
    cursor: Rgb,
    cursor_text: Rgb,
    selection_bg: Rgb,
    selection_fg: Rgb,
) -> (v: Vec<(String, Rgb)>)
    ensures
        pairs_view(v@) == profile_entries(
            *normal,
            *bright,
            *base,
            cursor,
            cursor_text,
            selection_bg,
            selection_fg,
        ),
{
    let mut v: Vec<(String, Rgb)> = Vec::new();
    assert(pairs_view(v@) =~= Seq::<(Seq<char>, Rgb)>::empty());
    push_slots(&mut v, "ANSI", normal);
    push_slots(&mut v, "ANSIBright", bright);
    v.push((string_from("BackgroundColor"), base.background));
    v.push((string_from("TextColor"), base.foreground));
    v.push((string_from("TextBoldColor"), base.foreground));
    v.push((string_from("CursorColor"), cursor));
    v.push((string_from("CursorTextColor"), cursor_text));
    v.push((string_from("SelectionColor"), selection_bg));
    v.push((string_from("SelectedTextColor"), selection_fg));
    assert(pairs_view(v@) =~= profile_entries(
        *normal,
        *bright,
        *base,
        cursor,
        cursor_text,
        selection_bg,
        selection_fg,
    ));
    v
}

/// The key and color of every color entry of the palette's profile.
pub fn profile_colors(p: &Palette) -> (v: Vec<(String, Rgb)>)
    ensures
        pairs_view(v@) == profile_colors_spec(*p),
{
    entries_of(
        &p.ansi,
        &p.ansi_bright,
        &p.base,
        p.state.cursor,
        p.state.cursor_text,
        p.state.selection_bg,
        p.state.selection_fg,
    )
}

/// The key and color of every color entry of a theme variant's profile.
pub fn variant_profile_colors(v: &ResolvedVariant) -> (r: Vec<(String, Rgb)>)
    ensures
        pairs_view(r@) == variant_profile_colors_spec(v),
{
    entries_of(
        &v.ansi.normal,
        &v.ansi.bright,
        &v.base,
        v.roles.ui.cursor,
        v.roles.ui.cursor_text,
        v.roles.ui.selection_bg,
        v.roles.ui.selection_fg,
    )
}

/// A theme variant's profile `name`: `<theme name>-<variant name>`, the
/// name its file is given too.
pub fn variant_profile_name(theme_name: &str, variant_name: &str) -> (r: String)
    ensures
        r@ == theme_name@ + "-"@ + variant_name@,
{
    let mut r = string_from(theme_name);
    push_str(&mut r, "-");
    push_str(&mut r, variant_name);
    r
}

/// The profile's `name`: `Akari-<Title>`.
pub fn profile_name(p: &Palette) -> (r: String)
    ensures
        r@ == "Akari-"@ + variant_title(p.variant),
{
    let mut r = string_from("Akari-");
    push_str(&mut r, p.variant.title());
    r
}

} // verus!
