//! The palette pair (Night and Dawn) that the first tools were generated from.
use vstd::prelude::*;
use crate::ansi::AnsiColors;
use crate::color::Rgb;
use crate::table::{lookup, Table};
use crate::text::string_from;
use crate::theme::Base;

verus! {

/// One of the two palettes.
#[derive(Clone, Copy, Debug, PartialEq, Eq, Structural)]
pub enum Variant {
    Night,
    Dawn,
}

/// Both variants, Night first.
pub const VARIANTS: [Variant; 2] = [Variant::Night, Variant::Dawn];

pub open spec fn variant_name(v: Variant) -> Seq<char> {
    match v {
        Variant::Night => "night"@,
        Variant::Dawn => "dawn"@,
    }
}

pub open spec fn variant_title(v: Variant) -> Seq<char> {
    match v {
        Variant::Night => "Night"@,
        Variant::Dawn => "Dawn"@,
    }
}

pub open spec fn variant_file_name(v: Variant) -> Seq<char> {
    match v {
        Variant::Night => "akari-night.toml"@,
        Variant::Dawn => "akari-dawn.toml"@,
    }
}

impl Variant {
    /// `night` or `dawn`: the name output paths use.
    pub fn name(&self) -> (r: &'static str)
        ensures
            r@ == variant_name(*self),
    {
        match self {
            Variant::Night => "night",
            Variant::Dawn => "dawn",
        }
    }

    /// `Night` or `Dawn`.
    pub fn title(&self) -> (r: &'static str)
        ensures
            r@ == variant_title(*self),
    {
        match self {
            Variant::Night => "Night",
            Variant::Dawn => "Dawn",
        }
    }

    /// The palette file of this variant: `akari-night.toml`, `akari-dawn.toml`.
    pub fn palette_filename(&self) -> (r: &'static str)
        ensures
            r@ == variant_file_name(*self),
    {
        match self {
            Variant::Night => "akari-night.toml",
            Variant::Dawn => "akari-dawn.toml",
        }
    }
}

#[derive(Clone, Copy, Debug, PartialEq, Eq, Structural)]
pub struct Lantern {
    /// Inner heat: flame, fuel, origin of light.
    pub ember: Rgb,
    /// Paper seen up close.
    pub near: Rgb,
    /// The lantern as perceived light.
    pub mid: Rgb,
    /// Warm blur: light at a distance.
    pub far: Rgb,
}

#[derive(Clone, Copy, Debug, PartialEq, Eq, Structural)]
pub struct Colors {
    pub lantern: Lantern,
    pub life: Rgb,
    pub night: Rgb,
    pub rain: Rgb,
    pub muted: Rgb,
}

/// The `colors` section of a palette as references see it.
pub open spec fn colors_map(c: Colors) -> Map<Seq<char>, Rgb> {
    Map::empty().insert("lantern.ember"@, c.lantern.ember).insert(
        "lantern.near"@,
        c.lantern.near,
    ).insert("lantern.mid"@, c.lantern.mid).insert("lantern.far"@, c.lantern.far).insert(
        "life"@,
        c.life,
    ).insert("night"@, c.night).insert("rain"@, c.rain).insert("muted"@, c.muted)
}

/// `colors.*` references read each color under its own name: the four
/// lantern colors under `lantern.<name>`, the others under their names.
pub proof fn law_colors_keys_read_their_fields(c: Colors)
    ensures
        lookup(colors_map(c), "lantern.ember"@) == Some(c.lantern.ember),
        lookup(colors_map(c), "lantern.near"@) == Some(c.lantern.near),
        lookup(colors_map(c), "lantern.mid"@) == Some(c.lantern.mid),
        lookup(colors_map(c), "lantern.far"@) == Some(c.lantern.far),
        lookup(colors_map(c), "life"@) == Some(c.life),
        lookup(colors_map(c), "night"@) == Some(c.night),
        lookup(colors_map(c), "rain"@) == Some(c.rain),
        lookup(colors_map(c), "muted"@) == Some(c.muted),
        colors_map(c).dom().len() == 8,
{
    reveal_strlit("lantern.ember");
    reveal_strlit("lantern.near");
    reveal_strlit("lantern.mid");
    reveal_strlit("lantern.far");
    reveal_strlit("life");
    reveal_strlit("night");
    reveal_strlit("rain");
    reveal_strlit("muted");
    let ks = seq!["lantern.ember"@, "lantern.near"@, "lantern.mid"@, "lantern.far"@, "life"@, "night"@, "rain"@, "muted"@];
    assert forall|i: int, j: int| 0 <= i < j < 8 implies ks[i] != ks[j] by {
        if ks[i] == ks[j] {
            assert(ks[i].len() == ks[j].len());
            assert(ks[i][0] == ks[j][0]);
            assert(ks[i][ks[i].len() - 1] == ks[j][ks[j].len() - 1]);
            if ks[i].len() > 9 {
                assert(ks[i][8] == ks[j][8]);
                assert(ks[i][9] == ks[j][9]);
            }
        }
    }
    assert(ks[0] != ks[1] && ks[0] != ks[2] && ks[0] != ks[3] && ks[0] != ks[4] && ks[0] != ks[5] && ks[0] != ks[6] && ks[0] != ks[7]);
    assert(ks[1] != ks[2] && ks[1] != ks[3] && ks[1] != ks[4] && ks[1] != ks[5] && ks[1] != ks[6] && ks[1] != ks[7]);
    assert(ks[2] != ks[3] && ks[2] != ks[4] && ks[2] != ks[5] && ks[2] != ks[6] && ks[2] != ks[7]);
    assert(ks[3] != ks[4] && ks[3] != ks[5] && ks[3] != ks[6] && ks[3] != ks[7]);
    assert(ks[4] != ks[5] && ks[4] != ks[6] && ks[4] != ks[7]);
    assert(ks[5] != ks[6] && ks[5] != ks[7]);
    assert(ks[6] != ks[7]);
    let d = colors_map(c).dom();
    assert(d =~= set![ks[0], ks[1], ks[2], ks[3], ks[4], ks[5], ks[6], ks[7]]);
    assert(set![ks[0], ks[1], ks[2], ks[3], ks[4], ks[5], ks[6], ks[7]].len() == 8);
}

impl Colors {
    /// The table `colors.*` references are looked up in.
    pub fn to_table(&self) -> (t: Table)
        ensures
            t@ == colors_map(*self),
    {
        let mut t = Table::new();
        t.insert(string_from("lantern.ember"), self.lantern.ember);
        t.insert(string_from("lantern.near"), self.lantern.near);
        t.insert(string_from("lantern.mid"), self.lantern.mid);
        t.insert(string_from("lantern.far"), self.lantern.far);
        t.insert(string_from("life"), self.life);
        t.insert(string_from("night"), self.night);
        t.insert(string_from("rain"), self.rain);
        t.insert(string_from("muted"), self.muted);
        t
    }
}

#[derive(Clone, Copy, Debug, PartialEq, Eq, Structural)]
pub struct Layers {
    pub base: Rgb,
    pub surface: Rgb,
    pub sunken: Rgb,
    pub raised: Rgb,
    pub border: Rgb,
    pub inset: Rgb,
}

#[derive(Clone, Copy, Debug, PartialEq, Eq, Structural)]
pub struct State {
    pub selection_bg: Rgb,
    pub selection_fg: Rgb,
    pub match_bg: Rgb,
    pub cursor: Rgb,
    pub cursor_text: Rgb,
    pub info: Rgb,
    pub hint: Rgb,
    pub warning: Rgb,
    pub error: Rgb,
    pub active_bg: Rgb,
    pub diff_added: Rgb,
    pub diff_added_bg: Rgb,
    pub diff_removed: Rgb,
    pub diff_removed_bg: Rgb,
    pub diff_changed: Rgb,
    pub diff_moved: Rgb,
    pub conflict: Rgb,
}

#[derive(Clone, Copy, Debug, PartialEq, Eq, Structural)]
pub struct Semantic {
    pub text: Rgb,
    pub comment: Rgb,
    pub string: Rgb,
    pub keyword: Rgb,
    pub number: Rgb,
    pub constant: Rgb,
    pub type_: Rgb,
    pub function: Rgb,
    pub variable: Rgb,
    pub member: Rgb,
    pub success: Rgb,
    pub path: Rgb,
    pub macro_: Rgb,
    pub escape: Rgb,
    pub regexp: Rgb,
    pub link: Rgb,
    pub directory: Rgb,
}

/// One resolved palette.
#[derive(Debug)]
pub struct Palette {
    pub variant: Variant,
    pub name: String,
    pub description: String,
    pub colors: Colors,
    pub base: Base,
    pub layers: Layers,
    pub state: State,
    pub semantic: Semantic,
    pub ansi: AnsiColors,
    pub ansi_bright: AnsiColors,
}

/// Palettes for both variants.
#[derive(Debug)]
pub struct Palettes {
    pub night: Palette,
    pub dawn: Palette,
}

impl Palettes {
    /// The palette of `variant`.
    pub fn get(&self, variant: Variant) -> (r: &Palette)
        ensures
            variant == Variant::Night ==> r == &self.night,
            variant == Variant::Dawn ==> r == &self.dawn,
    {
        match variant {
            Variant::Night => &self.night,
            Variant::Dawn => &self.dawn,
        }
    }
}

/// A variant's title is its name with the first letter upper-cased.
pub proof fn law_title_is_capitalized_name(v: Variant)
    ensures
        variant_title(v) == crate::names::capitalize_spec(variant_name(v)),
{
    reveal_strlit("night");
    reveal_strlit("Night");
    reveal_strlit("dawn");
    reveal_strlit("Dawn");
    let n = variant_name(v);
    assert(crate::names::upper(n[0]) as nat == n[0] as nat - 32);
    assert(crate::names::capitalize_spec(n) =~= variant_title(v));
}

} // verus!
