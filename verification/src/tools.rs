//! Tools of the palette route: names, templates and output paths.
//!
//! Rendering needs the template engine and stays with the caller; what each
//! tool is called and where its files go is decided here.
use vstd::prelude::*;
use crate::names::replace_spec;
use crate::palette::{variant_name, variant_title, Variant};
use crate::text::{push_str, string_from};

verus! {

/// Tools that generate one file per variant from a template. The output
/// path is `pattern()` with `{name}` replaced by the variant's name.
pub trait PerVariant {
    spec fn pattern_text(&self) -> Seq<char>;

    fn name(&self) -> &'static str;

    fn template(&self) -> &'static str;

    fn pattern(&self) -> (p: &'static str)
        ensures
            p@ == self.pattern_text(),
    ;

    fn rel_path(&self, variant: Variant) -> (r: String)
        ensures
            r@ == replace_spec(self.pattern_text(), "{name}"@, variant_name(variant)),
    {
        proof {
            reveal_strlit("{name}");
        }
        crate::names::replace_all(self.pattern(), "{name}", variant.name())
    }
}

/// Helix: `helix/akari-{name}.toml` from `helix.tera`.
pub struct Helix;

impl PerVariant for Helix {
    open spec fn pattern_text(&self) -> Seq<char> {
        "helix/akari-{name}.toml"@
    }

    fn name(&self) -> (r: &'static str)
        ensures
            r@ == "helix"@,
    {
        "helix"
    }

    fn template(&self) -> (r: &'static str)
        ensures
            r@ == "helix.tera"@,
    {
        "helix.tera"
    }

    fn pattern(&self) -> (p: &'static str) {
        "helix/akari-{name}.toml"
    }
}

/// Neovim: one Lua palette holding both variants.
pub struct Nvim;

impl Nvim {
    pub fn name(&self) -> (r: &'static str)
        ensures
            r@ == "nvim"@,
    {
        "nvim"
    }

    pub fn template(&self) -> (r: &'static str)
        ensures
            r@ == "nvim-palette.tera"@,
    {
        "nvim-palette.tera"
    }

    pub fn rel_path(&self) -> (r: &'static str)
        ensures
            r@ == "nvim/lua/akari/palette.lua"@,
    {
        "nvim/lua/akari/palette.lua"
    }
}

/// zsh-syntax-highlighting: one script holding both variants.
pub struct Zsh;

impl Zsh {
    pub fn name(&self) -> (r: &'static str)
        ensures
            r@ == "zsh"@,
    {
        "zsh"
    }

    pub fn template(&self) -> (r: &'static str)
        ensures
            r@ == "zsh.tera"@,
    {
        "zsh.tera"
    }

    pub fn rel_path(&self) -> (r: &'static str)
        ensures
            r@ == "zsh/akari.zsh"@,
    {
        "zsh/akari.zsh"
    }
}

/// macOS Terminal: one profile per variant, `terminal/Akari-<Title>.terminal`.
pub struct Terminal;

impl Terminal {
    pub fn name(&self) -> (r: &'static str)
        ensures
            r@ == "terminal"@,
    {
        "terminal"
    }

    pub fn rel_path(&self, variant: Variant) -> (r: String)
        ensures
            r@ == "terminal/Akari-"@ + variant_title(variant) + ".terminal"@,
    {
        let mut r = string_from("terminal/Akari-");
        push_str(&mut r, variant.title());
        push_str(&mut r, ".terminal");
        r
    }
}

} // verus!
