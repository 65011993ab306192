//! The 16 terminal slots and the lookup tables they feed.
//!
//! How the slots resolve in stages is in [`crate::resolve`].
use vstd::prelude::*;
use crate::color::Rgb;

verus! {

/// The eight slots of one intensity.
#[derive(Clone, Copy, Debug, PartialEq, Eq, Structural)]
pub struct AnsiColors {
    pub black: Rgb,
    pub red: Rgb,
    pub green: Rgb,
    pub yellow: Rgb,
    pub blue: Rgb,
    pub magenta: Rgb,
    pub cyan: Rgb,
    pub white: Rgb,
}

/// The 16 terminal slots: `ansi.black` … `ansi.bright.white`.
#[derive(Clone, Copy, Debug, PartialEq, Eq, Structural)]
pub struct Ansi {
    pub normal: AnsiColors,
    pub bright: AnsiColors,
}

/// The slot names, in terminal order.
pub open spec fn slot_names() -> Seq<Seq<char>> {
    seq!["black"@, "red"@, "green"@, "yellow"@, "blue"@, "magenta"@, "cyan"@, "white"@]
}

/// The slot colors, in terminal order.
pub open spec fn slot_colors(c: AnsiColors) -> Seq<Rgb> {
    seq![c.black, c.red, c.green, c.yellow, c.blue, c.magenta, c.cyan, c.white]
}

impl AnsiColors {
    /// `(name, color)` for each slot, in terminal order.
    pub fn entries(&self) -> (v: Vec<(&'static str, Rgb)>)
        ensures
            v@.len() == 8,
            forall|i: int| 0 <= i < 8 ==> (#[trigger] v@[i]).0@ == slot_names()[i] && v@[i].1 == slot_colors(*self)[i],
    {
        let v = vec![
            ("black", self.black),
            ("red", self.red),
            ("green", self.green),
            ("yellow", self.yellow),
            ("blue", self.blue),
            ("magenta", self.magenta),
            ("cyan", self.cyan),
            ("white", self.white),
        ];
        v
    }
}

/// The slot names, in terminal order.
pub fn slot_name_list() -> (v: Vec<&'static str>)
    ensures
        v@.len() == 8,
        forall|i: int| 0 <= i < 8 ==> (#[trigger] v@[i])@ == slot_names()[i],
{
    let v = vec!["black", "red", "green", "yellow", "blue", "magenta", "cyan", "white"];
    v
}

/// No two slots share a name, and every name has three to seven letters.
pub proof fn lemma_slot_names_shape()
    ensures
        forall|i: int, j: int| 0 <= i < j < 8 ==> slot_names()[i] != slot_names()[j],
        forall|i: int| 0 <= i < 8 ==> 3 <= (#[trigger] slot_names()[i]).len() <= 7,
{
    reveal_strlit("black");
    reveal_strlit("red");
    reveal_strlit("green");
    reveal_strlit("yellow");
    reveal_strlit("blue");
    reveal_strlit("magenta");
    reveal_strlit("cyan");
    reveal_strlit("white");
    let n = slot_names();
    assert forall|i: int, j: int| 0 <= i < j < 8 implies n[i] != n[j] by {
        if n[i] == n[j] {
            assert(n[i].len() == n[j].len());
            assert(n[i][0] == n[j][0]);
        }
    }
}

} // verus!
