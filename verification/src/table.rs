//! `Table`: the colors one section offers to references, keyed by name.
use vstd::prelude::*;
use crate::color::Rgb;

verus! {

/// Named colors; a later entry for a key replaces an earlier one.
#[derive(Debug)]
pub struct Table {
    entries: Vec<(String, Rgb)>,
}

/// The map a list of entries denotes: later entries win.
pub open spec fn entries_map(s: Seq<(String, Rgb)>) -> Map<Seq<char>, Rgb>
    decreases s.len(),
{
    if s.len() == 0 {
        Map::empty()
    } else {
        entries_map(s.drop_last()).insert(s.last().0@, s.last().1)
    }
}

/// `Some(m[k])` when `m` has `k`.
pub open spec fn lookup(m: Map<Seq<char>, Rgb>, k: Seq<char>) -> Option<Rgb> {
    if m.dom().contains(k) {
        Some(m[k])
    } else {
        None
    }
}

proof fn lemma_entries_map_tail(s: Seq<(String, Rgb)>, i: int, k: Seq<char>)
    requires
        0 <= i <= s.len(),
        forall|j: int| i <= j < s.len() ==> (#[trigger] s[j]).0@ != k,
    ensures
        lookup(entries_map(s), k) == lookup(entries_map(s.take(i)), k),
    decreases s.len() - i,
{
    if i < s.len() {
        let d = s.drop_last();
        assert forall|j: int| i <= j < d.len() implies (#[trigger] d[j]).0@ != k by {
            assert(d[j] == s[j]);
        }
        lemma_entries_map_tail(d, i, k);
        assert(d.take(i) == s.take(i));
        assert(s.last() == s[s.len() - 1]);
    } else {
        assert(s.take(i) == s);
    }
}

impl View for Table {
    type V = Map<Seq<char>, Rgb>;

    closed spec fn view(&self) -> Map<Seq<char>, Rgb> {
        entries_map(self.entries@)
    }
}

impl Table {
    /// A table with no entries.
    pub fn new() -> (t: Table)
        ensures
            t@ == Map::<Seq<char>, Rgb>::empty(),
    {
        Table { entries: Vec::new() }
    }

    /// Sets `key` to `color`, replacing any earlier color of `key`.
    pub fn insert(&mut self, key: String, color: Rgb)
        ensures
            final(self)@ == old(self)@.insert(key@, color),
    {
        let ghost k = key@;
        self.entries.push((key, color));
        proof {
            let s = self.entries@;
            assert(s.drop_last() == old(self).entries@);
        }
    }

    /// The color of `key`, if any.
    pub fn get(&self, key: &String) -> (r: Option<Rgb>)
        ensures
            r == lookup(self@, key@),
    {
        let ghost s = self.entries@;
        let mut i = self.entries.len();
        while i > 0
            invariant
                i <= s.len(),
                s == self.entries@,
                forall|j: int| i <= j < s.len() ==> (#[trigger] s[j]).0@ != key@,
            decreases i,
        {
            let e = &self.entries[i - 1];
            if e.0 == *key {
                proof {
                    lemma_entries_map_tail(s, i as int, key@);
                    assert(s.take(i as int).drop_last() == s.take(i - 1));
                    assert(s.take(i as int).last() == s[i - 1]);
                }
                return Some(e.1);
            }
            i = i - 1;
        }
        proof {
            lemma_entries_map_tail(s, 0, key@);
            assert(s.take(0) == Seq::<(String, Rgb)>::empty());
        }
        None
    }
}

/// A color stored under a key reads back as that color.
pub proof fn law_table_reads_back_writes(m: Map<Seq<char>, Rgb>, k: Seq<char>, c: Rgb, other: Seq<char>)
    ensures
        lookup(m.insert(k, c), k) == Some(c),
        other != k ==> lookup(m.insert(k, c), other) == lookup(m, other),
{
}

} // verus!
