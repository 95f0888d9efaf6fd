use std::collections::HashMap;
use vstd::prelude::*;

verus! {

/// The precedence of each binary operator character, keyed by the
/// character's code.
pub struct PrecedenceTable {
    entries: HashMap<u32, i8>,
}

/// The value of a key in a map, if any.
pub open spec fn map_get(m: Map<char, i8>, c: char) -> Option<i8> {
    if m.dom().contains(c) {
        Some(m[c])
    } else {
        None
    }
}

impl View for PrecedenceTable {
    type V = Map<char, i8>;

    closed spec fn view(&self) -> Map<char, i8> {
        Map::new(|c: char| self.entries@.contains_key(c as u32), |c: char| self.entries@[c as u32])
    }
}

impl PrecedenceTable {
    /// An empty table.
    pub fn new() -> (r: PrecedenceTable)
        ensures
            r@ == Map::<char, i8>::empty(),
    {
        broadcast use vstd::std_specs::hash::group_hash_axioms;

        let r = PrecedenceTable { entries: HashMap::new() };
        assert(r@ =~= Map::<char, i8>::empty());
        r
    }

    /// The precedence of an operator character, if it has one.
    pub fn get(&self, c: char) -> (r: Option<i8>)
        ensures
            r == map_get(self@, c),
    {
        broadcast use vstd::std_specs::hash::group_hash_axioms;

        let k: u32 = c as u32;
        match self.entries.get(&k) {
            Some(p) => Some(*p),
            None => None,
        }
    }

    /// Sets the precedence of an operator character, and returns the one it
    /// replaces.
    pub fn insert(&mut self, c: char, p: i8) -> (r: Option<i8>)
        ensures
            final(self)@ == old(self)@.insert(c, p),
            r == map_get(old(self)@, c),
    {
        broadcast use vstd::std_specs::hash::group_hash_axioms;

        let k: u32 = c as u32;
        let r = self.entries.insert(k, p);
        assert forall|d: char| #[trigger] self@.dom().contains(d) == old(self)@.insert(c, p).dom().contains(d) by {
            if d != c {
                vstd::utf8::char_u32_cast(d, d as u32);
                vstd::utf8::char_u32_cast(c, c as u32);
            }
        }
        assert forall|d: char| #[trigger] self@.dom().contains(d) implies self@[d] == old(self)@.insert(c, p)[d] by {
            if d != c {
                vstd::utf8::char_u32_cast(d, d as u32);
                vstd::utf8::char_u32_cast(c, c as u32);
            }
        }
        assert(self@ =~= old(self)@.insert(c, p));
        r
    }
}

/// What an insert writes, a get reads back; the other operators keep
/// their precedence.
pub proof fn lemma_get_after_insert(m: Map<char, i8>, c: char, p: i8, other: char)
    ensures
        map_get(m.insert(c, p), c) == Some(p),
        other != c ==> map_get(m.insert(c, p), other) == map_get(m, other),
{
}

} // verus!
