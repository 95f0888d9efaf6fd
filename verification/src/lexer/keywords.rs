use vstd::prelude::*;

verus! {

/// The reserved words of the language.
#[derive(Clone, Copy, Debug, PartialEq, Eq, Structural)]
pub enum Keyword {
    Def,
    Extern,
    If,
    Then,
    Else,
    For,
    In,
    Unary,
    Binary,
    Var,
    Double,
    Int,
}

/// The keyword spelled by a word, if any.
pub open spec fn spec_keyword_of(w: Seq<char>) -> Option<Keyword> {
    if w =~= spec_keyword_spelling(Keyword::Def) {
        Some(Keyword::Def)
    } else if w =~= spec_keyword_spelling(Keyword::Extern) {
        Some(Keyword::Extern)
    } else if w =~= spec_keyword_spelling(Keyword::If) {
        Some(Keyword::If)
    } else if w =~= spec_keyword_spelling(Keyword::Then) {
        Some(Keyword::Then)
    } else if w =~= spec_keyword_spelling(Keyword::Else) {
        Some(Keyword::Else)
    } else if w =~= spec_keyword_spelling(Keyword::For) {
        Some(Keyword::For)
    } else if w =~= spec_keyword_spelling(Keyword::In) {
        Some(Keyword::In)
    } else if w =~= spec_keyword_spelling(Keyword::Binary) {
        Some(Keyword::Binary)
    } else if w =~= spec_keyword_spelling(Keyword::Unary) {
        Some(Keyword::Unary)
    } else if w =~= spec_keyword_spelling(Keyword::Var) {
        Some(Keyword::Var)
    } else if w =~= spec_keyword_spelling(Keyword::Double) {
        Some(Keyword::Double)
    } else if w =~= spec_keyword_spelling(Keyword::Int) {
        Some(Keyword::Int)
    } else {
        None
    }
}

/// The spelling of a keyword.
pub open spec fn spec_keyword_spelling(k: Keyword) -> Seq<char> {
    match k {
        Keyword::Def => seq!['d', 'e', 'f'],
        Keyword::Extern => seq!['e', 'x', 't', 'e', 'r', 'n'],
        Keyword::If => seq!['i', 'f'],
        Keyword::Then => seq!['t', 'h', 'e', 'n'],
        Keyword::Else => seq!['e', 'l', 's', 'e'],
        Keyword::For => seq!['f', 'o', 'r'],
        Keyword::In => seq!['i', 'n'],
        Keyword::Binary => seq!['b', 'i', 'n', 'a', 'r', 'y'],
        Keyword::Unary => seq!['u', 'n', 'a', 'r', 'y'],
        Keyword::Var => seq!['v', 'a', 'r'],
        Keyword::Double => seq!['d', 'o', 'u', 'b', 'l', 'e'],
        Keyword::Int => seq!['i', 'n', 't'],
    }
}

/// Law: a keyword's spelling reads back as that keyword.
pub proof fn lemma_keyword_spelling_roundtrip(k: Keyword)
    ensures
        spec_keyword_of(spec_keyword_spelling(k)) == Some(k),
{
    let w = spec_keyword_spelling(k);
    let d = spec_keyword_spelling(Keyword::Def);
    let ex = spec_keyword_spelling(Keyword::Extern);
    let i = spec_keyword_spelling(Keyword::If);
    let t = spec_keyword_spelling(Keyword::Then);
    let el = spec_keyword_spelling(Keyword::Else);
    let f = spec_keyword_spelling(Keyword::For);
    let n = spec_keyword_spelling(Keyword::In);
    let b = spec_keyword_spelling(Keyword::Binary);
    let u = spec_keyword_spelling(Keyword::Unary);
    let v = spec_keyword_spelling(Keyword::Var);
    let db = spec_keyword_spelling(Keyword::Double);
    assert(!(w =~= d) || k == Keyword::Def) by {
        if w =~= d { assert(w.len() == 3 && w[0] == 'd' && w[1] == 'e'); }
    }
    assert(!(w =~= ex) || k == Keyword::Extern) by {
        if w =~= ex { assert(w.len() == 6 && w[0] == 'e'); }
    }
    assert(!(w =~= i) || k == Keyword::If) by {
        if w =~= i { assert(w.len() == 2 && w[1] == 'f'); }
    }
    assert(!(w =~= t) || k == Keyword::Then) by {
        if w =~= t { assert(w.len() == 4 && w[0] == 't'); }
    }
    assert(!(w =~= el) || k == Keyword::Else) by {
        if w =~= el { assert(w.len() == 4 && w[0] == 'e'); }
    }
    assert(!(w =~= f) || k == Keyword::For) by {
        if w =~= f { assert(w.len() == 3 && w[0] == 'f'); }
    }
    assert(!(w =~= n) || k == Keyword::In) by {
        if w =~= n { assert(w.len() == 2 && w[1] == 'n'); }
    }
    assert(!(w =~= b) || k == Keyword::Binary) by {
        if w =~= b { assert(w.len() == 6 && w[0] == 'b'); }
    }
    assert(!(w =~= u) || k == Keyword::Unary) by {
        if w =~= u { assert(w.len() == 5); }
    }
    assert(!(w =~= v) || k == Keyword::Var) by {
        if w =~= v { assert(w.len() == 3 && w[0] == 'v'); }
    }
    assert(!(w =~= db) || k == Keyword::Double) by {
        if w =~= db { assert(w.len() == 6 && w[0] == 'd'); }
    }
}

fn word_is(w: &Vec<char>, lit: &[char]) -> (r: bool)
    ensures
        r == (w@ == lit@),
{
    if w.len() != lit.len() {
        return false;
    }
    let mut i: usize = 0;
    while i < w.len()
        invariant
            w.len() == lit@.len(),
            0 <= i <= w.len(),
            forall|j: int| 0 <= j < i ==> w@[j] == lit@[j],
        decreases w.len() - i,
    {
        if w[i] != lit[i] {
            return false;
        }
        i = i + 1;
    }
    assert(w@ =~= lit@);
    true
}

/// The keyword spelled by a word, if any.
pub fn keyword_of(w: &Vec<char>) -> (r: Option<Keyword>)
    ensures
        r == spec_keyword_of(w@),
{
    proof {
        assert(['d', 'e', 'f']@ =~= spec_keyword_spelling(Keyword::Def));
        assert(['e', 'x', 't', 'e', 'r', 'n']@ =~= spec_keyword_spelling(Keyword::Extern));
        assert(['i', 'f']@ =~= spec_keyword_spelling(Keyword::If));
        assert(['t', 'h', 'e', 'n']@ =~= spec_keyword_spelling(Keyword::Then));
        assert(['e', 'l', 's', 'e']@ =~= spec_keyword_spelling(Keyword::Else));
        assert(['f', 'o', 'r']@ =~= spec_keyword_spelling(Keyword::For));
        assert(['i', 'n']@ =~= spec_keyword_spelling(Keyword::In));
        assert(['b', 'i', 'n', 'a', 'r', 'y']@ =~= spec_keyword_spelling(Keyword::Binary));
        assert(['u', 'n', 'a', 'r', 'y']@ =~= spec_keyword_spelling(Keyword::Unary));
        assert(['v', 'a', 'r']@ =~= spec_keyword_spelling(Keyword::Var));
        assert(['d', 'o', 'u', 'b', 'l', 'e']@ =~= spec_keyword_spelling(Keyword::Double));
        assert(['i', 'n', 't']@ =~= spec_keyword_spelling(Keyword::Int));
    }
    if word_is(w, &['d', 'e', 'f']) {
        Some(Keyword::Def)
    } else if word_is(w, &['e', 'x', 't', 'e', 'r', 'n']) {
        Some(Keyword::Extern)
    } else if word_is(w, &['i', 'f']) {
        Some(Keyword::If)
    } else if word_is(w, &['t', 'h', 'e', 'n']) {
        Some(Keyword::Then)
    } else if word_is(w, &['e', 'l', 's', 'e']) {
        Some(Keyword::Else)
    } else if word_is(w, &['f', 'o', 'r']) {
        Some(Keyword::For)
    } else if word_is(w, &['i', 'n']) {
        Some(Keyword::In)
    } else if word_is(w, &['b', 'i', 'n', 'a', 'r', 'y']) {
        Some(Keyword::Binary)
    } else if word_is(w, &['u', 'n', 'a', 'r', 'y']) {
        Some(Keyword::Unary)
    } else if word_is(w, &['v', 'a', 'r']) {
        Some(Keyword::Var)
    } else if word_is(w, &['d', 'o', 'u', 'b', 'l', 'e']) {
        Some(Keyword::Double)
    } else if word_is(w, &['i', 'n', 't']) {
        Some(Keyword::Int)
    } else {
        None
    }
}

impl Keyword {
    /// The keyword that a text spells; `Err(())` for any other text.
    pub fn parse_keyword(s: &str) -> (r: Result<Keyword, ()>)
        ensures
            r == match spec_keyword_of(s@) {
                Some(k) => Ok::<Keyword, ()>(k),
                None => Err(()),
            },
    {
        let w = crate::util::chars_of(s);
        match keyword_of(&w) {
            Some(k) => Ok(k),
            None => Err(()),
        }
    }
}

impl std::str::FromStr for Keyword {
    type Err = ();

    fn from_str(s: &str) -> (r: Result<Keyword, ()>)
        ensures
            r == match spec_keyword_of(s@) {
                Some(k) => Ok::<Keyword, ()>(k),
                None => Err(()),
            },
    {
        Keyword::parse_keyword(s)
    }
}

} // verus!
