//! Named symbols of the language. None is defined yet, so every text is
//! refused.
use vstd::prelude::*;
use crate::util::{chars_of, string_push};

verus! {

/// A named symbol; the language defines none. The field is private and no
/// function builds one, so no value of this type is ever made.
#[derive(Copy, Clone, Debug, PartialEq)]
pub struct Symbol {
    none: (),
}

/// The message with which a text that names no symbol is refused.
pub open spec fn invalid_token_message(s: Seq<char>) -> Seq<char> {
    "Invalid Token: "@ + s
}

/// Appends the characters of a vector to a string.
fn push_all(out: &mut String, cs: &Vec<char>)
    ensures
        final(out)@ == old(out)@ + cs@,
{
    let mut i: usize = 0;
    while i < cs.len()
        invariant
            0 <= i <= cs.len(),
            out@ == old(out)@ + cs@.take(i as int),
        decreases cs.len() - i,
    {
        string_push(out, cs[i]);
        i = i + 1;
        assert(out@ =~= old(out)@ + cs@.take(i as int));
    }
    assert(cs@.take(cs.len() as int) =~= cs@);
}

impl Symbol {
    /// The symbol that a text names; every text is refused, with a message
    /// that quotes it.
    pub fn parse_symbol(s: &str) -> (r: Result<Symbol, String>)
        ensures
            r matches Err(m) && m@ == invalid_token_message(s@),
    {
        let mut m = String::new();
        let prefix = chars_of("Invalid Token: ");
        push_all(&mut m, &prefix);
        let text = chars_of(s);
        push_all(&mut m, &text);
        assert(m@ =~= invalid_token_message(s@));
        Err(m)
    }
}

impl std::str::FromStr for Symbol {
    type Err = String;

    fn from_str(s: &str) -> (r: Result<Symbol, String>)
        ensures
            r matches Err(m) && m@ == invalid_token_message(s@),
    {
        Symbol::parse_symbol(s)
    }
}

} // verus!
