use vstd::prelude::*;

verus! {

/// A literal constant. A floating-point literal keeps the text it was written
/// with; the value is computed where code is generated.
#[derive(Debug, PartialEq)]
pub enum Literal {
    F64(String),
    I64(i64),
    Unit,
}

/// Mathematical model of a literal.
pub enum LiteralM {
    F64(Seq<char>),
    I64(i64),
    Unit,
}

impl View for Literal {
    type V = LiteralM;

    open spec fn view(&self) -> LiteralM {
        match self {
            Literal::F64(s) => LiteralM::F64(s@),
            Literal::I64(n) => LiteralM::I64(*n),
            Literal::Unit => LiteralM::Unit,
        }
    }
}

impl Literal {
    /// A copy with the same model.
    pub fn copy(&self) -> (r: Literal)
        ensures
            r@ == self@,
    {
        match self {
            Literal::F64(s) => Literal::F64(s.clone()),
            Literal::I64(n) => Literal::I64(*n),
            Literal::Unit => Literal::Unit,
        }
    }
}

} // verus!
