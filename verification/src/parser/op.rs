use vstd::prelude::*;

verus! {

/// A binary operator; characters without a built-in meaning are user-defined.
#[derive(Clone, Copy, Debug, PartialEq, Eq, Structural)]
pub enum BinaryOp {
    Add,
    Lt,
    Mult,
    Sub,
    Assign,
    UserDefined(char),
}

/// A unary operator, always user-defined.
#[derive(Clone, Copy, Debug, PartialEq, Eq, Structural)]
pub enum UnaryOp {
    UserDefined(char),
}

/// The operator that a character denotes when it stands between two operands.
pub open spec fn spec_binary_op_of(c: char) -> BinaryOp {
    if c == '+' {
        BinaryOp::Add
    } else if c == '-' {
        BinaryOp::Sub
    } else if c == '*' {
        BinaryOp::Mult
    } else if c == '<' {
        BinaryOp::Lt
    } else if c == '=' {
        BinaryOp::Assign
    } else {
        BinaryOp::UserDefined(c)
    }
}

/// The character that spells a binary operator.
pub open spec fn spec_binary_op_char(op: BinaryOp) -> char {
    match op {
        BinaryOp::Add => '+',
        BinaryOp::Lt => '<',
        BinaryOp::Mult => '*',
        BinaryOp::Sub => '-',
        BinaryOp::Assign => '=',
        BinaryOp::UserDefined(c) => c,
    }
}

impl BinaryOp {
    /// The operator that a character denotes.
    pub fn from_char(tok: char) -> (r: BinaryOp)
        ensures
            r == spec_binary_op_of(tok),
    {
        match tok {
            '+' => BinaryOp::Add,
            '-' => BinaryOp::Sub,
            '*' => BinaryOp::Mult,
            '<' => BinaryOp::Lt,
            '=' => BinaryOp::Assign,
            c => BinaryOp::UserDefined(c),
        }
    }

    /// The operator's spelling, one character long.
    pub fn as_str(&self) -> (r: String)
        ensures
            r@ == seq![spec_binary_op_char(*self)],
    {
        let c = match self {
            BinaryOp::Add => '+',
            BinaryOp::Lt => '<',
            BinaryOp::Mult => '*',
            BinaryOp::Sub => '-',
            BinaryOp::Assign => '=',
            BinaryOp::UserDefined(c) => *c,
        };
        let mut s = String::new();
        crate::util::string_push(&mut s, c);
        assert(s@ =~= seq![c]);
        s
    }
}

impl UnaryOp {
    /// The operator that a character denotes in prefix position.
    pub fn from_char(tok: char) -> (r: UnaryOp)
        ensures
            r == UnaryOp::UserDefined(tok),
    {
        UnaryOp::UserDefined(tok)
    }

    /// The operator's spelling, one character long.
    pub fn as_str(&self) -> (r: String)
        ensures
            r@ == seq![match *self {
                UnaryOp::UserDefined(c) => c,
            }],
    {
        let UnaryOp::UserDefined(c) = self;
        let mut s = String::new();
        crate::util::string_push(&mut s, *c);
        assert(s@ =~= seq![*c]);
        s
    }
}

impl From<char> for BinaryOp {
    fn from(tok: char) -> (r: BinaryOp) {
        BinaryOp::from_char(tok)
    }
}

impl vstd::std_specs::convert::FromSpecImpl<char> for BinaryOp {
    open spec fn obeys_from_spec() -> bool {
        true
    }

    open spec fn from_spec(tok: char) -> BinaryOp {
        spec_binary_op_of(tok)
    }
}

impl From<char> for UnaryOp {
    fn from(tok: char) -> (r: UnaryOp) {
        UnaryOp::UserDefined(tok)
    }
}

impl vstd::std_specs::convert::FromSpecImpl<char> for UnaryOp {
    open spec fn obeys_from_spec() -> bool {
        true
    }

    open spec fn from_spec(tok: char) -> UnaryOp {
        UnaryOp::UserDefined(tok)
    }
}

/// Laws: reading back the spelling of an operator gives the same operator.
pub proof fn lemma_binary_op_spelling_roundtrip(op: BinaryOp)
    ensures
        spec_binary_op_of(spec_binary_op_char(op)) == op <==> (match op {
            BinaryOp::UserDefined(c) => c != '+' && c != '-' && c != '*' && c != '<' && c != '=',
            _ => true,
        }),
{
}

} // verus!
