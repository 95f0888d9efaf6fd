use vstd::prelude::*;
use crate::lexer::keywords::Keyword;

verus! {

/// An error of the lexer.
#[derive(Clone, Copy, Debug, PartialEq, Eq, Structural)]
pub enum LexerError {
    UnknownChar(char),
}

/// A token. A number keeps the text it was written with.
#[derive(Debug, PartialEq)]
pub enum TokenKind {
    Number(String),
    Identifier(String),
    Keyword(Keyword),
    Op(char),
}

/// What the lexer yields for each token.
pub type TokenResult = Result<TokenKind, LexerError>;

/// A number, classified: a double keeps its text, an integer its value.
#[derive(Debug, PartialEq)]
pub enum Typ {
    Double(String),
    Int(i64),
}

/// Mathematical model of a token.
pub enum TokenM {
    Number(Seq<char>),
    Identifier(Seq<char>),
    Keyword(Keyword),
    Op(char),
}

impl View for TokenKind {
    type V = TokenM;

    open spec fn view(&self) -> TokenM {
        match self {
            TokenKind::Number(s) => TokenM::Number(s@),
            TokenKind::Identifier(s) => TokenM::Identifier(s@),
            TokenKind::Keyword(k) => TokenM::Keyword(*k),
            TokenKind::Op(c) => TokenM::Op(*c),
        }
    }
}

/// The model of one item of a token stream.
pub open spec fn token_result_view(r: TokenResult) -> Result<TokenM, LexerError> {
    match r {
        Ok(t) => Ok(t@),
        Err(e) => Err(e),
    }
}

/// The model of a token stream.
pub open spec fn token_results_view(s: Seq<TokenResult>) -> Seq<Result<TokenM, LexerError>> {
    s.map_values(|r: TokenResult| token_result_view(r))
}

impl TokenKind {
    /// A copy of the token.
    pub fn copy(&self) -> (r: TokenKind)
        ensures
            r == *self,
            r@ == self@,
    {
        match self {
            TokenKind::Number(s) => TokenKind::Number(s.clone()),
            TokenKind::Identifier(s) => TokenKind::Identifier(s.clone()),
            TokenKind::Keyword(k) => TokenKind::Keyword(*k),
            TokenKind::Op(c) => TokenKind::Op(*c),
        }
    }

    /// The character of an operator token.
    pub fn into_op(self) -> (c: char)
        requires
            self is Op,
        ensures
            self == TokenKind::Op(c),
    {
        match self {
            TokenKind::Op(c) => c,
            _ => { proof { assert(false); } ' ' },
        }
    }

    /// The name of an identifier token.
    pub fn into_identifier(self) -> (i: String)
        requires
            self is Identifier,
        ensures
            self == TokenKind::Identifier(i),
    {
        match self {
            TokenKind::Identifier(i) => i,
            _ => { proof { assert(false); } String::new() },
        }
    }

    /// The keyword of a keyword token.
    pub fn into_keyword(self) -> (k: Keyword)
        requires
            self is Keyword,
        ensures
            self == TokenKind::Keyword(k),
    {
        match self {
            TokenKind::Keyword(k) => k,
            _ => { proof { assert(false); } Keyword::Def },
        }
    }

    /// The text of a number token.
    pub fn into_number(self) -> (n: String)
        requires
            self is Number,
        ensures
            self == TokenKind::Number(n),
    {
        match self {
            TokenKind::Number(n) => n,
            _ => { proof { assert(false); } String::new() },
        }
    }
}

impl Typ {
    /// The value of an integer.
    pub fn into_int(self) -> (n: i64)
        requires
            self is Int,
        ensures
            self == Typ::Int(n),
    {
        match self {
            Typ::Int(n) => n,
            _ => { proof { assert(false); } 0 },
        }
    }
}

} // verus!
