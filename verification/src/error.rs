//! The errors of the whole compiler, one kind for each stage.
use vstd::prelude::*;
use crate::lexer::tokens::LexerError;
use crate::parser::parsing::ParserErrorKind;
use crate::semantics::type_checking::SemanticErrorKind;

verus! {

/// `std::io::Error`, carried through unread.
#[verifier::external_type_specification]
#[verifier::external_body]
pub struct ExIoError(std::io::Error);

/// An error of any stage of the compiler.
#[derive(Debug)]
pub enum CompilerError {
    Io(std::io::Error),
    Lexer(LexerError),
    Parser(ParserErrorKind),
    Llvm(String),
    Semantic(SemanticErrorKind),
}

/// A parser error that only passes a lexer error on is reported as the
/// lexer's.
impl From<ParserErrorKind> for CompilerError {
    fn from(error: ParserErrorKind) -> (r: CompilerError) {
        match error {
            ParserErrorKind::LexerError(e) => CompilerError::Lexer(e),
            _ => CompilerError::Parser(error),
        }
    }
}

impl vstd::std_specs::convert::FromSpecImpl<ParserErrorKind> for CompilerError {
    open spec fn obeys_from_spec() -> bool {
        true
    }

    open spec fn from_spec(error: ParserErrorKind) -> CompilerError {
        match error {
            ParserErrorKind::LexerError(e) => CompilerError::Lexer(e),
            _ => CompilerError::Parser(error),
        }
    }
}

impl From<SemanticErrorKind> for CompilerError {
    fn from(error: SemanticErrorKind) -> (r: CompilerError) {
        CompilerError::Semantic(error)
    }
}

impl vstd::std_specs::convert::FromSpecImpl<SemanticErrorKind> for CompilerError {
    open spec fn obeys_from_spec() -> bool {
        true
    }

    open spec fn from_spec(error: SemanticErrorKind) -> CompilerError {
        CompilerError::Semantic(error)
    }
}

impl From<std::io::Error> for CompilerError {
    fn from(error: std::io::Error) -> (r: CompilerError) {
        CompilerError::Io(error)
    }
}

impl vstd::std_specs::convert::FromSpecImpl<std::io::Error> for CompilerError {
    open spec fn obeys_from_spec() -> bool {
        true
    }

    open spec fn from_spec(error: std::io::Error) -> CompilerError {
        CompilerError::Io(error)
    }
}

} // verus!
