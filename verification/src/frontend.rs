//! The stages of the compiler that come before code generation, on one
//! input: lexing, parsing and type checking.
use vstd::prelude::*;
use crate::lexer::scanner::{ok_tokens, spec_tokenize, tokenize};
use crate::parser::decl::{Program, decls_view};
use crate::parser::grammar::{PSt, parse_program_s};
use crate::parser::parsing::{Parser, ParserErrorKind, errs_view};
use crate::parser::precedence::PrecedenceTable;
use crate::semantics::symbols::SymbolTable;
use crate::semantics::type_checking::{SemanticErrorKind, outcome, type_check_program_checked};
use crate::semantics::typing::tc_program;

verus! {

/// What the stages before code generation make of one input.
#[derive(Debug)]
pub enum Analysis {
    /// The parser met errors; they are all here, in order.
    ParseErrors(Vec<ParserErrorKind>),
    /// The program parsed and type-checked, with the types recorded in it.
    Checked(Program),
}

/// Lexes, parses and type-checks one input. The precedence table keeps what
/// `binary` prototypes add to it, and the symbol table what the program
/// declares, for the inputs that follow. A type error ends the analysis; a
/// parse error does not reach the type checker. `None` stands for the inputs
/// on which a stage stops the process.
pub fn analyze(content: &str, prec: &mut PrecedenceTable, st: &mut SymbolTable) -> (r: Option<
    Result<Analysis, SemanticErrorKind>,
>)
    ensures
        match parse_program_s(
            ok_tokens(spec_tokenize(content@)),
            PSt { pos: 0, prec: old(prec)@ },
            Seq::empty(),
        ) {
            None => r is None,
            Some((res, errs, pst)) => {
                &&& final(prec)@ == pst.prec
                &&& match res {
                    Err(es) => {
                        &&& final(st)@ == old(st)@
                        &&& r matches Some(Ok(Analysis::ParseErrors(v)))
                        &&& errs_view(v@) == es
                    },
                    Ok(decls) => {
                        let (tr, ds1, st1) = tc_program(decls, old(st)@);
                        &&& final(st)@ == st1
                        &&& match outcome(tr) {
                            None => r is None,
                            Some(Ok(_)) => r matches Some(Ok(Analysis::Checked(p))) && decls_view(p@) == ds1,
                            Some(Err(e)) => r matches Some(Err(e2)) && e2@ == e,
                        }
                    },
                }
            },
        },
{
    let tokens = tokenize(content);
    let mut table = PrecedenceTable::new();
    std::mem::swap(prec, &mut table);
    let mut parser = Parser::new(tokens, table);
    let parsed = parser.parse_program_checked();
    *prec = parser.into_binop_precedence();
    match parsed {
        None => None,
        Some(Err(es)) => Some(Ok(Analysis::ParseErrors(es))),
        Some(Ok(program)) => {
            let mut program = program;
            match type_check_program_checked(&mut program, st) {
                None => None,
                Some(Ok(_)) => Some(Ok(Analysis::Checked(program))),
                Some(Err(e)) => Some(Err(e)),
            }
        },
    }
}

} // verus!
