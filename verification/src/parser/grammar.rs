//! The grammar of the language, as the recursive-descent parser reads it:
//! each function takes the token stream and a parser state (the position of
//! the next token and the precedence table, which `binary` prototypes extend)
//! and gives the result and the state after it.
use vstd::prelude::*;
use crate::lexer::keywords::Keyword;
use crate::lexer::tokens::{LexerError, TokenM};
use crate::parser::decl::{ArgM, DeclM, ProtoM};
use crate::parser::expr::{ConsKind, ExprM, VarInfoM};
use crate::parser::literals::LiteralM;
use crate::parser::numbers::{float_text_ok, has_dot, lemma_split_dot_join, spec_parse_i64, split_dot};
use crate::parser::op::{BinaryOp, UnaryOp, spec_binary_op_of};
use crate::parser::types::TypeM;

verus! {

/// Model of a parser error.
pub enum PErrM {
    LexerError(LexerError),
    UnexpectedToken(TokenM),
    UnexpectedEof,
    InvalidSignatuere,
}

/// How a parse can fail: with an error that the parser reports, or by
/// reaching an input on which the parser stops the process.
pub enum FailM {
    Error(PErrM),
    Abort,
}

/// The state of the parser: position of the next token and precedence table.
pub struct PSt {
    pub pos: int,
    pub prec: Map<char, i8>,
}

/// The token stream, as the lexer yields it.
pub type Toks = Seq<Result<TokenM, LexerError>>;

/// A character in the ASCII range.
pub open spec fn is_ascii_char(c: char) -> bool {
    (c as u32) < 128
}

pub open spec fn at(st: PSt, p: int) -> PSt {
    PSt { pos: p, prec: st.prec }
}

/// The state moved forward, or kept, within the stream.
pub open spec fn fwd(t: Toks, a: PSt, b: PSt) -> bool {
    a.pos <= b.pos <= t.len()
}

/// The state moved strictly forward within the stream.
pub open spec fn fwd_strict(t: Toks, a: PSt, b: PSt) -> bool {
    a.pos < b.pos <= t.len()
}

pub open spec fn lex_fail(e: LexerError) -> FailM {
    FailM::Error(PErrM::LexerError(e))
}

pub open spec fn unexpected(tok: TokenM) -> FailM {
    FailM::Error(PErrM::UnexpectedToken(tok))
}

pub open spec fn eof_fail() -> FailM {
    FailM::Error(PErrM::UnexpectedEof)
}

/// The next token without consuming it; `None` at the end.
pub open spec fn opt_peek_s(t: Toks, st: PSt) -> Result<Option<TokenM>, FailM> {
    if 0 <= st.pos < t.len() {
        match t[st.pos] {
            Ok(tok) => Ok(Some(tok)),
            Err(e) => Err(lex_fail(e)),
        }
    } else {
        Ok(None)
    }
}

/// The next token without consuming it; the end is an error.
pub open spec fn peek_s(t: Toks, st: PSt) -> Result<TokenM, FailM> {
    match opt_peek_s(t, st) {
        Ok(Some(tok)) => Ok(tok),
        Ok(None) => Err(eof_fail()),
        Err(f) => Err(f),
    }
}

/// Consumes the next token, if there is one.
pub open spec fn consume_s(t: Toks, st: PSt) -> (Result<TokenM, FailM>, PSt) {
    if 0 <= st.pos < t.len() {
        (
            match t[st.pos] {
                Ok(tok) => Ok(tok),
                Err(e) => Err(lex_fail(e)),
            },
            at(st, st.pos + 1),
        )
    } else {
        (Err(eof_fail()), st)
    }
}

/// Whether the next token is the operator `c`.
pub open spec fn peek_is_op(t: Toks, st: PSt, c: char) -> bool {
    peek_s(t, st) == Ok::<TokenM, FailM>(TokenM::Op(c))
}

/// Whether the next token is the keyword `k`.
pub open spec fn peek_is_kw(t: Toks, st: PSt, k: Keyword) -> bool {
    peek_s(t, st) == Ok::<TokenM, FailM>(TokenM::Keyword(k))
}

/// The failure for a token other than the one expected: the peek's own error,
/// or the unexpected token.
pub open spec fn peek_fail(t: Toks, st: PSt) -> FailM {
    match peek_s(t, st) {
        Ok(tok) => unexpected(tok),
        Err(f) => f,
    }
}

/// Consumes the operator `c`, which must come next.
pub open spec fn expect_op(t: Toks, st: PSt, c: char) -> (Result<(), FailM>, PSt) {
    if peek_is_op(t, st, c) {
        let (r, st1) = consume_s(t, st);
        match r {
            Ok(_) => (Ok(()), st1),
            Err(f) => (Err(f), st1),
        }
    } else {
        (Err(peek_fail(t, st)), st)
    }
}

/// Consumes the keyword `k`, which must come next.
pub open spec fn expect_kw(t: Toks, st: PSt, k: Keyword) -> (Result<(), FailM>, PSt) {
    if peek_is_kw(t, st, k) {
        let (r, st1) = consume_s(t, st);
        match r {
            Ok(_) => (Ok(()), st1),
            Err(f) => (Err(f), st1),
        }
    } else {
        (Err(peek_fail(t, st)), st)
    }
}

/// The precedence of the next token as a binary operator; -1 where it is
/// none.
pub open spec fn token_prec_s(t: Toks, st: PSt) -> Result<int, FailM> {
    match opt_peek_s(t, st) {
        Err(f) => Err(f),
        Ok(Some(TokenM::Op(c))) => if is_ascii_char(c) && st.prec.dom().contains(c) {
            Ok(st.prec[c] as int)
        } else {
            Ok(-1)
        },
        Ok(_) => Ok(-1),
    }
}

// ---------------------------------------------------------------- types

/// `double`, `int`, `()`, a tuple type `(t, ...)` or a list type `[t]`.
pub open spec fn parse_type_s(t: Toks, st: PSt) -> (Result<TypeM, FailM>, PSt)
    decreases t.len() - st.pos, 10int,
{
    match peek_s(t, st) {
        Err(f) => (Err(f), st),
        Ok(TokenM::Keyword(Keyword::Double)) => {
            let (r, st1) = consume_s(t, st);
            (
                match r {
                    Ok(_) => Ok(TypeM::F64),
                    Err(f) => Err(f),
                },
                st1,
            )
        },
        Ok(TokenM::Keyword(Keyword::Int)) => {
            let (r, st1) = consume_s(t, st);
            (
                match r {
                    Ok(_) => Ok(TypeM::I64),
                    Err(f) => Err(f),
                },
                st1,
            )
        },
        Ok(TokenM::Op(c)) => if c == '(' {
            let (r, st1) = consume_s(t, st);
            match r {
                Err(f) => (Err(f), st1),
                Ok(_) => if peek_is_op(t, st1, ')') {
                    let (r2, st2) = consume_s(t, st1);
                    (
                        match r2 {
                            Ok(_) => Ok(TypeM::Unit),
                            Err(f) => Err(f),
                        },
                        st2,
                    )
                } else {
                    match peek_s(t, st1) {
                        Err(f) => (Err(f), st1),
                        Ok(_) => if fwd_strict(t, st, st1) {
                            tuple_type_loop_s(t, st1, Seq::empty())
                        } else {
                            (Err(FailM::Abort), st1)
                        },
                    }
                },
            }
        } else if c == '[' {
            let (r, st1) = consume_s(t, st);
            match r {
                Err(f) => (Err(f), st1),
                Ok(_) => if fwd_strict(t, st, st1) {
                    let (r2, st2) = parse_type_s(t, st1);
                    match r2 {
                        Err(f) => (Err(f), st2),
                        Ok(elem) => {
                            let (r3, st3) = expect_op(t, st2, ']');
                            (
                                match r3 {
                                    Ok(_) => Ok(TypeM::List(Some(Box::new(elem)))),
                                    Err(f) => Err(f),
                                },
                                st3,
                            )
                        },
                    }
                } else {
                    (Err(FailM::Abort), st1)
                },
            }
        } else {
            (Err(unexpected(TokenM::Op(c))), st)
        },
        Ok(tok) => (Err(unexpected(tok)), st),
    }
}

/// The element types of a tuple type, after its `(`, up to and with its `)`.
pub open spec fn tuple_type_loop_s(t: Toks, st: PSt, acc: Seq<TypeM>) -> (Result<TypeM, FailM>, PSt)
    decreases t.len() - st.pos, 11int,
{
    let (r, st1) = parse_type_s(t, st);
    match r {
        Err(f) => (Err(f), st1),
        Ok(ty) => {
            let acc1 = acc.push(ty);
            match peek_s(t, st1) {
                Err(f) => (Err(f), st1),
                Ok(TokenM::Op(c)) => if c == ',' {
                    let (r2, st2) = consume_s(t, st1);
                    match r2 {
                        Err(f) => (Err(f), st2),
                        Ok(_) => if fwd(t, st, st1) && fwd_strict(t, st1, st2) {
                            tuple_type_loop_s(t, st2, acc1)
                        } else {
                            (Err(FailM::Abort), st2)
                        },
                    }
                } else if c == ')' {
                    let (r2, st2) = consume_s(t, st1);
                    (
                        match r2 {
                            Ok(_) => Ok(TypeM::Tuple(acc1)),
                            Err(f) => Err(f),
                        },
                        st2,
                    )
                } else {
                    (Err(unexpected(TokenM::Op(c))), st1)
                },
                Ok(tok) => (Err(unexpected(tok)), st1),
            }
        },
    }
}

// ---------------------------------------------------------------- expressions

/// Appends an element to the result of a sub-parse.
pub open spec fn push_to<T>(r: Result<T, FailM>, acc: Seq<T>) -> Result<Seq<T>, FailM> {
    match r {
        Ok(x) => Ok(acc.push(x)),
        Err(f) => Err(f),
    }
}

/// An expression: a unary expression, then binary operators by precedence.
pub open spec fn parse_expr_s(t: Toks, st: PSt) -> (Result<ExprM, FailM>, PSt)
    decreases t.len() - st.pos, 50int,
{
    let (r1, st1) = parse_unary_s(t, st);
    match r1 {
        Err(f) => (Err(f), st1),
        Ok(lhs) => if fwd(t, st, st1) {
            bin_op_rhs_s(t, st1, 0, lhs)
        } else {
            (Err(FailM::Abort), st1)
        },
    }
}

/// A prefix operator (any ASCII operator but `(`, `,` and `[`) applied to a
/// unary expression, or a primary expression.
pub open spec fn parse_unary_s(t: Toks, st: PSt) -> (Result<ExprM, FailM>, PSt)
    decreases t.len() - st.pos, 45int,
{
    match peek_s(t, st) {
        Err(f) => (Err(f), st),
        Ok(TokenM::Op(c)) => if is_ascii_char(c) && c != '(' && c != ',' && c != '[' {
            let (r1, st1) = consume_s(t, st);
            match r1 {
                Err(f) => (Err(f), st1),
                Ok(_) => if fwd_strict(t, st, st1) {
                    let (r2, st2) = parse_unary_s(t, st1);
                    (
                        match r2 {
                            Ok(e) => Ok(ExprM::Unary(UnaryOp::UserDefined(c), Box::new(e))),
                            Err(f) => Err(f),
                        },
                        st2,
                    )
                } else {
                    (Err(FailM::Abort), st1)
                },
            }
        } else {
            parse_primary_s(t, st)
        },
        Ok(_) => parse_primary_s(t, st),
    }
}

/// The binary operators that follow `lhs`, each with a precedence of at
/// least `expr_prec`.
pub open spec fn bin_op_rhs_s(t: Toks, st: PSt, expr_prec: int, lhs: ExprM) -> (Result<ExprM, FailM>, PSt)
    decreases t.len() - st.pos, 40int,
{
    match token_prec_s(t, st) {
        Err(f) => (Err(f), st),
        Ok(tok_prec) => if tok_prec < expr_prec {
            (Ok(lhs), st)
        } else {
            let (r1, st1) = consume_s(t, st);
            match r1 {
                Err(f) => (Err(f), st1),
                Ok(bin_tok) => if fwd_strict(t, st, st1) {
                    let (r2, st2) = parse_unary_s(t, st1);
                    match r2 {
                        Err(f) => (Err(f), st2),
                        Ok(rhs) => if fwd(t, st1, st2) {
                            match token_prec_s(t, st2) {
                                Err(f) => (Err(f), st2),
                                Ok(next_prec) => {
                                    let (r3, st3) = if tok_prec < next_prec {
                                        bin_op_rhs_s(t, st2, tok_prec + 1, rhs)
                                    } else {
                                        (Ok(rhs), st2)
                                    };
                                    match r3 {
                                        Err(f) => (Err(f), st3),
                                        Ok(rhs2) => match bin_tok {
                                            TokenM::Op(c) => if fwd(t, st2, st3) {
                                                bin_op_rhs_s(
                                                    t,
                                                    st3,
                                                    expr_prec,
                                                    ExprM::Binary(spec_binary_op_of(c), Box::new(lhs), Box::new(rhs2)),
                                                )
                                            } else {
                                                (Err(FailM::Abort), st3)
                                            },
                                            _ => (Err(FailM::Abort), st3),
                                        },
                                    }
                                },
                            }
                        } else {
                            (Err(FailM::Abort), st2)
                        },
                    }
                } else {
                    (Err(FailM::Abort), st1)
                },
            }
        },
    }
}

/// An identifier, a call, a number, a parenthesized expression or tuple, a
/// list, `if`, `for` or `var`; then any field or index projections.
pub open spec fn parse_primary_s(t: Toks, st: PSt) -> (Result<ExprM, FailM>, PSt)
    decreases t.len() - st.pos, 44int,
{
    let (r, st1) = match peek_s(t, st) {
        Err(f) => (Err(f), st),
        Ok(TokenM::Identifier(_)) => parse_identifier_s(t, st),
        Ok(TokenM::Number(_)) => parse_number_s(t, st),
        Ok(TokenM::Op(c)) => if c == '(' {
            parse_paren_s(t, st)
        } else if c == '[' {
            parse_square_s(t, st)
        } else {
            (Err(unexpected(TokenM::Op(c))), st)
        },
        Ok(TokenM::Keyword(Keyword::If)) => parse_if_s(t, st),
        Ok(TokenM::Keyword(Keyword::For)) => parse_for_s(t, st),
        Ok(TokenM::Keyword(Keyword::Var)) => parse_var_s(t, st),
        Ok(tok) => (Err(unexpected(tok)), st),
    };
    match r {
        Err(f) => (Err(f), st1),
        Ok(e) => if fwd(t, st, st1) {
            parse_post_primary_s(t, st1, e)
        } else {
            (Err(FailM::Abort), st1)
        },
    }
}

/// Field projections `.n` (or `.n.m`, which the lexer reads as one number)
/// and index projections `[e]` after an expression.
pub open spec fn parse_post_primary_s(t: Toks, st: PSt, e: ExprM) -> (Result<ExprM, FailM>, PSt)
    decreases t.len() - st.pos, 43int,
{
    match opt_peek_s(t, st) {
        Err(f) => (Err(f), st),
        Ok(Some(TokenM::Op(c))) => if c == '.' {
            let (r1, st1) = consume_s(t, st);
            match r1 {
                Err(f) => (Err(f), st1),
                Ok(_) => if fwd_strict(t, st, st1) {
                    parse_field_number_s(t, st1, e)
                } else {
                    (Err(FailM::Abort), st1)
                },
            }
        } else if c == '[' {
            let (r1, st1) = consume_s(t, st);
            match r1 {
                Err(f) => (Err(f), st1),
                Ok(_) => if fwd_strict(t, st, st1) {
                    let (r2, st2) = parse_expr_s(t, st1);
                    match r2 {
                        Err(f) => (Err(f), st2),
                        Ok(idx) => {
                            let (r3, st3) = expect_op(t, st2, ']');
                            match r3 {
                                Err(f) => (Err(f), st3),
                                Ok(_) => if fwd(t, st1, st2) && fwd(t, st2, st3) {
                                    parse_post_primary_s(
                                        t,
                                        st3,
                                        ExprM::Projection(Box::new(e), Box::new(idx), None),
                                    )
                                } else {
                                    (Err(FailM::Abort), st3)
                                },
                            }
                        },
                    }
                } else {
                    (Err(FailM::Abort), st1)
                },
            }
        } else {
            (Ok(e), st)
        },
        Ok(_) => (Ok(e), st),
    }
}

/// An integer literal as a projection index.
pub open spec fn index_lit(n: i64) -> Box<ExprM> {
    Box::new(ExprM::Literal(LiteralM::I64(n)))
}

/// The field number after a `.`.
pub open spec fn parse_field_number_s(t: Toks, st: PSt, e: ExprM) -> (Result<ExprM, FailM>, PSt)
    decreases t.len() - st.pos, 42int,
{
    let (r1, st1) = consume_s(t, st);
    match r1 {
        Err(f) => (Err(f), st1),
        Ok(TokenM::Number(n)) => if fwd_strict(t, st, st1) {
            if has_dot(n) {
                let (a, b) = split_dot(n);
                match (spec_parse_i64(a), spec_parse_i64(b)) {
                    (Some(x), Some(y)) => parse_post_primary_s(
                        t,
                        st1,
                        ExprM::Projection(
                            Box::new(ExprM::Projection(Box::new(e), index_lit(x), None)),
                            index_lit(y),
                            None,
                        ),
                    ),
                    _ => (Err(FailM::Abort), st1),
                }
            } else {
                match spec_parse_i64(n) {
                    Some(x) => parse_post_primary_s(
                        t,
                        st1,
                        ExprM::Projection(Box::new(e), index_lit(x), None),
                    ),
                    None => (Err(FailM::Abort), st1),
                }
            }
        } else {
            (Err(FailM::Abort), st1)
        },
        Ok(_) => (Err(FailM::Abort), st1),
    }
}

/// A number literal: a double where the text holds a point, else an integer.
pub open spec fn parse_number_s(t: Toks, st: PSt) -> (Result<ExprM, FailM>, PSt) {
    let (r1, st1) = consume_s(t, st);
    match r1 {
        Err(f) => (Err(f), st1),
        Ok(TokenM::Number(n)) => if has_dot(n) {
            if float_text_ok(n) {
                (Ok(ExprM::Literal(LiteralM::F64(n))), st1)
            } else {
                (Err(FailM::Abort), st1)
            }
        } else {
            match spec_parse_i64(n) {
                Some(v) => (Ok(ExprM::Literal(LiteralM::I64(v))), st1),
                None => (Err(FailM::Abort), st1),
            }
        },
        Ok(_) => (Err(FailM::Abort), st1),
    }
}

/// A variable, or a call `name(args)`.
pub open spec fn parse_identifier_s(t: Toks, st: PSt) -> (Result<ExprM, FailM>, PSt)
    decreases t.len() - st.pos, 30int,
{
    let (r1, st1) = consume_s(t, st);
    match r1 {
        Err(f) => (Err(f), st1),
        Ok(TokenM::Identifier(id)) => match opt_peek_s(t, st1) {
            Err(f) => (Err(f), st1),
            Ok(next) => if next != Some(TokenM::Op('(')) {
                (Ok(ExprM::Identifier(id, None)), st1)
            } else {
                let (r2, st2) = consume_s(t, st1);
                match r2 {
                    Err(f) => (Err(f), st2),
                    Ok(_) => match peek_s(t, st2) {
                        Err(f) => (Err(f), st2),
                        Ok(tok) => {
                            let (r3, st3) = if tok == TokenM::Op(')') {
                                (Ok(Seq::empty()), st2)
                            } else if fwd_strict(t, st, st2) {
                                call_args_loop_s(t, st2, Seq::empty())
                            } else {
                                (Err(FailM::Abort), st2)
                            };
                            match r3 {
                                Err(f) => (Err(f), st3),
                                Ok(args) => {
                                    let (r4, st4) = consume_s(t, st3);
                                    (
                                        match r4 {
                                            Ok(_) => Ok(ExprM::Call(id, args, None)),
                                            Err(f) => Err(f),
                                        },
                                        st4,
                                    )
                                },
                            }
                        },
                    },
                }
            },
        },
        Ok(_) => (Err(FailM::Abort), st1),
    }
}

/// The arguments of a call, separated by commas, up to (not over) its `)`.
pub open spec fn call_args_loop_s(t: Toks, st: PSt, acc: Seq<ExprM>) -> (Result<Seq<ExprM>, FailM>, PSt)
    decreases t.len() - st.pos, 52int,
{
    let (r1, st1) = parse_expr_s(t, st);
    match r1 {
        Err(f) => (Err(f), st1),
        Ok(e) => match peek_s(t, st1) {
            Err(f) => (Err(f), st1),
            Ok(TokenM::Op(c)) => if c == ')' {
                (Ok(acc.push(e)), st1)
            } else if c == ',' {
                let (r2, st2) = consume_s(t, st1);
                match r2 {
                    Err(f) => (Err(f), st2),
                    Ok(_) => if fwd(t, st, st1) && fwd_strict(t, st1, st2) {
                        call_args_loop_s(t, st2, acc.push(e))
                    } else {
                        (Err(FailM::Abort), st2)
                    },
                }
            } else {
                (Err(unexpected(TokenM::Op(c))), st1)
            },
            Ok(tok) => (Err(unexpected(tok)), st1),
        },
    }
}

/// More comma-separated elements after the first of a tuple or list.
pub open spec fn cons_loop_s(t: Toks, st: PSt, acc: Seq<ExprM>, kind: ConsKind) -> (Result<ExprM, FailM>, PSt)
    decreases t.len() - st.pos, 52int,
{
    match peek_s(t, st) {
        Err(f) => (Err(f), st),
        Ok(tok) => if tok != TokenM::Op(',') {
            (Ok(ExprM::Cons(acc, kind)), st)
        } else {
            let (r1, st1) = consume_s(t, st);
            match r1 {
                Err(f) => (Err(f), st1),
                Ok(_) => if fwd_strict(t, st, st1) {
                    let (r2, st2) = parse_expr_s(t, st1);
                    match r2 {
                        Err(f) => (Err(f), st2),
                        Ok(e) => if fwd(t, st1, st2) {
                            cons_loop_s(t, st2, acc.push(e), kind)
                        } else {
                            (Err(FailM::Abort), st2)
                        },
                    }
                } else {
                    (Err(FailM::Abort), st1)
                },
            }
        },
    }
}

/// `()`, `(e)` or a tuple `(e, ...)`.
pub open spec fn parse_paren_s(t: Toks, st: PSt) -> (Result<ExprM, FailM>, PSt)
    decreases t.len() - st.pos, 30int,
{
    let (r1, st1) = consume_s(t, st);
    match r1 {
        Err(f) => (Err(f), st1),
        Ok(_) => if !fwd_strict(t, st, st1) {
            (Err(FailM::Abort), st1)
        } else if peek_is_op(t, st1, ')') {
            let (r2, st2) = consume_s(t, st1);
            (
                match r2 {
                    Ok(_) => Ok(ExprM::Literal(LiteralM::Unit)),
                    Err(f) => Err(f),
                },
                st2,
            )
        } else {
            match peek_s(t, st1) {
                Err(f) => (Err(f), st1),
                Ok(_) => {
                    let (r2, st2) = parse_expr_s(t, st1);
                    match r2 {
                        Err(f) => (Err(f), st2),
                        Ok(v) => if !fwd(t, st1, st2) {
                            (Err(FailM::Abort), st2)
                        } else if peek_is_op(t, st2, ',') {
                            let (r3, st3) = cons_loop_s(t, st2, seq![v], ConsKind::Tuple);
                            match r3 {
                                Err(f) => (Err(f), st3),
                                Ok(tup) => {
                                    let (r4, st4) = expect_op(t, st3, ')');
                                    (
                                        match r4 {
                                            Ok(_) => Ok(tup),
                                            Err(f) => Err(f),
                                        },
                                        st4,
                                    )
                                },
                            }
                        } else {
                            let (r3, st3) = expect_op(t, st2, ')');
                            (
                                match r3 {
                                    Ok(_) => Ok(v),
                                    Err(f) => Err(f),
                                },
                                st3,
                            )
                        },
                    }
                },
            }
        },
    }
}

/// `[]` or a list `[e, ...]`.
pub open spec fn parse_square_s(t: Toks, st: PSt) -> (Result<ExprM, FailM>, PSt)
    decreases t.len() - st.pos, 30int,
{
    let (r1, st1) = consume_s(t, st);
    match r1 {
        Err(f) => (Err(f), st1),
        Ok(_) => if !fwd_strict(t, st, st1) {
            (Err(FailM::Abort), st1)
        } else if peek_is_op(t, st1, ']') {
            let (r2, st2) = consume_s(t, st1);
            (
                match r2 {
                    Ok(_) => Ok(ExprM::Cons(Seq::empty(), ConsKind::List)),
                    Err(f) => Err(f),
                },
                st2,
            )
        } else {
            match peek_s(t, st1) {
                Err(f) => (Err(f), st1),
                Ok(_) => {
                    let (r2, st2) = parse_expr_s(t, st1);
                    match r2 {
                        Err(f) => (Err(f), st2),
                        Ok(v) => if !fwd(t, st1, st2) {
                            (Err(FailM::Abort), st2)
                        } else {
                            let (r3, st3) = cons_loop_s(t, st2, seq![v], ConsKind::List);
                            match r3 {
                                Err(f) => (Err(f), st3),
                                Ok(lst) => {
                                    let (r4, st4) = expect_op(t, st3, ']');
                                    (
                                        match r4 {
                                            Ok(_) => Ok(lst),
                                            Err(f) => Err(f),
                                        },
                                        st4,
                                    )
                                },
                            }
                        },
                    }
                },
            }
        },
    }
}

/// `if c then a else b`.
pub open spec fn parse_if_s(t: Toks, st: PSt) -> (Result<ExprM, FailM>, PSt)
    decreases t.len() - st.pos, 30int,
{
    let (r1, st1) = consume_s(t, st);
    match r1 {
        Err(f) => (Err(f), st1),
        Ok(_) => if !fwd_strict(t, st, st1) {
            (Err(FailM::Abort), st1)
        } else {
            let (r2, st2) = parse_expr_s(t, st1);
            match r2 {
                Err(f) => (Err(f), st2),
                Ok(cond) => {
                    let (r3, st3) = expect_kw(t, st2, Keyword::Then);
                    match r3 {
                        Err(f) => (Err(f), st3),
                        Ok(_) => if !(fwd(t, st1, st2) && fwd(t, st2, st3)) {
                            (Err(FailM::Abort), st3)
                        } else {
                            let (r4, st4) = parse_expr_s(t, st3);
                            match r4 {
                                Err(f) => (Err(f), st4),
                                Ok(then) => {
                                    let (r5, st5) = expect_kw(t, st4, Keyword::Else);
                                    match r5 {
                                        Err(f) => (Err(f), st5),
                                        Ok(_) => if !(fwd(t, st3, st4) && fwd(t, st4, st5)) {
                                            (Err(FailM::Abort), st5)
                                        } else {
                                            let (r6, st6) = parse_expr_s(t, st5);
                                            (
                                                match r6 {
                                                    Ok(els) => Ok(
                                                        ExprM::IfThenElse(
                                                            Box::new(cond),
                                                            Box::new(then),
                                                            Box::new(els),
                                                        ),
                                                    ),
                                                    Err(f) => Err(f),
                                                },
                                                st6,
                                            )
                                        },
                                    }
                                },
                            }
                        },
                    }
                },
            }
        },
    }
}

/// The optional `, step` of a `for` loop.
pub open spec fn parse_for_step_s(t: Toks, st: PSt) -> (Result<Option<Box<ExprM>>, FailM>, PSt)
    decreases t.len() - st.pos, 30int,
{
    match peek_s(t, st) {
        Err(f) => (Err(f), st),
        Ok(tok) => if tok == TokenM::Op(',') {
            let (r1, st1) = consume_s(t, st);
            match r1 {
                Err(f) => (Err(f), st1),
                Ok(_) => if fwd_strict(t, st, st1) {
                    let (r2, st2) = parse_expr_s(t, st1);
                    (
                        match r2 {
                            Ok(e) => Ok(Some(Box::new(e))),
                            Err(f) => Err(f),
                        },
                        st2,
                    )
                } else {
                    (Err(FailM::Abort), st1)
                },
            }
        } else {
            (Ok(None), st)
        },
    }
}

/// `for id = start, end [, step] in body`.
pub open spec fn parse_for_s(t: Toks, st: PSt) -> (Result<ExprM, FailM>, PSt)
    decreases t.len() - st.pos, 30int,
{
    let (r1, st1) = consume_s(t, st);
    match r1 {
        Err(f) => (Err(f), st1),
        Ok(_) => match peek_s(t, st1) {
            Err(f) => (Err(f), st1),
            Ok(TokenM::Identifier(id)) => {
                let (r2, st2) = consume_s(t, st1);
                match r2 {
                    Err(f) => (Err(f), st2),
                    Ok(_) => {
                        let (r3, st3) = expect_op(t, st2, '=');
                        match r3 {
                            Err(f) => (Err(f), st3),
                            Ok(_) => if !(fwd_strict(t, st, st1) && fwd(t, st1, st2) && fwd(t, st2, st3)) {
                                (Err(FailM::Abort), st3)
                            } else {
                                let (r4, st4) = parse_expr_s(t, st3);
                                match r4 {
                                    Err(f) => (Err(f), st4),
                                    Ok(start) => {
                                        let (r5, st5) = expect_op(t, st4, ',');
                                        match r5 {
                                            Err(f) => (Err(f), st5),
                                            Ok(_) => if !(fwd(t, st3, st4) && fwd(t, st4, st5)) {
                                                (Err(FailM::Abort), st5)
                                            } else {
                                                let (r6, st6) = parse_expr_s(t, st5);
                                                match r6 {
                                                    Err(f) => (Err(f), st6),
                                                    Ok(end) => if !fwd(t, st5, st6) {
                                                        (Err(FailM::Abort), st6)
                                                    } else {
                                                        let (r7, st7) = parse_for_step_s(t, st6);
                                                        match r7 {
                                                            Err(f) => (Err(f), st7),
                                                            Ok(step) => {
                                                                let (r8, st8) = expect_kw(t, st7, Keyword::In);
                                                                match r8 {
                                                                    Err(f) => (Err(f), st8),
                                                                    Ok(_) => if !(fwd(t, st6, st7) && fwd(t, st7, st8)) {
                                                                        (Err(FailM::Abort), st8)
                                                                    } else {
                                                                        let (r9, st9) = parse_expr_s(t, st8);
                                                                        (
                                                                            match r9 {
                                                                                Ok(body) => Ok(
                                                                                    ExprM::ForLoop(
                                                                                        id,
                                                                                        Box::new(start),
                                                                                        Box::new(end),
                                                                                        step,
                                                                                        Box::new(body),
                                                                                    ),
                                                                                ),
                                                                                Err(f) => Err(f),
                                                                            },
                                                                            st9,
                                                                        )
                                                                    },
                                                                }
                                                            },
                                                        }
                                                    },
                                                }
                                            },
                                        }
                                    },
                                }
                            },
                        }
                    },
                }
            },
            Ok(tok) => (Err(unexpected(tok)), st1),
        },
    }
}

/// `var x [: t] [= e], ... in body`, where the body is a block.
pub open spec fn parse_var_s(t: Toks, st: PSt) -> (Result<ExprM, FailM>, PSt)
    decreases t.len() - st.pos, 30int,
{
    let (r1, st1) = consume_s(t, st);
    match r1 {
        Err(f) => (Err(f), st1),
        Ok(_) => match peek_s(t, st1) {
            Err(f) => (Err(f), st1),
            Ok(TokenM::Identifier(_)) => if !fwd_strict(t, st, st1) {
                (Err(FailM::Abort), st1)
            } else {
                let (r2, st2) = var_loop_s(t, st1, Seq::empty());
                match r2 {
                    Err(f) => (Err(f), st2),
                    Ok(vars) => {
                        let (r3, st3) = expect_kw(t, st2, Keyword::In);
                        match r3 {
                            Err(f) => (Err(f), st3),
                            Ok(_) => if !(fwd(t, st1, st2) && fwd(t, st2, st3)) {
                                (Err(FailM::Abort), st3)
                            } else {
                                let (r4, st4) = block_loop_s(t, st3, Seq::empty());
                                (
                                    match r4 {
                                        Ok(body) => Ok(ExprM::Var(vars, Box::new(body))),
                                        Err(f) => Err(f),
                                    },
                                    st4,
                                )
                            },
                        }
                    },
                }
            },
            Ok(tok) => (Err(unexpected(tok)), st1),
        },
    }
}

/// The bindings of a `var`, from one that starts with an identifier.
pub open spec fn var_loop_s(t: Toks, st: PSt, acc: Seq<VarInfoM>) -> (Result<Seq<VarInfoM>, FailM>, PSt)
    decreases t.len() - st.pos, 30int,
{
    let (r1, st1) = consume_s(t, st);
    match r1 {
        Err(f) => (Err(f), st1),
        Ok(TokenM::Identifier(name)) => if !fwd_strict(t, st, st1) {
            (Err(FailM::Abort), st1)
        } else {
            let (rt, st2) = match peek_s(t, st1) {
                Err(f) => (Err(f), st1),
                Ok(tok) => if tok == TokenM::Op(':') {
                    let (ra, sa) = consume_s(t, st1);
                    match ra {
                        Err(f) => (Err(f), sa),
                        Ok(_) => {
                            let (rb, sb) = parse_type_s(t, sa);
                            (
                                match rb {
                                    Ok(ty) => Ok(Some(ty)),
                                    Err(f) => Err(f),
                                },
                                sb,
                            )
                        },
                    }
                } else {
                    (Ok(None), st1)
                },
            };
            match rt {
                Err(f) => (Err(f), st2),
                Ok(ty) => if !fwd(t, st1, st2) {
                    (Err(FailM::Abort), st2)
                } else {
                    let (rv, st3) = match peek_s(t, st2) {
                        Err(f) => (Err(f), st2),
                        Ok(tok) => if tok == TokenM::Op('=') {
                            let (ra, sa) = consume_s(t, st2);
                            match ra {
                                Err(f) => (Err(f), sa),
                                Ok(_) => if fwd_strict(t, st2, sa) {
                                    let (rb, sb) = parse_expr_s(t, sa);
                                    (
                                        match rb {
                                            Ok(e) => Ok(Some(Box::new(e))),
                                            Err(f) => Err(f),
                                        },
                                        sb,
                                    )
                                } else {
                                    (Err(FailM::Abort), sa)
                                },
                            }
                        } else {
                            (Ok(None), st2)
                        },
                    };
                    match rv {
                        Err(f) => (Err(f), st3),
                        Ok(val) => {
                            let acc1 = acc.push(VarInfoM { name, t: ty, val });
                            match peek_s(t, st3) {
                                Err(f) => (Err(f), st3),
                                Ok(tok) => if tok != TokenM::Op(',') {
                                    (Ok(acc1), st3)
                                } else {
                                    let (r4, st4) = consume_s(t, st3);
                                    match r4 {
                                        Err(f) => (Err(f), st4),
                                        Ok(_) => match peek_s(t, st4) {
                                            Err(f) => (Err(f), st4),
                                            Ok(TokenM::Identifier(_)) => if fwd(t, st2, st3) && fwd(
                                                t,
                                                st3,
                                                st4,
                                            ) {
                                                var_loop_s(t, st4, acc1)
                                            } else {
                                                (Err(FailM::Abort), st4)
                                            },
                                            Ok(tok2) => (Err(unexpected(tok2)), st4),
                                        },
                                    }
                                },
                            }
                        },
                    }
                },
            }
        },
        Ok(_) => (Err(FailM::Abort), st1),
    }
}

/// A block: expressions separated by `;`, up to the end of the input or the
/// first expression that no `;` follows.
pub open spec fn block_loop_s(t: Toks, st: PSt, acc: Seq<ExprM>) -> (Result<ExprM, FailM>, PSt)
    decreases t.len() - st.pos, 55int,
{
    match opt_peek_s(t, st) {
        Err(f) => (Err(f), st),
        Ok(None) => (Ok(ExprM::Sequence(acc)), st),
        Ok(Some(_)) => {
            let (r1, st1) = parse_expr_s(t, st);
            match r1 {
                Err(f) => (Err(f), st1),
                Ok(e) => match opt_peek_s(t, st1) {
                    Err(f) => (Err(f), st1),
                    Ok(next) => if next == Some(TokenM::Op(';')) {
                        let (r2, st2) = consume_s(t, st1);
                        match r2 {
                            Err(f) => (Err(f), st2),
                            Ok(_) => if fwd(t, st, st1) && fwd_strict(t, st1, st2) {
                                block_loop_s(t, st2, acc.push(e))
                            } else {
                                (Err(FailM::Abort), st2)
                            },
                        }
                    } else {
                        (Ok(ExprM::Sequence(acc.push(e))), st1)
                    },
                },
            }
        },
    }
}

// ---------------------------------------------------------------- declarations

/// The characters of `binary` or `unary` followed by an operator character.
pub open spec fn op_fn_name(unary: bool, c: char) -> Seq<char> {
    if unary {
        seq!['u', 'n', 'a', 'r', 'y', c]
    } else {
        seq!['b', 'i', 'n', 'a', 'r', 'y', c]
    }
}

/// The name of the function that a top-level expression becomes.
pub open spec fn anon_name() -> Seq<char> {
    seq!['_', '_', 'a', 'n', 'o', 'n', '_', 'e', 'x', 'p', 'r']
}

/// The name that a prototype declares, with the number of parameters that it
/// must have (0 for any number): an identifier; `binary` and an operator
/// character, optionally with a precedence from 1 to 100 (30 where it has
/// none), which the precedence table takes; or `unary` and an operator
/// character.
pub open spec fn proto_name_s(t: Toks, st: PSt) -> (Result<(Seq<char>, int), FailM>, PSt) {
    match peek_s(t, st) {
        Err(f) => (Err(f), st),
        Ok(TokenM::Identifier(id)) => {
            let (r, st1) = consume_s(t, st);
            (
                match r {
                    Ok(_) => Ok((id, 0)),
                    Err(f) => Err(f),
                },
                st1,
            )
        },
        Ok(TokenM::Keyword(Keyword::Binary)) => {
            let (r, st1) = consume_s(t, st);
            match r {
                Err(f) => (Err(f), st1),
                Ok(_) => match peek_s(t, st1) {
                    Err(f) => (Err(f), st1),
                    Ok(TokenM::Op(c)) => if is_ascii_char(c) {
                        let (r2, st2) = consume_s(t, st1);
                        match r2 {
                            Err(f) => (Err(f), st2),
                            Ok(_) => match peek_s(t, st2) {
                                Err(f) => (Err(f), st2),
                                Ok(TokenM::Number(n)) => if has_dot(n) {
                                    (Err(FailM::Abort), st2)
                                } else {
                                    match spec_parse_i64(n) {
                                        None => (Err(FailM::Abort), st2),
                                        Some(num) => if !(1 <= num <= 100) {
                                            (Err(unexpected(TokenM::Number(n))), st2)
                                        } else {
                                            let st3 = PSt { pos: st2.pos, prec: st2.prec.insert(c, num as i8) };
                                            let (r4, st4) = consume_s(t, st3);
                                            (
                                                match r4 {
                                                    Ok(_) => Ok((op_fn_name(false, c), 2)),
                                                    Err(f) => Err(f),
                                                },
                                                st4,
                                            )
                                        },
                                    }
                                },
                                Ok(_) => (
                                    Ok((op_fn_name(false, c), 2)),
                                    PSt { pos: st2.pos, prec: st2.prec.insert(c, 30) },
                                ),
                            },
                        }
                    } else {
                        (Err(unexpected(TokenM::Op(c))), st1)
                    },
                    Ok(tok) => (Err(unexpected(tok)), st1),
                },
            }
        },
        Ok(TokenM::Keyword(Keyword::Unary)) => {
            let (r, st1) = consume_s(t, st);
            match r {
                Err(f) => (Err(f), st1),
                Ok(_) => match peek_s(t, st1) {
                    Err(f) => (Err(f), st1),
                    Ok(TokenM::Op(c)) => if is_ascii_char(c) {
                        let (r2, st2) = consume_s(t, st1);
                        (
                            match r2 {
                                Ok(_) => Ok((op_fn_name(true, c), 1)),
                                Err(f) => Err(f),
                            },
                            st2,
                        )
                    } else {
                        (Err(unexpected(TokenM::Op(c))), st1)
                    },
                    Ok(tok) => (Err(unexpected(tok)), st1),
                },
            }
        },
        Ok(tok) => (Err(unexpected(tok)), st),
    }
}

/// The parameters of a prototype, `name: type` each, up to (not over) its `)`.
pub open spec fn proto_args_loop_s(t: Toks, st: PSt, acc: Seq<ArgM>) -> (Result<Seq<ArgM>, FailM>, PSt)
    decreases t.len() - st.pos,
{
    match peek_s(t, st) {
        Err(f) => (Err(f), st),
        Ok(TokenM::Identifier(name)) => {
            let (r1, st1) = consume_s(t, st);
            match r1 {
                Err(f) => (Err(f), st1),
                Ok(_) => {
                    let (r2, st2) = expect_op(t, st1, ':');
                    match r2 {
                        Err(f) => (Err(f), st2),
                        Ok(_) => {
                            let (r3, st3) = parse_type_s(t, st2);
                            match r3 {
                                Err(f) => (Err(f), st3),
                                Ok(ty) => if fwd_strict(t, st, st1) && fwd(t, st1, st2) && fwd(t, st2, st3) {
                                    proto_args_loop_s(t, st3, acc.push(ArgM { name, typ: ty }))
                                } else {
                                    (Err(FailM::Abort), st3)
                                },
                            }
                        },
                    }
                },
            }
        },
        Ok(TokenM::Op(c)) => if c == ')' {
            (Ok(acc), st)
        } else {
            (Err(unexpected(TokenM::Op(c))), st)
        },
        Ok(tok) => (Err(unexpected(tok)), st),
    }
}

/// A prototype: its name, `(`, its parameters, `)`, and an optional return
/// type, `: type` or `-> type` (the unit type where it has none).
pub open spec fn parse_prototype_s(t: Toks, st: PSt) -> (Result<ProtoM, FailM>, PSt) {
    let (r1, st1) = proto_name_s(t, st);
    match r1 {
        Err(f) => (Err(f), st1),
        Ok((name, kind)) => {
            let (r2, st2) = expect_op(t, st1, '(');
            match r2 {
                Err(f) => (Err(f), st2),
                Ok(_) => {
                    let (r3, st3) = proto_args_loop_s(t, st2, Seq::empty());
                    match r3 {
                        Err(f) => (Err(f), st3),
                        Ok(args) => {
                            let (r4, st4) = consume_s(t, st3);
                            match r4 {
                                Err(f) => (Err(f), st4),
                                Ok(_) => if kind > 0 && args.len() != kind {
                                    (Err(FailM::Error(PErrM::InvalidSignatuere)), st4)
                                } else {
                                    match opt_peek_s(t, st4) {
                                        Err(f) => (Err(f), st4),
                                        Ok(next) => if next == Some(TokenM::Op('-')) {
                                            let (r5, st5) = consume_s(t, st4);
                                            match r5 {
                                                Err(f) => (Err(f), st5),
                                                Ok(_) => {
                                                    let (r6, st6) = expect_op(t, st5, '>');
                                                    match r6 {
                                                        Err(f) => (Err(f), st6),
                                                        Ok(_) => {
                                                            let (r7, st7) = parse_type_s(t, st6);
                                                            (
                                                                match r7 {
                                                                    Ok(ty) => Ok(
                                                                        ProtoM { name, args, ret_type: Some(ty) },
                                                                    ),
                                                                    Err(f) => Err(f),
                                                                },
                                                                st7,
                                                            )
                                                        },
                                                    }
                                                },
                                            }
                                        } else if next == Some(TokenM::Op(':')) {
                                            let (r5, st5) = consume_s(t, st4);
                                            match r5 {
                                                Err(f) => (Err(f), st5),
                                                Ok(_) => {
                                                    let (r6, st6) = parse_type_s(t, st5);
                                                    (
                                                        match r6 {
                                                            Ok(ty) => Ok(ProtoM { name, args, ret_type: Some(ty) }),
                                                            Err(f) => Err(f),
                                                        },
                                                        st6,
                                                    )
                                                },
                                            }
                                        } else {
                                            (Ok(ProtoM { name, args, ret_type: Some(TypeM::Unit) }), st4)
                                        },
                                    }
                                },
                            }
                        },
                    }
                },
            }
        },
    }
}

/// `extern` and a prototype.
pub open spec fn parse_extern_s(t: Toks, st: PSt) -> (Result<DeclM, FailM>, PSt) {
    let (r1, st1) = consume_s(t, st);
    match r1 {
        Err(f) => (Err(f), st1),
        Ok(_) => {
            let (r2, st2) = parse_prototype_s(t, st1);
            (
                match r2 {
                    Ok(p) => Ok(DeclM::Extern(p)),
                    Err(f) => Err(f),
                },
                st2,
            )
        },
    }
}

/// `def`, a prototype and the body, one expression.
pub open spec fn parse_def_s(t: Toks, st: PSt) -> (Result<DeclM, FailM>, PSt) {
    let (r1, st1) = consume_s(t, st);
    match r1 {
        Err(f) => (Err(f), st1),
        Ok(_) => {
            let (r2, st2) = parse_prototype_s(t, st1);
            match r2 {
                Err(f) => (Err(f), st2),
                Ok(p) => {
                    let (r3, st3) = parse_expr_s(t, st2);
                    (
                        match r3 {
                            Ok(body) => Ok(DeclM::Function(p, body)),
                            Err(f) => Err(f),
                        },
                        st3,
                    )
                },
            }
        },
    }
}

/// A top-level expression, as an anonymous function whose return type is to
/// be inferred.
pub open spec fn parse_top_level_s(t: Toks, st: PSt) -> (Result<DeclM, FailM>, PSt) {
    let (r1, st1) = parse_expr_s(t, st);
    (
        match r1 {
            Ok(e) => Ok(DeclM::Function(ProtoM { name: anon_name(), args: Seq::empty(), ret_type: None }, e)),
            Err(f) => Err(f),
        },
        st1,
    )
}

/// The declaration that starts with the given token.
#[verifier::opaque]
pub open spec fn parse_decl_s(t: Toks, st: PSt, tok: TokenM) -> (Result<DeclM, FailM>, PSt) {
    if tok == TokenM::Keyword(Keyword::Def) {
        parse_def_s(t, st)
    } else if tok == TokenM::Keyword(Keyword::Extern) {
        parse_extern_s(t, st)
    } else {
        parse_top_level_s(t, st)
    }
}

/// The state after a declaration that failed with an error: one more token
/// is skipped, if there is one.
pub open spec fn recover_s(t: Toks, st: PSt) -> PSt {
    consume_s(t, st).1
}

/// The declarations from the current position to the end, with the errors
/// met on the way; a `;` between declarations is skipped. `None` where the
/// parser stops the process.
pub open spec fn program_loop_s(t: Toks, st: PSt, decls: Seq<DeclM>, errs: Seq<PErrM>) -> Option<
    (Seq<DeclM>, Seq<PErrM>, PSt),
>
    decreases t.len() - st.pos,
{
    match opt_peek_s(t, st) {
        Ok(None) => Some((decls, errs, st)),
        Err(FailM::Error(e)) => {
            let st1 = recover_s(t, st);
            if fwd_strict(t, st, st1) {
                program_loop_s(t, st1, decls, errs.push(e))
            } else {
                None
            }
        },
        Err(FailM::Abort) => None,
        Ok(Some(TokenM::Op(';'))) => {
            let st1 = consume_s(t, st).1;
            if fwd_strict(t, st, st1) {
                program_loop_s(t, st1, decls, errs)
            } else {
                None
            }
        },
        Ok(Some(tok)) => {
            let (r, st1) = parse_decl_s(t, st, tok);
            match r {
                Err(FailM::Abort) => None,
                Ok(d) => if fwd_strict(t, st, st1) {
                    program_loop_s(t, st1, decls.push(d), errs)
                } else {
                    None
                },
                Err(FailM::Error(e)) => {
                    let st2 = recover_s(t, st1);
                    if fwd_strict(t, st, st2) {
                        program_loop_s(t, st2, decls, errs.push(e))
                    } else {
                        None
                    }
                },
            }
        },
    }
}

/// The result of parsing a whole program: its declarations where no error
/// was met (counting the errors of earlier runs), else all the errors; `None`
/// where the parser stops the process.
pub open spec fn parse_program_s(t: Toks, st: PSt, errs: Seq<PErrM>) -> Option<
    (Result<Seq<DeclM>, Seq<PErrM>>, Seq<PErrM>, PSt),
> {
    match program_loop_s(t, st, Seq::empty(), errs) {
        None => None,
        Some((decls, errs1, st1)) => Some(
            (
                if errs1.len() == 0 {
                    Ok(decls)
                } else {
                    Err(errs1)
                },
                errs1,
                st1,
            ),
        ),
    }
}

/// The program loop reads the whole stream; each step adds one declaration
/// or one error, or skips a `;`, and reads at least one token.
proof fn lemma_program_loop_progress(t: Toks, st: PSt, decls: Seq<DeclM>, errs: Seq<PErrM>)
    requires
        0 <= st.pos <= t.len(),
    ensures
        program_loop_s(t, st, decls, errs) matches Some((d, e, st1)) ==> {
            &&& st1.pos == t.len()
            &&& decls.is_prefix_of(d)
            &&& errs.is_prefix_of(e)
            &&& d.len() + e.len() <= decls.len() + errs.len() + (t.len() - st.pos)
        },
    decreases t.len() - st.pos,
{
    match opt_peek_s(t, st) {
        Ok(None) => {},
        Err(FailM::Error(e)) => {
            let st1 = recover_s(t, st);
            if fwd_strict(t, st, st1) {
                lemma_program_loop_progress(t, st1, decls, errs.push(e));
            }
        },
        Err(FailM::Abort) => {},
        Ok(Some(TokenM::Op(';'))) => {
            let st1 = consume_s(t, st).1;
            if fwd_strict(t, st, st1) {
                lemma_program_loop_progress(t, st1, decls, errs);
            }
        },
        Ok(Some(tok)) => {
            let (r, st1) = parse_decl_s(t, st, tok);
            match r {
                Err(FailM::Abort) => {},
                Ok(d) => if fwd_strict(t, st, st1) {
                    lemma_program_loop_progress(t, st1, decls.push(d), errs);
                },
                Err(FailM::Error(e)) => {
                    let st2 = recover_s(t, st1);
                    if fwd_strict(t, st, st2) {
                        lemma_program_loop_progress(t, st2, decls, errs.push(e));
                    }
                },
            }
        },
    }
}

/// Parsing reads every token of the stream, reports at most one error for
/// each token it reads, and keeps the errors that came before, in the order
/// met. It gives the declarations exactly when no error was recorded (by
/// this call or an earlier one), and else all the errors.
pub proof fn lemma_parse_program_progress(t: Toks, st: PSt, errs: Seq<PErrM>)
    requires
        0 <= st.pos <= t.len(),
    ensures
        parse_program_s(t, st, errs) matches Some((res, e, st1)) ==> {
            &&& st1.pos == t.len()
            &&& errs.is_prefix_of(e)
            &&& e.len() <= errs.len() + (t.len() - st.pos)
            &&& (res is Ok <==> e.len() == 0)
            &&& (res matches Err(es) ==> es == e && es.len() > 0)
        },
{
    lemma_program_loop_progress(t, st, Seq::empty(), errs);
}

// ---------------------------------------------------------------- laws

proof fn lemma_parse_type_prec(t: Toks, st: PSt)
    ensures
        parse_type_s(t, st).1.prec == st.prec,
        0 <= st.pos <= t.len() ==> fwd(t, st, parse_type_s(t, st).1),
    decreases t.len() - st.pos, 10int,
{
    if let Ok(TokenM::Op(c)) = peek_s(t, st) {
        let (r, st1) = consume_s(t, st);
        if c == '(' {
            if r is Ok && !peek_is_op(t, st1, ')') && peek_s(t, st1) is Ok && fwd_strict(t, st, st1) {
                lemma_tuple_type_loop_prec(t, st1, Seq::empty());
            }
        } else if c == '[' {
            if r is Ok && fwd_strict(t, st, st1) {
                lemma_parse_type_prec(t, st1);
            }
        }
    }
}

proof fn lemma_tuple_type_loop_prec(t: Toks, st: PSt, acc: Seq<TypeM>)
    ensures
        tuple_type_loop_s(t, st, acc).1.prec == st.prec,
        0 <= st.pos <= t.len() ==> fwd(t, st, tuple_type_loop_s(t, st, acc).1),
    decreases t.len() - st.pos, 11int,
{
    lemma_parse_type_prec(t, st);
    let (r, st1) = parse_type_s(t, st);
    if let Ok(ty) = r {
        let (r2, st2) = consume_s(t, st1);
        if peek_s(t, st1) == Ok::<TokenM, FailM>(TokenM::Op(',')) && r2 is Ok && fwd(t, st, st1) && fwd_strict(
            t,
            st1,
            st2,
        ) {
            lemma_tuple_type_loop_prec(t, st2, acc.push(ty));
        }
    }
}

proof fn lemma_parse_expr_prec(t: Toks, st: PSt)
    ensures
        parse_expr_s(t, st).1.prec == st.prec,
        0 <= st.pos <= t.len() ==> fwd(t, st, parse_expr_s(t, st).1),
        0 <= st.pos <= t.len() && parse_expr_s(t, st).0 is Ok ==> fwd_strict(t, st, parse_expr_s(t, st).1),
    decreases t.len() - st.pos, 50int,
{
    lemma_parse_unary_prec(t, st);
    let (r1, st1) = parse_unary_s(t, st);
    if let Ok(lhs) = r1 {
        if fwd(t, st, st1) {
            lemma_bin_op_rhs_prec(t, st1, 0, lhs);
        }
    }
}

proof fn lemma_parse_unary_prec(t: Toks, st: PSt)
    ensures
        parse_unary_s(t, st).1.prec == st.prec,
        0 <= st.pos <= t.len() ==> fwd(t, st, parse_unary_s(t, st).1),
        0 <= st.pos <= t.len() && parse_unary_s(t, st).0 is Ok ==> fwd_strict(t, st, parse_unary_s(t, st).1),
    decreases t.len() - st.pos, 45int,
{
    match peek_s(t, st) {
        Err(_) => {},
        Ok(TokenM::Op(c)) => if is_ascii_char(c) && c != '(' && c != ',' && c != '[' {
            let (r1, st1) = consume_s(t, st);
            if r1 is Ok && fwd_strict(t, st, st1) {
                lemma_parse_unary_prec(t, st1);
            }
        } else {
            lemma_parse_primary_prec(t, st);
        },
        Ok(_) => lemma_parse_primary_prec(t, st),
    }
}

proof fn lemma_bin_op_rhs_prec(t: Toks, st: PSt, expr_prec: int, lhs: ExprM)
    ensures
        bin_op_rhs_s(t, st, expr_prec, lhs).1.prec == st.prec,
        0 <= st.pos <= t.len() ==> fwd(t, st, bin_op_rhs_s(t, st, expr_prec, lhs).1),
    decreases t.len() - st.pos, 40int,
{
    if let Ok(tok_prec) = token_prec_s(t, st) {
        if tok_prec >= expr_prec {
            let (r1, st1) = consume_s(t, st);
            if let Ok(bin_tok) = r1 {
                if fwd_strict(t, st, st1) {
                    lemma_parse_unary_prec(t, st1);
                    let (r2, st2) = parse_unary_s(t, st1);
                    if let Ok(rhs) = r2 {
                        if fwd(t, st1, st2) {
                            if let Ok(next_prec) = token_prec_s(t, st2) {
                                if tok_prec < next_prec {
                                    lemma_bin_op_rhs_prec(t, st2, tok_prec + 1, rhs);
                                }
                                let (r3, st3) = if tok_prec < next_prec {
                                    bin_op_rhs_s(t, st2, tok_prec + 1, rhs)
                                } else {
                                    (Ok(rhs), st2)
                                };
                                if let Ok(rhs2) = r3 {
                                    if let TokenM::Op(c) = bin_tok {
                                        if fwd(t, st2, st3) {
                                            lemma_bin_op_rhs_prec(
                                                t,
                                                st3,
                                                expr_prec,
                                                ExprM::Binary(spec_binary_op_of(c), Box::new(lhs), Box::new(rhs2)),
                                            );
                                        }
                                    }
                                }
                            }
                        }
                    }
                }
            }
        }
    }
}

proof fn lemma_parse_primary_prec(t: Toks, st: PSt)
    ensures
        parse_primary_s(t, st).1.prec == st.prec,
        0 <= st.pos <= t.len() ==> fwd(t, st, parse_primary_s(t, st).1),
        0 <= st.pos <= t.len() && parse_primary_s(t, st).0 is Ok ==> fwd_strict(t, st, parse_primary_s(t, st).1),
    decreases t.len() - st.pos, 44int,
{
    match peek_s(t, st) {
        Err(_) => {},
        Ok(TokenM::Identifier(_)) => lemma_parse_identifier_prec(t, st),
        Ok(TokenM::Number(_)) => {},
        Ok(TokenM::Op(c)) => if c == '(' {
            lemma_parse_paren_prec(t, st);
        } else if c == '[' {
            lemma_parse_square_prec(t, st);
        },
        Ok(TokenM::Keyword(Keyword::If)) => lemma_parse_if_prec(t, st),
        Ok(TokenM::Keyword(Keyword::For)) => lemma_parse_for_prec(t, st),
        Ok(TokenM::Keyword(Keyword::Var)) => lemma_parse_var_prec(t, st),
        Ok(_) => {},
    }
    let (r, st1) = match peek_s(t, st) {
        Err(f) => (Err(f), st),
        Ok(TokenM::Identifier(_)) => parse_identifier_s(t, st),
        Ok(TokenM::Number(_)) => parse_number_s(t, st),
        Ok(TokenM::Op(c)) => if c == '(' {
            parse_paren_s(t, st)
        } else if c == '[' {
            parse_square_s(t, st)
        } else {
            (Err(unexpected(TokenM::Op(c))), st)
        },
        Ok(TokenM::Keyword(Keyword::If)) => parse_if_s(t, st),
        Ok(TokenM::Keyword(Keyword::For)) => parse_for_s(t, st),
        Ok(TokenM::Keyword(Keyword::Var)) => parse_var_s(t, st),
        Ok(tok) => (Err(unexpected(tok)), st),
    };
    if let Ok(e) = r {
        if fwd(t, st, st1) {
            lemma_parse_post_primary_prec(t, st1, e);
        }
    }
}

proof fn lemma_parse_post_primary_prec(t: Toks, st: PSt, e: ExprM)
    ensures
        parse_post_primary_s(t, st, e).1.prec == st.prec,
        0 <= st.pos <= t.len() ==> fwd(t, st, parse_post_primary_s(t, st, e).1),
    decreases t.len() - st.pos, 43int,
{
    if let Ok(Some(TokenM::Op(c))) = opt_peek_s(t, st) {
        let (r1, st1) = consume_s(t, st);
        if c == '.' {
            if r1 is Ok && fwd_strict(t, st, st1) {
                lemma_parse_field_number_prec(t, st1, e);
            }
        } else if c == '[' {
            if r1 is Ok && fwd_strict(t, st, st1) {
                lemma_parse_expr_prec(t, st1);
                let (r2, st2) = parse_expr_s(t, st1);
                if let Ok(idx) = r2 {
                    let (r3, st3) = expect_op(t, st2, ']');
                    if r3 is Ok && fwd(t, st1, st2) && fwd(t, st2, st3) {
                        lemma_parse_post_primary_prec(
                            t,
                            st3,
                            ExprM::Projection(Box::new(e), Box::new(idx), None),
                        );
                    }
                }
            }
        }
    }
}

proof fn lemma_parse_field_number_prec(t: Toks, st: PSt, e: ExprM)
    ensures
        parse_field_number_s(t, st, e).1.prec == st.prec,
        0 <= st.pos <= t.len() ==> fwd(t, st, parse_field_number_s(t, st, e).1),
    decreases t.len() - st.pos, 42int,
{
    let (r1, st1) = consume_s(t, st);
    if let Ok(TokenM::Number(n)) = r1 {
        if fwd_strict(t, st, st1) {
            if has_dot(n) {
                let (a, b) = split_dot(n);
                if let (Some(x), Some(y)) = (spec_parse_i64(a), spec_parse_i64(b)) {
                    lemma_parse_post_primary_prec(
                        t,
                        st1,
                        ExprM::Projection(
                            Box::new(ExprM::Projection(Box::new(e), index_lit(x), None)),
                            index_lit(y),
                            None,
                        ),
                    );
                }
            } else if let Some(x) = spec_parse_i64(n) {
                lemma_parse_post_primary_prec(t, st1, ExprM::Projection(Box::new(e), index_lit(x), None));
            }
        }
    }
}

/// A field token `a.b` after a `.` (the lexer reads it as one number)
/// projects field `a` of the expression first, then field `b` of that.
pub proof fn lemma_field_number_pair(t: Toks, st: PSt, e: ExprM, a: Seq<char>, b: Seq<char>)
    requires
        0 <= st.pos < t.len(),
        t[st.pos] == Ok::<TokenM, LexerError>(TokenM::Number(a + seq!['.'] + b)),
        forall|i: int| 0 <= i < a.len() ==> a[i] != '.',
        forall|i: int| 0 <= i < b.len() ==> b[i] != '.',
        spec_parse_i64(a) is Some,
        spec_parse_i64(b) is Some,
        st.pos + 1 == t.len() || (t[st.pos + 1] matches Ok(tok) && tok != TokenM::Op('.') && tok
            != TokenM::Op('[')),
    ensures
        parse_field_number_s(t, st, e) == (
            Ok::<ExprM, FailM>(
                ExprM::Projection(
                    Box::new(ExprM::Projection(Box::new(e), index_lit(spec_parse_i64(a).unwrap()), None)),
                    index_lit(spec_parse_i64(b).unwrap()),
                    None,
                ),
            ),
            at(st, st.pos + 1),
        ),
{
    lemma_split_dot_join(a, b);
}

/// The operator prototypes fix their arity: one that starts with `unary`
/// parses only with exactly one parameter, and one that starts with
/// `binary` only with exactly two; with any other number of parameters the
/// parse fails with `InvalidSignatuere`.
pub proof fn lemma_operator_arity(t: Toks, st: PSt)
    requires
        0 <= st.pos < t.len(),
        t[st.pos] == Ok::<TokenM, LexerError>(TokenM::Keyword(Keyword::Unary)) || t[st.pos] == Ok::<
            TokenM,
            LexerError,
        >(TokenM::Keyword(Keyword::Binary)),
    ensures
        ({
            let arity: int = if t[st.pos] == Ok::<TokenM, LexerError>(TokenM::Keyword(Keyword::Unary)) {
                1
            } else {
                2
            };
            &&& parse_prototype_s(t, st).0 matches Ok(p) ==> p.args.len() == arity
            &&& ({
                let st1 = proto_name_s(t, st).1;
                let st2 = expect_op(t, st1, '(').1;
                let (r3, st3) = proto_args_loop_s(t, st2, Seq::empty());
                &&& proto_name_s(t, st).0 is Ok
                &&& expect_op(t, st1, '(').0 is Ok
                &&& consume_s(t, st3).0 is Ok
                &&& r3 matches Ok(args)
                &&& args.len() != arity
            }) ==> parse_prototype_s(t, st).0 == Err::<ProtoM, FailM>(
                FailM::Error(PErrM::InvalidSignatuere),
            )
        }),
{
    let r = proto_name_s(t, st).0;
    if t[st.pos] == Ok::<TokenM, LexerError>(TokenM::Keyword(Keyword::Unary)) {
        assert(r matches Ok((_, k)) ==> k == 1);
    } else {
        assert(r matches Ok((_, k)) ==> k == 2);
    }
}

proof fn lemma_parse_identifier_prec(t: Toks, st: PSt)
    ensures
        parse_identifier_s(t, st).1.prec == st.prec,
        0 <= st.pos <= t.len() ==> fwd(t, st, parse_identifier_s(t, st).1),
        0 <= st.pos <= t.len() && parse_identifier_s(t, st).0 is Ok ==> fwd_strict(t, st, parse_identifier_s(t, st).1),
    decreases t.len() - st.pos, 30int,
{
    let (r1, st1) = consume_s(t, st);
    if let Ok(TokenM::Identifier(id)) = r1 {
        if opt_peek_s(t, st1) == Ok::<Option<TokenM>, FailM>(Some(TokenM::Op('('))) {
            let (r2, st2) = consume_s(t, st1);
            if r2 is Ok {
                if let Ok(tok) = peek_s(t, st2) {
                    if tok != TokenM::Op(')') && fwd_strict(t, st, st2) {
                        lemma_call_args_loop_prec(t, st2, Seq::empty());
                    }
                }
            }
        }
    }
}

proof fn lemma_call_args_loop_prec(t: Toks, st: PSt, acc: Seq<ExprM>)
    ensures
        call_args_loop_s(t, st, acc).1.prec == st.prec,
        0 <= st.pos <= t.len() ==> fwd(t, st, call_args_loop_s(t, st, acc).1),
    decreases t.len() - st.pos, 52int,
{
    lemma_parse_expr_prec(t, st);
    let (r1, st1) = parse_expr_s(t, st);
    if let Ok(e) = r1 {
        if peek_s(t, st1) == Ok::<TokenM, FailM>(TokenM::Op(',')) {
            let (r2, st2) = consume_s(t, st1);
            if r2 is Ok && fwd(t, st, st1) && fwd_strict(t, st1, st2) {
                lemma_call_args_loop_prec(t, st2, acc.push(e));
            }
        }
    }
}

proof fn lemma_cons_loop_prec(t: Toks, st: PSt, acc: Seq<ExprM>, kind: ConsKind)
    ensures
        cons_loop_s(t, st, acc, kind).1.prec == st.prec,
        0 <= st.pos <= t.len() ==> fwd(t, st, cons_loop_s(t, st, acc, kind).1),
    decreases t.len() - st.pos, 52int,
{
    if peek_s(t, st) == Ok::<TokenM, FailM>(TokenM::Op(',')) {
        let (r1, st1) = consume_s(t, st);
        if r1 is Ok && fwd_strict(t, st, st1) {
            lemma_parse_expr_prec(t, st1);
            let (r2, st2) = parse_expr_s(t, st1);
            if let Ok(e) = r2 {
                if fwd(t, st1, st2) {
                    lemma_cons_loop_prec(t, st2, acc.push(e), kind);
                }
            }
        }
    }
}

proof fn lemma_parse_paren_prec(t: Toks, st: PSt)
    ensures
        parse_paren_s(t, st).1.prec == st.prec,
        0 <= st.pos <= t.len() ==> fwd(t, st, parse_paren_s(t, st).1),
        0 <= st.pos <= t.len() && parse_paren_s(t, st).0 is Ok ==> fwd_strict(t, st, parse_paren_s(t, st).1),
    decreases t.len() - st.pos, 30int,
{
    let (r1, st1) = consume_s(t, st);
    if r1 is Ok && fwd_strict(t, st, st1) && !peek_is_op(t, st1, ')') && peek_s(t, st1) is Ok {
        lemma_parse_expr_prec(t, st1);
        let (r2, st2) = parse_expr_s(t, st1);
        if let Ok(v) = r2 {
            if fwd(t, st1, st2) && peek_is_op(t, st2, ',') {
                lemma_cons_loop_prec(t, st2, seq![v], ConsKind::Tuple);
            }
        }
    }
}

proof fn lemma_parse_square_prec(t: Toks, st: PSt)
    ensures
        parse_square_s(t, st).1.prec == st.prec,
        0 <= st.pos <= t.len() ==> fwd(t, st, parse_square_s(t, st).1),
        0 <= st.pos <= t.len() && parse_square_s(t, st).0 is Ok ==> fwd_strict(t, st, parse_square_s(t, st).1),
    decreases t.len() - st.pos, 30int,
{
    let (r1, st1) = consume_s(t, st);
    if r1 is Ok && fwd_strict(t, st, st1) && !peek_is_op(t, st1, ']') && peek_s(t, st1) is Ok {
        lemma_parse_expr_prec(t, st1);
        let (r2, st2) = parse_expr_s(t, st1);
        if let Ok(v) = r2 {
            if fwd(t, st1, st2) {
                lemma_cons_loop_prec(t, st2, seq![v], ConsKind::List);
            }
        }
    }
}

proof fn lemma_parse_if_prec(t: Toks, st: PSt)
    ensures
        parse_if_s(t, st).1.prec == st.prec,
        0 <= st.pos <= t.len() ==> fwd(t, st, parse_if_s(t, st).1),
        0 <= st.pos <= t.len() && parse_if_s(t, st).0 is Ok ==> fwd_strict(t, st, parse_if_s(t, st).1),
    decreases t.len() - st.pos, 30int,
{
    let (r1, st1) = consume_s(t, st);
    if r1 is Ok && fwd_strict(t, st, st1) {
        lemma_parse_expr_prec(t, st1);
        let (r2, st2) = parse_expr_s(t, st1);
        if r2 is Ok {
            let (r3, st3) = expect_kw(t, st2, Keyword::Then);
            if r3 is Ok && fwd(t, st1, st2) && fwd(t, st2, st3) {
                lemma_parse_expr_prec(t, st3);
                let (r4, st4) = parse_expr_s(t, st3);
                if r4 is Ok {
                    let (r5, st5) = expect_kw(t, st4, Keyword::Else);
                    if r5 is Ok && fwd(t, st3, st4) && fwd(t, st4, st5) {
                        lemma_parse_expr_prec(t, st5);
                    }
                }
            }
        }
    }
}

proof fn lemma_parse_for_step_prec(t: Toks, st: PSt)
    ensures
        parse_for_step_s(t, st).1.prec == st.prec,
        0 <= st.pos <= t.len() ==> fwd(t, st, parse_for_step_s(t, st).1),
    decreases t.len() - st.pos, 30int,
{
    if peek_s(t, st) == Ok::<TokenM, FailM>(TokenM::Op(',')) {
        let (r1, st1) = consume_s(t, st);
        if r1 is Ok && fwd_strict(t, st, st1) {
            lemma_parse_expr_prec(t, st1);
        }
    }
}

proof fn lemma_parse_for_prec(t: Toks, st: PSt)
    ensures
        parse_for_s(t, st).1.prec == st.prec,
        0 <= st.pos <= t.len() ==> fwd(t, st, parse_for_s(t, st).1),
        0 <= st.pos <= t.len() && parse_for_s(t, st).0 is Ok ==> fwd_strict(t, st, parse_for_s(t, st).1),
    decreases t.len() - st.pos, 30int,
{
    let (r1, st1) = consume_s(t, st);
    if r1 is Ok {
        if let Ok(TokenM::Identifier(id)) = peek_s(t, st1) {
            let (r2, st2) = consume_s(t, st1);
            if r2 is Ok {
                let (r3, st3) = expect_op(t, st2, '=');
                if r3 is Ok && fwd_strict(t, st, st1) && fwd(t, st1, st2) && fwd(t, st2, st3) {
                    lemma_parse_expr_prec(t, st3);
                    let (r4, st4) = parse_expr_s(t, st3);
                    if r4 is Ok {
                        let (r5, st5) = expect_op(t, st4, ',');
                        if r5 is Ok && fwd(t, st3, st4) && fwd(t, st4, st5) {
                            lemma_parse_expr_prec(t, st5);
                            let (r6, st6) = parse_expr_s(t, st5);
                            if r6 is Ok && fwd(t, st5, st6) {
                                lemma_parse_for_step_prec(t, st6);
                                let (r7, st7) = parse_for_step_s(t, st6);
                                if r7 is Ok {
                                    let (r8, st8) = expect_kw(t, st7, Keyword::In);
                                    if r8 is Ok && fwd(t, st6, st7) && fwd(t, st7, st8) {
                                        lemma_parse_expr_prec(t, st8);
                                    }
                                }
                            }
                        }
                    }
                }
            }
        }
    }
}

proof fn lemma_parse_var_prec(t: Toks, st: PSt)
    ensures
        parse_var_s(t, st).1.prec == st.prec,
        0 <= st.pos <= t.len() ==> fwd(t, st, parse_var_s(t, st).1),
        0 <= st.pos <= t.len() && parse_var_s(t, st).0 is Ok ==> fwd_strict(t, st, parse_var_s(t, st).1),
    decreases t.len() - st.pos, 30int,
{
    let (r1, st1) = consume_s(t, st);
    if r1 is Ok && (peek_s(t, st1) matches Ok(TokenM::Identifier(_))) && fwd_strict(t, st, st1) {
        lemma_var_loop_prec(t, st1, Seq::empty());
        let (r2, st2) = var_loop_s(t, st1, Seq::empty());
        if r2 is Ok {
            let (r3, st3) = expect_kw(t, st2, Keyword::In);
            if r3 is Ok && fwd(t, st1, st2) && fwd(t, st2, st3) {
                lemma_block_loop_prec(t, st3, Seq::empty());
            }
        }
    }
}

proof fn lemma_var_loop_prec(t: Toks, st: PSt, acc: Seq<VarInfoM>)
    ensures
        var_loop_s(t, st, acc).1.prec == st.prec,
        0 <= st.pos <= t.len() ==> fwd(t, st, var_loop_s(t, st, acc).1),
    decreases t.len() - st.pos, 30int,
{
    let (r1, st1) = consume_s(t, st);
    if let Ok(TokenM::Identifier(name)) = r1 {
        if fwd_strict(t, st, st1) {
            let (ra, sa) = consume_s(t, st1);
            lemma_parse_type_prec(t, sa);
            let (rt, st2) = match peek_s(t, st1) {
                Err(f) => (Err(f), st1),
                Ok(tok) => if tok == TokenM::Op(':') {
                    match ra {
                        Err(f) => (Err(f), sa),
                        Ok(_) => {
                            let (rb, sb) = parse_type_s(t, sa);
                            (
                                match rb {
                                    Ok(ty) => Ok(Some(ty)),
                                    Err(f) => Err(f),
                                },
                                sb,
                            )
                        },
                    }
                } else {
                    (Ok(None), st1)
                },
            };
            if let Ok(ty) = rt {
                if fwd(t, st1, st2) {
                    let (rc, sc) = consume_s(t, st2);
                    if rc is Ok && fwd_strict(t, st2, sc) {
                        lemma_parse_expr_prec(t, sc);
                    }
                    let (rv, st3) = match peek_s(t, st2) {
                        Err(f) => (Err(f), st2),
                        Ok(tok) => if tok == TokenM::Op('=') {
                            match rc {
                                Err(f) => (Err(f), sc),
                                Ok(_) => if fwd_strict(t, st2, sc) {
                                    let (rb, sb) = parse_expr_s(t, sc);
                                    (
                                        match rb {
                                            Ok(e) => Ok(Some(Box::new(e))),
                                            Err(f) => Err(f),
                                        },
                                        sb,
                                    )
                                } else {
                                    (Err(FailM::Abort), sc)
                                },
                            }
                        } else {
                            (Ok(None), st2)
                        },
                    };
                    if let Ok(val) = rv {
                        let acc1 = acc.push(VarInfoM { name, t: ty, val });
                        if peek_s(t, st3) == Ok::<TokenM, FailM>(TokenM::Op(',')) {
                            let (r4, st4) = consume_s(t, st3);
                            if r4 is Ok && (peek_s(t, st4) matches Ok(TokenM::Identifier(_))) && fwd(t, st2, st3)
                                && fwd(t, st3, st4) {
                                lemma_var_loop_prec(t, st4, acc1);
                            }
                        }
                    }
                }
            }
        }
    }
}

proof fn lemma_block_loop_prec(t: Toks, st: PSt, acc: Seq<ExprM>)
    ensures
        block_loop_s(t, st, acc).1.prec == st.prec,
        0 <= st.pos <= t.len() ==> fwd(t, st, block_loop_s(t, st, acc).1),
    decreases t.len() - st.pos, 55int,
{
    if opt_peek_s(t, st) matches Ok(Some(_)) {
        lemma_parse_expr_prec(t, st);
        let (r1, st1) = parse_expr_s(t, st);
        if let Ok(e) = r1 {
            if opt_peek_s(t, st1) == Ok::<Option<TokenM>, FailM>(Some(TokenM::Op(';'))) {
                let (r2, st2) = consume_s(t, st1);
                if r2 is Ok && fwd(t, st, st1) && fwd_strict(t, st1, st2) {
                    lemma_block_loop_prec(t, st2, acc.push(e));
                }
            }
        }
    }
}

/// Every operator that had a precedence before still has one after.
pub open spec fn keeps_operators(before: PSt, after: PSt) -> bool {
    before.prec.dom().subset_of(after.prec.dom())
}

proof fn lemma_proto_args_loop_prec(t: Toks, st: PSt, acc: Seq<ArgM>)
    ensures
        proto_args_loop_s(t, st, acc).1.prec == st.prec,
        0 <= st.pos <= t.len() ==> fwd(t, st, proto_args_loop_s(t, st, acc).1),
    decreases t.len() - st.pos,
{
    if let Ok(TokenM::Identifier(name)) = peek_s(t, st) {
        let (r1, st1) = consume_s(t, st);
        if r1 is Ok {
            let (r2, st2) = expect_op(t, st1, ':');
            if r2 is Ok {
                lemma_parse_type_prec(t, st2);
                let (r3, st3) = parse_type_s(t, st2);
                if let Ok(ty) = r3 {
                    if fwd_strict(t, st, st1) && fwd(t, st1, st2) && fwd(t, st2, st3) {
                        lemma_proto_args_loop_prec(t, st3, acc.push(ArgM { name, typ: ty }));
                    }
                }
            }
        }
    }
}

proof fn lemma_parse_prototype_operators(t: Toks, st: PSt)
    ensures
        keeps_operators(st, parse_prototype_s(t, st).1),
{
    let (r1, st1) = proto_name_s(t, st);
    assert(keeps_operators(st, st1));
    if r1 is Ok {
        let (r2, st2) = expect_op(t, st1, '(');
        if r2 is Ok {
            lemma_proto_args_loop_prec(t, st2, Seq::empty());
            let (r3, st3) = proto_args_loop_s(t, st2, Seq::empty());
            if r3 is Ok {
                let (r4, st4) = consume_s(t, st3);
                let (r5, st5) = consume_s(t, st4);
                let (r6, st6) = expect_op(t, st5, '>');
                lemma_parse_type_prec(t, st6);
                lemma_parse_type_prec(t, st5);
            }
        }
    }
}

proof fn lemma_parse_decl_operators(t: Toks, st: PSt, tok: TokenM)
    ensures
        keeps_operators(st, parse_decl_s(t, st, tok).1),
{
    let (r1, st1) = consume_s(t, st);
    lemma_parse_prototype_operators(t, st1);
    let (r2, st2) = parse_prototype_s(t, st1);
    lemma_parse_expr_prec(t, st2);
    lemma_parse_expr_prec(t, st);
    reveal(parse_decl_s);
}

proof fn lemma_program_loop_operators(t: Toks, st: PSt, decls: Seq<DeclM>, errs: Seq<PErrM>)
    ensures
        program_loop_s(t, st, decls, errs) matches Some((d, e, st1)) ==> keeps_operators(st, st1),
    decreases t.len() - st.pos,
{
    match opt_peek_s(t, st) {
        Ok(None) => {},
        Err(FailM::Error(e)) => {
            let st1 = recover_s(t, st);
            if fwd_strict(t, st, st1) {
                lemma_program_loop_operators(t, st1, decls, errs.push(e));
            }
        },
        Err(FailM::Abort) => {},
        Ok(Some(TokenM::Op(';'))) => {
            let st1 = consume_s(t, st).1;
            if fwd_strict(t, st, st1) {
                lemma_program_loop_operators(t, st1, decls, errs);
            }
        },
        Ok(Some(tok)) => {
            lemma_parse_decl_operators(t, st, tok);
            let (r, st1) = parse_decl_s(t, st, tok);
            match r {
                Err(FailM::Abort) => {},
                Ok(d) => if fwd_strict(t, st, st1) {
                    lemma_program_loop_operators(t, st1, decls.push(d), errs);
                },
                Err(FailM::Error(e)) => {
                    let st2 = recover_s(t, st1);
                    if fwd_strict(t, st, st2) {
                        lemma_program_loop_operators(t, st2, decls, errs.push(e));
                    }
                },
            }
        },
    }
}

/// Parsing never forgets an operator: each operator that has a precedence
/// before a parse still has one after it. Only a `binary` prototype sets
/// one, and expressions leave the table as it is.
pub proof fn lemma_parse_program_keeps_operators(t: Toks, st: PSt, errs: Seq<PErrM>)
    ensures
        parse_program_s(t, st, errs) matches Some((res, e, st1)) ==> keeps_operators(st, st1),
{
    lemma_program_loop_operators(t, st, Seq::empty(), errs);
}

/// Parsing an expression leaves the precedence table as it is.
pub proof fn lemma_parse_expr_keeps_table(t: Toks, st: PSt)
    ensures
        parse_expr_s(t, st).1.prec == st.prec,
{
    lemma_parse_expr_prec(t, st);
}

proof fn lemma_parse_prototype_fwd(t: Toks, st: PSt)
    ensures
        0 <= st.pos <= t.len() ==> fwd(t, st, parse_prototype_s(t, st).1),
{
    let (r1, st1) = proto_name_s(t, st);
    if r1 is Ok {
        let (r2, st2) = expect_op(t, st1, '(');
        if r2 is Ok {
            lemma_proto_args_loop_prec(t, st2, Seq::empty());
            let (r3, st3) = proto_args_loop_s(t, st2, Seq::empty());
            if r3 is Ok {
                let (r4, st4) = consume_s(t, st3);
                let (r5, st5) = consume_s(t, st4);
                let (r6, st6) = expect_op(t, st5, '>');
                lemma_parse_type_prec(t, st6);
                lemma_parse_type_prec(t, st5);
            }
        }
    }
}

/// A declaration that starts at a token (not the end) reads no token
/// before its start and none past the end, and one that is read reads at
/// least one token.
proof fn lemma_parse_decl_fwd(t: Toks, st: PSt, tok: TokenM)
    requires
        0 <= st.pos < t.len(),
        t[st.pos] == Ok::<TokenM, LexerError>(tok),
    ensures
        fwd(t, st, parse_decl_s(t, st, tok).1),
        parse_decl_s(t, st, tok).0 is Ok ==> fwd_strict(t, st, parse_decl_s(t, st, tok).1),
{
    reveal(parse_decl_s);
    let (r1, st1) = consume_s(t, st);
    lemma_parse_prototype_fwd(t, st1);
    let (r2, st2) = parse_prototype_s(t, st1);
    lemma_parse_expr_prec(t, st2);
    lemma_parse_expr_prec(t, st);
}

/// Error recovery. At the end the program is what was read; a `;` is
/// skipped; an item that reads becomes the next declaration, in source
/// order, and parsing goes on after it; an item that fails (or a token the
/// lexer refused) has its error recorded after the earlier ones, the token
/// after where it stopped is skipped, and parsing goes on with the items
/// that follow. Only an item on which the parser stops the process ends it.
pub proof fn lemma_program_loop_recovery(t: Toks, st: PSt, decls: Seq<DeclM>, errs: Seq<PErrM>)
    requires
        0 <= st.pos <= t.len(),
    ensures
        opt_peek_s(t, st) == Ok::<Option<TokenM>, FailM>(None) ==> program_loop_s(t, st, decls, errs) == Some(
            (decls, errs, st),
        ),
        opt_peek_s(t, st) matches Err(FailM::Error(e)) ==> program_loop_s(t, st, decls, errs) == program_loop_s(
            t,
            consume_s(t, st).1,
            decls,
            errs.push(e),
        ),
        opt_peek_s(t, st) == Ok::<Option<TokenM>, FailM>(Some(TokenM::Op(';'))) ==> program_loop_s(t, st, decls, errs)
            == program_loop_s(t, consume_s(t, st).1, decls, errs),
        opt_peek_s(t, st) matches Ok(Some(tok)) ==> (tok != TokenM::Op(';') ==> match parse_decl_s(t, st, tok) {
            (Ok(d), st1) => program_loop_s(t, st, decls, errs) == program_loop_s(t, st1, decls.push(d), errs),
            (Err(FailM::Error(e)), st1) => program_loop_s(t, st, decls, errs) == program_loop_s(
                t,
                consume_s(t, st1).1,
                decls,
                errs.push(e),
            ),
            (Err(FailM::Abort), _) => program_loop_s(t, st, decls, errs) is None,
        }),
{
    if let Ok(Some(tok)) = opt_peek_s(t, st) {
        if tok != TokenM::Op(';') {
            lemma_parse_decl_fwd(t, st, tok);
        }
    }
}

} // verus!
