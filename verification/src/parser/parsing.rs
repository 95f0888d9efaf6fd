//! The recursive-descent parser. Each parsing method gives exactly what the
//! function of the same name in the grammar gives.
use vstd::prelude::*;
use crate::lexer::keywords::Keyword;
use crate::lexer::tokens::{LexerError, TokenKind, TokenM, TokenResult, token_results_view};
use crate::parser::decl::{Arg, ArgM, DeclKind, DeclM, Program, Prototype, ProtoM, args_view, decls_view};
use crate::parser::expr::{
    ConsKind, Expr, ExprKind, ExprM, VarInfo, VarInfoM, expr_view, exprs_view, vars_view,
    lemma_exprs_view_push, lemma_vars_view_push,
};
use crate::parser::grammar::{
    PErrM, FailM, PSt, Toks, is_ascii_char, at, fwd, fwd_strict, lex_fail, unexpected, eof_fail, opt_peek_s, peek_s, consume_s, peek_is_op, peek_is_kw, peek_fail, expect_op, expect_kw, token_prec_s, parse_type_s, tuple_type_loop_s, push_to, parse_expr_s, parse_unary_s, bin_op_rhs_s, parse_primary_s, parse_post_primary_s, index_lit, parse_field_number_s, parse_number_s, parse_identifier_s, call_args_loop_s, cons_loop_s, parse_paren_s, parse_square_s, parse_if_s, parse_for_step_s, parse_for_s, parse_var_s, var_loop_s, block_loop_s, op_fn_name, anon_name, proto_name_s, proto_args_loop_s, parse_prototype_s, parse_extern_s, parse_def_s, parse_top_level_s, parse_decl_s, recover_s, program_loop_s, parse_program_s,
};
use crate::parser::literals::Literal;
use crate::parser::numbers::{split_dot, float_text_ok_exec, has_dot_exec, parse_i64, split_dot_exec};
use crate::parser::op::{BinaryOp, UnaryOp};
use crate::parser::precedence::{PrecedenceTable, map_get};
use crate::parser::types::{Type, TypeKind, TypeM, types_view, lemma_types_view_push};

verus! {

/// An error that the parser reports.
#[derive(Debug, PartialEq)]
pub enum ParserErrorKind {
    LexerError(LexerError),
    UnexpectedToken(TokenKind),
    UnexpectedEof,
    InvalidSignatuere,
}

impl View for ParserErrorKind {
    type V = PErrM;

    open spec fn view(&self) -> PErrM {
        match self {
            ParserErrorKind::LexerError(e) => PErrM::LexerError(*e),
            ParserErrorKind::UnexpectedToken(t) => PErrM::UnexpectedToken(t@),
            ParserErrorKind::UnexpectedEof => PErrM::UnexpectedEof,
            ParserErrorKind::InvalidSignatuere => PErrM::InvalidSignatuere,
        }
    }
}

impl ParserErrorKind {
    /// A copy with the same model.
    pub fn copy(&self) -> (r: ParserErrorKind)
        ensures
            r@ == self@,
    {
        match self {
            ParserErrorKind::LexerError(e) => ParserErrorKind::LexerError(*e),
            ParserErrorKind::UnexpectedToken(t) => ParserErrorKind::UnexpectedToken(t.copy()),
            ParserErrorKind::UnexpectedEof => ParserErrorKind::UnexpectedEof,
            ParserErrorKind::InvalidSignatuere => ParserErrorKind::InvalidSignatuere,
        }
    }
}

/// The models of a list of parser errors.
pub open spec fn errs_view(s: Seq<ParserErrorKind>) -> Seq<PErrM> {
    s.map_values(|e: ParserErrorKind| e@)
}

/// How a parse fails: with an error, or on an input where the parser
/// stops the process.
enum Fail {
    Error(ParserErrorKind),
    Abort,
}

spec fn fail_view(f: Fail) -> FailM {
    match f {
        Fail::Error(e) => FailM::Error(e@),
        Fail::Abort => FailM::Abort,
    }
}

spec fn rv_unit(r: Result<(), Fail>) -> Result<(), FailM> {
    match r {
        Ok(_) => Ok(()),
        Err(f) => Err(fail_view(f)),
    }
}

spec fn rv_tok(r: Result<TokenKind, Fail>) -> Result<TokenM, FailM> {
    match r {
        Ok(t) => Ok(t@),
        Err(f) => Err(fail_view(f)),
    }
}

spec fn rv_opt_tok(r: Result<Option<TokenKind>, Fail>) -> Result<Option<TokenM>, FailM> {
    match r {
        Ok(Some(t)) => Ok(Some(t@)),
        Ok(None) => Ok(None),
        Err(f) => Err(fail_view(f)),
    }
}

spec fn rv_type(r: Result<Type, Fail>) -> Result<TypeM, FailM> {
    match r {
        Ok(t) => Ok(t@),
        Err(f) => Err(fail_view(f)),
    }
}

spec fn rv_expr(r: Result<Expr, Fail>) -> Result<ExprM, FailM> {
    match r {
        Ok(e) => Ok(e@),
        Err(f) => Err(fail_view(f)),
    }
}

spec fn rv_exprs(r: Result<Vec<Expr>, Fail>) -> Result<Seq<ExprM>, FailM> {
    match r {
        Ok(v) => Ok(exprs_view(v@)),
        Err(f) => Err(fail_view(f)),
    }
}

/// A parser over a token stream, with the precedence table of binary
/// operators (which `binary` prototypes extend) and the errors met so far.
pub struct Parser {
    errors: Vec<ParserErrorKind>,
    token_stream: Vec<TokenResult>,
    pos: usize,
    binop_precedence: PrecedenceTable,
}

impl Parser {
    /// The model of the token stream.
    pub closed spec fn toks(&self) -> Toks {
        token_results_view(self.token_stream@)
    }

    /// The position of the next token and the precedence table.
    pub closed spec fn state(&self) -> PSt {
        PSt { pos: self.pos as int, prec: self.binop_precedence@ }
    }

    /// The errors met so far.
    pub closed spec fn errors(&self) -> Seq<PErrM> {
        errs_view(self.errors@)
    }

    /// The parser's position lies within its token stream.
    pub closed spec fn wf(&self) -> bool {
        self.pos <= self.token_stream.len()
    }

    spec fn same_input(&self, other: &Parser) -> bool {
        &&& self.token_stream == other.token_stream
        &&& self.errors == other.errors
    }

    /// A parser at the start of a token stream, with a precedence table.
    pub fn new(token_stream: Vec<TokenResult>, binop_precedence: PrecedenceTable) -> (r: Parser)
        ensures
            r.wf(),
            r.toks() == token_results_view(token_stream@),
            r.state() == (PSt { pos: 0, prec: binop_precedence@ }),
            r.errors() == Seq::<PErrM>::empty(),
    {
        let r = Parser { errors: Vec::new(), token_stream, pos: 0, binop_precedence };
        assert(r.errors() =~= Seq::<PErrM>::empty());
        r
    }

    /// The precedence table, with what `binary` prototypes added to it.
    pub fn binop_precedence(&self) -> (r: &PrecedenceTable)
        ensures
            r@ == self.state().prec,
    {
        &self.binop_precedence
    }

    /// Gives back the precedence table, for the next input.
    pub fn into_binop_precedence(self) -> (r: PrecedenceTable)
        ensures
            r@ == self.state().prec,
    {
        self.binop_precedence
    }

    fn opt_peek_token(&self) -> (r: Result<Option<TokenKind>, Fail>)
        requires
            self.wf(),
        ensures
            rv_opt_tok(r) == opt_peek_s(self.toks(), self.state()),
    {
        if self.pos < self.token_stream.len() {
            match &self.token_stream[self.pos] {
                Ok(t) => Ok(Some(t.copy())),
                Err(e) => Err(Fail::Error(ParserErrorKind::LexerError(*e))),
            }
        } else {
            Ok(None)
        }
    }

    fn peek_token(&self) -> (r: Result<TokenKind, Fail>)
        requires
            self.wf(),
        ensures
            rv_tok(r) == peek_s(self.toks(), self.state()),
    {
        match self.opt_peek_token() {
            Ok(Some(t)) => Ok(t),
            Ok(None) => Err(Fail::Error(ParserErrorKind::UnexpectedEof)),
            Err(f) => Err(f),
        }
    }

    fn consume_token(&mut self) -> (r: Result<TokenKind, Fail>)
        requires
            old(self).wf(),
        ensures
            final(self).wf(),
            final(self).same_input(old(self)),
            (rv_tok(r), final(self).state()) == consume_s(old(self).toks(), old(self).state()),
    {
        if self.pos < self.token_stream.len() {
            let r = match &self.token_stream[self.pos] {
                Ok(t) => Ok(t.copy()),
                Err(e) => Err(Fail::Error(ParserErrorKind::LexerError(*e))),
            };
            self.pos = self.pos + 1;
            r
        } else {
            Err(Fail::Error(ParserErrorKind::UnexpectedEof))
        }
    }

    fn peek_is_op(&self, c: char) -> (r: bool)
        requires
            self.wf(),
        ensures
            r == peek_is_op(self.toks(), self.state(), c),
    {
        match self.peek_token() {
            Ok(TokenKind::Op(d)) => d == c,
            _ => false,
        }
    }

    fn peek_is_keyword(&self, k: Keyword) -> (r: bool)
        requires
            self.wf(),
        ensures
            r == peek_is_kw(self.toks(), self.state(), k),
    {
        match self.peek_token() {
            Ok(TokenKind::Keyword(j)) => j == k,
            _ => false,
        }
    }

    fn peek_failure(&self) -> (r: Fail)
        requires
            self.wf(),
        ensures
            fail_view(r) == peek_fail(self.toks(), self.state()),
    {
        match self.peek_token() {
            Ok(t) => Fail::Error(ParserErrorKind::UnexpectedToken(t)),
            Err(f) => f,
        }
    }

    fn expect_op(&mut self, c: char) -> (r: Result<(), Fail>)
        requires
            old(self).wf(),
        ensures
            final(self).wf(),
            final(self).same_input(old(self)),
            (rv_unit(r), final(self).state()) == expect_op(old(self).toks(), old(self).state(), c),
    {
        if self.peek_is_op(c) {
            match self.consume_token() {
                Ok(_) => Ok(()),
                Err(f) => Err(f),
            }
        } else {
            Err(self.peek_failure())
        }
    }

    fn expect_keyword(&mut self, k: Keyword) -> (r: Result<(), Fail>)
        requires
            old(self).wf(),
        ensures
            final(self).wf(),
            final(self).same_input(old(self)),
            (rv_unit(r), final(self).state()) == expect_kw(old(self).toks(), old(self).state(), k),
    {
        if self.peek_is_keyword(k) {
            match self.consume_token() {
                Ok(_) => Ok(()),
                Err(f) => Err(f),
            }
        } else {
            Err(self.peek_failure())
        }
    }

    fn get_token_precedence(&self) -> (r: Result<i8, Fail>)
        requires
            self.wf(),
        ensures
            match r {
                Ok(p) => token_prec_s(self.toks(), self.state()) == Ok::<int, FailM>(p as int),
                Err(f) => token_prec_s(self.toks(), self.state()) == Err::<int, FailM>(fail_view(f)),
            },
    {
        let token = match self.opt_peek_token() {
            Ok(Some(t)) => t,
            Ok(None) => return Ok(-1),
            Err(f) => return Err(f),
        };
        if let TokenKind::Op(c) = token {
            let tok_prec = self.binop_precedence.get(c);
            if (c as u32) < 128 {
                if let Some(prec) = tok_prec {
                    return Ok(prec);
                }
            }
        }
        Ok(-1)
    }

    fn parse_type(&mut self) -> (r: Result<Type, Fail>)
        requires
            old(self).wf(),
        ensures
            final(self).wf(),
            final(self).same_input(old(self)),
            (rv_type(r), final(self).state()) == parse_type_s(old(self).toks(), old(self).state()),
            fwd(old(self).toks(), old(self).state(), final(self).state()),
        decreases old(self).token_stream@.len() - old(self).pos, 10int,
    {
        let ghost t = self.toks();
        let ghost st = self.state();
        match self.peek_token() {
            Err(f) => Err(f),
            Ok(TokenKind::Keyword(Keyword::Double)) => match self.consume_token() {
                Ok(_) => Ok(Box::new(TypeKind::F64)),
                Err(f) => Err(f),
            },
            Ok(TokenKind::Keyword(Keyword::Int)) => match self.consume_token() {
                Ok(_) => Ok(Box::new(TypeKind::I64)),
                Err(f) => Err(f),
            },
            Ok(TokenKind::Op(c)) => if c == '(' {
                match self.consume_token() {
                    Err(f) => Err(f),
                    Ok(_) => if self.peek_is_op(')') {
                        match self.consume_token() {
                            Ok(_) => Ok(Box::new(TypeKind::Unit)),
                            Err(f) => Err(f),
                        }
                    } else {
                        match self.peek_token() {
                            Err(f) => Err(f),
                            Ok(_) => self.parse_tuple_type(Vec::new()),
                        }
                    },
                }
            } else if c == '[' {
                match self.consume_token() {
                    Err(f) => Err(f),
                    Ok(_) => match self.parse_type() {
                        Err(f) => Err(f),
                        Ok(elem) => match self.expect_op(']') {
                            Ok(_) => Ok(Box::new(TypeKind::List(Some(elem)))),
                            Err(f) => Err(f),
                        },
                    },
                }
            } else {
                Err(Fail::Error(ParserErrorKind::UnexpectedToken(TokenKind::Op(c))))
            },
            Ok(tok) => Err(Fail::Error(ParserErrorKind::UnexpectedToken(tok))),
        }
    }

    fn parse_tuple_type(&mut self, acc: Vec<Type>) -> (r: Result<Type, Fail>)
        requires
            old(self).wf(),
        ensures
            final(self).wf(),
            final(self).same_input(old(self)),
            (rv_type(r), final(self).state()) == tuple_type_loop_s(
                old(self).toks(),
                old(self).state(),
                types_view(acc@),
            ),
            fwd(old(self).toks(), old(self).state(), final(self).state()),
        decreases old(self).token_stream@.len() - old(self).pos, 11int,
    {
        let mut acc = acc;
        match self.parse_type() {
            Err(f) => Err(f),
            Ok(ty) => {
                proof {
                    lemma_types_view_push(acc@, ty);
                }
                acc.push(ty);
                match self.peek_token() {
                    Err(f) => Err(f),
                    Ok(TokenKind::Op(c)) => if c == ',' {
                        match self.consume_token() {
                            Err(f) => Err(f),
                            Ok(_) => self.parse_tuple_type(acc),
                        }
                    } else if c == ')' {
                        match self.consume_token() {
                            Ok(_) => Ok(Box::new(TypeKind::Tuple(acc))),
                            Err(f) => Err(f),
                        }
                    } else {
                        Err(Fail::Error(ParserErrorKind::UnexpectedToken(TokenKind::Op(c))))
                    },
                    Ok(tok) => Err(Fail::Error(ParserErrorKind::UnexpectedToken(tok))),
                }
            },
        }
    }

    fn parse_expr(&mut self) -> (r: Result<Expr, Fail>)
        requires
            old(self).wf(),
        ensures
            final(self).wf(),
            final(self).same_input(old(self)),
            (rv_expr(r), final(self).state()) == parse_expr_s(old(self).toks(), old(self).state()),
            fwd(old(self).toks(), old(self).state(), final(self).state()),
            r is Ok ==> fwd_strict(old(self).toks(), old(self).state(), final(self).state()),
        decreases old(self).token_stream@.len() - old(self).pos, 50int,
    {
        match self.parse_unary() {
            Err(f) => Err(f),
            Ok(lhs) => self.parse_bin_op_rhs(0, lhs),
        }
    }

    fn parse_unary(&mut self) -> (r: Result<Expr, Fail>)
        requires
            old(self).wf(),
        ensures
            final(self).wf(),
            final(self).same_input(old(self)),
            (rv_expr(r), final(self).state()) == parse_unary_s(old(self).toks(), old(self).state()),
            fwd(old(self).toks(), old(self).state(), final(self).state()),
            r is Ok ==> fwd_strict(old(self).toks(), old(self).state(), final(self).state()),
        decreases old(self).token_stream@.len() - old(self).pos, 45int,
    {
        match self.peek_token() {
            Err(f) => Err(f),
            Ok(TokenKind::Op(c)) => if (c as u32) < 128 && c != '(' && c != ',' && c != '[' {
                match self.consume_token() {
                    Err(f) => Err(f),
                    Ok(_) => match self.parse_unary() {
                        Ok(e) => Ok(Box::new(ExprKind::Unary(UnaryOp::from_char(c), e))),
                        Err(f) => Err(f),
                    },
                }
            } else {
                self.parse_primary()
            },
            Ok(_) => self.parse_primary(),
        }
    }

    fn parse_bin_op_rhs(&mut self, expr_prec: i8, lhs: Expr) -> (r: Result<Expr, Fail>)
        requires
            old(self).wf(),
        ensures
            final(self).wf(),
            final(self).same_input(old(self)),
            (rv_expr(r), final(self).state()) == bin_op_rhs_s(
                old(self).toks(),
                old(self).state(),
                expr_prec as int,
                lhs@,
            ),
            fwd(old(self).toks(), old(self).state(), final(self).state()),
        decreases old(self).token_stream@.len() - old(self).pos, 40int,
    {
        let tok_prec = match self.get_token_precedence() {
            Err(f) => return Err(f),
            Ok(p) => p,
        };
        if tok_prec < expr_prec {
            return Ok(lhs);
        }
        let bin_tok = match self.consume_token() {
            Err(f) => return Err(f),
            Ok(t) => t,
        };
        let rhs = match self.parse_unary() {
            Err(f) => return Err(f),
            Ok(e) => e,
        };
        let next_prec = match self.get_token_precedence() {
            Err(f) => return Err(f),
            Ok(p) => p,
        };
        let rhs2 = if tok_prec < next_prec {
            match self.parse_bin_op_rhs(tok_prec + 1, rhs) {
                Err(f) => return Err(f),
                Ok(e) => e,
            }
        } else {
            rhs
        };
        match bin_tok {
            TokenKind::Op(c) => {
                let e = Box::new(ExprKind::Binary(BinaryOp::from_char(c), lhs, rhs2));
                self.parse_bin_op_rhs(expr_prec, e)
            },
            _ => Err(Fail::Abort),
        }
    }

    fn parse_primary(&mut self) -> (r: Result<Expr, Fail>)
        requires
            old(self).wf(),
        ensures
            final(self).wf(),
            final(self).same_input(old(self)),
            (rv_expr(r), final(self).state()) == parse_primary_s(old(self).toks(), old(self).state()),
            fwd(old(self).toks(), old(self).state(), final(self).state()),
            r is Ok ==> fwd_strict(old(self).toks(), old(self).state(), final(self).state()),
        decreases old(self).token_stream@.len() - old(self).pos, 44int,
    {
        let r = match self.peek_token() {
            Err(f) => Err(f),
            Ok(TokenKind::Identifier(_)) => self.parse_identifier(),
            Ok(TokenKind::Number(_)) => self.parse_number(),
            Ok(TokenKind::Op(c)) => if c == '(' {
                self.parse_paren()
            } else if c == '[' {
                self.parse_square_brackets()
            } else {
                Err(Fail::Error(ParserErrorKind::UnexpectedToken(TokenKind::Op(c))))
            },
            Ok(TokenKind::Keyword(Keyword::If)) => self.parse_if(),
            Ok(TokenKind::Keyword(Keyword::For)) => self.parse_for(),
            Ok(TokenKind::Keyword(Keyword::Var)) => self.parse_var(),
            Ok(tok) => Err(Fail::Error(ParserErrorKind::UnexpectedToken(tok))),
        };
        match r {
            Err(f) => Err(f),
            Ok(e) => self.parse_post_primary(e),
        }
    }

    fn parse_post_primary(&mut self, e: Expr) -> (r: Result<Expr, Fail>)
        requires
            old(self).wf(),
        ensures
            final(self).wf(),
            final(self).same_input(old(self)),
            (rv_expr(r), final(self).state()) == parse_post_primary_s(
                old(self).toks(),
                old(self).state(),
                e@,
            ),
            fwd(old(self).toks(), old(self).state(), final(self).state()),
        decreases old(self).token_stream@.len() - old(self).pos, 43int,
    {
        match self.opt_peek_token() {
            Err(f) => Err(f),
            Ok(Some(TokenKind::Op(c))) => if c == '.' {
                match self.consume_token() {
                    Err(f) => Err(f),
                    Ok(_) => self.parse_field_number(e),
                }
            } else if c == '[' {
                match self.consume_token() {
                    Err(f) => Err(f),
                    Ok(_) => match self.parse_expr() {
                        Err(f) => Err(f),
                        Ok(idx) => match self.expect_op(']') {
                            Err(f) => Err(f),
                            Ok(_) => {
                                let p = Box::new(ExprKind::Projection(e, idx, None));
                                self.parse_post_primary(p)
                            },
                        },
                    },
                }
            } else {
                Ok(e)
            },
            Ok(_) => Ok(e),
        }
    }

    fn parse_field_number(&mut self, e: Expr) -> (r: Result<Expr, Fail>)
        requires
            old(self).wf(),
        ensures
            final(self).wf(),
            final(self).same_input(old(self)),
            (rv_expr(r), final(self).state()) == parse_field_number_s(
                old(self).toks(),
                old(self).state(),
                e@,
            ),
            fwd(old(self).toks(), old(self).state(), final(self).state()),
        decreases old(self).token_stream@.len() - old(self).pos, 42int,
    {
        proof {
            reveal_with_fuel(expr_view, 3);
        }
        match self.consume_token() {
            Err(f) => Err(f),
            Ok(TokenKind::Number(n)) => if has_dot_exec(&n) {
                let (a, b) = split_dot_exec(&n);
                let pa = parse_i64(&a);
                let pb = parse_i64(&b);
                assert(split_dot(n@) == (a@, b@));
                match (pa, pb) {
                    (Some(x), Some(y)) => {
                        let p1 = Box::new(
                            ExprKind::Projection(e, Box::new(ExprKind::Literal(Literal::I64(x))), None),
                        );
                        let p2 = Box::new(
                            ExprKind::Projection(p1, Box::new(ExprKind::Literal(Literal::I64(y))), None),
                        );
                        assert(p2@ == ExprM::Projection(
                            Box::new(ExprM::Projection(Box::new(e@), index_lit(x), None)),
                            index_lit(y),
                            None,
                        ));
                        self.parse_post_primary(p2)
                    },
                    _ => Err(Fail::Abort),
                }
            } else {
                match parse_i64(&n) {
                    Some(x) => {
                        let p = Box::new(
                            ExprKind::Projection(e, Box::new(ExprKind::Literal(Literal::I64(x))), None),
                        );
                        assert(p@ == ExprM::Projection(Box::new(e@), index_lit(x), None));
                        self.parse_post_primary(p)
                    },
                    None => Err(Fail::Abort),
                }
            },
            Ok(_) => Err(Fail::Abort),
        }
    }

    fn parse_number(&mut self) -> (r: Result<Expr, Fail>)
        requires
            old(self).wf(),
        ensures
            final(self).wf(),
            final(self).same_input(old(self)),
            (rv_expr(r), final(self).state()) == parse_number_s(old(self).toks(), old(self).state()),
            fwd(old(self).toks(), old(self).state(), final(self).state()),
            r is Ok ==> fwd_strict(old(self).toks(), old(self).state(), final(self).state()),
    {
        match self.consume_token() {
            Err(f) => Err(f),
            Ok(TokenKind::Number(n)) => if has_dot_exec(&n) {
                if float_text_ok_exec(&n) {
                    Ok(Box::new(ExprKind::Literal(Literal::F64(n))))
                } else {
                    Err(Fail::Abort)
                }
            } else {
                match parse_i64(&n) {
                    Some(v) => Ok(Box::new(ExprKind::Literal(Literal::I64(v)))),
                    None => Err(Fail::Abort),
                }
            },
            Ok(_) => Err(Fail::Abort),
        }
    }

    fn parse_identifier(&mut self) -> (r: Result<Expr, Fail>)
        requires
            old(self).wf(),
        ensures
            final(self).wf(),
            final(self).same_input(old(self)),
            (rv_expr(r), final(self).state()) == parse_identifier_s(old(self).toks(), old(self).state()),
            fwd(old(self).toks(), old(self).state(), final(self).state()),
            r is Ok ==> fwd_strict(old(self).toks(), old(self).state(), final(self).state()),
        decreases old(self).token_stream@.len() - old(self).pos, 30int,
    {
        let id = match self.consume_token() {
            Err(f) => return Err(f),
            Ok(TokenKind::Identifier(id)) => id,
            Ok(_) => return Err(Fail::Abort),
        };
        let next = match self.opt_peek_token() {
            Err(f) => return Err(f),
            Ok(n) => n,
        };
        let is_call = match next {
            Some(TokenKind::Op(c)) => c == '(',
            _ => false,
        };
        if !is_call {
            return Ok(Box::new(ExprKind::Identifier(id, None)));
        }
        match self.consume_token() {
            Err(f) => return Err(f),
            Ok(_) => {},
        }
        let tok = match self.peek_token() {
            Err(f) => return Err(f),
            Ok(t) => t,
        };
        let is_close = match tok {
            TokenKind::Op(c) => c == ')',
            _ => false,
        };
        let args = if is_close {
            let v: Vec<Expr> = Vec::new();
            proof {
                assert(exprs_view(v@) =~= Seq::<ExprM>::empty());
            }
            v
        } else {
            match self.parse_call_args(Vec::new()) {
                Err(f) => return Err(f),
                Ok(v) => v,
            }
        };
        match self.consume_token() {
            Ok(_) => Ok(Box::new(ExprKind::Call(id, args, None))),
            Err(f) => Err(f),
        }
    }

    fn parse_call_args(&mut self, acc: Vec<Expr>) -> (r: Result<Vec<Expr>, Fail>)
        requires
            old(self).wf(),
        ensures
            final(self).wf(),
            final(self).same_input(old(self)),
            (rv_exprs(r), final(self).state()) == call_args_loop_s(
                old(self).toks(),
                old(self).state(),
                exprs_view(acc@),
            ),
            fwd(old(self).toks(), old(self).state(), final(self).state()),
        decreases old(self).token_stream@.len() - old(self).pos, 52int,
    {
        let mut acc = acc;
        let e = match self.parse_expr() {
            Err(f) => return Err(f),
            Ok(e) => e,
        };
        proof {
            lemma_exprs_view_push(acc@, e);
        }
        acc.push(e);
        match self.peek_token() {
            Err(f) => Err(f),
            Ok(TokenKind::Op(c)) => if c == ')' {
                Ok(acc)
            } else if c == ',' {
                match self.consume_token() {
                    Err(f) => Err(f),
                    Ok(_) => self.parse_call_args(acc),
                }
            } else {
                Err(Fail::Error(ParserErrorKind::UnexpectedToken(TokenKind::Op(c))))
            },
            Ok(tok) => Err(Fail::Error(ParserErrorKind::UnexpectedToken(tok))),
        }
    }

    fn parse_cons(&mut self, acc: Vec<Expr>, kind: ConsKind) -> (r: Result<Expr, Fail>)
        requires
            old(self).wf(),
        ensures
            final(self).wf(),
            final(self).same_input(old(self)),
            (rv_expr(r), final(self).state()) == cons_loop_s(
                old(self).toks(),
                old(self).state(),
                exprs_view(acc@),
                kind,
            ),
            fwd(old(self).toks(), old(self).state(), final(self).state()),
        decreases old(self).token_stream@.len() - old(self).pos, 52int,
    {
        let mut acc = acc;
        let tok = match self.peek_token() {
            Err(f) => return Err(f),
            Ok(t) => t,
        };
        let is_comma = match tok {
            TokenKind::Op(c) => c == ',',
            _ => false,
        };
        if !is_comma {
            return Ok(Box::new(ExprKind::Cons(acc, kind)));
        }
        match self.consume_token() {
            Err(f) => return Err(f),
            Ok(_) => {},
        }
        let e = match self.parse_expr() {
            Err(f) => return Err(f),
            Ok(e) => e,
        };
        proof {
            lemma_exprs_view_push(acc@, e);
        }
        acc.push(e);
        self.parse_cons(acc, kind)
    }

    fn parse_paren(&mut self) -> (r: Result<Expr, Fail>)
        requires
            old(self).wf(),
        ensures
            final(self).wf(),
            final(self).same_input(old(self)),
            (rv_expr(r), final(self).state()) == parse_paren_s(old(self).toks(), old(self).state()),
            fwd(old(self).toks(), old(self).state(), final(self).state()),
            r is Ok ==> fwd_strict(old(self).toks(), old(self).state(), final(self).state()),
        decreases old(self).token_stream@.len() - old(self).pos, 30int,
    {
        match self.consume_token() {
            Err(f) => return Err(f),
            Ok(_) => {},
        }
        if self.peek_is_op(')') {
            return match self.consume_token() {
                Ok(_) => Ok(Box::new(ExprKind::Literal(Literal::Unit))),
                Err(f) => Err(f),
            };
        }
        match self.peek_token() {
            Err(f) => return Err(f),
            Ok(_) => {},
        }
        let v = match self.parse_expr() {
            Err(f) => return Err(f),
            Ok(v) => v,
        };
        if self.peek_is_op(',') {
            let mut acc: Vec<Expr> = Vec::new();
            let ghost vm = v@;
            acc.push(v);
            proof {
                assert(exprs_view(acc@) =~= seq![vm]) by {
                    lemma_exprs_view_push(Seq::empty(), acc@[0]);
                    assert(Seq::<Expr>::empty().push(acc@[0]) =~= acc@);
                }
            }
            let tup = match self.parse_cons(acc, ConsKind::Tuple) {
                Err(f) => return Err(f),
                Ok(e) => e,
            };
            match self.expect_op(')') {
                Ok(_) => Ok(tup),
                Err(f) => Err(f),
            }
        } else {
            match self.expect_op(')') {
                Ok(_) => Ok(v),
                Err(f) => Err(f),
            }
        }
    }

    fn parse_square_brackets(&mut self) -> (r: Result<Expr, Fail>)
        requires
            old(self).wf(),
        ensures
            final(self).wf(),
            final(self).same_input(old(self)),
            (rv_expr(r), final(self).state()) == parse_square_s(old(self).toks(), old(self).state()),
            fwd(old(self).toks(), old(self).state(), final(self).state()),
            r is Ok ==> fwd_strict(old(self).toks(), old(self).state(), final(self).state()),
        decreases old(self).token_stream@.len() - old(self).pos, 30int,
    {
        match self.consume_token() {
            Err(f) => return Err(f),
            Ok(_) => {},
        }
        if self.peek_is_op(']') {
            let empty: Vec<Expr> = Vec::new();
            assert(exprs_view(empty@) =~= Seq::<ExprM>::empty());
            return match self.consume_token() {
                Ok(_) => Ok(Box::new(ExprKind::Cons(empty, ConsKind::List))),
                Err(f) => Err(f),
            };
        }
        match self.peek_token() {
            Err(f) => return Err(f),
            Ok(_) => {},
        }
        let v = match self.parse_expr() {
            Err(f) => return Err(f),
            Ok(v) => v,
        };
        let mut acc: Vec<Expr> = Vec::new();
        let ghost vm = v@;
        acc.push(v);
        proof {
            assert(exprs_view(acc@) =~= seq![vm]) by {
                lemma_exprs_view_push(Seq::empty(), acc@[0]);
                assert(Seq::<Expr>::empty().push(acc@[0]) =~= acc@);
            }
        }
        let lst = match self.parse_cons(acc, ConsKind::List) {
            Err(f) => return Err(f),
            Ok(e) => e,
        };
        match self.expect_op(']') {
            Ok(_) => Ok(lst),
            Err(f) => Err(f),
        }
    }

    fn parse_if(&mut self) -> (r: Result<Expr, Fail>)
        requires
            old(self).wf(),
        ensures
            final(self).wf(),
            final(self).same_input(old(self)),
            (rv_expr(r), final(self).state()) == parse_if_s(old(self).toks(), old(self).state()),
            fwd(old(self).toks(), old(self).state(), final(self).state()),
            r is Ok ==> fwd_strict(old(self).toks(), old(self).state(), final(self).state()),
        decreases old(self).token_stream@.len() - old(self).pos, 30int,
    {
        match self.consume_token() {
            Err(f) => return Err(f),
            Ok(_) => {},
        }
        let cond = match self.parse_expr() {
            Err(f) => return Err(f),
            Ok(e) => e,
        };
        match self.expect_keyword(Keyword::Then) {
            Err(f) => return Err(f),
            Ok(_) => {},
        }
        let then = match self.parse_expr() {
            Err(f) => return Err(f),
            Ok(e) => e,
        };
        match self.expect_keyword(Keyword::Else) {
            Err(f) => return Err(f),
            Ok(_) => {},
        }
        match self.parse_expr() {
            Ok(els) => Ok(Box::new(ExprKind::IfThenElse(cond, then, els))),
            Err(f) => Err(f),
        }
    }

    fn parse_for_step(&mut self) -> (r: Result<Option<Expr>, Fail>)
        requires
            old(self).wf(),
        ensures
            final(self).wf(),
            final(self).same_input(old(self)),
            (match r {
                Ok(Some(e)) => Ok(Some(Box::new(e@))),
                Ok(None) => Ok(None),
                Err(f) => Err(fail_view(f)),
            }, final(self).state()) == parse_for_step_s(old(self).toks(), old(self).state()),
            fwd(old(self).toks(), old(self).state(), final(self).state()),
        decreases old(self).token_stream@.len() - old(self).pos, 30int,
    {
        let tok = match self.peek_token() {
            Err(f) => return Err(f),
            Ok(t) => t,
        };
        let is_comma = match tok {
            TokenKind::Op(c) => c == ',',
            _ => false,
        };
        if !is_comma {
            return Ok(None);
        }
        match self.consume_token() {
            Err(f) => return Err(f),
            Ok(_) => {},
        }
        match self.parse_expr() {
            Ok(e) => Ok(Some(e)),
            Err(f) => Err(f),
        }
    }

    #[verifier::rlimit(40)]
    fn parse_for(&mut self) -> (r: Result<Expr, Fail>)
        requires
            old(self).wf(),
        ensures
            final(self).wf(),
            final(self).same_input(old(self)),
            (rv_expr(r), final(self).state()) == parse_for_s(old(self).toks(), old(self).state()),
            fwd(old(self).toks(), old(self).state(), final(self).state()),
            r is Ok ==> fwd_strict(old(self).toks(), old(self).state(), final(self).state()),
        decreases old(self).token_stream@.len() - old(self).pos, 30int,
    {
        match self.consume_token() {
            Err(f) => return Err(f),
            Ok(_) => {},
        }
        let id = match self.peek_token() {
            Err(f) => return Err(f),
            Ok(TokenKind::Identifier(id)) => id,
            Ok(tok) => return Err(Fail::Error(ParserErrorKind::UnexpectedToken(tok))),
        };
        match self.consume_token() {
            Err(f) => return Err(f),
            Ok(_) => {},
        }
        match self.expect_op('=') {
            Err(f) => return Err(f),
            Ok(_) => {},
        }
        let start = match self.parse_expr() {
            Err(f) => return Err(f),
            Ok(e) => e,
        };
        match self.expect_op(',') {
            Err(f) => return Err(f),
            Ok(_) => {},
        }
        let end = match self.parse_expr() {
            Err(f) => return Err(f),
            Ok(e) => e,
        };
        let step = match self.parse_for_step() {
            Err(f) => return Err(f),
            Ok(s) => s,
        };
        match self.expect_keyword(Keyword::In) {
            Err(f) => return Err(f),
            Ok(_) => {},
        }
        match self.parse_expr() {
            Ok(body) => Ok(Box::new(ExprKind::ForLoop(id, start, end, step, body))),
            Err(f) => Err(f),
        }
    }

    fn parse_var(&mut self) -> (r: Result<Expr, Fail>)
        requires
            old(self).wf(),
        ensures
            final(self).wf(),
            final(self).same_input(old(self)),
            (rv_expr(r), final(self).state()) == parse_var_s(old(self).toks(), old(self).state()),
            fwd(old(self).toks(), old(self).state(), final(self).state()),
            r is Ok ==> fwd_strict(old(self).toks(), old(self).state(), final(self).state()),
        decreases old(self).token_stream@.len() - old(self).pos, 30int,
    {
        match self.consume_token() {
            Err(f) => return Err(f),
            Ok(_) => {},
        }
        match self.peek_token() {
            Err(f) => return Err(f),
            Ok(TokenKind::Identifier(_)) => {},
            Ok(tok) => return Err(Fail::Error(ParserErrorKind::UnexpectedToken(tok))),
        }
        let vars = match self.parse_var_bindings(Vec::new()) {
            Err(f) => return Err(f),
            Ok(v) => v,
        };
        match self.expect_keyword(Keyword::In) {
            Err(f) => return Err(f),
            Ok(_) => {},
        }
        match self.parse_block() {
            Ok(body) => Ok(Box::new(ExprKind::Var(vars, body))),
            Err(f) => Err(f),
        }
    }

    fn parse_var_bindings(&mut self, acc: Vec<VarInfo>) -> (r: Result<Vec<VarInfo>, Fail>)
        requires
            old(self).wf(),
        ensures
            final(self).wf(),
            final(self).same_input(old(self)),
            (match r {
                Ok(v) => Ok(vars_view(v@)),
                Err(f) => Err(fail_view(f)),
            }, final(self).state()) == var_loop_s(old(self).toks(), old(self).state(), vars_view(acc@)),
            fwd(old(self).toks(), old(self).state(), final(self).state()),
        decreases old(self).token_stream@.len() - old(self).pos, 30int,
    {
        let mut acc = acc;
        let name = match self.consume_token() {
            Err(f) => return Err(f),
            Ok(TokenKind::Identifier(n)) => n,
            Ok(_) => return Err(Fail::Abort),
        };
        let tok = match self.peek_token() {
            Err(f) => return Err(f),
            Ok(t) => t,
        };
        let is_colon = match tok {
            TokenKind::Op(c) => c == ':',
            _ => false,
        };
        let typ = if is_colon {
            match self.consume_token() {
                Err(f) => return Err(f),
                Ok(_) => {},
            }
            match self.parse_type() {
                Err(f) => return Err(f),
                Ok(t) => Some(t),
            }
        } else {
            None
        };
        let tok = match self.peek_token() {
            Err(f) => return Err(f),
            Ok(t) => t,
        };
        let is_eq = match tok {
            TokenKind::Op(c) => c == '=',
            _ => false,
        };
        let val = if is_eq {
            match self.consume_token() {
                Err(f) => return Err(f),
                Ok(_) => {},
            }
            match self.parse_expr() {
                Err(f) => return Err(f),
                Ok(e) => Some(e),
            }
        } else {
            None
        };
        let info = VarInfo { name, t: typ, val };
        proof {
            lemma_vars_view_push(acc@, info);
        }
        acc.push(info);
        let tok = match self.peek_token() {
            Err(f) => return Err(f),
            Ok(t) => t,
        };
        let is_comma = match tok {
            TokenKind::Op(c) => c == ',',
            _ => false,
        };
        if !is_comma {
            return Ok(acc);
        }
        match self.consume_token() {
            Err(f) => return Err(f),
            Ok(_) => {},
        }
        match self.peek_token() {
            Err(f) => Err(f),
            Ok(TokenKind::Identifier(_)) => self.parse_var_bindings(acc),
            Ok(tok) => Err(Fail::Error(ParserErrorKind::UnexpectedToken(tok))),
        }
    }

    fn parse_block(&mut self) -> (r: Result<Expr, Fail>)
        requires
            old(self).wf(),
        ensures
            final(self).wf(),
            final(self).same_input(old(self)),
            (rv_expr(r), final(self).state()) == block_loop_s(old(self).toks(), old(self).state(), Seq::empty()),
            fwd(old(self).toks(), old(self).state(), final(self).state()),
        decreases old(self).token_stream@.len() - old(self).pos, 56int,
    {
        let v: Vec<Expr> = Vec::new();
        assert(exprs_view(v@) =~= Seq::<ExprM>::empty());
        self.parse_block_from(v)
    }

    fn parse_block_from(&mut self, acc: Vec<Expr>) -> (r: Result<Expr, Fail>)
        requires
            old(self).wf(),
        ensures
            final(self).wf(),
            final(self).same_input(old(self)),
            (rv_expr(r), final(self).state()) == block_loop_s(
                old(self).toks(),
                old(self).state(),
                exprs_view(acc@),
            ),
            fwd(old(self).toks(), old(self).state(), final(self).state()),
        decreases old(self).token_stream@.len() - old(self).pos, 55int,
    {
        let mut acc = acc;
        match self.opt_peek_token() {
            Err(f) => return Err(f),
            Ok(None) => return Ok(Box::new(ExprKind::Sequence(acc))),
            Ok(Some(_)) => {},
        }
        let e = match self.parse_expr() {
            Err(f) => return Err(f),
            Ok(e) => e,
        };
        proof {
            lemma_exprs_view_push(acc@, e);
        }
        acc.push(e);
        let next = match self.opt_peek_token() {
            Err(f) => return Err(f),
            Ok(n) => n,
        };
        let is_semi = match next {
            Some(TokenKind::Op(c)) => c == ';',
            _ => false,
        };
        if is_semi {
            match self.consume_token() {
                Err(f) => Err(f),
                Ok(_) => self.parse_block_from(acc),
            }
        } else {
            Ok(Box::new(ExprKind::Sequence(acc)))
        }
    }

    fn parse_proto_name(&mut self) -> (r: Result<(String, usize), Fail>)
        requires
            old(self).wf(),
        ensures
            final(self).wf(),
            final(self).same_input(old(self)),
            (match r {
                Ok((n, k)) => Ok((n@, k as int)),
                Err(f) => Err(fail_view(f)),
            }, final(self).state()) == proto_name_s(old(self).toks(), old(self).state()),
            fwd(old(self).toks(), old(self).state(), final(self).state()),
    {
        match self.peek_token() {
            Err(f) => Err(f),
            Ok(TokenKind::Identifier(id)) => match self.consume_token() {
                Ok(_) => Ok((id, 0)),
                Err(f) => Err(f),
            },
            Ok(TokenKind::Keyword(Keyword::Binary)) => {
                match self.consume_token() {
                    Err(f) => return Err(f),
                    Ok(_) => {},
                }
                let c = match self.peek_token() {
                    Err(f) => return Err(f),
                    Ok(TokenKind::Op(c)) => c,
                    Ok(tok) => return Err(Fail::Error(ParserErrorKind::UnexpectedToken(tok))),
                };
                if !((c as u32) < 128) {
                    return Err(Fail::Error(ParserErrorKind::UnexpectedToken(TokenKind::Op(c))));
                }
                match self.consume_token() {
                    Err(f) => return Err(f),
                    Ok(_) => {},
                }
                match self.peek_token() {
                    Err(f) => Err(f),
                    Ok(TokenKind::Number(n)) => {
                        if has_dot_exec(&n) {
                            return Err(Fail::Abort);
                        }
                        match parse_i64(&n) {
                            None => Err(Fail::Abort),
                            Some(num) => if !(1 <= num && num <= 100) {
                                Err(Fail::Error(ParserErrorKind::UnexpectedToken(TokenKind::Number(n))))
                            } else {
                                self.binop_precedence.insert(c, num as i8);
                                match self.consume_token() {
                                    Ok(_) => Ok((op_fn_name_exec(false, c), 2)),
                                    Err(f) => Err(f),
                                }
                            },
                        }
                    },
                    Ok(_) => {
                        self.binop_precedence.insert(c, 30);
                        Ok((op_fn_name_exec(false, c), 2))
                    },
                }
            },
            Ok(TokenKind::Keyword(Keyword::Unary)) => {
                match self.consume_token() {
                    Err(f) => return Err(f),
                    Ok(_) => {},
                }
                let c = match self.peek_token() {
                    Err(f) => return Err(f),
                    Ok(TokenKind::Op(c)) => c,
                    Ok(tok) => return Err(Fail::Error(ParserErrorKind::UnexpectedToken(tok))),
                };
                if !((c as u32) < 128) {
                    return Err(Fail::Error(ParserErrorKind::UnexpectedToken(TokenKind::Op(c))));
                }
                match self.consume_token() {
                    Ok(_) => Ok((op_fn_name_exec(true, c), 1)),
                    Err(f) => Err(f),
                }
            },
            Ok(tok) => Err(Fail::Error(ParserErrorKind::UnexpectedToken(tok))),
        }
    }

    fn parse_proto_args(&mut self, acc: Vec<Arg>) -> (r: Result<Vec<Arg>, Fail>)
        requires
            old(self).wf(),
        ensures
            final(self).wf(),
            final(self).same_input(old(self)),
            (match r {
                Ok(v) => Ok(args_view(v@)),
                Err(f) => Err(fail_view(f)),
            }, final(self).state()) == proto_args_loop_s(old(self).toks(), old(self).state(), args_view(acc@)),
            fwd(old(self).toks(), old(self).state(), final(self).state()),
        decreases old(self).token_stream@.len() - old(self).pos,
    {
        let mut acc = acc;
        match self.peek_token() {
            Err(f) => Err(f),
            Ok(TokenKind::Identifier(name)) => {
                match self.consume_token() {
                    Err(f) => return Err(f),
                    Ok(_) => {},
                }
                match self.expect_op(':') {
                    Err(f) => return Err(f),
                    Ok(_) => {},
                }
                let typ = match self.parse_type() {
                    Err(f) => return Err(f),
                    Ok(t) => t,
                };
                let a = Arg::new(name, typ);
                let ghost old_acc = acc@;
                acc.push(a);
                assert(args_view(acc@) =~= args_view(old_acc).push(a@));
                self.parse_proto_args(acc)
            },
            Ok(TokenKind::Op(c)) => if c == ')' {
                Ok(acc)
            } else {
                Err(Fail::Error(ParserErrorKind::UnexpectedToken(TokenKind::Op(c))))
            },
            Ok(tok) => Err(Fail::Error(ParserErrorKind::UnexpectedToken(tok))),
        }
    }

    fn parse_prototype(&mut self) -> (r: Result<Prototype, Fail>)
        requires
            old(self).wf(),
        ensures
            final(self).wf(),
            final(self).same_input(old(self)),
            (match r {
                Ok(p) => Ok(p@),
                Err(f) => Err(fail_view(f)),
            }, final(self).state()) == parse_prototype_s(old(self).toks(), old(self).state()),
            fwd(old(self).toks(), old(self).state(), final(self).state()),
    {
        let (id, kind) = match self.parse_proto_name() {
            Err(f) => return Err(f),
            Ok(x) => x,
        };
        match self.expect_op('(') {
            Err(f) => return Err(f),
            Ok(_) => {},
        }
        let empty: Vec<Arg> = Vec::new();
        assert(args_view(empty@) =~= Seq::<ArgM>::empty());
        let args = match self.parse_proto_args(empty) {
            Err(f) => return Err(f),
            Ok(a) => a,
        };
        match self.consume_token() {
            Err(f) => return Err(f),
            Ok(_) => {},
        }
        if kind > 0 && args.len() != kind {
            return Err(Fail::Error(ParserErrorKind::InvalidSignatuere));
        }
        let next = match self.opt_peek_token() {
            Err(f) => return Err(f),
            Ok(n) => n,
        };
        let is_arrow = match next {
            Some(TokenKind::Op(c)) => c == '-',
            _ => false,
        };
        if is_arrow {
            match self.consume_token() {
                Err(f) => return Err(f),
                Ok(_) => {},
            }
            match self.expect_op('>') {
                Err(f) => return Err(f),
                Ok(_) => {},
            }
            match self.parse_type() {
                Ok(ty) => Ok(Prototype::new(id, args, Some(ty))),
                Err(f) => Err(f),
            }
        } else {
            let is_colon = match next {
                Some(TokenKind::Op(c)) => c == ':',
                _ => false,
            };
            if is_colon {
                match self.consume_token() {
                    Err(f) => return Err(f),
                    Ok(_) => {},
                }
                match self.parse_type() {
                    Ok(ty) => Ok(Prototype::new(id, args, Some(ty))),
                    Err(f) => Err(f),
                }
            } else {
                Ok(Prototype::new(id, args, Some(Box::new(TypeKind::Unit))))
            }
        }
    }

    fn parse_extern(&mut self) -> (r: Result<DeclKind, Fail>)
        requires
            old(self).wf(),
        ensures
            final(self).wf(),
            final(self).same_input(old(self)),
            (match r {
                Ok(d) => Ok(d@),
                Err(f) => Err(fail_view(f)),
            }, final(self).state()) == parse_extern_s(old(self).toks(), old(self).state()),
            fwd(old(self).toks(), old(self).state(), final(self).state()),
            r is Ok ==> fwd_strict(old(self).toks(), old(self).state(), final(self).state()),
    {
        match self.consume_token() {
            Err(f) => return Err(f),
            Ok(_) => {},
        }
        match self.parse_prototype() {
            Ok(p) => Ok(DeclKind::Extern(p)),
            Err(f) => Err(f),
        }
    }

    fn parse_def(&mut self) -> (r: Result<DeclKind, Fail>)
        requires
            old(self).wf(),
        ensures
            final(self).wf(),
            final(self).same_input(old(self)),
            (match r {
                Ok(d) => Ok(d@),
                Err(f) => Err(fail_view(f)),
            }, final(self).state()) == parse_def_s(old(self).toks(), old(self).state()),
            fwd(old(self).toks(), old(self).state(), final(self).state()),
            r is Ok ==> fwd_strict(old(self).toks(), old(self).state(), final(self).state()),
    {
        match self.consume_token() {
            Err(f) => return Err(f),
            Ok(_) => {},
        }
        let proto = match self.parse_prototype() {
            Err(f) => return Err(f),
            Ok(p) => p,
        };
        match self.parse_expr() {
            Ok(body) => Ok(DeclKind::Function(proto, body)),
            Err(f) => Err(f),
        }
    }

    fn parse_top_level_expr(&mut self) -> (r: Result<DeclKind, Fail>)
        requires
            old(self).wf(),
        ensures
            final(self).wf(),
            final(self).same_input(old(self)),
            (match r {
                Ok(d) => Ok(d@),
                Err(f) => Err(fail_view(f)),
            }, final(self).state()) == parse_top_level_s(old(self).toks(), old(self).state()),
            fwd(old(self).toks(), old(self).state(), final(self).state()),
            r is Ok ==> fwd_strict(old(self).toks(), old(self).state(), final(self).state()),
    {
        let e = match self.parse_expr() {
            Err(f) => return Err(f),
            Ok(e) => e,
        };
        let empty: Vec<Arg> = Vec::new();
        assert(args_view(empty@) =~= Seq::<ArgM>::empty());
        let proto = Prototype::new(anon_name_exec(), empty, None);
        Ok(DeclKind::Function(proto, e))
    }

    /// Parses the declaration that starts with `tok`; on an error, records it
    /// and skips one token. `false` where the parser would stop the process.
    fn error_recovery(&mut self, program: &mut Vec<DeclKind>, tok: &TokenKind) -> (ok: bool)
        requires
            old(self).wf(),
            old(self).pos < old(self).token_stream.len(),
        ensures
            final(self).wf(),
            final(self).token_stream == old(self).token_stream,
            ({
                let (r, st1) = parse_decl_s(old(self).toks(), old(self).state(), tok@);
                match r {
                    Err(FailM::Abort) => !ok,
                    Ok(d) => ok && decls_view(final(program)@) == decls_view(old(program)@).push(d)
                        && final(self).errors() == old(self).errors() && final(self).state() == st1,
                    Err(FailM::Error(e)) => ok && decls_view(final(program)@) == decls_view(old(program)@)
                        && final(self).errors() == old(self).errors().push(e)
                        && final(self).state() == recover_s(old(self).toks(), st1),
                }
            }),
            fwd(old(self).toks(), old(self).state(), final(self).state()),
            ok ==> fwd_strict(old(self).toks(), old(self).state(), final(self).state()),
    {
        proof {
            reveal(parse_decl_s);
        }
        let is_def = match tok {
            TokenKind::Keyword(k) => *k == Keyword::Def,
            _ => false,
        };
        let is_extern = match tok {
            TokenKind::Keyword(k) => *k == Keyword::Extern,
            _ => false,
        };
        let r = if is_def {
            self.parse_def()
        } else if is_extern {
            self.parse_extern()
        } else {
            self.parse_top_level_expr()
        };
        match r {
            Ok(decl) => {
                let ghost old_p = program@;
                program.push(decl);
                assert(decls_view(program@) =~= decls_view(old_p).push(program@.last()@));
                true
            },
            Err(Fail::Error(err)) => {
                let ghost old_e = self.errors@;
                self.errors.push(err);
                assert(self.errors() =~= errs_view(old_e).push(self.errors@.last()@));
                let _ = self.consume_token();
                true
            },
            Err(Fail::Abort) => false,
        }
    }

    fn run_program(&mut self) -> (r: Option<Program>)
        requires
            old(self).wf(),
        ensures
            final(self).wf(),
            final(self).token_stream == old(self).token_stream,
            match program_loop_s(old(self).toks(), old(self).state(), Seq::empty(), old(self).errors()) {
                None => r is None,
                Some((decls, errs, st)) => r matches Some(p) && decls_view(p@) == decls
                    && final(self).errors() == errs && final(self).state() == st,
            },
    {
        let ghost t = self.toks();
        let ghost st0 = self.state();
        let ghost errs0 = self.errors();
        let mut program: Vec<DeclKind> = Vec::new();
        assert(decls_view(program@) =~= Seq::<DeclM>::empty());
        loop
            invariant
                self.wf(),
                self.toks() == t,
                t == old(self).toks(),
                st0 == old(self).state(),
                errs0 == old(self).errors(),
                self.token_stream == old(self).token_stream,
                program_loop_s(t, self.state(), decls_view(program@), self.errors())
                    == program_loop_s(t, st0, Seq::empty(), errs0),
            decreases self.token_stream@.len() - self.pos,
        {
            let ghost st = self.state();
            let token = match self.opt_peek_token() {
                Ok(Some(tok)) => tok,
                Ok(None) => {
                    return Some(program);
                },
                Err(f) => {
                    let ghost d0 = decls_view(program@);
                    let ghost e0 = self.errors();
                    let _ = self.consume_token();
                    match f {
                        Fail::Error(e) => {
                            let ghost old_e = self.errors@;
                            self.errors.push(e);
                            assert(self.errors() =~= errs_view(old_e).push(self.errors@.last()@));
                            assert(program_loop_s(t, st, d0, e0) == program_loop_s(
                                t,
                                self.state(),
                                decls_view(program@),
                                self.errors(),
                            ));
                        },
                        Fail::Abort => {
                            return None;
                        },
                    }
                    continue;
                },
            };
            let is_semi = match token {
                TokenKind::Op(c) => c == ';',
                _ => false,
            };
            if is_semi {
                let _ = self.consume_token();
                continue;
            }
            let ghost d0 = decls_view(program@);
            let ghost e0 = self.errors();
            if !self.error_recovery(&mut program, &token) {
                return None;
            }
            assert(program_loop_s(t, st, d0, e0) == program_loop_s(
                t,
                self.state(),
                decls_view(program@),
                self.errors(),
            ));
        }
    }

    /// Parses the whole token stream: the declarations where no error was
    /// met (counting those of earlier calls), else all the errors met.
    /// The parser skips one token after each error and goes on.
    /// `None` stands for the inputs on which the parser stops the process: a
    /// number that does not fit its use (an integer literal out of the range
    /// of `i64`, a double literal that is no decimal number, a field index
    /// that is not an integer, a precedence that is not an integer).
    pub fn parse_program_checked(&mut self) -> (r: Option<Result<Program, Vec<ParserErrorKind>>>)
        requires
            old(self).wf(),
        ensures
            final(self).wf(),
            final(self).toks() == old(self).toks(),
            match parse_program_s(old(self).toks(), old(self).state(), old(self).errors()) {
                None => r is None,
                Some((res, errs, st)) => {
                    &&& final(self).errors() == errs
                    &&& final(self).state() == st
                    &&& r matches Some(out)
                    &&& match (out, res) {
                        (Ok(p), Ok(decls)) => decls_view(p@) == decls,
                        (Err(es), Err(errs2)) => errs_view(es@) == errs2,
                        _ => false,
                    }
                },
            },
    {
        match self.run_program() {
            None => None,
            Some(program) => {
                if self.errors.len() == 0 {
                    Some(Ok(program))
                } else {
                    let mut es: Vec<ParserErrorKind> = Vec::new();
                    let mut i: usize = 0;
                    while i < self.errors.len()
                        invariant
                            0 <= i <= self.errors.len(),
                            es.len() == i,
                            forall|j: int| 0 <= j < i ==> es@[j]@ == self.errors@[j]@,
                        decreases self.errors.len() - i,
                    {
                        es.push(self.errors[i].copy());
                        i = i + 1;
                    }
                    assert(errs_view(es@) =~= self.errors());
                    Some(Err(es))
                }
            },
        }
    }

    /// Parses the whole token stream, as `parse_program_checked` does, on an
    /// input where the parser does not stop.
    pub fn parse_program(&mut self) -> (r: Result<Program, Vec<ParserErrorKind>>)
        requires
            old(self).wf(),
            parse_program_s(old(self).toks(), old(self).state(), old(self).errors()) is Some,
        ensures
            final(self).wf(),
            final(self).toks() == old(self).toks(),
            match parse_program_s(old(self).toks(), old(self).state(), old(self).errors()) {
                None => false,
                Some((res, errs, st)) => final(self).errors() == errs && final(self).state() == st
                    && match (r, res) {
                    (Ok(p), Ok(decls)) => decls_view(p@) == decls,
                    (Err(es), Err(errs2)) => errs_view(es@) == errs2,
                    _ => false,
                },
            },
    {
        match self.parse_program_checked() {
            Some(r) => r,
            None => Err(Vec::new()),
        }
    }
}

pub(crate) fn op_fn_name_exec(unary: bool, c: char) -> (r: String)
    ensures
        r@ == op_fn_name(unary, c),
{
    let mut s = String::new();
    if unary {
        crate::util::string_push(&mut s, 'u');
        crate::util::string_push(&mut s, 'n');
        crate::util::string_push(&mut s, 'a');
        crate::util::string_push(&mut s, 'r');
        crate::util::string_push(&mut s, 'y');
    } else {
        crate::util::string_push(&mut s, 'b');
        crate::util::string_push(&mut s, 'i');
        crate::util::string_push(&mut s, 'n');
        crate::util::string_push(&mut s, 'a');
        crate::util::string_push(&mut s, 'r');
        crate::util::string_push(&mut s, 'y');
    }
    crate::util::string_push(&mut s, c);
    assert(s@ =~= op_fn_name(unary, c));
    s
}

pub(crate) fn anon_name_exec() -> (r: String)
    ensures
        r@ == anon_name(),
{
    let mut s = String::new();
    crate::util::string_push(&mut s, '_');
    crate::util::string_push(&mut s, '_');
    crate::util::string_push(&mut s, 'a');
    crate::util::string_push(&mut s, 'n');
    crate::util::string_push(&mut s, 'o');
    crate::util::string_push(&mut s, 'n');
    crate::util::string_push(&mut s, '_');
    crate::util::string_push(&mut s, 'e');
    crate::util::string_push(&mut s, 'x');
    crate::util::string_push(&mut s, 'p');
    crate::util::string_push(&mut s, 'r');
    assert(s@ =~= anon_name());
    s
}

} // verus!
