//! The typing rules of the language, as the type checker applies them. Each
//! function takes an expression (or declaration) and the symbol table, and
//! gives the type, the expression with the types that the checker records in
//! it, and the table after it. Checking stops at the first error and leaves
//! the table and the expression as they are at that point.
use vstd::prelude::*;
use crate::parser::decl::{ArgM, DeclM, ProtoM};
use crate::parser::expr::{ConsKind, ExprM, VarInfoM};
use crate::parser::grammar::{anon_name, op_fn_name};
use crate::parser::literals::LiteralM;
use crate::parser::op::{BinaryOp, UnaryOp};
use crate::parser::types::TypeM;
use crate::semantics::symbols::{
    SymM, bind_at, get_in, lemma_lookup_after_bind, lemma_lookup_bind_other, lemma_lookup_index, lookup, pop_scope,
    push_scope,
};

verus! {

/// Model of a semantic error.
pub enum SemErrM {
    TypeMismatch { expected: TypeM, found: TypeM },
    UndefinedVariable { name: Seq<char> },
    UninitializedVariable { name: Seq<char> },
    InvalidArgumentSize { expected: int, found: int },
    UnknownFunction { name: Seq<char> },
    UnknownOperator { name: char },
    UnknownType { name: TypeM },
    InvalidField { idx: i64, on: TypeM },
    Immutable { val: ExprM },
    UniqueTypes,
}

/// How checking fails: with a semantic error, or on an input where the
/// checker stops the process.
pub enum TFail {
    Sem(SemErrM),
    Abort,
}

pub open spec fn mismatch(expected: TypeM, found: TypeM) -> TFail {
    TFail::Sem(SemErrM::TypeMismatch { expected, found })
}

/// Binds a name in the innermost scope; `None` where there is no scope.
pub open spec fn bind_top(st: SymM, name: Seq<char>, t: Option<TypeM>) -> Option<SymM> {
    if st.scopes.len() == 0 {
        None
    } else {
        Some(bind_at(st, st.scopes.len() - 1, name, t))
    }
}

/// The empty list, whose element type is still open.
pub open spec fn is_open_list(t: TypeM) -> bool {
    t == TypeM::List(None)
}

/// A tuple type of one element, which no type annotation may name.
pub open spec fn is_single_tuple(t: TypeM) -> bool {
    match t {
        TypeM::Tuple(ts) => ts.len() == 1,
        _ => false,
    }
}

/// The result of checking one expression: its type, the expression with the
/// recorded types, and the table after it.
pub type TcRes = (Result<TypeM, TFail>, ExprM, SymM);

/// The type of an expression.
pub open spec fn tc_expr(e: ExprM, st: SymM) -> TcRes
    decreases e, 2int,
{
    match e {
        ExprM::Identifier(name, slot) => match lookup(st.scopes, name).0 {
            Some(Some(t)) => (Ok(t), ExprM::Identifier(name, Some(t)), st),
            Some(None) => (Err(TFail::Sem(SemErrM::UninitializedVariable { name })), e, st),
            None => (Err(TFail::Sem(SemErrM::UndefinedVariable { name })), e, st),
        },
        ExprM::Var(vars, body) => {
            let (r1, vars1, st1) = tc_vars(vars, 0, push_scope(st), Seq::empty());
            match r1 {
                Err(f) => (Err(f), ExprM::Var(vars1, body), st1),
                Ok(_) => {
                    let (r2, body1, st2) = tc_expr(*body, st1);
                    match r2 {
                        Err(TFail::Abort) => (Err(TFail::Abort), ExprM::Var(vars1, Box::new(body1)), st2),
                        _ => (
                            r2,
                            ExprM::Var(fill_vars(vars1, st2), Box::new(body1)),
                            pop_scope(st2),
                        ),
                    }
                },
            }
        },
        ExprM::Literal(l) => (
            Ok(
                match l {
                    LiteralM::F64(_) => TypeM::F64,
                    LiteralM::I64(_) => TypeM::I64,
                    LiteralM::Unit => TypeM::Unit,
                },
            ),
            e,
            st,
        ),
        ExprM::Binary(op, l, r) => match op {
            BinaryOp::Assign => tc_assign(e, st),
            BinaryOp::UserDefined(c) => match get_in(st.protos, op_fn_name(false, c)) {
                None => (Err(TFail::Sem(SemErrM::UnknownOperator { name: c })), e, st),
                Some(p) => {
                    let (r1, l1, st1) = tc_expr(*l, st);
                    match r1 {
                        Err(f) => (Err(f), ExprM::Binary(op, Box::new(l1), r), st1),
                        Ok(lt) => {
                            let (r2, r1e, st2) = tc_expr(*r, st1);
                            let e2 = ExprM::Binary(op, Box::new(l1), Box::new(r1e));
                            match r2 {
                                Err(f) => (Err(f), e2, st2),
                                Ok(rt) => if p.args.len() < 1 {
                                    (Err(TFail::Abort), e2, st2)
                                } else if lt != p.args[0].typ {
                                    (Err(mismatch(p.args[0].typ, lt)), e2, st2)
                                } else if p.args.len() < 2 {
                                    (Err(TFail::Abort), e2, st2)
                                } else if rt != p.args[1].typ {
                                    (Err(mismatch(p.args[1].typ, rt)), e2, st2)
                                } else {
                                    match p.ret_type {
                                        Some(t) => (Ok(t), e2, st2),
                                        None => (Err(TFail::Abort), e2, st2),
                                    }
                                },
                            }
                        },
                    }
                },
            },
            _ => {
                let (r1, l1, st1) = tc_expr(*l, st);
                match r1 {
                    Err(f) => (Err(f), ExprM::Binary(op, Box::new(l1), r), st1),
                    Ok(lt) => {
                        let (r2, r1e, st2) = tc_expr(*r, st1);
                        let e2 = ExprM::Binary(op, Box::new(l1), Box::new(r1e));
                        match r2 {
                            Err(f) => (Err(f), e2, st2),
                            Ok(rt) => if lt != rt {
                                (Err(mismatch(lt, rt)), e2, st2)
                            } else if op == BinaryOp::Lt {
                                (Ok(TypeM::I64), e2, st2)
                            } else {
                                (Ok(lt), e2, st2)
                            },
                        }
                    },
                }
            },
        },
        ExprM::Unary(op, x) => {
            let c = match op {
                UnaryOp::UserDefined(c) => c,
            };
            match get_in(st.protos, op_fn_name(true, c)) {
                None => (Err(TFail::Sem(SemErrM::UnknownOperator { name: c })), e, st),
                Some(p) => {
                    let (r1, x1, st1) = tc_expr(*x, st);
                    let e1 = ExprM::Unary(op, Box::new(x1));
                    match r1 {
                        Err(f) => (Err(f), e1, st1),
                        Ok(pt) => if p.args.len() < 1 {
                            (Err(TFail::Abort), e1, st1)
                        } else if pt != p.args[0].typ {
                            (Err(mismatch(p.args[0].typ, pt)), e1, st1)
                        } else {
                            match p.ret_type {
                                Some(t) => (Ok(t), e1, st1),
                                None => (Err(TFail::Abort), e1, st1),
                            }
                        },
                    }
                },
            }
        },
        ExprM::IfThenElse(c, a, b) => {
            let (r1, c1, st1) = tc_expr(*c, st);
            match r1 {
                Err(f) => (Err(f), ExprM::IfThenElse(Box::new(c1), a, b), st1),
                Ok(ct) => {
                    let (r2, a1, st2) = tc_expr(*a, push_scope(st1));
                    match r2 {
                        Err(f) => (Err(f), ExprM::IfThenElse(Box::new(c1), Box::new(a1), b), st2),
                        Ok(at) => {
                            let (r3, b1, st3) = tc_expr(*b, push_scope(pop_scope(st2)));
                            let e3 = ExprM::IfThenElse(Box::new(c1), Box::new(a1), Box::new(b1));
                            match r3 {
                                Err(f) => (Err(f), e3, st3),
                                Ok(bt) => {
                                    let st4 = pop_scope(st3);
                                    if ct != TypeM::I64 && ct != TypeM::F64 {
                                        (Err(mismatch(TypeM::I64, ct)), e3, st4)
                                    } else if at != bt {
                                        (Err(mismatch(at, bt)), e3, st4)
                                    } else {
                                        (Ok(at), e3, st4)
                                    }
                                },
                            }
                        },
                    }
                },
            }
        },
        ExprM::Call(name, params, slot) => match get_in(st.protos, name) {
            None => (Err(TFail::Sem(SemErrM::UnknownFunction { name })), e, st),
            Some(p) => if p.args.len() != params.len() {
                (
                    Err(
                        TFail::Sem(
                            SemErrM::InvalidArgumentSize { expected: p.args.len() as int, found: params.len() as int },
                        ),
                    ),
                    e,
                    st,
                )
            } else {
                let (r1, params1, st1) = tc_args(params, 0, st, Seq::empty(), p.args);
                match r1 {
                    Err(f) => (Err(f), ExprM::Call(name, params1, slot), st1),
                    Ok(_) => match p.ret_type {
                        Some(t) => (Ok(t), ExprM::Call(name, params1, Some(t)), st1),
                        None => (Err(TFail::Abort), ExprM::Call(name, params1, slot), st1),
                    },
                }
            },
        },
        ExprM::ForLoop(id, start, end, step, body) => {
            let (r1, start1, st1) = tc_expr(*start, push_scope(st));
            match r1 {
                Err(f) => (Err(f), ExprM::ForLoop(id, Box::new(start1), end, step, body), st1),
                Ok(stt) => {
                    match bind_top(st1, id, Some(stt)) {
                    None => (Err(TFail::Abort), ExprM::ForLoop(id, Box::new(start1), end, step, body), st1),
                    Some(st2) => {
                    let (r2, end1, st3) = tc_expr(*end, st2);
                    match r2 {
                        Err(f) => (Err(f), ExprM::ForLoop(id, Box::new(start1), Box::new(end1), step, body), st3),
                        Ok(et) => if et != TypeM::I64 {
                            (
                                Err(mismatch(TypeM::I64, et)),
                                ExprM::ForLoop(id, Box::new(start1), Box::new(end1), step, body),
                                st3,
                            )
                        } else {
                            let (r3, step1, st4) = match step {
                                None => (Ok(()), None, st3),
                                Some(sx) => {
                                    let (rs, sx1, sts) = tc_expr(*sx, st3);
                                    match rs {
                                        Err(f) => (Err(f), Some(Box::new(sx1)), sts),
                                        Ok(spt) => if spt != stt {
                                            (Err(mismatch(stt, spt)), Some(Box::new(sx1)), sts)
                                        } else {
                                            (Ok(()), Some(Box::new(sx1)), sts)
                                        },
                                    }
                                },
                            };
                            match r3 {
                                Err(f) => (
                                    Err(f),
                                    ExprM::ForLoop(id, Box::new(start1), Box::new(end1), step1, body),
                                    st4,
                                ),
                                Ok(_) => {
                                    let (r4, body1, st5) = tc_expr(*body, st4);
                                    let e4 = ExprM::ForLoop(
                                        id,
                                        Box::new(start1),
                                        Box::new(end1),
                                        step1,
                                        Box::new(body1),
                                    );
                                    match r4 {
                                        Err(f) => (Err(f), e4, st5),
                                        Ok(_) => (Ok(TypeM::Unit), e4, pop_scope(st5)),
                                    }
                                },
                            }
                        },
                    }
                    },
                    }
                },
            }
        },
        ExprM::Sequence(es) => {
            let (r1, es1, st1) = tc_seq(es, 0, st, Seq::empty());
            (r1, ExprM::Sequence(es1), st1)
        },
        ExprM::Cons(es, ConsKind::Tuple) => {
            let (r1, es1, st1) = tc_tuple(es, 0, st, Seq::empty(), Seq::empty());
            (r1, ExprM::Cons(es1, ConsKind::Tuple), st1)
        },
        ExprM::Cons(es, ConsKind::List) => {
            let (r1, es1, st1) = tc_list(es, 0, st, Seq::empty(), None);
            (r1, ExprM::Cons(es1, ConsKind::List), st1)
        },
        ExprM::Projection(v, idx, slot) => {
            let (r1, v1, st1) = tc_expr(*v, st);
            match r1 {
                Err(f) => (Err(f), ExprM::Projection(Box::new(v1), idx, slot), st1),
                Ok(vt) => match vt {
                    TypeM::Tuple(ts) => {
                        let (r2, idx1, st2) = tc_expr(*idx, st1);
                        match r2 {
                            Err(f) => (Err(f), ExprM::Projection(Box::new(v1), Box::new(idx1), slot), st2),
                            Ok(it) => match idx1 {
                                ExprM::Literal(LiteralM::I64(n)) => if n < 0 || n >= ts.len() {
                                    (
                                        Err(TFail::Sem(SemErrM::InvalidField { idx: n, on: TypeM::Tuple(ts) })),
                                        ExprM::Projection(Box::new(v1), Box::new(idx1), slot),
                                        st2,
                                    )
                                } else {
                                    (
                                        Ok(ts[n as int]),
                                        ExprM::Projection(Box::new(v1), Box::new(idx1), Some(ts[n as int])),
                                        st2,
                                    )
                                },
                                _ => (
                                    Err(mismatch(TypeM::I64, it)),
                                    ExprM::Projection(Box::new(v1), Box::new(idx1), slot),
                                    st2,
                                ),
                            },
                        }
                    },
                    _ => (
                        Err(mismatch(TypeM::Tuple(Seq::empty()), vt)),
                        ExprM::Projection(Box::new(v1), idx, slot),
                        st1,
                    ),
                },
            }
        },
    }
}

/// An assignment `l = r`: to a variable, whose type it sets where the
/// variable has none yet, or to a field of a tuple.
pub open spec fn tc_assign(e: ExprM, st: SymM) -> TcRes
    decreases e, 1int,
{
    let (l, r) = match e {
        ExprM::Binary(_, l, r) => (*l, *r),
        _ => (e, e),
    };
    if !(e is Binary) {
        (Err(TFail::Abort), e, st)
    } else {
    let (rl, l1, st1) = tc_expr(l, st);
    match rl {
        Err(TFail::Abort) => (Err(TFail::Abort), ExprM::Binary(BinaryOp::Assign, Box::new(l1), Box::new(r)), st1),
        _ => {
            let (rr, r1, st2) = tc_expr(r, st1);
            let e2 = ExprM::Binary(BinaryOp::Assign, Box::new(l1), Box::new(r1));
            match rr {
                Err(f) => (Err(f), e2, st2),
                Ok(rt) => match l1 {
                    ExprM::Identifier(name, _) => {
                        let (found, scope) = lookup(st2.scopes, name);
                        match found {
                            Some(Some(t)) => if !is_open_list(rt) && rt != t {
                                (Err(mismatch(t, rt)), e2, st2)
                            } else {
                                (Ok(TypeM::Unit), e2, st2)
                            },
                            Some(None) => if !is_open_list(rt) {
                                (
                                    Ok(TypeM::Unit),
                                    e2,
                                    bind_at(st2, st2.scopes.len() - 1 - scope, name, Some(rt)),
                                )
                            } else {
                                (Err(TFail::Sem(SemErrM::UndefinedVariable { name })), e2, st2)
                            },
                            None => (Err(TFail::Sem(SemErrM::UndefinedVariable { name })), e2, st2),
                        }
                    },
                    ExprM::Projection(id, _, _) => match rl {
                        Err(f) => (Err(f), e2, st2),
                        Ok(lt) => if lt != rt {
                            (Err(mismatch(lt, rt)), e2, st2)
                        } else {
                            match *id {
                                ExprM::Identifier(_, _) => (Ok(TypeM::Unit), e2, st2),
                                ExprM::Projection(_, _, _) => (Ok(TypeM::Unit), e2, st2),
                                _ => (Err(TFail::Sem(SemErrM::Immutable { val: l1 })), e2, st2),
                            }
                        },
                    },
                    _ => (Err(TFail::Abort), e2, st2),
                },
            }
        },
    }
    }
}

/// One binding of a `var`: one with a value takes its type (which must agree
/// with a declared one); one without is bound with no type yet.
pub open spec fn tc_var(v: VarInfoM, st: SymM) -> (Result<(), TFail>, VarInfoM, SymM)
    decreases v, 1int,
{
    match v.val {
        Some(x) => {
            let (r, x1, st1) = tc_expr(*x, st);
            let v1 = VarInfoM { name: v.name, t: v.t, val: Some(Box::new(x1)) };
            match r {
                Err(f) => (Err(f), v1, st1),
                Ok(bt) => if v.t is Some && v.t != Some(bt) {
                    (Err(mismatch(v.t.unwrap(), bt)), v1, st1)
                } else {
                    match bind_top(st1, v.name, Some(bt)) {
                        None => (Err(TFail::Abort), v1, st1),
                        Some(st2) => (Ok(()), VarInfoM { name: v.name, t: Some(bt), val: Some(Box::new(x1)) }, st2),
                    }
                },
            }
        },
        None => match bind_top(st, v.name, None) {
            None => (Err(TFail::Abort), v, st),
            Some(st1) => (Ok(()), v, st1),
        },
    }
}

/// The bindings of a `var`, from the `i`-th, in order.
pub open spec fn tc_vars(vars: Seq<VarInfoM>, i: int, st: SymM, done: Seq<VarInfoM>) -> (
    Result<(), TFail>,
    Seq<VarInfoM>,
    SymM,
)
    decreases vars, vars.len() - i,
{
    if i < 0 || i >= vars.len() {
        (Ok(()), done, st)
    } else {
        let (r, v1, st1) = tc_var(vars[i], st);
        match r {
            Err(f) => (Err(f), done.push(v1) + vars.skip(i + 1), st1),
            Ok(_) => tc_vars(vars, i + 1, st1, done.push(v1)),
        }
    }
}

/// After the body of a `var`: each binding that had no type takes the one
/// that an assignment gave it.
pub open spec fn fill_vars(vars: Seq<VarInfoM>, st: SymM) -> Seq<VarInfoM> {
    vars.map_values(
        |v: VarInfoM|
            match (v.t, lookup(st.scopes, v.name).0) {
                (None, Some(Some(t))) => VarInfoM { name: v.name, t: Some(t), val: v.val },
                _ => v,
            },
    )
}

/// The expressions of a sequence, from the `i`-th: all but the last must
/// have the unit type; the last gives the type of the sequence.
pub open spec fn tc_seq(es: Seq<ExprM>, i: int, st: SymM, done: Seq<ExprM>) -> (
    Result<TypeM, TFail>,
    Seq<ExprM>,
    SymM,
)
    decreases es, es.len() - i,
{
    if i < 0 || i >= es.len() {
        (Ok(TypeM::Unit), done, st)
    } else {
        let (r, e1, st1) = tc_expr(es[i], st);
        let done1 = done.push(e1);
        match r {
            Err(f) => (Err(f), done1 + es.skip(i + 1), st1),
            Ok(t) => if i != es.len() - 1 {
                if t != TypeM::Unit {
                    (Err(mismatch(TypeM::Unit, t)), done1 + es.skip(i + 1), st1)
                } else {
                    tc_seq(es, i + 1, st1, done1)
                }
            } else {
                (Ok(t), done1, st1)
            },
        }
    }
}

/// The elements of a tuple, from the `i`-th.
pub open spec fn tc_tuple(es: Seq<ExprM>, i: int, st: SymM, done: Seq<ExprM>, types: Seq<TypeM>) -> (
    Result<TypeM, TFail>,
    Seq<ExprM>,
    SymM,
)
    decreases es, es.len() - i,
{
    if i < 0 || i >= es.len() {
        (Ok(TypeM::Tuple(types)), done, st)
    } else {
        let (r, e1, st1) = tc_expr(es[i], st);
        let done1 = done.push(e1);
        match r {
            Err(f) => (Err(f), done1 + es.skip(i + 1), st1),
            Ok(t) => tc_tuple(es, i + 1, st1, done1, types.push(t)),
        }
    }
}

/// The elements of a list, from the `i`-th: all must have one type.
pub open spec fn tc_list(es: Seq<ExprM>, i: int, st: SymM, done: Seq<ExprM>, typ: Option<TypeM>) -> (
    Result<TypeM, TFail>,
    Seq<ExprM>,
    SymM,
)
    decreases es, es.len() - i,
{
    if i < 0 || i >= es.len() {
        (
            Ok(
                TypeM::List(
                    match typ {
                        Some(t) => Some(Box::new(t)),
                        None => None,
                    },
                ),
            ),
            done,
            st,
        )
    } else {
        let (r, e1, st1) = tc_expr(es[i], st);
        let done1 = done.push(e1);
        match r {
            Err(f) => (Err(f), done1 + es.skip(i + 1), st1),
            Ok(t) => if typ is Some && typ != Some(t) {
                (Err(TFail::Sem(SemErrM::UniqueTypes)), done1 + es.skip(i + 1), st1)
            } else {
                tc_list(es, i + 1, st1, done1, Some(t))
            },
        }
    }
}

/// The arguments of a call, from the `i`-th: each must have the type of
/// its parameter.
pub open spec fn tc_args(es: Seq<ExprM>, i: int, st: SymM, done: Seq<ExprM>, params: Seq<ArgM>) -> (
    Result<(), TFail>,
    Seq<ExprM>,
    SymM,
)
    decreases es, es.len() - i,
{
    if i < 0 || i >= es.len() {
        (Ok(()), done, st)
    } else {
        let (r, e1, st1) = tc_expr(es[i], st);
        let done1 = done.push(e1);
        match r {
            Err(f) => (Err(f), done1 + es.skip(i + 1), st1),
            Ok(t) => if i >= params.len() {
                (Err(TFail::Abort), done1 + es.skip(i + 1), st1)
            } else if t != params[i].typ {
                (Err(mismatch(params[i].typ, t)), done1 + es.skip(i + 1), st1)
            } else {
                tc_args(es, i + 1, st1, done1, params)
            },
        }
    }
}

/// The parameters of a prototype, from the `i`-th: each is bound to its
/// type in the innermost scope; a tuple type of one element is refused.
pub open spec fn tc_proto_args(args: Seq<ArgM>, i: int, st: SymM) -> (Result<(), TFail>, SymM)
    decreases args.len() - i,
{
    if i < 0 || i >= args.len() {
        (Ok(()), st)
    } else if is_single_tuple(args[i].typ) {
        (Err(TFail::Sem(SemErrM::UnknownType { name: args[i].typ })), st)
    } else {
        match bind_top(st, args[i].name, Some(args[i].typ)) {
            None => (Err(TFail::Abort), st),
            Some(st1) => tc_proto_args(args, i + 1, st1),
        }
    }
}

/// The table with a function's name bound to its return type and its
/// prototype declared; `None` where there is no scope.
pub open spec fn declare_fn(st: SymM, p: ProtoM) -> Option<SymM> {
    match bind_top(st, p.name, p.ret_type) {
        None => None,
        Some(st1) => Some(SymM { scopes: st1.scopes, protos: st1.protos.insert(p.name, p) }),
    }
}

/// A declaration: an `extern` declares its prototype; a function declares
/// its own (but for a top-level expression), and its body must have its
/// return type, which it takes where it has none.
pub open spec fn tc_decl(d: DeclM, st: SymM) -> (Result<(), TFail>, DeclM, SymM) {
    match d {
        DeclM::Extern(p) => match declare_fn(st, p) {
            None => (Err(TFail::Abort), d, st),
            Some(st1) => {
                let (r, st2) = tc_proto_args(p.args, 0, push_scope(st1));
                match r {
                    Err(f) => (Err(f), d, st2),
                    Ok(_) => (Ok(()), d, pop_scope(st2)),
                }
            },
        },
        DeclM::Function(p, body) => {
            let st1 = if p.name != anon_name() {
                declare_fn(st, p)
            } else {
                Some(st)
            };
            match st1 {
                None => (Err(TFail::Abort), d, st),
                Some(st1) => {
                    let (r1, st2) = tc_proto_args(p.args, 0, push_scope(st1));
                    match r1 {
                        Err(f) => (Err(f), d, st2),
                        Ok(_) => {
                            let (r2, body1, st3) = tc_expr(body, st2);
                            match r2 {
                                Err(f) => (Err(f), DeclM::Function(p, body1), st3),
                                Ok(bt) => match p.ret_type {
                                    Some(rt) => if rt != bt {
                                        (Err(mismatch(rt, bt)), DeclM::Function(p, body1), st3)
                                    } else {
                                        (Ok(()), DeclM::Function(p, body1), pop_scope(st3))
                                    },
                                    None => (
                                        Ok(()),
                                        DeclM::Function(
                                            ProtoM { name: p.name, args: p.args, ret_type: Some(bt) },
                                            body1,
                                        ),
                                        pop_scope(st3),
                                    ),
                                },
                            }
                        },
                    }
                },
            }
        },
    }
}

/// The declarations of a program, from the `i`-th.
pub open spec fn tc_decls(ds: Seq<DeclM>, i: int, st: SymM, done: Seq<DeclM>) -> (
    Result<(), TFail>,
    Seq<DeclM>,
    SymM,
)
    decreases ds.len() - i,
{
    if i < 0 || i >= ds.len() {
        (Ok(()), done, st)
    } else {
        let (r, d1, st1) = tc_decl(ds[i], st);
        match r {
            Err(f) => (Err(f), done.push(d1) + ds.skip(i + 1), st1),
            Ok(_) => tc_decls(ds, i + 1, st1, done.push(d1)),
        }
    }
}

/// A program, in a scope of its own for its declarations.
pub open spec fn tc_program(ds: Seq<DeclM>, st: SymM) -> (Result<(), TFail>, Seq<DeclM>, SymM) {
    let (r, ds1, st1) = tc_decls(ds, 0, push_scope(st), Seq::empty());
    match r {
        Err(f) => (Err(f), ds1, st1),
        Ok(_) => (Ok(()), ds1, pop_scope(st1)),
    }
}

/// What checking keeps of the table: the declared prototypes always, and
/// the number of scopes where the check succeeds.
pub open spec fn keeps_frame(before: SymM, after: SymM, ok: bool) -> bool {
    &&& after.protos == before.protos
    &&& ok ==> after.scopes.len() == before.scopes.len()
}

/// Checking an expression declares no prototype, and a successful check
/// closes every scope it opens.
pub proof fn lemma_tc_expr_frame(e: ExprM, st: SymM)
    ensures
        keeps_frame(st, tc_expr(e, st).2, tc_expr(e, st).0 is Ok),
    decreases e, 2int,
{
    match e {
        ExprM::Identifier(..) => {},
        ExprM::Literal(_) => {},
        ExprM::Var(vars, body) => {
            let st0 = push_scope(st);
            lemma_tc_vars_frame(vars, 0, st0, Seq::empty());
            let (r1, vars1, st1) = tc_vars(vars, 0, st0, Seq::empty());
            if r1 is Ok {
                lemma_tc_expr_frame(*body, st1);
            }
        },
        ExprM::Binary(op, l, r) => match op {
            BinaryOp::Assign => lemma_tc_assign_frame(e, st),
            BinaryOp::UserDefined(c) => {
                if get_in(st.protos, op_fn_name(false, c)) is Some {
                    lemma_tc_expr_frame(*l, st);
                    let (r1, l1, st1) = tc_expr(*l, st);
                    if r1 is Ok {
                        lemma_tc_expr_frame(*r, st1);
                    }
                }
            },
            _ => {
                lemma_tc_expr_frame(*l, st);
                let (r1, l1, st1) = tc_expr(*l, st);
                if r1 is Ok {
                    lemma_tc_expr_frame(*r, st1);
                }
            },
        },
        ExprM::Unary(op, x) => {
            lemma_tc_expr_frame(*x, st);
        },
        ExprM::IfThenElse(c, a, b) => {
            lemma_tc_expr_frame(*c, st);
            let (r1, c1, st1) = tc_expr(*c, st);
            if r1 is Ok {
                lemma_tc_expr_frame(*a, push_scope(st1));
                let (r2, a1, st2) = tc_expr(*a, push_scope(st1));
                if r2 is Ok {
                    lemma_tc_expr_frame(*b, push_scope(pop_scope(st2)));
                }
            }
        },
        ExprM::Call(name, params, slot) => {
            if get_in(st.protos, name) is Some {
                let p = get_in(st.protos, name).unwrap();
                lemma_tc_args_frame(params, 0, st, Seq::empty(), p.args);
            }
        },
        ExprM::ForLoop(id, start, end, step, body) => {
            lemma_tc_expr_frame(*start, push_scope(st));
            let (r1, start1, st1) = tc_expr(*start, push_scope(st));
            if r1 is Ok && bind_top(st1, id, Some(r1->Ok_0)) is Some {
                let st2 = bind_top(st1, id, Some(r1->Ok_0)).unwrap();
                lemma_tc_expr_frame(*end, st2);
                let (r2, end1, st3) = tc_expr(*end, st2);
                if r2 is Ok {
                    match step {
                        None => {
                            lemma_tc_expr_frame(*body, st3);
                        },
                        Some(sx) => {
                            lemma_tc_expr_frame(*sx, st3);
                            let (rs, sx1, sts) = tc_expr(*sx, st3);
                            lemma_tc_expr_frame(*body, sts);
                        },
                    }
                }
            }
        },
        ExprM::Sequence(es) => {
            lemma_tc_seq_frame(es, 0, st, Seq::empty());
        },
        ExprM::Cons(es, ConsKind::Tuple) => {
            lemma_tc_tuple_frame(es, 0, st, Seq::empty(), Seq::empty());
        },
        ExprM::Cons(es, ConsKind::List) => {
            lemma_tc_list_frame(es, 0, st, Seq::empty(), None);
        },
        ExprM::Projection(v, idx, slot) => {
            lemma_tc_expr_frame(*v, st);
            let (r1, v1, st1) = tc_expr(*v, st);
            lemma_tc_expr_frame(*idx, st1);
        },
    }
}

/// The frame of an assignment.
pub proof fn lemma_tc_assign_frame(e: ExprM, st: SymM)
    ensures
        keeps_frame(st, tc_assign(e, st).2, tc_assign(e, st).0 is Ok),
    decreases e, 1int,
{
    match e {
        ExprM::Binary(_, l, r) => {
            lemma_tc_expr_frame(*l, st);
            let (rl, l1, st1) = tc_expr(*l, st);
            lemma_tc_expr_frame(*r, st1);
            let (rr, r1, st2) = tc_expr(*r, st1);
            if rr is Ok {
                match l1 {
                    ExprM::Identifier(name, _) => {
                        lemma_identifier_unchanged(*l, st);
                        lemma_lookup_index(st2.scopes, name);
                    },
                    _ => {},
                }
            }
        },
        _ => {},
    }
}

/// Checking an identifier leaves the table as it is.
proof fn lemma_identifier_unchanged(e: ExprM, st: SymM)
    ensures
        tc_expr(e, st).1 is Identifier ==> tc_expr(e, st).2 == st,
{
    reveal_with_fuel(tc_expr, 2);
}

/// The frame of one binding of a `var`.
pub proof fn lemma_tc_var_frame(v: VarInfoM, st: SymM)
    ensures
        keeps_frame(st, tc_var(v, st).2, tc_var(v, st).0 is Ok),
    decreases v, 1int,
{
    match v.val {
        Some(x) => {
            lemma_tc_expr_frame(*x, st);
        },
        None => {},
    }
}

/// The frame of the bindings of a `var`.
pub proof fn lemma_tc_vars_frame(vars: Seq<VarInfoM>, i: int, st: SymM, done: Seq<VarInfoM>)
    ensures
        keeps_frame(st, tc_vars(vars, i, st, done).2, tc_vars(vars, i, st, done).0 is Ok),
    decreases vars, vars.len() - i,
{
    if 0 <= i < vars.len() {
        lemma_tc_var_frame(vars[i], st);
        let (r, v1, st1) = tc_var(vars[i], st);
        if r is Ok {
            lemma_tc_vars_frame(vars, i + 1, st1, done.push(v1));
        }
    }
}

/// The frame of a sequence.
pub proof fn lemma_tc_seq_frame(es: Seq<ExprM>, i: int, st: SymM, done: Seq<ExprM>)
    ensures
        keeps_frame(st, tc_seq(es, i, st, done).2, tc_seq(es, i, st, done).0 is Ok),
    decreases es, es.len() - i,
{
    if 0 <= i < es.len() {
        lemma_tc_expr_frame(es[i], st);
        let (r, e1, st1) = tc_expr(es[i], st);
        if r is Ok && i != es.len() - 1 {
            lemma_tc_seq_frame(es, i + 1, st1, done.push(e1));
        }
    }
}

/// The frame of a tuple.
pub proof fn lemma_tc_tuple_frame(es: Seq<ExprM>, i: int, st: SymM, done: Seq<ExprM>, types: Seq<TypeM>)
    ensures
        keeps_frame(st, tc_tuple(es, i, st, done, types).2, tc_tuple(es, i, st, done, types).0 is Ok),
    decreases es, es.len() - i,
{
    if 0 <= i < es.len() {
        lemma_tc_expr_frame(es[i], st);
        let (r, e1, st1) = tc_expr(es[i], st);
        if r is Ok {
            lemma_tc_tuple_frame(es, i + 1, st1, done.push(e1), types.push(r->Ok_0));
        }
    }
}

/// The frame of a list.
pub proof fn lemma_tc_list_frame(es: Seq<ExprM>, i: int, st: SymM, done: Seq<ExprM>, typ: Option<TypeM>)
    ensures
        keeps_frame(st, tc_list(es, i, st, done, typ).2, tc_list(es, i, st, done, typ).0 is Ok),
    decreases es, es.len() - i,
{
    if 0 <= i < es.len() {
        lemma_tc_expr_frame(es[i], st);
        let (r, e1, st1) = tc_expr(es[i], st);
        if r is Ok {
            lemma_tc_list_frame(es, i + 1, st1, done.push(e1), Some(r->Ok_0));
        }
    }
}

/// The frame of the arguments of a call.
pub proof fn lemma_tc_args_frame(es: Seq<ExprM>, i: int, st: SymM, done: Seq<ExprM>, params: Seq<ArgM>)
    ensures
        keeps_frame(st, tc_args(es, i, st, done, params).2, tc_args(es, i, st, done, params).0 is Ok),
    decreases es, es.len() - i,
{
    if 0 <= i < es.len() {
        lemma_tc_expr_frame(es[i], st);
        let (r, e1, st1) = tc_expr(es[i], st);
        if r is Ok {
            lemma_tc_args_frame(es, i + 1, st1, done.push(e1), params);
        }
    }
}

/// Binding parameters declares no prototype and keeps the number of scopes.
pub proof fn lemma_tc_proto_args_frame(args: Seq<ArgM>, i: int, st: SymM)
    ensures
        tc_proto_args(args, i, st).1.protos == st.protos,
        tc_proto_args(args, i, st).1.scopes.len() == st.scopes.len(),
    decreases args.len() - i,
{
    if 0 <= i < args.len() && !is_single_tuple(args[i].typ) {
        match bind_top(st, args[i].name, Some(args[i].typ)) {
            None => {},
            Some(st1) => lemma_tc_proto_args_frame(args, i + 1, st1),
        }
    }
}

/// The prototypes after a declaration: an `extern` and a named function
/// declare theirs (as written, before any return type is inferred).
pub open spec fn declared(d: DeclM, protos: Map<Seq<char>, ProtoM>) -> Map<Seq<char>, ProtoM> {
    match d {
        DeclM::Extern(p) => protos.insert(p.name, p),
        DeclM::Function(p, _) => if p.name != anon_name() {
            protos.insert(p.name, p)
        } else {
            protos
        },
    }
}

/// The prototypes after the declarations from the `i`-th, in order.
pub open spec fn declared_from(ds: Seq<DeclM>, i: int, protos: Map<Seq<char>, ProtoM>) -> Map<
    Seq<char>,
    ProtoM,
>
    decreases ds.len() - i,
{
    if i < 0 || i >= ds.len() {
        protos
    } else {
        declared_from(ds, i + 1, declared(ds[i], protos))
    }
}

/// A declaration that checks declares its prototype and closes the scope
/// it opens.
pub proof fn lemma_tc_decl_frame(d: DeclM, st: SymM)
    ensures
        tc_decl(d, st).0 is Ok ==> tc_decl(d, st).2.protos == declared(d, st.protos)
            && tc_decl(d, st).2.scopes.len() == st.scopes.len(),
{
    match d {
        DeclM::Extern(p) => {
            match declare_fn(st, p) {
                None => {},
                Some(st1) => lemma_tc_proto_args_frame(p.args, 0, push_scope(st1)),
            }
        },
        DeclM::Function(p, body) => {
            let st1 = if p.name != anon_name() {
                declare_fn(st, p)
            } else {
                Some(st)
            };
            match st1 {
                None => {},
                Some(st1) => {
                    lemma_tc_proto_args_frame(p.args, 0, push_scope(st1));
                    let (r1, st2) = tc_proto_args(p.args, 0, push_scope(st1));
                    lemma_tc_expr_frame(body, st2);
                },
            }
        },
    }
}

/// The declarations from the `i`-th, where they all check.
pub proof fn lemma_tc_decls_frame(ds: Seq<DeclM>, i: int, st: SymM, done: Seq<DeclM>)
    ensures
        tc_decls(ds, i, st, done).0 is Ok ==> tc_decls(ds, i, st, done).2.protos == declared_from(
            ds,
            i,
            st.protos,
        ) && tc_decls(ds, i, st, done).2.scopes.len() == st.scopes.len(),
    decreases ds.len() - i,
{
    if 0 <= i < ds.len() {
        lemma_tc_decl_frame(ds[i], st);
        let (r, d1, st1) = tc_decl(ds[i], st);
        if r is Ok {
            lemma_tc_decls_frame(ds, i + 1, st1, done.push(d1));
        }
    }
}

/// A program that checks declares the prototypes of its externs and named
/// functions, in order, and leaves as many scopes as it found.
pub proof fn lemma_tc_program_frame(ds: Seq<DeclM>, st: SymM)
    ensures
        tc_program(ds, st).0 is Ok ==> tc_program(ds, st).2.protos == declared_from(ds, 0, st.protos)
            && tc_program(ds, st).2.scopes.len() == st.scopes.len(),
{
    lemma_tc_decls_frame(ds, 0, push_scope(st), Seq::empty());
}

/// A declaration binds its name to its return type in the innermost scope
/// and registers its prototype before anything else; the parameters are
/// then bound in a new scope, and the body of a function is checked in the
/// table that results. A function named `__anon_expr` does neither: its
/// body is checked above the table as it was.
pub proof fn lemma_tc_decl_declares_first(p: ProtoM, body: ExprM, st: SymM)
    requires
        st.scopes.len() > 0,
    ensures
        declare_fn(st, p) is Some,
        get_in(declare_fn(st, p)->Some_0.protos, p.name) == Some(p),
        lookup(declare_fn(st, p)->Some_0.scopes, p.name) == (Some(p.ret_type), 0int),
        declare_fn(st, p)->Some_0.scopes.len() == st.scopes.len(),
        ({
            let st1 = declare_fn(st, p)->Some_0;
            let (ra, st2) = tc_proto_args(p.args, 0, push_scope(st1));
            p.name != anon_name() && ra is Ok ==> tc_decl(DeclM::Function(p, body), st).1->Function_1
                == tc_expr(body, st2).1
        }),
        ({
            let (ra, st2) = tc_proto_args(p.args, 0, push_scope(st));
            p.name == anon_name() && ra is Ok ==> tc_decl(DeclM::Function(p, body), st).1->Function_1
                == tc_expr(body, st2).1
        }),
        tc_decl(DeclM::Extern(p), st).0 is Ok ==> tc_decl(DeclM::Extern(p), st).2.protos == st.protos.insert(
            p.name,
            p,
        ),
{
    let st1 = bind_at(st, st.scopes.len() - 1, p.name, p.ret_type);
    assert(st1.scopes.last() == st.scopes.last().insert(p.name, p.ret_type));
    lemma_tc_decl_frame(DeclM::Extern(p), st);
}

/// On a table with no scope, as a fresh one is, a program that checks
/// leaves no binding behind and keeps the prototypes it declared.
pub proof fn lemma_tc_program_from_empty(ds: Seq<DeclM>, st: SymM)
    requires
        st.scopes.len() == 0,
    ensures
        tc_program(ds, st).0 is Ok ==> tc_program(ds, st).2.scopes == Seq::<Map<Seq<char>, Option<TypeM>>>::empty()
            && tc_program(ds, st).2.protos == declared_from(ds, 0, st.protos),
{
    lemma_tc_program_frame(ds, st);
    if tc_program(ds, st).0 is Ok {
        assert(tc_program(ds, st).2.scopes =~= Seq::<Map<Seq<char>, Option<TypeM>>>::empty());
    }
}

/// Arithmetic keeps the type of its operands: `+`, `-` and `*` on two
/// operands of one type give that type, whatever it is; `<` gives an integer.
pub proof fn lemma_binary_arith_type(op: BinaryOp, l: ExprM, r: ExprM, st: SymM, t: TypeM)
    requires
        tc_expr(l, st).0 == Ok::<TypeM, TFail>(t),
        tc_expr(r, tc_expr(l, st).2).0 == Ok::<TypeM, TFail>(t),
    ensures
        op == BinaryOp::Add || op == BinaryOp::Sub || op == BinaryOp::Mult ==> tc_expr(
            ExprM::Binary(op, Box::new(l), Box::new(r)),
            st,
        ).0 == Ok::<TypeM, TFail>(t),
        op == BinaryOp::Lt ==> tc_expr(ExprM::Binary(op, Box::new(l), Box::new(r)), st).0 == Ok::<
            TypeM,
            TFail,
        >(TypeM::I64),
{
}

/// Binding a prototype's parameters from the `i`-th keeps what an earlier
/// parameter was bound to, and binds the `k`-th to its own type, where no
/// parameter after it has its name.
proof fn lemma_proto_args_bind_from(args: Seq<ArgM>, i: int, st: SymM, k: int)
    requires
        0 <= i,
        st.scopes.len() > 0,
        tc_proto_args(args, i, st).0 is Ok,
        0 <= k < args.len(),
        forall|j: int| k < j < args.len() ==> args[j].name != args[k].name,
        k < i ==> lookup(st.scopes, args[k].name) == (Some(Some(args[k].typ)), 0int),
    ensures
        lookup(tc_proto_args(args, i, st).1.scopes, args[k].name) == (Some(Some(args[k].typ)), 0int),
    decreases args.len() - i,
{
    if i < args.len() {
        let top = st.scopes.len() - 1;
        let st1 = bind_at(st, top, args[i].name, Some(args[i].typ));
        if i == k {
            lemma_lookup_after_bind(st, top, args[k].name, Some(args[k].typ));
        } else if k < i {
            lemma_lookup_bind_other(st, top, args[k].name, args[i].name, Some(args[i].typ));
        }
        lemma_proto_args_bind_from(args, i + 1, st1, k);
    }
}

/// After a prototype's parameters are checked, each parameter is bound in
/// the innermost scope to the type declared for it (the last one of a name
/// wins).
pub proof fn lemma_proto_args_bind_each(args: Seq<ArgM>, st: SymM, k: int)
    requires
        st.scopes.len() > 0,
        tc_proto_args(args, 0, st).0 is Ok,
        0 <= k < args.len(),
        forall|j: int| k < j < args.len() ==> args[j].name != args[k].name,
    ensures
        lookup(tc_proto_args(args, 0, st).1.scopes, args[k].name) == (Some(Some(args[k].typ)), 0int),
{
    lemma_proto_args_bind_from(args, 0, st, k);
}

} // verus!
