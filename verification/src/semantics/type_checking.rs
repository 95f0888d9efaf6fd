//! The type checker. Each checking function gives exactly what the function
//! of the typing rules that it is named after gives.
use vstd::prelude::*;
use crate::parser::decl::{Arg, ArgM, DeclKind, DeclM, Program, Prototype, ProtoM, args_view, decls_view};
use crate::parser::expr::{
    ConsKind, Expr, ExprKind, ExprM, VarInfo, VarInfoM, copy_expr, expr_view, exprs_view, var_view,
    vars_view, lemma_exprs_view, lemma_vars_view,
};
use crate::parser::grammar::{anon_name, op_fn_name};
use crate::parser::literals::{Literal, LiteralM};
use crate::parser::op::{BinaryOp, UnaryOp};
use crate::parser::types::{
    Type, TypeKind, TypeM, copy_type, opt_type_view, type_eq, type_view, types_view,
    lemma_types_view, lemma_types_view_push,
};
use crate::semantics::symbols::{SymM, SymbolTable, bind_at, get_in, lemma_lookup_index, lookup, pop_scope, push_scope};
use crate::semantics::typing::{
    SemErrM, TFail, TcRes, bind_top, declare_fn, fill_vars, is_open_list, is_single_tuple, mismatch,
    tc_args, tc_assign, tc_decl, tc_decls, tc_expr, tc_list, tc_program, tc_proto_args, tc_seq,
    tc_tuple, tc_var, tc_vars,
};

verus! {

/// An error that the type checker reports.
#[derive(Debug, PartialEq)]
pub enum SemanticErrorKind {
    TypeMismatch { expected: Type, found: Type },
    UndefinedVariable { name: String },
    UninitializedVariable { name: String },
    InvalidArgumentSize { expected: usize, found: usize },
    UnknownFunction { name: String },
    UnknownOperator { name: char },
    UnknownType { name: Type },
    InvalidField { idx: i64, on: Type },
    Immutable { val: Expr },
    UniqueTypes,
}

impl View for SemanticErrorKind {
    type V = SemErrM;

    open spec fn view(&self) -> SemErrM {
        match self {
            SemanticErrorKind::TypeMismatch { expected, found } => SemErrM::TypeMismatch {
                expected: expected@,
                found: found@,
            },
            SemanticErrorKind::UndefinedVariable { name } => SemErrM::UndefinedVariable { name: name@ },
            SemanticErrorKind::UninitializedVariable { name } => SemErrM::UninitializedVariable {
                name: name@,
            },
            SemanticErrorKind::InvalidArgumentSize { expected, found } => SemErrM::InvalidArgumentSize {
                expected: *expected as int,
                found: *found as int,
            },
            SemanticErrorKind::UnknownFunction { name } => SemErrM::UnknownFunction { name: name@ },
            SemanticErrorKind::UnknownOperator { name } => SemErrM::UnknownOperator { name: *name },
            SemanticErrorKind::UnknownType { name } => SemErrM::UnknownType { name: name@ },
            SemanticErrorKind::InvalidField { idx, on } => SemErrM::InvalidField { idx: *idx, on: on@ },
            SemanticErrorKind::Immutable { val } => SemErrM::Immutable { val: val@ },
            SemanticErrorKind::UniqueTypes => SemErrM::UniqueTypes,
        }
    }
}

/// How checking fails: with an error, or on an input where the checker stops
/// the process.
enum TErr {
    Sem(SemanticErrorKind),
    Abort,
}

spec fn terr_view(f: TErr) -> TFail {
    match f {
        TErr::Sem(e) => TFail::Sem(e@),
        TErr::Abort => TFail::Abort,
    }
}

spec fn rv_ty(r: Result<Type, TErr>) -> Result<TypeM, TFail> {
    match r {
        Ok(t) => Ok(t@),
        Err(f) => Err(terr_view(f)),
    }
}

spec fn rv_unit(r: Result<(), TErr>) -> Result<(), TFail> {
    match r {
        Ok(_) => Ok(()),
        Err(f) => Err(terr_view(f)),
    }
}

fn mismatch_err(expected: Type, found: Type) -> (r: TErr)
    ensures
        terr_view(r) == mismatch(expected@, found@),
{
    TErr::Sem(SemanticErrorKind::TypeMismatch { expected, found })
}

/// Binds a name in the innermost scope; `false` where there is none.
fn bind_innermost(st: &mut SymbolTable, name: String, t: Option<Type>) -> (ok: bool)
    ensures
        match bind_top(old(st)@, name@, opt_type_view(t)) {
            None => !ok && final(st)@ == old(st)@,
            Some(s) => ok && final(st)@ == s,
        },
{
    let n = st.len();
    if n == 0 {
        return false;
    }
    let _ = st.insert(name, t, n - 1);
    true
}

fn unit_type() -> (r: Type)
    ensures
        r@ == TypeM::Unit,
{
    Box::new(TypeKind::Unit)
}

/// The unit literal, which stands in a slot while its expression is checked.
fn placeholder() -> (r: Expr)
    ensures
        r@ == ExprM::Literal(LiteralM::Unit),
{
    Box::new(ExprKind::Literal(Literal::Unit))
}

proof fn lemma_exprs_update(s: Seq<Expr>, i: int, x: Expr)
    requires
        0 <= i < s.len(),
    ensures
        exprs_view(s.update(i, x)) == exprs_view(s).update(i, x@),
{
    lemma_exprs_view(s.update(i, x));
    lemma_exprs_view(s);
    assert forall|j: int| 0 <= j < s.len() implies exprs_view(s.update(i, x))[j] == exprs_view(s).update(
        i,
        x@,
    )[j] by {
        assert(s.update(i, x)[j] == if j == i {
            x
        } else {
            s[j]
        });
    }
    assert(exprs_view(s.update(i, x)) =~= exprs_view(s).update(i, x@));
}

proof fn lemma_vars_update(s: Seq<VarInfo>, i: int, x: VarInfo)
    requires
        0 <= i < s.len(),
    ensures
        vars_view(s.update(i, x)) == vars_view(s).update(i, x@),
{
    lemma_vars_view(s.update(i, x));
    lemma_vars_view(s);
    assert forall|j: int| 0 <= j < s.len() implies vars_view(s.update(i, x))[j] == vars_view(s).update(
        i,
        x@,
    )[j] by {
        assert(s.update(i, x)[j] == if j == i {
            x
        } else {
            s[j]
        });
    }
    assert(vars_view(s.update(i, x)) =~= vars_view(s).update(i, x@));
}

/// Checks an expression; gives it back with the types recorded in it.
fn check_expr(e: Expr, st: &mut SymbolTable) -> (res: (Expr, Result<Type, TErr>))
    ensures
        (rv_ty(res.1), res.0@, final(st)@) == tc_expr(e@, old(st)@),
    decreases e, 2int,
{
    let tag: u8 = match &*e {
        ExprKind::Identifier(..) => 0,
        ExprKind::Literal(..) => 0,
        ExprKind::Sequence(..) => 0,
        ExprKind::Cons(..) => 0,
        ExprKind::Var(..) => 1,
        ExprKind::Binary(BinaryOp::Assign, _, _) => 2,
        ExprKind::Binary(..) => 3,
        ExprKind::Unary(..) => 4,
        ExprKind::IfThenElse(..) => 5,
        ExprKind::Call(..) => 6,
        ExprKind::ForLoop(..) => 7,
        ExprKind::Projection(..) => 8,
    };
    if tag == 1 {
        return check_var_expr(e, st);
    } else if tag == 2 {
        return check_assign(e, st);
    } else if tag == 3 {
        return check_binary(e, st);
    } else if tag == 4 {
        return check_unary(e, st);
    } else if tag == 5 {
        return check_if(e, st);
    } else if tag == 6 {
        return check_call(e, st);
    } else if tag == 7 {
        return check_for(e, st);
    } else if tag == 8 {
        return check_projection(e, st);
    }
    match *e {
        ExprKind::Identifier(name, slot) => {
            let (found, _) = st.get(&name);
            match found {
                Some(Some(t)) => {
                    let t2 = Box::new(copy_type(&t));
                    (Box::new(ExprKind::Identifier(name, Some(t))), Ok(t2))
                },
                Some(None) => {
                    let n2 = name.clone();
                    (
                        Box::new(ExprKind::Identifier(name, slot)),
                        Err(TErr::Sem(SemanticErrorKind::UninitializedVariable { name: n2 })),
                    )
                },
                None => {
                    let n2 = name.clone();
                    (
                        Box::new(ExprKind::Identifier(name, slot)),
                        Err(TErr::Sem(SemanticErrorKind::UndefinedVariable { name: n2 })),
                    )
                },
            }
        },
        ExprKind::Literal(l) => {
            let t = match l {
                Literal::F64(_) => TypeKind::F64,
                Literal::I64(_) => TypeKind::I64,
                Literal::Unit => TypeKind::Unit,
            };
            (Box::new(ExprKind::Literal(l)), Ok(Box::new(t)))
        },
        ExprKind::Sequence(es) => {
            let (es1, r) = check_seq(es, st);
            (Box::new(ExprKind::Sequence(es1)), r)
        },
        ExprKind::Cons(es, ConsKind::Tuple) => {
            let (es1, r) = check_tuple(es, st);
            (Box::new(ExprKind::Cons(es1, ConsKind::Tuple)), r)
        },
        ExprKind::Cons(es, ConsKind::List) => {
            let (es1, r) = check_list(es, st);
            (Box::new(ExprKind::Cons(es1, ConsKind::List)), r)
        },
        _ => {
            proof {
                assert(false);
            }
            (placeholder(), Err(TErr::Abort))
        },
    }
}

/// A `var ... in` expression: its bindings in a scope of their own, then
/// its body.
fn check_var_expr(e: Expr, st: &mut SymbolTable) -> (res: (Expr, Result<Type, TErr>))
    requires
        *e is Var,
    ensures
        (rv_ty(res.1), res.0@, final(st)@) == tc_expr(e@, old(st)@),
    decreases e, 1int,
{
    match *e {
        ExprKind::Var(vars, body) => {
            st.push();
            let (vars1, r1) = check_vars(vars, st);
            match r1 {
                Err(f) => (Box::new(ExprKind::Var(vars1, body)), Err(f)),
                Ok(_) => {
                    let (body1, r2) = check_expr(body, st);
                    let aborted = match &r2 {
                        Err(TErr::Abort) => true,
                        _ => false,
                    };
                    if aborted {
                        (Box::new(ExprKind::Var(vars1, body1)), r2)
                    } else {
                        let vars2 = fill_vars_exec(vars1, st);
                        st.pop();
                        (Box::new(ExprKind::Var(vars2, body1)), r2)
                    }
                },
            }
        },
        _ => {
            proof {
                assert(false);
            }
            (placeholder(), Err(TErr::Abort))
        },
    }
}

/// An operator with two operands, but for the assignment.
fn check_binary(e: Expr, st: &mut SymbolTable) -> (res: (Expr, Result<Type, TErr>))
    requires
        *e is Binary,
        !(*e matches ExprKind::Binary(BinaryOp::Assign, _, _)),
    ensures
        (rv_ty(res.1), res.0@, final(st)@) == tc_expr(e@, old(st)@),
    decreases e, 1int,
{
    match *e {
        ExprKind::Binary(op, l, r) => {
            let user: Option<char> = match op {
                BinaryOp::UserDefined(c) => Some(c),
                _ => None,
            };
            match user {
                Some(c) => {
                    let name = crate::parser::parsing::op_fn_name_exec(false, c);
                    match st.get_proto(&name) {
                        None => (
                            Box::new(ExprKind::Binary(op, l, r)),
                            Err(TErr::Sem(SemanticErrorKind::UnknownOperator { name: c })),
                        ),
                        Some(p) => {
                            let (l1, rl) = check_expr(l, st);
                            match rl {
                                Err(f) => (Box::new(ExprKind::Binary(op, l1, r)), Err(f)),
                                Ok(lt) => {
                                    let (r1, rr) = check_expr(r, st);
                                    let e2 = Box::new(ExprKind::Binary(op, l1, r1));
                                    match rr {
                                        Err(f) => (e2, Err(f)),
                                        Ok(rt) => {
                                            if p.args.len() < 1 {
                                                (e2, Err(TErr::Abort))
                                            } else if !type_eq(&lt, &p.args[0].typ) {
                                                let want = Box::new(copy_type(&p.args[0].typ));
                                                (e2, Err(mismatch_err(want, lt)))
                                            } else if p.args.len() < 2 {
                                                (e2, Err(TErr::Abort))
                                            } else if !type_eq(&rt, &p.args[1].typ) {
                                                let want = Box::new(copy_type(&p.args[1].typ));
                                                (e2, Err(mismatch_err(want, rt)))
                                            } else {
                                                match p.ret_type {
                                                    Some(t) => (e2, Ok(t)),
                                                    None => (e2, Err(TErr::Abort)),
                                                }
                                            }
                                        },
                                    }
                                },
                            }
                        },
                    }
                },
                None => {
                    let (l1, rl) = check_expr(l, st);
                    match rl {
                        Err(f) => (Box::new(ExprKind::Binary(op, l1, r)), Err(f)),
                        Ok(lt) => {
                            let (r1, rr) = check_expr(r, st);
                            let e2 = Box::new(ExprKind::Binary(op, l1, r1));
                            match rr {
                                Err(f) => (e2, Err(f)),
                                Ok(rt) => {
                                    let is_lt = match op {
                                        BinaryOp::Lt => true,
                                        _ => false,
                                    };
                                    if !type_eq(&lt, &rt) {
                                        (e2, Err(mismatch_err(lt, rt)))
                                    } else if is_lt {
                                        (e2, Ok(Box::new(TypeKind::I64)))
                                    } else {
                                        (e2, Ok(lt))
                                    }
                                },
                            }
                        },
                    }
                },
            }
        },
        _ => {
            proof {
                assert(false);
            }
            (placeholder(), Err(TErr::Abort))
        },
    }
}

/// An assignment, to a variable or to a field of a tuple.
fn check_assign(e: Expr, st: &mut SymbolTable) -> (res: (Expr, Result<Type, TErr>))
    requires
        *e matches ExprKind::Binary(BinaryOp::Assign, _, _),
    ensures
        (rv_ty(res.1), res.0@, final(st)@) == tc_assign(e@, old(st)@),
    decreases e, 1int,
{
    match *e {
        ExprKind::Binary(op, l, r) => {
            let (l1, rl) = check_expr(l, st);
            let aborted = match &rl {
                Err(TErr::Abort) => true,
                _ => false,
            };
            if aborted {
                return (Box::new(ExprKind::Binary(op, l1, r)), Err(TErr::Abort));
            }
            let (r1, rr) = check_expr(r, st);
            let rt = match rr {
                Err(f) => {
                    return (Box::new(ExprKind::Binary(op, l1, r1)), Err(f));
                },
                Ok(rt) => rt,
            };
            let kind: u8 = match &*l1 {
                ExprKind::Identifier(..) => 0,
                ExprKind::Projection(id, _, _) => match &**id {
                    ExprKind::Identifier(..) => 1,
                    ExprKind::Projection(..) => 1,
                    _ => 2,
                },
                _ => 3,
            };
            let open = match &*rt {
                TypeKind::List(None) => true,
                _ => false,
            };
            if kind == 0 {
                let name = match &*l1 {
                    ExprKind::Identifier(n, _) => n.clone(),
                    _ => String::new(),
                };
                let e2 = Box::new(ExprKind::Binary(op, l1, r1));
                let (found, scope) = st.get(&name);
                proof {
                    lemma_lookup_index(st@.scopes, name@);
                }
                match found {
                    Some(Some(t)) => {
                        if !open && !type_eq(&rt, &t) {
                            (e2, Err(mismatch_err(t, rt)))
                        } else {
                            (e2, Ok(unit_type()))
                        }
                    },
                    Some(None) => {
                        if !open {
                            let n = st.len();
                            let _ = st.insert(name, Some(rt), n - 1 - scope);
                            (e2, Ok(unit_type()))
                        } else {
                            (e2, Err(TErr::Sem(SemanticErrorKind::UndefinedVariable { name })))
                        }
                    },
                    None => (e2, Err(TErr::Sem(SemanticErrorKind::UndefinedVariable { name }))),
                }
            } else if kind == 1 || kind == 2 {
                proof {
                    reveal_with_fuel(crate::parser::expr::expr_view, 2);
                }
                match rl {
                    Err(f) => (Box::new(ExprKind::Binary(op, l1, r1)), Err(f)),
                    Ok(lt) => {
                        if !type_eq(&lt, &rt) {
                            (Box::new(ExprKind::Binary(op, l1, r1)), Err(mismatch_err(lt, rt)))
                        } else if kind == 1 {
                            (Box::new(ExprKind::Binary(op, l1, r1)), Ok(unit_type()))
                        } else {
                            let val = Box::new(copy_expr(&l1));
                            (
                                Box::new(ExprKind::Binary(op, l1, r1)),
                                Err(TErr::Sem(SemanticErrorKind::Immutable { val })),
                            )
                        }
                    },
                }
            } else {
                (Box::new(ExprKind::Binary(op, l1, r1)), Err(TErr::Abort))
            }
        },
        _ => {
            proof {
                assert(false);
            }
            (placeholder(), Err(TErr::Abort))
        },
    }
}

/// A user-defined unary operator.
fn check_unary(e: Expr, st: &mut SymbolTable) -> (res: (Expr, Result<Type, TErr>))
    requires
        *e is Unary,
    ensures
        (rv_ty(res.1), res.0@, final(st)@) == tc_expr(e@, old(st)@),
    decreases e, 1int,
{
    match *e {
        ExprKind::Unary(op, x) => {
            let c = match op {
                UnaryOp::UserDefined(c) => c,
            };
            let name = crate::parser::parsing::op_fn_name_exec(true, c);
            match st.get_proto(&name) {
                None => (
                    Box::new(ExprKind::Unary(op, x)),
                    Err(TErr::Sem(SemanticErrorKind::UnknownOperator { name: c })),
                ),
                Some(p) => {
                    let (x1, r1) = check_expr(x, st);
                    let e1 = Box::new(ExprKind::Unary(op, x1));
                    match r1 {
                        Err(f) => (e1, Err(f)),
                        Ok(pt) => {
                            if p.args.len() < 1 {
                                (e1, Err(TErr::Abort))
                            } else if !type_eq(&pt, &p.args[0].typ) {
                                let want = Box::new(copy_type(&p.args[0].typ));
                                (e1, Err(mismatch_err(want, pt)))
                            } else {
                                match p.ret_type {
                                    Some(t) => (e1, Ok(t)),
                                    None => (e1, Err(TErr::Abort)),
                                }
                            }
                        },
                    }
                },
            }
        },
        _ => {
            proof {
                assert(false);
            }
            (placeholder(), Err(TErr::Abort))
        },
    }
}

/// A conditional: each branch in a scope of its own; the condition must be
/// a number, and the branches must have one type.
fn check_if(e: Expr, st: &mut SymbolTable) -> (res: (Expr, Result<Type, TErr>))
    requires
        *e is IfThenElse,
    ensures
        (rv_ty(res.1), res.0@, final(st)@) == tc_expr(e@, old(st)@),
    decreases e, 1int,
{
    match *e {
        ExprKind::IfThenElse(c, a, b) => {
            let (c1, r1) = check_expr(c, st);
            let ct = match r1 {
                Err(f) => {
                    return (Box::new(ExprKind::IfThenElse(c1, a, b)), Err(f));
                },
                Ok(ct) => ct,
            };
            st.push();
            let (a1, r2) = check_expr(a, st);
            let at = match r2 {
                Err(f) => {
                    return (Box::new(ExprKind::IfThenElse(c1, a1, b)), Err(f));
                },
                Ok(at) => at,
            };
            st.pop();
            st.push();
            let (b1, r3) = check_expr(b, st);
            let e3 = Box::new(ExprKind::IfThenElse(c1, a1, b1));
            let bt = match r3 {
                Err(f) => {
                    return (e3, Err(f));
                },
                Ok(bt) => bt,
            };
            st.pop();
            let numeric = match &*ct {
                TypeKind::I64 => true,
                TypeKind::F64 => true,
                _ => false,
            };
            if !numeric {
                (e3, Err(mismatch_err(Box::new(TypeKind::I64), ct)))
            } else if !type_eq(&at, &bt) {
                (e3, Err(mismatch_err(at, bt)))
            } else {
                (e3, Ok(at))
            }
        },
        _ => {
            proof {
                assert(false);
            }
            (placeholder(), Err(TErr::Abort))
        },
    }
}

/// A call of a declared function, with as many arguments as it has
/// parameters.
fn check_call(e: Expr, st: &mut SymbolTable) -> (res: (Expr, Result<Type, TErr>))
    requires
        *e is Call,
    ensures
        (rv_ty(res.1), res.0@, final(st)@) == tc_expr(e@, old(st)@),
    decreases e, 1int,
{
    match *e {
        ExprKind::Call(name, params, slot) => {
            proof {
                lemma_exprs_view(params@);
            }
            match st.get_proto(&name) {
                None => {
                    let n2 = name.clone();
                    (
                        Box::new(ExprKind::Call(name, params, slot)),
                        Err(TErr::Sem(SemanticErrorKind::UnknownFunction { name: n2 })),
                    )
                },
                Some(p) => {
                    if p.args.len() != params.len() {
                        let expected = p.args.len();
                        let found = params.len();
                        (
                            Box::new(ExprKind::Call(name, params, slot)),
                            Err(TErr::Sem(SemanticErrorKind::InvalidArgumentSize { expected, found })),
                        )
                    } else {
                        let (params1, r1) = check_args(params, &p.args, st);
                        match r1 {
                            Err(f) => (Box::new(ExprKind::Call(name, params1, slot)), Err(f)),
                            Ok(_) => match p.ret_type {
                                Some(t) => {
                                    let t2 = Box::new(copy_type(&t));
                                    (Box::new(ExprKind::Call(name, params1, Some(t))), Ok(t2))
                                },
                                None => (Box::new(ExprKind::Call(name, params1, slot)), Err(TErr::Abort)),
                            },
                        }
                    }
                },
            }
        },
        _ => {
            proof {
                assert(false);
            }
            (placeholder(), Err(TErr::Abort))
        },
    }
}

/// A `for` loop, in a scope of its own that binds its variable.
fn check_for(e: Expr, st: &mut SymbolTable) -> (res: (Expr, Result<Type, TErr>))
    requires
        *e is ForLoop,
    ensures
        (rv_ty(res.1), res.0@, final(st)@) == tc_expr(e@, old(st)@),
    decreases e, 1int,
{
    match *e {
        ExprKind::ForLoop(id, start, end, step, body) => {
            st.push();
            let (start1, r1) = check_expr(start, st);
            let stt = match r1 {
                Err(f) => {
                    return (Box::new(ExprKind::ForLoop(id, start1, end, step, body)), Err(f));
                },
                Ok(stt) => stt,
            };
            let stt2 = Box::new(copy_type(&stt));
            if !bind_innermost(st, id.clone(), Some(stt2)) {
                return (Box::new(ExprKind::ForLoop(id, start1, end, step, body)), Err(TErr::Abort));
            }
            let (end1, r2) = check_expr(end, st);
            let et = match r2 {
                Err(f) => {
                    return (Box::new(ExprKind::ForLoop(id, start1, end1, step, body)), Err(f));
                },
                Ok(et) => et,
            };
            if !type_eq(&et, &TypeKind::I64) {
                return (
                    Box::new(ExprKind::ForLoop(id, start1, end1, step, body)),
                    Err(mismatch_err(Box::new(TypeKind::I64), et)),
                );
            }
            let (step1, r3): (Option<Expr>, Result<(), TErr>) = match step {
                None => (None, Ok(())),
                Some(sx) => {
                    let (sx1, rs) = check_expr(sx, st);
                    match rs {
                        Err(f) => (Some(sx1), Err(f)),
                        Ok(spt) => {
                            if !type_eq(&spt, &stt) {
                                (Some(sx1), Err(mismatch_err(stt, spt)))
                            } else {
                                (Some(sx1), Ok(()))
                            }
                        },
                    }
                },
            };
            match r3 {
                Err(f) => (Box::new(ExprKind::ForLoop(id, start1, end1, step1, body)), Err(f)),
                Ok(_) => {
                    let (body1, r4) = check_expr(body, st);
                    let e4 = Box::new(ExprKind::ForLoop(id, start1, end1, step1, body1));
                    match r4 {
                        Err(f) => (e4, Err(f)),
                        Ok(_) => {
                            st.pop();
                            (e4, Ok(unit_type()))
                        },
                    }
                },
            }
        },
        _ => {
            proof {
                assert(false);
            }
            (placeholder(), Err(TErr::Abort))
        },
    }
}

/// A field of a tuple, by a literal index within its bounds.
fn check_projection(e: Expr, st: &mut SymbolTable) -> (res: (Expr, Result<Type, TErr>))
    requires
        *e is Projection,
    ensures
        (rv_ty(res.1), res.0@, final(st)@) == tc_expr(e@, old(st)@),
    decreases e, 1int,
{
    match *e {
        ExprKind::Projection(v, idx, slot) => {
            let (v1, r1) = check_expr(v, st);
            let vt = match r1 {
                Err(f) => {
                    return (Box::new(ExprKind::Projection(v1, idx, slot)), Err(f));
                },
                Ok(vt) => vt,
            };
            let is_tuple = match &*vt {
                TypeKind::Tuple(_) => true,
                _ => false,
            };
            if !is_tuple {
                let want = Box::new(TypeKind::Tuple(Vec::new()));
                proof {
                    assert(types_view(Seq::<Type>::empty()) =~= Seq::<TypeM>::empty());
                }
                return (Box::new(ExprKind::Projection(v1, idx, slot)), Err(mismatch_err(want, vt)));
            }
            let ts = match *vt {
                TypeKind::Tuple(ts) => ts,
                _ => Vec::new(),
            };
            proof {
                lemma_types_view(ts@);
            }
            let (idx1, r2) = check_expr(idx, st);
            let it = match r2 {
                Err(f) => {
                    return (Box::new(ExprKind::Projection(v1, idx1, slot)), Err(f));
                },
                Ok(it) => it,
            };
            let lit: Option<i64> = match &*idx1 {
                ExprKind::Literal(Literal::I64(n)) => Some(*n),
                _ => None,
            };
            match lit {
                None => (
                    Box::new(ExprKind::Projection(v1, idx1, slot)),
                    Err(mismatch_err(Box::new(TypeKind::I64), it)),
                ),
                Some(n) => {
                    if n < 0 || (n as u64) >= (ts.len() as u64) {
                        (
                            Box::new(ExprKind::Projection(v1, idx1, slot)),
                            Err(
                                TErr::Sem(
                                    SemanticErrorKind::InvalidField {
                                        idx: n,
                                        on: Box::new(TypeKind::Tuple(ts)),
                                    },
                                ),
                            ),
                        )
                    } else {
                        let k = n as usize;
                        let t1 = Box::new(copy_type(&ts[k]));
                        let t2 = Box::new(copy_type(&ts[k]));
                        (Box::new(ExprKind::Projection(v1, idx1, Some(t1))), Ok(t2))
                    }
                },
            }
        },
        _ => {
            proof {
                assert(false);
            }
            (placeholder(), Err(TErr::Abort))
        },
    }
}

/// The expressions of a sequence.
fn check_seq(es_in: Vec<Expr>, st: &mut SymbolTable) -> (res: (Vec<Expr>, Result<Type, TErr>))
    ensures
        (rv_ty(res.1), exprs_view(res.0@), final(st)@) == tc_seq(exprs_view(es_in@), 0, old(st)@, Seq::empty()),
    decreases es_in, 1int,
{
    let ghost orig = es_in;
    let ghost om = exprs_view(es_in@);
    let ghost st0 = st@;
    proof {
        lemma_exprs_view(orig@);
    }
    let mut es = es_in;
    let n = es.len();
    if n == 0 {
        assert(om =~= Seq::<ExprM>::empty());
        return (es, Ok(unit_type()));
    }
    let mut i: usize = 0;
    assert(exprs_view(es@).take(0) =~= Seq::<ExprM>::empty());
    loop
        invariant
            0 <= i < n,
            n == es.len(),
            n == orig.len(),
            orig == es_in,
            st0 == old(st)@,
            om == exprs_view(orig@),
            om.len() == n,
            forall|j: int| i <= j < n ==> es@[j] == orig@[j],
            forall|j: int| 0 <= j < n ==> om[j] == expr_view(*orig@[j]),
            tc_seq(om, i as int, st@, exprs_view(es@).take(i as int)) == tc_seq(om, 0, st0, Seq::empty()),
        decreases n - i,
    {
        proof {
            lemma_exprs_view(es@);
        }
        let ghost es_before = es@;
        let ghost done = exprs_view(es@).take(i as int);
        let ghost st_i = st@;
        let mut x = placeholder();
        es.set_and_swap(i, &mut x);
        assert(x == orig@[i as int]);
        proof {
            assert(decreases_to!(orig => orig@[i as int]));
        }
        let (x1, r) = check_expr(x, st);
        let mut y = x1;
        es.set_and_swap(i, &mut y);
        proof {
            lemma_exprs_view(es@);
            assert(es@ == es_before.update(i as int, x1));
            lemma_exprs_update(es_before, i as int, x1);
            assert(exprs_view(es@).take(i as int) =~= done);
            assert(exprs_view(es@).take(i + 1) =~= done.push(x1@));
            assert forall|j: int| i < j < n implies exprs_view(es@)[j] == om[j] by {
                assert(es@[j] == orig@[j]);
            }
            assert(done.push(x1@) + om.skip(i + 1) =~= exprs_view(es@));
        }
        match r {
            Err(f) => {
                return (es, Err(f));
            },
            Ok(t) => {
                if i != n - 1 {
                    if !type_eq(&t, &TypeKind::Unit) {
                        return (es, Err(mismatch_err(unit_type(), t)));
                    }
                } else {
                    assert(exprs_view(es@) =~= done.push(x1@));
                    return (es, Ok(t));
                }
            },
        }
        i = i + 1;
    }
}

/// The elements of a tuple.
fn check_tuple(es_in: Vec<Expr>, st: &mut SymbolTable) -> (res: (Vec<Expr>, Result<Type, TErr>))
    ensures
        (rv_ty(res.1), exprs_view(res.0@), final(st)@) == tc_tuple(
            exprs_view(es_in@),
            0,
            old(st)@,
            Seq::empty(),
            Seq::empty(),
        ),
    decreases es_in, 1int,
{
    let ghost orig = es_in;
    let ghost om = exprs_view(es_in@);
    let ghost st0 = st@;
    proof {
        lemma_exprs_view(orig@);
    }
    let mut es = es_in;
    let n = es.len();
    let mut i: usize = 0;
    assert(exprs_view(es@).take(0) =~= Seq::<ExprM>::empty());
    let mut types: Vec<Type> = Vec::new();
    assert(types_view(types@) =~= Seq::<TypeM>::empty());
    while i < n
        invariant
            0 <= i <= n,
            n == es.len(),
            n == orig.len(),
            orig == es_in,
            st0 == old(st)@,
            om == exprs_view(orig@),
            om.len() == n,
            forall|j: int| i <= j < n ==> es@[j] == orig@[j],
            forall|j: int| 0 <= j < n ==> om[j] == expr_view(*orig@[j]),
            tc_tuple(om, i as int, st@, exprs_view(es@).take(i as int), types_view(types@)) == tc_tuple(
                om,
                0,
                st0,
                Seq::empty(),
                Seq::empty(),
            ),
        decreases n - i,
    {
        proof {
            lemma_exprs_view(es@);
        }
        let ghost es_before = es@;
        let ghost done = exprs_view(es@).take(i as int);
        let mut x = placeholder();
        es.set_and_swap(i, &mut x);
        assert(x == orig@[i as int]);
        proof {
            assert(decreases_to!(orig => orig@[i as int]));
        }
        let (x1, r) = check_expr(x, st);
        let mut y = x1;
        es.set_and_swap(i, &mut y);
        proof {
            lemma_exprs_view(es@);
            assert(es@ == es_before.update(i as int, x1));
            lemma_exprs_update(es_before, i as int, x1);
            assert(exprs_view(es@).take(i as int) =~= done);
            assert(exprs_view(es@).take(i + 1) =~= done.push(x1@));
            assert forall|j: int| i < j < n implies exprs_view(es@)[j] == om[j] by {
                assert(es@[j] == orig@[j]);
            }
            assert(done.push(x1@) + om.skip(i + 1) =~= exprs_view(es@));
        }
        match r {
            Err(f) => {
                return (es, Err(f));
            },
            Ok(t) => {
                proof {
                    lemma_types_view_push(types@, t);
                }
                types.push(t);
            },
        }
        i = i + 1;
    }
    proof {
        lemma_exprs_view(es@);
        assert(exprs_view(es@).take(n as int) =~= exprs_view(es@));
    }
    (es, Ok(Box::new(TypeKind::Tuple(types))))
}

/// The elements of a list.
fn check_list(es_in: Vec<Expr>, st: &mut SymbolTable) -> (res: (Vec<Expr>, Result<Type, TErr>))
    ensures
        (rv_ty(res.1), exprs_view(res.0@), final(st)@) == tc_list(
            exprs_view(es_in@),
            0,
            old(st)@,
            Seq::empty(),
            None,
        ),
    decreases es_in, 1int,
{
    let ghost orig = es_in;
    let ghost om = exprs_view(es_in@);
    let ghost st0 = st@;
    proof {
        lemma_exprs_view(orig@);
    }
    let mut es = es_in;
    let n = es.len();
    let mut i: usize = 0;
    assert(exprs_view(es@).take(0) =~= Seq::<ExprM>::empty());
    let mut typ: Option<Type> = None;
    while i < n
        invariant
            0 <= i <= n,
            n == es.len(),
            n == orig.len(),
            orig == es_in,
            st0 == old(st)@,
            om == exprs_view(orig@),
            om.len() == n,
            forall|j: int| i <= j < n ==> es@[j] == orig@[j],
            forall|j: int| 0 <= j < n ==> om[j] == expr_view(*orig@[j]),
            tc_list(om, i as int, st@, exprs_view(es@).take(i as int), opt_type_view(typ)) == tc_list(
                om,
                0,
                st0,
                Seq::empty(),
                None,
            ),
        decreases n - i,
    {
        proof {
            lemma_exprs_view(es@);
        }
        let ghost es_before = es@;
        let ghost done = exprs_view(es@).take(i as int);
        let mut x = placeholder();
        es.set_and_swap(i, &mut x);
        assert(x == orig@[i as int]);
        proof {
            assert(decreases_to!(orig => orig@[i as int]));
        }
        let (x1, r) = check_expr(x, st);
        let mut y = x1;
        es.set_and_swap(i, &mut y);
        proof {
            lemma_exprs_view(es@);
            assert(es@ == es_before.update(i as int, x1));
            lemma_exprs_update(es_before, i as int, x1);
            assert(exprs_view(es@).take(i as int) =~= done);
            assert(exprs_view(es@).take(i + 1) =~= done.push(x1@));
            assert forall|j: int| i < j < n implies exprs_view(es@)[j] == om[j] by {
                assert(es@[j] == orig@[j]);
            }
            assert(done.push(x1@) + om.skip(i + 1) =~= exprs_view(es@));
        }
        match r {
            Err(f) => {
                return (es, Err(f));
            },
            Ok(t) => {
                let differs = match &typ {
                    Some(t0) => !type_eq(t0, &t),
                    None => false,
                };
                if differs {
                    return (es, Err(TErr::Sem(SemanticErrorKind::UniqueTypes)));
                }
                typ = Some(t);
            },
        }
        i = i + 1;
    }
    proof {
        lemma_exprs_view(es@);
        assert(exprs_view(es@).take(n as int) =~= exprs_view(es@));
    }
    (es, Ok(Box::new(TypeKind::List(typ))))
}

/// The arguments of a call against the parameters of its prototype.
fn check_args(es_in: Vec<Expr>, params: &Vec<Arg>, st: &mut SymbolTable) -> (res: (Vec<Expr>, Result<(), TErr>))
    ensures
        (rv_unit(res.1), exprs_view(res.0@), final(st)@) == tc_args(
            exprs_view(es_in@),
            0,
            old(st)@,
            Seq::empty(),
            args_view(params@),
        ),
    decreases es_in, 1int,
{
    let ghost orig = es_in;
    let ghost om = exprs_view(es_in@);
    let ghost st0 = st@;
    proof {
        lemma_exprs_view(orig@);
    }
    let mut es = es_in;
    let n = es.len();
    let mut i: usize = 0;
    assert(exprs_view(es@).take(0) =~= Seq::<ExprM>::empty());
    let ghost pm = args_view(params@);
    while i < n
        invariant
            0 <= i <= n,
            n == es.len(),
            n == orig.len(),
            orig == es_in,
            st0 == old(st)@,
            om == exprs_view(orig@),
            om.len() == n,
            forall|j: int| i <= j < n ==> es@[j] == orig@[j],
            forall|j: int| 0 <= j < n ==> om[j] == expr_view(*orig@[j]),
            pm == args_view(params@),
            tc_args(om, i as int, st@, exprs_view(es@).take(i as int), pm) == tc_args(
                om,
                0,
                st0,
                Seq::empty(),
                pm,
            ),
        decreases n - i,
    {
        proof {
            lemma_exprs_view(es@);
        }
        let ghost es_before = es@;
        let ghost done = exprs_view(es@).take(i as int);
        let mut x = placeholder();
        es.set_and_swap(i, &mut x);
        assert(x == orig@[i as int]);
        proof {
            assert(decreases_to!(orig => orig@[i as int]));
        }
        let (x1, r) = check_expr(x, st);
        let mut y = x1;
        es.set_and_swap(i, &mut y);
        proof {
            lemma_exprs_view(es@);
            assert(es@ == es_before.update(i as int, x1));
            lemma_exprs_update(es_before, i as int, x1);
            assert(exprs_view(es@).take(i as int) =~= done);
            assert(exprs_view(es@).take(i + 1) =~= done.push(x1@));
            assert forall|j: int| i < j < n implies exprs_view(es@)[j] == om[j] by {
                assert(es@[j] == orig@[j]);
            }
            assert(done.push(x1@) + om.skip(i + 1) =~= exprs_view(es@));
        }
        match r {
            Err(f) => {
                return (es, Err(f));
            },
            Ok(t) => {
                if i >= params.len() {
                    return (es, Err(TErr::Abort));
                }
                if !type_eq(&t, &params[i].typ) {
                    return (es, Err(mismatch_err(Box::new(copy_type(&params[i].typ)), t)));
                }
            },
        }
        i = i + 1;
    }
    proof {
        lemma_exprs_view(es@);
        assert(exprs_view(es@).take(n as int) =~= exprs_view(es@));
    }
    (es, Ok(()))
}

/// A binding with an empty name and nothing else, which stands in a slot
/// while its binding is checked.
fn placeholder_var() -> (r: VarInfo)
    ensures
        r@ == (VarInfoM { name: Seq::empty(), t: None, val: None }),
{
    VarInfo { name: String::new(), t: None, val: None }
}

/// One binding of a `var`.
fn check_var(x: VarInfo, st: &mut SymbolTable) -> (res: (VarInfo, Result<(), TErr>))
    ensures
        (rv_unit(res.1), res.0@, final(st)@) == tc_var(x@, old(st)@),
    decreases x, 1int,
{
    let VarInfo { name, t, val } = x;
    match val {
        Some(v) => {
            let (v1, rv) = check_expr(v, st);
            match rv {
                Err(f) => (VarInfo { name, t, val: Some(v1) }, Err(f)),
                Ok(bt) => {
                    let differs = match &t {
                        Some(vt) => !type_eq(vt, &bt),
                        None => false,
                    };
                    if differs {
                        let vt = match t {
                            Some(vt) => vt,
                            None => unit_type(),
                        };
                        let vt2 = Box::new(copy_type(&vt));
                        (VarInfo { name, t: Some(vt), val: Some(v1) }, Err(mismatch_err(vt2, bt)))
                    } else {
                        let bt2 = Box::new(copy_type(&bt));
                        if bind_innermost(st, name.clone(), Some(bt2)) {
                            (VarInfo { name, t: Some(bt), val: Some(v1) }, Ok(()))
                        } else {
                            (VarInfo { name, t, val: Some(v1) }, Err(TErr::Abort))
                        }
                    }
                },
            }
        },
        None => {
            if bind_innermost(st, name.clone(), None) {
                (VarInfo { name, t, val: None }, Ok(()))
            } else {
                (VarInfo { name, t, val: None }, Err(TErr::Abort))
            }
        },
    }
}

/// The bindings of a `var`.
fn check_vars(vars_in: Vec<VarInfo>, st: &mut SymbolTable) -> (res: (Vec<VarInfo>, Result<(), TErr>))
    ensures
        (rv_unit(res.1), vars_view(res.0@), final(st)@) == tc_vars(vars_view(vars_in@), 0, old(st)@, Seq::empty()),
    decreases vars_in, 1int,
{
    let ghost orig = vars_in;
    let ghost om = vars_view(vars_in@);
    let ghost st0 = st@;
    proof {
        lemma_vars_view(orig@);
    }
    let mut vars = vars_in;
    let n = vars.len();
    let mut i: usize = 0;
    assert(vars_view(vars@).take(0) =~= Seq::<VarInfoM>::empty());
    while i < n
        invariant
            0 <= i <= n,
            n == vars.len(),
            n == orig.len(),
            orig == vars_in,
            st0 == old(st)@,
            om == vars_view(orig@),
            om.len() == n,
            forall|j: int| i <= j < n ==> vars@[j] == orig@[j],
            forall|j: int| 0 <= j < n ==> om[j] == var_view(orig@[j]),
            tc_vars(om, i as int, st@, vars_view(vars@).take(i as int)) == tc_vars(om, 0, st0, Seq::empty()),
        decreases n - i,
    {
        proof {
            lemma_vars_view(vars@);
        }
        let ghost vs_before = vars@;
        let ghost done = vars_view(vars@).take(i as int);
        let mut x = placeholder_var();
        vars.set_and_swap(i, &mut x);
        assert(x == orig@[i as int]);
        proof {
            assert(decreases_to!(orig => orig@[i as int]));
        }
        let (y, r) = check_var(x, st);
        let mut y = y;
        let ghost yv = y;
        vars.set_and_swap(i, &mut y);
        proof {
            lemma_vars_view(vars@);
            assert(vars@ == vs_before.update(i as int, yv));
            lemma_vars_update(vs_before, i as int, yv);
            assert(vars_view(vars@).take(i as int) =~= done);
            assert(vars_view(vars@).take(i + 1) =~= done.push(yv@));
            assert forall|j: int| i < j < n implies vars_view(vars@)[j] == om[j] by {
                assert(vars@[j] == orig@[j]);
            }
            assert(done.push(yv@) + om.skip(i + 1) =~= vars_view(vars@));
        }
        match r {
            Err(f) => {
                return (vars, Err(f));
            },
            Ok(_) => {},
        }
        i = i + 1;
    }
    proof {
        lemma_vars_view(vars@);
        assert(vars_view(vars@).take(n as int) =~= vars_view(vars@));
    }
    (vars, Ok(()))
}

/// Gives each binding that has no type the one that the table holds for it.
fn fill_vars_exec(vars_in: Vec<VarInfo>, st: &SymbolTable) -> (r: Vec<VarInfo>)
    ensures
        vars_view(r@) == fill_vars(vars_view(vars_in@), st@),
{
    let ghost om = vars_view(vars_in@);
    proof {
        lemma_vars_view(vars_in@);
    }
    let mut vars = vars_in;
    let n = vars.len();
    let mut i: usize = 0;
    while i < n
        invariant
            0 <= i <= n,
            n == vars.len(),
            om.len() == n,
            forall|j: int| 0 <= j < i ==> var_view(vars@[j]) == fill_vars(om, st@)[j],
            forall|j: int| i <= j < n ==> var_view(vars@[j]) == om[j],
        decreases n - i,
    {
        let mut x = placeholder_var();
        vars.set_and_swap(i, &mut x);
        let VarInfo { name, t, val } = x;
        let t1 = match t {
            Some(t) => Some(t),
            None => {
                let (found, _) = st.get(&name);
                match found {
                    Some(Some(ft)) => Some(ft),
                    _ => None,
                }
            },
        };
        let mut y = VarInfo { name, t: t1, val };
        vars.set_and_swap(i, &mut y);
        i = i + 1;
    }
    proof {
        lemma_vars_view(vars@);
    }
    assert(vars_view(vars@) =~= fill_vars(om, st@));
    vars
}

/// Binds a function's name to its return type in the innermost scope and
/// declares its prototype; `false` where there is no scope.
fn declare_function(st: &mut SymbolTable, p: &Prototype) -> (ok: bool)
    ensures
        match declare_fn(old(st)@, p@) {
            None => !ok && final(st)@ == old(st)@,
            Some(s) => ok && final(st)@ == s,
        },
{
    if !bind_innermost(st, p.name.clone(), crate::parser::types::copy_opt_type(&p.ret_type)) {
        return false;
    }
    let _ = st.insert_proto(p.name.clone(), p.copy());
    true
}

/// The parameters of a prototype, bound in the innermost scope.
fn check_proto_args(args: &Vec<Arg>, st: &mut SymbolTable) -> (r: Result<(), TErr>)
    ensures
        (rv_unit(r), final(st)@) == tc_proto_args(args_view(args@), 0, old(st)@),
{
    let ghost am = args_view(args@);
    let ghost st0 = st@;
    let n = args.len();
    let mut i: usize = 0;
    while i < n
        invariant
            0 <= i <= n,
            n == args.len(),
            am == args_view(args@),
            st0 == old(st)@,
            tc_proto_args(am, i as int, st@) == tc_proto_args(am, 0, st0),
        decreases n - i,
    {
        let single = match &*args[i].typ {
            TypeKind::Tuple(ts) => ts.len() == 1,
            _ => false,
        };
        proof {
            match *args@[i as int].typ {
                TypeKind::Tuple(ts) => lemma_types_view(ts@),
                _ => {},
            }
        }
        if single {
            let name = Box::new(copy_type(&args[i].typ));
            return Err(TErr::Sem(SemanticErrorKind::UnknownType { name }));
        }
        let t = Box::new(copy_type(&args[i].typ));
        if !bind_innermost(st, args[i].name.clone(), Some(t)) {
            return Err(TErr::Abort);
        }
        i = i + 1;
    }
    Ok(())
}

/// A declaration.
fn check_decl(d: DeclKind, st: &mut SymbolTable) -> (res: (DeclKind, Result<(), TErr>))
    ensures
        (rv_unit(res.1), res.0@, final(st)@) == tc_decl(d@, old(st)@),
{
    match d {
        DeclKind::Extern(p) => {
            if !declare_function(st, &p) {
                return (DeclKind::Extern(p), Err(TErr::Abort));
            }
            st.push();
            let r = check_proto_args(&p.args, st);
            match r {
                Err(f) => (DeclKind::Extern(p), Err(f)),
                Ok(_) => {
                    st.pop();
                    (DeclKind::Extern(p), Ok(()))
                },
            }
        },
        DeclKind::Function(p, body) => {
            let anon = crate::parser::parsing::anon_name_exec();
            let named = p.name != anon;
            if named {
                if !declare_function(st, &p) {
                    return (DeclKind::Function(p, body), Err(TErr::Abort));
                }
            }
            st.push();
            let r1 = check_proto_args(&p.args, st);
            if let Err(f) = r1 {
                return (DeclKind::Function(p, body), Err(f));
            }
            let (body1, r2) = check_expr(body, st);
            let bt = match r2 {
                Err(f) => {
                    return (DeclKind::Function(p, body1), Err(f));
                },
                Ok(bt) => bt,
            };
            let Prototype { name, args, ret_type } = p;
            match ret_type {
                Some(rt) => {
                    if !type_eq(&rt, &bt) {
                        let want = Box::new(copy_type(&rt));
                        let p1 = Prototype { name, args, ret_type: Some(rt) };
                        (DeclKind::Function(p1, body1), Err(mismatch_err(want, bt)))
                    } else {
                        st.pop();
                        (DeclKind::Function(Prototype { name, args, ret_type: Some(rt) }, body1), Ok(()))
                    }
                },
                None => {
                    st.pop();
                    (DeclKind::Function(Prototype { name, args, ret_type: Some(bt) }, body1), Ok(()))
                },
            }
        },
    }
}

/// An `extern` of an empty name with no parameter and no return type, which
/// stands in a slot while its declaration is checked.
fn placeholder_decl() -> (r: DeclKind)
    ensures
        r@ == DeclM::Extern(ProtoM { name: Seq::empty(), args: Seq::empty(), ret_type: None }),
{
    let r = DeclKind::Extern(Prototype { name: String::new(), args: Vec::new(), ret_type: None });
    assert(args_view(Seq::<Arg>::empty()) =~= Seq::<ArgM>::empty());
    r
}

/// The declarations of a program, in order.
fn check_decls(ds_in: Vec<DeclKind>, st: &mut SymbolTable) -> (res: (Vec<DeclKind>, Result<(), TErr>))
    ensures
        (rv_unit(res.1), decls_view(res.0@), final(st)@) == tc_decls(decls_view(ds_in@), 0, old(st)@, Seq::empty()),
{
    let ghost om = decls_view(ds_in@);
    let ghost st0 = st@;
    let mut ds = ds_in;
    let n = ds.len();
    let mut i: usize = 0;
    assert(decls_view(ds@).take(0) =~= Seq::<DeclM>::empty());
    while i < n
        invariant
            0 <= i <= n,
            n == ds.len(),
            st0 == old(st)@,
            om == decls_view(ds_in@),
            om.len() == n,
            forall|j: int| i <= j < n ==> ds@[j]@ == om[j],
            tc_decls(om, i as int, st@, decls_view(ds@).take(i as int)) == tc_decls(om, 0, st0, Seq::empty()),
        decreases n - i,
    {
        let ghost done = decls_view(ds@).take(i as int);
        let mut x = placeholder_decl();
        ds.set_and_swap(i, &mut x);
        let (y, r) = check_decl(x, st);
        let mut y = y;
        let ghost yv = y@;
        ds.set_and_swap(i, &mut y);
        proof {
            assert(decls_view(ds@).take(i as int) =~= done);
            assert(decls_view(ds@).take(i + 1) =~= done.push(yv));
            assert(done.push(yv) + om.skip(i + 1) =~= decls_view(ds@));
        }
        if let Err(f) = r {
            return (ds, Err(f));
        }
        i = i + 1;
    }
    assert(decls_view(ds@).take(n as int) =~= decls_view(ds@));
    (ds, Ok(()))
}

/// A program, in a scope of its own.
fn check_program(prog: Vec<DeclKind>, st: &mut SymbolTable) -> (res: (Vec<DeclKind>, Result<(), TErr>))
    ensures
        (rv_unit(res.1), decls_view(res.0@), final(st)@) == tc_program(decls_view(prog@), old(st)@),
{
    st.push();
    let (ds, r) = check_decls(prog, st);
    if r.is_ok() {
        st.pop();
    }
    (ds, r)
}

/// The outcome of a check as the caller sees it: `None` where the checker
/// stops the process, else the type or the error.
pub open spec fn outcome<T>(r: Result<T, TFail>) -> Option<Result<T, SemErrM>> {
    match r {
        Ok(t) => Some(Ok(t)),
        Err(TFail::Sem(e)) => Some(Err(e)),
        Err(TFail::Abort) => None,
    }
}

/// The model of what a public check returns.
pub open spec fn outcome_view(r: Option<Result<Type, SemanticErrorKind>>) -> Option<Result<TypeM, SemErrM>> {
    match r {
        Some(Ok(t)) => Some(Ok(t@)),
        Some(Err(e)) => Some(Err(e@)),
        None => None,
    }
}

pub open spec fn unit_outcome_view(r: Option<Result<(), SemanticErrorKind>>) -> Option<Result<(), SemErrM>> {
    match r {
        Some(Ok(_)) => Some(Ok(())),
        Some(Err(e)) => Some(Err(e@)),
        None => None,
    }
}

fn to_outcome<T>(r: Result<T, TErr>) -> (o: Option<Result<T, SemanticErrorKind>>)
    ensures
        match r {
            Ok(t) => o == Some(Ok::<T, SemanticErrorKind>(t)),
            Err(TErr::Sem(e)) => o == Some(Err::<T, SemanticErrorKind>(e)),
            Err(TErr::Abort) => o is None,
        },
{
    match r {
        Ok(t) => Some(Ok(t)),
        Err(TErr::Sem(e)) => Some(Err(e)),
        Err(TErr::Abort) => None,
    }
}

/// Type-checks an expression against the table, records the types it
/// finds in the expression, and gives the expression's type or the first
/// error; `None` on an input where the checker stops the process (a call of
/// an operator or function declared without a return type, an operator
/// declared with fewer parameters than it has operands, or a binding with no
/// scope to hold it).
pub fn type_check_expr_checked(e: &mut Expr, st: &mut SymbolTable) -> (r: Option<Result<Type, SemanticErrorKind>>)
    ensures
        outcome_view(r) == outcome(tc_expr(old(e)@, old(st)@).0),
        final(e)@ == tc_expr(old(e)@, old(st)@).1,
        final(st)@ == tc_expr(old(e)@, old(st)@).2,
{
    let mut x = placeholder();
    std::mem::swap(e, &mut x);
    let (x1, res) = check_expr(x, st);
    *e = x1;
    to_outcome(res)
}

/// Type-checks an expression on an input where the checker does not stop
/// the process.
pub fn type_check_expr(e: &mut Expr, st: &mut SymbolTable) -> (r: Result<Type, SemanticErrorKind>)
    requires
        tc_expr(old(e)@, old(st)@).0 != Err::<TypeM, TFail>(TFail::Abort),
    ensures
        outcome_view(Some(r)) == outcome(tc_expr(old(e)@, old(st)@).0),
        final(e)@ == tc_expr(old(e)@, old(st)@).1,
        final(st)@ == tc_expr(old(e)@, old(st)@).2,
{
    match type_check_expr_checked(e, st) {
        Some(r) => r,
        None => {
            proof {
                assert(false);
            }
            Err(SemanticErrorKind::UniqueTypes)
        },
    }
}

/// The type of a literal.
pub fn type_check_literal(l: &Literal) -> (r: Type)
    ensures
        r@ == match l@ {
            LiteralM::F64(_) => TypeM::F64,
            LiteralM::I64(_) => TypeM::I64,
            LiteralM::Unit => TypeM::Unit,
        },
{
    match l {
        Literal::F64(_) => Box::new(TypeKind::F64),
        Literal::I64(_) => Box::new(TypeKind::I64),
        Literal::Unit => Box::new(TypeKind::Unit),
    }
}

/// Binds the parameters of a prototype in the innermost scope; `None` where
/// the table has no scope.
pub fn type_check_prototype_checked(p: &Prototype, st: &mut SymbolTable) -> (r: Option<Result<(), SemanticErrorKind>>)
    ensures
        unit_outcome_view(r) == outcome(tc_proto_args(p@.args, 0, old(st)@).0),
        final(st)@ == tc_proto_args(p@.args, 0, old(st)@).1,
{
    let r = check_proto_args(&p.args, st);
    to_outcome(r)
}

/// Binds the parameters of a prototype in the innermost scope, on an input
/// where the checker does not stop the process (see
/// `lemma_proto_args_no_abort`: a table with a scope is one).
pub fn type_check_prototype(p: &Prototype, st: &mut SymbolTable) -> (r: Result<(), SemanticErrorKind>)
    requires
        tc_proto_args(p@.args, 0, old(st)@).0 != Err::<(), TFail>(TFail::Abort),
    ensures
        unit_outcome_view(Some(r)) == outcome(tc_proto_args(p@.args, 0, old(st)@).0),
        final(st)@ == tc_proto_args(p@.args, 0, old(st)@).1,
{
    match type_check_prototype_checked(p, st) {
        Some(r) => r,
        None => {
            proof {
                assert(false);
            }
            Ok(())
        },
    }
}

/// Binding parameters only stops the process where the table has no scope,
/// and leaves as many scopes as it found.
pub proof fn lemma_proto_args_no_abort(args: Seq<ArgM>, i: int, st: SymM)
    requires
        st.scopes.len() > 0 || i >= args.len(),
    ensures
        tc_proto_args(args, i, st).0 != Err::<(), TFail>(TFail::Abort),
        tc_proto_args(args, i, st).1.scopes.len() == st.scopes.len(),
    decreases args.len() - i,
{
    if 0 <= i < args.len() && !is_single_tuple(args[i].typ) {
        lemma_proto_args_no_abort(args, i + 1, bind_top(st, args[i].name, Some(args[i].typ)).unwrap());
    }
}

/// Type-checks a declaration; `None` on an input where the checker stops the
/// process.
pub fn type_check_decl_checked(d: &mut DeclKind, st: &mut SymbolTable) -> (r: Option<Result<(), SemanticErrorKind>>)
    ensures
        unit_outcome_view(r) == outcome(tc_decl(old(d)@, old(st)@).0),
        final(d)@ == tc_decl(old(d)@, old(st)@).1,
        final(st)@ == tc_decl(old(d)@, old(st)@).2,
{
    let mut x = placeholder_decl();
    std::mem::swap(d, &mut x);
    let (x1, res) = check_decl(x, st);
    *d = x1;
    to_outcome(res)
}

/// Type-checks a declaration on an input where the checker does not stop the
/// process.
pub fn type_check_decl(d: &mut DeclKind, st: &mut SymbolTable) -> (r: Result<(), SemanticErrorKind>)
    requires
        tc_decl(old(d)@, old(st)@).0 != Err::<(), TFail>(TFail::Abort),
    ensures
        unit_outcome_view(Some(r)) == outcome(tc_decl(old(d)@, old(st)@).0),
        final(d)@ == tc_decl(old(d)@, old(st)@).1,
        final(st)@ == tc_decl(old(d)@, old(st)@).2,
{
    match type_check_decl_checked(d, st) {
        Some(r) => r,
        None => {
            proof {
                assert(false);
            }
            Ok(())
        },
    }
}

/// Type-checks a program, in a scope of its own, recording the types it
/// finds; `None` on an input where the checker stops the process.
pub fn type_check_program_checked(prog: &mut Program, st: &mut SymbolTable) -> (r: Option<Result<(), SemanticErrorKind>>)
    ensures
        unit_outcome_view(r) == outcome(tc_program(decls_view(old(prog)@), old(st)@).0),
        decls_view(final(prog)@) == tc_program(decls_view(old(prog)@), old(st)@).1,
        final(st)@ == tc_program(decls_view(old(prog)@), old(st)@).2,
{
    let mut x: Vec<DeclKind> = Vec::new();
    std::mem::swap(prog, &mut x);
    let (x1, res) = check_program(x, st);
    *prog = x1;
    to_outcome(res)
}

/// Type-checks a program on an input where the checker does not stop the
/// process.
pub fn type_check_program(prog: &mut Program, st: &mut SymbolTable) -> (r: Result<(), SemanticErrorKind>)
    requires
        tc_program(decls_view(old(prog)@), old(st)@).0 != Err::<(), TFail>(TFail::Abort),
    ensures
        unit_outcome_view(Some(r)) == outcome(tc_program(decls_view(old(prog)@), old(st)@).0),
        decls_view(final(prog)@) == tc_program(decls_view(old(prog)@), old(st)@).1,
        final(st)@ == tc_program(decls_view(old(prog)@), old(st)@).2,
{
    match type_check_program_checked(prog, st) {
        Some(r) => r,
        None => {
            proof {
                assert(false);
            }
            Ok(())
        },
    }
}

} // verus!
