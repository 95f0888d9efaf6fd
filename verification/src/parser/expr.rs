use vstd::prelude::*;
use crate::parser::literals::{Literal, LiteralM};
use crate::parser::op::{BinaryOp, UnaryOp};
use crate::parser::types::{
    Type, TypeKind, TypeM, type_view, opt_type_view, copy_type, copy_opt_type,
};

verus! {

/// An expression, boxed as the parser builds it.
pub type Expr = Box<ExprKind>;

#[derive(Debug, PartialEq)]
pub enum ExprKind {
    Identifier(String, Option<Type>),
    Var(Vec<VarInfo>, Expr),
    Literal(Literal),
    Cons(Vec<Expr>, ConsKind),
    Binary(BinaryOp, Expr, Expr),
    Sequence(Vec<Expr>),
    Unary(UnaryOp, Expr),
    IfThenElse(Expr, Expr, Expr),
    Call(String, Vec<Expr>, Option<Type>),
    ForLoop(String, Expr, Expr, Option<Expr>, Expr),
    Projection(Expr, Expr, Option<Type>),
}

/// Whether a bracketed sequence of expressions builds a list or a tuple.
#[derive(Clone, Copy, Debug, PartialEq, Eq, Structural)]
pub enum ConsKind {
    List,
    Tuple,
}

/// One binding of a `var ... in` expression.
#[derive(Debug, PartialEq)]
pub struct VarInfo {
    pub name: String,
    pub t: Option<Type>,
    pub val: Option<Expr>,
}

/// Mathematical model of an expression.
pub enum ExprM {
    Identifier(Seq<char>, Option<TypeM>),
    Var(Seq<VarInfoM>, Box<ExprM>),
    Literal(LiteralM),
    Cons(Seq<ExprM>, ConsKind),
    Binary(BinaryOp, Box<ExprM>, Box<ExprM>),
    Sequence(Seq<ExprM>),
    Unary(UnaryOp, Box<ExprM>),
    IfThenElse(Box<ExprM>, Box<ExprM>, Box<ExprM>),
    Call(Seq<char>, Seq<ExprM>, Option<TypeM>),
    ForLoop(Seq<char>, Box<ExprM>, Box<ExprM>, Option<Box<ExprM>>, Box<ExprM>),
    Projection(Box<ExprM>, Box<ExprM>, Option<TypeM>),
}

/// Mathematical model of a `var` binding.
pub struct VarInfoM {
    pub name: Seq<char>,
    pub t: Option<TypeM>,
    pub val: Option<Box<ExprM>>,
}

impl View for ExprKind {
    type V = ExprM;

    open spec fn view(&self) -> ExprM {
        expr_view(*self)
    }
}

impl View for VarInfo {
    type V = VarInfoM;

    open spec fn view(&self) -> VarInfoM {
        var_view(*self)
    }
}

pub open spec fn expr_view(e: ExprKind) -> ExprM
    decreases e,
{
    match e {
        ExprKind::Identifier(n, t) => ExprM::Identifier(n@, opt_type_view(t)),
        ExprKind::Var(vars, body) => ExprM::Var(vars_view(vars@), Box::new(expr_view(*body))),
        ExprKind::Literal(l) => ExprM::Literal(l@),
        ExprKind::Cons(es, k) => ExprM::Cons(exprs_view(es@), k),
        ExprKind::Binary(op, l, r) => ExprM::Binary(
            op,
            Box::new(expr_view(*l)),
            Box::new(expr_view(*r)),
        ),
        ExprKind::Sequence(es) => ExprM::Sequence(exprs_view(es@)),
        ExprKind::Unary(op, x) => ExprM::Unary(op, Box::new(expr_view(*x))),
        ExprKind::IfThenElse(c, a, b) => ExprM::IfThenElse(
            Box::new(expr_view(*c)),
            Box::new(expr_view(*a)),
            Box::new(expr_view(*b)),
        ),
        ExprKind::Call(n, args, t) => ExprM::Call(n@, exprs_view(args@), opt_type_view(t)),
        ExprKind::ForLoop(n, s, e, st, b) => ExprM::ForLoop(
            n@,
            Box::new(expr_view(*s)),
            Box::new(expr_view(*e)),
            match st {
                None => None,
                Some(x) => Some(Box::new(expr_view(*x))),
            },
            Box::new(expr_view(*b)),
        ),
        ExprKind::Projection(v, i, t) => ExprM::Projection(
            Box::new(expr_view(*v)),
            Box::new(expr_view(*i)),
            opt_type_view(t),
        ),
    }
}

pub open spec fn exprs_view(s: Seq<Expr>) -> Seq<ExprM>
    decreases s,
{
    if s.len() == 0 {
        Seq::empty()
    } else {
        exprs_view(s.drop_last()).push(expr_view(*s.last()))
    }
}

pub open spec fn var_view(v: VarInfo) -> VarInfoM
    decreases v,
{
    VarInfoM {
        name: v.name@,
        t: opt_type_view(v.t),
        val: match v.val {
            None => None,
            Some(x) => Some(Box::new(expr_view(*x))),
        },
    }
}

pub open spec fn vars_view(s: Seq<VarInfo>) -> Seq<VarInfoM>
    decreases s,
{
    if s.len() == 0 {
        Seq::empty()
    } else {
        vars_view(s.drop_last()).push(var_view(s.last()))
    }
}

/// The model of an optional expression.
pub open spec fn opt_expr_view(e: Option<Expr>) -> Option<Box<ExprM>> {
    match e {
        None => None,
        Some(x) => Some(Box::new(expr_view(*x))),
    }
}

pub broadcast proof fn lemma_exprs_view(s: Seq<Expr>)
    ensures
        #[trigger] exprs_view(s).len() == s.len(),
        forall|i: int| 0 <= i < s.len() ==> exprs_view(s)[i] == expr_view(*#[trigger] s[i]),
    decreases s.len(),
{
    if s.len() > 0 {
        lemma_exprs_view(s.drop_last());
        assert forall|i: int| 0 <= i < s.len() - 1 implies s.drop_last()[i] == s[i] by {}
    }
}

pub broadcast proof fn lemma_vars_view(s: Seq<VarInfo>)
    ensures
        #[trigger] vars_view(s).len() == s.len(),
        forall|i: int| 0 <= i < s.len() ==> vars_view(s)[i] == var_view(#[trigger] s[i]),
    decreases s.len(),
{
    if s.len() > 0 {
        lemma_vars_view(s.drop_last());
        assert forall|i: int| 0 <= i < s.len() - 1 implies s.drop_last()[i] == s[i] by {}
    }
}

pub proof fn lemma_exprs_view_push(s: Seq<Expr>, e: Expr)
    ensures
        exprs_view(s.push(e)) == exprs_view(s).push(expr_view(*e)),
{
    assert(s.push(e).drop_last() =~= s);
}

pub proof fn lemma_vars_view_push(s: Seq<VarInfo>, v: VarInfo)
    ensures
        vars_view(s.push(v)) == vars_view(s).push(var_view(v)),
{
    assert(s.push(v).drop_last() =~= s);
}

impl From<Literal> for ExprKind {
    fn from(l: Literal) -> (r: ExprKind) {
        ExprKind::Literal(l)
    }
}

impl vstd::std_specs::convert::FromSpecImpl<Literal> for ExprKind {
    open spec fn obeys_from_spec() -> bool {
        true
    }

    open spec fn from_spec(l: Literal) -> ExprKind {
        ExprKind::Literal(l)
    }
}

/// A copy of a list of expressions with the same model.
pub fn copy_exprs(v: &Vec<Expr>) -> (r: Vec<Expr>)
    ensures
        exprs_view(r@) == exprs_view(v@),
    decreases v,
{
    broadcast use lemma_exprs_view;

    let mut r: Vec<Expr> = Vec::new();
    let mut i: usize = 0;
    while i < v.len()
        invariant
            0 <= i <= v.len(),
            r.len() == i,
            forall|j: int| 0 <= j < i ==> expr_view(*r@[j]) == expr_view(*v@[j]),
        decreases v.len() - i,
    {
        proof {
            assert(decreases_to!(v => v[i as int]));
        }
        let c = copy_expr(&v[i]);
        r.push(Box::new(c));
        i = i + 1;
    }
    proof {
        lemma_exprs_view(r@);
        lemma_exprs_view(v@);
    }
    assert forall|j: int| 0 <= j < v@.len() implies exprs_view(r@)[j] == exprs_view(v@)[j] by {
        assert(expr_view(*r@[j]) == expr_view(*v@[j]));
    }
    assert(exprs_view(r@) =~= exprs_view(v@));
    r
}

/// A copy of an optional expression with the same model.
pub fn copy_opt_expr(e: &Option<Expr>) -> (r: Option<Expr>)
    ensures
        opt_expr_view(r) == opt_expr_view(*e),
    decreases e,
{
    match e {
        None => None,
        Some(x) => Some(Box::new(copy_expr(x))),
    }
}

/// A copy of a list of `var` bindings with the same model.
pub fn copy_vars(v: &Vec<VarInfo>) -> (r: Vec<VarInfo>)
    ensures
        vars_view(r@) == vars_view(v@),
    decreases v,
{
    broadcast use lemma_vars_view;

    let mut r: Vec<VarInfo> = Vec::new();
    let mut i: usize = 0;
    while i < v.len()
        invariant
            0 <= i <= v.len(),
            r.len() == i,
            forall|j: int| 0 <= j < i ==> var_view(r@[j]) == var_view(v@[j]),
        decreases v.len() - i,
    {
        proof {
            assert(decreases_to!(v => v[i as int]));
        }
        let x = &v[i];
        let c = VarInfo { name: x.name.clone(), t: copy_opt_type(&x.t), val: copy_opt_expr(&x.val) };
        r.push(c);
        i = i + 1;
    }
    proof {
        lemma_vars_view(r@);
        lemma_vars_view(v@);
    }
    assert forall|j: int| 0 <= j < v@.len() implies vars_view(r@)[j] == vars_view(v@)[j] by {
        assert(var_view(r@[j]) == var_view(v@[j]));
    }
    assert(vars_view(r@) =~= vars_view(v@));
    r
}

/// A copy of an expression with the same model.
pub fn copy_expr(e: &ExprKind) -> (r: ExprKind)
    ensures
        r@ == e@,
    decreases e,
{
    match e {
        ExprKind::Identifier(n, t) => ExprKind::Identifier(n.clone(), copy_opt_type(t)),
        ExprKind::Var(vars, body) => ExprKind::Var(copy_vars(vars), Box::new(copy_expr(body))),
        ExprKind::Literal(l) => ExprKind::Literal(l.copy()),
        ExprKind::Cons(es, k) => ExprKind::Cons(copy_exprs(es), *k),
        ExprKind::Binary(op, l, r) => ExprKind::Binary(
            *op,
            Box::new(copy_expr(l)),
            Box::new(copy_expr(r)),
        ),
        ExprKind::Sequence(es) => ExprKind::Sequence(copy_exprs(es)),
        ExprKind::Unary(op, x) => ExprKind::Unary(*op, Box::new(copy_expr(x))),
        ExprKind::IfThenElse(c, a, b) => ExprKind::IfThenElse(
            Box::new(copy_expr(c)),
            Box::new(copy_expr(a)),
            Box::new(copy_expr(b)),
        ),
        ExprKind::Call(n, args, t) => ExprKind::Call(n.clone(), copy_exprs(args), copy_opt_type(t)),
        ExprKind::ForLoop(n, s, en, st, b) => ExprKind::ForLoop(
            n.clone(),
            Box::new(copy_expr(s)),
            Box::new(copy_expr(en)),
            copy_opt_expr(st),
            Box::new(copy_expr(b)),
        ),
        ExprKind::Projection(v, i, t) => ExprKind::Projection(
            Box::new(copy_expr(v)),
            Box::new(copy_expr(i)),
            copy_opt_type(t),
        ),
    }
}

} // verus!
