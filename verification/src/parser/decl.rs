use vstd::prelude::*;
use crate::parser::expr::{Expr, ExprM, expr_view};
use crate::parser::types::{Type, TypeM, type_view, opt_type_view, copy_type, copy_opt_type};

verus! {

/// A formal parameter of a function: its name and its declared type.
#[derive(Debug, PartialEq)]
pub struct Arg {
    pub name: String,
    pub typ: Type,
}

/// The signature of a function: name, parameters and return type (absent
/// where it is still to be inferred).
#[derive(Debug, PartialEq)]
pub struct Prototype {
    pub name: String,
    pub args: Vec<Arg>,
    pub ret_type: Option<Type>,
}

/// A top-level declaration.
#[derive(Debug, PartialEq)]
pub enum DeclKind {
    Extern(Prototype),
    Function(Prototype, Expr),
}

/// A parsed program: its declarations in source order.
pub type Program = Vec<DeclKind>;

pub struct ArgM {
    pub name: Seq<char>,
    pub typ: TypeM,
}

pub struct ProtoM {
    pub name: Seq<char>,
    pub args: Seq<ArgM>,
    pub ret_type: Option<TypeM>,
}

pub enum DeclM {
    Extern(ProtoM),
    Function(ProtoM, ExprM),
}

impl View for Arg {
    type V = ArgM;

    open spec fn view(&self) -> ArgM {
        ArgM { name: self.name@, typ: type_view(*self.typ) }
    }
}

impl View for Prototype {
    type V = ProtoM;

    open spec fn view(&self) -> ProtoM {
        ProtoM { name: self.name@, args: args_view(self.args@), ret_type: opt_type_view(self.ret_type) }
    }
}

impl View for DeclKind {
    type V = DeclM;

    open spec fn view(&self) -> DeclM {
        match self {
            DeclKind::Extern(p) => DeclM::Extern(p@),
            DeclKind::Function(p, e) => DeclM::Function(p@, expr_view(**e)),
        }
    }
}

pub open spec fn args_view(s: Seq<Arg>) -> Seq<ArgM> {
    s.map_values(|a: Arg| a@)
}

pub open spec fn decls_view(s: Seq<DeclKind>) -> Seq<DeclM> {
    s.map_values(|d: DeclKind| d@)
}

impl Arg {
    pub fn new(name: String, typ: Type) -> (r: Arg)
        ensures
            r.name == name,
            r.typ == typ,
    {
        Arg { name, typ }
    }

    /// A copy with the same model.
    pub fn copy(&self) -> (r: Arg)
        ensures
            r@ == self@,
    {
        Arg { name: self.name.clone(), typ: Box::new(copy_type(&self.typ)) }
    }
}

impl Prototype {
    pub fn new(name: String, args: Vec<Arg>, ret_type: Option<Type>) -> (r: Prototype)
        ensures
            r.name == name,
            r.args == args,
            r.ret_type == ret_type,
    {
        Prototype { name, args, ret_type }
    }

    /// A copy with the same model.
    pub fn copy(&self) -> (r: Prototype)
        ensures
            r@ == self@,
    {
        let mut args: Vec<Arg> = Vec::new();
        let mut i: usize = 0;
        while i < self.args.len()
            invariant
                0 <= i <= self.args.len(),
                args.len() == i,
                forall|j: int| 0 <= j < i ==> args@[j]@ == self.args@[j]@,
            decreases self.args.len() - i,
        {
            args.push(self.args[i].copy());
            i = i + 1;
        }
        assert(args_view(args@) =~= args_view(self.args@));
        Prototype { name: self.name.clone(), args, ret_type: copy_opt_type(&self.ret_type) }
    }
}

} // verus!
