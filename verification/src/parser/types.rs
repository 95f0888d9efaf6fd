use vstd::prelude::*;

verus! {

/// A type annotation of the language, boxed as the parser builds it.
pub type Type = Box<TypeKind>;

#[derive(Debug, PartialEq)]
pub enum TypeKind {
    F64,
    I64,
    Unit,
    Tuple(Vec<Type>),
    List(Option<Type>),
}

/// Mathematical model of a type.
pub enum TypeM {
    F64,
    I64,
    Unit,
    Tuple(Seq<TypeM>),
    List(Option<Box<TypeM>>),
}

impl View for TypeKind {
    type V = TypeM;

    open spec fn view(&self) -> TypeM {
        type_view(*self)
    }
}

pub open spec fn type_view(t: TypeKind) -> TypeM
    decreases t,
{
    match t {
        TypeKind::F64 => TypeM::F64,
        TypeKind::I64 => TypeM::I64,
        TypeKind::Unit => TypeM::Unit,
        TypeKind::Tuple(v) => TypeM::Tuple(types_view(v@)),
        TypeKind::List(None) => TypeM::List(None),
        TypeKind::List(Some(e)) => TypeM::List(Some(Box::new(type_view(*e)))),
    }
}

pub open spec fn types_view(s: Seq<Type>) -> Seq<TypeM>
    decreases s,
{
    if s.len() == 0 {
        Seq::empty()
    } else {
        types_view(s.drop_last()).push(type_view(*s.last()))
    }
}

/// The model of an optional type annotation.
pub open spec fn opt_type_view(t: Option<Type>) -> Option<TypeM> {
    match t {
        None => None,
        Some(t) => Some(type_view(*t)),
    }
}

pub broadcast proof fn lemma_types_view(s: Seq<Type>)
    ensures
        #[trigger] types_view(s).len() == s.len(),
        forall|i: int| 0 <= i < s.len() ==> types_view(s)[i] == type_view(*#[trigger] s[i]),
    decreases s.len(),
{
    if s.len() > 0 {
        lemma_types_view(s.drop_last());
        assert forall|i: int| 0 <= i < s.len() - 1 implies s.drop_last()[i] == s[i] by {}
    }
}

pub proof fn lemma_types_view_push(s: Seq<Type>, t: Type)
    ensures
        types_view(s.push(t)) == types_view(s).push(type_view(*t)),
{
    assert(s.push(t).drop_last() =~= s);
}

/// Structural equality of two types, as the derived `PartialEq` gives it.
#[verifier::loop_isolation(false)]
pub fn type_eq(a: &TypeKind, b: &TypeKind) -> (r: bool)
    ensures
        r == (a@ == b@),
    decreases a,
{
    broadcast use lemma_types_view;

    match (a, b) {
        (TypeKind::F64, TypeKind::F64) => true,
        (TypeKind::I64, TypeKind::I64) => true,
        (TypeKind::Unit, TypeKind::Unit) => true,
        (TypeKind::Tuple(x), TypeKind::Tuple(y)) => {
            proof {
                lemma_types_view(x@);
                lemma_types_view(y@);
            }
            if x.len() != y.len() {
                proof {
                    if a@ == b@ {
                        assert(types_view(x@).len() == types_view(y@).len());
                    }
                }
                return false;
            }
            let mut i: usize = 0;
            while i < x.len()
                invariant
                    x.len() == y.len(),
                    0 <= i <= x.len(),
                    forall|j: int| 0 <= j < i ==> type_view(*x@[j]) == type_view(*y@[j]),
                decreases x.len() - i,
            {
                proof {
                    assert(decreases_to!(x => x[i as int]));
                }
                if !type_eq(&x[i], &y[i]) {
                    proof {
                        if a@ == b@ {
                            assert(types_view(x@)[i as int] == types_view(y@)[i as int]);
                        }
                    }
                    return false;
                }
                i = i + 1;
            }
            assert forall|j: int| 0 <= j < x@.len() implies types_view(x@)[j] == types_view(y@)[j] by {
                assert(type_view(*x@[j]) == type_view(*y@[j]));
            }
            assert(types_view(x@) =~= types_view(y@));
            true
        },
        (TypeKind::List(x), TypeKind::List(y)) => {
            match (x, y) {
                (None, None) => true,
                (Some(p), Some(q)) => type_eq(p, q),
                _ => false,
            }
        },
        _ => false,
    }
}

/// Structural equality of two optional types.
pub fn opt_type_eq(a: &Option<Type>, b: &Option<Type>) -> (r: bool)
    ensures
        r == (opt_type_view(*a) == opt_type_view(*b)),
{
    match (a, b) {
        (None, None) => true,
        (Some(p), Some(q)) => type_eq(p, q),
        _ => false,
    }
}

/// A copy of a type with the same model.
#[verifier::loop_isolation(false)]
pub fn copy_type(t: &TypeKind) -> (r: TypeKind)
    ensures
        r@ == t@,
    decreases t,
{
    broadcast use lemma_types_view;

    match t {
        TypeKind::F64 => TypeKind::F64,
        TypeKind::I64 => TypeKind::I64,
        TypeKind::Unit => TypeKind::Unit,
        TypeKind::Tuple(x) => {
            proof {
                lemma_types_view(x@);
            }
            let mut v: Vec<Type> = Vec::new();
            let mut i: usize = 0;
            while i < x.len()
                invariant
                    0 <= i <= x.len(),
                    v.len() == i,
                    forall|j: int| 0 <= j < i ==> type_view(*v@[j]) == type_view(*x@[j]),
                decreases x.len() - i,
            {
                proof {
                    assert(decreases_to!(x => x[i as int]));
                }
                let c = copy_type(&x[i]);
                v.push(Box::new(c));
                i = i + 1;
            }
            proof {
                lemma_types_view(v@);
            }
            assert forall|j: int| 0 <= j < x@.len() implies types_view(v@)[j] == types_view(x@)[j] by {
                assert(type_view(*v@[j]) == type_view(*x@[j]));
            }
            assert(types_view(v@) =~= types_view(x@));
            TypeKind::Tuple(v)
        },
        TypeKind::List(None) => TypeKind::List(None),
        TypeKind::List(Some(e)) => TypeKind::List(Some(Box::new(copy_type(e)))),
    }
}

/// A copy of an optional type with the same model.
pub fn copy_opt_type(t: &Option<Type>) -> (r: Option<Type>)
    ensures
        opt_type_view(r) == opt_type_view(*t),
{
    match t {
        None => None,
        Some(t) => Some(Box::new(copy_type(t))),
    }
}

} // verus!
