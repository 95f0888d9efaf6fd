use vstd::prelude::*;
use crate::parser::decl::{Prototype, ProtoM};
use crate::parser::types::{Type, TypeM, opt_type_view, copy_opt_type};

verus! {

/// One scope: each name with its type, absent while the variable has no
/// value yet. Later entries for a name replace earlier ones.
type Scope = Vec<(String, Option<Type>)>;

/// The bindings of names to types, by nested scopes (innermost last), and the
/// prototypes of the functions declared so far.
pub struct SymbolTable {
    symbol_table: Vec<Scope>,
    prototype_table: Vec<(String, Prototype)>,
}

/// Model of a symbol table.
pub struct SymM {
    pub scopes: Seq<Map<Seq<char>, Option<TypeM>>>,
    pub protos: Map<Seq<char>, ProtoM>,
}

/// The map that a scope describes: the last entry for a name wins.
pub open spec fn scope_map(s: Seq<(String, Option<Type>)>) -> Map<Seq<char>, Option<TypeM>>
    decreases s.len(),
{
    if s.len() == 0 {
        Map::empty()
    } else {
        scope_map(s.drop_last()).insert(s.last().0@, opt_type_view(s.last().1))
    }
}

/// The map that the prototype entries describe: the last entry for a name wins.
pub open spec fn protos_map(s: Seq<(String, Prototype)>) -> Map<Seq<char>, ProtoM>
    decreases s.len(),
{
    if s.len() == 0 {
        Map::empty()
    } else {
        protos_map(s.drop_last()).insert(s.last().0@, s.last().1@)
    }
}

impl View for SymbolTable {
    type V = SymM;

    closed spec fn view(&self) -> SymM {
        SymM {
            scopes: self.symbol_table@.map_values(|s: Scope| scope_map(s@)),
            protos: protos_map(self.prototype_table@),
        }
    }
}

/// The value of a key in a map, if any.
pub open spec fn get_in<K, V>(m: Map<K, V>, k: K) -> Option<V> {
    if m.dom().contains(k) {
        Some(m[k])
    } else {
        None
    }
}

/// The type of a name in the innermost scope that binds it, with the number
/// of scopes above that one; `(None, 0)` where no scope binds it.
pub open spec fn lookup(scopes: Seq<Map<Seq<char>, Option<TypeM>>>, name: Seq<char>) -> (
    Option<Option<TypeM>>,
    int,
)
    decreases scopes.len(),
{
    if scopes.len() == 0 {
        (None, 0)
    } else if scopes.last().dom().contains(name) {
        (Some(scopes.last()[name]), 0)
    } else {
        let (r, i) = lookup(scopes.drop_last(), name);
        match r {
            Some(_) => (r, i + 1),
            None => (None, 0),
        }
    }
}

/// The table with one more, empty, innermost scope.
pub open spec fn push_scope(st: SymM) -> SymM {
    SymM { scopes: st.scopes.push(Map::empty()), protos: st.protos }
}

/// The table without its innermost scope (unchanged where it has none).
pub open spec fn pop_scope(st: SymM) -> SymM {
    if st.scopes.len() == 0 {
        st
    } else {
        SymM { scopes: st.scopes.drop_last(), protos: st.protos }
    }
}

/// The table with a binding added to the scope at index `i`.
pub open spec fn bind_at(st: SymM, i: int, name: Seq<char>, t: Option<TypeM>) -> SymM {
    SymM { scopes: st.scopes.update(i, st.scopes[i].insert(name, t)), protos: st.protos }
}

proof fn lemma_scope_take(s: Seq<(String, Option<Type>)>, i: int, name: Seq<char>)
    requires
        0 < i <= s.len(),
        s[i - 1].0@ != name,
    ensures
        get_in(scope_map(s.take(i)), name) == get_in(scope_map(s.take(i - 1)), name),
{
    assert(s.take(i).drop_last() =~= s.take(i - 1));
}

proof fn lemma_protos_take(s: Seq<(String, Prototype)>, i: int, name: Seq<char>)
    requires
        0 < i <= s.len(),
        s[i - 1].0@ != name,
    ensures
        get_in(protos_map(s.take(i)), name) == get_in(protos_map(s.take(i - 1)), name),
{
    assert(s.take(i).drop_last() =~= s.take(i - 1));
}

fn scope_get(scope: &Scope, name: &String) -> (r: Option<Option<Type>>)
    ensures
        match r {
            None => !scope_map(scope@).dom().contains(name@),
            Some(t) => scope_map(scope@).dom().contains(name@) && opt_type_view(t) == scope_map(
                scope@,
            )[name@],
        },
{
    let mut i = scope.len();
    assert(scope@.take(i as int) =~= scope@);
    while i > 0
        invariant
            i <= scope.len(),
            get_in(scope_map(scope@.take(i as int)), name@) == get_in(scope_map(scope@), name@),
        decreases i,
    {
        if scope[i - 1].0 == *name {
            proof {
                assert(scope@.take(i as int).drop_last() =~= scope@.take(i - 1));
            }
            return Some(copy_opt_type(&scope[i - 1].1));
        }
        proof {
            lemma_scope_take(scope@, i as int, name@);
        }
        i = i - 1;
    }
    assert(scope@.take(0) =~= Seq::<(String, Option<Type>)>::empty());
    None
}

impl SymbolTable {
    /// A table with no scope and no prototype.
    pub fn new() -> (r: SymbolTable)
        ensures
            r@.scopes == Seq::<Map<Seq<char>, Option<TypeM>>>::empty(),
            r@.protos == Map::<Seq<char>, ProtoM>::empty(),
    {
        let r = SymbolTable { symbol_table: Vec::new(), prototype_table: Vec::new() };
        assert(r@.scopes =~= Seq::<Map<Seq<char>, Option<TypeM>>>::empty());
        r
    }

    /// The number of scopes.
    pub fn len(&self) -> (r: usize)
        ensures
            r == self@.scopes.len(),
    {
        self.symbol_table.len()
    }

    /// Opens a new innermost scope.
    pub fn push(&mut self)
        ensures
            final(self)@ == push_scope(old(self)@),
    {
        let ghost old_t = self.symbol_table@;
        let empty: Scope = Vec::new();
        assert(scope_map(empty@) =~= Map::<Seq<char>, Option<TypeM>>::empty());
        self.symbol_table.push(empty);
        assert(self@.scopes =~= push_scope(old(self)@).scopes);
    }

    /// Closes the innermost scope, if there is one.
    pub fn pop(&mut self)
        ensures
            final(self)@ == pop_scope(old(self)@),
    {
        let ghost old_t = self.symbol_table@;
        let _ = self.symbol_table.pop();
        proof {
            if old_t.len() > 0 {
                assert(self.symbol_table@ =~= old_t.drop_last());
                assert(self@.scopes =~= pop_scope(old(self)@).scopes);
            } else {
                assert(self.symbol_table@ =~= old_t);
            }
        }
    }

    /// Binds a name in the scope at index `scope` (counted from the
    /// outermost), and returns what the name was bound to there.
    pub fn insert(&mut self, name: String, t: Option<Type>, scope: usize) -> (r: Option<Option<Type>>)
        requires
            scope < old(self)@.scopes.len(),
        ensures
            final(self)@ == bind_at(old(self)@, scope as int, name@, opt_type_view(t)),
            match r {
                None => !old(self)@.scopes[scope as int].dom().contains(name@),
                Some(x) => old(self)@.scopes[scope as int].dom().contains(name@) && opt_type_view(x)
                    == old(self)@.scopes[scope as int][name@],
            },
    {
        let r = scope_get(&self.symbol_table[scope], &name);
        let ghost old_t = self.symbol_table@;
        let mut sc: Scope = Vec::new();
        std::mem::swap(&mut sc, &mut self.symbol_table[scope]);
        let ghost old_sc = sc@;
        let ghost nm = name@;
        let ghost tv = opt_type_view(t);
        sc.push((name, t));
        assert(sc@.drop_last() =~= old_sc);
        assert(scope_map(sc@) == scope_map(old_sc).insert(nm, tv));
        std::mem::swap(&mut sc, &mut self.symbol_table[scope]);
        assert(self.symbol_table@ =~= old_t.update(scope as int, self.symbol_table@[scope as int]));
        assert(self@.scopes =~= bind_at(old(self)@, scope as int, nm, tv).scopes);
        r
    }

    /// The type that the innermost scope that binds `name` gives it, with the
    /// number of scopes above that one; `(None, 0)` where none binds it.
    pub fn get(&self, name: &String) -> (r: (Option<Option<Type>>, usize))
        ensures
            (match r.0 {
                Some(t) => Some(opt_type_view(t)),
                None => None,
            }, r.1 as int) == lookup(self@.scopes, name@),
    {
        let n = self.symbol_table.len();
        let mut k: usize = 0;
        let ghost sc = self@.scopes;
        assert(sc.take(n as int) =~= sc);
        while k < n
            invariant
                n == self.symbol_table.len(),
                sc == self@.scopes,
                0 <= k <= n,
                lookup(sc, name@) == (match lookup(sc.take(n - k), name@) {
                    (Some(t), i) => (Some(t), i + k),
                    (None, _) => (None, 0int),
                }),
            decreases n - k,
        {
            let i = n - 1 - k;
            let ghost pre = sc.take(n - k);
            assert(pre.last() == scope_map(self.symbol_table@[i as int]@));
            match scope_get(&self.symbol_table[i], name) {
                Some(t) => {
                    return (Some(t), k);
                },
                None => {
                    assert(pre.drop_last() =~= sc.take(n - k - 1));
                },
            }
            k = k + 1;
        }
        assert(sc.take(0) =~= Seq::<Map<Seq<char>, Option<TypeM>>>::empty());
        (None, 0)
    }

    /// The prototype declared under `name`, if any.
    pub fn get_proto(&self, name: &String) -> (r: Option<Prototype>)
        ensures
            match r {
                None => !self@.protos.dom().contains(name@),
                Some(p) => self@.protos.dom().contains(name@) && p@ == self@.protos[name@],
            },
    {
        let s = &self.prototype_table;
        let mut i = s.len();
        assert(s@.take(i as int) =~= s@);
        while i > 0
            invariant
                i <= s.len(),
                s@ == self.prototype_table@,
                get_in(protos_map(s@.take(i as int)), name@) == get_in(protos_map(s@), name@),
            decreases i,
        {
            if s[i - 1].0 == *name {
                proof {
                    assert(s@.take(i as int).drop_last() =~= s@.take(i - 1));
                    assert(s@.take(i as int).last() == s@[i - 1]);
                    assert(protos_map(s@.take(i as int)) == protos_map(s@.take(i - 1)).insert(
                        s@[i - 1].0@,
                        s@[i - 1].1@,
                    ));
                }
                let p = s[i - 1].1.copy();
                assert(get_in(protos_map(s@.take(i as int)), name@) == Some(p@));
                return Some(p);
            }
            proof {
                lemma_protos_take(s@, i as int, name@);
            }
            i = i - 1;
        }
        assert(s@.take(0) =~= Seq::<(String, Prototype)>::empty());
        None
    }

    /// Declares a prototype under `name`, and returns the one it replaces.
    pub fn insert_proto(&mut self, name: String, proto: Prototype) -> (r: Option<Prototype>)
        ensures
            final(self)@.scopes == old(self)@.scopes,
            final(self)@.protos == old(self)@.protos.insert(name@, proto@),
            match r {
                None => !old(self)@.protos.dom().contains(name@),
                Some(p) => old(self)@.protos.dom().contains(name@) && p@ == old(self)@.protos[name@],
            },
    {
        let r = self.get_proto(&name);
        let ghost old_p = self.prototype_table@;
        self.prototype_table.push((name, proto));
        assert(self.prototype_table@.drop_last() =~= old_p);
        r
    }
}

impl Default for SymbolTable {
    /// An empty table, as `new` makes it.
    fn default() -> (r: SymbolTable)
        ensures
            r@.scopes == Seq::<Map<Seq<char>, Option<TypeM>>>::empty(),
            r@.protos == Map::<Seq<char>, ProtoM>::empty(),
    {
        SymbolTable::new()
    }
}

/// Opening a scope and closing it again gives back the table.
pub proof fn lemma_pop_push(st: SymM)
    ensures
        pop_scope(push_scope(st)) == st,
{
    assert(push_scope(st).scopes.drop_last() =~= st.scopes);
}

/// A new, empty scope hides nothing: a name is found where it was found
/// before, one scope further out.
pub proof fn lemma_lookup_push(st: SymM, name: Seq<char>)
    ensures
        lookup(push_scope(st).scopes, name) == (match lookup(st.scopes, name) {
            (Some(t), i) => (Some(t), i + 1),
            (None, _) => (None, 0int),
        }),
{
    assert(push_scope(st).scopes.drop_last() =~= st.scopes);
}

/// What a bind writes, a lookup reads back: a name bound in the scope at
/// index `i`, where no scope inside it binds the name, is found with the
/// type it was given, `len - 1 - i` scopes out.
pub proof fn lemma_lookup_after_bind(st: SymM, i: int, name: Seq<char>, t: Option<TypeM>)
    requires
        0 <= i < st.scopes.len(),
        forall|j: int| i < j < st.scopes.len() ==> !st.scopes[j].dom().contains(name),
    ensures
        lookup(bind_at(st, i, name, t).scopes, name) == (Some(t), st.scopes.len() - 1 - i),
    decreases st.scopes.len(),
{
    let b = bind_at(st, i, name, t);
    if i < st.scopes.len() - 1 {
        let inner = SymM { scopes: st.scopes.drop_last(), protos: st.protos };
        lemma_lookup_after_bind(inner, i, name, t);
        assert(b.scopes.drop_last() =~= bind_at(inner, i, name, t).scopes);
    }
}

/// A bind of one name leaves what a lookup of another name finds.
pub proof fn lemma_lookup_bind_other(st: SymM, i: int, name: Seq<char>, other: Seq<char>, t: Option<TypeM>)
    requires
        0 <= i < st.scopes.len(),
        name != other,
    ensures
        lookup(bind_at(st, i, other, t).scopes, name) == lookup(st.scopes, name),
    decreases st.scopes.len(),
{
    let b = bind_at(st, i, other, t);
    if i < st.scopes.len() - 1 {
        let inner = SymM { scopes: st.scopes.drop_last(), protos: st.protos };
        lemma_lookup_bind_other(inner, i, name, other, t);
        assert(b.scopes.drop_last() =~= bind_at(inner, i, other, t).scopes);
    } else {
        assert(b.scopes.drop_last() =~= st.scopes.drop_last());
    }
}

/// A prototype declared under a name is the one found under it.
pub proof fn lemma_proto_after_insert(st: SymM, name: Seq<char>, p: ProtoM)
    ensures
        get_in(st.protos.insert(name, p), name) == Some(p),
{
}

/// A lookup that finds a name reports a scope that exists.
pub proof fn lemma_lookup_index(scopes: Seq<Map<Seq<char>, Option<TypeM>>>, name: Seq<char>)
    ensures
        lookup(scopes, name).0 is Some ==> 0 <= lookup(scopes, name).1 < scopes.len(),
        lookup(scopes, name).0 is None ==> lookup(scopes, name).1 == 0,
    decreases scopes.len(),
{
    if scopes.len() > 0 {
        lemma_lookup_index(scopes.drop_last(), name);
    }
}

/// The table after binding each name of `binds`, in order, in the scope at
/// index `i`.
pub open spec fn bind_all(st: SymM, i: int, binds: Seq<(Seq<char>, Option<TypeM>)>) -> SymM
    decreases binds.len(),
{
    if binds.len() == 0 {
        st
    } else {
        let last = binds.last();
        bind_at(bind_all(st, i, binds.drop_last()), i, last.0, last.1)
    }
}

proof fn lemma_bind_all_top(st: SymM, binds: Seq<(Seq<char>, Option<TypeM>)>)
    ensures
        bind_all(push_scope(st), st.scopes.len() as int, binds).scopes.len() == st.scopes.len() + 1,
        bind_all(push_scope(st), st.scopes.len() as int, binds).scopes.drop_last() == st.scopes,
        bind_all(push_scope(st), st.scopes.len() as int, binds).protos == st.protos,
    decreases binds.len(),
{
    if binds.len() == 0 {
        assert(push_scope(st).scopes.drop_last() =~= st.scopes);
    } else {
        lemma_bind_all_top(st, binds.drop_last());
        let prev = bind_all(push_scope(st), st.scopes.len() as int, binds.drop_last());
        let last = binds.last();
        assert(bind_at(prev, st.scopes.len() as int, last.0, last.1).scopes.drop_last() =~= prev.scopes.drop_last());
    }
}

/// Opening a scope, binding any names in it, and closing it gives back the
/// table: closing a scope undoes every binding made in it.
pub proof fn lemma_push_binds_pop(st: SymM, binds: Seq<(Seq<char>, Option<TypeM>)>)
    ensures
        pop_scope(bind_all(push_scope(st), st.scopes.len() as int, binds)) == st,
{
    lemma_bind_all_top(st, binds);
}

/// One call on a symbol table, as its model sees it.
pub enum TableOp {
    Push,
    Pop,
    Insert(Seq<char>, Option<TypeM>, int),
    InsertProto(Seq<char>, ProtoM),
}

/// The table after one call: `insert` only with a scope that exists, as it
/// requires.
pub open spec fn apply_op(st: SymM, op: TableOp) -> SymM {
    match op {
        TableOp::Push => push_scope(st),
        TableOp::Pop => pop_scope(st),
        TableOp::Insert(name, t, i) => if 0 <= i < st.scopes.len() {
            bind_at(st, i, name, t)
        } else {
            st
        },
        TableOp::InsertProto(name, p) => SymM { scopes: st.scopes, protos: st.protos.insert(name, p) },
    }
}

/// The table after a sequence of calls.
pub open spec fn apply_ops(st: SymM, ops: Seq<TableOp>) -> SymM
    decreases ops.len(),
{
    if ops.len() == 0 {
        st
    } else {
        apply_op(apply_ops(st, ops.drop_last()), ops.last())
    }
}

/// The prototype that the last `insert_proto` of `name` in `ops` stored;
/// `before` where there is none.
pub open spec fn last_stored(ops: Seq<TableOp>, name: Seq<char>, before: Option<ProtoM>) -> Option<ProtoM>
    decreases ops.len(),
{
    if ops.len() == 0 {
        before
    } else {
        match ops.last() {
            TableOp::InsertProto(n, p) => if n == name {
                Some(p)
            } else {
                last_stored(ops.drop_last(), name, before)
            },
            _ => last_stored(ops.drop_last(), name, before),
        }
    }
}

/// Across any calls, `get_proto` finds the prototype last stored under the
/// name, or the one it found before where none was stored; `push`, `pop` and
/// `insert` never change it.
pub proof fn lemma_proto_last_stored(st: SymM, ops: Seq<TableOp>, name: Seq<char>)
    ensures
        get_in(apply_ops(st, ops).protos, name) == last_stored(ops, name, get_in(st.protos, name)),
    decreases ops.len(),
{
    if ops.len() > 0 {
        lemma_proto_last_stored(st, ops.drop_last(), name);
    }
}

} // verus!
