//! Scoped symbol tables.
use crate::ty::{str_eq, TyId};
use crate::typed_ast::GetType;
use vstd::prelude::*;

verus! {

/// Where a symbol is visible.
pub enum SymbolScope {
    Global,
    Local,
}

/// What a symbol names, with its type.
#[derive(Debug, Clone, Copy, PartialEq, Eq, Structural)]
pub enum SymbolType {
    Variable(TyId),
    Function(TyId),
}

/// The type of a symbol.
pub open spec fn symbol_type_ty(s: SymbolType) -> TyId {
    match s {
        SymbolType::Variable(ty) => ty,
        SymbolType::Function(ty) => ty,
    }
}

impl GetType for SymbolType {
    open spec fn type_of(&self) -> TyId {
        symbol_type_ty(*self)
    }

    fn get_type(&self) -> (r: TyId) {
        match self {
            SymbolType::Variable(ty) => *ty,
            SymbolType::Function(ty) => *ty,
        }
    }
}

/// A named symbol.
#[derive(Debug, Clone)]
pub struct Symbol {
    pub name: String,
    pub ty: SymbolType,
}

impl Symbol {
    /// A copy of this symbol.
    pub fn copy(&self) -> (r: Symbol)
        ensures
            r == *self,
    {
        Symbol { name: self.name.clone(), ty: self.ty }
    }
}

/// One scope's symbols, as pairs of name and symbol type.
pub type ScopeView = Seq<(Seq<char>, SymbolType)>;

/// The symbols of a scope, by their names.
pub open spec fn scope_view(v: Seq<Symbol>) -> ScopeView {
    v.map_values(|s: Symbol| (s.name@, s.ty))
}

/// Whether no two symbols of a scope share a name.
pub open spec fn scope_names_unique(s: ScopeView) -> bool {
    forall|i: int, j: int| 0 <= i < j < s.len() ==> #[trigger] s[i].0 != #[trigger] s[j].0
}

/// The symbol type stored for `name` in one scope.
pub open spec fn scope_lookup(s: ScopeView, name: Seq<char>) -> Option<SymbolType>
    decreases s.len(),
{
    if s.len() == 0 {
        None
    } else if s[0].0 == name {
        Some(s[0].1)
    } else {
        scope_lookup(s.drop_first(), name)
    }
}

/// The symbol type that `name` resolves to in a chain of scopes, innermost first.
pub open spec fn scopes_lookup(scopes: Seq<ScopeView>, name: Seq<char>) -> Option<SymbolType>
    decreases scopes.len(),
{
    if scopes.len() == 0 {
        None
    } else {
        match scope_lookup(scopes[0], name) {
            Some(t) => Some(t),
            None => scopes_lookup(scopes.drop_first(), name),
        }
    }
}

/// One scope after binding `name` to `ty`: an existing binding of the name is replaced in
/// place, otherwise the binding is added.
pub open spec fn scope_insert(s: ScopeView, name: Seq<char>, ty: SymbolType) -> ScopeView {
    if exists|i: int| 0 <= i < s.len() && #[trigger] s[i].0 == name {
        let i = choose|i: int| 0 <= i < s.len() && #[trigger] s[i].0 == name;
        s.update(i, (name, ty))
    } else {
        s.push((name, ty))
    }
}

/// One scope without the binding of `name`.
pub open spec fn scope_remove(s: ScopeView, name: Seq<char>) -> ScopeView {
    if exists|i: int| 0 <= i < s.len() && #[trigger] s[i].0 == name {
        let i = choose|i: int| 0 <= i < s.len() && #[trigger] s[i].0 == name;
        s.remove(i)
    } else {
        s
    }
}

proof fn lemma_scope_lookup_at(s: ScopeView, name: Seq<char>, i: int)
    requires
        0 <= i < s.len(),
        s[i].0 == name,
        forall|j: int| 0 <= j < i ==> s[j].0 != name,
    ensures
        scope_lookup(s, name) == Some(s[i].1),
    decreases i,
{
    if i > 0 {
        lemma_scope_lookup_at(s.drop_first(), name, i - 1);
    }
}

proof fn lemma_scope_lookup_none(s: ScopeView, name: Seq<char>)
    requires
        forall|j: int| 0 <= j < s.len() ==> s[j].0 != name,
    ensures
        scope_lookup(s, name) is None,
    decreases s.len(),
{
    if s.len() > 0 {
        lemma_scope_lookup_none(s.drop_first(), name);
    }
}

proof fn lemma_scope_insert_unique(s: ScopeView, name: Seq<char>, ty: SymbolType)
    requires
        scope_names_unique(s),
    ensures
        scope_names_unique(scope_insert(s, name, ty)),
{
    let r = scope_insert(s, name, ty);
    if exists|i: int| 0 <= i < s.len() && #[trigger] s[i].0 == name {
        let k = choose|i: int| 0 <= i < s.len() && #[trigger] s[i].0 == name;
        assert forall|a: int, b: int| 0 <= a < b < r.len() implies #[trigger] r[a].0 != #[trigger] r[b].0 by {
            assert(r[a].0 == s[a].0);
            assert(r[b].0 == s[b].0);
        }
    } else {
        assert forall|a: int, b: int| 0 <= a < b < r.len() implies #[trigger] r[a].0 != #[trigger] r[b].0 by {
            if b < s.len() {
                assert(r[a] == s[a] && r[b] == s[b]);
            }
        }
    }
}

proof fn lemma_scope_remove_unique(s: ScopeView, name: Seq<char>)
    requires
        scope_names_unique(s),
    ensures
        scope_names_unique(scope_remove(s, name)),
{
    if exists|i: int| 0 <= i < s.len() && #[trigger] s[i].0 == name {
        let k = choose|i: int| 0 <= i < s.len() && #[trigger] s[i].0 == name;
        let r = s.remove(k);
        assert forall|a: int, b: int| 0 <= a < b < r.len() implies #[trigger] r[a].0 != #[trigger] r[b].0 by {
            let a2 = if a < k { a } else { a + 1 };
            let b2 = if b < k { b } else { b + 1 };
            assert(r[a] == s[a2]);
            assert(r[b] == s[b2]);
        }
    }
}

/// In a scope that binds each name at most once, a name resolves to the symbol type of
/// its binding, if any.
pub proof fn lemma_scope_lookup_unique(s: ScopeView, name: Seq<char>)
    requires
        scope_names_unique(s),
    ensures
        forall|i: int| 0 <= i < s.len() && #[trigger] s[i].0 == name ==> scope_lookup(s, name) == Some(s[i].1),
        (forall|i: int| 0 <= i < s.len() ==> #[trigger] s[i].0 != name) ==> scope_lookup(s, name) is None,
{
    assert forall|i: int| 0 <= i < s.len() && #[trigger] s[i].0 == name implies scope_lookup(s, name) == Some(s[i].1) by {
        assert forall|j: int| 0 <= j < i implies s[j].0 != name by {
            assert(s[j].0 != s[i].0);
        }
        lemma_scope_lookup_at(s, name, i);
    }
    if forall|i: int| 0 <= i < s.len() ==> #[trigger] s[i].0 != name {
        lemma_scope_lookup_none(s, name);
    }
}

/// After binding `name` in a scope, `name` resolves to the new symbol type and every other
/// name as before.
pub proof fn lemma_scope_insert_lookup(s: ScopeView, name: Seq<char>, ty: SymbolType, other: Seq<char>)
    requires
        scope_names_unique(s),
    ensures
        scope_lookup(scope_insert(s, name, ty), other) == if other == name { Some(ty) } else { scope_lookup(s, other) },
{
    let r = scope_insert(s, name, ty);
    lemma_scope_insert_unique(s, name, ty);
    lemma_scope_lookup_unique(s, other);
    lemma_scope_lookup_unique(r, other);
    if exists|i: int| 0 <= i < s.len() && #[trigger] s[i].0 == name {
        let k = choose|i: int| 0 <= i < s.len() && #[trigger] s[i].0 == name;
        assert(r[k] == (name, ty));
        assert(r[k].0 == name);
        if other != name {
            if exists|i: int| 0 <= i < s.len() && #[trigger] s[i].0 == other {
                let j = choose|i: int| 0 <= i < s.len() && #[trigger] s[i].0 == other;
                assert(r[j] == s[j]);
            } else {
                assert forall|i: int| 0 <= i < r.len() implies #[trigger] r[i].0 != other by {
                    if i != k {
                        assert(r[i] == s[i]);
                    }
                }
            }
        }
    } else {
        assert(r[s.len() as int] == (name, ty));
        assert(r[s.len() as int].0 == name);
        if other != name {
            if exists|i: int| 0 <= i < s.len() && #[trigger] s[i].0 == other {
                let j = choose|i: int| 0 <= i < s.len() && #[trigger] s[i].0 == other;
                assert(r[j] == s[j]);
            } else {
                assert forall|i: int| 0 <= i < r.len() implies #[trigger] r[i].0 != other by {
                    if i < s.len() {
                        assert(r[i] == s[i]);
                    }
                }
            }
        }
    }
}

/// After removing the binding of `name` from a scope, `name` is unbound there and every
/// other name resolves as before.
pub proof fn lemma_scope_remove_lookup(s: ScopeView, name: Seq<char>, other: Seq<char>)
    requires
        scope_names_unique(s),
    ensures
        scope_lookup(scope_remove(s, name), other) == if other == name { None } else { scope_lookup(s, other) },
{
    let r = scope_remove(s, name);
    lemma_scope_remove_unique(s, name);
    lemma_scope_lookup_unique(s, other);
    lemma_scope_lookup_unique(r, other);
    if exists|i: int| 0 <= i < s.len() && #[trigger] s[i].0 == name {
        let k = choose|i: int| 0 <= i < s.len() && #[trigger] s[i].0 == name;
        assert forall|i: int| 0 <= i < r.len() && #[trigger] r[i].0 == name implies false by {
            let i2 = if i < k { i } else { i + 1 };
            assert(r[i] == s[i2]);
            assert(s[i2].0 != s[k].0);
        }
        if other != name {
            if exists|i: int| 0 <= i < s.len() && #[trigger] s[i].0 == other {
                let j = choose|i: int| 0 <= i < s.len() && #[trigger] s[i].0 == other;
                let j2 = if j < k { j } else { j - 1 };
                assert(r[j2] == s[j]);
            } else {
                assert forall|i: int| 0 <= i < r.len() implies #[trigger] r[i].0 != other by {
                    let i2 = if i < k { i } else { i + 1 };
                    assert(r[i] == s[i2]);
                }
            }
        }
    }
}

/// A symbol table: the symbols of the innermost scope, and the table of the enclosing
/// scope, if any.
#[derive(Debug)]
pub struct TypeTable {
    pub outer: Option<Box<TypeTable>>,
    pub var_map: Vec<Symbol>,
}

impl TypeTable {
    /// The scopes of the table, innermost first.
    pub open spec fn scopes(self) -> Seq<ScopeView>
        decreases self,
    {
        match self.outer {
            Some(o) => seq![scope_view(self.var_map@)] + o.scopes(),
            None => seq![scope_view(self.var_map@)],
        }
    }

    /// Every scope binds each name at most once.
    pub open spec fn wf(self) -> bool {
        forall|i: int| 0 <= i < self.scopes().len() ==> scope_names_unique(#[trigger] self.scopes()[i])
    }

    /// The symbol type that `name` resolves to.
    pub open spec fn lookup(self, name: Seq<char>) -> Option<SymbolType> {
        scopes_lookup(self.scopes(), name)
    }

    pub proof fn lemma_scopes_len(self)
        ensures
            self.scopes().len() >= 1,
            self.scopes()[0] == scope_view(self.var_map@),
            self.outer matches Some(o) ==> self.scopes().drop_first() == o.scopes(),
            self.outer is None ==> self.scopes().len() == 1,
    {
        match self.outer {
            Some(o) => {
                assert((seq![scope_view(self.var_map@)] + o.scopes()).drop_first() =~= o.scopes());
            },
            None => {},
        }
    }

    /// An empty table with no enclosing scope.
    pub fn new() -> (r: TypeTable)
        ensures
            r.scopes() == seq![ScopeView::empty()],
            r.wf(),
    {
        let r = TypeTable { outer: None, var_map: Vec::new() };
        assert(scope_view(r.var_map@) =~= ScopeView::empty());
        r
    }

    /// An empty scope inside `outer`.
    pub fn with_outer(outer: TypeTable) -> (r: TypeTable)
        requires
            outer.wf(),
        ensures
            r.scopes() == seq![ScopeView::empty()] + outer.scopes(),
            r.wf(),
    {
        let r = TypeTable { outer: Some(Box::new(outer)), var_map: Vec::new() };
        assert(scope_view(r.var_map@) =~= ScopeView::empty());
        proof {
            assert forall|i: int| 0 <= i < r.scopes().len() implies scope_names_unique(#[trigger] r.scopes()[i]) by {
                if i > 0 {
                    assert(r.scopes()[i] == outer.scopes()[i - 1]);
                }
            }
        }
        r
    }

    /// The index of the symbol named `name` in the innermost scope.
    fn find_local(&self, name: &str) -> (r: Option<usize>)
        ensures
            r matches Some(i) ==> i < self.var_map@.len() && self.var_map@[i as int].name@ == name@,
            r matches Some(i) ==> forall|j: int| 0 <= j < i ==> self.var_map@[j].name@ != name@,
            r is None ==> forall|j: int| 0 <= j < self.var_map@.len() ==> self.var_map@[j].name@ != name@,
    {
        let mut i: usize = 0;
        while i < self.var_map.len()
            invariant
                0 <= i <= self.var_map@.len(),
                forall|j: int| 0 <= j < i ==> self.var_map@[j].name@ != name@,
            decreases self.var_map@.len() - i,
        {
            if str_eq(self.var_map[i].name.as_str(), name) {
                return Some(i);
            }
            i = i + 1;
        }
        None
    }

    /// The symbol that `name` resolves to: the one of the innermost scope that binds it.
    pub fn get(&self, name: &str) -> (r: Option<Symbol>)
        ensures
            r is Some <==> self.lookup(name@) is Some,
            r matches Some(s) ==> s.name@ == name@ && Some(s.ty) == self.lookup(name@),
        decreases self,
    {
        proof {
            self.lemma_scopes_len();
        }
        match self.find_local(name) {
            Some(i) => {
                proof {
                    lemma_scope_lookup_at(scope_view(self.var_map@), name@, i as int);
                }
                Some(self.var_map[i].copy())
            },
            None => {
                proof {
                    lemma_scope_lookup_none(scope_view(self.var_map@), name@);
                }
                match &self.outer {
                    Some(o) => {
                        assert(self.lookup(name@) == o.lookup(name@));
                        o.get(name)
                    },
                    None => {
                        assert(scopes_lookup(self.scopes().drop_first(), name@) is None);
                        None
                    },
                }
            },
        }
    }

    /// Binds the symbol's name to it in the innermost scope, replacing an earlier binding there.
    pub fn insert_var(&mut self, symbol: Symbol)
        requires
            old(self).wf(),
        ensures
            final(self).wf(),
            final(self).scopes() == old(self).scopes().update(0, scope_insert(old(self).scopes()[0], symbol.name@, symbol.ty)),
    {
        proof {
            old(self).lemma_scopes_len();
        }
        let ghost s0 = scope_view(self.var_map@);
        match self.find_local(symbol.name.as_str()) {
            Some(i) => {
                let ghost name = symbol.name@;
                let ghost ty = symbol.ty;
                self.var_map.set(i, symbol);
                proof {
                    assert(s0[i as int].0 == name);
                    let k = choose|k: int| 0 <= k < s0.len() && #[trigger] s0[k].0 == name;
                    assert(s0[k].0 == s0[i as int].0);
                    assert(k == i);
                    assert(scope_view(self.var_map@) =~= s0.update(i as int, (name, ty)));
                }
            },
            None => {
                let ghost name = symbol.name@;
                let ghost ty = symbol.ty;
                self.var_map.push(symbol);
                proof {
                    assert(!(exists|k: int| 0 <= k < s0.len() && #[trigger] s0[k].0 == name));
                    assert(scope_view(self.var_map@) =~= s0.push((name, ty)));
                }
            },
        }
        proof {
            self.lemma_scopes_len();
            let new_scopes = old(self).scopes().update(0, scope_view(self.var_map@));
            assert(self.scopes() =~= new_scopes);
            assert forall|j: int| 0 <= j < self.scopes().len() implies scope_names_unique(#[trigger] self.scopes()[j]) by {
                if j == 0 {
                    lemma_scope_insert_unique(s0, symbol.name@, symbol.ty);
                } else {
                    assert(self.scopes()[j] == old(self).scopes()[j]);
                }
            }
        }
    }

    /// Binds `name` to a variable of type `var_ty` in the innermost scope, and returns the
    /// symbol.
    pub fn define_var(&mut self, name: &str, var_ty: TyId) -> (sym: Symbol)
        requires
            old(self).wf(),
        ensures
            final(self).wf(),
            sym.name@ == name@,
            sym.ty == SymbolType::Variable(var_ty),
            final(self).scopes() == old(self).scopes().update(0, scope_insert(old(self).scopes()[0], name@, SymbolType::Variable(var_ty))),
    {
        let sym = Symbol { name: String::from_str(name), ty: SymbolType::Variable(var_ty) };
        self.insert_var(sym.copy());
        sym
    }

    /// Removes the binding of `name` from the innermost scope.
    pub fn remove(&mut self, name: &str)
        requires
            old(self).wf(),
        ensures
            final(self).wf(),
            final(self).scopes() == old(self).scopes().update(0, scope_remove(old(self).scopes()[0], name@)),
    {
        proof {
            old(self).lemma_scopes_len();
        }
        let ghost s0 = scope_view(self.var_map@);
        match self.find_local(name) {
            Some(i) => {
                self.var_map.remove(i);
                proof {
                    let k = choose|k: int| 0 <= k < s0.len() && #[trigger] s0[k].0 == name@;
                    assert(s0[k].0 == s0[i as int].0);
                    assert(k == i);
                    assert(scope_view(self.var_map@) =~= s0.remove(i as int));
                }
            },
            None => {
                assert(!(exists|k: int| 0 <= k < s0.len() && #[trigger] s0[k].0 == name@));
            },
        }
        proof {
            self.lemma_scopes_len();
            let new_scopes = old(self).scopes().update(0, scope_view(self.var_map@));
            assert(self.scopes() =~= new_scopes);
            assert forall|j: int| 0 <= j < self.scopes().len() implies scope_names_unique(#[trigger] self.scopes()[j]) by {
                if j == 0 {
                    lemma_scope_remove_unique(s0, name@);
                } else {
                    assert(self.scopes()[j] == old(self).scopes()[j]);
                }
            }
        }
    }
}

/// Resolution in a table whose innermost scope was replaced: names bound in the new scope
/// resolve there, the rest as in the enclosing scopes.
pub proof fn lemma_scopes_lookup_update0(scopes: Seq<ScopeView>, s: ScopeView, name: Seq<char>)
    requires
        scopes.len() >= 1,
    ensures
        scopes_lookup(scopes.update(0, s), name) == match scope_lookup(s, name) {
            Some(t) => Some(t),
            None => scopes_lookup(scopes.drop_first(), name),
        },
{
    assert(scopes.update(0, s).drop_first() =~= scopes.drop_first());
}

/// A table's lookup: the innermost scope's binding, or else the enclosing scopes'.
pub proof fn lemma_lookup_unfold(scopes: Seq<ScopeView>, name: Seq<char>)
    requires
        scopes.len() >= 1,
    ensures
        scopes_lookup(scopes, name) == match scope_lookup(scopes[0], name) {
            Some(t) => Some(t),
            None => scopes_lookup(scopes.drop_first(), name),
        },
{
}

/// After `define_var(name, ty)`, `name` resolves to a variable of type `ty`, and every other
/// name resolves as before.
pub proof fn law_define_then_get(before: TypeTable, after: TypeTable, name: Seq<char>, ty: TyId, other: Seq<char>)
    requires
        before.wf(),
        after.scopes() == before.scopes().update(0, scope_insert(before.scopes()[0], name, SymbolType::Variable(ty))),
    ensures
        after.lookup(name) == Some(SymbolType::Variable(ty)),
        other != name ==> after.lookup(other) == before.lookup(other),
{
    before.lemma_scopes_len();
    assert(scope_names_unique(before.scopes()[0]));
    lemma_scope_insert_lookup(before.scopes()[0], name, SymbolType::Variable(ty), name);
    lemma_scope_insert_lookup(before.scopes()[0], name, SymbolType::Variable(ty), other);
    lemma_scopes_lookup_update0(before.scopes(), scope_insert(before.scopes()[0], name, SymbolType::Variable(ty)), name);
    lemma_scopes_lookup_update0(before.scopes(), scope_insert(before.scopes()[0], name, SymbolType::Variable(ty)), other);
    lemma_lookup_unfold(before.scopes(), other);
}

/// After `remove(name)`, `name` resolves as in the enclosing scopes, and every other name
/// resolves as before.
pub proof fn law_remove_then_get(before: TypeTable, after: TypeTable, name: Seq<char>, other: Seq<char>)
    requires
        before.wf(),
        after.scopes() == before.scopes().update(0, scope_remove(before.scopes()[0], name)),
    ensures
        after.lookup(name) == scopes_lookup(before.scopes().drop_first(), name),
        other != name ==> after.lookup(other) == before.lookup(other),
{
    before.lemma_scopes_len();
    assert(scope_names_unique(before.scopes()[0]));
    lemma_scope_remove_lookup(before.scopes()[0], name, name);
    lemma_scope_remove_lookup(before.scopes()[0], name, other);
    lemma_scopes_lookup_update0(before.scopes(), scope_remove(before.scopes()[0], name), name);
    lemma_scopes_lookup_update0(before.scopes(), scope_remove(before.scopes()[0], name), other);
    lemma_lookup_unfold(before.scopes(), other);
}

/// A new empty scope resolves every name as the table it encloses.
pub proof fn law_with_outer_get(inner: TypeTable, outer: TypeTable, name: Seq<char>)
    requires
        inner.scopes() == seq![ScopeView::empty()] + outer.scopes(),
    ensures
        inner.lookup(name) == outer.lookup(name),
{
    assert(inner.scopes().drop_first() =~= outer.scopes());
    assert(scope_lookup(ScopeView::empty(), name) is None);
}

impl TypeTable {
    /// A copy of this table, enclosing scopes included.
    pub fn copy(&self) -> (r: TypeTable)
        ensures
            r.scopes() == self.scopes(),
            r.outer is Some == self.outer is Some,
        decreases self,
    {
        let mut var_map: Vec<Symbol> = Vec::new();
        let mut i: usize = 0;
        while i < self.var_map.len()
            invariant
                i <= self.var_map@.len(),
                var_map@ == self.var_map@.take(i as int),
            decreases self.var_map@.len() - i,
        {
            var_map.push(self.var_map[i].copy());
            i = i + 1;
            assert(var_map@ =~= self.var_map@.take(i as int));
        }
        assert(var_map@ =~= self.var_map@);
        let outer = match &self.outer {
            Some(o) => Some(Box::new(o.copy())),
            None => None,
        };
        TypeTable { outer, var_map }
    }
}

/// Whether every symbol of every scope has a type below `n`.
pub open spec fn table_below(t: TypeTable, n: int) -> bool {
    forall|i: int, name: Seq<char>| 0 <= i < t.scopes().len() ==>
        (#[trigger] scope_lookup(t.scopes()[i], name) matches Some(s) ==> symbol_type_ty(s) < n)
}

/// A name resolves in a chain of scopes to a symbol bound in one of them.
pub proof fn lemma_scopes_lookup_in(scopes: Seq<ScopeView>, name: Seq<char>)
    requires
        scopes_lookup(scopes, name) is Some,
    ensures
        exists|i: int| 0 <= i < scopes.len() && #[trigger] scope_lookup(scopes[i], name) == scopes_lookup(scopes, name),
    decreases scopes.len(),
{
    if scope_lookup(scopes[0], name) is Some {
        assert(scope_lookup(scopes[0], name) == scopes_lookup(scopes, name));
    } else {
        lemma_scopes_lookup_in(scopes.drop_first(), name);
        let i = choose|i: int| 0 <= i < scopes.drop_first().len()
            && #[trigger] scope_lookup(scopes.drop_first()[i], name) == scopes_lookup(scopes.drop_first(), name);
        assert(scopes.drop_first()[i] == scopes[i + 1]);
    }
}

/// In a table whose symbols have types below `n`, a name resolves to a type below `n`.
pub proof fn lemma_lookup_below(t: TypeTable, n: int, name: Seq<char>)
    requires
        table_below(t, n),
    ensures
        t.lookup(name) matches Some(s) ==> symbol_type_ty(s) < n,
{
    if t.lookup(name) is Some {
        lemma_scopes_lookup_in(t.scopes(), name);
    }
}

/// A copy of a scope's symbols.
pub fn symbols_copy(v: &Vec<Symbol>) -> (r: Vec<Symbol>)
    ensures
        r@ == v@,
{
    let mut r: Vec<Symbol> = Vec::new();
    let mut i: usize = 0;
    while i < v.len()
        invariant
            0 <= i <= v.len(),
            r@ == v@.take(i as int),
        decreases v.len() - i,
    {
        r.push(v[i].copy());
        i = i + 1;
        assert(r@ =~= v@.take(i as int));
    }
    assert(v@.take(v.len() as int) =~= v@);
    r
}

/// In a table whose symbols have types below `n`, each symbol of the innermost scope has a
/// type below `n`.
pub proof fn lemma_innermost_below(t: TypeTable, n: int, i: int)
    requires
        t.wf(),
        table_below(t, n),
        0 <= i < t.var_map@.len(),
    ensures
        symbol_type_ty(t.var_map@[i].ty) < n,
{
    t.lemma_scopes_len();
    let s = scope_view(t.var_map@);
    assert(scope_names_unique(t.scopes()[0]));
    assert(s[i] == (t.var_map@[i].name@, t.var_map@[i].ty));
    lemma_scope_lookup_at(s, s[i].0, i);
    assert(scope_lookup(t.scopes()[0], s[i].0) == Some(t.var_map@[i].ty));
}

/// Binding a name in the innermost scope to a type below `n` keeps every type below `n`.
pub proof fn lemma_define_below(before: TypeTable, after: TypeTable, name: Seq<char>, ty: TyId, n: int)
    requires
        before.wf(),
        table_below(before, n),
        ty < n,
        after.scopes() == before.scopes().update(0, scope_insert(before.scopes()[0], name, SymbolType::Variable(ty))),
    ensures
        table_below(after, n),
{
    before.lemma_scopes_len();
    assert forall|i: int, other: Seq<char>| 0 <= i < after.scopes().len() implies
        (#[trigger] scope_lookup(after.scopes()[i], other) matches Some(s) ==> symbol_type_ty(s) < n) by {
        if i == 0 {
            lemma_scope_insert_lookup(before.scopes()[0], name, SymbolType::Variable(ty), other);
            assert(scope_lookup(before.scopes()[0], other) matches Some(s) ==> symbol_type_ty(s) < n);
        } else {
            assert(after.scopes()[i] == before.scopes()[i]);
        }
    }
}

/// Removing a binding from the innermost scope keeps every type below `n`.
pub proof fn lemma_remove_below(before: TypeTable, after: TypeTable, name: Seq<char>, n: int)
    requires
        before.wf(),
        table_below(before, n),
        after.scopes() == before.scopes().update(0, scope_remove(before.scopes()[0], name)),
    ensures
        table_below(after, n),
{
    before.lemma_scopes_len();
    assert forall|i: int, other: Seq<char>| 0 <= i < after.scopes().len() implies
        (#[trigger] scope_lookup(after.scopes()[i], other) matches Some(s) ==> symbol_type_ty(s) < n) by {
        if i == 0 {
            lemma_scope_remove_lookup(before.scopes()[0], name, other);
            assert(scope_lookup(before.scopes()[0], other) matches Some(s) ==> symbol_type_ty(s) < n);
        } else {
            assert(after.scopes()[i] == before.scopes()[i]);
        }
    }
}

/// Types below `n` are below any larger bound.
pub proof fn lemma_table_below_mono(t: TypeTable, n: int, m: int)
    requires
        table_below(t, n),
        n <= m,
    ensures
        table_below(t, m),
{
    assert forall|i: int, name: Seq<char>| 0 <= i < t.scopes().len() implies
        (#[trigger] scope_lookup(t.scopes()[i], name) matches Some(s) ==> symbol_type_ty(s) < m) by {
        assert(scope_lookup(t.scopes()[i], name) matches Some(s) ==> symbol_type_ty(s) < n);
    }
}

} // verus!
