//! The type context: every type of a program, by id, with the symbol table in use.
use crate::imap::{entries_keys_unique, entries_same_map, name_map_entries, entries_lookup};
use crate::table::{
    lemma_scope_insert_lookup, scope_lookup, scopes_lookup, scope_names_unique, ScopeView, SymbolType, TypeTable,
};
use crate::ty::{ty_eq, ty_equiv, IntTy, Ty, TyId};
use vstd::prelude::*;

verus! {

/// Whether every id in `ids` is below `n`.
pub open spec fn ids_below(ids: Seq<TyId>, n: int) -> bool {
    forall|i: int| 0 <= i < ids.len() ==> #[trigger] ids[i] < n
}

/// Whether every value of a name map's entries is below `n`.
pub open spec fn entry_values_below(e: Seq<(Seq<char>, usize)>, n: int) -> bool {
    forall|i: int| 0 <= i < e.len() ==> #[trigger] e[i].1 < n
}

/// Whether the component types of `ty` that it is built from (pointee, type arguments,
/// parameter and return types) have ids below `n`.
pub open spec fn ty_parts_below(ty: Ty, n: int) -> bool {
    match ty {
        Ty::Function { params_type, ret_type, .. } => ids_below(params_type@, n) && ret_type < n,
        Ty::Generic(_, args) => ids_below(args@, n),
        Ty::AppliedGeneric(_, args) => ids_below(args@, n),
        Ty::Ptr(inner) => inner < n,
        _ => true,
    }
}

/// Whether the field, trait and function maps of `ty` hold ids below `n` and no key twice.
pub open spec fn ty_maps_ok(ty: Ty, n: int) -> bool {
    match ty {
        Ty::Struct { fields, impl_traits, .. } => {
            &&& entry_values_below(name_map_entries(fields), n)
            &&& entry_values_below(name_map_entries(impl_traits), n)
            &&& entries_keys_unique(name_map_entries(fields))
            &&& entries_keys_unique(name_map_entries(impl_traits))
        },
        Ty::Trait { functions, .. } => {
            &&& entry_values_below(name_map_entries(functions), n)
            &&& entries_keys_unique(name_map_entries(functions))
        },
        _ => true,
    }
}

/// The id of an inference variable type.
pub open spec fn ty_infer_id(ty: Ty) -> Option<usize> {
    match ty {
        Ty::Infer(k) => Some(k),
        Ty::InferInt(k) => Some(k),
        _ => None,
    }
}

/// Well-formed types: parts come before the types built from them, maps hold ids of
/// existing types and no key twice, and no two types are variables with the same id.
pub open spec fn types_wf(types: Seq<Ty>) -> bool {
    &&& forall|i: int| 0 <= i < types.len() ==> ty_parts_below(#[trigger] types[i], i)
    &&& forall|i: int| 0 <= i < types.len() ==> ty_maps_ok(#[trigger] types[i], types.len() as int)
    &&& forall|i: int, j: int|
        0 <= i < types.len() && 0 <= j < types.len() && i != j && (#[trigger] ty_infer_id(types[i])) is Some
            ==> ty_infer_id(types[i]) != #[trigger] ty_infer_id(types[j])
}

/// Whether `ty` may be added to well-formed `types`: its parts exist, its maps are sound,
/// and if it is a variable, any type with its id is this same variable.
pub open spec fn ty_addable(types: Seq<Ty>, ty: Ty) -> bool {
    &&& ty_parts_below(ty, types.len() as int)
    &&& ty_maps_ok(ty, types.len() as int)
    &&& forall|i: int| 0 <= i < types.len() && ty_infer_id(ty) is Some && #[trigger] ty_infer_id(types[i]) == ty_infer_id(ty)
        ==> ty_equiv(types[i], ty)
}

/// The id that allocating `ty` in `types` gives: that of the first equal type, or a new one.
pub open spec fn alloc_id(types: Seq<Ty>, ty: Ty) -> int {
    if exists|i: int| 0 <= i < types.len() && ty_equiv(#[trigger] types[i], ty) {
        choose|i: int| 0 <= i < types.len() && ty_equiv(#[trigger] types[i], ty)
            && forall|j: int| 0 <= j < i ==> !ty_equiv(#[trigger] types[j], ty)
    } else {
        types.len() as int
    }
}

/// The types after allocating `ty`: unchanged if an equal type exists, else with `ty` added.
pub open spec fn alloc_types(types: Seq<Ty>, ty: Ty) -> Seq<Ty> {
    if exists|i: int| 0 <= i < types.len() && ty_equiv(#[trigger] types[i], ty) {
        types
    } else {
        types.push(ty)
    }
}

pub proof fn lemma_ty_equiv_refl(ty: Ty, n: int)
    requires
        ty_maps_ok(ty, n),
    ensures
        ty_equiv(ty, ty),
{
    match ty {
        Ty::Struct { fields, impl_traits, .. } => {
            lemma_entries_same_map_refl(name_map_entries(fields));
            lemma_entries_same_map_refl(name_map_entries(impl_traits));
        },
        Ty::Trait { functions, .. } => {
            lemma_entries_same_map_refl(name_map_entries(functions));
        },
        _ => {},
    }
}

pub proof fn lemma_entries_lookup_at(e: Seq<(Seq<char>, usize)>, i: int)
    requires
        0 <= i < e.len(),
        entries_keys_unique(e),
    ensures
        entries_lookup(e, e[i].0) == Some(e[i].1),
    decreases i,
{
    if i > 0 {
        assert(e[0].0 != e[i].0);
        let d = e.drop_first();
        assert(entries_keys_unique(d)) by {
            assert forall|a: int, b: int| 0 <= a < b < d.len() implies #[trigger] d[a].0 != #[trigger] d[b].0 by {
                assert(d[a] == e[a + 1] && d[b] == e[b + 1]);
            }
        }
        assert(d[i - 1] == e[i]);
        lemma_entries_lookup_at(d, i - 1);
    }
}

pub proof fn lemma_entries_same_map_refl(e: Seq<(Seq<char>, usize)>)
    requires
        entries_keys_unique(e),
    ensures
        entries_same_map(e, e),
{
    assert forall|i: int| 0 <= i < e.len() implies entries_lookup(e, #[trigger] e[i].0) == Some(e[i].1) by {
        lemma_entries_lookup_at(e, i);
    }
}

/// The types of a program, by id, with the symbol table in use.
#[derive(Debug)]
pub struct TypeContext {
    pub types: Vec<Ty>,
    pub table: TypeTable,
}

impl TypeContext {
    /// Well-formed types and symbol table.
    pub open spec fn wf(self) -> bool {
        types_wf(self.types@) && self.table.wf()
    }

    /// The id of a type equal to `ty`: the first such, if any, else `ty` is added.
    pub fn alloc_type(&mut self, ty: Ty) -> (id: TyId)
        requires
            ty_addable(old(self).types@, ty),
        ensures
            id == alloc_id(old(self).types@, ty),
            final(self).types@ == alloc_types(old(self).types@, ty),
            final(self).table == old(self).table,
            id < final(self).types@.len(),
            ty_equiv(final(self).types@[id as int], ty),
            types_wf(old(self).types@) ==> types_wf(final(self).types@),
    {
        let mut i: usize = 0;
        while i < self.types.len()
            invariant
                0 <= i <= self.types@.len(),
                forall|j: int| 0 <= j < i ==> !ty_equiv(#[trigger] self.types@[j], ty),
            decreases self.types@.len() - i,
        {
            if ty_eq(&self.types[i], &ty) {
                proof {
                    let c = choose|k: int| 0 <= k < self.types@.len() && ty_equiv(#[trigger] self.types@[k], ty)
                        && forall|j: int| 0 <= j < k ==> !ty_equiv(#[trigger] self.types@[j], ty);
                    assert(0 <= c < self.types@.len() && ty_equiv(self.types@[c], ty));
                    if c < i {
                    } else if c > i {
                        assert(!ty_equiv(self.types@[i as int], ty));
                    }
                }
                return i;
            }
            i = i + 1;
        }
        let ghost old_types = self.types@;
        let id = self.types.len();
        proof {
            lemma_ty_equiv_refl(ty, old_types.len() as int);
        }
        self.types.push(ty);
        proof {
            let t = self.types@;
            assert(t == old_types.push(ty));
            if types_wf(old_types) {
                assert forall|k: int| 0 <= k < t.len() implies ty_parts_below(#[trigger] t[k], k) by {
                    if k < old_types.len() {
                        assert(t[k] == old_types[k]);
                    }
                }
                assert forall|k: int| 0 <= k < t.len() implies ty_maps_ok(#[trigger] t[k], t.len() as int) by {
                    if k < old_types.len() {
                        assert(t[k] == old_types[k]);
                        lemma_maps_ok_mono(t[k], old_types.len() as int, t.len() as int);
                    }
                }
                assert forall|a: int, b: int|
                    0 <= a < t.len() && 0 <= b < t.len() && a != b && (#[trigger] ty_infer_id(t[a])) is Some
                    implies ty_infer_id(t[a]) != #[trigger] ty_infer_id(t[b]) by {
                    if a < old_types.len() && b < old_types.len() {
                        assert(t[a] == old_types[a] && t[b] == old_types[b]);
                    } else if a == old_types.len() {
                        assert(t[b] == old_types[b]);
                        if ty_infer_id(t[b]) == ty_infer_id(ty) {
                            assert(ty_equiv(old_types[b], ty));
                        }
                    } else {
                        assert(t[a] == old_types[a]);
                        if ty_infer_id(t[a]) == ty_infer_id(ty) {
                            assert(ty_equiv(old_types[a], ty));
                        }
                    }
                }
            }
        }
        id
    }

    /// The type with id `id`.
    pub fn get(&self, id: TyId) -> (r: &Ty)
        requires
            id < self.types@.len(),
        ensures
            *r == self.types@[id as int],
    {
        &self.types[id]
    }

    /// The type with id `id`, to change in place.
    pub fn get_mut(&mut self, id: TyId) -> (r: &mut Ty)
        requires
            id < old(self).types@.len(),
        ensures
            *r == old(self).types@[id as int],
            final(self).types@ == old(self).types@.update(id as int, *final(r)),
            final(self).table == old(self).table,
    {
        &mut self.types[id]
    }
}

pub proof fn lemma_maps_ok_mono(ty: Ty, n: int, m: int)
    requires
        ty_maps_ok(ty, n),
        n <= m,
    ensures
        ty_maps_ok(ty, m),
{
}

/// The built-in type names and the types they denote.
pub open spec fn builtin_type(name: Seq<char>) -> Option<Ty> {
    if name == "str"@ {
        Some(Ty::Str)
    } else if name == "BigInt"@ {
        Some(Ty::BigInt)
    } else if name == "bool"@ {
        Some(Ty::Bool)
    } else if name == "unit"@ {
        Some(Ty::Unit)
    } else if name == "i64"@ {
        Some(Ty::IntTy(IntTy::I64))
    } else if name == "i32"@ {
        Some(Ty::IntTy(IntTy::I32))
    } else if name == "i16"@ {
        Some(Ty::IntTy(IntTy::I16))
    } else if name == "i8"@ {
        Some(Ty::IntTy(IntTy::I8))
    } else if name == "isize"@ {
        Some(Ty::IntTy(IntTy::ISize))
    } else if name == "u64"@ {
        Some(Ty::IntTy(IntTy::U64))
    } else if name == "u32"@ {
        Some(Ty::IntTy(IntTy::U32))
    } else if name == "u16"@ {
        Some(Ty::IntTy(IntTy::U16))
    } else if name == "u8"@ {
        Some(Ty::IntTy(IntTy::U8))
    } else if name == "usize"@ {
        Some(Ty::IntTy(IntTy::USize))
    } else {
        None
    }
}

/// Whether the innermost scope binds `name` to a variable whose type equals `ty`.
pub open spec fn binds(scope: ScopeView, types: Seq<Ty>, name: Seq<char>, ty: Ty) -> bool {
    scope_lookup(scope, name) matches Some(SymbolType::Variable(i)) && i < types.len() && ty_equiv(types[i as int], ty)
}

impl TypeTable {
    /// Allocates `ty` and binds `name` to it in the innermost scope.
    fn define_builtin(&mut self, tcx: &mut TypeContext, name: &str, ty: Ty)
        requires
            old(self).wf(),
            types_wf(old(tcx).types@),
            ty_infer_id(ty) is None,
            ty_parts_below(ty, 0),
            ty_maps_ok(ty, 0),
        ensures
            final(self).wf(),
            types_wf(final(tcx).types@),
            final(tcx).table == old(tcx).table,
            old(tcx).types@.len() <= final(tcx).types@.len(),
            forall|i: int| 0 <= i < old(tcx).types@.len() ==> final(tcx).types@[i] == old(tcx).types@[i],
            final(self).scopes().len() == old(self).scopes().len(),
            forall|i: int| 1 <= i < old(self).scopes().len() ==> final(self).scopes()[i] == old(self).scopes()[i],
            binds(final(self).scopes()[0], final(tcx).types@, name@, ty),
            final(tcx).types@ == alloc_types(old(tcx).types@, ty),
            forall|n: Seq<char>, t: Ty| n != name@ && #[trigger] binds(old(self).scopes()[0], old(tcx).types@, n, t)
                ==> binds(final(self).scopes()[0], final(tcx).types@, n, t),
            forall|n: Seq<char>| n != name@ ==> #[trigger] scope_lookup(final(self).scopes()[0], n) == scope_lookup(old(self).scopes()[0], n),
    {
        proof {
            lemma_maps_ok_mono(ty, 0, old(tcx).types@.len() as int);
        }
        let id = tcx.alloc_type(ty);
        let ghost s0 = old(self).scopes()[0];
        proof {
            old(self).lemma_scopes_len();
        }
        self.define_var(name, id);
        proof {
            assert(scope_names_unique(s0));
            lemma_scope_insert_lookup(s0, name@, SymbolType::Variable(id), name@);
            assert forall|n: Seq<char>| n != name@ implies #[trigger] scope_lookup(self.scopes()[0], n) == scope_lookup(s0, n) by {
                lemma_scope_insert_lookup(s0, name@, SymbolType::Variable(id), n);
            }
            assert forall|n: Seq<char>, t: Ty| n != name@ && #[trigger] binds(s0, old(tcx).types@, n, t)
                implies binds(self.scopes()[0], tcx.types@, n, t) by {
                lemma_scope_insert_lookup(s0, name@, SymbolType::Variable(id), n);
            }
        }
    }

    /// Binds the built-in type names (`str`, `BigInt`, `bool`, `unit` and the integer
    /// types) in the innermost scope, each to a variable of the type it denotes.
    #[verifier::rlimit(100)]
    pub fn init_table(&mut self, tcx: &mut TypeContext)
        requires
            old(self).wf(),
            types_wf(old(tcx).types@),
        ensures
            final(self).wf(),
            types_wf(final(tcx).types@),
            final(tcx).table == old(tcx).table,
            old(tcx).types@.len() <= final(tcx).types@.len(),
            forall|i: int| 0 <= i < old(tcx).types@.len() ==> final(tcx).types@[i] == old(tcx).types@[i],
            final(self).scopes().len() == old(self).scopes().len(),
            forall|i: int| 1 <= i < old(self).scopes().len() ==> final(self).scopes()[i] == old(self).scopes()[i],
            forall|n: Seq<char>| #[trigger] builtin_type(n) is Some ==> binds(final(self).scopes()[0], final(tcx).types@, n, builtin_type(n).unwrap()),
            forall|n: Seq<char>| builtin_type(n) is None ==> #[trigger] scope_lookup(final(self).scopes()[0], n) == scope_lookup(old(self).scopes()[0], n),
            final(tcx).types@ == builtin_chain(old(tcx).types@),
    {
        proof {
            reveal_strlit("str");
            reveal_strlit("BigInt");
            reveal_strlit("bool");
            reveal_strlit("unit");
            reveal_strlit("i64");
            reveal_strlit("i32");
            reveal_strlit("i16");
            reveal_strlit("i8");
            reveal_strlit("isize");
            reveal_strlit("u64");
            reveal_strlit("u32");
            reveal_strlit("u16");
            reveal_strlit("u8");
            reveal_strlit("usize");
        }
        self.define_builtin(tcx, "str", Ty::Str);
        proof {
            assert(binds(self.scopes()[0], tcx.types@, "str"@, Ty::Str));
        }
        self.define_builtin(tcx, "BigInt", Ty::BigInt);
        proof {
            assert("str"@.len() != "BigInt"@.len());
            assert("str"@ != "BigInt"@);
            assert(binds(self.scopes()[0], tcx.types@, "str"@, Ty::Str));
            assert(binds(self.scopes()[0], tcx.types@, "BigInt"@, Ty::BigInt));
        }
        self.define_builtin(tcx, "bool", Ty::Bool);
        proof {
            assert("str"@.len() != "bool"@.len());
            assert("str"@ != "bool"@);
            assert("BigInt"@.len() != "bool"@.len());
            assert("BigInt"@ != "bool"@);
            assert(binds(self.scopes()[0], tcx.types@, "str"@, Ty::Str));
            assert(binds(self.scopes()[0], tcx.types@, "BigInt"@, Ty::BigInt));
            assert(binds(self.scopes()[0], tcx.types@, "bool"@, Ty::Bool));
        }
        self.define_builtin(tcx, "unit", Ty::Unit);
        proof {
            assert("str"@.len() != "unit"@.len());
            assert("str"@ != "unit"@);
            assert("BigInt"@.len() != "unit"@.len());
            assert("BigInt"@ != "unit"@);
            assert("bool"@[0] != "unit"@[0]);
            assert("bool"@ != "unit"@);
            assert(binds(self.scopes()[0], tcx.types@, "str"@, Ty::Str));
            assert(binds(self.scopes()[0], tcx.types@, "BigInt"@, Ty::BigInt));
            assert(binds(self.scopes()[0], tcx.types@, "bool"@, Ty::Bool));
            assert(binds(self.scopes()[0], tcx.types@, "unit"@, Ty::Unit));
        }
        self.define_builtin(tcx, "i64", Ty::IntTy(IntTy::I64));
        proof {
            assert("str"@[0] != "i64"@[0]);
            assert("str"@ != "i64"@);
            assert("BigInt"@.len() != "i64"@.len());
            assert("BigInt"@ != "i64"@);
            assert("bool"@.len() != "i64"@.len());
            assert("bool"@ != "i64"@);
            assert("unit"@.len() != "i64"@.len());
            assert("unit"@ != "i64"@);
            assert(binds(self.scopes()[0], tcx.types@, "str"@, Ty::Str));
            assert(binds(self.scopes()[0], tcx.types@, "BigInt"@, Ty::BigInt));
            assert(binds(self.scopes()[0], tcx.types@, "bool"@, Ty::Bool));
            assert(binds(self.scopes()[0], tcx.types@, "unit"@, Ty::Unit));
            assert(binds(self.scopes()[0], tcx.types@, "i64"@, Ty::IntTy(IntTy::I64)));
        }
        self.define_builtin(tcx, "i32", Ty::IntTy(IntTy::I32));
        proof {
            assert("str"@[0] != "i32"@[0]);
            assert("str"@ != "i32"@);
            assert("BigInt"@.len() != "i32"@.len());
            assert("BigInt"@ != "i32"@);
            assert("bool"@.len() != "i32"@.len());
            assert("bool"@ != "i32"@);
            assert("unit"@.len() != "i32"@.len());
            assert("unit"@ != "i32"@);
            assert("i64"@[1] != "i32"@[1]);
            assert("i64"@ != "i32"@);
            assert(binds(self.scopes()[0], tcx.types@, "str"@, Ty::Str));
            assert(binds(self.scopes()[0], tcx.types@, "BigInt"@, Ty::BigInt));
            assert(binds(self.scopes()[0], tcx.types@, "bool"@, Ty::Bool));
            assert(binds(self.scopes()[0], tcx.types@, "unit"@, Ty::Unit));
            assert(binds(self.scopes()[0], tcx.types@, "i64"@, Ty::IntTy(IntTy::I64)));
            assert(binds(self.scopes()[0], tcx.types@, "i32"@, Ty::IntTy(IntTy::I32)));
        }
        self.define_builtin(tcx, "i16", Ty::IntTy(IntTy::I16));
        proof {
            assert("str"@[0] != "i16"@[0]);
            assert("str"@ != "i16"@);
            assert("BigInt"@.len() != "i16"@.len());
            assert("BigInt"@ != "i16"@);
            assert("bool"@.len() != "i16"@.len());
            assert("bool"@ != "i16"@);
            assert("unit"@.len() != "i16"@.len());
            assert("unit"@ != "i16"@);
            assert("i64"@[1] != "i16"@[1]);
            assert("i64"@ != "i16"@);
            assert("i32"@[1] != "i16"@[1]);
            assert("i32"@ != "i16"@);
            assert(binds(self.scopes()[0], tcx.types@, "str"@, Ty::Str));
            assert(binds(self.scopes()[0], tcx.types@, "BigInt"@, Ty::BigInt));
            assert(binds(self.scopes()[0], tcx.types@, "bool"@, Ty::Bool));
            assert(binds(self.scopes()[0], tcx.types@, "unit"@, Ty::Unit));
            assert(binds(self.scopes()[0], tcx.types@, "i64"@, Ty::IntTy(IntTy::I64)));
            assert(binds(self.scopes()[0], tcx.types@, "i32"@, Ty::IntTy(IntTy::I32)));
            assert(binds(self.scopes()[0], tcx.types@, "i16"@, Ty::IntTy(IntTy::I16)));
        }
        self.define_builtin(tcx, "i8", Ty::IntTy(IntTy::I8));
        proof {
            assert("str"@.len() != "i8"@.len());
            assert("str"@ != "i8"@);
            assert("BigInt"@.len() != "i8"@.len());
            assert("BigInt"@ != "i8"@);
            assert("bool"@.len() != "i8"@.len());
            assert("bool"@ != "i8"@);
            assert("unit"@.len() != "i8"@.len());
            assert("unit"@ != "i8"@);
            assert("i64"@.len() != "i8"@.len());
            assert("i64"@ != "i8"@);
            assert("i32"@.len() != "i8"@.len());
            assert("i32"@ != "i8"@);
            assert("i16"@.len() != "i8"@.len());
            assert("i16"@ != "i8"@);
            assert(binds(self.scopes()[0], tcx.types@, "str"@, Ty::Str));
            assert(binds(self.scopes()[0], tcx.types@, "BigInt"@, Ty::BigInt));
            assert(binds(self.scopes()[0], tcx.types@, "bool"@, Ty::Bool));
            assert(binds(self.scopes()[0], tcx.types@, "unit"@, Ty::Unit));
            assert(binds(self.scopes()[0], tcx.types@, "i64"@, Ty::IntTy(IntTy::I64)));
            assert(binds(self.scopes()[0], tcx.types@, "i32"@, Ty::IntTy(IntTy::I32)));
            assert(binds(self.scopes()[0], tcx.types@, "i16"@, Ty::IntTy(IntTy::I16)));
            assert(binds(self.scopes()[0], tcx.types@, "i8"@, Ty::IntTy(IntTy::I8)));
        }
        self.define_builtin(tcx, "isize", Ty::IntTy(IntTy::ISize));
        proof {
            assert("str"@.len() != "isize"@.len());
            assert("str"@ != "isize"@);
            assert("BigInt"@.len() != "isize"@.len());
            assert("BigInt"@ != "isize"@);
            assert("bool"@.len() != "isize"@.len());
            assert("bool"@ != "isize"@);
            assert("unit"@.len() != "isize"@.len());
            assert("unit"@ != "isize"@);
            assert("i64"@.len() != "isize"@.len());
            assert("i64"@ != "isize"@);
            assert("i32"@.len() != "isize"@.len());
            assert("i32"@ != "isize"@);
            assert("i16"@.len() != "isize"@.len());
            assert("i16"@ != "isize"@);
            assert("i8"@.len() != "isize"@.len());
            assert("i8"@ != "isize"@);
            assert(binds(self.scopes()[0], tcx.types@, "str"@, Ty::Str));
            assert(binds(self.scopes()[0], tcx.types@, "BigInt"@, Ty::BigInt));
            assert(binds(self.scopes()[0], tcx.types@, "bool"@, Ty::Bool));
            assert(binds(self.scopes()[0], tcx.types@, "unit"@, Ty::Unit));
            assert(binds(self.scopes()[0], tcx.types@, "i64"@, Ty::IntTy(IntTy::I64)));
            assert(binds(self.scopes()[0], tcx.types@, "i32"@, Ty::IntTy(IntTy::I32)));
            assert(binds(self.scopes()[0], tcx.types@, "i16"@, Ty::IntTy(IntTy::I16)));
            assert(binds(self.scopes()[0], tcx.types@, "i8"@, Ty::IntTy(IntTy::I8)));
            assert(binds(self.scopes()[0], tcx.types@, "isize"@, Ty::IntTy(IntTy::ISize)));
        }
        self.define_builtin(tcx, "u64", Ty::IntTy(IntTy::U64));
        proof {
            assert("str"@[0] != "u64"@[0]);
            assert("str"@ != "u64"@);
            assert("BigInt"@.len() != "u64"@.len());
            assert("BigInt"@ != "u64"@);
            assert("bool"@.len() != "u64"@.len());
            assert("bool"@ != "u64"@);
            assert("unit"@.len() != "u64"@.len());
            assert("unit"@ != "u64"@);
            assert("i64"@[0] != "u64"@[0]);
            assert("i64"@ != "u64"@);
            assert("i32"@[0] != "u64"@[0]);
            assert("i32"@ != "u64"@);
            assert("i16"@[0] != "u64"@[0]);
            assert("i16"@ != "u64"@);
            assert("i8"@.len() != "u64"@.len());
            assert("i8"@ != "u64"@);
            assert("isize"@.len() != "u64"@.len());
            assert("isize"@ != "u64"@);
            assert(binds(self.scopes()[0], tcx.types@, "str"@, Ty::Str));
            assert(binds(self.scopes()[0], tcx.types@, "BigInt"@, Ty::BigInt));
            assert(binds(self.scopes()[0], tcx.types@, "bool"@, Ty::Bool));
            assert(binds(self.scopes()[0], tcx.types@, "unit"@, Ty::Unit));
            assert(binds(self.scopes()[0], tcx.types@, "i64"@, Ty::IntTy(IntTy::I64)));
            assert(binds(self.scopes()[0], tcx.types@, "i32"@, Ty::IntTy(IntTy::I32)));
            assert(binds(self.scopes()[0], tcx.types@, "i16"@, Ty::IntTy(IntTy::I16)));
            assert(binds(self.scopes()[0], tcx.types@, "i8"@, Ty::IntTy(IntTy::I8)));
            assert(binds(self.scopes()[0], tcx.types@, "isize"@, Ty::IntTy(IntTy::ISize)));
            assert(binds(self.scopes()[0], tcx.types@, "u64"@, Ty::IntTy(IntTy::U64)));
        }
        self.define_builtin(tcx, "u32", Ty::IntTy(IntTy::U32));
        proof {
            assert("str"@[0] != "u32"@[0]);
            assert("str"@ != "u32"@);
            assert("BigInt"@.len() != "u32"@.len());
            assert("BigInt"@ != "u32"@);
            assert("bool"@.len() != "u32"@.len());
            assert("bool"@ != "u32"@);
            assert("unit"@.len() != "u32"@.len());
            assert("unit"@ != "u32"@);
            assert("i64"@[0] != "u32"@[0]);
            assert("i64"@ != "u32"@);
            assert("i32"@[0] != "u32"@[0]);
            assert("i32"@ != "u32"@);
            assert("i16"@[0] != "u32"@[0]);
            assert("i16"@ != "u32"@);
            assert("i8"@.len() != "u32"@.len());
            assert("i8"@ != "u32"@);
            assert("isize"@.len() != "u32"@.len());
            assert("isize"@ != "u32"@);
            assert("u64"@[1] != "u32"@[1]);
            assert("u64"@ != "u32"@);
            assert(binds(self.scopes()[0], tcx.types@, "str"@, Ty::Str));
            assert(binds(self.scopes()[0], tcx.types@, "BigInt"@, Ty::BigInt));
            assert(binds(self.scopes()[0], tcx.types@, "bool"@, Ty::Bool));
            assert(binds(self.scopes()[0], tcx.types@, "unit"@, Ty::Unit));
            assert(binds(self.scopes()[0], tcx.types@, "i64"@, Ty::IntTy(IntTy::I64)));
            assert(binds(self.scopes()[0], tcx.types@, "i32"@, Ty::IntTy(IntTy::I32)));
            assert(binds(self.scopes()[0], tcx.types@, "i16"@, Ty::IntTy(IntTy::I16)));
            assert(binds(self.scopes()[0], tcx.types@, "i8"@, Ty::IntTy(IntTy::I8)));
            assert(binds(self.scopes()[0], tcx.types@, "isize"@, Ty::IntTy(IntTy::ISize)));
            assert(binds(self.scopes()[0], tcx.types@, "u64"@, Ty::IntTy(IntTy::U64)));
            assert(binds(self.scopes()[0], tcx.types@, "u32"@, Ty::IntTy(IntTy::U32)));
        }
        self.define_builtin(tcx, "u16", Ty::IntTy(IntTy::U16));
        proof {
            assert("str"@[0] != "u16"@[0]);
            assert("str"@ != "u16"@);
            assert("BigInt"@.len() != "u16"@.len());
            assert("BigInt"@ != "u16"@);
            assert("bool"@.len() != "u16"@.len());
            assert("bool"@ != "u16"@);
            assert("unit"@.len() != "u16"@.len());
            assert("unit"@ != "u16"@);
            assert("i64"@[0] != "u16"@[0]);
            assert("i64"@ != "u16"@);
            assert("i32"@[0] != "u16"@[0]);
            assert("i32"@ != "u16"@);
            assert("i16"@[0] != "u16"@[0]);
            assert("i16"@ != "u16"@);
            assert("i8"@.len() != "u16"@.len());
            assert("i8"@ != "u16"@);
            assert("isize"@.len() != "u16"@.len());
            assert("isize"@ != "u16"@);
            assert("u64"@[1] != "u16"@[1]);
            assert("u64"@ != "u16"@);
            assert("u32"@[1] != "u16"@[1]);
            assert("u32"@ != "u16"@);
            assert(binds(self.scopes()[0], tcx.types@, "str"@, Ty::Str));
            assert(binds(self.scopes()[0], tcx.types@, "BigInt"@, Ty::BigInt));
            assert(binds(self.scopes()[0], tcx.types@, "bool"@, Ty::Bool));
            assert(binds(self.scopes()[0], tcx.types@, "unit"@, Ty::Unit));
            assert(binds(self.scopes()[0], tcx.types@, "i64"@, Ty::IntTy(IntTy::I64)));
            assert(binds(self.scopes()[0], tcx.types@, "i32"@, Ty::IntTy(IntTy::I32)));
            assert(binds(self.scopes()[0], tcx.types@, "i16"@, Ty::IntTy(IntTy::I16)));
            assert(binds(self.scopes()[0], tcx.types@, "i8"@, Ty::IntTy(IntTy::I8)));
            assert(binds(self.scopes()[0], tcx.types@, "isize"@, Ty::IntTy(IntTy::ISize)));
            assert(binds(self.scopes()[0], tcx.types@, "u64"@, Ty::IntTy(IntTy::U64)));
            assert(binds(self.scopes()[0], tcx.types@, "u32"@, Ty::IntTy(IntTy::U32)));
            assert(binds(self.scopes()[0], tcx.types@, "u16"@, Ty::IntTy(IntTy::U16)));
        }
        self.define_builtin(tcx, "u8", Ty::IntTy(IntTy::U8));
        proof {
            assert("str"@.len() != "u8"@.len());
            assert("str"@ != "u8"@);
            assert("BigInt"@.len() != "u8"@.len());
            assert("BigInt"@ != "u8"@);
            assert("bool"@.len() != "u8"@.len());
            assert("bool"@ != "u8"@);
            assert("unit"@.len() != "u8"@.len());
            assert("unit"@ != "u8"@);
            assert("i64"@.len() != "u8"@.len());
            assert("i64"@ != "u8"@);
            assert("i32"@.len() != "u8"@.len());
            assert("i32"@ != "u8"@);
            assert("i16"@.len() != "u8"@.len());
            assert("i16"@ != "u8"@);
            assert("i8"@[0] != "u8"@[0]);
            assert("i8"@ != "u8"@);
            assert("isize"@.len() != "u8"@.len());
            assert("isize"@ != "u8"@);
            assert("u64"@.len() != "u8"@.len());
            assert("u64"@ != "u8"@);
            assert("u32"@.len() != "u8"@.len());
            assert("u32"@ != "u8"@);
            assert("u16"@.len() != "u8"@.len());
            assert("u16"@ != "u8"@);
            assert(binds(self.scopes()[0], tcx.types@, "str"@, Ty::Str));
            assert(binds(self.scopes()[0], tcx.types@, "BigInt"@, Ty::BigInt));
            assert(binds(self.scopes()[0], tcx.types@, "bool"@, Ty::Bool));
            assert(binds(self.scopes()[0], tcx.types@, "unit"@, Ty::Unit));
            assert(binds(self.scopes()[0], tcx.types@, "i64"@, Ty::IntTy(IntTy::I64)));
            assert(binds(self.scopes()[0], tcx.types@, "i32"@, Ty::IntTy(IntTy::I32)));
            assert(binds(self.scopes()[0], tcx.types@, "i16"@, Ty::IntTy(IntTy::I16)));
            assert(binds(self.scopes()[0], tcx.types@, "i8"@, Ty::IntTy(IntTy::I8)));
            assert(binds(self.scopes()[0], tcx.types@, "isize"@, Ty::IntTy(IntTy::ISize)));
            assert(binds(self.scopes()[0], tcx.types@, "u64"@, Ty::IntTy(IntTy::U64)));
            assert(binds(self.scopes()[0], tcx.types@, "u32"@, Ty::IntTy(IntTy::U32)));
            assert(binds(self.scopes()[0], tcx.types@, "u16"@, Ty::IntTy(IntTy::U16)));
            assert(binds(self.scopes()[0], tcx.types@, "u8"@, Ty::IntTy(IntTy::U8)));
        }
        self.define_builtin(tcx, "usize", Ty::IntTy(IntTy::USize));
        proof {
            assert("str"@.len() != "usize"@.len());
            assert("str"@ != "usize"@);
            assert("BigInt"@.len() != "usize"@.len());
            assert("BigInt"@ != "usize"@);
            assert("bool"@.len() != "usize"@.len());
            assert("bool"@ != "usize"@);
            assert("unit"@.len() != "usize"@.len());
            assert("unit"@ != "usize"@);
            assert("i64"@.len() != "usize"@.len());
            assert("i64"@ != "usize"@);
            assert("i32"@.len() != "usize"@.len());
            assert("i32"@ != "usize"@);
            assert("i16"@.len() != "usize"@.len());
            assert("i16"@ != "usize"@);
            assert("i8"@.len() != "usize"@.len());
            assert("i8"@ != "usize"@);
            assert("isize"@[0] != "usize"@[0]);
            assert("isize"@ != "usize"@);
            assert("u64"@.len() != "usize"@.len());
            assert("u64"@ != "usize"@);
            assert("u32"@.len() != "usize"@.len());
            assert("u32"@ != "usize"@);
            assert("u16"@.len() != "usize"@.len());
            assert("u16"@ != "usize"@);
            assert("u8"@.len() != "usize"@.len());
            assert("u8"@ != "usize"@);
            assert(binds(self.scopes()[0], tcx.types@, "str"@, Ty::Str));
            assert(binds(self.scopes()[0], tcx.types@, "BigInt"@, Ty::BigInt));
            assert(binds(self.scopes()[0], tcx.types@, "bool"@, Ty::Bool));
            assert(binds(self.scopes()[0], tcx.types@, "unit"@, Ty::Unit));
            assert(binds(self.scopes()[0], tcx.types@, "i64"@, Ty::IntTy(IntTy::I64)));
            assert(binds(self.scopes()[0], tcx.types@, "i32"@, Ty::IntTy(IntTy::I32)));
            assert(binds(self.scopes()[0], tcx.types@, "i16"@, Ty::IntTy(IntTy::I16)));
            assert(binds(self.scopes()[0], tcx.types@, "i8"@, Ty::IntTy(IntTy::I8)));
            assert(binds(self.scopes()[0], tcx.types@, "isize"@, Ty::IntTy(IntTy::ISize)));
            assert(binds(self.scopes()[0], tcx.types@, "u64"@, Ty::IntTy(IntTy::U64)));
            assert(binds(self.scopes()[0], tcx.types@, "u32"@, Ty::IntTy(IntTy::U32)));
            assert(binds(self.scopes()[0], tcx.types@, "u16"@, Ty::IntTy(IntTy::U16)));
            assert(binds(self.scopes()[0], tcx.types@, "u8"@, Ty::IntTy(IntTy::U8)));
            assert(binds(self.scopes()[0], tcx.types@, "usize"@, Ty::IntTy(IntTy::USize)));
        }
        proof {
            assert forall|n: Seq<char>| #[trigger] builtin_type(n) is Some implies binds(self.scopes()[0], tcx.types@, n, builtin_type(n).unwrap()) by {
            }
        }
    }

    /// The table with the built-in type names bound; see `init_table`.
    pub fn init(self, tcx: &mut TypeContext) -> (r: TypeTable)
        requires
            self.wf(),
            types_wf(old(tcx).types@),
        ensures
            r.wf(),
            types_wf(final(tcx).types@),
            final(tcx).table == old(tcx).table,
            old(tcx).types@.len() <= final(tcx).types@.len(),
            forall|i: int| 0 <= i < old(tcx).types@.len() ==> final(tcx).types@[i] == old(tcx).types@[i],
            r.scopes().len() == self.scopes().len(),
            forall|i: int| 1 <= i < self.scopes().len() ==> r.scopes()[i] == self.scopes()[i],
            forall|n: Seq<char>| #[trigger] builtin_type(n) is Some ==> binds(r.scopes()[0], final(tcx).types@, n, builtin_type(n).unwrap()),
            forall|n: Seq<char>| builtin_type(n) is None ==> #[trigger] scope_lookup(r.scopes()[0], n) == scope_lookup(self.scopes()[0], n),
            final(tcx).types@ == builtin_chain(old(tcx).types@),
    {
        let mut me = self;
        me.init_table(tcx);
        me
    }
}

/// The built-in types in the order they are added: `str`, `BigInt`, `bool`, `unit`, then the
/// signed and the unsigned integer types from the widest down, each size before `isize` or
/// `usize`.
pub open spec fn builtin_types() -> Seq<Ty> {
    seq![Ty::Str, Ty::BigInt, Ty::Bool, Ty::Unit, Ty::IntTy(IntTy::I64), Ty::IntTy(IntTy::I32), Ty::IntTy(IntTy::I16),
        Ty::IntTy(IntTy::I8), Ty::IntTy(IntTy::ISize), Ty::IntTy(IntTy::U64), Ty::IntTy(IntTy::U32), Ty::IntTy(IntTy::U16),
        Ty::IntTy(IntTy::U8), Ty::IntTy(IntTy::USize)]
}

/// The types after adding the built-in types to `s`, one by one, each only if no equal type
/// is there.
pub open spec fn builtin_chain(s: Seq<Ty>) -> Seq<Ty> {
    let s = alloc_types(s, Ty::Str);
    let s = alloc_types(s, Ty::BigInt);
    let s = alloc_types(s, Ty::Bool);
    let s = alloc_types(s, Ty::Unit);
    let s = alloc_types(s, Ty::IntTy(IntTy::I64));
    let s = alloc_types(s, Ty::IntTy(IntTy::I32));
    let s = alloc_types(s, Ty::IntTy(IntTy::I16));
    let s = alloc_types(s, Ty::IntTy(IntTy::I8));
    let s = alloc_types(s, Ty::IntTy(IntTy::ISize));
    let s = alloc_types(s, Ty::IntTy(IntTy::U64));
    let s = alloc_types(s, Ty::IntTy(IntTy::U32));
    let s = alloc_types(s, Ty::IntTy(IntTy::U16));
    let s = alloc_types(s, Ty::IntTy(IntTy::U8));
    alloc_types(s, Ty::IntTy(IntTy::USize))
}

/// Adding a type that no type of `s` equals appends it.
pub proof fn lemma_alloc_fresh(s: Seq<Ty>, ty: Ty)
    requires
        forall|i: int| 0 <= i < s.len() ==> !ty_equiv(#[trigger] s[i], ty),
    ensures
        alloc_types(s, ty) == s.push(ty),
{
}

/// Adding the built-in type at index `j` to the first `j` built-in types appends it.
pub proof fn lemma_builtin_step(j: int)
    requires
        0 <= j < builtin_types().len(),
    ensures
        alloc_types(builtin_types().take(j), builtin_types()[j]) == builtin_types().take(j + 1),
{
    let b = builtin_types();
    assert forall|i: int| 0 <= i < b.take(j).len() implies !ty_equiv(#[trigger] b.take(j)[i], b[j]) by {
        assert(b.take(j)[i] == b[i]);
    }
    lemma_alloc_fresh(b.take(j), b[j]);
    assert(b.take(j + 1) =~= b.take(j).push(b[j]));
}

/// From no types, adding the built-in types gives exactly them, in order.
pub proof fn lemma_builtin_chain_empty()
    ensures
        builtin_chain(Seq::empty()) == builtin_types(),
{
    let b = builtin_types();
    assert(b.take(0) =~= Seq::<Ty>::empty());
    lemma_builtin_step(0);
    lemma_builtin_step(1);
    lemma_builtin_step(2);
    lemma_builtin_step(3);
    lemma_builtin_step(4);
    lemma_builtin_step(5);
    lemma_builtin_step(6);
    lemma_builtin_step(7);
    lemma_builtin_step(8);
    lemma_builtin_step(9);
    lemma_builtin_step(10);
    lemma_builtin_step(11);
    lemma_builtin_step(12);
    lemma_builtin_step(13);
    assert(b.take(14) =~= b);
}

impl TypeContext {
    /// A context whose table binds the built-in type names, in one scope.
    pub fn new() -> (r: TypeContext)
        ensures
            r.wf(),
            r.table.scopes().len() == 1,
            forall|n: Seq<char>| #[trigger] builtin_type(n) is Some ==> binds(r.table.scopes()[0], r.types@, n, builtin_type(n).unwrap()),
            forall|n: Seq<char>| builtin_type(n) is None ==> #[trigger] r.table.lookup(n) is None,
            r.types@ == builtin_types(),
    {
        let mut me = TypeContext { types: Vec::new(), table: TypeTable::new() };
        let new_table = TypeTable::new().init(&mut me);
        me.table = new_table;
        proof {
            lemma_builtin_chain_empty();
            me.table.lemma_scopes_len();
            assert forall|n: Seq<char>| builtin_type(n) is None implies #[trigger] me.table.lookup(n) is None by {
                assert(scope_lookup(ScopeView::empty(), n) is None);
                assert(scope_lookup(me.table.scopes()[0], n) is None);
                assert(scopes_lookup(me.table.scopes().drop_first(), n) is None);
                assert(me.table.scopes().drop_first().len() == 0);
            }
        }
        me
    }
}

} // verus!
