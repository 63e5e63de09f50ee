//! The state of type inference: the module being inferred, the substitution that binds
//! inference variables to types, and the next fresh variable id.
use std::collections::HashMap;
use crate::module::TypedModule;
use crate::ty::{Ty, TyId};
use crate::ty_context::{alloc_id, alloc_types, ty_infer_id, types_wf, TypeContext};
use vstd::prelude::*;

verus! {

broadcast use vstd::std_specs::hash::group_hash_axioms;

/// The variable id of the type with id `id`, if it is a plain (`int_kind` false) or an
/// integer (`int_kind` true) inference variable.
pub open spec fn var_of(types: Seq<Ty>, id: int, int_kind: bool) -> Option<usize> {
    if 0 <= id < types.len() {
        match types[id] {
            Ty::Infer(k) => if !int_kind { Some(k) } else { None },
            Ty::InferInt(k) => if int_kind { Some(k) } else { None },
            _ => None,
        }
    } else {
        None
    }
}

/// Follows the bindings of variables of one kind from `id`, for at most `fuel` steps:
/// the first type reached that is not a bound variable of that kind, or `None` if the
/// steps run out.
pub open spec fn chase(types: Seq<Ty>, subst: Map<usize, usize>, id: TyId, int_kind: bool, fuel: nat) -> Option<TyId>
    decreases fuel,
{
    if fuel == 0 {
        None
    } else {
        match var_of(types, id as int, int_kind) {
            Some(k) => if subst.contains_key(k) {
                chase(types, subst, subst[k], int_kind, (fuel - 1) as nat)
            } else {
                Some(id)
            },
            None => Some(id),
        }
    }
}

/// Whether following the bindings from `id` comes to an end.
pub open spec fn chase_ends(types: Seq<Ty>, subst: Map<usize, usize>, id: TyId, int_kind: bool) -> bool {
    exists|f: nat| #[trigger] chase(types, subst, id, int_kind, f) is Some
}

/// Where following the bindings from `id` ends.
pub open spec fn chase_end(types: Seq<Ty>, subst: Map<usize, usize>, id: TyId, int_kind: bool) -> TyId {
    chase(types, subst, id, int_kind, choose|f: nat| #[trigger] chase(types, subst, id, int_kind, f) is Some).unwrap()
}

/// Where following the bindings of plain variables from `id` ends.
pub open spec fn follow_spec(types: Seq<Ty>, subst: Map<usize, usize>, id: TyId) -> TyId {
    chase_end(types, subst, id, false)
}

/// Where following the bindings of integer variables from `id` ends.
pub open spec fn follow_int_spec(types: Seq<Ty>, subst: Map<usize, usize>, id: TyId) -> TyId {
    chase_end(types, subst, id, true)
}

/// Where following the bindings of plain variables, then of integer variables, from `id`
/// ends.
pub open spec fn follow_all_spec(types: Seq<Ty>, subst: Map<usize, usize>, id: TyId) -> TyId {
    follow_int_spec(types, subst, follow_spec(types, subst, id))
}

/// A consistent inference state: well-formed types; bindings to existing types; integer
/// variables bound only to integer types or integer variables; and no endless chain of
/// bindings.
pub open spec fn infer_wf(types: Seq<Ty>, subst: Map<usize, usize>) -> bool {
    &&& types_wf(types)
    &&& forall|k: usize| #[trigger] subst.contains_key(k) ==> subst[k] < types.len()
    &&& forall|i: int| 0 <= i < types.len() && (#[trigger] var_of(types, i, true)) is Some
        && subst.contains_key(var_of(types, i, true).unwrap())
        ==> (types[subst[var_of(types, i, true).unwrap()] as int] is IntTy
            || types[subst[var_of(types, i, true).unwrap()] as int] is InferInt)
    &&& forall|i: TyId| i < types.len() ==> #[trigger] chase_ends(types, subst, i, false)
    &&& forall|i: TyId| i < types.len() ==> #[trigger] chase_ends(types, subst, i, true)
}

pub proof fn lemma_chase_mono(types: Seq<Ty>, subst: Map<usize, usize>, id: TyId, int_kind: bool, f: nat, g: nat)
    requires
        chase(types, subst, id, int_kind, f) is Some,
        f <= g,
    ensures
        chase(types, subst, id, int_kind, g) == chase(types, subst, id, int_kind, f),
    decreases f,
{
    match var_of(types, id as int, int_kind) {
        Some(k) => if subst.contains_key(k) {
            lemma_chase_mono(types, subst, subst[k], int_kind, (f - 1) as nat, (g - 1) as nat);
        },
        None => {},
    }
}

pub proof fn lemma_chase_end(types: Seq<Ty>, subst: Map<usize, usize>, id: TyId, int_kind: bool, f: nat)
    requires
        chase(types, subst, id, int_kind, f) is Some,
    ensures
        chase_ends(types, subst, id, int_kind),
        chase_end(types, subst, id, int_kind) == chase(types, subst, id, int_kind, f).unwrap(),
{
    let c = choose|f: nat| #[trigger] chase(types, subst, id, int_kind, f) is Some;
    if c <= f {
        lemma_chase_mono(types, subst, id, int_kind, c, f);
    } else {
        lemma_chase_mono(types, subst, id, int_kind, f, c);
    }
}

/// Where a chain of bindings ends is a type that is not a bound variable of that kind.
pub proof fn lemma_chase_end_unbound(types: Seq<Ty>, subst: Map<usize, usize>, id: TyId, int_kind: bool, f: nat)
    requires
        chase(types, subst, id, int_kind, f) is Some,
    ensures
        var_of(types, chase(types, subst, id, int_kind, f).unwrap() as int, int_kind) matches Some(k) ==> !subst.contains_key(k),
    decreases f,
{
    match var_of(types, id as int, int_kind) {
        Some(k) => if subst.contains_key(k) {
            lemma_chase_end_unbound(types, subst, subst[k], int_kind, (f - 1) as nat);
        },
        None => {},
    }
}

/// The inference state.
pub struct InferContext {
    pub module: TypedModule,
    /// Inference variable id -> the id of the type it is bound to.
    pub substitutions: HashMap<usize, TyId>,
    pub next_infer_id: usize,
}

impl InferContext {
    /// The types of the module.
    pub open spec fn types(self) -> Seq<Ty> {
        self.module.tcx.types@
    }

    /// The bindings of inference variables.
    pub open spec fn subst(self) -> Map<usize, usize> {
        self.substitutions@
    }

    /// The id the next fresh inference variable gets.
    pub open spec fn next_id(self) -> usize {
        self.next_infer_id
    }

    /// A consistent state whose next variable id is fresh.
    pub open spec fn wf(self) -> bool {
        &&& infer_wf(self.types(), self.subst())
        &&& self.module.tcx.table.wf()
        &&& forall|i: int| 0 <= i < self.types().len() && (#[trigger] ty_infer_id(self.types()[i])) is Some
            ==> ty_infer_id(self.types()[i]).unwrap() < self.next_id()
        &&& self.next_id() <= self.types().len()
        &&& forall|k: usize| #[trigger] self.subst().contains_key(k) ==> k < self.next_id()
    }

    /// A state over `module` with no bindings; its variable ids start at 0.
    pub fn new(module: TypedModule) -> (r: InferContext)
        ensures
            r.module == module,
            r.subst() == Map::<usize, usize>::empty(),
            r.next_id() == 0,
    {
        InferContext { module, substitutions: HashMap::new(), next_infer_id: 0 }
    }

    /// Where following the bindings of plain inference variables from `id` ends.
    pub fn follow(&self, id: TyId) -> (r: TyId)
        requires
            infer_wf(self.types(), self.subst()),
            id < self.types().len(),
        ensures
            r == follow_spec(self.types(), self.subst(), id),
            r < self.types().len(),
    {
        self.chase_exec(id, false)
    }

    /// Where following the bindings of integer inference variables from `id` ends.
    pub fn follow_int(&self, id: TyId) -> (r: TyId)
        requires
            infer_wf(self.types(), self.subst()),
            id < self.types().len(),
        ensures
            r == follow_int_spec(self.types(), self.subst(), id),
            r < self.types().len(),
    {
        self.chase_exec(id, true)
    }

    /// Where following the bindings of plain, then of integer, inference variables from
    /// `id` ends.
    pub fn follow_all(&self, id: TyId) -> (r: TyId)
        requires
            infer_wf(self.types(), self.subst()),
            id < self.types().len(),
        ensures
            r == follow_all_spec(self.types(), self.subst(), id),
            r < self.types().len(),
    {
        let id = self.follow(id);
        self.follow_int(id)
    }

    fn chase_exec(&self, id: TyId, int_kind: bool) -> (r: TyId)
        requires
            infer_wf(self.types(), self.subst()),
            id < self.types().len(),
        ensures
            r == chase_end(self.types(), self.subst(), id, int_kind),
            r < self.types().len(),
    {
        let ghost types = self.types();
        let ghost subst = self.subst();
        assert(chase_ends(types, subst, id, int_kind));
        let ghost mut fuel: nat = choose|f: nat| #[trigger] chase(types, subst, id, int_kind, f) is Some;
        let ghost end = chase_end(types, subst, id, int_kind);
        let mut cur = id;
        loop
            invariant
                types == self.types(),
                subst == self.subst(),
                infer_wf(types, subst),
                cur < types.len(),
                chase(types, subst, cur, int_kind, fuel) == Some(end),
            ensures
                cur == end,
                cur < types.len(),
            decreases fuel,
        {
            let k = match self.module.tcx.get(cur) {
                Ty::Infer(k) => if !int_kind { Some(*k) } else { None },
                Ty::InferInt(k) => if int_kind { Some(*k) } else { None },
                _ => None,
            };
            assert(k == var_of(types, cur as int, int_kind));
            match k {
                Some(k) => match self.substitutions.get(&k) {
                    Some(t) => {
                        proof {
                            fuel = (fuel - 1) as nat;
                        }
                        cur = *t;
                    },
                    None => {
                        break ;
                    },
                },
                None => {
                    break ;
                },
            }
        }
        cur
    }

    /// A fresh plain inference variable, added to the types.
    pub fn alloc_infer_ty(&mut self) -> (id: TyId)
        requires
            old(self).wf(),
        ensures
            final(self).wf(),
            final(self).types() == old(self).types().push(Ty::Infer(old(self).next_id())),
            id == old(self).types().len(),
            final(self).subst() == old(self).subst(),
            final(self).next_id() == old(self).next_id() + 1,
            final(self).module.typed_exprs@ == old(self).module.typed_exprs@,
            final(self).module.typed_stmts@ == old(self).module.typed_stmts@,
            final(self).module.tcx.table == old(self).module.tcx.table,
    {
        let k = self.next_infer_id;
        self.alloc_fresh(Ty::Infer(k))
    }

    /// A fresh integer inference variable, added to the types.
    pub fn alloc_infer_int(&mut self) -> (id: TyId)
        requires
            old(self).wf(),
        ensures
            final(self).wf(),
            final(self).types() == old(self).types().push(Ty::InferInt(old(self).next_id())),
            id == old(self).types().len(),
            final(self).subst() == old(self).subst(),
            final(self).next_id() == old(self).next_id() + 1,
            final(self).module.typed_exprs@ == old(self).module.typed_exprs@,
            final(self).module.typed_stmts@ == old(self).module.typed_stmts@,
            final(self).module.tcx.table == old(self).module.tcx.table,
    {
        let k = self.next_infer_id;
        self.alloc_fresh(Ty::InferInt(k))
    }

    fn alloc_fresh(&mut self, ty: Ty) -> (id: TyId)
        requires
            old(self).wf(),
            ty == Ty::Infer(old(self).next_id()) || ty == Ty::InferInt(old(self).next_id()),
        ensures
            final(self).wf(),
            final(self).types() == old(self).types().push(ty),
            id == old(self).types().len(),
            final(self).subst() == old(self).subst(),
            final(self).next_id() == old(self).next_id() + 1,
            final(self).module.typed_exprs@ == old(self).module.typed_exprs@,
            final(self).module.typed_stmts@ == old(self).module.typed_stmts@,
            final(self).module.tcx.table == old(self).module.tcx.table,
    {
        let ghost types = self.types();
        let ghost subst = self.subst();
        proof {
            assert forall|i: int| 0 <= i < types.len() implies !crate::ty::ty_equiv(#[trigger] types[i], ty) by {
                if ty_infer_id(types[i]) is Some {
                    assert(ty_infer_id(types[i]).unwrap() < self.next_infer_id);
                }
            }
        }
        let id = self.module.tcx_mut().alloc_type(ty);
        proof {
            assert(alloc_types(types, ty) == types.push(ty));
            let t2 = self.types();
            lemma_push_keeps_chases(types, subst, ty);
            assert forall|i: int| 0 <= i < t2.len() && (#[trigger] var_of(t2, i, true)) is Some
                && subst.contains_key(var_of(t2, i, true).unwrap())
                implies (t2[subst[var_of(t2, i, true).unwrap()] as int] is IntTy
                    || t2[subst[var_of(t2, i, true).unwrap()] as int] is InferInt) by {
                if i < types.len() {
                    assert(var_of(t2, i, true) == var_of(types, i, true));
                } else {
                    assert(ty_infer_id(types[subst[self.next_infer_id] as int]) is Some);
                }
            }
        }
        let _n = self.module.tcx.types.len();
        self.next_infer_id = self.next_infer_id + 1;
        id
    }
}

/// Adding a type that no binding refers to changes no chain of bindings, and the new
/// type's own chains end at once.
pub proof fn lemma_push_keeps_chases(types: Seq<Ty>, subst: Map<usize, usize>, ty: Ty)
    requires
        infer_wf(types, subst),
        ty_infer_id(ty) matches Some(k) ==> !subst.contains_key(k),
    ensures
        forall|i: TyId, b: bool, f: nat| i < types.len() ==> #[trigger] chase(types.push(ty), subst, i, b, f) == chase(types, subst, i, b, f),
        forall|i: TyId| i < types.len() + 1 ==> #[trigger] chase_ends(types.push(ty), subst, i, false),
        forall|i: TyId| i < types.len() + 1 ==> #[trigger] chase_ends(types.push(ty), subst, i, true),
{
    let t2 = types.push(ty);
    assert forall|i: TyId, b: bool, f: nat| i < types.len() implies #[trigger] chase(t2, subst, i, b, f) == chase(types, subst, i, b, f) by {
        lemma_push_chase(types, subst, ty, i, b, f);
    }
    assert forall|i: TyId| i < types.len() + 1 implies #[trigger] chase_ends(t2, subst, i, false) by {
        if i < types.len() {
            assert(chase_ends(types, subst, i, false));
            let f = choose|f: nat| #[trigger] chase(types, subst, i, false, f) is Some;
            assert(chase(t2, subst, i, false, f) is Some);
        } else {
            assert(chase(t2, subst, i, false, 1) is Some);
        }
    }
    assert forall|i: TyId| i < types.len() + 1 implies #[trigger] chase_ends(t2, subst, i, true) by {
        if i < types.len() {
            assert(chase_ends(types, subst, i, true));
            let f = choose|f: nat| #[trigger] chase(types, subst, i, true, f) is Some;
            assert(chase(t2, subst, i, true, f) is Some);
        } else {
            assert(chase(t2, subst, i, true, 1) is Some);
        }
    }
}

proof fn lemma_push_chase(types: Seq<Ty>, subst: Map<usize, usize>, ty: Ty, i: TyId, b: bool, f: nat)
    requires
        infer_wf(types, subst),
        i < types.len(),
    ensures
        chase(types.push(ty), subst, i, b, f) == chase(types, subst, i, b, f),
    decreases f,
{
    let t2 = types.push(ty);
    assert(var_of(t2, i as int, b) == var_of(types, i as int, b));
    if f > 0 {
        match var_of(types, i as int, b) {
            Some(k) => if subst.contains_key(k) {
                lemma_push_chase(types, subst, ty, subst[k], b, (f - 1) as nat);
            },
            None => {},
        }
    }
}

} // verus!
