//! Substituting generic parameters, resolving inference variables through a type, and
//! checking casts.
use crate::display::{display_ty, display_ty_spec};
use crate::error::{make_err, CheckResult, TypeCheckerError, TypeCheckerErrorKind};
use crate::token::Token;
use crate::imap::{entries_insert, entries_keys_unique, entries_lookup};
use crate::infer_context::{chase, chase_ends, follow_all_spec, follow_spec, infer_wf, lemma_chase_end, var_of, InferContext};
use crate::ty::{ids_copy, strings_copy, strings_view, str_eq, IntTy, Ty, TyId};
use crate::ty_context::{alloc_id, alloc_types, ids_below, ty_infer_id, ty_parts_below, types_wf};
use crate::unify::{extends, lemma_alloc_keeps_wf, lemma_follow_all_end, lemma_parts_below_mono, same_frame};
use vstd::prelude::*;

verus! {

/// A mapping from generic parameter names to type ids, viewed as pairs.
pub open spec fn mapping_view(m: Seq<(String, TyId)>) -> Seq<(Seq<char>, usize)> {
    m.map_values(|p: (String, TyId)| (p.0@, p.1))
}

/// The names among `gs` that the mapping does not map, in order.
pub open spec fn unmapped(gs: Seq<Seq<char>>, m: Seq<(Seq<char>, usize)>) -> Seq<Seq<char>>
    decreases gs.len(),
{
    if gs.len() == 0 {
        Seq::empty()
    } else {
        unmapped(gs.drop_last(), m) + if entries_lookup(m, gs.last()) is None { seq![gs.last()] } else { Seq::empty() }
    }
}

/// Whether `types[r]` is `types[id]` with its generic parameters replaced per `m`: a
/// mapped parameter by its type, pointers, applied generics and functions part by part
/// (a function loses the parameters that `m` maps), an integer variable by `i32`, and any
/// other type left as it is.
pub open spec fn substituted(types: Seq<Ty>, id: TyId, r: TyId, m: Seq<(Seq<char>, usize)>) -> bool
    decreases id, 1nat, 0nat,
{
    if id >= types.len() || r >= types.len() {
        false
    } else {
        match types[id as int] {
            Ty::Generic(name, _) => r == match entries_lookup(m, name@) {
                Some(v) => v,
                None => id,
            },
            Ty::Ptr(inner) => match types[r as int] {
                Ty::Ptr(ri) => substituted_list(types, seq![inner], seq![ri], m, id),
                _ => false,
            },
            Ty::AppliedGeneric(name, args) => match types[r as int] {
                Ty::AppliedGeneric(n2, a2) => n2@ == name@ && substituted_list(types, args@, a2@, m, id),
                _ => false,
            },
            Ty::Function { generics, params_type, ret_type, is_variadic } => match types[r as int] {
                Ty::Function { generics: g2, params_type: p2, ret_type: r2, is_variadic: v2 } =>
                    v2 == is_variadic && strings_view(g2@) == unmapped(strings_view(generics@), m)
                    && substituted_list(types, params_type@.push(ret_type), p2@.push(r2), m, id),
                _ => false,
            },
            Ty::InferInt(_) => types[r as int] == Ty::IntTy(IntTy::I32),
            _ => r == id,
        }
    }
}

/// Whether each `rs[i]` is `ids[i]` substituted per `m`, each `ids[i]` below `bound`.
pub open spec fn substituted_list(
    types: Seq<Ty>,
    ids: Seq<TyId>,
    rs: Seq<TyId>,
    m: Seq<(Seq<char>, usize)>,
    bound: TyId,
) -> bool
    decreases bound, 0nat, ids.len(),
{
    if ids.len() != rs.len() {
        false
    } else if ids.len() == 0 {
        true
    } else {
        ids[0] < bound && substituted(types, ids[0], rs[0], m)
            && substituted_list(types, ids.drop_first(), rs.drop_first(), m, bound)
    }
}

pub proof fn lemma_substituted_list_elems(
    types: Seq<Ty>,
    ids: Seq<TyId>,
    rs: Seq<TyId>,
    m: Seq<(Seq<char>, usize)>,
    bound: TyId,
)
    requires
        substituted_list(types, ids, rs, m, bound),
    ensures
        ids.len() == rs.len(),
        forall|i: int| 0 <= i < ids.len() ==> ids[i] < bound,
        forall|i: int| 0 <= i < ids.len() ==> #[trigger] substituted(types, ids[i], rs[i], m),
    decreases ids.len(),
{
    if ids.len() > 0 {
        let (di, dr) = (ids.drop_first(), rs.drop_first());
        lemma_substituted_list_elems(types, di, dr, m, bound);
        assert forall|i: int| 0 <= i < ids.len() implies ids[i] < bound by {
            if i > 0 {
                assert(di[i - 1] == ids[i]);
            }
        }
        assert forall|i: int| 0 <= i < ids.len() implies #[trigger] substituted(types, ids[i], rs[i], m) by {
            if i > 0 {
                assert(substituted(types, di[i - 1], dr[i - 1], m));
                assert(di[i - 1] == ids[i]);
                assert(dr[i - 1] == rs[i]);
            }
        }
    }
}

pub proof fn lemma_substituted_list_intro(
    types: Seq<Ty>,
    ids: Seq<TyId>,
    rs: Seq<TyId>,
    m: Seq<(Seq<char>, usize)>,
    bound: TyId,
)
    requires
        ids.len() == rs.len(),
        forall|i: int| 0 <= i < ids.len() ==> ids[i] < bound,
        forall|i: int| 0 <= i < ids.len() ==> #[trigger] substituted(types, ids[i], rs[i], m),
    ensures
        substituted_list(types, ids, rs, m, bound),
    decreases ids.len(),
{
    if ids.len() > 0 {
        let (di, dr) = (ids.drop_first(), rs.drop_first());
        assert forall|i: int| 0 <= i < di.len() implies di[i] < bound by {
            assert(di[i] == ids[i + 1]);
        }
        assert forall|i: int| 0 <= i < di.len() implies #[trigger] substituted(types, di[i], dr[i], m) by {
            assert(di[i] == ids[i + 1]);
            assert(dr[i] == rs[i + 1]);
            assert(substituted(types, ids[i + 1], rs[i + 1], m));
        }
        lemma_substituted_list_intro(types, di, dr, m, bound);
        assert(substituted(types, ids[0], rs[0], m));
        assert(ids[0] < bound);
    }
}

/// Whether `b` keeps every type of `a`.
pub open spec fn types_extend(a: Seq<Ty>, b: Seq<Ty>) -> bool {
    a.len() <= b.len() && forall|i: int| 0 <= i < a.len() ==> #[trigger] b[i] == a[i]
}

pub proof fn lemma_substituted_extend(types: Seq<Ty>, types2: Seq<Ty>, id: TyId, r: TyId, m: Seq<(Seq<char>, usize)>)
    requires
        substituted(types, id, r, m),
        types_extend(types, types2),
    ensures
        substituted(types2, id, r, m),
    decreases id, 1nat, 0nat,
{
    assert(types2[id as int] == types[id as int]);
    assert(types2[r as int] == types[r as int]);
    match types[id as int] {
        Ty::Ptr(inner) => {
            if let Ty::Ptr(ri) = types[r as int] {
                lemma_substituted_list_extend(types, types2, seq![inner], seq![ri], m, id);
            }
        },
        Ty::AppliedGeneric(name, args) => {
            if let Ty::AppliedGeneric(n2, a2) = types[r as int] {
                lemma_substituted_list_extend(types, types2, args@, a2@, m, id);
            }
        },
        Ty::Function { generics, params_type, ret_type, is_variadic } => {
            if let Ty::Function { generics: g2, params_type: p2, ret_type: r2, is_variadic: v2 } = types[r as int] {
                lemma_substituted_list_extend(types, types2, params_type@.push(ret_type), p2@.push(r2), m, id);
            }
        },
        _ => {},
    }
}

pub proof fn lemma_substituted_list_extend(
    types: Seq<Ty>,
    types2: Seq<Ty>,
    ids: Seq<TyId>,
    rs: Seq<TyId>,
    m: Seq<(Seq<char>, usize)>,
    bound: TyId,
)
    requires
        substituted_list(types, ids, rs, m, bound),
        types_extend(types, types2),
    ensures
        substituted_list(types2, ids, rs, m, bound),
    decreases bound, 0nat, ids.len(),
{
    if ids.len() > 0 {
        lemma_substituted_extend(types, types2, ids[0], rs[0], m);
        lemma_substituted_list_extend(types, types2, ids.drop_first(), rs.drop_first(), m, bound);
    }
}

/// The type mapped to `name`, if any: that of the first pair with this name.
pub fn mapping_get(mapping: &Vec<(String, TyId)>, name: &String) -> (r: Option<TyId>)
    ensures
        r == entries_lookup(mapping_view(mapping@), name@),
{
    let ghost mv = mapping_view(mapping@);
    let mut i = mapping.len();
    let mut r: Option<TyId> = None;
    assert(mv.skip(i as int) =~= Seq::<(Seq<char>, usize)>::empty());
    while i > 0
        invariant
            i <= mapping.len(),
            mv == mapping_view(mapping@),
            r == entries_lookup(mv.skip(i as int), name@),
        decreases i,
    {
        i = i - 1;
        assert(mv.skip(i as int).drop_first() =~= mv.skip(i as int + 1));
        assert(mv.skip(i as int)[0] == (mapping@[i as int].0@, mapping@[i as int].1));
        if mapping[i].0 == *name {
            r = Some(mapping[i].1);
        }
    }
    assert(mv.skip(0) =~= mv);
    r
}

/// The names among `generics` that `mapping` does not map, in order.
pub fn unmapped_generics(generics: &Vec<String>, mapping: &Vec<(String, TyId)>) -> (r: Vec<String>)
    ensures
        strings_view(r@) == unmapped(strings_view(generics@), mapping_view(mapping@)),
{
    let ghost mv = mapping_view(mapping@);
    let ghost gs = strings_view(generics@);
    let mut r: Vec<String> = Vec::new();
    let mut i: usize = 0;
    assert(gs.take(0) =~= Seq::<Seq<char>>::empty());
    assert(strings_view(r@) =~= Seq::<Seq<char>>::empty());
    while i < generics.len()
        invariant
            i <= generics.len(),
            mv == mapping_view(mapping@),
            gs == strings_view(generics@),
            strings_view(r@) == unmapped(gs.take(i as int), mv),
        decreases generics.len() - i,
    {
        let found = mapping_get(mapping, &generics[i]);
        let ghost before = r@;
        assert(gs.take(i as int + 1).drop_last() =~= gs.take(i as int));
        assert(gs.take(i as int + 1).last() == generics@[i as int]@);
        if found.is_none() {
            r.push(generics[i].clone());
            assert(strings_view(r@) =~= strings_view(before) + seq![generics@[i as int]@]);
        } else {
            assert(strings_view(before) + Seq::<Seq<char>>::empty() =~= strings_view(before));
        }
        i = i + 1;
    }
    assert(gs.take(generics.len() as int) =~= gs);
    r
}

/// A value found for a key is the value of some entry.
pub proof fn lemma_entries_lookup_value(e: Seq<(Seq<char>, usize)>, k: Seq<char>)
    requires
        entries_lookup(e, k) is Some,
    ensures
        exists|j: int| 0 <= j < e.len() && e[j].0 == k && e[j].1 == entries_lookup(e, k).unwrap(),
    decreases e.len(),
{
    if e[0].0 == k {
        assert(e[0].0 == k && e[0].1 == entries_lookup(e, k).unwrap());
    } else {
        lemma_entries_lookup_value(e.drop_first(), k);
        let j = choose|j: int| 0 <= j < e.drop_first().len() && e.drop_first()[j].0 == k
            && e.drop_first()[j].1 == entries_lookup(e.drop_first(), k).unwrap();
        assert(e[j + 1] == e.drop_first()[j]);
    }
}

impl InferContext {
    /// The type with id `ty_id` with its generic parameters replaced per `mapping` (see
    /// `substituted`); new types are added as needed.
    pub fn substitute(&mut self, ty_id: TyId, mapping: &Vec<(String, TyId)>) -> (r: TyId)
        requires
            old(self).wf(),
            ty_id < old(self).types().len(),
            forall|i: int| 0 <= i < mapping@.len() ==> #[trigger] mapping@[i].1 < old(self).types().len(),
        ensures
            final(self).wf(),
            r < final(self).types().len(),
            substituted(final(self).types(), ty_id, r, mapping_view(mapping@)),
            final(self).subst() == old(self).subst(),
            same_frame(*old(self), *final(self)),
            extends(*old(self), *final(self)),
        decreases ty_id, 1nat,
    {
        let ghost mv = mapping_view(mapping@);
        let ghost t0 = self.types();
        proof {
            assert(ty_parts_below(t0[ty_id as int], ty_id as int));
        }
        match self.module.tcx.get(ty_id) {
            Ty::Generic(name, _) => {
                let found = mapping_get(mapping, name);
                proof {
                    if let Some(v) = found {
                        lemma_entries_lookup_value(mv, name@);
                        let j = choose|j: int| 0 <= j < mv.len() && mv[j].0 == name@ && mv[j].1 == v;
                        assert(mapping@[j].1 == mv[j].1);
                    }
                }
                match found {
                    Some(v) => v,
                    None => ty_id,
                }
            },
            Ty::Ptr(inner) => {
                let inner = *inner;
                let ri = self.substitute(inner, mapping);
                let ghost t1 = self.types();
                let id = self.alloc_plain(Ty::Ptr(ri));
                proof {
                    let t = self.types();
                    lemma_substituted_extend(t1, t, inner, ri, mv);
                    assert(substituted(t, seq![inner][0], seq![ri][0], mv));
                    lemma_substituted_list_intro(t, seq![inner], seq![ri], mv, ty_id);
                }
                id
            },
            Ty::AppliedGeneric(name, args) => {
                let name = name.clone();
                let args = ids_copy(args);
                let rs = self.substitute_list(&args, ty_id, mapping);
                let ghost t1 = self.types();
                let ghost rv = rs@;
                let id = self.alloc_plain(Ty::AppliedGeneric(name, rs));
                proof {
                    let t = self.types();
                    assert forall|i: int| 0 <= i < args@.len() implies #[trigger] substituted(t, args@[i], rv[i], mv) by {
                        lemma_substituted_extend(t1, t, args@[i], rv[i], mv);
                    }
                    lemma_substituted_list_intro(t, args@, rv, mv, ty_id);
                }
                id
            },
            Ty::Function { generics, params_type, ret_type, is_variadic } => {
                let gens = unmapped_generics(generics, mapping);
                let mut all = ids_copy(params_type);
                let ghost params = all@;
                let ret = *ret_type;
                let v = *is_variadic;
                all.push(ret);
                let mut rs = self.substitute_list(&all, ty_id, mapping);
                let ghost t1 = self.types();
                let ghost rv = rs@;
                let new_ret = rs.pop().unwrap();
                assert(rs@.push(new_ret) =~= rv);
                let id = self.alloc_plain(Ty::Function { generics: gens, params_type: rs, ret_type: new_ret, is_variadic: v });
                proof {
                    let t = self.types();
                    assert forall|i: int| 0 <= i < all@.len() implies #[trigger] substituted(t, all@[i], rv[i], mv) by {
                        lemma_substituted_extend(t1, t, all@[i], rv[i], mv);
                    }
                    lemma_substituted_list_intro(t, all@, rv, mv, ty_id);
                    assert(all@ == params.push(ret));
                }
                id
            },
            Ty::InferInt(_) => {
                self.alloc_plain(Ty::IntTy(IntTy::I32))
            },
            _ => ty_id,
        }
    }

    /// Each of `ids` substituted per `mapping`, in order.
    fn substitute_list(&mut self, ids: &Vec<TyId>, bound: TyId, mapping: &Vec<(String, TyId)>) -> (rs: Vec<TyId>)
        requires
            old(self).wf(),
            bound < old(self).types().len(),
            forall|i: int| 0 <= i < ids@.len() ==> #[trigger] ids@[i] < bound,
            forall|i: int| 0 <= i < mapping@.len() ==> #[trigger] mapping@[i].1 < old(self).types().len(),
        ensures
            final(self).wf(),
            rs@.len() == ids@.len(),
            forall|i: int| 0 <= i < rs@.len() ==> #[trigger] rs@[i] < final(self).types().len(),
            forall|i: int| 0 <= i < ids@.len() ==> #[trigger] substituted(final(self).types(), ids@[i], rs@[i], mapping_view(mapping@)),
            final(self).subst() == old(self).subst(),
            same_frame(*old(self), *final(self)),
            extends(*old(self), *final(self)),
        decreases bound, 0nat,
    {
        let ghost mv = mapping_view(mapping@);
        let ghost s0 = *self;
        let mut rs: Vec<TyId> = Vec::new();
        let mut i: usize = 0;
        while i < ids.len()
            invariant
                self.wf(),
                i <= ids@.len(),
                rs@.len() == i,
                bound < s0.types().len(),
                forall|j: int| 0 <= j < ids@.len() ==> #[trigger] ids@[j] < bound,
                forall|j: int| 0 <= j < mapping@.len() ==> #[trigger] mapping@[j].1 < s0.types().len(),
                forall|j: int| 0 <= j < i ==> #[trigger] rs@[j] < self.types().len(),
                forall|j: int| 0 <= j < i ==> #[trigger] substituted(self.types(), ids@[j], rs@[j], mv),
                mv == mapping_view(mapping@),
                self.subst() == s0.subst(),
                same_frame(s0, *self),
                extends(s0, *self),
            decreases ids@.len() - i,
        {
            let ghost t1 = self.types();
            let r = self.substitute(ids[i], mapping);
            proof {
                let t = self.types();
                assert forall|j: int| 0 <= j < i implies #[trigger] substituted(t, ids@[j], rs@[j], mv) by {
                    lemma_substituted_extend(t1, t, ids@[j], rs@[j], mv);
                }
            }
            rs.push(r);
            i = i + 1;
        }
        rs
    }
}

/// The mapping that gives each of `names`, in order, the type with id `base + i` (`i` its
/// place): a name given twice keeps its first place and takes the later id.
pub open spec fn fresh_mapping(names: Seq<Seq<char>>, base: int) -> Seq<(Seq<char>, usize)>
    decreases names.len(),
{
    if names.len() == 0 {
        Seq::empty()
    } else {
        entries_insert(fresh_mapping(names.drop_last(), base), names.last(), (base + names.len() - 1) as usize)
    }
}

/// Inserts `name` with `v`: the pair with this name takes `v`, or the pair goes last.
pub fn mapping_insert(mapping: &mut Vec<(String, TyId)>, name: String, v: TyId)
    requires
        entries_keys_unique(mapping_view(old(mapping)@)),
    ensures
        mapping_view(final(mapping)@) == entries_insert(mapping_view(old(mapping)@), name@, v),
        entries_keys_unique(mapping_view(final(mapping)@)),
        forall|i: int| 0 <= i < final(mapping)@.len() ==> #[trigger] final(mapping)@[i].1 == v
            || (i < old(mapping)@.len() && final(mapping)@[i].1 == old(mapping)@[i].1),
{
    let ghost mv = mapping_view(mapping@);
    let ghost m0 = mapping@;
    let mut i: usize = 0;
    while i < mapping.len()
        invariant
            i <= mapping@.len(),
            mv == mapping_view(mapping@),
            m0 == mapping@,
            m0 == old(mapping)@,
            entries_keys_unique(mv),
            forall|j: int| 0 <= j < i ==> #[trigger] mv[j].0 != name@,
        decreases mapping@.len() - i,
    {
        if mapping[i].0 == name {
            proof {
                let c = choose|c: int| 0 <= c < mv.len() && #[trigger] mv[c].0 == name@;
                assert(mv[i as int].0 == name@);
                if c != i as int {
                    assert(mv[c].0 != mv[i as int].0);
                }
            }
            let ghost key = name@;
            proof {
                assert(entries_insert(mv, key, v) == mv.update(i as int, (key, v)));
            }
            mapping.set(i, (name, v));
            proof {
                let m2 = mapping_view(mapping@);
                assert(m2 =~= mv.update(i as int, (key, v)));
                assert forall|a: int, b: int| 0 <= a < b < m2.len() implies #[trigger] m2[a].0 != #[trigger] m2[b].0 by {
                    if a != i && b != i {
                        assert(mv[a].0 != mv[b].0);
                    } else if a == i {
                        assert(mv[i as int].0 != mv[b].0);
                    } else {
                        assert(mv[a].0 != mv[i as int].0);
                    }
                }
            }
            return;
        }
        i = i + 1;
    }
    mapping.push((name, v));
    proof {
        let m2 = mapping_view(mapping@);
        assert(m2 =~= mv.push((name@, v)));
        assert forall|a: int, b: int| 0 <= a < b < m2.len() implies #[trigger] m2[a].0 != #[trigger] m2[b].0 by {
            if b < mv.len() {
                assert(mv[a].0 != mv[b].0);
            }
        }
    }
}

impl InferContext {
    /// The type with id `ty_id` with each of `generic_params` replaced by a fresh inference
    /// variable, one per parameter, in order; unchanged when there is no parameter.
    pub fn instantiate(&mut self, ty_id: TyId, generic_params: &Vec<String>) -> (r: TyId)
        requires
            old(self).wf(),
            ty_id < old(self).types().len(),
        ensures
            final(self).wf(),
            r < final(self).types().len(),
            generic_params@.len() == 0 ==> r == ty_id && *final(self) == *old(self),
            generic_params@.len() > 0 ==> {
                &&& old(self).types().len() + generic_params@.len() <= final(self).types().len()
                &&& forall|k: int| 0 <= k < generic_params@.len() ==>
                    #[trigger] final(self).types()[old(self).types().len() + k] == Ty::Infer((old(self).next_id() + k) as usize)
                &&& final(self).next_id() == old(self).next_id() + generic_params@.len()
                &&& substituted(final(self).types(), ty_id, r,
                    fresh_mapping(strings_view(generic_params@), old(self).types().len() as int))
            },
            final(self).subst() == old(self).subst(),
            final(self).module.typed_exprs@ == old(self).module.typed_exprs@,
            final(self).module.typed_stmts@ == old(self).module.typed_stmts@,
            final(self).module.tcx.table == old(self).module.tcx.table,
            extends(*old(self), *final(self)),
    {
        if generic_params.len() == 0 {
            return ty_id;
        }
        let ghost s0 = *self;
        let ghost base = self.types().len() as int;
        let ghost names = strings_view(generic_params@);
        let mut mapping: Vec<(String, TyId)> = Vec::new();
        let mut i: usize = 0;
        assert(names.take(0) =~= Seq::<Seq<char>>::empty());
        assert(mapping_view(mapping@) =~= Seq::<(Seq<char>, usize)>::empty());
        while i < generic_params.len()
            invariant
                self.wf(),
                i <= generic_params@.len(),
                names == strings_view(generic_params@),
                base == s0.types().len(),
                ty_id < base,
                self.types().len() == base + i,
                self.next_id() == s0.next_id() + i,
                forall|k: int| 0 <= k < i ==> #[trigger] self.types()[base + k] == Ty::Infer((s0.next_id() + k) as usize),
                mapping_view(mapping@) == fresh_mapping(names.take(i as int), base),
                entries_keys_unique(mapping_view(mapping@)),
                forall|j: int| 0 <= j < mapping@.len() ==> #[trigger] mapping@[j].1 < self.types().len(),
                self.subst() == s0.subst(),
                self.module.typed_exprs@ == s0.module.typed_exprs@,
                self.module.typed_stmts@ == s0.module.typed_stmts@,
                self.module.tcx.table == s0.module.tcx.table,
                extends(s0, *self),
            decreases generic_params@.len() - i,
        {
            let ghost before = mapping@;
            let t = self.alloc_infer_ty();
            mapping_insert(&mut mapping, generic_params[i].clone(), t);
            proof {
                assert(names.take(i as int + 1).drop_last() =~= names.take(i as int));
                assert(names.take(i as int + 1).last() == generic_params@[i as int]@);
                assert forall|j: int| 0 <= j < mapping@.len() implies #[trigger] mapping@[j].1 < self.types().len() by {
                    if mapping@[j].1 != t {
                        assert(before[j].1 < self.types().len() - 1);
                    }
                }
            }
            i = i + 1;
        }
        assert(names.take(generic_params@.len() as int) =~= names);
        self.substitute(ty_id, &mapping)
    }
}

/// Whether a type is a number: an integer or a float.
pub open spec fn is_numeric_spec(ty: Ty) -> bool {
    ty is IntTy || ty is FloatTy
}

/// Whether a type is `usize` or `isize`.
pub open spec fn is_size_int(ty: Ty) -> bool {
    ty == Ty::IntTy(IntTy::USize) || ty == Ty::IntTy(IntTy::ISize)
}

/// Whether a value of the type with id `from` may be cast to the type with id `to`: the
/// same type, between numbers, between pointers, between a pointer and `usize` or
/// `isize` either way, and between `bool` and an integer either way.
pub open spec fn cast_allowed(types: Seq<Ty>, from: TyId, to: TyId) -> bool {
    let (f, t) = (types[from as int], types[to as int]);
    ||| from == to
    ||| is_numeric_spec(f) && is_numeric_spec(t)
    ||| f is Ptr && (t is Ptr || is_size_int(t))
    ||| is_size_int(f) && t is Ptr
    ||| f is Bool && t is IntTy
    ||| f is IntTy && t is Bool
}

/// The message of a refused cast.
pub open spec fn cast_message(types: Seq<Ty>, from: TyId, to: TyId) -> Seq<char> {
    "cannot cast `"@ + display_ty_spec(types, types[from as int], types.len() as int) + "` as `"@
        + display_ty_spec(types, types[to as int], types.len() as int) + "`"@
}

/// Whether a type is a number.
pub fn is_numeric(ty: &Ty) -> (r: bool)
    ensures
        r == is_numeric_spec(*ty),
{
    match ty {
        Ty::IntTy(_) | Ty::FloatTy(_) => true,
        _ => false,
    }
}

/// Whether a type is a pointer.
pub fn is_ptr(ty: &Ty) -> (r: bool)
    ensures
        r == ty is Ptr,
{
    match ty {
        Ty::Ptr(_) => true,
        _ => false,
    }
}

/// Whether a type is an integer, and the integer type `specific` when one is given.
pub fn is_integer(ty: &Ty, specific: Option<IntTy>) -> (r: bool)
    ensures
        r == match specific {
            None => ty is IntTy,
            Some(want) => *ty == Ty::IntTy(want),
        },
{
    match (ty, specific) {
        (Ty::IntTy(_), None) => true,
        (Ty::IntTy(it), Some(want)) => *it == want,
        _ => false,
    }
}

impl InferContext {
    /// Checks that a value of the type with id `from` may be cast to the type with id `to`
    /// (see `cast_allowed`); otherwise an `InvalidCast` error at `token` that names both.
    pub fn check_cast_valid(&self, from: TyId, to: TyId, token: Token) -> (r: CheckResult<()>)
        requires
            types_wf(self.types()),
            from < self.types().len(),
            to < self.types().len(),
        ensures
            r is Ok <==> cast_allowed(self.types(), from, to),
            r matches Err(e) ==> e.kind == TypeCheckerErrorKind::InvalidCast && e.token == token
                && (e.message matches Some(m) && m@ == cast_message(self.types(), from, to)),
    {
        let from_ty = self.module.tcx.get(from);
        let to_ty = self.module.tcx.get(to);
        if from == to {
            return Ok(());
        }
        if is_numeric(from_ty) && is_numeric(to_ty) {
            return Ok(());
        }
        if is_ptr(from_ty) {
            if is_ptr(to_ty) {
                return Ok(());
            }
            if is_integer(to_ty, Some(IntTy::USize)) || is_integer(to_ty, Some(IntTy::ISize)) {
                return Ok(());
            }
        }
        if (is_integer(from_ty, Some(IntTy::USize)) || is_integer(from_ty, Some(IntTy::ISize))) && is_ptr(to_ty) {
            return Ok(());
        }
        match (from_ty, to_ty) {
            (Ty::Bool, Ty::IntTy(_)) => return Ok(()),
            (Ty::IntTy(_), Ty::Bool) => return Ok(()),
            _ => {},
        }
        Err(self.cast_error(from, to, token))
    }

    fn cast_error(&self, from: TyId, to: TyId, token: Token) -> (e: TypeCheckerError)
        requires
            types_wf(self.types()),
            from < self.types().len(),
            to < self.types().len(),
        ensures
            e.kind == TypeCheckerErrorKind::InvalidCast,
            e.token == token,
            e.message matches Some(m) && m@ == cast_message(self.types(), from, to),
    {
        let tcx = &self.module.tcx;
        proof {
            lemma_parts_below_mono(self.types()[from as int], from as int, self.types().len() as int);
            lemma_parts_below_mono(self.types()[to as int], to as int, self.types().len() as int);
        }
        let mut m = String::from_str("cannot cast `");
        let d1 = display_ty(tcx.get(from), tcx);
        m.append(d1.as_str());
        m.append("` as `");
        let d2 = display_ty(tcx.get(to), tcx);
        m.append(d2.as_str());
        m.append("`");
        TypeCheckerError { kind: TypeCheckerErrorKind::InvalidCast, token, message: Some(m) }
    }
}

/// Following bindings from an existing type ends where it did before the types grew.
pub proof fn lemma_extend_chase(t1: Seq<Ty>, t2: Seq<Ty>, subst: Map<usize, usize>, i: TyId, b: bool, f: nat)
    requires
        infer_wf(t1, subst),
        types_extend(t1, t2),
        i < t1.len(),
    ensures
        chase(t2, subst, i, b, f) == chase(t1, subst, i, b, f),
    decreases f,
{
    assert(t2[i as int] == t1[i as int]);
    assert(var_of(t2, i as int, b) == var_of(t1, i as int, b));
    if f > 0 {
        match var_of(t1, i as int, b) {
            Some(k) => if subst.contains_key(k) {
                lemma_extend_chase(t1, t2, subst, subst[k], b, (f - 1) as nat);
            },
            None => {},
        }
    }
}

/// Where following all bindings from an existing type ends does not change as the types
/// grow.
pub proof fn lemma_extend_follow_all(t1: Seq<Ty>, t2: Seq<Ty>, subst: Map<usize, usize>, i: TyId)
    requires
        infer_wf(t1, subst),
        types_extend(t1, t2),
        i < t1.len(),
    ensures
        follow_all_spec(t2, subst, i) == follow_all_spec(t1, subst, i),
        follow_all_spec(t1, subst, i) < t1.len(),
{
    lemma_follow_all_end(t1, subst, i);
    assert(chase_ends(t1, subst, i, false));
    let f1 = choose|f: nat| #[trigger] chase(t1, subst, i, false, f) is Some;
    lemma_extend_chase(t1, t2, subst, i, false, f1);
    lemma_chase_end(t1, subst, i, false, f1);
    lemma_chase_end(t2, subst, i, false, f1);
    let m = follow_spec(t1, subst, i);
    assert(chase_ends(t1, subst, m, true));
    let f2 = choose|f: nat| #[trigger] chase(t1, subst, m, true, f) is Some;
    lemma_extend_chase(t1, t2, subst, m, true, f2);
    lemma_chase_end(t1, subst, m, true, f2);
    lemma_chase_end(t2, subst, m, true, f2);
}

/// Whether `types[r]` is the type that `id` stands for with every inference variable in it
/// resolved, `fuel` levels deep: the type where following all bindings from `id` ends,
/// with the parts of pointers, applied generics and functions resolved in turn, and an
/// integer variable left unbound taken as `i32`. Past `fuel` levels the type where the
/// bindings end is kept as it is.
pub open spec fn resolved(types: Seq<Ty>, subst: Map<usize, usize>, id: TyId, r: TyId, fuel: nat) -> bool
    decreases fuel, 0nat, 0nat,
{
    if id >= types.len() || r >= types.len() {
        false
    } else {
        let f = follow_all_spec(types, subst, id);
        if fuel == 0 || f >= types.len() {
            r == f
        } else {
            match types[f as int] {
                Ty::Ptr(inner) => match types[r as int] {
                    Ty::Ptr(ri) => resolved_list(types, subst, seq![inner], seq![ri], (fuel - 1) as nat),
                    _ => false,
                },
                Ty::AppliedGeneric(name, args) => match types[r as int] {
                    Ty::AppliedGeneric(n2, a2) => n2@ == name@ && resolved_list(types, subst, args@, a2@, (fuel - 1) as nat),
                    _ => false,
                },
                Ty::Function { generics, params_type, ret_type, is_variadic } => match types[r as int] {
                    Ty::Function { generics: g2, params_type: p2, ret_type: r2, is_variadic: v2 } =>
                        v2 == is_variadic && strings_view(g2@) == strings_view(generics@)
                        && resolved_list(types, subst, params_type@.push(ret_type), p2@.push(r2), (fuel - 1) as nat),
                    _ => false,
                },
                Ty::InferInt(_) => types[r as int] == Ty::IntTy(IntTy::I32),
                _ => r == f,
            }
        }
    }
}

/// Whether each `rs[i]` is `ids[i]` resolved, `fuel` levels deep.
pub open spec fn resolved_list(types: Seq<Ty>, subst: Map<usize, usize>, ids: Seq<TyId>, rs: Seq<TyId>, fuel: nat) -> bool
    decreases fuel, 1nat, ids.len(),
{
    if ids.len() != rs.len() {
        false
    } else if ids.len() == 0 {
        true
    } else {
        resolved(types, subst, ids[0], rs[0], fuel) && resolved_list(types, subst, ids.drop_first(), rs.drop_first(), fuel)
    }
}

pub proof fn lemma_resolved_list_intro(types: Seq<Ty>, subst: Map<usize, usize>, ids: Seq<TyId>, rs: Seq<TyId>, fuel: nat)
    requires
        ids.len() == rs.len(),
        forall|i: int| 0 <= i < ids.len() ==> #[trigger] resolved(types, subst, ids[i], rs[i], fuel),
    ensures
        resolved_list(types, subst, ids, rs, fuel),
    decreases ids.len(),
{
    if ids.len() > 0 {
        let (di, dr) = (ids.drop_first(), rs.drop_first());
        assert forall|i: int| 0 <= i < di.len() implies #[trigger] resolved(types, subst, di[i], dr[i], fuel) by {
            assert(di[i] == ids[i + 1]);
            assert(dr[i] == rs[i + 1]);
            assert(resolved(types, subst, ids[i + 1], rs[i + 1], fuel));
        }
        lemma_resolved_list_intro(types, subst, di, dr, fuel);
        assert(resolved(types, subst, ids[0], rs[0], fuel));
    }
}

pub proof fn lemma_resolved_extend(t1: Seq<Ty>, t2: Seq<Ty>, subst: Map<usize, usize>, id: TyId, r: TyId, fuel: nat)
    requires
        resolved(t1, subst, id, r, fuel),
        infer_wf(t1, subst),
        types_extend(t1, t2),
    ensures
        resolved(t2, subst, id, r, fuel),
    decreases fuel, 0nat, 0nat,
{
    lemma_extend_follow_all(t1, t2, subst, id);
    let f = follow_all_spec(t1, subst, id);
    assert(t2[f as int] == t1[f as int]);
    assert(t2[r as int] == t1[r as int]);
    if fuel > 0 {
        match t1[f as int] {
            Ty::Ptr(inner) => {
                if let Ty::Ptr(ri) = t1[r as int] {
                    lemma_resolved_list_extend(t1, t2, subst, seq![inner], seq![ri], (fuel - 1) as nat);
                }
            },
            Ty::AppliedGeneric(name, args) => {
                if let Ty::AppliedGeneric(n2, a2) = t1[r as int] {
                    lemma_resolved_list_extend(t1, t2, subst, args@, a2@, (fuel - 1) as nat);
                }
            },
            Ty::Function { generics, params_type, ret_type, is_variadic } => {
                if let Ty::Function { generics: g2, params_type: p2, ret_type: r2, is_variadic: v2 } = t1[r as int] {
                    lemma_resolved_list_extend(t1, t2, subst, params_type@.push(ret_type), p2@.push(r2), (fuel - 1) as nat);
                }
            },
            _ => {},
        }
    }
}

pub proof fn lemma_resolved_list_extend(t1: Seq<Ty>, t2: Seq<Ty>, subst: Map<usize, usize>, ids: Seq<TyId>, rs: Seq<TyId>, fuel: nat)
    requires
        resolved_list(t1, subst, ids, rs, fuel),
        infer_wf(t1, subst),
        types_extend(t1, t2),
    ensures
        resolved_list(t2, subst, ids, rs, fuel),
    decreases fuel, 1nat, ids.len(),
{
    if ids.len() > 0 {
        lemma_resolved_extend(t1, t2, subst, ids[0], rs[0], fuel);
        lemma_resolved_list_extend(t1, t2, subst, ids.drop_first(), rs.drop_first(), fuel);
    }
}

/// The bound on how deep resolving a type goes.
pub const RESOLVE_DEPTH: u64 = 0xffff_ffff_ffff_ffff;

impl InferContext {
    /// The type that `id` stands for with every inference variable in it resolved (see
    /// `resolved`); new types are added as needed.
    pub fn deep_resolve(&mut self, id: TyId) -> (r: TyId)
        requires
            old(self).wf(),
            id < old(self).types().len(),
        ensures
            final(self).wf(),
            r < final(self).types().len(),
            resolved(final(self).types(), final(self).subst(), id, r, RESOLVE_DEPTH as nat),
            final(self).subst() == old(self).subst(),
            same_frame(*old(self), *final(self)),
            extends(*old(self), *final(self)),
    {
        self.deep_resolve_fuel(id, RESOLVE_DEPTH)
    }

    fn deep_resolve_fuel(&mut self, id: TyId, fuel: u64) -> (r: TyId)
        requires
            old(self).wf(),
            id < old(self).types().len(),
        ensures
            final(self).wf(),
            r < final(self).types().len(),
            resolved(final(self).types(), final(self).subst(), id, r, fuel as nat),
            final(self).subst() == old(self).subst(),
            same_frame(*old(self), *final(self)),
            extends(*old(self), *final(self)),
        decreases fuel, 0nat,
    {
        let ghost t0 = self.types();
        let ghost subst = self.subst();
        proof {
            lemma_follow_all_end(t0, subst, id);
        }
        let f = self.follow_all(id);
        proof {
            assert(ty_parts_below(t0[f as int], f as int));
        }
        if fuel == 0 {
            return f;
        }
        match self.module.tcx.get(f) {
            Ty::Ptr(inner) => {
                let inner = *inner;
                let ri = self.deep_resolve_fuel(inner, fuel - 1);
                let ghost t1 = self.types();
                let id2 = self.alloc_plain(Ty::Ptr(ri));
                proof {
                    let t = self.types();
                    lemma_resolved_extend(t1, t, subst, inner, ri, (fuel - 1) as nat);
                    assert(resolved(t, subst, seq![inner][0], seq![ri][0], (fuel - 1) as nat));
                    lemma_resolved_list_intro(t, subst, seq![inner], seq![ri], (fuel - 1) as nat);
                    lemma_extend_follow_all(t0, t, subst, id);
                }
                id2
            },
            Ty::AppliedGeneric(name, args) => {
                let name = name.clone();
                let args = ids_copy(args);
                let rs = self.deep_resolve_list(&args, fuel - 1);
                let ghost t1 = self.types();
                let ghost rv = rs@;
                let id2 = self.alloc_plain(Ty::AppliedGeneric(name, rs));
                proof {
                    let t = self.types();
                    assert forall|i: int| 0 <= i < args@.len() implies #[trigger] resolved(t, subst, args@[i], rv[i], (fuel - 1) as nat) by {
                        lemma_resolved_extend(t1, t, subst, args@[i], rv[i], (fuel - 1) as nat);
                    }
                    lemma_resolved_list_intro(t, subst, args@, rv, (fuel - 1) as nat);
                    lemma_extend_follow_all(t0, t, subst, id);
                }
                id2
            },
            Ty::Function { generics, params_type, ret_type, is_variadic } => {
                let gens = strings_copy(generics);
                let mut all = ids_copy(params_type);
                let ghost params = all@;
                let ret = *ret_type;
                let v = *is_variadic;
                all.push(ret);
                let mut rs = self.deep_resolve_list(&all, fuel - 1);
                let ghost t1 = self.types();
                let ghost rv = rs@;
                let new_ret = rs.pop().unwrap();
                assert(rs@.push(new_ret) =~= rv);
                let id2 = self.alloc_plain(Ty::Function { generics: gens, params_type: rs, ret_type: new_ret, is_variadic: v });
                proof {
                    let t = self.types();
                    assert forall|i: int| 0 <= i < all@.len() implies #[trigger] resolved(t, subst, all@[i], rv[i], (fuel - 1) as nat) by {
                        lemma_resolved_extend(t1, t, subst, all@[i], rv[i], (fuel - 1) as nat);
                    }
                    lemma_resolved_list_intro(t, subst, all@, rv, (fuel - 1) as nat);
                    assert(all@ == params.push(ret));
                    lemma_extend_follow_all(t0, t, subst, id);
                }
                id2
            },
            Ty::InferInt(_) => {
                let id2 = self.alloc_plain(Ty::IntTy(IntTy::I32));
                proof {
                    lemma_extend_follow_all(t0, self.types(), subst, id);
                }
                id2
            },
            _ => f,
        }
    }

    fn deep_resolve_list(&mut self, ids: &Vec<TyId>, fuel: u64) -> (rs: Vec<TyId>)
        requires
            old(self).wf(),
            forall|i: int| 0 <= i < ids@.len() ==> #[trigger] ids@[i] < old(self).types().len(),
        ensures
            final(self).wf(),
            rs@.len() == ids@.len(),
            forall|i: int| 0 <= i < rs@.len() ==> #[trigger] rs@[i] < final(self).types().len(),
            forall|i: int| 0 <= i < ids@.len() ==> #[trigger] resolved(final(self).types(), final(self).subst(), ids@[i], rs@[i], fuel as nat),
            final(self).subst() == old(self).subst(),
            same_frame(*old(self), *final(self)),
            extends(*old(self), *final(self)),
        decreases fuel, 1nat,
    {
        let ghost s0 = *self;
        let ghost subst = self.subst();
        let mut rs: Vec<TyId> = Vec::new();
        let mut i: usize = 0;
        while i < ids.len()
            invariant
                self.wf(),
                i <= ids@.len(),
                rs@.len() == i,
                subst == s0.subst(),
                forall|j: int| 0 <= j < ids@.len() ==> #[trigger] ids@[j] < s0.types().len(),
                forall|j: int| 0 <= j < i ==> #[trigger] rs@[j] < self.types().len(),
                forall|j: int| 0 <= j < i ==> #[trigger] resolved(self.types(), subst, ids@[j], rs@[j], fuel as nat),
                self.subst() == s0.subst(),
                same_frame(s0, *self),
                extends(s0, *self),
            decreases ids@.len() - i,
        {
            let ghost t1 = self.types();
            let r = self.deep_resolve_fuel(ids[i], fuel);
            proof {
                let t = self.types();
                assert forall|j: int| 0 <= j < i implies #[trigger] resolved(t, subst, ids@[j], rs@[j], fuel as nat) by {
                    lemma_resolved_extend(t1, t, subst, ids@[j], rs@[j], fuel as nat);
                }
            }
            rs.push(r);
            i = i + 1;
        }
        rs
    }
}

impl InferContext {
    /// Adds a type that is not a variable, keeping the state consistent.
    pub fn alloc_plain(&mut self, ty: Ty) -> (id: TyId)
        requires
            old(self).wf(),
            ty_infer_id(ty) is None,
            ty_parts_below(ty, old(self).types().len() as int),
            crate::ty_context::ty_maps_ok(ty, old(self).types().len() as int),
        ensures
            final(self).wf(),
            final(self).types() == alloc_types(old(self).types(), ty),
            id == alloc_id(old(self).types(), ty),
            id < final(self).types().len(),
            crate::ty::ty_equiv(final(self).types()[id as int], ty),
            final(self).subst() == old(self).subst(),
            same_frame(*old(self), *final(self)),
            extends(*old(self), *final(self)),
            forall|x: TyId| x < old(self).types().len() ==> #[trigger] follow_all_spec(final(self).types(), final(self).subst(), x)
                == follow_all_spec(old(self).types(), old(self).subst(), x),
    {
        let ghost t0 = self.types();
        let id = self.module.tcx_mut().alloc_type(ty);
        proof {
            lemma_alloc_keeps_wf(t0, self.subst(), ty);
            assert forall|i: int| 0 <= i < self.types().len() && (#[trigger] ty_infer_id(self.types()[i])) is Some
                implies ty_infer_id(self.types()[i]).unwrap() < self.next_id() by {
                if i >= t0.len() {
                    assert(alloc_types(t0, ty) == t0.push(ty));
                }
            }
            assert forall|x: TyId| x < t0.len() implies #[trigger] follow_all_spec(self.types(), self.subst(), x)
                == follow_all_spec(t0, self.subst(), x) by {
                lemma_follow_all_end(t0, self.subst(), x);
            }
        }
        id
    }
}

/// Law: a value of any integer or floating type may be cast to any integer or floating type.
pub proof fn law_numeric_casts_allowed(types: Seq<Ty>, from: TyId, to: TyId)
    requires
        types[from as int] is IntTy || types[from as int] is FloatTy,
        types[to as int] is IntTy || types[to as int] is FloatTy,
    ensures
        cast_allowed(types, from, to),
{
}

/// Law: `bool` and integers cast to each other, and pointers to pointers and to `usize`.
pub proof fn law_bool_int_pointer_casts_allowed(types: Seq<Ty>, from: TyId, to: TyId)
    requires
        (types[from as int] is Bool && types[to as int] is IntTy) || (types[from as int] is IntTy && types[to as int] is Bool)
            || (types[from as int] is Ptr && (types[to as int] is Ptr || types[to as int] == Ty::IntTy(IntTy::USize))),
    ensures
        cast_allowed(types, from, to),
{
}

} // verus!
