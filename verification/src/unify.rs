//! Unification of types under a substitution of inference variables.
use crate::display::{display_ty, display_ty_spec};
use crate::error::{make_err, CheckResult, TypeCheckerError, TypeCheckerErrorKind};
use crate::infer_context::InferContext;
use crate::token::Token;
use crate::ty::{ids_copy, ty_eq};
use crate::ty_context::{ids_below, ty_parts_below};
use crate::infer_context::{
    chase, chase_end, chase_ends, follow_all_spec, follow_int_spec, follow_spec, infer_wf, lemma_chase_end,
    lemma_chase_end_unbound, lemma_chase_mono, lemma_push_keeps_chases, var_of,
};
use crate::ty::{ty_equiv, IntTy, Ty, TyId};
use crate::ty_context::{alloc_id, alloc_types, ty_infer_id, types_wf};
use vstd::prelude::*;

verus! {

/// How a unification ends.
pub enum UnifyOutcome {
    /// The types agree.
    Done,
    /// The types with these ids do not agree.
    Mismatch(TyId, TyId),
    /// The unification went deeper than its bound.
    OutOfFuel,
}

/// The message of a mismatch between the types with ids `x` and `y`.
pub open spec fn mismatch_message(types: Seq<Ty>, x: TyId, y: TyId) -> Seq<char> {
    "expected `"@ + display_ty_spec(types, types[x as int], types.len() as int) + "`, got "@
        + display_ty_spec(types, types[y as int], types.len() as int)
}

/// Unifies the types with ids `t1` and `t2`, going at most `fuel` levels deep: the types
/// and bindings after it, and how it ended.
pub open spec fn unify_spec(types: Seq<Ty>, subst: Map<usize, usize>, t1: TyId, t2: TyId, fuel: nat)
    -> (Seq<Ty>, Map<usize, usize>, UnifyOutcome)
    decreases fuel, 0nat, 0nat,
{
    if fuel == 0 {
        (types, subst, UnifyOutcome::OutOfFuel)
    } else {
        let a = follow_all_spec(types, subst, t1);
        let b = follow_all_spec(types, subst, t2);
        if a == b {
            (types, subst, UnifyOutcome::Done)
        } else {
            match (types[a as int], types[b as int]) {
                (Ty::Infer(id), _) => (types, subst.insert(id, b), UnifyOutcome::Done),
                (_, Ty::Infer(id)) => (types, subst.insert(id, a), UnifyOutcome::Done),
                (Ty::InferInt(id), Ty::IntTy(_)) => (types, subst.insert(id, b), UnifyOutcome::Done),
                (Ty::IntTy(_), Ty::InferInt(id)) => (types, subst.insert(id, a), UnifyOutcome::Done),
                (Ty::InferInt(id), Ty::Ptr(_)) => {
                    let u = Ty::IntTy(IntTy::USize);
                    (alloc_types(types, u), subst.insert(id, alloc_id(types, u) as usize), UnifyOutcome::Done)
                },
                (Ty::Ptr(_), Ty::InferInt(id)) => {
                    let u = Ty::IntTy(IntTy::USize);
                    (alloc_types(types, u), subst.insert(id, alloc_id(types, u) as usize), UnifyOutcome::Done)
                },
                (Ty::InferInt(id1), Ty::InferInt(id2)) => {
                    if id1 != id2 {
                        (types, subst.insert(id1, b), UnifyOutcome::Done)
                    } else {
                        (types, subst, UnifyOutcome::Done)
                    }
                },
                (Ty::Ptr(x), Ty::Ptr(y)) => unify_spec(types, subst, x, y, (fuel - 1) as nat),
                (Ty::AppliedGeneric(n1, a1), Ty::AppliedGeneric(n2, a2)) => {
                    if n1@ != n2@ || a1@.len() != a2@.len() {
                        (types, subst, UnifyOutcome::Mismatch(a, b))
                    } else {
                        unify_args_spec(types, subst, a1@, a2@, 0, a1@.len(), (fuel - 1) as nat)
                    }
                },
                (
                    Ty::Function { params_type: p1, ret_type: r1, is_variadic: v1, .. },
                    Ty::Function { params_type: p2, ret_type: r2, is_variadic: v2, .. },
                ) => {
                    if !v1 && !v2 && p1@.len() != p2@.len() {
                        (types, subst, UnifyOutcome::Mismatch(a, b))
                    } else {
                        let n = if p1@.len() <= p2@.len() { p1@.len() } else { p2@.len() };
                        let r = unify_args_spec(types, subst, p1@, p2@, 0, n, (fuel - 1) as nat);
                        if r.2 is Done {
                            unify_spec(r.0, r.1, r1, r2, (fuel - 1) as nat)
                        } else {
                            r
                        }
                    }
                },
                (ty1, ty2) => if !ty_equiv(ty1, ty2) {
                    (types, subst, UnifyOutcome::Mismatch(a, b))
                } else {
                    (types, subst, UnifyOutcome::Done)
                },
            }
        }
    }
}

/// Unifies `xs[i]` with `ys[i]` for each `i` from `from` below `to`, in order, stopping at
/// the first that does not end `Done`.
pub open spec fn unify_args_spec(
    types: Seq<Ty>,
    subst: Map<usize, usize>,
    xs: Seq<TyId>,
    ys: Seq<TyId>,
    from: nat,
    to: nat,
    fuel: nat,
) -> (Seq<Ty>, Map<usize, usize>, UnifyOutcome)
    decreases fuel, 1nat, to - from,
{
    if from >= to {
        (types, subst, UnifyOutcome::Done)
    } else {
        let r = unify_spec(types, subst, xs[from as int], ys[from as int], fuel);
        if r.2 is Done {
            unify_args_spec(r.0, r.1, xs, ys, from + 1, to, fuel)
        } else {
            r
        }
    }
}

/// Two types that are inference variables with the same id are the same type.
pub proof fn lemma_var_unique(types: Seq<Ty>, y: int, a: int, b1: bool, b2: bool, k: usize)
    requires
        types_wf(types),
        var_of(types, y, b1) == Some(k),
        var_of(types, a, b2) == Some(k),
    ensures
        y == a,
        b1 == b2,
{
    assert(ty_infer_id(types[y]) == Some(k));
    assert(ty_infer_id(types[a]) == Some(k));
    if y != a {
        assert(ty_infer_id(types[y]) != ty_infer_id(types[a]));
    }
}

/// Following bindings from an existing type stays among existing types.
pub proof fn lemma_chase_in_range(types: Seq<Ty>, subst: Map<usize, usize>, x: TyId, b: bool, f: nat)
    requires
        infer_wf(types, subst),
        x < types.len(),
        chase(types, subst, x, b, f) is Some,
    ensures
        chase(types, subst, x, b, f).unwrap() < types.len(),
    decreases f,
{
    match var_of(types, x as int, b) {
        Some(k) => if subst.contains_key(k) {
            lemma_chase_in_range(types, subst, subst[k], b, (f - 1) as nat);
        },
        None => {},
    }
}

/// A chain of integer-variable bindings that moves lands on an integer type or an integer
/// variable.
pub proof fn lemma_int_chase_lands(types: Seq<Ty>, subst: Map<usize, usize>, x: TyId, f: nat)
    requires
        infer_wf(types, subst),
        x < types.len(),
        chase(types, subst, x, true, f) is Some,
        chase(types, subst, x, true, f).unwrap() != x,
    ensures
        types[chase(types, subst, x, true, f).unwrap() as int] is IntTy
            || types[chase(types, subst, x, true, f).unwrap() as int] is InferInt,
    decreases f,
{
    match var_of(types, x as int, true) {
        Some(k) => if subst.contains_key(k) {
            let nx = subst[k];
            assert(types[nx as int] is IntTy || types[nx as int] is InferInt);
            if chase(types, subst, nx, true, (f - 1) as nat).unwrap() != nx {
                lemma_int_chase_lands(types, subst, nx, (f - 1) as nat);
            }
        },
        None => {},
    }
}

/// Where following all bindings from an existing type ends is an existing type that is not
/// a bound variable of either kind.
pub proof fn lemma_follow_all_end(types: Seq<Ty>, subst: Map<usize, usize>, t: TyId)
    requires
        infer_wf(types, subst),
        t < types.len(),
    ensures
        follow_spec(types, subst, t) < types.len(),
        follow_all_spec(types, subst, t) < types.len(),
        var_of(types, follow_all_spec(types, subst, t) as int, false) matches Some(k) ==> !subst.contains_key(k),
        var_of(types, follow_all_spec(types, subst, t) as int, true) matches Some(k) ==> !subst.contains_key(k),
{
    assert(chase_ends(types, subst, t, false));
    let f1 = choose|f: nat| #[trigger] chase(types, subst, t, false, f) is Some;
    lemma_chase_end(types, subst, t, false, f1);
    lemma_chase_in_range(types, subst, t, false, f1);
    lemma_chase_end_unbound(types, subst, t, false, f1);
    let m = follow_spec(types, subst, t);
    assert(chase_ends(types, subst, m, true));
    let f2 = choose|f: nat| #[trigger] chase(types, subst, m, true, f) is Some;
    lemma_chase_end(types, subst, m, true, f2);
    lemma_chase_in_range(types, subst, m, true, f2);
    lemma_chase_end_unbound(types, subst, m, true, f2);
    let a = follow_all_spec(types, subst, t);
    if a != m {
        lemma_int_chase_lands(types, subst, m, f2);
    }
}

/// Binding a variable of one kind leaves the chains of the other kind as they were.
pub proof fn lemma_bind_other_kind(
    types: Seq<Ty>,
    subst: Map<usize, usize>,
    a: int,
    k: usize,
    target: usize,
    int_kind: bool,
    x: TyId,
    f: nat,
)
    requires
        types_wf(types),
        var_of(types, a, int_kind) == Some(k),
    ensures
        chase(types, subst.insert(k, target), x, !int_kind, f) == chase(types, subst, x, !int_kind, f),
    decreases f,
{
    if f > 0 {
        match var_of(types, x as int, !int_kind) {
            Some(j) => {
                if j == k {
                    lemma_var_unique(types, x as int, a, !int_kind, int_kind, k);
                }
                if subst.contains_key(j) {
                    lemma_bind_other_kind(types, subst, a, k, target, int_kind, subst[j], (f - 1) as nat);
                }
            },
            None => {},
        }
    }
}

/// Binding the unbound variable of type `a` to `target`: chains that ended at `a` now go
/// one step further to `target`, and the others are as they were.
pub proof fn lemma_bind_chase(
    types: Seq<Ty>,
    subst: Map<usize, usize>,
    a: TyId,
    k: usize,
    target: TyId,
    int_kind: bool,
    x: TyId,
    f: nat,
)
    requires
        types_wf(types),
        var_of(types, a as int, int_kind) == Some(k),
        !subst.contains_key(k),
        target != a,
        var_of(types, target as int, int_kind) matches Some(j) ==> !subst.contains_key(j),
        chase(types, subst, x, int_kind, f) is Some,
    ensures
        chase(types, subst, x, int_kind, f).unwrap() != a ==> chase(types, subst.insert(k, target), x, int_kind, f)
            == chase(types, subst, x, int_kind, f),
        chase(types, subst, x, int_kind, f).unwrap() == a ==> chase(types, subst.insert(k, target), x, int_kind, f + 1)
            == Some(target),
    decreases f,
{
    let s2 = subst.insert(k, target);
    match var_of(types, x as int, int_kind) {
        Some(j) => {
            if subst.contains_key(j) {
                assert(j != k);
                lemma_bind_chase(types, subst, a, k, target, int_kind, subst[j], (f - 1) as nat);
            } else {
                if j == k {
                    lemma_var_unique(types, x as int, a as int, int_kind, int_kind, k);
                    assert(x == a);
                    // from a, one step to target, which ends there
                    match var_of(types, target as int, int_kind) {
                        Some(j2) => {
                            if j2 == k {
                                lemma_var_unique(types, target as int, a as int, int_kind, int_kind, k);
                            }
                            assert(!s2.contains_key(j2));
                        },
                        None => {},
                    }
                    assert(chase(types, s2, target, int_kind, f) == Some(target));
                } else {
                    if x == a {
                        assert(var_of(types, a as int, int_kind) == Some(j));
                    }
                }
            }
        },
        None => {
            if x == a {
                assert(var_of(types, a as int, int_kind) is Some);
            }
        },
    }
}

/// Binding the unbound variable of an end type `a` to another end type `target` keeps the
/// state consistent; chains of its kind that ended at `a` now end at `target`.
pub proof fn lemma_bind_wf(types: Seq<Ty>, subst: Map<usize, usize>, a: TyId, k: usize, target: TyId, int_kind: bool)
    requires
        infer_wf(types, subst),
        a < types.len(),
        target < types.len(),
        var_of(types, a as int, int_kind) == Some(k),
        !subst.contains_key(k),
        target != a,
        var_of(types, target as int, int_kind) matches Some(j) ==> !subst.contains_key(j),
        int_kind ==> (types[target as int] is IntTy || types[target as int] is InferInt),
    ensures
        infer_wf(types, subst.insert(k, target)),
        forall|x: TyId| x < types.len() ==> #[trigger] chase_end(types, subst.insert(k, target), x, int_kind)
            == if chase_end(types, subst, x, int_kind) == a { target } else { chase_end(types, subst, x, int_kind) },
        forall|x: TyId, b: bool| x < types.len() && b != int_kind ==> #[trigger] chase_end(types, subst.insert(k, target), x, b)
            == chase_end(types, subst, x, b),
{
    let s2 = subst.insert(k, target);
    assert forall|x: TyId| x < types.len() implies chase_ends(types, s2, x, int_kind)
        && #[trigger] chase_end(types, s2, x, int_kind) == if chase_end(types, subst, x, int_kind) == a { target } else { chase_end(types, subst, x, int_kind) } by {
        assert(chase_ends(types, subst, x, int_kind));
        let f = choose|f: nat| #[trigger] chase(types, subst, x, int_kind, f) is Some;
        lemma_chase_end(types, subst, x, int_kind, f);
        lemma_bind_chase(types, subst, a, k, target, int_kind, x, f);
        if chase(types, subst, x, int_kind, f).unwrap() == a {
            lemma_chase_end(types, s2, x, int_kind, f + 1);
        } else {
            lemma_chase_end(types, s2, x, int_kind, f);
        }
    }
    assert forall|x: TyId, b: bool| x < types.len() && b != int_kind implies chase_ends(types, s2, x, b)
        && #[trigger] chase_end(types, s2, x, b) == chase_end(types, subst, x, b) by {
        assert(chase_ends(types, subst, x, b));
        let f = choose|f: nat| #[trigger] chase(types, subst, x, b, f) is Some;
        lemma_chase_end(types, subst, x, b, f);
        lemma_bind_other_kind(types, subst, a as int, k, target, int_kind, x, f);
        assert(!int_kind == b);
        lemma_chase_end(types, s2, x, b, f);
    }
    assert forall|x: TyId| x < types.len() implies #[trigger] chase_ends(types, s2, x, false) by {
        let _ = chase_end(types, s2, x, false);
    }
    assert forall|x: TyId| x < types.len() implies #[trigger] chase_ends(types, s2, x, true) by {
        let _ = chase_end(types, s2, x, true);
    }
    assert forall|i: int| 0 <= i < types.len() && (#[trigger] var_of(types, i, true)) is Some
        && s2.contains_key(var_of(types, i, true).unwrap())
        implies (types[s2[var_of(types, i, true).unwrap()] as int] is IntTy
            || types[s2[var_of(types, i, true).unwrap()] as int] is InferInt) by {
        let j = var_of(types, i, true).unwrap();
        if j == k {
            lemma_var_unique(types, i, a as int, true, int_kind, k);
        }
    }
}

/// Adding a type that is not a variable keeps the state consistent and every chain as it
/// was.
pub proof fn lemma_alloc_keeps_wf(types: Seq<Ty>, subst: Map<usize, usize>, ty: Ty)
    requires
        infer_wf(types, subst),
        ty_infer_id(ty) is None,
        types_wf(alloc_types(types, ty)),
    ensures
        infer_wf(alloc_types(types, ty), subst),
        forall|x: TyId, b: bool| x < types.len() ==> #[trigger] chase_end(alloc_types(types, ty), subst, x, b)
            == chase_end(types, subst, x, b),
{
    let t2 = alloc_types(types, ty);
    if t2 == types {
    } else {
        assert(t2 == types.push(ty));
        lemma_push_keeps_chases(types, subst, ty);
        assert forall|x: TyId, b: bool| x < types.len() implies #[trigger] chase_end(t2, subst, x, b) == chase_end(types, subst, x, b) by {
            if b {
                assert(chase_ends(types, subst, x, true));
            } else {
                assert(chase_ends(types, subst, x, false));
            }
            let f = choose|f: nat| #[trigger] chase(types, subst, x, b, f) is Some;
            lemma_chase_end(types, subst, x, b, f);
            lemma_chase_end(t2, subst, x, b, f);
        }
        assert forall|i: int| 0 <= i < t2.len() && (#[trigger] var_of(t2, i, true)) is Some
            && subst.contains_key(var_of(t2, i, true).unwrap())
            implies (t2[subst[var_of(t2, i, true).unwrap()] as int] is IntTy
                || t2[subst[var_of(t2, i, true).unwrap()] as int] is InferInt) by {
            assert(i < types.len());
            assert(var_of(t2, i, true) == var_of(types, i, true));
        }
    }
}

/// Whether a result reports an outcome: `Ok` for `Done`, a mismatch error with its message
/// for `Mismatch`, and an error of kind `Other` when the bound on depth was reached; the
/// error is at `token`.
pub open spec fn reports(out: UnifyOutcome, r: CheckResult<()>, types: Seq<Ty>, token: Token) -> bool {
    match out {
        UnifyOutcome::Done => r is Ok,
        UnifyOutcome::Mismatch(x, y) => match r {
            Err(e) => e.kind == TypeCheckerErrorKind::TypeMismatch && e.token == token
                && (e.message matches Some(m) && m@ == mismatch_message(types, x, y)),
            Ok(_) => false,
        },
        UnifyOutcome::OutOfFuel => match r {
            Err(e) => e.kind == TypeCheckerErrorKind::Other && e.token == token,
            Ok(_) => false,
        },
    }
}

/// Whether `b` keeps every type of `a` and every binding of `a`.
pub open spec fn extends(a: InferContext, b: InferContext) -> bool {
    &&& a.types().len() <= b.types().len()
    &&& forall|i: int| 0 <= i < a.types().len() ==> #[trigger] b.types()[i] == a.types()[i]
    &&& forall|k: usize| #[trigger] a.subst().contains_key(k) ==> b.subst().contains_key(k) && b.subst()[k] == a.subst()[k]
}

/// Whether `b` has the same typed expressions, statements, symbol table and next variable id
/// as `a`.
pub open spec fn same_frame(a: InferContext, b: InferContext) -> bool {
    &&& b.module.typed_exprs@ == a.module.typed_exprs@
    &&& b.module.typed_stmts@ == a.module.typed_stmts@
    &&& b.module.tcx.table == a.module.tcx.table
    &&& b.next_id() == a.next_id()
}

/// The bound on how deep unification goes.
pub const UNIFY_DEPTH: u64 = 0xffff_ffff_ffff_ffff;

impl InferContext {
    /// The mismatch error between the types with ids `t1` and `t2`, at `token`.
    pub fn make_mismatch_error(&self, t1: TyId, t2: TyId, token: Token) -> (e: TypeCheckerError)
        requires
            types_wf(self.types()),
            t1 < self.types().len(),
            t2 < self.types().len(),
        ensures
            e.kind == TypeCheckerErrorKind::TypeMismatch,
            e.token == token,
            e.message is Some,
            e.message.unwrap()@ == mismatch_message(self.types(), t1, t2),
    {
        let tcx = &self.module.tcx;
        proof {
            assert(ty_parts_below(self.types()[t1 as int], t1 as int));
            assert(ty_parts_below(self.types()[t2 as int], t2 as int));
            lemma_parts_below_mono(self.types()[t1 as int], t1 as int, self.types().len() as int);
            lemma_parts_below_mono(self.types()[t2 as int], t2 as int, self.types().len() as int);
        }
        let mut m = String::from_str("expected `");
        let d1 = display_ty(tcx.get(t1), tcx);
        m.append(d1.as_str());
        m.append("`, got ");
        let d2 = display_ty(tcx.get(t2), tcx);
        m.append(d2.as_str());
        TypeCheckerError { kind: TypeCheckerErrorKind::TypeMismatch, token, message: Some(m) }
    }

    fn bind(&mut self, a: TyId, k: usize, target: TyId, int_kind: bool)
        requires
            old(self).wf(),
            a < old(self).types().len(),
            target < old(self).types().len(),
            var_of(old(self).types(), a as int, int_kind) == Some(k),
            !old(self).subst().contains_key(k),
            target != a,
            var_of(old(self).types(), target as int, int_kind) matches Some(j) ==> !old(self).subst().contains_key(j),
            int_kind ==> (old(self).types()[target as int] is IntTy || old(self).types()[target as int] is InferInt),
        ensures
            final(self).wf(),
            final(self).types() == old(self).types(),
            final(self).subst() == old(self).subst().insert(k, target),
            same_frame(*old(self), *final(self)),
            extends(*old(self), *final(self)),
    {
        proof {
            lemma_bind_wf(self.types(), self.subst(), a, k, target, int_kind);
            assert(ty_infer_id(self.types()[a as int]) == Some(k));
        }
        self.substitutions.insert(k, target);
    }

    /// Unifies the types with ids `t1` and `t2`, at most `fuel` levels deep; see
    /// `unify_spec`.
    #[verifier::rlimit(100)]
    pub fn unify_fuel(&mut self, t1: TyId, t2: TyId, token: &Token, fuel: u64) -> (r: CheckResult<()>)
        requires
            old(self).wf(),
            t1 < old(self).types().len(),
            t2 < old(self).types().len(),
        ensures
            final(self).wf(),
            final(self).types() == unify_spec(old(self).types(), old(self).subst(), t1, t2, fuel as nat).0,
            final(self).subst() == unify_spec(old(self).types(), old(self).subst(), t1, t2, fuel as nat).1,
            reports(unify_spec(old(self).types(), old(self).subst(), t1, t2, fuel as nat).2, r, final(self).types(), *token),
            same_frame(*old(self), *final(self)),
            extends(*old(self), *final(self)),
        decreases fuel, 0nat,
    {
        if fuel == 0 {
            return Err(make_err(Some("type nesting too deep"), TypeCheckerErrorKind::Other, token.copy()));
        }
        let ghost types = self.types();
        let ghost subst = self.subst();
        proof {
            lemma_follow_all_end(types, subst, t1);
            lemma_follow_all_end(types, subst, t2);
        }
        let a = self.follow_all(t1);
        let b = self.follow_all(t2);
        if a == b {
            return Ok(());
        }
        let ta = self.module.tcx.get(a);
        let tb = self.module.tcx.get(b);
        if let Ty::Infer(id) = ta {
            let id = *id;
            self.bind(a, id, b, false);
            return Ok(());
        }
        if let Ty::Infer(id) = tb {
            let id = *id;
            self.bind(b, id, a, false);
            return Ok(());
        }
        match (ta, tb) {
            (Ty::InferInt(id), Ty::IntTy(_)) => {
                let id = *id;
                self.bind(a, id, b, true);
                return Ok(());
            },
            (Ty::IntTy(_), Ty::InferInt(id)) => {
                let id = *id;
                self.bind(b, id, a, true);
                return Ok(());
            },
            _ => {},
        }
        let int_ptr: Option<(TyId, usize)> = match (ta, tb) {
            (Ty::InferInt(id), Ty::Ptr(_)) => Some((a, *id)),
            (Ty::Ptr(_), Ty::InferInt(id)) => Some((b, *id)),
            _ => None,
        };
        if let Some((v, id)) = int_ptr {
            let ghost t0 = self.types();
            let u = self.module.tcx_mut().alloc_type(Ty::IntTy(IntTy::USize));
            proof {
                lemma_alloc_keeps_wf(t0, subst, Ty::IntTy(IntTy::USize));
                assert(var_of(self.types(), v as int, true) == var_of(t0, v as int, true));
                assert(self.types()[u as int] is IntTy);
                assert forall|i: int| 0 <= i < self.types().len() && (#[trigger] ty_infer_id(self.types()[i])) is Some
                    implies ty_infer_id(self.types()[i]).unwrap() < self.next_id() by {
                    if i >= t0.len() {
                        assert(alloc_types(t0, Ty::IntTy(IntTy::USize)) == t0.push(Ty::IntTy(IntTy::USize)));
                    }
                }
            }
            self.bind(v, id, u, true);
            return Ok(());
        }
        if let (Ty::InferInt(id1), Ty::InferInt(id2)) = (ta, tb) {
            if *id1 != *id2 {
                let id1 = *id1;
                self.bind(a, id1, b, true);
            }
            return Ok(());
        }
        if let (Ty::Ptr(x), Ty::Ptr(y)) = (ta, tb) {
            let x = *x;
            let y = *y;
            proof {
                assert(ty_parts_below(types[a as int], a as int));
                assert(ty_parts_below(types[b as int], b as int));
            }
            return self.unify_fuel(x, y, token, fuel - 1);
        }
        if let (Ty::AppliedGeneric(n1, a1), Ty::AppliedGeneric(n2, a2)) = (ta, tb) {
            if !(*n1 == *n2) || a1.len() != a2.len() {
                return Err(self.make_mismatch_error(a, b, token.copy()));
            }
            let xs = ids_copy(a1);
            let ys = ids_copy(a2);
            proof {
                assert(ty_parts_below(types[a as int], a as int));
                assert(ty_parts_below(types[b as int], b as int));
            }
            let n = xs.len();
            return self.unify_args(&xs, &ys, n, token, fuel - 1);
        }
        if let (
            Ty::Function { params_type: p1, ret_type: r1, is_variadic: v1, .. },
            Ty::Function { params_type: p2, ret_type: r2, is_variadic: v2, .. },
        ) = (ta, tb) {
            if !*v1 && !*v2 && p1.len() != p2.len() {
                return Err(self.make_mismatch_error(a, b, token.copy()));
            }
            let xs = ids_copy(p1);
            let ys = ids_copy(p2);
            let r1 = *r1;
            let r2 = *r2;
            proof {
                assert(ty_parts_below(types[a as int], a as int));
                assert(ty_parts_below(types[b as int], b as int));
            }
            let n = if xs.len() <= ys.len() { xs.len() } else { ys.len() };
            let ghost before = *self;
            let r = self.unify_args(&xs, &ys, n, token, fuel - 1);
            if r.is_err() {
                return r;
            }
            return self.unify_fuel(r1, r2, token, fuel - 1);
        }
        if !ty_eq(ta, tb) {
            return Err(self.make_mismatch_error(a, b, token.copy()));
        }
        Ok(())
    }

    /// Unifies `xs[i]` with `ys[i]` for each `i` below `n`, in order, at most `fuel` levels
    /// deep; see `unify_args_spec`.
    pub fn unify_args(&mut self, xs: &Vec<TyId>, ys: &Vec<TyId>, n: usize, token: &Token, fuel: u64) -> (r: CheckResult<()>)
        requires
            old(self).wf(),
            n <= xs@.len(),
            n <= ys@.len(),
            ids_below(xs@, old(self).types().len() as int),
            ids_below(ys@, old(self).types().len() as int),
        ensures
            final(self).wf(),
            final(self).types() == unify_args_spec(old(self).types(), old(self).subst(), xs@, ys@, 0, n as nat, fuel as nat).0,
            final(self).subst() == unify_args_spec(old(self).types(), old(self).subst(), xs@, ys@, 0, n as nat, fuel as nat).1,
            reports(unify_args_spec(old(self).types(), old(self).subst(), xs@, ys@, 0, n as nat, fuel as nat).2, r, final(self).types(), *token),
            same_frame(*old(self), *final(self)),
            extends(*old(self), *final(self)),
        decreases fuel, 1nat,
    {
        let mut i: usize = 0;
        while i < n
            invariant
                self.wf(),
                0 <= i <= n,
                n <= xs@.len(),
                n <= ys@.len(),
                ids_below(xs@, old(self).types().len() as int),
                ids_below(ys@, old(self).types().len() as int),
                unify_args_spec(old(self).types(), old(self).subst(), xs@, ys@, 0, n as nat, fuel as nat)
                    == unify_args_spec(self.types(), self.subst(), xs@, ys@, i as nat, n as nat, fuel as nat),
                same_frame(*old(self), *self),
                extends(*old(self), *self),
            decreases n - i,
        {
            let ghost before = *self;
            let r = self.unify_fuel(xs[i], ys[i], token, fuel);
            if r.is_err() {
                proof {
                    let u = unify_spec(before.types(), before.subst(), xs@[i as int], ys@[i as int], fuel as nat);
                    assert(!(u.2 is Done));
                    assert(unify_args_spec(before.types(), before.subst(), xs@, ys@, i as nat, n as nat, fuel as nat) == u);
                    assert(self.types() == u.0);
                    assert(self.subst() == u.1);
                }
                return r;
            }
            i = i + 1;
        }
        Ok(())
    }

    /// Unifies the types with ids `t1` and `t2`: binds inference variables so that they
    /// agree, or reports a mismatch at `token`.
    pub fn unify(&mut self, t1: TyId, t2: TyId, token: Token) -> (r: CheckResult<()>)
        requires
            old(self).wf(),
            t1 < old(self).types().len(),
            t2 < old(self).types().len(),
        ensures
            final(self).wf(),
            final(self).types() == unify_spec(old(self).types(), old(self).subst(), t1, t2, UNIFY_DEPTH as nat).0,
            final(self).subst() == unify_spec(old(self).types(), old(self).subst(), t1, t2, UNIFY_DEPTH as nat).1,
            reports(unify_spec(old(self).types(), old(self).subst(), t1, t2, UNIFY_DEPTH as nat).2, r, final(self).types(), token),
            same_frame(*old(self), *final(self)),
            extends(*old(self), *final(self)),
    {
        self.unify_fuel(t1, t2, &token, UNIFY_DEPTH)
    }
}

pub proof fn lemma_parts_below_mono(ty: Ty, n: int, m: int)
    requires
        ty_parts_below(ty, n),
        n <= m,
    ensures
        ty_parts_below(ty, m),
{
}

/// Where a chain of bindings ends, it ends at once.
pub proof fn lemma_chase_end_fixed(types: Seq<Ty>, subst: Map<usize, usize>, x: TyId, b: bool)
    requires
        var_of(types, x as int, b) matches Some(k) ==> !subst.contains_key(k),
    ensures
        chase_end(types, subst, x, b) == x,
{
    assert(chase(types, subst, x, b, 1) == Some(x));
    lemma_chase_end(types, subst, x, b, 1);
}

/// Law: unifying a type with itself succeeds and changes nothing.
pub proof fn law_unify_refl(types: Seq<Ty>, subst: Map<usize, usize>, t: TyId, fuel: nat)
    requires
        infer_wf(types, subst),
        t < types.len(),
        fuel > 0,
    ensures
        unify_spec(types, subst, t, t, fuel) == (types, subst, UnifyOutcome::Done),
{
}

/// Law: unifying a type that resolves to an unbound plain inference variable with a type
/// that resolves elsewhere succeeds, and afterwards both resolve to where the second one
/// resolved before.
pub proof fn law_unify_binds_variable(types: Seq<Ty>, subst: Map<usize, usize>, t1: TyId, t2: TyId, fuel: nat)
    requires
        infer_wf(types, subst),
        t1 < types.len(),
        t2 < types.len(),
        fuel > 0,
        types[follow_all_spec(types, subst, t1) as int] is Infer,
        follow_all_spec(types, subst, t1) != follow_all_spec(types, subst, t2),
    ensures
        unify_spec(types, subst, t1, t2, fuel).2 is Done,
        unify_spec(types, subst, t1, t2, fuel).0 == types,
        infer_wf(types, unify_spec(types, subst, t1, t2, fuel).1),
        follow_all_spec(types, unify_spec(types, subst, t1, t2, fuel).1, t1) == follow_all_spec(types, subst, t2),
        follow_all_spec(types, unify_spec(types, subst, t1, t2, fuel).1, t2) == follow_all_spec(types, subst, t2),
{
    let a = follow_all_spec(types, subst, t1);
    let b = follow_all_spec(types, subst, t2);
    lemma_follow_all_end(types, subst, t1);
    lemma_follow_all_end(types, subst, t2);
    let k = match types[a as int] {
        Ty::Infer(k) => k,
        _ => 0,
    };
    assert(var_of(types, a as int, false) == Some(k));
    let s2 = subst.insert(k, b);
    assert(unify_spec(types, subst, t1, t2, fuel) == (types, s2, UnifyOutcome::Done));
    lemma_bind_wf(types, subst, a, k, b, false);
    let m1 = follow_spec(types, subst, t1);
    let m2 = follow_spec(types, subst, t2);
    // `a` is a plain variable, so following integer bindings did not move from m1.
    assert(chase_ends(types, subst, m1, true));
    let f = choose|f: nat| #[trigger] chase(types, subst, m1, true, f) is Some;
    lemma_chase_end(types, subst, m1, true, f);
    if a != m1 {
        lemma_int_chase_lands(types, subst, m1, f);
    }
    assert(m1 == a);
    // b is an end of integer chains, and stays one.
    lemma_chase_end_fixed(types, subst, b, true);
    assert(chase_end(types, s2, b, true) == chase_end(types, subst, b, true));
    assert(chase_end(types, s2, t1, false) == b);
    if m2 == a {
        lemma_chase_end_fixed(types, subst, a, true);
    }
    assert(chase_end(types, s2, t2, false) == m2);
    assert(chase_end(types, s2, m2, true) == chase_end(types, subst, m2, true));
}

/// Law: unifying two non-variadic function types whose parameter lists differ in length is a
/// mismatch between the two types, and binds and adds nothing.
pub proof fn law_unify_arity_mismatch(types: Seq<Ty>, subst: Map<usize, usize>, t1: TyId, t2: TyId, fuel: nat)
    requires
        infer_wf(types, subst),
        t1 < types.len(),
        t2 < types.len(),
        fuel > 0,
        types[follow_all_spec(types, subst, t1) as int] matches Ty::Function { params_type: p1, is_variadic: false, .. }
            && types[follow_all_spec(types, subst, t2) as int] matches Ty::Function { params_type: p2, is_variadic: false, .. }
            && p1@.len() != p2@.len(),
    ensures
        unify_spec(types, subst, t1, t2, fuel) == (types, subst, UnifyOutcome::Mismatch(
            follow_all_spec(types, subst, t1), follow_all_spec(types, subst, t2))),
{
}

} // verus!
