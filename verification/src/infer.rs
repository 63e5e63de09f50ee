//! The inference pass: it walks the typed module, unifies the types that must agree, and
//! writes the resolved types back.
use crate::constraint::Constraint;
use crate::error::{CheckResult, TypeCheckerError, TypeCheckerErrorKind};
use crate::ty_context::{ty_infer_id, ty_maps_ok, ty_parts_below};
use crate::token::Token;
use crate::ids::{ExprId, ModuleId, StmtId};
use crate::infer_context::{follow_all_spec, follow_int_spec, follow_spec, infer_wf, InferContext};
use crate::resolve::{resolved, types_extend, lemma_resolved_extend, RESOLVE_DEPTH};
use crate::ty::{IntTy, Ty, TyId};
use crate::typed_ast::{expr_ty, expr_with_ty, stmt_ty, stmt_with_ty, GetType, TypedExpression, TypedNode, TypedStatement};
use crate::unify::{extends, reports, same_frame, unify_spec, UnifyOutcome, UNIFY_DEPTH};
use crate::checker::GlobalDef;
use crate::table::table_below;
use crate::imap::entries_keys_unique;
use crate::resolve::mapping_view;
use vstd::prelude::*;

verus! {

/// The state of the inference pass.
pub struct TypeInfer {
    pub infer_ctx: InferContext,
    /// The types found for local names.
    pub locals_tyid: Vec<(String, TyId)>,
    /// The return type of the function being inferred, if any.
    pub current_expected_ret_ty: Option<TyId>,
    pub current_mod_id: ModuleId,
    /// The names of the crate's definitions.
    pub globals: Vec<GlobalDef>,
    /// The type of each of the crate's definitions, by id, where it has one.
    pub def_tys: Vec<Option<TyId>>,
}

/// The type of the definition named `name` in module `m`, if it has one.
pub open spec fn global_ty(globals: Seq<GlobalDef>, def_tys: Seq<Option<TyId>>, m: ModuleId, name: Seq<char>) -> Option<TyId> {
    match crate::checker::global_lookup(globals, m, name) {
        Some(g) => def_tys[g.def_id.0 as int],
        None => None,
    }
}

/// Whether every pair's type is below `n`.
pub open spec fn locals_below(locals: Seq<(String, TyId)>, n: int) -> bool {
    forall|i: int| 0 <= i < locals.len() ==> #[trigger] locals[i].1 < n
}

/// Whether `new` is `old` with every expression, statement and local type resolved (see
/// `resolved`) in the types and bindings of `new`.
pub open spec fn finalized(old: TypeInfer, new: TypeInfer) -> bool {
    let (t, s) = (new.infer_ctx.types(), new.infer_ctx.subst());
    let (e0, e1) = (old.infer_ctx.module.typed_exprs@, new.infer_ctx.module.typed_exprs@);
    let (s0, s1) = (old.infer_ctx.module.typed_stmts@, new.infer_ctx.module.typed_stmts@);
    let (l0, l1) = (old.locals_tyid@, new.locals_tyid@);
    &&& e1.len() == e0.len()
    &&& forall|i: int| 0 <= i < e0.len() ==> #[trigger] e1[i] == expr_with_ty(e0[i], expr_ty(e1[i]))
        && resolved(t, s, expr_ty(e0[i]), expr_ty(e1[i]), RESOLVE_DEPTH as nat)
    &&& s1.len() == s0.len()
    &&& forall|i: int| 0 <= i < s0.len() ==> #[trigger] s1[i] == stmt_with_ty(s0[i], stmt_ty(s1[i]))
        && resolved(t, s, stmt_ty(s0[i]), stmt_ty(s1[i]), RESOLVE_DEPTH as nat)
    &&& l1.len() == l0.len()
    &&& forall|i: int| 0 <= i < l0.len() ==> #[trigger] l1[i].0@ == l0[i].0@
        && resolved(t, s, l0[i].1, l1[i].1, RESOLVE_DEPTH as nat)
}

/// Whether the definition types of `new` are those of `old`, each resolved (see
/// `resolved`) in the types and bindings of `new`.
pub open spec fn defs_finalized(old: TypeInfer, new: TypeInfer) -> bool {
    let (d0, d1) = (old.def_tys@, new.def_tys@);
    &&& d1.len() == d0.len()
    &&& forall|i: int| 0 <= i < d0.len() ==> match #[trigger] d0[i] {
        Some(t) => d1[i] matches Some(r) && resolved(new.infer_ctx.types(), new.infer_ctx.subst(), t, r, RESOLVE_DEPTH as nat),
        None => d1[i] is None,
    }
}

/// Resolution written back stays resolved once more types are added, and the definition
/// types are left alone: finalizing from `a` to `b`, then adding types and resolving the
/// definitions from `b` to `c`, finalizes from `a` to `c`.
pub proof fn lemma_finalized_extend(a: TypeInfer, b: TypeInfer, c: TypeInfer)
    requires
        finalized(a, b),
        types_extend(b.infer_ctx.types(), c.infer_ctx.types()),
        c.infer_ctx.subst() == b.infer_ctx.subst(),
        c.infer_ctx.module.typed_exprs@ == b.infer_ctx.module.typed_exprs@,
        c.infer_ctx.module.typed_stmts@ == b.infer_ctx.module.typed_stmts@,
        c.locals_tyid@ == b.locals_tyid@,
        a.def_tys == b.def_tys,
        defs_finalized(b, c),
        infer_wf(b.infer_ctx.types(), b.infer_ctx.subst()),
        forall|i: int| 0 <= i < b.infer_ctx.module.typed_exprs@.len() ==> #[trigger] expr_ty(b.infer_ctx.module.typed_exprs@[i]) < b.infer_ctx.types().len(),
        forall|i: int| 0 <= i < b.infer_ctx.module.typed_stmts@.len() ==> #[trigger] stmt_ty(b.infer_ctx.module.typed_stmts@[i]) < b.infer_ctx.types().len(),
        locals_below(b.locals_tyid@, b.infer_ctx.types().len() as int),
    ensures
        finalized(a, c),
        defs_finalized(a, c),
{
    let (t1, t2, sb) = (b.infer_ctx.types(), c.infer_ctx.types(), b.infer_ctx.subst());
    let (e0, e1) = (a.infer_ctx.module.typed_exprs@, b.infer_ctx.module.typed_exprs@);
    let (s0, s1) = (a.infer_ctx.module.typed_stmts@, b.infer_ctx.module.typed_stmts@);
    let (l0, l1) = (a.locals_tyid@, b.locals_tyid@);
    assert forall|i: int| 0 <= i < e0.len() implies #[trigger] e1[i] == expr_with_ty(e0[i], expr_ty(e1[i]))
        && resolved(t2, sb, expr_ty(e0[i]), expr_ty(e1[i]), RESOLVE_DEPTH as nat) by {
        lemma_resolved_extend(t1, t2, sb, expr_ty(e0[i]), expr_ty(e1[i]), RESOLVE_DEPTH as nat);
    }
    assert forall|i: int| 0 <= i < s0.len() implies #[trigger] s1[i] == stmt_with_ty(s0[i], stmt_ty(s1[i]))
        && resolved(t2, sb, stmt_ty(s0[i]), stmt_ty(s1[i]), RESOLVE_DEPTH as nat) by {
        lemma_resolved_extend(t1, t2, sb, stmt_ty(s0[i]), stmt_ty(s1[i]), RESOLVE_DEPTH as nat);
    }
    assert forall|i: int| 0 <= i < l0.len() implies #[trigger] l1[i].0@ == l0[i].0@
        && resolved(t2, sb, l0[i].1, l1[i].1, RESOLVE_DEPTH as nat) by {
        assert(l1[i].0@ == l0[i].0@ && resolved(t1, sb, l0[i].1, l1[i].1, RESOLVE_DEPTH as nat));
        lemma_resolved_extend(t1, t2, sb, l0[i].1, l1[i].1, RESOLVE_DEPTH as nat);
    }
}

impl TypeInfer {
    /// A consistent inference state whose expressions, statements and locals have types
    /// that exist.
    pub open spec fn wf(self) -> bool {
        let n = self.infer_ctx.types().len() as int;
        &&& self.infer_ctx.wf()
        &&& forall|i: int| 0 <= i < self.infer_ctx.module.typed_exprs@.len()
            ==> #[trigger] expr_ty(self.infer_ctx.module.typed_exprs@[i]) < n
        &&& forall|i: int| 0 <= i < self.infer_ctx.module.typed_stmts@.len()
            ==> #[trigger] stmt_ty(self.infer_ctx.module.typed_stmts@[i]) < n
        &&& locals_below(self.locals_tyid@, n)
        &&& table_below(self.infer_ctx.module.tcx.table, n)
        &&& entries_keys_unique(mapping_view(self.locals_tyid@))
        &&& forall|i: int| 0 <= i < self.globals@.len() ==> (#[trigger] self.globals@[i]).def_id.0 < self.def_tys@.len()
        &&& forall|i: int| 0 <= i < self.def_tys@.len() ==> ((#[trigger] self.def_tys@[i]) matches Some(t) ==> t < n)
        &&& self.current_expected_ret_ty matches Some(t) ==> t < n
    }

    /// The types found for local names.
    pub open spec fn locals(self) -> Seq<(String, TyId)> {
        self.locals_tyid@
    }

    /// A pass over `infer_ctx` with the crate's definitions named by `globals` and typed by
    /// `def_tys` that starts in module
    /// `root_id`, with no locals and outside any function.
    pub fn new(infer_ctx: InferContext, globals: Vec<GlobalDef>, def_tys: Vec<Option<TyId>>, root_id: ModuleId) -> (r: TypeInfer)
        ensures
            r.infer_ctx == infer_ctx,
            r.globals@ == globals@,
            r.def_tys@ == def_tys@,
            r.locals().len() == 0,
            r.current_expected_ret_ty is None,
            r.current_mod_id == root_id,
    {
        TypeInfer { infer_ctx, locals_tyid: Vec::new(), current_expected_ret_ty: None, current_mod_id: root_id, globals, def_tys }
    }

    /// Where following all bindings from `id` ends.
    pub fn follow_all(&self, id: TyId) -> (r: TyId)
        requires
            infer_wf(self.infer_ctx.types(), self.infer_ctx.subst()),
            id < self.infer_ctx.types().len(),
        ensures
            r == follow_all_spec(self.infer_ctx.types(), self.infer_ctx.subst(), id),
            r < self.infer_ctx.types().len(),
    {
        self.infer_ctx.follow_all(id)
    }

    /// Where following the bindings of plain inference variables from `id` ends.
    pub fn follow(&self, id: TyId) -> (r: TyId)
        requires
            infer_wf(self.infer_ctx.types(), self.infer_ctx.subst()),
            id < self.infer_ctx.types().len(),
        ensures
            r == follow_spec(self.infer_ctx.types(), self.infer_ctx.subst(), id),
            r < self.infer_ctx.types().len(),
    {
        self.infer_ctx.follow(id)
    }

    /// Where following the bindings of integer inference variables from `id` ends.
    pub fn follow_int(&self, id: TyId) -> (r: TyId)
        requires
            infer_wf(self.infer_ctx.types(), self.infer_ctx.subst()),
            id < self.infer_ctx.types().len(),
        ensures
            r == follow_int_spec(self.infer_ctx.types(), self.infer_ctx.subst(), id),
            r < self.infer_ctx.types().len(),
    {
        self.infer_ctx.follow_int(id)
    }

    /// The type that `id` stands for once every binding is followed.
    pub fn resolve_real_ty(&self, id: TyId) -> (r: TyId)
        requires
            infer_wf(self.infer_ctx.types(), self.infer_ctx.subst()),
            id < self.infer_ctx.types().len(),
        ensures
            r == follow_all_spec(self.infer_ctx.types(), self.infer_ctx.subst(), id),
            r < self.infer_ctx.types().len(),
    {
        self.follow_all(id)
    }

    /// The type `id` resolved, as `finalize` writes it back: an integer variable left at
    /// the end is followed once more.
    fn final_type(&mut self, id: TyId) -> (r: TyId)
        requires
            old(self).infer_ctx.wf(),
            id < old(self).infer_ctx.types().len(),
        ensures
            final(self).infer_ctx.wf(),
            r < final(self).infer_ctx.types().len(),
            resolved(final(self).infer_ctx.types(), final(self).infer_ctx.subst(), id, r, RESOLVE_DEPTH as nat),
            final(self).infer_ctx.subst() == old(self).infer_ctx.subst(),
            same_frame(old(self).infer_ctx, final(self).infer_ctx),
            extends(old(self).infer_ctx, final(self).infer_ctx),
            final(self).locals_tyid == old(self).locals_tyid,
            final(self).current_expected_ret_ty == old(self).current_expected_ret_ty,
            final(self).current_mod_id == old(self).current_mod_id,
            final(self).globals == old(self).globals,
            final(self).def_tys == old(self).def_tys,
    {
        let resolved_id = self.infer_ctx.deep_resolve(id);
        proof {
            lemma_resolved_not_int_var(self.infer_ctx.types(), self.infer_ctx.subst(), id, resolved_id, RESOLVE_DEPTH as nat);
        }
        let is_infer_int = match self.infer_ctx.module.tcx.get(resolved_id) {
            Ty::InferInt(_) => true,
            _ => false,
        };
        if is_infer_int {
            self.infer_ctx.follow_int(resolved_id)
        } else {
            resolved_id
        }
    }

    /// Writes back every expression, statement and local type resolved (see `finalized`),
    /// then every definition's type (see `defs_finalized`).
    pub fn finalize(&mut self)
        requires
            old(self).wf(),
        ensures
            final(self).wf(),
            finalized(*old(self), *final(self)),
            defs_finalized(*old(self), *final(self)),
            final(self).infer_ctx.subst() == old(self).infer_ctx.subst(),
            final(self).infer_ctx.next_id() == old(self).infer_ctx.next_id(),
            final(self).infer_ctx.module.tcx.table == old(self).infer_ctx.module.tcx.table,
            types_extend(old(self).infer_ctx.types(), final(self).infer_ctx.types()),
            final(self).current_expected_ret_ty == old(self).current_expected_ret_ty,
            final(self).current_mod_id == old(self).current_mod_id,
            final(self).globals == old(self).globals,
    {
        let ghost s0 = *self;
        self.finalize_module();
        let ghost mid = *self;
        self.finalize_defs();
        proof {
            lemma_finalized_extend(s0, mid, *self);
        }
    }

    /// Resolves the type of every definition that has one (see `defs_finalized`).
    fn finalize_defs(&mut self)
        requires
            old(self).wf(),
        ensures
            final(self).wf(),
            defs_finalized(*old(self), *final(self)),
            final(self).infer_ctx.subst() == old(self).infer_ctx.subst(),
            final(self).infer_ctx.next_id() == old(self).infer_ctx.next_id(),
            final(self).infer_ctx.module.tcx.table == old(self).infer_ctx.module.tcx.table,
            final(self).infer_ctx.module.typed_exprs@ == old(self).infer_ctx.module.typed_exprs@,
            final(self).infer_ctx.module.typed_stmts@ == old(self).infer_ctx.module.typed_stmts@,
            final(self).locals_tyid == old(self).locals_tyid,
            types_extend(old(self).infer_ctx.types(), final(self).infer_ctx.types()),
            final(self).current_expected_ret_ty == old(self).current_expected_ret_ty,
            final(self).current_mod_id == old(self).current_mod_id,
            final(self).globals == old(self).globals,
    {
        let ghost s0 = *self;
        let ghost subst = self.infer_ctx.subst();
        let ghost d0 = self.def_tys@;
        let n_defs = self.def_tys.len();
        let mut i: usize = 0;
        while i < n_defs
            invariant
                self.infer_ctx.wf(),
                n_defs == d0.len(),
                i <= n_defs,
                subst == self.infer_ctx.subst(),
                s0.infer_ctx.subst() == subst,
                self.def_tys@.len() == d0.len(),
                forall|j: int| 0 <= j < d0.len() ==> ((#[trigger] d0[j]) matches Some(t) ==> t < s0.infer_ctx.types().len()),
                forall|j: int| i <= j < d0.len() ==> #[trigger] self.def_tys@[j] == d0[j],
                forall|j: int| 0 <= j < i ==> match #[trigger] d0[j] {
                    Some(t) => self.def_tys@[j] matches Some(r) && resolved(self.infer_ctx.types(), subst, t, r, RESOLVE_DEPTH as nat)
                        && r < self.infer_ctx.types().len(),
                    None => self.def_tys@[j] is None,
                },
                self.infer_ctx.next_id() == s0.infer_ctx.next_id(),
                self.infer_ctx.module.tcx.table == s0.infer_ctx.module.tcx.table,
                self.infer_ctx.module.typed_exprs@ == s0.infer_ctx.module.typed_exprs@,
                self.infer_ctx.module.typed_stmts@ == s0.infer_ctx.module.typed_stmts@,
                self.locals_tyid == s0.locals_tyid,
                extends(s0.infer_ctx, self.infer_ctx),
                self.current_expected_ret_ty == s0.current_expected_ret_ty,
                self.current_mod_id == s0.current_mod_id,
                self.globals == s0.globals,
            decreases n_defs - i,
        {
            if let Some(t) = self.def_tys[i] {
                let ghost t1 = self.infer_ctx.types();
                let r = self.infer_ctx.deep_resolve(t);
                proof {
                    let t2 = self.infer_ctx.types();
                    assert forall|j: int| 0 <= j < i implies match #[trigger] d0[j] {
                        Some(t) => self.def_tys@[j] matches Some(r) && resolved(t2, subst, t, r, RESOLVE_DEPTH as nat)
                            && r < t2.len(),
                        None => self.def_tys@[j] is None,
                    } by {
                        if let Some(tj) = d0[j] {
                            let rj = self.def_tys@[j]->Some_0;
                            lemma_resolved_extend(t1, t2, subst, tj, rj, RESOLVE_DEPTH as nat);
                        }
                    }
                }
                self.def_tys.set(i, Some(r));
            }
            i = i + 1;
        }
        proof {
            let n = self.infer_ctx.types().len() as int;
            let e = self.infer_ctx.module.typed_exprs@;
            let st = self.infer_ctx.module.typed_stmts@;
            assert forall|j: int| 0 <= j < e.len() implies #[trigger] expr_ty(e[j]) < n by {
                assert(expr_ty(s0.infer_ctx.module.typed_exprs@[j]) < s0.infer_ctx.types().len());
            }
            assert forall|j: int| 0 <= j < st.len() implies #[trigger] stmt_ty(st[j]) < n by {
                assert(stmt_ty(s0.infer_ctx.module.typed_stmts@[j]) < s0.infer_ctx.types().len());
            }
            assert forall|j: int| 0 <= j < self.locals_tyid@.len() implies #[trigger] self.locals_tyid@[j].1 < n by {
                assert(s0.locals_tyid@[j].1 < s0.infer_ctx.types().len());
            }
            assert forall|j: int| 0 <= j < self.def_tys@.len() implies ((#[trigger] self.def_tys@[j]) matches Some(t) ==> t < n) by {
                if let Some(tj) = d0[j] {
                    assert(self.def_tys@[j] is Some);
                }
            }
            let tb = self.infer_ctx.module.tcx.table;
            assert forall|k: int, name: Seq<char>| 0 <= k < tb.scopes().len() implies
                (#[trigger] crate::table::scope_lookup(tb.scopes()[k], name) matches Some(sy) ==> crate::table::symbol_type_ty(sy) < n) by {
                assert(crate::table::scope_lookup(tb.scopes()[k], name) matches Some(sy)
                    ==> crate::table::symbol_type_ty(sy) < s0.infer_ctx.types().len());
            }
            assert forall|k: int| 0 <= k < self.globals@.len() implies (#[trigger] self.globals@[k]).def_id.0 < self.def_tys@.len() by {
                assert(s0.globals@[k].def_id.0 < s0.def_tys@.len());
            }
        }
    }

    /// Writes back every expression, statement and local type resolved (see `finalized`).
    fn finalize_module(&mut self)
        requires
            old(self).wf(),
        ensures
            final(self).wf(),
            finalized(*old(self), *final(self)),
            final(self).infer_ctx.subst() == old(self).infer_ctx.subst(),
            final(self).infer_ctx.next_id() == old(self).infer_ctx.next_id(),
            final(self).infer_ctx.module.tcx.table == old(self).infer_ctx.module.tcx.table,
            types_extend(old(self).infer_ctx.types(), final(self).infer_ctx.types()),
            final(self).current_expected_ret_ty == old(self).current_expected_ret_ty,
            final(self).current_mod_id == old(self).current_mod_id,
            final(self).globals == old(self).globals,
            final(self).def_tys == old(self).def_tys,
    {
        let ghost s0 = *self;
        let ghost subst = self.infer_ctx.subst();
        let ghost e0 = self.infer_ctx.module.typed_exprs@;
        let ghost st0 = self.infer_ctx.module.typed_stmts@;
        let ghost l0 = self.locals_tyid@;
        let n_exprs = self.infer_ctx.module.typed_exprs.len();
        let mut i: usize = 0;
        while i < n_exprs
            invariant
                self.infer_ctx.wf(),
                n_exprs == e0.len(),
                i <= n_exprs,
                subst == self.infer_ctx.subst(),
                self.infer_ctx.module.typed_exprs@.len() == e0.len(),
                self.infer_ctx.module.typed_stmts@ == st0,
                self.locals_tyid@ == l0,
                forall|j: int| 0 <= j < e0.len() ==> #[trigger] expr_ty(e0[j]) < s0.infer_ctx.types().len(),
                forall|j: int| 0 <= j < st0.len() ==> #[trigger] stmt_ty(st0[j]) < s0.infer_ctx.types().len(),
                locals_below(l0, s0.infer_ctx.types().len() as int),
                forall|j: int| i <= j < e0.len() ==> #[trigger] self.infer_ctx.module.typed_exprs@[j] == e0[j],
                forall|j: int| 0 <= j < i ==> #[trigger] self.infer_ctx.module.typed_exprs@[j]
                    == expr_with_ty(e0[j], expr_ty(self.infer_ctx.module.typed_exprs@[j]))
                    && resolved(self.infer_ctx.types(), subst, expr_ty(e0[j]), expr_ty(self.infer_ctx.module.typed_exprs@[j]), RESOLVE_DEPTH as nat)
                    && expr_ty(self.infer_ctx.module.typed_exprs@[j]) < self.infer_ctx.types().len(),
                s0.infer_ctx.subst() == subst,
                self.infer_ctx.next_id() == s0.infer_ctx.next_id(),
                self.infer_ctx.module.tcx.table == s0.infer_ctx.module.tcx.table,
                extends(s0.infer_ctx, self.infer_ctx),
                self.current_expected_ret_ty == s0.current_expected_ret_ty,
                self.current_mod_id == s0.current_mod_id,
                self.globals == s0.globals,
                self.def_tys == s0.def_tys,
            decreases n_exprs - i,
        {
            let ty = self.infer_ctx.module.typed_exprs[i].get_type();
            let ghost t1 = self.infer_ctx.types();
            let resolved_id = self.final_type(ty);
            proof {
                let t = self.infer_ctx.types();
                assert forall|j: int| 0 <= j < i implies resolved(t, subst, expr_ty(e0[j]), expr_ty(#[trigger] self.infer_ctx.module.typed_exprs@[j]), RESOLVE_DEPTH as nat) by {
                    lemma_resolved_extend(t1, t, subst, expr_ty(e0[j]), expr_ty(self.infer_ctx.module.typed_exprs@[j]), RESOLVE_DEPTH as nat);
                }
            }
            self.infer_ctx.module.set_expr_type(ExprId(i), resolved_id);
            proof {
                crate::typed_ast::lemma_expr_with_ty(e0[i as int], resolved_id);
            }
            i = i + 1;
        }
        let n_stmts = self.infer_ctx.module.typed_stmts.len();
        let ghost e1 = self.infer_ctx.module.typed_exprs@;
        let mut i: usize = 0;
        while i < n_stmts
            invariant
                self.infer_ctx.wf(),
                n_stmts == st0.len(),
                i <= n_stmts,
                subst == self.infer_ctx.subst(),
                self.infer_ctx.module.typed_stmts@.len() == st0.len(),
                self.infer_ctx.module.typed_exprs@ == e1,
                e1.len() == e0.len(),
                self.locals_tyid@ == l0,
                forall|j: int| 0 <= j < st0.len() ==> #[trigger] stmt_ty(st0[j]) < s0.infer_ctx.types().len(),
                locals_below(l0, s0.infer_ctx.types().len() as int),
                forall|j: int| 0 <= j < e0.len() ==> #[trigger] e1[j] == expr_with_ty(e0[j], expr_ty(e1[j]))
                    && resolved(self.infer_ctx.types(), subst, expr_ty(e0[j]), expr_ty(e1[j]), RESOLVE_DEPTH as nat)
                    && expr_ty(e1[j]) < self.infer_ctx.types().len(),
                forall|j: int| i <= j < st0.len() ==> #[trigger] self.infer_ctx.module.typed_stmts@[j] == st0[j],
                forall|j: int| 0 <= j < i ==> #[trigger] self.infer_ctx.module.typed_stmts@[j]
                    == stmt_with_ty(st0[j], stmt_ty(self.infer_ctx.module.typed_stmts@[j]))
                    && resolved(self.infer_ctx.types(), subst, stmt_ty(st0[j]), stmt_ty(self.infer_ctx.module.typed_stmts@[j]), RESOLVE_DEPTH as nat)
                    && stmt_ty(self.infer_ctx.module.typed_stmts@[j]) < self.infer_ctx.types().len(),
                s0.infer_ctx.subst() == subst,
                self.infer_ctx.next_id() == s0.infer_ctx.next_id(),
                self.infer_ctx.module.tcx.table == s0.infer_ctx.module.tcx.table,
                extends(s0.infer_ctx, self.infer_ctx),
                self.current_expected_ret_ty == s0.current_expected_ret_ty,
                self.current_mod_id == s0.current_mod_id,
                self.globals == s0.globals,
                self.def_tys == s0.def_tys,
            decreases n_stmts - i,
        {
            let ty = self.infer_ctx.module.typed_stmts[i].get_type();
            let ghost t1 = self.infer_ctx.types();
            let resolved_id = self.final_type(ty);
            proof {
                let t = self.infer_ctx.types();
                assert forall|j: int| 0 <= j < i implies resolved(t, subst, stmt_ty(st0[j]), stmt_ty(#[trigger] self.infer_ctx.module.typed_stmts@[j]), RESOLVE_DEPTH as nat) by {
                    lemma_resolved_extend(t1, t, subst, stmt_ty(st0[j]), stmt_ty(self.infer_ctx.module.typed_stmts@[j]), RESOLVE_DEPTH as nat);
                }
                assert forall|j: int| 0 <= j < e0.len() implies resolved(t, subst, expr_ty(e0[j]), expr_ty(#[trigger] e1[j]), RESOLVE_DEPTH as nat) by {
                    lemma_resolved_extend(t1, t, subst, expr_ty(e0[j]), expr_ty(e1[j]), RESOLVE_DEPTH as nat);
                }
            }
            self.infer_ctx.module.set_stmt_type(StmtId(i), resolved_id);
            proof {
                crate::typed_ast::lemma_stmt_with_ty(st0[i as int], resolved_id);
            }
            i = i + 1;
        }
        let ghost st1 = self.infer_ctx.module.typed_stmts@;
        let n_locals = self.locals_tyid.len();
        let mut i: usize = 0;
        while i < n_locals
            invariant
                self.infer_ctx.wf(),
                n_locals == l0.len(),
                i <= n_locals,
                subst == self.infer_ctx.subst(),
                self.infer_ctx.module.typed_stmts@ == st1,
                self.infer_ctx.module.typed_exprs@ == e1,
                e1.len() == e0.len(),
                st1.len() == st0.len(),
                self.locals_tyid@.len() == l0.len(),
                locals_below(l0, s0.infer_ctx.types().len() as int),
                forall|j: int| 0 <= j < e0.len() ==> #[trigger] e1[j] == expr_with_ty(e0[j], expr_ty(e1[j]))
                    && resolved(self.infer_ctx.types(), subst, expr_ty(e0[j]), expr_ty(e1[j]), RESOLVE_DEPTH as nat)
                    && expr_ty(e1[j]) < self.infer_ctx.types().len(),
                forall|j: int| 0 <= j < st0.len() ==> #[trigger] st1[j] == stmt_with_ty(st0[j], stmt_ty(st1[j]))
                    && resolved(self.infer_ctx.types(), subst, stmt_ty(st0[j]), stmt_ty(st1[j]), RESOLVE_DEPTH as nat)
                    && stmt_ty(st1[j]) < self.infer_ctx.types().len(),
                forall|j: int| i <= j < l0.len() ==> #[trigger] self.locals_tyid@[j] == l0[j],
                forall|j: int| 0 <= j < i ==> (#[trigger] self.locals_tyid@[j]).0@ == l0[j].0@
                    && resolved(self.infer_ctx.types(), subst, l0[j].1, self.locals_tyid@[j].1, RESOLVE_DEPTH as nat)
                    && self.locals_tyid@[j].1 < self.infer_ctx.types().len(),
                s0.infer_ctx.subst() == subst,
                self.infer_ctx.next_id() == s0.infer_ctx.next_id(),
                self.infer_ctx.module.tcx.table == s0.infer_ctx.module.tcx.table,
                extends(s0.infer_ctx, self.infer_ctx),
                self.current_expected_ret_ty == s0.current_expected_ret_ty,
                self.current_mod_id == s0.current_mod_id,
                self.globals == s0.globals,
                self.def_tys == s0.def_tys,
            decreases n_locals - i,
        {
            let ty = self.locals_tyid[i].1;
            let ghost t1 = self.infer_ctx.types();
            let resolved_id = self.final_type(ty);
            proof {
                let t = self.infer_ctx.types();
                assert forall|j: int| 0 <= j < i implies resolved(t, subst, l0[j].1, #[trigger] self.locals_tyid@[j].1, RESOLVE_DEPTH as nat) by {
                    lemma_resolved_extend(t1, t, subst, l0[j].1, self.locals_tyid@[j].1, RESOLVE_DEPTH as nat);
                }
                assert forall|j: int| 0 <= j < e0.len() implies resolved(t, subst, expr_ty(e0[j]), expr_ty(#[trigger] e1[j]), RESOLVE_DEPTH as nat) by {
                    lemma_resolved_extend(t1, t, subst, expr_ty(e0[j]), expr_ty(e1[j]), RESOLVE_DEPTH as nat);
                }
                assert forall|j: int| 0 <= j < st0.len() implies resolved(t, subst, stmt_ty(st0[j]), stmt_ty(#[trigger] st1[j]), RESOLVE_DEPTH as nat) by {
                    lemma_resolved_extend(t1, t, subst, stmt_ty(st0[j]), stmt_ty(st1[j]), RESOLVE_DEPTH as nat);
                }
            }
            self.locals_tyid[i].1 = resolved_id;
            i = i + 1;
        }
        proof {
            let n = self.infer_ctx.types().len() as int;
            assert forall|j: int| 0 <= j < self.locals_tyid@.len() implies #[trigger] self.locals_tyid@[j].1 < n by {
                assert(self.locals_tyid@[j].0@ == l0[j].0@);
            }
            assert forall|j: int| 0 <= j < st1.len() implies #[trigger] stmt_ty(st1[j]) < n by {
                assert(st1[j] == stmt_with_ty(st0[j], stmt_ty(st1[j])));
            }
            assert forall|j: int| 0 <= j < e1.len() implies #[trigger] expr_ty(e1[j]) < n by {
                assert(e1[j] == expr_with_ty(e0[j], expr_ty(e1[j])));
            }
            let tb = self.infer_ctx.module.tcx.table;
            assert(tb == s0.infer_ctx.module.tcx.table);
            assert forall|i: int, name: Seq<char>| 0 <= i < tb.scopes().len() implies
                (#[trigger] crate::table::scope_lookup(tb.scopes()[i], name) matches Some(sy) ==> crate::table::symbol_type_ty(sy) < n) by {
                assert(crate::table::scope_lookup(tb.scopes()[i], name) matches Some(sy)
                    ==> crate::table::symbol_type_ty(sy) < s0.infer_ctx.types().len());
            }
            let mv0 = mapping_view(l0);
            let mv1 = mapping_view(self.locals_tyid@);
            assert forall|a: int, b: int| 0 <= a < b < mv1.len() implies #[trigger] mv1[a].0 != #[trigger] mv1[b].0 by {
                assert(self.locals_tyid@[a].0@ == l0[a].0@);
                assert(self.locals_tyid@[b].0@ == l0[b].0@);
                assert(mv0[a].0 != mv0[b].0);
            }
        }
    }
}

/// The outcome of a run of unifications with the index of the first that did not end
/// `Done` moved up by `k`.
pub open spec fn shift_outcome(u: (Seq<Ty>, Map<usize, usize>, Option<(int, UnifyOutcome)>), k: int)
    -> (Seq<Ty>, Map<usize, usize>, Option<(int, UnifyOutcome)>)
{
    (u.0, u.1, match u.2 {
        Some((i, o)) => Some((i + k, o)),
        None => None,
    })
}

/// Unifies the two types of each of `cs` in order, each as `unify_spec` does with the bound
/// on depth, up to the first that does not end `Done`: the types and bindings after it,
/// and that first one's index and outcome, if there is one.
pub open spec fn unify_seq(types: Seq<Ty>, subst: Map<usize, usize>, cs: Seq<Constraint>)
    -> (Seq<Ty>, Map<usize, usize>, Option<(int, UnifyOutcome)>)
    decreases cs.len(),
{
    if cs.len() == 0 {
        (types, subst, None)
    } else {
        let u = unify_spec(types, subst, cs[0].expected, cs[0].got, UNIFY_DEPTH as nat);
        if u.2 is Done {
            shift_outcome(unify_seq(u.0, u.1, cs.drop_first()), 1)
        } else {
            (u.0, u.1, Some((0, u.2)))
        }
    }
}

proof fn lemma_unify_seq_step(types: Seq<Ty>, subst: Map<usize, usize>, cs: Seq<Constraint>, k: int)
    requires
        cs.len() > 0,
    ensures
        ({
            let u = unify_spec(types, subst, cs[0].expected, cs[0].got, UNIFY_DEPTH as nat);
            &&& u.2 is Done ==> shift_outcome(unify_seq(types, subst, cs), k)
                == shift_outcome(unify_seq(u.0, u.1, cs.drop_first()), k + 1)
            &&& !(u.2 is Done) ==> shift_outcome(unify_seq(types, subst, cs), k) == (u.0, u.1, Some((k, u.2)))
        }),
{
}

impl TypeInfer {
    /// Unifies the types with ids `t1` and `t2` (see `unify_spec`): binds inference
    /// variables so that they agree, or reports a mismatch at `token`.
    pub fn unify(&mut self, t1: TyId, t2: TyId, token: Token) -> (r: CheckResult<()>)
        requires
            old(self).wf(),
            t1 < old(self).infer_ctx.types().len(),
            t2 < old(self).infer_ctx.types().len(),
        ensures
            final(self).wf(),
            final(self).infer_ctx.types() == unify_spec(old(self).infer_ctx.types(), old(self).infer_ctx.subst(), t1, t2, UNIFY_DEPTH as nat).0,
            final(self).infer_ctx.subst() == unify_spec(old(self).infer_ctx.types(), old(self).infer_ctx.subst(), t1, t2, UNIFY_DEPTH as nat).1,
            reports(unify_spec(old(self).infer_ctx.types(), old(self).infer_ctx.subst(), t1, t2, UNIFY_DEPTH as nat).2, r, final(self).infer_ctx.types(), token),
            same_frame(old(self).infer_ctx, final(self).infer_ctx),
            extends(old(self).infer_ctx, final(self).infer_ctx),
            final(self).locals_tyid == old(self).locals_tyid,
            final(self).current_expected_ret_ty == old(self).current_expected_ret_ty,
            final(self).current_mod_id == old(self).current_mod_id,
            final(self).globals == old(self).globals,
            final(self).def_tys == old(self).def_tys,
            old(self).refs_ok() ==> infer_grows(*old(self), *final(self)),
    {
        let r = self.infer_ctx.unify(t1, t2, token);
        proof {
            if old(self).refs_ok() {
                self.lemma_same_module_grows(*old(self));
            }
        }
        r
    }

    /// With the module's expressions and statements as they were and the types and bindings
    /// of `a` kept, inference has gone on from `a`.
    pub proof fn lemma_same_module_grows(self, a: TypeInfer)
        requires
            a.refs_ok(),
            self.wf(),
            extends(a.infer_ctx, self.infer_ctx),
            self.infer_ctx.module.typed_exprs@ == a.infer_ctx.module.typed_exprs@,
            self.infer_ctx.module.typed_stmts@ == a.infer_ctx.module.typed_stmts@,
            self.current_mod_id == a.current_mod_id,
            self.globals@ == a.globals@,
            self.def_tys@ == a.def_tys@,
        ensures
            infer_grows(a, self),
    {
        let e0 = a.infer_ctx.module.typed_exprs@;
        let s0 = a.infer_ctx.module.typed_stmts@;
        assert forall|i: int| 0 <= i < e0.len() implies #[trigger] e0[i] == expr_with_ty(e0[i], expr_ty(e0[i])) by {
            lemma_expr_shape(e0[i], 0, 0, 0, 0);
        }
        assert forall|i: int| 0 <= i < s0.len() implies #[trigger] s0[i] == stmt_with_ty(s0[i], stmt_ty(s0[i])) by {
            lemma_stmt_shape(s0[i], 0, 0, 0, 0);
        }
    }

    /// Unifies the two types of each constraint in order (see `unify_seq`), stopping at the
    /// first error.
    #[verifier::spinoff_prover]
    #[verifier::rlimit(100)]
    fn unify_each(&mut self, constraints: &Vec<Constraint>) -> (r: CheckResult<()>)
        requires
            old(self).wf(),
            forall|i: int| 0 <= i < constraints@.len() ==> #[trigger] constraints@[i].expected < old(self).infer_ctx.types().len()
                && constraints@[i].got < old(self).infer_ctx.types().len(),
        ensures
            final(self).wf(),
            ({
                let u = unify_seq(old(self).infer_ctx.types(), old(self).infer_ctx.subst(), constraints@);
                &&& final(self).infer_ctx.types() == u.0
                &&& final(self).infer_ctx.subst() == u.1
                &&& (r is Ok <==> u.2 is None)
                &&& match u.2 {
                    None => r is Ok,
                    Some((i, out)) => 0 <= i < constraints@.len() && reports(out, r, final(self).infer_ctx.types(), constraints@[i].token),
                }
            }),
            same_frame(old(self).infer_ctx, final(self).infer_ctx),
            extends(old(self).infer_ctx, final(self).infer_ctx),
            final(self).locals_tyid == old(self).locals_tyid,
            final(self).def_tys == old(self).def_tys,
            final(self).globals == old(self).globals,
            final(self).current_expected_ret_ty == old(self).current_expected_ret_ty,
            final(self).current_mod_id == old(self).current_mod_id,
    {
        let ghost s0 = *self;
        let ghost cs = constraints@;
        let ghost total = unify_seq(s0.infer_ctx.types(), s0.infer_ctx.subst(), cs);
        let mut i: usize = 0;
        assert(cs.skip(0) =~= cs);
        while i < constraints.len()
            invariant
                self.wf(),
                cs == constraints@,
                s0 == *old(self),
                i <= cs.len(),
                total == unify_seq(s0.infer_ctx.types(), s0.infer_ctx.subst(), cs),
                total == shift_outcome(unify_seq(self.infer_ctx.types(), self.infer_ctx.subst(), cs.skip(i as int)), i as int),
                forall|j: int| 0 <= j < cs.len() ==> #[trigger] cs[j].expected < s0.infer_ctx.types().len()
                    && cs[j].got < s0.infer_ctx.types().len(),
                same_frame(s0.infer_ctx, self.infer_ctx),
                extends(s0.infer_ctx, self.infer_ctx),
                self.locals_tyid == s0.locals_tyid,
                self.def_tys == s0.def_tys,
                self.globals == s0.globals,
                self.current_expected_ret_ty == s0.current_expected_ret_ty,
                self.current_mod_id == s0.current_mod_id,
            decreases cs.len() - i,
        {
            let ghost rest = cs.skip(i as int);
            let ghost t = self.infer_ctx.types();
            let ghost sb = self.infer_ctx.subst();
            proof {
                assert(rest[0] == cs[i as int]);
                assert(rest.drop_first() =~= cs.skip(i as int + 1));
                lemma_unify_seq_step(t, sb, rest, i as int);
            }
            let c = &constraints[i];
            let r = self.unify(c.expected, c.got, c.token.copy());
            if r.is_err() {
                proof {
                    let u = unify_spec(t, sb, rest[0].expected, rest[0].got, UNIFY_DEPTH as nat);
                    assert(!(u.2 is Done));
                    assert(total == (u.0, u.1, Some((i as int, u.2))));
                    assert(reports(u.2, r, self.infer_ctx.types(), cs[i as int].token));
                }
                return r;
            }
            i = i + 1;
        }
        proof {
            assert(cs.skip(i as int) =~= Seq::<Constraint>::empty());
        }
        Ok(())
    }

    /// Unifies the two types of each constraint in order (see `unify_seq`), stopping at the
    /// first error; when all agree, writes the resolved types back (see `finalize`).
    pub fn unify_all(&mut self, constraints: Vec<Constraint>) -> (r: CheckResult<()>)
        requires
            old(self).wf(),
            forall|i: int| 0 <= i < constraints@.len() ==> #[trigger] constraints@[i].expected < old(self).infer_ctx.types().len()
                && constraints@[i].got < old(self).infer_ctx.types().len(),
        ensures
            final(self).wf(),
            ({
                let u = unify_seq(old(self).infer_ctx.types(), old(self).infer_ctx.subst(), constraints@);
                match u.2 {
                    None => r is Ok && final(self).infer_ctx.subst() == u.1
                        && types_extend(u.0, final(self).infer_ctx.types())
                        && finalized(*old(self), *final(self)) && defs_finalized(*old(self), *final(self)),
                    Some((i, out)) => 0 <= i < constraints@.len()
                        && reports(out, r, final(self).infer_ctx.types(), constraints@[i].token)
                        && final(self).infer_ctx.types() == u.0 && final(self).infer_ctx.subst() == u.1
                        && same_frame(old(self).infer_ctx, final(self).infer_ctx)
                        && final(self).locals_tyid == old(self).locals_tyid,
                }
            }),
    {
        let ghost s0 = *self;
        let u = self.unify_each(&constraints);
        if u.is_err() {
            return u;
        }
        let ghost mid = *self;
        self.finalize();
        proof {
            assert(mid.infer_ctx.module.typed_exprs@ == s0.infer_ctx.module.typed_exprs@);
            assert(mid.infer_ctx.module.typed_stmts@ == s0.infer_ctx.module.typed_stmts@);
            assert(mid.locals_tyid@ == s0.locals_tyid@);
            assert(finalized(mid, *self));
            assert(finalized(s0, *self));
        }
        Ok(())
    }
}

/// Whether the ids a typed expression refers to are those of expressions (below `ne`) and
/// statements (below `ns`).
pub open spec fn expr_refs_ok(e: TypedExpression, ne: int, ns: int) -> bool {
    match e {
        TypedExpression::Block(_, s, _) => forall|i: int| 0 <= i < s@.len() ==> (#[trigger] s@[i]).0 < ns,
        TypedExpression::TypeHint(_, x, _) => x.0 < ne,
        TypedExpression::SizeOf(_, x, _) => x.0 < ne,
        TypedExpression::FieldAccess(_, x, _, _) => x.0 < ne,
        TypedExpression::BuildStruct(_, _, fs, _) => forall|i: int| 0 <= i < fs@.len() ==> (#[trigger] fs@[i]).1.0 < ne,
        TypedExpression::Infix { left, right, .. } => left.0 < ne && right.0 < ne,
        TypedExpression::Assign { left, right, .. } => left.0 < ne && right.0 < ne,
        TypedExpression::BoolAnd { left, right, .. } => left.0 < ne && right.0 < ne,
        TypedExpression::BoolOr { left, right, .. } => left.0 < ne && right.0 < ne,
        TypedExpression::Cast { val, cast_to, .. } => val.0 < ne && cast_to.0 < ne,
        TypedExpression::Prefix { right, .. } => right.0 < ne,
        TypedExpression::Function { params, generics_params, block, ret_ty, .. } =>
            (forall|i: int| 0 <= i < params@.len() ==> (#[trigger] params@[i]).0 < ne)
            && (forall|i: int| 0 <= i < generics_params@.len() ==> (#[trigger] generics_params@[i]).0 < ne)
            && block.0 < ne && (ret_ty matches Some(x) ==> x.0 < ne),
        TypedExpression::Call { func, args, .. } => func.0 < ne && forall|i: int| 0 <= i < args@.len() ==> (#[trigger] args@[i]).0 < ne,
        TypedExpression::If { condition, consequence, else_block, .. } => condition.0 < ne && consequence.0 < ne
            && (else_block matches Some(x) ==> x.0 < ne),
        TypedExpression::TypePath { paths, .. } => forall|i: int| 0 <= i < paths@.len() ==> (#[trigger] paths@[i]).0 < ne,
        TypedExpression::GenericInstance { left, paths, .. } => left.0 < ne
            && forall|i: int| 0 <= i < paths@.len() ==> (#[trigger] paths@[i]).0 < ne,
        _ => true,
    }
}

/// Whether the ids a typed statement refers to are those of expressions (below `ne`) and
/// statements (below `ns`).
pub open spec fn stmt_refs_ok(s: TypedStatement, ne: int, ns: int) -> bool {
    match s {
        TypedStatement::ExpressionStatement(_, x, _) => x.0 < ne,
        TypedStatement::Return { expr, .. } => expr matches Some(x) ==> x.0 < ne,
        TypedStatement::Block { statements, .. } => forall|i: int| 0 <= i < statements@.len() ==> (#[trigger] statements@[i]).0 < ns,
        TypedStatement::Let { value, .. } => value.0 < ne,
        TypedStatement::Const { value, .. } => value.0 < ne,
        TypedStatement::While { condition, block, .. } => condition.0 < ne && block.0 < ns,
        TypedStatement::Struct { fields, generics, .. } => (forall|i: int| 0 <= i < fields@.len() ==> (#[trigger] fields@[i]).0 < ne)
            && forall|i: int| 0 <= i < generics@.len() ==> (#[trigger] generics@[i]).0 < ne,
        TypedStatement::Trait { block, .. } => block.0 < ns,
        TypedStatement::Extern { params, ret_ty, .. } => (forall|i: int| 0 <= i < params@.len() ==> (#[trigger] params@[i]).0 < ne)
            && (ret_ty matches Some(x) ==> x.0 < ne),
        TypedStatement::FuncDecl { params, generics_params, ret_ty, .. } =>
            (forall|i: int| 0 <= i < params@.len() ==> (#[trigger] params@[i]).0 < ne)
            && (forall|i: int| 0 <= i < generics_params@.len() ==> (#[trigger] generics_params@[i]).0 < ne)
            && (ret_ty matches Some(x) ==> x.0 < ne),
        TypedStatement::Impl { block, .. } => block.0 < ns,
        TypedStatement::Use { .. } => true,
    }
}

/// Whether `b` is `a` further on in inference: consistent, with the module's expressions
/// and statements of the same shape (only their types may differ), the types and bindings
/// of `a` kept, and the same module and definitions.
pub open spec fn infer_grows(a: TypeInfer, b: TypeInfer) -> bool {
    let (e0, e1) = (a.infer_ctx.module.typed_exprs@, b.infer_ctx.module.typed_exprs@);
    let (s0, s1) = (a.infer_ctx.module.typed_stmts@, b.infer_ctx.module.typed_stmts@);
    &&& b.wf()
    &&& b.refs_ok()
    &&& extends(a.infer_ctx, b.infer_ctx)
    &&& e1.len() == e0.len()
    &&& forall|i: int| 0 <= i < e0.len() ==> #[trigger] e1[i] == expr_with_ty(e0[i], expr_ty(e1[i]))
    &&& s1.len() == s0.len()
    &&& forall|i: int| 0 <= i < s0.len() ==> #[trigger] s1[i] == stmt_with_ty(s0[i], stmt_ty(s1[i]))
    &&& b.current_mod_id == a.current_mod_id
    &&& b.globals@ == a.globals@
    &&& b.def_tys@ == a.def_tys@
}

/// Giving a typed expression a type keeps its shape: its references, its token, and what
/// giving it another type gives.
pub proof fn lemma_expr_shape(e: TypedExpression, t: TyId, u: TyId, ne: int, ns: int)
    ensures
        expr_refs_ok(expr_with_ty(e, t), ne, ns) == expr_refs_ok(e, ne, ns),
        expr_with_ty(expr_with_ty(e, t), u) == expr_with_ty(e, u),
        expr_ty(expr_with_ty(e, t)) == t,
        crate::typed_ast::expr_token(expr_with_ty(e, t)) == crate::typed_ast::expr_token(e),
        expr_with_ty(e, expr_ty(e)) == e,
{
}

/// Giving a typed statement a type keeps its shape: its references, its token, and what
/// giving it another type gives.
pub proof fn lemma_stmt_shape(s: TypedStatement, t: TyId, u: TyId, ne: int, ns: int)
    ensures
        stmt_refs_ok(stmt_with_ty(s, t), ne, ns) == stmt_refs_ok(s, ne, ns),
        stmt_with_ty(stmt_with_ty(s, t), u) == stmt_with_ty(s, u),
        stmt_ty(stmt_with_ty(s, t)) == t,
        crate::typed_ast::stmt_token(stmt_with_ty(s, t)) == crate::typed_ast::stmt_token(s),
        stmt_with_ty(s, stmt_ty(s)) == s,
{
}

/// Inference going on from `a` to `b` and from `b` to `c` goes on from `a` to `c`.
pub proof fn lemma_infer_grows_trans(a: TypeInfer, b: TypeInfer, c: TypeInfer)
    requires
        infer_grows(a, b),
        infer_grows(b, c),
    ensures
        infer_grows(a, c),
{
    let (e0, e1, e2) = (a.infer_ctx.module.typed_exprs@, b.infer_ctx.module.typed_exprs@, c.infer_ctx.module.typed_exprs@);
    let (s0, s1, s2) = (a.infer_ctx.module.typed_stmts@, b.infer_ctx.module.typed_stmts@, c.infer_ctx.module.typed_stmts@);
    assert forall|i: int| 0 <= i < e0.len() implies #[trigger] e2[i] == expr_with_ty(e0[i], expr_ty(e2[i])) by {
        assert(e1[i] == expr_with_ty(e0[i], expr_ty(e1[i])));
        assert(e2[i] == expr_with_ty(e1[i], expr_ty(e2[i])));
        lemma_expr_shape(e0[i], expr_ty(e1[i]), expr_ty(e2[i]), 0, 0);
    }
    assert forall|i: int| 0 <= i < s0.len() implies #[trigger] s2[i] == stmt_with_ty(s0[i], stmt_ty(s2[i])) by {
        assert(s1[i] == stmt_with_ty(s0[i], stmt_ty(s1[i])));
        assert(s2[i] == stmt_with_ty(s1[i], stmt_ty(s2[i])));
        lemma_stmt_shape(s0[i], stmt_ty(s1[i]), stmt_ty(s2[i]), 0, 0);
    }
}

impl TypeInfer {
    /// Whether every id that the module's expressions and statements refer to is that of an
    /// expression or statement of the module.
    pub open spec fn refs_ok(self) -> bool {
        let ne = self.infer_ctx.module.typed_exprs@.len() as int;
        let ns = self.infer_ctx.module.typed_stmts@.len() as int;
        &&& forall|i: int| 0 <= i < ne ==> expr_refs_ok(#[trigger] self.infer_ctx.module.typed_exprs@[i], ne, ns)
        &&& forall|i: int| 0 <= i < ns ==> stmt_refs_ok(#[trigger] self.infer_ctx.module.typed_stmts@[i], ne, ns)
    }
}

impl TypeInfer {
    /// Gives the expression with id `id` the type `ty`.
    fn set_expr_ty(&mut self, id: ExprId, ty: TyId)
        requires
            old(self).wf(),
            old(self).refs_ok(),
            id.0 < old(self).infer_ctx.module.typed_exprs@.len(),
            ty < old(self).infer_ctx.types().len(),
        ensures
            infer_grows(*old(self), *final(self)),
            final(self).infer_ctx.module.typed_exprs@ == old(self).infer_ctx.module.typed_exprs@.update(id.0 as int,
                expr_with_ty(old(self).infer_ctx.module.typed_exprs@[id.0 as int], ty)),
            final(self).infer_ctx.types() == old(self).infer_ctx.types(),
            final(self).infer_ctx.subst() == old(self).infer_ctx.subst(),
            final(self).locals_tyid == old(self).locals_tyid,
            final(self).current_expected_ret_ty == old(self).current_expected_ret_ty,
    {
        let ghost e0 = self.infer_ctx.module.typed_exprs@;
        let ghost s0 = self.infer_ctx.module.typed_stmts@;
        self.infer_ctx.module.set_expr_type(id, ty);
        proof {
            let e1 = self.infer_ctx.module.typed_exprs@;
            let (ne, ns) = (e0.len() as int, s0.len() as int);
            assert forall|i: int| 0 <= i < e0.len() implies #[trigger] e1[i] == expr_with_ty(e0[i], expr_ty(e1[i])) by {
                lemma_expr_shape(e0[i], ty, 0, ne, ns);
            }
            assert forall|i: int| 0 <= i < ne implies expr_refs_ok(#[trigger] e1[i], ne, ns) by {
                lemma_expr_shape(e0[i], ty, 0, ne, ns);
            }
            assert forall|i: int| 0 <= i < e1.len() implies #[trigger] expr_ty(e1[i]) < self.infer_ctx.types().len() by {
                lemma_expr_shape(e0[i], ty, 0, ne, ns);
            }
            assert forall|i: int| 0 <= i < s0.len() implies #[trigger] s0[i] == stmt_with_ty(s0[i], stmt_ty(s0[i])) by {
                lemma_stmt_shape(s0[i], 0, 0, ne, ns);
            }
        }
    }

    /// Gives the statement with id `id` the type `ty`.
    fn set_stmt_ty(&mut self, id: StmtId, ty: TyId)
        requires
            old(self).wf(),
            old(self).refs_ok(),
            id.0 < old(self).infer_ctx.module.typed_stmts@.len(),
            ty < old(self).infer_ctx.types().len(),
        ensures
            infer_grows(*old(self), *final(self)),
            final(self).infer_ctx.module.typed_stmts@ == old(self).infer_ctx.module.typed_stmts@.update(id.0 as int,
                stmt_with_ty(old(self).infer_ctx.module.typed_stmts@[id.0 as int], ty)),
            final(self).infer_ctx.types() == old(self).infer_ctx.types(),
            final(self).infer_ctx.subst() == old(self).infer_ctx.subst(),
            final(self).infer_ctx.module.typed_exprs@ == old(self).infer_ctx.module.typed_exprs@,
            final(self).locals_tyid == old(self).locals_tyid,
            final(self).current_expected_ret_ty == old(self).current_expected_ret_ty,
    {
        let ghost e0 = self.infer_ctx.module.typed_exprs@;
        let ghost s0 = self.infer_ctx.module.typed_stmts@;
        self.infer_ctx.module.set_stmt_type(id, ty);
        proof {
            let s1 = self.infer_ctx.module.typed_stmts@;
            let (ne, ns) = (e0.len() as int, s0.len() as int);
            assert forall|i: int| 0 <= i < s0.len() implies #[trigger] s1[i] == stmt_with_ty(s0[i], stmt_ty(s1[i])) by {
                lemma_stmt_shape(s0[i], ty, 0, ne, ns);
            }
            assert forall|i: int| 0 <= i < ns implies stmt_refs_ok(#[trigger] s1[i], ne, ns) by {
                lemma_stmt_shape(s0[i], ty, 0, ne, ns);
            }
            assert forall|i: int| 0 <= i < s1.len() implies #[trigger] stmt_ty(s1[i]) < self.infer_ctx.types().len() by {
                lemma_stmt_shape(s0[i], ty, 0, ne, ns);
            }
            assert forall|i: int| 0 <= i < e0.len() implies #[trigger] e0[i] == expr_with_ty(e0[i], expr_ty(e0[i])) by {
                lemma_expr_shape(e0[i], 0, 0, ne, ns);
            }
        }
    }

    /// The id of a type equal to `ty`, added if there is none.
    fn alloc_ty(&mut self, ty: Ty) -> (id: TyId)
        requires
            old(self).wf(),
            old(self).refs_ok(),
            ty_infer_id(ty) is None,
            ty_parts_below(ty, old(self).infer_ctx.types().len() as int),
            ty_maps_ok(ty, old(self).infer_ctx.types().len() as int),
        ensures
            infer_grows(*old(self), *final(self)),
            id < final(self).infer_ctx.types().len(),
            crate::ty::ty_equiv(final(self).infer_ctx.types()[id as int], ty),
            final(self).infer_ctx.subst() == old(self).infer_ctx.subst(),
            final(self).locals_tyid == old(self).locals_tyid,
            final(self).current_expected_ret_ty == old(self).current_expected_ret_ty,
            final(self).infer_ctx.module.tcx.table == old(self).infer_ctx.module.tcx.table,
    {
        let id = self.infer_ctx.alloc_plain(ty);
        proof {
            crate::table::lemma_table_below_mono(self.infer_ctx.module.tcx.table, old(self).infer_ctx.types().len() as int,
                self.infer_ctx.types().len() as int);
            self.lemma_same_module_grows(*old(self));
        }
        id
    }

    /// A fresh inference variable: an integer one if `int_kind`, else a plain one.
    fn fresh_var(&mut self, int_kind: bool) -> (id: TyId)
        requires
            old(self).wf(),
            old(self).refs_ok(),
        ensures
            infer_grows(*old(self), *final(self)),
            id < final(self).infer_ctx.types().len(),
            final(self).infer_ctx.types()[id as int] == if int_kind {
                Ty::InferInt(old(self).infer_ctx.next_id())
            } else {
                Ty::Infer(old(self).infer_ctx.next_id())
            },
            !final(self).infer_ctx.subst().contains_key(old(self).infer_ctx.next_id()),
            final(self).infer_ctx.subst() == old(self).infer_ctx.subst(),
            final(self).locals_tyid == old(self).locals_tyid,
            final(self).current_expected_ret_ty == old(self).current_expected_ret_ty,
            final(self).infer_ctx.module.tcx.table == old(self).infer_ctx.module.tcx.table,
    {
        let id = if int_kind {
            self.infer_ctx.alloc_infer_int()
        } else {
            self.infer_ctx.alloc_infer_ty()
        };
        proof {
            crate::table::lemma_table_below_mono(self.infer_ctx.module.tcx.table, old(self).infer_ctx.types().len() as int,
                self.infer_ctx.types().len() as int);
            self.lemma_same_module_grows(*old(self));
        }
        id
    }

    /// The token of the expression with id `id`.
    fn expr_token_at(&self, id: ExprId) -> (t: Token)
        requires
            id.0 < self.infer_ctx.module.typed_exprs@.len(),
        ensures
            t == crate::typed_ast::expr_token(self.infer_ctx.module.typed_exprs@[id.0 as int]),
    {
        self.infer_ctx.module.typed_exprs[id.0].token()
    }

    /// The type found for the local `name`, if any.
    fn local_ty(&self, name: &String) -> (r: Option<TyId>)
        ensures
            r == crate::imap::entries_lookup(mapping_view(self.locals_tyid@), name@),
    {
        crate::resolve::mapping_get(&self.locals_tyid, name)
    }

    /// The type that `name` denotes during inference: its symbol's, or else that of the
    /// definition of the current module it names; else a `TypeNotFound` error at `token`.
    fn resolve_type_by_name(&self, name: &str, token: &Token) -> (r: CheckResult<TyId>)
        requires
            self.wf(),
        ensures
            r matches Ok(t) ==> t < self.infer_ctx.types().len(),
            r is Err <==> self.infer_ctx.module.tcx.table.lookup(name@) is None
                && global_ty(self.globals@, self.def_tys@, self.current_mod_id, name@) is None,
            self.infer_ctx.module.tcx.table.lookup(name@) is None ==> (r matches Ok(t)
                ==> global_ty(self.globals@, self.def_tys@, self.current_mod_id, name@) == Some(t)),
            r matches Err(e) ==> e.kind == TypeCheckerErrorKind::TypeNotFound && e.token == *token
                && (e.message matches Some(m) && m@ == "type `"@ + name@ + "` not found during inference"@),
    {
        proof {
            crate::table::lemma_lookup_below(self.infer_ctx.module.tcx.table, self.infer_ctx.types().len() as int, name@);
        }
        if let Some(symbol) = self.infer_ctx.module.tcx.table.get(name) {
            return Ok(symbol.ty.get_type());
        }
        let ghost gs = self.globals@;
        let mut i: usize = 0;
        assert(gs.skip(0) =~= gs);
        while i < self.globals.len()
            invariant
                i <= gs.len(),
                gs == self.globals@,
                self.wf(),
                self.infer_ctx.module.tcx.table.lookup(name@) is None,
                crate::checker::global_lookup(gs, self.current_mod_id, name@)
                    == crate::checker::global_lookup(gs.skip(i as int), self.current_mod_id, name@),
            decreases gs.len() - i,
        {
            assert(gs.skip(i as int)[0] == gs[i as int]);
            assert(gs.skip(i as int).drop_first() =~= gs.skip(i as int + 1));
            if self.globals[i].module_id == self.current_mod_id && crate::ty::str_eq(self.globals[i].name.as_str(), name) {
                let d = self.globals[i].def_id.0;
                let found = self.def_tys[d];
                proof {
                    assert(crate::checker::global_lookup(gs.skip(i as int), self.current_mod_id, name@) == Some(gs[i as int]));
                    assert(global_ty(gs, self.def_tys@, self.current_mod_id, name@) == found);
                    assert(self.infer_ctx.module.tcx.table.lookup(name@) is None);
                }
                return match found {
                    Some(t) => Ok(t),
                    None => Err(Self::type_not_found(name, token)),
                };
            }
            i = i + 1;
        }
        assert(gs.skip(i as int).len() == 0);
        Err(Self::type_not_found(name, token))
    }

    /// The error for a type name that nothing binds during inference.
    fn type_not_found(name: &str, token: &Token) -> (e: TypeCheckerError)
        ensures
            e.kind == TypeCheckerErrorKind::TypeNotFound && e.token == *token
                && (e.message matches Some(m) && m@ == "type `"@ + name@ + "` not found during inference"@),
    {
        let mut m = String::from_str("type `");
        m.append(name);
        m.append("` not found during inference");
        proof {
            reveal_strlit("type `");
            reveal_strlit("` not found during inference");
        }
        TypeCheckerError { kind: TypeCheckerErrorKind::TypeNotFound, token: token.copy(), message: Some(m) }
    }

    /// An error of kind `kind` at `token`, with `message` if given.
    pub fn make_err(message: Option<&str>, kind: TypeCheckerErrorKind, token: Token) -> (e: TypeCheckerError)
        ensures
            e.kind == kind,
            e.token == token,
            message is None ==> e.message is None,
            message matches Some(m) ==> e.message matches Some(s) && s@ == m@,
    {
        crate::error::make_err(message, kind, token)
    }
}

/// What inferring the expression `e` gave, `r`, seen from before (`a`) and after (`b`): a
/// literal its own type, an integer without a suffix an integer variable, a name the type
/// found for its local or else its own type; `size_of`, an assignment, `&&`, `||`, a prefix
/// operator and a function literal, when they succeed, the type they were given; an infix
/// operation, a call and an `if`, when they succeed, what `infix_inferred`, `call_inferred`
/// and `if_inferred` say; a big integer or a type path is no value.
pub open spec fn expr_inferred(a: TypeInfer, b: TypeInfer, e: TypedExpression, r: CheckResult<TyId>) -> bool {
    match e {
        TypedExpression::Int { ty, .. } => r == Ok::<TyId, TypeCheckerError>(ty),
        TypedExpression::Bool { ty, .. } => r == Ok::<TyId, TypeCheckerError>(ty),
        TypedExpression::StrLiteral { ty, .. } => r == Ok::<TyId, TypeCheckerError>(ty),
        TypedExpression::UnknownTypeInt { .. } => r matches Ok(t) && b.infer_ctx.types()[t as int] == Ty::InferInt(a.infer_ctx.next_id())
            && !b.infer_ctx.subst().contains_key(a.infer_ctx.next_id()),
        TypedExpression::Ident(name, ty, _) => r == Ok::<TyId, TypeCheckerError>(
            match crate::imap::entries_lookup(mapping_view(a.locals_tyid@), name.value@) {
                Some(v) => v,
                None => ty,
            }),
        TypedExpression::SizeOf(_, _, ty) => r is Ok ==> r == Ok::<TyId, TypeCheckerError>(ty),
        TypedExpression::Assign { ty, .. } => r is Ok ==> r == Ok::<TyId, TypeCheckerError>(ty),
        TypedExpression::BoolAnd { ty, .. } => r is Ok ==> r == Ok::<TyId, TypeCheckerError>(ty),
        TypedExpression::BoolOr { ty, .. } => r is Ok ==> r == Ok::<TyId, TypeCheckerError>(ty),
        TypedExpression::Prefix { ty, .. } => r is Ok ==> r == Ok::<TyId, TypeCheckerError>(ty),
        TypedExpression::Function { ty, .. } => r is Ok ==> r == Ok::<TyId, TypeCheckerError>(ty),
        TypedExpression::Infix { left, right, ty, op, .. } => r matches Ok(t) ==> infix_inferred(a, b, left, right, ty, op@, t),
        TypedExpression::Call { func, args, .. } => r matches Ok(t) ==> call_inferred(a, b, func, args@, t),
        TypedExpression::FieldAccess(_, obj, field, ty) => r matches Ok(t) ==> field_inferred(a, b, obj, field.value@, ty, t),
        TypedExpression::If { condition, consequence, else_block, .. } => r matches Ok(t)
            ==> if_inferred(a, b, condition, consequence, else_block, t),
        TypedExpression::BigInt { .. } => r is Err,
        TypedExpression::TypePath { .. } => r is Err,
        _ => true,
    }
}

/// Whether inference in state `b` has recorded a type for the name a `let` or `const`
/// statement `s` binds.
pub open spec fn stmt_records_local(s: TypedStatement, b: TypeInfer) -> bool {
    match s {
        TypedStatement::Let { name, .. } => crate::imap::entries_lookup(mapping_view(b.locals_tyid@), name.value@) is Some,
        TypedStatement::Const { name, .. } => crate::imap::entries_lookup(mapping_view(b.locals_tyid@), name.value@) is Some,
        _ => true,
    }
}

/// Whether the type expression with index `id` among `es` is a name, or a type hint around
/// such a type expression, within `depth` levels: a type expression that inference always
/// resolves.
pub open spec fn simple_type_expr(es: Seq<TypedExpression>, id: int, depth: nat) -> bool
    decreases depth,
{
    if depth == 0 || id < 0 || id >= es.len() {
        false
    } else {
        match es[id] {
            TypedExpression::Ident(..) => true,
            TypedExpression::TypeHint(_, x, _) => simple_type_expr(es, x.0 as int, (depth - 1) as nat),
            _ => false,
        }
    }
}

/// What inferring the type expression `e` gave, `r`, seen from the state before (`a`): a name
/// always resolves, to the type found for its local or else its own type when that is not a
/// function type; an expression that is not a type expression is an error.
pub open spec fn type_expr_inferred(a: TypeInfer, e: TypedExpression, r: CheckResult<TyId>) -> bool {
    match e {
        TypedExpression::Ident(name, ty, _) => r is Ok && (!(a.infer_ctx.types()[ty as int] is Function) ==>
            r == Ok::<TyId, TypeCheckerError>(match crate::imap::entries_lookup(mapping_view(a.locals_tyid@), name.value@) {
                Some(v) => v,
                None => ty,
            })),
        TypedExpression::TypeHint(..) => true,
        TypedExpression::Prefix { .. } => true,
        TypedExpression::TypePath { .. } => true,
        _ => r is Err,
    }
}

/// Inference keeps what makes a type expression simple: the kinds and references of the
/// expressions.
pub proof fn lemma_simple_type_expr_kept(a: TypeInfer, b: TypeInfer, id: int, depth: nat)
    requires
        infer_grows(a, b),
        simple_type_expr(a.infer_ctx.module.typed_exprs@, id, depth),
    ensures
        simple_type_expr(b.infer_ctx.module.typed_exprs@, id, depth),
    decreases depth,
{
    let (e0, e1) = (a.infer_ctx.module.typed_exprs@, b.infer_ctx.module.typed_exprs@);
    assert(e1[id] == expr_with_ty(e0[id], expr_ty(e1[id])));
    match e0[id] {
        TypedExpression::TypeHint(_, x, _) => {
            lemma_simple_type_expr_kept(a, b, x.0 as int, (depth - 1) as nat);
        },
        _ => {},
    }
}

/// The type that inference gives a literal or a name at once, seen from state `a`: a
/// literal keeps its own type, and a name takes the type found for its local or else its own.
pub open spec fn known_value_ty(a: TypeInfer, e: TypedExpression) -> Option<TyId> {
    match e {
        TypedExpression::Int { ty, .. } => Some(ty),
        TypedExpression::Bool { ty, .. } => Some(ty),
        TypedExpression::StrLiteral { ty, .. } => Some(ty),
        TypedExpression::Ident(name, ty, _) => Some(
            match crate::imap::entries_lookup(mapping_view(a.locals_tyid@), name.value@) {
                Some(v) => v,
                None => ty,
            }),
        _ => None,
    }
}

/// What inferring the statement `s` gave, `r`, seen from before (`a`) and after (`b`): a
/// struct or function declaration binds its name to its type and has no type; an expression
/// statement whose expression is a literal or a name has that value's type, and so has a
/// `let` or `const` without a type annotation binding one, while one with an annotation has
/// the annotation's type, unified with its value's; a `return` in a function has a type
/// unified with the expected return type; an `extern`
/// whose type expressions are simple (within `depth`) succeeds; a block and an `extern` have
/// no type; `while`, `trait`, `impl` and `use` have no type and always succeed.
pub open spec fn stmt_inferred(a: TypeInfer, b: TypeInfer, s: TypedStatement, r: CheckResult<Option<TyId>>, depth: nat) -> bool {
    let es = a.infer_ctx.module.typed_exprs@;
    match s {
        TypedStatement::Struct { name, ty, .. } => r == Ok::<Option<TyId>, TypeCheckerError>(None)
            && b.infer_ctx.module.tcx.table.lookup(name.value@) == Some(crate::table::SymbolType::Variable(ty)),
        TypedStatement::FuncDecl { name, ty, .. } => r == Ok::<Option<TyId>, TypeCheckerError>(None)
            && b.infer_ctx.module.tcx.table.lookup(name.value@) == Some(crate::table::SymbolType::Variable(ty)),
        TypedStatement::ExpressionStatement(_, id, _) => known_value_ty(a, es[id.0 as int]) matches Some(t)
            ==> r == Ok::<Option<TyId>, TypeCheckerError>(Some(t)),
        TypedStatement::Extern { params, ret_ty, .. } => (r is Ok ==> r == Ok::<Option<TyId>, TypeCheckerError>(None))
            && ((forall|i: int| 0 <= i < params@.len() ==> simple_type_expr(es, (#[trigger] params@[i]).0 as int, depth))
                && (ret_ty matches Some(x) ==> simple_type_expr(es, x.0 as int, depth)) ==> r is Ok),
        TypedStatement::Block { statements, .. } => (r is Ok ==> r == Ok::<Option<TyId>, TypeCheckerError>(None))
            && (depth > 1 && (forall|j: int| 0 <= j < statements@.len() ==> stmt_always_infers(es,
                a.infer_ctx.module.typed_stmts@[(#[trigger] statements@[j]).0 as int])) ==> r is Ok),
        TypedStatement::Let { var_type, value, .. } => (var_type is None
            ==> (known_value_ty(a, es[value.0 as int]) matches Some(t) ==> r == Ok::<Option<TyId>, TypeCheckerError>(Some(t))))
            && (var_type matches Some(v) ==> (r matches Ok(Some(t)) ==> annotation_unified(a, b, v.value@, t,
                expr_ty(b.infer_ctx.module.typed_exprs@[value.0 as int])))),
        TypedStatement::Const { var_type, value, .. } => (var_type is None
            ==> (known_value_ty(a, es[value.0 as int]) matches Some(t) ==> r == Ok::<Option<TyId>, TypeCheckerError>(Some(t))))
            && (var_type matches Some(v) ==> (r matches Ok(Some(t)) ==> annotation_unified(a, b, v.value@, t,
                expr_ty(b.infer_ctx.module.typed_exprs@[value.0 as int])))),
        TypedStatement::Return { .. } => a.current_expected_ret_ty matches Some(x)
            ==> (r matches Ok(Some(t)) ==> unified_into(a, b, x, t)),
        TypedStatement::While { .. } => r == Ok::<Option<TyId>, TypeCheckerError>(None),
        TypedStatement::Trait { .. } => r == Ok::<Option<TyId>, TypeCheckerError>(None),
        TypedStatement::Impl { .. } => r == Ok::<Option<TyId>, TypeCheckerError>(None),
        TypedStatement::Use { .. } => r == Ok::<Option<TyId>, TypeCheckerError>(None),
        _ => true,
    }
}

/// Whether the types with ids `x` and `y` were unified with success in some state `mid` that
/// inference reached from `a`, and `b` has the types and bindings that this unification gave.
pub open spec fn unified_into(a: TypeInfer, b: TypeInfer, x: TyId, y: TyId) -> bool {
    exists|mid: TypeInfer| #[trigger] infer_grows(a, mid)
        && unify_spec(mid.infer_ctx.types(), mid.infer_ctx.subst(), x, y, UNIFY_DEPTH as nat).2 == UnifyOutcome::Done
        && b.infer_ctx.types() == unify_spec(mid.infer_ctx.types(), mid.infer_ctx.subst(), x, y, UNIFY_DEPTH as nat).0
        && b.infer_ctx.subst() == unify_spec(mid.infer_ctx.types(), mid.infer_ctx.subst(), x, y, UNIFY_DEPTH as nat).1
}

/// Whether `b` reached from `a` has unified, with success, the type with id `x` with the type
/// that the annotation named `v` has in some state `mid` reached from `a`, and `t` is that
/// annotation's type.
pub open spec fn annotation_unified(a: TypeInfer, b: TypeInfer, v: Seq<char>, t: TyId, x: TyId) -> bool {
    exists|mid: TypeInfer| #[trigger] infer_grows(a, mid)
        && (mid.infer_ctx.module.tcx.table.lookup(v) matches Some(sym) && t == crate::table::symbol_type_ty(sym))
        && unify_spec(mid.infer_ctx.types(), mid.infer_ctx.subst(), t, x, UNIFY_DEPTH as nat).2 == UnifyOutcome::Done
        && b.infer_ctx.types() == unify_spec(mid.infer_ctx.types(), mid.infer_ctx.subst(), t, x, UNIFY_DEPTH as nat).0
        && b.infer_ctx.subst() == unify_spec(mid.infer_ctx.types(), mid.infer_ctx.subst(), t, x, UNIFY_DEPTH as nat).1
}

/// A unification that went into `b` went into any state with the same types and bindings.
pub proof fn lemma_unified_into_same(a: TypeInfer, b: TypeInfer, c: TypeInfer, x: TyId, y: TyId)
    requires
        unified_into(a, b, x, y),
        c.infer_ctx.types() == b.infer_ctx.types(),
        c.infer_ctx.subst() == b.infer_ctx.subst(),
    ensures
        unified_into(a, c, x, y),
{
    let mid = choose|mid: TypeInfer| #[trigger] infer_grows(a, mid)
        && unify_spec(mid.infer_ctx.types(), mid.infer_ctx.subst(), x, y, UNIFY_DEPTH as nat).2 == UnifyOutcome::Done
        && b.infer_ctx.types() == unify_spec(mid.infer_ctx.types(), mid.infer_ctx.subst(), x, y, UNIFY_DEPTH as nat).0
        && b.infer_ctx.subst() == unify_spec(mid.infer_ctx.types(), mid.infer_ctx.subst(), x, y, UNIFY_DEPTH as nat).1;
    assert(infer_grows(a, mid));
}

/// An annotation unified into `b` was unified into any state with the same types and
/// bindings.
pub proof fn lemma_annotation_unified_same(a: TypeInfer, b: TypeInfer, c: TypeInfer, v: Seq<char>, t: TyId, x: TyId)
    requires
        annotation_unified(a, b, v, t, x),
        c.infer_ctx.types() == b.infer_ctx.types(),
        c.infer_ctx.subst() == b.infer_ctx.subst(),
    ensures
        annotation_unified(a, c, v, t, x),
{
    let mid = choose|mid: TypeInfer| #[trigger] infer_grows(a, mid)
        && (mid.infer_ctx.module.tcx.table.lookup(v) matches Some(sym) && t == crate::table::symbol_type_ty(sym))
        && unify_spec(mid.infer_ctx.types(), mid.infer_ctx.subst(), t, x, UNIFY_DEPTH as nat).2 == UnifyOutcome::Done
        && b.infer_ctx.types() == unify_spec(mid.infer_ctx.types(), mid.infer_ctx.subst(), t, x, UNIFY_DEPTH as nat).0
        && b.infer_ctx.subst() == unify_spec(mid.infer_ctx.types(), mid.infer_ctx.subst(), t, x, UNIFY_DEPTH as nat).1;
    assert(infer_grows(a, mid));
}

/// Whether inference, going on from `a`, gave the expression `x` the type `t` at some point.
pub open spec fn inferred_as(a: TypeInfer, x: ExprId, t: TyId) -> bool {
    exists|m: TypeInfer| #[trigger] infer_grows(a, m) && expr_ty(m.infer_ctx.module.typed_exprs@[x.0 as int]) == t
}

/// What inferring an infix operation `left op right` of checked type `ty` gave, `t`, seen
/// from before (`a`) and after (`b`): the operands were inferred as some `lt` and `rt`;
/// either they were unified with success and the result is `ty` for a comparison and `lt`
/// otherwise, or it is pointer arithmetic (a pointer plus or minus a `usize`, or a `usize`
/// plus a pointer) and the result is the pointer's type.
pub open spec fn infix_inferred(a: TypeInfer, b: TypeInfer, left: ExprId, right: ExprId, ty: TyId, op: Seq<char>, t: TyId) -> bool {
    exists|lt: TyId, rt: TyId| #[trigger] inferred_as(a, left, lt) && #[trigger] inferred_as(a, right, rt) && {
        let (types, subst) = (b.infer_ctx.types(), b.infer_ctx.subst());
        let (fl, fr) = (follow_all_spec(types, subst, lt), follow_all_spec(types, subst, rt));
        ||| unified_into(a, b, lt, rt) && t == (if crate::checker::is_bool_infix_op(op) { ty } else { lt })
        ||| (op == "+"@ || op == "-"@) && types[fl as int] is Ptr && types[fr as int] == Ty::IntTy(IntTy::USize) && t == fl
        ||| op == "+"@ && types[fl as int] == Ty::IntTy(IntTy::USize) && types[fr as int] is Ptr && t == fr
    }
}

/// What inferring an infix operation gave into `b` it gave into any state with the same types
/// and bindings.
pub proof fn lemma_infix_inferred_same(a: TypeInfer, b: TypeInfer, c: TypeInfer, left: ExprId, right: ExprId, ty: TyId,
    op: Seq<char>, t: TyId)
    requires
        infix_inferred(a, b, left, right, ty, op, t),
        c.infer_ctx.types() == b.infer_ctx.types(),
        c.infer_ctx.subst() == b.infer_ctx.subst(),
    ensures
        infix_inferred(a, c, left, right, ty, op, t),
{
    let (lt, rt) = choose|lt: TyId, rt: TyId| #[trigger] inferred_as(a, left, lt) && #[trigger] inferred_as(a, right, rt) && {
        let (types, subst) = (b.infer_ctx.types(), b.infer_ctx.subst());
        let (fl, fr) = (follow_all_spec(types, subst, lt), follow_all_spec(types, subst, rt));
        ||| unified_into(a, b, lt, rt) && t == (if crate::checker::is_bool_infix_op(op) { ty } else { lt })
        ||| (op == "+"@ || op == "-"@) && types[fl as int] is Ptr && types[fr as int] == Ty::IntTy(IntTy::USize) && t == fl
        ||| op == "+"@ && types[fl as int] == Ty::IntTy(IntTy::USize) && types[fr as int] is Ptr && t == fr
    };
    if unified_into(a, b, lt, rt) {
        lemma_unified_into_same(a, b, c, lt, rt);
    }
    assert(inferred_as(a, left, lt) && inferred_as(a, right, rt));
}

/// One way inferring a call `func(args)` can have given `t`, seen from before (`a`) and after
/// (`b`): the callee was inferred as `c0`; `c` is `c0` itself when `c0` is a function type
/// without generic parameters (else a fresh instance of it); `f` is a function type whose
/// parameters are the types the arguments were inferred as and whose return type is `t`;
/// and `c` was unified with `f` with success.
pub open spec fn call_step(a: TypeInfer, b: TypeInfer, func: ExprId, args: Seq<ExprId>, t: TyId, c0: TyId, c: TyId, f: TyId) -> bool {
    let types = b.infer_ctx.types();
    &&& inferred_as(a, func, c0)
    &&& (types[c0 as int] matches Ty::Function { generics, .. } ==> (generics@.len() == 0 ==> c == c0))
    &&& types[f as int] matches Ty::Function { params_type, ret_type, .. }
    &&& ret_type == t
    &&& params_type@.len() == args.len()
    &&& forall|i: int| 0 <= i < args.len() ==> inferred_as(a, #[trigger] args[i], params_type@[i])
    &&& unified_into(a, b, c, f)
}

/// What inferring a call `func(args)` gave, `t`: see `call_step`.
pub open spec fn call_inferred(a: TypeInfer, b: TypeInfer, func: ExprId, args: Seq<ExprId>, t: TyId) -> bool {
    exists|c0: TyId, c: TyId, f: TyId| #[trigger] call_step(a, b, func, args, t, c0, c, f)
}

/// What inferring a call gave into `b` it gave into any state with the same types and
/// bindings.
pub proof fn lemma_call_inferred_same(a: TypeInfer, b: TypeInfer, c: TypeInfer, func: ExprId, args: Seq<ExprId>, t: TyId)
    requires
        call_inferred(a, b, func, args, t),
        c.infer_ctx.types() == b.infer_ctx.types(),
        c.infer_ctx.subst() == b.infer_ctx.subst(),
    ensures
        call_inferred(a, c, func, args, t),
{
    let (c0, k, f) = choose|c0: TyId, k: TyId, f: TyId| #[trigger] call_step(a, b, func, args, t, c0, k, f);
    lemma_unified_into_same(a, b, c, k, f);
    assert(call_step(a, c, func, args, t, c0, k, f));
}

/// Whether the types with ids `x` and `y` were unified with success in some state that
/// inference reached from `a`, and inference reached the state that this unification gave.
pub open spec fn unified_at(a: TypeInfer, x: TyId, y: TyId) -> bool {
    exists|mid: TypeInfer, m2: TypeInfer| #![trigger infer_grows(a, mid), infer_grows(a, m2)]
        infer_grows(a, mid) && infer_grows(a, m2)
        && unify_spec(mid.infer_ctx.types(), mid.infer_ctx.subst(), x, y, UNIFY_DEPTH as nat).2 == UnifyOutcome::Done
        && m2.infer_ctx.types() == unify_spec(mid.infer_ctx.types(), mid.infer_ctx.subst(), x, y, UNIFY_DEPTH as nat).0
        && m2.infer_ctx.subst() == unify_spec(mid.infer_ctx.types(), mid.infer_ctx.subst(), x, y, UNIFY_DEPTH as nat).1
}

/// Whether the condition `cond` was inferred as `ct` and unified with success with `bt`, a
/// boolean type in `b`.
pub open spec fn cond_bool(a: TypeInfer, b: TypeInfer, cond: ExprId, ct: TyId, bt: TyId) -> bool {
    inferred_as(a, cond, ct) && b.infer_ctx.types()[bt as int] == Ty::Bool && unified_at(a, bt, ct)
}

/// What inferring `if cond { cons } else { els }` gave, `t`: the consequence's type; the
/// condition was unified with `bool`; and an `else` branch's type was unified with `t`.
pub open spec fn if_inferred(a: TypeInfer, b: TypeInfer, cond: ExprId, cons: ExprId, els: Option<ExprId>, t: TyId) -> bool {
    &&& inferred_as(a, cons, t)
    &&& exists|ct: TyId, bt: TyId| #[trigger] cond_bool(a, b, cond, ct, bt)
    &&& els matches Some(x) ==> exists|et: TyId| #[trigger] inferred_as(a, x, et) && unified_into(a, b, t, et)
}

/// What inferring an `if` gave into `b` it gave into any state with the same types and
/// bindings.
pub proof fn lemma_if_inferred_same(a: TypeInfer, b: TypeInfer, c: TypeInfer, cond: ExprId, cons: ExprId, els: Option<ExprId>, t: TyId)
    requires
        if_inferred(a, b, cond, cons, els, t),
        c.infer_ctx.types() == b.infer_ctx.types(),
        c.infer_ctx.subst() == b.infer_ctx.subst(),
    ensures
        if_inferred(a, c, cond, cons, els, t),
{
    let (ct, bt) = choose|ct: TyId, bt: TyId| #[trigger] cond_bool(a, b, cond, ct, bt);
    assert(cond_bool(a, c, cond, ct, bt));
    if let Some(x) = els {
        let et = choose|et: TyId| #[trigger] inferred_as(a, x, et) && unified_into(a, b, t, et);
        lemma_unified_into_same(a, b, c, t, et);
        assert(inferred_as(a, x, et) && unified_into(a, c, t, et));
    }
}

/// The mapping from the first `n` generic parameter names `names` to the type arguments
/// `args`, each inserted in order.
pub open spec fn generic_mapping(names: Seq<Seq<char>>, args: Seq<TyId>, n: nat) -> Seq<(Seq<char>, usize)>
    decreases n,
{
    if n == 0 || n > names.len() || n > args.len() {
        Seq::empty()
    } else {
        crate::imap::entries_insert(generic_mapping(names, args, (n - 1) as nat), names[n - 1], args[n - 1] as usize)
    }
}

/// One way a field access `obj.field` on a value of an applied generic struct type can have
/// given `t`: the object was inferred as `ot`, which in state `mid` resolves to
/// `S<args..>`; `base` is a struct type with generic parameters `generics` and a field
/// `field` of declared type `ft`; and `t` is `ft` with each generic parameter replaced by
/// its argument.
pub open spec fn generic_field_step(a: TypeInfer, b: TypeInfer, obj: ExprId, field: Seq<char>, t: TyId, mid: TypeInfer, ot: TyId,
    base: TyId) -> bool {
    let o = follow_all_spec(mid.infer_ctx.types(), mid.infer_ctx.subst(), ot);
    let types = b.infer_ctx.types();
    &&& inferred_as(a, obj, ot)
    &&& infer_grows(a, mid)
    &&& extends(mid.infer_ctx, b.infer_ctx)
    &&& o < mid.infer_ctx.types().len()
    &&& base < mid.infer_ctx.types().len()
    &&& types[o as int] matches Ty::AppliedGeneric(_, args)
    &&& types[base as int] matches Ty::Struct { generics, fields, .. }
    &&& generics@.len() <= args@.len()
    &&& crate::imap::entries_lookup(crate::imap::name_map_entries(fields), field) matches Some(ft)
    &&& crate::resolve::substituted(types, ft as TyId, t,
        generic_mapping(crate::ty::strings_view(generics@), args@, generics@.len()))
}

/// Whether the object `obj` of a field access was inferred as `ot`, which in state `mid`
/// resolves to a struct type (not an applied generic one).
pub open spec fn plain_struct_step(a: TypeInfer, b: TypeInfer, obj: ExprId, mid: TypeInfer, ot: TyId) -> bool {
    let o = follow_all_spec(mid.infer_ctx.types(), mid.infer_ctx.subst(), ot);
    &&& inferred_as(a, obj, ot)
    &&& infer_grows(a, mid)
    &&& extends(mid.infer_ctx, b.infer_ctx)
    &&& o < mid.infer_ctx.types().len()
    &&& b.infer_ctx.types()[o as int] is Struct
}

/// What inferring a field access `obj.field` of checked type `ty` gave, `t`: on a plain
/// struct, `ty`; on an applied generic struct, the field's declared type with each generic
/// parameter replaced by its argument (see `generic_field_step`).
pub open spec fn field_inferred(a: TypeInfer, b: TypeInfer, obj: ExprId, field: Seq<char>, ty: TyId, t: TyId) -> bool {
    ||| (t == ty && exists|mid: TypeInfer, ot: TyId| #[trigger] plain_struct_step(a, b, obj, mid, ot))
    ||| exists|mid: TypeInfer, ot: TyId, base: TyId| #[trigger] generic_field_step(a, b, obj, field, t, mid, ot, base)
}

/// What inferring a field access gave into `b` it gave into any state with the same types
/// and bindings.
pub proof fn lemma_field_inferred_same(a: TypeInfer, b: TypeInfer, c: TypeInfer, obj: ExprId, field: Seq<char>, ty: TyId, t: TyId)
    requires
        field_inferred(a, b, obj, field, ty, t),
        c.infer_ctx.types() == b.infer_ctx.types(),
        c.infer_ctx.subst() == b.infer_ctx.subst(),
    ensures
        field_inferred(a, c, obj, field, ty, t),
{
    if t == ty && exists|mid: TypeInfer, ot: TyId| #[trigger] plain_struct_step(a, b, obj, mid, ot) {
        let (mid, ot) = choose|mid: TypeInfer, ot: TyId| #[trigger] plain_struct_step(a, b, obj, mid, ot);
        assert(plain_struct_step(a, c, obj, mid, ot));
    } else {
        let (mid, ot, base) = choose|mid: TypeInfer, ot: TyId, base: TyId| #[trigger] generic_field_step(a, b, obj, field, t, mid, ot, base);
        assert(generic_field_step(a, c, obj, field, t, mid, ot, base));
    }
}

/// The mapping from generic parameter names to arguments has no name twice.
pub proof fn lemma_generic_mapping_unique(names: Seq<Seq<char>>, args: Seq<TyId>, n: nat)
    ensures
        entries_keys_unique(generic_mapping(names, args, n)),
    decreases n,
{
    if !(n == 0 || n > names.len() || n > args.len()) {
        lemma_generic_mapping_unique(names, args, (n - 1) as nat);
        crate::imap::lemma_entries_insert_unique(generic_mapping(names, args, (n - 1) as nat), names[n - 1], args[n - 1] as usize);
    }
}

/// In the mapping from distinct generic parameter names to arguments, the `k`-th name maps
/// to the `k`-th argument.
pub proof fn lemma_generic_mapping_lookup(names: Seq<Seq<char>>, args: Seq<TyId>, n: nat, k: int)
    requires
        n <= names.len(),
        n <= args.len(),
        0 <= k < n,
        forall|i: int, j: int| 0 <= i < j < names.len() ==> names[i] != names[j],
    ensures
        crate::imap::entries_lookup(generic_mapping(names, args, n), names[k]) == Some(args[k] as usize),
    decreases n,
{
    let prev = generic_mapping(names, args, (n - 1) as nat);
    lemma_generic_mapping_unique(names, args, (n - 1) as nat);
    if k == n - 1 {
        crate::imap::lemma_entries_insert_lookup(prev, names[n - 1], args[n - 1] as usize);
    } else {
        lemma_generic_mapping_lookup(names, args, (n - 1) as nat, k);
        assert(names[k] != names[n - 1]);
        crate::imap::lemma_entries_insert_keeps(prev, names[n - 1], args[n - 1] as usize, names[k]);
    }
}

/// Law: a field access on a value of an applied generic struct type `S<A1..An>`, whose
/// field is declared with the `k`-th generic parameter of `S` as its type, has the `k`-th
/// type argument `Ak` as its type (when the parameters of `S` have distinct names).
pub proof fn law_generic_field_gets_argument(a: TypeInfer, b: TypeInfer, obj: ExprId, field: Seq<char>, t: TyId, mid: TypeInfer,
    ot: TyId, base: TyId, k: int)
    requires
        generic_field_step(a, b, obj, field, t, mid, ot, base),
        b.infer_ctx.types()[base as int] matches Ty::Struct { generics, fields, .. }
            && 0 <= k < generics@.len()
            && (forall|i: int, j: int| 0 <= i < j < generics@.len() ==> generics@[i]@ != generics@[j]@)
            && (crate::imap::entries_lookup(crate::imap::name_map_entries(fields), field) matches Some(ft)
                && b.infer_ctx.types()[ft as int] matches Ty::Generic(gn, _) && gn@ == generics@[k]@),
    ensures
        b.infer_ctx.types()[follow_all_spec(mid.infer_ctx.types(), mid.infer_ctx.subst(), ot) as int]
            matches Ty::AppliedGeneric(_, args) && t == args@[k],
{
    let types = b.infer_ctx.types();
    if let Ty::Struct { generics, fields, .. } = types[base as int] {
        let names = crate::ty::strings_view(generics@);
        let o = follow_all_spec(mid.infer_ctx.types(), mid.infer_ctx.subst(), ot);
        if let Ty::AppliedGeneric(_, args) = types[o as int] {
            assert forall|i: int, j: int| 0 <= i < j < names.len() implies names[i] != names[j] by {
                assert(names[i] == generics@[i]@ && names[j] == generics@[j]@);
            }
            lemma_generic_mapping_lookup(names, args@, generics@.len(), k);
            assert(names[k] == generics@[k]@);
        }
    }
}

/// The bound on how deep inference walks the module.
pub const INFER_DEPTH: u64 = 0xffff_ffff_ffff_ffff;

impl TypeInfer {
    /// Infers the type of the expression with id `expr_id` and writes it back: literals keep
    /// their types, an integer without a suffix gets a fresh integer variable, a name the
    /// type found for the local or its own, and the other kinds unify the types their parts
    /// must agree on (see `expr_inferred` for what is stated of each kind).
    pub fn infer_expr(&mut self, expr_id: ExprId) -> (r: CheckResult<TyId>)
        requires
            old(self).wf(),
            old(self).refs_ok(),
            expr_id.0 < old(self).infer_ctx.module.typed_exprs@.len(),
        ensures
            infer_grows(*old(self), *final(self)),
            r is Ok ==> final(self).current_expected_ret_ty == old(self).current_expected_ret_ty,
            r matches Ok(t) ==> t < final(self).infer_ctx.types().len()
                && final(self).infer_ctx.module.typed_exprs@[expr_id.0 as int]
                    == expr_with_ty(old(self).infer_ctx.module.typed_exprs@[expr_id.0 as int], t),
            expr_inferred(*old(self), *final(self), old(self).infer_ctx.module.typed_exprs@[expr_id.0 as int], r),
    {
        self.infer_expr_fuel(expr_id, INFER_DEPTH)
    }

    /// Infers the type of a statement and writes it back, when it has one: an expression
    /// statement, `let`, `const` and `return` have one; `let` and `const` record the type
    /// found for their name, and a struct or function declaration binds its name.
    pub fn infer_stmt(&mut self, stmt_id: StmtId) -> (r: CheckResult<Option<TyId>>)
        requires
            old(self).wf(),
            old(self).refs_ok(),
            stmt_id.0 < old(self).infer_ctx.module.typed_stmts@.len(),
        ensures
            infer_grows(*old(self), *final(self)),
            r is Ok ==> final(self).current_expected_ret_ty == old(self).current_expected_ret_ty,
            r matches Ok(Some(t)) ==> t < final(self).infer_ctx.types().len()
                && final(self).infer_ctx.module.typed_stmts@[stmt_id.0 as int]
                    == stmt_with_ty(old(self).infer_ctx.module.typed_stmts@[stmt_id.0 as int], t),
            r is Ok ==> stmt_records_local(old(self).infer_ctx.module.typed_stmts@[stmt_id.0 as int], *final(self)),
            stmt_inferred(*old(self), *final(self), old(self).infer_ctx.module.typed_stmts@[stmt_id.0 as int], r,
                (INFER_DEPTH - 1) as nat),
    {
        self.infer_stmt_fuel(stmt_id, INFER_DEPTH)
    }

    /// Infers the type that the type expression with id `expr_id` denotes and writes it
    /// back.
    pub fn infer_type_expr(&mut self, expr_id: ExprId) -> (r: CheckResult<TyId>)
        requires
            old(self).wf(),
            old(self).refs_ok(),
            expr_id.0 < old(self).infer_ctx.module.typed_exprs@.len(),
        ensures
            infer_grows(*old(self), *final(self)),
            r is Ok ==> final(self).current_expected_ret_ty == old(self).current_expected_ret_ty,
            r matches Ok(t) ==> t < final(self).infer_ctx.types().len(),
            !(old(self).infer_ctx.module.typed_exprs@[expr_id.0 as int] is Prefix) ==> (r matches Ok(t) ==>
                final(self).infer_ctx.module.typed_exprs@[expr_id.0 as int]
                    == expr_with_ty(old(self).infer_ctx.module.typed_exprs@[expr_id.0 as int], t)),
            type_expr_inferred(*old(self), old(self).infer_ctx.module.typed_exprs@[expr_id.0 as int], r),
            simple_type_expr(old(self).infer_ctx.module.typed_exprs@, expr_id.0 as int, INFER_DEPTH as nat) ==> r is Ok,
    {
        self.infer_type_expr_fuel(expr_id, INFER_DEPTH)
    }

    fn infer_expr_fuel(&mut self, expr_id: ExprId, fuel: u64) -> (r: CheckResult<TyId>)
        requires
            old(self).wf(),
            old(self).refs_ok(),
            expr_id.0 < old(self).infer_ctx.module.typed_exprs@.len(),
        ensures
            infer_grows(*old(self), *final(self)),
            r is Ok ==> final(self).current_expected_ret_ty == old(self).current_expected_ret_ty,
            r matches Ok(t) ==> t < final(self).infer_ctx.types().len()
                && final(self).infer_ctx.module.typed_exprs@[expr_id.0 as int]
                    == expr_with_ty(old(self).infer_ctx.module.typed_exprs@[expr_id.0 as int], t),
            fuel > 0 ==> expr_inferred(*old(self), *final(self), old(self).infer_ctx.module.typed_exprs@[expr_id.0 as int], r),
        decreases fuel, 1nat,
    {
        if fuel == 0 {
            return Err(crate::error::make_err(Some("expression nesting too deep"), TypeCheckerErrorKind::Other,
                self.expr_token_at(expr_id)));
        }
        let ghost s0 = *self;
        let ghost e = self.infer_ctx.module.typed_exprs@[expr_id.0 as int];
        proof {
            assert(expr_refs_ok(e, s0.infer_ctx.module.typed_exprs@.len() as int, s0.infer_ctx.module.typed_stmts@.len() as int));
            assert(expr_ty(e) < s0.infer_ctx.types().len());
        }
        let result = match &self.infer_ctx.module.typed_exprs[expr_id.0] {
            TypedExpression::Int { ty, .. } => Ok(*ty),
            TypedExpression::StrLiteral { ty, .. } => Ok(*ty),
            TypedExpression::Bool { ty, .. } => Ok(*ty),
            TypedExpression::UnknownTypeInt { .. } => Ok(self.fresh_var(true)),
            TypedExpression::TypeHint(_, x, _) => {
                let x = *x;
                self.infer_expr_fuel(x, fuel - 1)
            },
            TypedExpression::SizeOf(_, val, ty) => {
                let (val, ty) = (*val, *ty);
                match self.infer_expr_fuel(val, fuel - 1) {
                    Ok(_) => Ok(ty),
                    Err(err) => Err(err),
                }
            },
            TypedExpression::Ident(name, ty, _) => {
                let ty = *ty;
                let found = self.local_ty(&name.value);
                proof {
                    if let Some(v) = found {
                        crate::resolve::lemma_entries_lookup_value(mapping_view(self.locals_tyid@), name.value@);
                        let j = choose|j: int| 0 <= j < mapping_view(self.locals_tyid@).len()
                            && mapping_view(self.locals_tyid@)[j].0 == name.value@ && mapping_view(self.locals_tyid@)[j].1 == v;
                        assert(self.locals_tyid@[j].1 == v);
                    }
                }
                match found {
                    Some(current) => Ok(current),
                    None => Ok(ty),
                }
            },
            TypedExpression::Block(_, stmts, ty) => {
                let (stmts, ty) = (crate::ids::stmt_ids_copy(stmts), *ty);
                self.infer_block(&stmts, ty, fuel)
            },
            TypedExpression::Assign { left, right, ty, .. } => {
                let (left, right, ty) = (*left, *right, *ty);
                self.infer_assign(left, right, ty, fuel)
            },
            TypedExpression::BoolAnd { left, right, ty, .. } => {
                let (left, right, ty) = (*left, *right, *ty);
                self.infer_bool_op(left, right, ty, fuel)
            },
            TypedExpression::BoolOr { left, right, ty, .. } => {
                let (left, right, ty) = (*left, *right, *ty);
                self.infer_bool_op(left, right, ty, fuel)
            },
            TypedExpression::Cast { val, cast_to, ty, .. } => {
                let (val, cast_to, ty) = (*val, *cast_to, *ty);
                self.infer_cast(val, cast_to, ty, fuel)
            },
            TypedExpression::If { condition, consequence, else_block, .. } => {
                let (condition, consequence, else_block) = (*condition, *consequence, *else_block);
                self.infer_if(condition, consequence, else_block, fuel)
            },
            TypedExpression::Infix { left, right, ty, op, .. } => {
                let (left, right, ty, op) = (*left, *right, *ty, op.clone());
                self.infer_infix(left, right, ty, &op, fuel)
            },
            TypedExpression::Prefix { right, ty, token, .. } => {
                let (right, ty, token) = (*right, *ty, token.copy());
                self.infer_prefix(right, ty, &token, fuel)
            },
            TypedExpression::Function { block, ty, token, .. } => {
                let (block, ty, token) = (*block, *ty, token.copy());
                self.infer_function(block, ty, &token, fuel)
            },
            TypedExpression::Call { func, args, .. } => {
                let (func, args) = (*func, crate::ids::expr_ids_copy(args));
                self.infer_call(func, &args, fuel)
            },
            TypedExpression::GenericInstance { left, paths, .. } => {
                let (left, paths) = (*left, crate::ids::expr_ids_copy(paths));
                self.infer_generic_instance(left, &paths, fuel)
            },
            TypedExpression::BuildStruct(_, ident, fields, ty) => {
                let (ident, fields, ty) = (ident.copy(), crate::typed_ast::field_inits_copy(fields), *ty);
                self.infer_build_struct(&ident, &fields, ty, fuel)
            },
            TypedExpression::FieldAccess(_, obj, field, ty) => {
                let (obj, field, ty) = (*obj, field.copy(), *ty);
                self.infer_field_access(obj, &field, ty, fuel)
            },
            _ => Err(crate::error::make_err(Some("not a value expression"), TypeCheckerErrorKind::Other,
                self.expr_token_at(expr_id))),
        };
        match result {
            Ok(ty) => {
                let ghost mid = *self;
                self.set_expr_ty(expr_id, ty);
                proof {
                    lemma_infer_grows_trans(s0, mid, *self);
                    lemma_expr_shape(e, expr_ty(mid.infer_ctx.module.typed_exprs@[expr_id.0 as int]), ty, 0, 0);
                    if let TypedExpression::Infix { left, right, ty: ity, op, .. } = e {
                        lemma_infix_inferred_same(s0, mid, *self, left, right, ity, op@, ty);
                    }
                    if let TypedExpression::Call { func, args, .. } = e {
                        lemma_call_inferred_same(s0, mid, *self, func, args@, ty);
                    }
                    if let TypedExpression::If { condition, consequence, else_block, .. } = e {
                        lemma_if_inferred_same(s0, mid, *self, condition, consequence, else_block, ty);
                    }
                    if let TypedExpression::FieldAccess(_, obj, field, fty) = e {
                        lemma_field_inferred_same(s0, mid, *self, obj, field.value@, fty, ty);
                    }
                }
                Ok(ty)
            },
            Err(err) => Err(err),
        }
    }
}

impl TypeInfer {
    fn infer_block(&mut self, stmts: &Vec<StmtId>, ty: TyId, fuel: u64) -> (r: CheckResult<TyId>)
        requires
            old(self).wf(),
            old(self).refs_ok(),
            fuel > 0,
            ty < old(self).infer_ctx.types().len(),
            forall|i: int| 0 <= i < stmts@.len() ==> (#[trigger] stmts@[i]).0 < old(self).infer_ctx.module.typed_stmts@.len(),
        ensures
            infer_grows(*old(self), *final(self)),
            r is Ok ==> final(self).current_expected_ret_ty == old(self).current_expected_ret_ty,
            r matches Ok(t) ==> t < final(self).infer_ctx.types().len(),
            stmts@.len() == 0 ==> r == Ok::<TyId, TypeCheckerError>(ty),
            fuel > 2 && (forall|i: int| 0 <= i < stmts@.len() ==> stmt_always_infers(old(self).infer_ctx.module.typed_exprs@,
                old(self).infer_ctx.module.typed_stmts@[(#[trigger] stmts@[i]).0 as int])) ==> r is Ok,
        decreases fuel, 0nat,
    {
        let ghost s0 = *self;
        let ghost always = fuel > 2 && (forall|i: int| 0 <= i < stmts@.len() ==> stmt_always_infers(s0.infer_ctx.module.typed_exprs@,
            s0.infer_ctx.module.typed_stmts@[(#[trigger] stmts@[i]).0 as int]));
        let mut stmt_types: Vec<Option<TyId>> = Vec::new();
        let mut i: usize = 0;
        proof {
            self.lemma_same_module_grows(*self);
        }
        while i < stmts.len()
            invariant
                infer_grows(s0, *self),
                s0 == *old(self),
                fuel > 0,
                self.current_expected_ret_ty == s0.current_expected_ret_ty,
                i <= stmts@.len(),
                stmt_types@.len() == i,
                ty < s0.infer_ctx.types().len(),
                forall|j: int| 0 <= j < stmts@.len() ==> (#[trigger] stmts@[j]).0 < s0.infer_ctx.module.typed_stmts@.len(),
                forall|j: int| 0 <= j < i ==> ((#[trigger] stmt_types@[j]) matches Some(t) ==> t < self.infer_ctx.types().len()),
                always == (fuel > 2 && (forall|j: int| 0 <= j < stmts@.len() ==> stmt_always_infers(s0.infer_ctx.module.typed_exprs@,
                    s0.infer_ctx.module.typed_stmts@[(#[trigger] stmts@[j]).0 as int]))),
            decreases stmts@.len() - i,
        {
            let ghost prev = *self;
            proof {
                if always {
                    assert(stmt_always_infers(s0.infer_ctx.module.typed_exprs@, s0.infer_ctx.module.typed_stmts@[stmts@[i as int].0 as int]));
                    lemma_always_infers_kept(s0, prev, stmts@[i as int].0 as int);
                }
            }
            let res = self.infer_stmt_fuel(stmts[i], fuel - 1);
            proof {
                if always {
                    let st = prev.infer_ctx.module.typed_stmts@[stmts@[i as int].0 as int];
                    assert(stmt_inferred(prev, *self, st, res, (fuel - 2) as nat));
                }
            }
            let t = match res {
                Ok(t) => t,
                Err(err) => {
                    proof {
                        lemma_infer_grows_trans(s0, prev, *self);
                    }
                    return Err(err);
                },
            };
            proof {
                lemma_infer_grows_trans(s0, prev, *self);
            }
            stmt_types.push(t);
            i = i + 1;
        }
        if stmt_types.len() == 0 {
            Ok(ty)
        } else {
            match stmt_types[stmt_types.len() - 1] {
                Some(t) => Ok(t),
                None => Ok(ty),
            }
        }
    }

    fn infer_assign(&mut self, left: ExprId, right: ExprId, ty: TyId, fuel: u64) -> (r: CheckResult<TyId>)
        requires
            old(self).wf(),
            old(self).refs_ok(),
            fuel > 0,
            ty < old(self).infer_ctx.types().len(),
            left.0 < old(self).infer_ctx.module.typed_exprs@.len(),
            right.0 < old(self).infer_ctx.module.typed_exprs@.len(),
        ensures
            infer_grows(*old(self), *final(self)),
            r is Ok ==> final(self).current_expected_ret_ty == old(self).current_expected_ret_ty,
            r matches Ok(t) ==> t < final(self).infer_ctx.types().len(),
            r matches Ok(t) ==> t == ty,
        decreases fuel, 0nat,
    {
        let ghost s0 = *self;
        let right_token = self.expr_token_at(right);
        let left_t = match self.infer_expr_fuel(left, fuel - 1) {
            Ok(t) => t,
            Err(err) => return Err(err),
        };
        let left_t = self.follow_all(left_t);
        let ghost s1 = *self;
        let right_t = match self.infer_expr_fuel(right, fuel - 1) {
            Ok(t) => t,
            Err(err) => {
                proof {
                    lemma_infer_grows_trans(s0, s1, *self);
                }
                return Err(err);
            },
        };
        proof {
            lemma_infer_grows_trans(s0, s1, *self);
        }
        let right_t = self.follow_all(right_t);
        let ghost s2 = *self;
        let u = self.unify(left_t, right_t, right_token);
        proof {
            lemma_infer_grows_trans(s0, s2, *self);
        }
        match u {
            Ok(()) => Ok(ty),
            Err(err) => Err(err),
        }
    }

    fn infer_bool_op(&mut self, left: ExprId, right: ExprId, ty: TyId, fuel: u64) -> (r: CheckResult<TyId>)
        requires
            old(self).wf(),
            old(self).refs_ok(),
            fuel > 0,
            ty < old(self).infer_ctx.types().len(),
            left.0 < old(self).infer_ctx.module.typed_exprs@.len(),
            right.0 < old(self).infer_ctx.module.typed_exprs@.len(),
        ensures
            infer_grows(*old(self), *final(self)),
            r is Ok ==> final(self).current_expected_ret_ty == old(self).current_expected_ret_ty,
            r matches Ok(t) ==> t < final(self).infer_ctx.types().len(),
            r matches Ok(t) ==> t == ty,
        decreases fuel, 0nat,
    {
        let ghost s0 = *self;
        let left_token = self.expr_token_at(left);
        let right_token = self.expr_token_at(right);
        let bool_ty = self.alloc_ty(Ty::Bool);
        let ghost s1 = *self;
        let left_t = match self.infer_expr_fuel(left, fuel - 1) {
            Ok(t) => t,
            Err(err) => {
                proof {
                    lemma_infer_grows_trans(s0, s1, *self);
                }
                return Err(err);
            },
        };
        proof {
            lemma_infer_grows_trans(s0, s1, *self);
        }
        let ghost s2 = *self;
        let right_t = match self.infer_expr_fuel(right, fuel - 1) {
            Ok(t) => t,
            Err(err) => {
                proof {
                    lemma_infer_grows_trans(s0, s2, *self);
                }
                return Err(err);
            },
        };
        proof {
            lemma_infer_grows_trans(s0, s2, *self);
        }
        let ghost s3 = *self;
        let u = self.unify(bool_ty, left_t, left_token);
        proof {
            lemma_infer_grows_trans(s0, s3, *self);
        }
        if let Err(err) = u {
            return Err(err);
        }
        let ghost s4 = *self;
        let u = self.unify(bool_ty, right_t, right_token);
        proof {
            lemma_infer_grows_trans(s0, s4, *self);
        }
        match u {
            Ok(()) => Ok(ty),
            Err(err) => Err(err),
        }
    }

    #[verifier::rlimit(100)]
    #[verifier::spinoff_prover]
    fn infer_stmt_fuel(&mut self, stmt_id: StmtId, fuel: u64) -> (r: CheckResult<Option<TyId>>)
        requires
            old(self).wf(),
            old(self).refs_ok(),
            stmt_id.0 < old(self).infer_ctx.module.typed_stmts@.len(),
        ensures
            infer_grows(*old(self), *final(self)),
            r is Ok ==> final(self).current_expected_ret_ty == old(self).current_expected_ret_ty,
            r matches Ok(Some(t)) ==> t < final(self).infer_ctx.types().len()
                && final(self).infer_ctx.module.typed_stmts@[stmt_id.0 as int]
                    == stmt_with_ty(old(self).infer_ctx.module.typed_stmts@[stmt_id.0 as int], t),
            r is Ok ==> stmt_records_local(old(self).infer_ctx.module.typed_stmts@[stmt_id.0 as int], *final(self)),
            fuel > 1 ==> stmt_inferred(*old(self), *final(self), old(self).infer_ctx.module.typed_stmts@[stmt_id.0 as int], r,
                (fuel - 1) as nat),
        decreases fuel, 1nat,
    {
        if fuel == 0 {
            return Err(crate::error::make_err(Some("statement nesting too deep"), TypeCheckerErrorKind::Other,
                self.infer_ctx.module.typed_stmts[stmt_id.0].token()));
        }
        let ghost s0 = *self;
        let ghost st = self.infer_ctx.module.typed_stmts@[stmt_id.0 as int];
        proof {
            assert(stmt_refs_ok(st, s0.infer_ctx.module.typed_exprs@.len() as int, s0.infer_ctx.module.typed_stmts@.len() as int));
            self.lemma_same_module_grows(*self);
        }
        let result: CheckResult<Option<TyId>> = match &self.infer_ctx.module.typed_stmts[stmt_id.0] {
            TypedStatement::ExpressionStatement(_, id, _) => {
                let id = *id;
                match self.infer_expr_fuel(id, fuel - 1) {
                    Ok(t) => Ok(Some(t)),
                    Err(err) => Err(err),
                }
            },
            TypedStatement::Block { statements, .. } => {
                let statements = crate::ids::stmt_ids_copy(statements);
                let ghost always = fuel > 2 && (forall|j: int| 0 <= j < statements@.len() ==> stmt_always_infers(
                    s0.infer_ctx.module.typed_exprs@, s0.infer_ctx.module.typed_stmts@[(#[trigger] statements@[j]).0 as int]));
                let mut i: usize = 0;
                let mut failed: Option<TypeCheckerError> = None;
                while i < statements.len()
                    invariant
                        infer_grows(s0, *self),
                        fuel > 0,
                        failed is None ==> self.current_expected_ret_ty == s0.current_expected_ret_ty,
                        i <= statements@.len(),
                        forall|j: int| 0 <= j < statements@.len() ==> (#[trigger] statements@[j]).0 < s0.infer_ctx.module.typed_stmts@.len(),
                        always ==> failed is None,
                        always == (fuel > 2 && (forall|j: int| 0 <= j < statements@.len() ==> stmt_always_infers(
                            s0.infer_ctx.module.typed_exprs@, s0.infer_ctx.module.typed_stmts@[(#[trigger] statements@[j]).0 as int]))),
                    decreases statements@.len() - i,
                {
                    let ghost prev = *self;
                    proof {
                        if always {
                            assert(stmt_always_infers(s0.infer_ctx.module.typed_exprs@,
                                s0.infer_ctx.module.typed_stmts@[statements@[i as int].0 as int]));
                            lemma_always_infers_kept(s0, prev, statements@[i as int].0 as int);
                        }
                    }
                    let r = self.infer_stmt_fuel(statements[i], fuel - 1);
                    proof {
                        lemma_infer_grows_trans(s0, prev, *self);
                        if always {
                            let st = prev.infer_ctx.module.typed_stmts@[statements@[i as int].0 as int];
                            assert(stmt_inferred(prev, *self, st, r, (fuel - 2) as nat));
                        }
                    }
                    if let Err(err) = r {
                        failed = Some(err);
                        break;
                    }
                    i = i + 1;
                }
                match failed {
                    Some(err) => Err(err),
                    None => Ok(None),
                }
            },
            TypedStatement::Let { value, var_type, name, .. } => {
                let var_type = match var_type {
                    Some(v) => Some(v.copy()),
                    None => None,
                };
                let (value, name) = (*value, name.value.clone());
                match self.infer_binding(value, &var_type, &name, fuel) {
                    Ok(t) => Ok(Some(t)),
                    Err(err) => Err(err),
                }
            },
            TypedStatement::Const { value, var_type, name, .. } => {
                let var_type = match var_type {
                    Some(v) => Some(v.copy()),
                    None => None,
                };
                let (value, name) = (*value, name.value.clone());
                match self.infer_binding(value, &var_type, &name, fuel) {
                    Ok(t) => Ok(Some(t)),
                    Err(err) => Err(err),
                }
            },
            TypedStatement::Return { expr, token, .. } => {
                let (expr, token) = (*expr, token.copy());
                match self.infer_return(expr, &token, fuel) {
                    Ok(t) => Ok(Some(t)),
                    Err(err) => Err(err),
                }
            },
            TypedStatement::Extern { params, ret_ty, .. } => {
                let (params, ret_ty) = (crate::ids::expr_ids_copy(params), *ret_ty);
                match self.infer_extern(&params, ret_ty, fuel) {
                    Ok(()) => Ok(None),
                    Err(err) => Err(err),
                }
            },
            TypedStatement::Struct { name, ty, .. } => {
                let (name, ty) = (name.value.clone(), *ty);
                self.declare_name(&name, ty);
                Ok(None)
            },
            TypedStatement::FuncDecl { name, ty, .. } => {
                let (name, ty) = (name.value.clone(), *ty);
                self.declare_name(&name, ty);
                Ok(None)
            },
            _ => Ok(None),
        };
        match result {
            Ok(Some(ty)) => {
                let ghost mid = *self;
                self.set_stmt_ty(stmt_id, ty);
                proof {
                    lemma_infer_grows_trans(s0, mid, *self);
                    lemma_stmt_shape(st, stmt_ty(mid.infer_ctx.module.typed_stmts@[stmt_id.0 as int]), ty, 0, 0);
                    match st {
                        TypedStatement::Let { var_type: Some(v), value, .. } => {
                            if annotation_unified(s0, mid, v.value@, ty, expr_ty(mid.infer_ctx.module.typed_exprs@[value.0 as int])) {
                                lemma_annotation_unified_same(s0, mid, *self, v.value@, ty,
                                    expr_ty(mid.infer_ctx.module.typed_exprs@[value.0 as int]));
                            }
                        },
                        TypedStatement::Const { var_type: Some(v), value, .. } => {
                            if annotation_unified(s0, mid, v.value@, ty, expr_ty(mid.infer_ctx.module.typed_exprs@[value.0 as int])) {
                                lemma_annotation_unified_same(s0, mid, *self, v.value@, ty,
                                    expr_ty(mid.infer_ctx.module.typed_exprs@[value.0 as int]));
                            }
                        },
                        TypedStatement::Return { .. } => {
                            if let Some(x) = s0.current_expected_ret_ty {
                                if unified_into(s0, mid, x, ty) {
                                    lemma_unified_into_same(s0, mid, *self, x, ty);
                                }
                            }
                        },
                        _ => {},
                    }
                }
                Ok(Some(ty))
            },
            Ok(None) => Ok(None),
            Err(err) => Err(err),
        }
    }

    fn infer_type_expr_fuel(&mut self, expr_id: ExprId, fuel: u64) -> (r: CheckResult<TyId>)
        requires
            old(self).wf(),
            old(self).refs_ok(),
            expr_id.0 < old(self).infer_ctx.module.typed_exprs@.len(),
        ensures
            infer_grows(*old(self), *final(self)),
            r is Ok ==> final(self).current_expected_ret_ty == old(self).current_expected_ret_ty,
            r matches Ok(t) ==> t < final(self).infer_ctx.types().len(),
            !(old(self).infer_ctx.module.typed_exprs@[expr_id.0 as int] is Prefix) ==> (r matches Ok(t) ==>
                final(self).infer_ctx.module.typed_exprs@[expr_id.0 as int]
                    == expr_with_ty(old(self).infer_ctx.module.typed_exprs@[expr_id.0 as int], t)),
            fuel > 0 ==> type_expr_inferred(*old(self), old(self).infer_ctx.module.typed_exprs@[expr_id.0 as int], r),
            simple_type_expr(old(self).infer_ctx.module.typed_exprs@, expr_id.0 as int, fuel as nat) ==> r is Ok,
        decreases fuel, 1nat,
    {
        if fuel == 0 {
            return Err(crate::error::make_err(Some("expression nesting too deep"), TypeCheckerErrorKind::Other,
                self.expr_token_at(expr_id)));
        }
        let ghost s0 = *self;
        let ghost e = self.infer_ctx.module.typed_exprs@[expr_id.0 as int];
        proof {
            assert(expr_refs_ok(e, s0.infer_ctx.module.typed_exprs@.len() as int, s0.infer_ctx.module.typed_stmts@.len() as int));
            assert(expr_ty(e) < s0.infer_ctx.types().len());
        }
        let result = match &self.infer_ctx.module.typed_exprs[expr_id.0] {
            TypedExpression::TypeHint(_, x, _) => {
                let x = *x;
                self.infer_type_expr_fuel(x, fuel - 1)
            },
            TypedExpression::Prefix { right, token, .. } => {
                let (right, token) = (*right, token.copy());
                match self.infer_type_prefix(right, &token, fuel) {
                    Ok((t, true)) => Ok(t),
                    Ok((t, false)) => return Ok(t),
                    Err(err) => Err(err),
                }
            },
            TypedExpression::Ident(name, ty, _) => {
                let (name, ty) = (name.value.clone(), *ty);
                Ok(self.infer_type_ident(&name, ty))
            },
            TypedExpression::TypePath { left, paths, ty, .. } => {
                let (left, paths, ty) = (left.copy(), crate::ids::expr_ids_copy(paths), *ty);
                self.infer_type_path(&left, &paths, ty, fuel)
            },
            _ => Err(crate::error::make_err(Some("not a type expr"), TypeCheckerErrorKind::Other, self.expr_token_at(expr_id))),
        };
        match result {
            Ok(ty) => {
                let ghost mid = *self;
                self.set_expr_ty(expr_id, ty);
                proof {
                    lemma_infer_grows_trans(s0, mid, *self);
                    lemma_expr_shape(e, expr_ty(mid.infer_ctx.module.typed_exprs@[expr_id.0 as int]), ty, 0, 0);
                }
                Ok(ty)
            },
            Err(err) => Err(err),
        }
    }
}

impl TypeInfer {
    /// The type with id `ty_id` with each of `generic_params` replaced by a fresh inference
    /// variable (see `InferContext::instantiate`).
    fn instantiate(&mut self, ty_id: TyId, generic_params: &Vec<String>) -> (r: TyId)
        requires
            old(self).wf(),
            old(self).refs_ok(),
            ty_id < old(self).infer_ctx.types().len(),
        ensures
            infer_grows(*old(self), *final(self)),
            r < final(self).infer_ctx.types().len(),
            final(self).locals_tyid == old(self).locals_tyid,
            final(self).current_expected_ret_ty == old(self).current_expected_ret_ty,
            final(self).infer_ctx.module.tcx.table == old(self).infer_ctx.module.tcx.table,
            generic_params@.len() == 0 ==> r == ty_id && *final(self) == *old(self),
            generic_params@.len() > 0 ==> {
                &&& old(self).infer_ctx.types().len() + generic_params@.len() <= final(self).infer_ctx.types().len()
                &&& forall|k: int| 0 <= k < generic_params@.len() ==>
                    #[trigger] final(self).infer_ctx.types()[old(self).infer_ctx.types().len() + k]
                        == Ty::Infer((old(self).infer_ctx.next_id() + k) as usize)
                &&& crate::resolve::substituted(final(self).infer_ctx.types(), ty_id, r,
                    crate::resolve::fresh_mapping(crate::ty::strings_view(generic_params@),
                        old(self).infer_ctx.types().len() as int))
            },
    {
        let r = self.infer_ctx.instantiate(ty_id, generic_params);
        proof {
            crate::table::lemma_table_below_mono(self.infer_ctx.module.tcx.table, old(self).infer_ctx.types().len() as int,
                self.infer_ctx.types().len() as int);
            self.lemma_same_module_grows(*old(self));
        }
        r
    }

    /// The type with id `ty_id` with its generic parameters replaced per `mapping` (see
    /// `InferContext::substitute`).
    fn substitute(&mut self, ty_id: TyId, mapping: &Vec<(String, TyId)>) -> (r: TyId)
        requires
            old(self).wf(),
            old(self).refs_ok(),
            ty_id < old(self).infer_ctx.types().len(),
            forall|i: int| 0 <= i < mapping@.len() ==> #[trigger] mapping@[i].1 < old(self).infer_ctx.types().len(),
        ensures
            infer_grows(*old(self), *final(self)),
            r < final(self).infer_ctx.types().len(),
            crate::resolve::substituted(final(self).infer_ctx.types(), ty_id, r, mapping_view(mapping@)),
            final(self).locals_tyid == old(self).locals_tyid,
            final(self).current_expected_ret_ty == old(self).current_expected_ret_ty,
            final(self).infer_ctx.module.tcx.table == old(self).infer_ctx.module.tcx.table,
    {
        let r = self.infer_ctx.substitute(ty_id, mapping);
        proof {
            crate::table::lemma_table_below_mono(self.infer_ctx.module.tcx.table, old(self).infer_ctx.types().len() as int,
                self.infer_ctx.types().len() as int);
            self.lemma_same_module_grows(*old(self));
        }
        r
    }

    /// The error for finding the type named `got` where one of kind `expected` is needed.
    fn unexpected_error(&self, expected: &str, got: &str, token: Token) -> (e: TypeCheckerError)
        ensures
            e.kind == TypeCheckerErrorKind::TypeMismatch,
            e.token == token,
            e.message matches Some(m) && m@ == "expected `"@ + expected@ + "`, got "@ + got@,
    {
        let mut m = String::from_str("expected `");
        m.append(expected);
        m.append("`, got ");
        m.append(got);
        proof {
            reveal_strlit("expected `");
            reveal_strlit("`, got ");
        }
        TypeCheckerError { kind: TypeCheckerErrorKind::TypeMismatch, token, message: Some(m) }
    }

    /// The text of the type with id `id`, as errors show it.
    fn display_at(&self, id: TyId) -> (s: String)
        requires
            self.wf(),
            id < self.infer_ctx.types().len(),
        ensures
            s@ == crate::display::display_ty_spec(self.infer_ctx.types(), self.infer_ctx.types()[id as int],
                self.infer_ctx.types().len() as int),
    {
        let tcx = &self.infer_ctx.module.tcx;
        proof {
            crate::unify::lemma_parts_below_mono(self.infer_ctx.types()[id as int], id as int, self.infer_ctx.types().len() as int);
        }
        crate::display::display_ty(tcx.get(id), tcx)
    }
}

impl TypeInfer {
    fn infer_cast(&mut self, val: ExprId, cast_to: ExprId, ty: TyId, fuel: u64) -> (r: CheckResult<TyId>)
        requires
            old(self).wf(),
            old(self).refs_ok(),
            fuel > 0,
            val.0 < old(self).infer_ctx.module.typed_exprs@.len(),
            cast_to.0 < old(self).infer_ctx.module.typed_exprs@.len(),
            ty < old(self).infer_ctx.types().len(),
        ensures
            infer_grows(*old(self), *final(self)),
            r is Ok ==> final(self).current_expected_ret_ty == old(self).current_expected_ret_ty,
            r matches Ok(t) ==> t < final(self).infer_ctx.types().len(),
        decreases fuel, 0nat,
    {
        let ghost s0 = *self;
        proof {
            self.lemma_same_module_grows(*self);
        }
        let ghost s1 = *self;
        let val_ty = match self.infer_expr_fuel(val, fuel - 1) {
            Ok(v) => v,
            Err(err) => {
                proof {
                    lemma_infer_grows_trans(s0, s1, *self);
                }
                return Err(err);
            },
        };
        proof {
            lemma_infer_grows_trans(s0, s1, *self);
        }
        let val_ty = self.follow_all(val_ty);
        let ghost s2 = *self;
        let new_ty = match self.infer_type_expr_fuel(cast_to, fuel - 1) {
            Ok(v) => v,
            Err(err) => {
                proof {
                    lemma_infer_grows_trans(s0, s2, *self);
                }
                return Err(err);
            },
        };
        proof {
            lemma_infer_grows_trans(s0, s2, *self);
        }
        let new_ty = self.follow_all(new_ty);
        let cast_to_token = self.expr_token_at(cast_to);
        let ghost s3 = *self;
        let u = self.unify(ty, new_ty, cast_to_token);
        proof {
            lemma_infer_grows_trans(s0, s3, *self);
        }
        if let Err(err) = u {
            return Err(err);
        }
        let is_int_var = match self.infer_ctx.module.tcx.get(val_ty) {
            Ty::InferInt(_) => true,
            _ => false,
        };
        let target_ok = match self.infer_ctx.module.tcx.get(new_ty) {
            Ty::IntTy(_) | Ty::Ptr(_) => true,
            _ => false,
        };
        if is_int_var && target_ok {
            let val_token = self.expr_token_at(val);
            let ghost s4 = *self;
            let u = self.unify(val_ty, new_ty, val_token);
            proof {
                lemma_infer_grows_trans(s0, s4, *self);
            }
            if let Err(err) = u {
                return Err(err);
            }
        }
        let val_ty = self.follow_all(val_ty);
        let new_ty = self.follow_all(new_ty);
        let val_token = self.expr_token_at(val);
        match self.infer_ctx.check_cast_valid(val_ty, new_ty, val_token) {
            Ok(()) => Ok(new_ty),
            Err(err) => Err(err),
        }
    }

    fn infer_if(&mut self, condition: ExprId, consequence: ExprId, else_block: Option<ExprId>, fuel: u64) -> (r: CheckResult<TyId>)
        requires
            old(self).wf(),
            old(self).refs_ok(),
            fuel > 0,
            condition.0 < old(self).infer_ctx.module.typed_exprs@.len(),
            consequence.0 < old(self).infer_ctx.module.typed_exprs@.len(),
            else_block matches Some(x) ==> x.0 < old(self).infer_ctx.module.typed_exprs@.len(),
        ensures
            infer_grows(*old(self), *final(self)),
            r is Ok ==> final(self).current_expected_ret_ty == old(self).current_expected_ret_ty,
            r matches Ok(t) ==> t < final(self).infer_ctx.types().len(),
            r matches Ok(t) ==> if_inferred(*old(self), *final(self), condition, consequence, else_block, t),
        decreases fuel, 0nat,
    {
        let ghost s0 = *self;
        proof {
            self.lemma_same_module_grows(*self);
        }
        let ghost s1 = *self;
        let bool_ty = self.alloc_ty(Ty::Bool);
        proof {
            lemma_infer_grows_trans(s0, s1, *self);
        }
        let ghost s2 = *self;
        let condition_ty = match self.infer_expr_fuel(condition, fuel - 1) {
            Ok(v) => v,
            Err(err) => {
                proof {
                    lemma_infer_grows_trans(s0, s2, *self);
                }
                return Err(err);
            },
        };
        proof {
            lemma_infer_grows_trans(s0, s2, *self);
            lemma_expr_shape(s2.infer_ctx.module.typed_exprs@[condition.0 as int], condition_ty, condition_ty, 0, 0);
            assert(infer_grows(s0, *self) && expr_ty(self.infer_ctx.module.typed_exprs@[condition.0 as int]) == condition_ty);
            assert(inferred_as(s0, condition, condition_ty));
        }
        let condition_token = self.expr_token_at(condition);
        let ghost s3 = *self;
        let u = self.unify(bool_ty, condition_ty, condition_token);
        proof {
            lemma_infer_grows_trans(s0, s3, *self);
        }
        if let Err(err) = u {
            return Err(err);
        }
        proof {
            assert(infer_grows(s0, s3) && infer_grows(s0, *self));
            assert(unified_at(s0, bool_ty, condition_ty));
        }
        let ghost s4 = *self;
        let then_ty = match self.infer_expr_fuel(consequence, fuel - 1) {
            Ok(v) => v,
            Err(err) => {
                proof {
                    lemma_infer_grows_trans(s0, s4, *self);
                }
                return Err(err);
            },
        };
        proof {
            lemma_infer_grows_trans(s0, s4, *self);
            lemma_expr_shape(s4.infer_ctx.module.typed_exprs@[consequence.0 as int], then_ty, then_ty, 0, 0);
            assert(infer_grows(s0, *self) && expr_ty(self.infer_ctx.module.typed_exprs@[consequence.0 as int]) == then_ty);
            assert(inferred_as(s0, consequence, then_ty));
        }
        if let Some(it) = else_block {
            let ghost s5 = *self;
            let else_r = self.infer_expr_fuel(it, fuel - 1);
            proof {
                lemma_infer_grows_trans(s0, s5, *self);
            }
            let token = self.expr_token_at(it);
            let else_ty = match else_r {
                Ok(t) => t,
                Err(err) => return Err(err),
            };
            proof {
                lemma_expr_shape(s5.infer_ctx.module.typed_exprs@[it.0 as int], else_ty, else_ty, 0, 0);
                assert(infer_grows(s0, *self) && expr_ty(self.infer_ctx.module.typed_exprs@[it.0 as int]) == else_ty);
                assert(inferred_as(s0, it, else_ty));
            }
            let ghost s6 = *self;
            let u = self.unify(then_ty, else_ty, token);
            proof {
                lemma_infer_grows_trans(s0, s6, *self);
            }
            if let Err(err) = u {
                return Err(err);
            }
            proof {
                assert(infer_grows(s0, s6));
                assert(unified_into(s0, *self, then_ty, else_ty));
                assert(inferred_as(s0, it, else_ty) && unified_into(s0, *self, then_ty, else_ty));
            }
        }
        proof {
            assert(cond_bool(s0, *self, condition, condition_ty, bool_ty));
        }
        Ok(then_ty)
    }

    fn infer_infix(&mut self, left: ExprId, right: ExprId, ty: TyId, op: &String, fuel: u64) -> (r: CheckResult<TyId>)
        requires
            old(self).wf(),
            old(self).refs_ok(),
            fuel > 0,
            left.0 < old(self).infer_ctx.module.typed_exprs@.len(),
            right.0 < old(self).infer_ctx.module.typed_exprs@.len(),
            ty < old(self).infer_ctx.types().len(),
        ensures
            infer_grows(*old(self), *final(self)),
            r is Ok ==> final(self).current_expected_ret_ty == old(self).current_expected_ret_ty,
            r matches Ok(t) ==> t < final(self).infer_ctx.types().len(),
            r matches Ok(t) ==> infix_inferred(*old(self), *final(self), left, right, ty, op@, t),
        decreases fuel, 0nat,
    {
        let ghost s0 = *self;
        proof {
            self.lemma_same_module_grows(*self);
        }
        let right_token = self.expr_token_at(right);
        let ghost s1 = *self;
        let left_t = match self.infer_expr_fuel(left, fuel - 1) {
            Ok(v) => v,
            Err(err) => {
                proof {
                    lemma_infer_grows_trans(s0, s1, *self);
                }
                return Err(err);
            },
        };
        proof {
            lemma_infer_grows_trans(s0, s1, *self);
        }
        let ghost s2 = *self;
        let right_t = match self.infer_expr_fuel(right, fuel - 1) {
            Ok(v) => v,
            Err(err) => {
                proof {
                    lemma_infer_grows_trans(s0, s2, *self);
                }
                return Err(err);
            },
        };
        proof {
            lemma_infer_grows_trans(s0, s2, *self);
            assert(infer_grows(s0, s2) && expr_ty(s2.infer_ctx.module.typed_exprs@[left.0 as int]) == left_t) by {
                lemma_expr_shape(s1.infer_ctx.module.typed_exprs@[left.0 as int], left_t, left_t, 0, 0);
            }
            assert(inferred_as(s0, left, left_t));
            lemma_expr_shape(s2.infer_ctx.module.typed_exprs@[right.0 as int], right_t, right_t, 0, 0);
            assert(infer_grows(s0, *self) && expr_ty(self.infer_ctx.module.typed_exprs@[right.0 as int]) == right_t);
            assert(inferred_as(s0, right, right_t));
        }
        let ltyid = self.follow_all(left_t);
        let rtyid = self.follow_all(right_t);
        let l_ptr = match self.infer_ctx.module.tcx.get(ltyid) {
            Ty::Ptr(_) => true,
            _ => false,
        };
        let r_ptr = match self.infer_ctx.module.tcx.get(rtyid) {
            Ty::Ptr(_) => true,
            _ => false,
        };
        let l_usize = match self.infer_ctx.module.tcx.get(ltyid) {
            Ty::IntTy(IntTy::USize) => true,
            _ => false,
        };
        let r_usize = match self.infer_ctx.module.tcx.get(rtyid) {
            Ty::IntTy(IntTy::USize) => true,
            _ => false,
        };
        proof {
            reveal_strlit("+");
            reveal_strlit("-");
        }
        let is_plus = crate::ty::str_eq(op.as_str(), "+");
        let is_minus = crate::ty::str_eq(op.as_str(), "-");
        if l_ptr && r_usize && is_plus {
            proof {
                assert(infix_inferred(s0, *self, left, right, ty, op@, ltyid));
            }
            Ok(ltyid)
        } else if l_usize && r_ptr && is_plus {
            proof {
                assert(infix_inferred(s0, *self, left, right, ty, op@, rtyid));
            }
            Ok(rtyid)
        } else if l_ptr && r_usize && is_minus {
            proof {
                assert(infix_inferred(s0, *self, left, right, ty, op@, ltyid));
            }
            Ok(ltyid)
        } else {
            let ghost s3 = *self;
            let u = self.unify(left_t, right_t, right_token);
            proof {
                lemma_infer_grows_trans(s0, s3, *self);
            }
            if let Err(err) = u {
                return Err(err);
            }
            proof {
                assert(infer_grows(s0, s3));
                assert(unified_into(s0, *self, left_t, right_t));
            }
            if !crate::checker::bool_infix_operator(op.as_str()) {
                proof {
                    assert(infix_inferred(s0, *self, left, right, ty, op@, left_t));
                }
                Ok(left_t)
            } else {
                proof {
                    assert(infix_inferred(s0, *self, left, right, ty, op@, ty));
                }
                Ok(ty)
            }
        }
    }

    fn infer_prefix(&mut self, right: ExprId, result_ty: TyId, token: &Token, fuel: u64) -> (r: CheckResult<TyId>)
        requires
            old(self).wf(),
            old(self).refs_ok(),
            fuel > 0,
            right.0 < old(self).infer_ctx.module.typed_exprs@.len(),
            result_ty < old(self).infer_ctx.types().len(),
        ensures
            infer_grows(*old(self), *final(self)),
            r is Ok ==> final(self).current_expected_ret_ty == old(self).current_expected_ret_ty,
            r matches Ok(t) ==> t < final(self).infer_ctx.types().len(),
            r matches Ok(t) ==> t == result_ty,
        decreases fuel, 0nat,
    {
        let ghost s0 = *self;
        proof {
            self.lemma_same_module_grows(*self);
        }
        let op = token.value.clone();
        let ghost s1 = *self;
        let right_ty = match self.infer_expr_fuel(right, fuel - 1) {
            Ok(v) => v,
            Err(err) => {
                proof {
                    lemma_infer_grows_trans(s0, s1, *self);
                }
                return Err(err);
            },
        };
        proof {
            lemma_infer_grows_trans(s0, s1, *self);
        }
        let right_token = self.expr_token_at(right);
        proof {
            reveal_strlit("!");
            reveal_strlit("-");
            reveal_strlit("+");
            reveal_strlit("*");
        }
        if crate::ty::str_eq(op.as_str(), "!") {
            let ghost s2 = *self;
            let bool_ty = self.alloc_ty(Ty::Bool);
            proof {
                lemma_infer_grows_trans(s0, s2, *self);
            }
            let ghost s3 = *self;
            let u = self.unify(bool_ty, right_ty, right_token);
            proof {
                lemma_infer_grows_trans(s0, s3, *self);
            }
            if let Err(err) = u {
                return Err(err);
            }
        } else if crate::ty::str_eq(op.as_str(), "-") || crate::ty::str_eq(op.as_str(), "+") {
            let is_int = match self.infer_ctx.module.tcx.get(right_ty) {
                Ty::IntTy(_) => true,
                _ => false,
            };
            if !is_int {
                let mut m = String::from_str("expected `integer`, got ");
                let d = self.infer_ctx.module.tcx.get(right_ty).to_display_string();
                m.append(d.as_str());
                return Err(TypeCheckerError { kind: TypeCheckerErrorKind::TypeMismatch, token: token.copy(), message: Some(m) });
            }
        } else if crate::ty::str_eq(op.as_str(), "*") {
            let ghost s2 = *self;
            let expected_ptr_ty = self.alloc_ty(Ty::Ptr(result_ty));
            proof {
                lemma_infer_grows_trans(s0, s2, *self);
            }
            let ghost s3 = *self;
            let u = self.unify(expected_ptr_ty, right_ty, right_token);
            proof {
                lemma_infer_grows_trans(s0, s3, *self);
            }
            if let Err(err) = u {
                return Err(err);
            }
        }
        Ok(result_ty)
    }

    #[verifier::rlimit(100)]
    fn infer_function(&mut self, block: ExprId, ty: TyId, token: &Token, fuel: u64) -> (r: CheckResult<TyId>)
        requires
            old(self).wf(),
            old(self).refs_ok(),
            fuel > 0,
            block.0 < old(self).infer_ctx.module.typed_exprs@.len(),
            ty < old(self).infer_ctx.types().len(),
        ensures
            infer_grows(*old(self), *final(self)),
            r is Ok ==> final(self).current_expected_ret_ty == old(self).current_expected_ret_ty,
            r matches Ok(t) ==> t < final(self).infer_ctx.types().len(),
            r matches Ok(t) ==> t == ty,
        decreases fuel, 0nat,
    {
        let ghost s0 = *self;
        proof {
            self.lemma_same_module_grows(*self);
        }
        let expected_ret_ty = match self.infer_ctx.module.tcx.get(ty) {
            Ty::Function { ret_type, .. } => *ret_type,
            _ => {
                return Err(crate::error::make_err(Some("not a function type"), TypeCheckerErrorKind::Other, token.copy()));
            },
        };
        proof {
            assert(ty_parts_below(self.infer_ctx.types()[ty as int], ty as int));
        }
        let old_ret_ty = self.current_expected_ret_ty;
        self.current_expected_ret_ty = Some(expected_ret_ty);
        proof {
            self.lemma_same_module_grows(s0);
        }
        let ghost s1 = *self;
        let block_ty = match self.infer_expr_fuel(block, fuel - 1) {
            Ok(v) => v,
            Err(err) => {
                proof {
                    lemma_infer_grows_trans(s0, s1, *self);
                }
                return Err(err);
            },
        };
        proof {
            lemma_infer_grows_trans(s0, s1, *self);
        }
        let block_token = self.expr_token_at(block);
        let ghost s2 = *self;
        let u = self.unify(expected_ret_ty, block_ty, block_token);
        proof {
            lemma_infer_grows_trans(s0, s2, *self);
        }
        if let Err(err) = u {
            return Err(err);
        }
        let ghost pre_restore = *self;
        self.current_expected_ret_ty = old_ret_ty;
        proof {
            self.lemma_same_module_grows(pre_restore);
            lemma_infer_grows_trans(s0, pre_restore, *self);
        }
        Ok(ty)
    }

    fn infer_call(&mut self, func: ExprId, args: &Vec<ExprId>, fuel: u64) -> (r: CheckResult<TyId>)
        requires
            old(self).wf(),
            old(self).refs_ok(),
            fuel > 0,
            func.0 < old(self).infer_ctx.module.typed_exprs@.len(),
            forall|i: int| 0 <= i < args@.len() ==> (#[trigger] args@[i]).0 < old(self).infer_ctx.module.typed_exprs@.len(),
        ensures
            infer_grows(*old(self), *final(self)),
            r is Ok ==> final(self).current_expected_ret_ty == old(self).current_expected_ret_ty,
            r matches Ok(t) ==> t < final(self).infer_ctx.types().len(),
            r matches Ok(t) ==> call_inferred(*old(self), *final(self), func, args@, t),
        decreases fuel, 0nat,
    {
        let ghost s0 = *self;
        proof {
            self.lemma_same_module_grows(*self);
        }
        let ghost s1 = *self;
        let callee_ty = match self.infer_expr_fuel(func, fuel - 1) {
            Ok(v) => v,
            Err(err) => {
                proof {
                    lemma_infer_grows_trans(s0, s1, *self);
                }
                return Err(err);
            },
        };
        proof {
            lemma_infer_grows_trans(s0, s1, *self);
            lemma_expr_shape(s1.infer_ctx.module.typed_exprs@[func.0 as int], callee_ty, callee_ty, 0, 0);
            assert(infer_grows(s0, *self) && expr_ty(self.infer_ctx.module.typed_exprs@[func.0 as int]) == callee_ty);
            assert(inferred_as(s0, func, callee_ty));
        }
        let ghost c0 = callee_ty;
        let ghost sf = *self;
        let generics = match self.infer_ctx.module.tcx.get(callee_ty) {
            Ty::Function { generics, .. } => Some(crate::ty::strings_copy(generics)),
            _ => None,
        };
        let generics = match generics {
            Some(g) => g,
            None => {
                let got = self.display_at(callee_ty);
                let k = self.expr_token_at(func);
                return Err(self.unexpected_error("function", got.as_str(), k));
            },
        };
        let mut callee_ty = callee_ty;
        if generics.len() > 0 {
            let ghost s2 = *self;
            callee_ty = self.instantiate(callee_ty, &generics);
            proof {
                lemma_infer_grows_trans(s0, s2, *self);
            }
        }
        let mut arg_types: Vec<TyId> = Vec::new();
        let mut i: usize = 0;
        while i < args.len()
            invariant
                infer_grows(s0, *self),
                s0 == *old(self),
                fuel > 0,
                self.current_expected_ret_ty == s0.current_expected_ret_ty,
                i <= args@.len(),
                callee_ty < self.infer_ctx.types().len(),
                forall|j: int| 0 <= j < args@.len() ==> (#[trigger] args@[j]).0 < s0.infer_ctx.module.typed_exprs@.len(),
                forall|j: int| 0 <= j < arg_types@.len() ==> #[trigger] arg_types@[j] < self.infer_ctx.types().len(),
                arg_types@.len() == i,
                forall|j: int| 0 <= j < i ==> inferred_as(s0, #[trigger] args@[j], arg_types@[j]),
                inferred_as(s0, func, c0),
                c0 < sf.infer_ctx.types().len(),
                extends(sf.infer_ctx, self.infer_ctx),
                (sf.infer_ctx.types()[c0 as int] matches Ty::Function { generics: g, .. } ==> (g@.len() == 0 ==> callee_ty == c0)),
            decreases args@.len() - i,
        {
            let ghost s3 = *self;
            let t = match self.infer_expr_fuel(args[i], fuel - 1) {
                Ok(v) => v,
                Err(err) => {
                    proof {
                        lemma_infer_grows_trans(s0, s3, *self);
                    }
                    return Err(err);
                },
            };
            proof {
                lemma_infer_grows_trans(s0, s3, *self);
                lemma_expr_shape(s3.infer_ctx.module.typed_exprs@[args@[i as int].0 as int], t, t, 0, 0);
                assert(infer_grows(s0, *self) && expr_ty(self.infer_ctx.module.typed_exprs@[args@[i as int].0 as int]) == t);
                assert(inferred_as(s0, args@[i as int], t));
            }
            arg_types.push(t);
            i = i + 1;
        }
        let ghost s4 = *self;
        let new_ret_ty = self.fresh_var(false);
        proof {
            lemma_infer_grows_trans(s0, s4, *self);
        }
        let ghost s5 = *self;
        let new_func_ty = self.alloc_ty(Ty::Function { generics, params_type: arg_types, ret_type: new_ret_ty, is_variadic: false });
        proof {
            lemma_infer_grows_trans(s0, s5, *self);
        }
        let func_token = self.expr_token_at(func);
        let ghost s6 = *self;
        let u = self.unify(callee_ty, new_func_ty, func_token);
        proof {
            lemma_infer_grows_trans(s0, s6, *self);
        }
        if let Err(err) = u {
            return Err(err);
        }
        proof {
            assert(infer_grows(s0, s6));
            assert(unified_into(s0, *self, callee_ty, new_func_ty));
            assert(call_step(s0, *self, func, args@, new_ret_ty, c0, callee_ty, new_func_ty));
        }
        Ok(new_ret_ty)
    }

    fn infer_generic_instance(&mut self, left: ExprId, paths: &Vec<ExprId>, fuel: u64) -> (r: CheckResult<TyId>)
        requires
            old(self).wf(),
            old(self).refs_ok(),
            fuel > 0,
            left.0 < old(self).infer_ctx.module.typed_exprs@.len(),
            forall|i: int| 0 <= i < paths@.len() ==> (#[trigger] paths@[i]).0 < old(self).infer_ctx.module.typed_exprs@.len(),
        ensures
            infer_grows(*old(self), *final(self)),
            r is Ok ==> final(self).current_expected_ret_ty == old(self).current_expected_ret_ty,
            r matches Ok(t) ==> t < final(self).infer_ctx.types().len(),
        decreases fuel, 0nat,
    {
        let ghost s0 = *self;
        proof {
            self.lemma_same_module_grows(*self);
        }
        let ghost s1 = *self;
        let base_ty_id = match self.infer_expr_fuel(left, fuel - 1) {
            Ok(v) => v,
            Err(err) => {
                proof {
                    lemma_infer_grows_trans(s0, s1, *self);
                }
                return Err(err);
            },
        };
        proof {
            lemma_infer_grows_trans(s0, s1, *self);
        }
        let base_ty_id = self.follow_all(base_ty_id);
        let generics = match self.infer_ctx.module.tcx.get(base_ty_id) {
            Ty::Function { generics, .. } => Some(crate::ty::strings_copy(generics)),
            _ => None,
        };
        let generics = match generics {
            Some(g) => g,
            None => {
                let got = self.display_at(base_ty_id);
                let k = self.expr_token_at(left);
                return Err(self.unexpected_error("function", got.as_str(), k));
            },
        };
        let mut path_types: Vec<TyId> = Vec::new();
        let mut i: usize = 0;
        while i < paths.len()
            invariant
                infer_grows(s0, *self),
                s0 == *old(self),
                fuel > 0,
                self.current_expected_ret_ty == s0.current_expected_ret_ty,
                i <= paths@.len(),
                base_ty_id < self.infer_ctx.types().len(),
                forall|j: int| 0 <= j < paths@.len() ==> (#[trigger] paths@[j]).0 < s0.infer_ctx.module.typed_exprs@.len(),
                forall|j: int| 0 <= j < path_types@.len() ==> #[trigger] path_types@[j] < self.infer_ctx.types().len(),
            decreases paths@.len() - i,
        {
            let ghost s2 = *self;
            let t = match self.infer_type_expr_fuel(paths[i], fuel - 1) {
                Ok(v) => v,
                Err(err) => {
                    proof {
                        lemma_infer_grows_trans(s0, s2, *self);
                    }
                    return Err(err);
                },
            };
            proof {
                lemma_infer_grows_trans(s0, s2, *self);
            }
            path_types.push(t);
            i = i + 1;
        }
        let mut mapping: Vec<(String, TyId)> = Vec::new();
        let mut k: usize = 0;
        assert(mapping_view(mapping@) =~= Seq::<(Seq<char>, usize)>::empty());
        while k < generics.len() && k < path_types.len()
            invariant
                self.wf(),
                k <= generics@.len(),
                entries_keys_unique(mapping_view(mapping@)),
                forall|j: int| 0 <= j < mapping@.len() ==> #[trigger] mapping@[j].1 < self.infer_ctx.types().len(),
                forall|j: int| 0 <= j < path_types@.len() ==> #[trigger] path_types@[j] < self.infer_ctx.types().len(),
            decreases generics@.len() - k,
        {
            let ghost before = mapping@;
            crate::resolve::mapping_insert(&mut mapping, generics[k].clone(), path_types[k]);
            proof {
                assert forall|j: int| 0 <= j < mapping@.len() implies #[trigger] mapping@[j].1 < self.infer_ctx.types().len() by {
                    if mapping@[j].1 != path_types@[k as int] {
                        assert(before[j].1 < self.infer_ctx.types().len());
                    }
                }
            }
            k = k + 1;
        }
        let ghost s3 = *self;
        let specialized = self.substitute(base_ty_id, &mapping);
        proof {
            lemma_infer_grows_trans(s0, s3, *self);
        }
        Ok(specialized)
    }

}

impl TypeInfer {
    /// Records `ty` as the type found for the local `name`.
    fn set_local(&mut self, name: String, ty: TyId)
        requires
            old(self).wf(),
            old(self).refs_ok(),
            ty < old(self).infer_ctx.types().len(),
        ensures
            infer_grows(*old(self), *final(self)),
            final(self).infer_ctx == old(self).infer_ctx,
            mapping_view(final(self).locals_tyid@) == crate::imap::entries_insert(mapping_view(old(self).locals_tyid@), name@, ty),
            crate::imap::entries_lookup(mapping_view(final(self).locals_tyid@), name@) == Some(ty),
            final(self).current_expected_ret_ty == old(self).current_expected_ret_ty,
    {
        let ghost key = name@;
        crate::resolve::mapping_insert(&mut self.locals_tyid, name, ty);
        proof {
            self.lemma_same_module_grows(*old(self));
            crate::imap::lemma_entries_insert_lookup(mapping_view(old(self).locals_tyid@), key, ty);
        }
    }

    /// Infers a `let` or `const` binding: the value's type, unified with the declared type
    /// if there is one (a `TypeNotFound` error at its token if no symbol has that name);
    /// the type found is recorded for `name`.
    fn infer_binding(&mut self, value: ExprId, var_type: &Option<crate::typed_ast::Ident>, name: &String, fuel: u64)
        -> (r: CheckResult<TyId>)
        requires
            old(self).wf(),
            old(self).refs_ok(),
            fuel > 0,
            value.0 < old(self).infer_ctx.module.typed_exprs@.len(),
        ensures
            infer_grows(*old(self), *final(self)),
            r is Ok ==> final(self).current_expected_ret_ty == old(self).current_expected_ret_ty,
            r matches Ok(t) ==> t < final(self).infer_ctx.types().len(),
            r is Ok ==> crate::imap::entries_lookup(mapping_view(final(self).locals_tyid@), name@) is Some,
            var_type is None && fuel > 1 ==> (known_value_ty(*old(self), old(self).infer_ctx.module.typed_exprs@[value.0 as int])
                matches Some(t) ==> r == Ok::<TyId, TypeCheckerError>(t)),
            var_type matches Some(v) ==> (r matches Ok(t) ==> annotation_unified(*old(self), *final(self), v.value@, t,
                expr_ty(final(self).infer_ctx.module.typed_exprs@[value.0 as int]))),
        decreases fuel, 0nat,
    {
        let ghost s0 = *self;
        let value_token = self.expr_token_at(value);
        let expr_ty = match self.infer_expr_fuel(value, fuel - 1) {
            Ok(t) => t,
            Err(err) => return Err(err),
        };
        let ty = match var_type {
            Some(ident) => {
                proof {
                    crate::table::lemma_lookup_below(self.infer_ctx.module.tcx.table, self.infer_ctx.types().len() as int,
                        ident.value@);
                }
                match self.infer_ctx.module.tcx.table.get(ident.value.as_str()) {
                    Some(symbol) => symbol.ty.get_type(),
                    None => return Err(crate::error::make_err(None, TypeCheckerErrorKind::TypeNotFound, ident.token.copy())),
                }
            },
            None => expr_ty,
        };
        let ghost s1 = *self;
        proof {
            if var_type is None {
                crate::unify::law_unify_refl(self.infer_ctx.types(), self.infer_ctx.subst(), ty, UNIFY_DEPTH as nat);
            }
        }
        let u = self.unify(ty, expr_ty, value_token);
        proof {
            lemma_infer_grows_trans(s0, s1, *self);
        }
        if let Err(err) = u {
            return Err(err);
        }
        let followed = self.follow_all(ty);
        let ghost s2 = *self;
        self.set_local(name.clone(), followed);
        proof {
            lemma_infer_grows_trans(s0, s2, *self);
            if let Some(v) = var_type {
                assert(self.infer_ctx == s2.infer_ctx);
                lemma_expr_shape(s0.infer_ctx.module.typed_exprs@[value.0 as int], expr_ty, expr_ty, 0, 0);
                assert(crate::typed_ast::expr_ty(self.infer_ctx.module.typed_exprs@[value.0 as int]) == expr_ty);
                assert(infer_grows(s0, s1));
                assert(annotation_unified(s0, *self, v.value@, ty, expr_ty));
            }
        }
        Ok(ty)
    }

    /// Infers a `return`: the value's type, or unit without a value, unified with the
    /// return type expected in the enclosing function, if any.
    fn infer_return(&mut self, expr: Option<ExprId>, token: &Token, fuel: u64) -> (r: CheckResult<TyId>)
        requires
            old(self).wf(),
            old(self).refs_ok(),
            fuel > 0,
            expr matches Some(x) ==> x.0 < old(self).infer_ctx.module.typed_exprs@.len(),
        ensures
            infer_grows(*old(self), *final(self)),
            r is Ok ==> final(self).current_expected_ret_ty == old(self).current_expected_ret_ty,
            r matches Ok(t) ==> t < final(self).infer_ctx.types().len(),
            expr is None ==> (r matches Ok(t) ==> crate::ty::ty_equiv(final(self).infer_ctx.types()[t as int], Ty::Unit)),
            old(self).current_expected_ret_ty is None && expr is None ==> r is Ok,
            old(self).current_expected_ret_ty matches Some(x) ==> (r matches Ok(t) ==> unified_into(*old(self), *final(self), x, t)),
            old(self).current_expected_ret_ty is None && fuel > 1 ==> (expr matches Some(x)
                ==> (known_value_ty(*old(self), old(self).infer_ctx.module.typed_exprs@[x.0 as int]) matches Some(t)
                ==> r == Ok::<TyId, TypeCheckerError>(t))),
        decreases fuel, 0nat,
    {
        let ghost s0 = *self;
        proof {
            self.lemma_same_module_grows(*self);
        }
        let ty = match expr {
            Some(it) => match self.infer_expr_fuel(it, fuel - 1) {
                Ok(t) => t,
                Err(err) => return Err(err),
            },
            None => self.alloc_ty(Ty::Unit),
        };
        if let Some(expected) = self.current_expected_ret_ty {
            let at = match expr {
                Some(it) => self.expr_token_at(it),
                None => token.copy(),
            };
            let ghost s1 = *self;
            let u = self.unify(expected, ty, at);
            proof {
                lemma_infer_grows_trans(s0, s1, *self);
            }
            if let Err(err) = u {
                return Err(err);
            }
            proof {
                assert(infer_grows(s0, s1));
                assert(unified_into(s0, *self, expected, ty));
            }
        }
        Ok(ty)
    }

    /// Infers the parameter and return type expressions of an `extern` declaration.
    fn infer_extern(&mut self, params: &Vec<ExprId>, ret_ty: Option<ExprId>, fuel: u64) -> (r: CheckResult<()>)
        requires
            old(self).wf(),
            old(self).refs_ok(),
            fuel > 0,
            forall|i: int| 0 <= i < params@.len() ==> (#[trigger] params@[i]).0 < old(self).infer_ctx.module.typed_exprs@.len(),
            ret_ty matches Some(x) ==> x.0 < old(self).infer_ctx.module.typed_exprs@.len(),
        ensures
            infer_grows(*old(self), *final(self)),
            r is Ok ==> final(self).current_expected_ret_ty == old(self).current_expected_ret_ty,
            (forall|i: int| 0 <= i < params@.len() ==>
                simple_type_expr(old(self).infer_ctx.module.typed_exprs@, (#[trigger] params@[i]).0 as int, (fuel - 1) as nat))
            && (ret_ty matches Some(x) ==> simple_type_expr(old(self).infer_ctx.module.typed_exprs@, x.0 as int, (fuel - 1) as nat))
                ==> r is Ok,
        decreases fuel, 0nat,
    {
        let ghost s0 = *self;
        proof {
            self.lemma_same_module_grows(*self);
        }
        let mut i: usize = 0;
        while i < params.len()
            invariant
                infer_grows(s0, *self),
                s0 == *old(self),
                fuel > 0,
                self.current_expected_ret_ty == s0.current_expected_ret_ty,
                i <= params@.len(),
                forall|j: int| 0 <= j < params@.len() ==> (#[trigger] params@[j]).0 < s0.infer_ctx.module.typed_exprs@.len(),
                ret_ty matches Some(x) ==> x.0 < s0.infer_ctx.module.typed_exprs@.len(),
            decreases params@.len() - i,
        {
            let ghost s1 = *self;
            proof {
                if simple_type_expr(s0.infer_ctx.module.typed_exprs@, params@[i as int].0 as int, (fuel - 1) as nat) {
                    lemma_simple_type_expr_kept(s0, s1, params@[i as int].0 as int, (fuel - 1) as nat);
                }
            }
            let r = self.infer_type_expr_fuel(params[i], fuel - 1);
            proof {
                lemma_infer_grows_trans(s0, s1, *self);
            }
            if let Err(err) = r {
                return Err(err);
            }
            i = i + 1;
        }
        if let Some(ret) = ret_ty {
            let ghost s1 = *self;
            proof {
                if simple_type_expr(s0.infer_ctx.module.typed_exprs@, ret.0 as int, (fuel - 1) as nat) {
                    lemma_simple_type_expr_kept(s0, s1, ret.0 as int, (fuel - 1) as nat);
                }
            }
            let r = self.infer_type_expr_fuel(ret, fuel - 1);
            proof {
                lemma_infer_grows_trans(s0, s1, *self);
            }
            if let Err(err) = r {
                return Err(err);
            }
        }
        Ok(())
    }

    /// Binds `name` to a variable of type `ty` in the innermost scope of the symbol table.
    fn declare_name(&mut self, name: &String, ty: TyId)
        requires
            old(self).wf(),
            old(self).refs_ok(),
            ty < old(self).infer_ctx.types().len(),
        ensures
            infer_grows(*old(self), *final(self)),
            final(self).infer_ctx.types() == old(self).infer_ctx.types(),
            final(self).infer_ctx.module.tcx.table.lookup(name@) == Some(crate::table::SymbolType::Variable(ty)),
            final(self).locals_tyid == old(self).locals_tyid,
            final(self).current_expected_ret_ty == old(self).current_expected_ret_ty,
    {
        let ghost before = self.infer_ctx.module.tcx.table;
        let _ = self.infer_ctx.module.tcx.table.define_var(name.as_str(), ty);
        proof {
            let after = self.infer_ctx.module.tcx.table;
            crate::table::lemma_define_below(before, after, name@, ty, self.infer_ctx.types().len() as int);
            crate::table::law_define_then_get(before, after, name@, ty, name@);
            self.lemma_same_module_grows(*old(self));
        }
    }
}

impl TypeInfer {
    /// Infers a prefix type expression: `!` needs a boolean, `-` and `+` an integer (else a
    /// `TypeMismatch` at `token`), and `*` gives a pointer to the operand's type, which is
    /// then not written back (the second part of the result says whether to write it).
    fn infer_type_prefix(&mut self, right: ExprId, token: &Token, fuel: u64) -> (r: CheckResult<(TyId, bool)>)
        requires
            old(self).wf(),
            old(self).refs_ok(),
            fuel > 0,
            right.0 < old(self).infer_ctx.module.typed_exprs@.len(),
        ensures
            infer_grows(*old(self), *final(self)),
            r is Ok ==> final(self).current_expected_ret_ty == old(self).current_expected_ret_ty,
            r matches Ok(p) ==> p.0 < final(self).infer_ctx.types().len(),
        decreases fuel, 0nat,
    {
        let ghost s0 = *self;
        let op = token.value.clone();
        let right_ty = match self.infer_expr_fuel(right, fuel - 1) {
            Ok(v) => v,
            Err(err) => return Err(err),
        };
        let right_token = self.expr_token_at(right);
        proof {
            reveal_strlit("!");
            reveal_strlit("-");
            reveal_strlit("+");
            reveal_strlit("*");
        }
        if crate::ty::str_eq(op.as_str(), "!") {
            let ghost s1 = *self;
            let bool_ty = self.alloc_ty(Ty::Bool);
            proof {
                lemma_infer_grows_trans(s0, s1, *self);
            }
            let ghost s2 = *self;
            let u = self.unify(bool_ty, right_ty, right_token);
            proof {
                lemma_infer_grows_trans(s0, s2, *self);
            }
            if let Err(err) = u {
                return Err(err);
            }
        } else if crate::ty::str_eq(op.as_str(), "-") || crate::ty::str_eq(op.as_str(), "+") {
            let is_int = match self.infer_ctx.module.tcx.get(right_ty) {
                Ty::IntTy(_) => true,
                _ => false,
            };
            if !is_int {
                let mut m = String::from_str("expected `integer`, got ");
                let d = self.infer_ctx.module.tcx.get(right_ty).to_display_string();
                m.append(d.as_str());
                return Err(TypeCheckerError { kind: TypeCheckerErrorKind::TypeMismatch, token: token.copy(), message: Some(m) });
            }
        } else if crate::ty::str_eq(op.as_str(), "*") {
            let ghost s1 = *self;
            let ptr = self.alloc_ty(Ty::Ptr(right_ty));
            proof {
                lemma_infer_grows_trans(s0, s1, *self);
            }
            return Ok((ptr, false));
        }
        Ok((right_ty, true))
    }

    /// Infers a name used as a type: a function type is instantiated afresh for its generic
    /// parameter and return types (see `instantiate`); otherwise the type found for the
    /// local `name`, or else `ty`.
    fn infer_type_ident(&mut self, name: &String, ty: TyId) -> (r: TyId)
        requires
            old(self).wf(),
            old(self).refs_ok(),
            ty < old(self).infer_ctx.types().len(),
        ensures
            infer_grows(*old(self), *final(self)),
            final(self).current_expected_ret_ty == old(self).current_expected_ret_ty,
            r < final(self).infer_ctx.types().len(),
            !(old(self).infer_ctx.types()[ty as int] is Function) ==> r == match crate::imap::entries_lookup(
                mapping_view(old(self).locals_tyid@), name@) {
                Some(v) => v,
                None => ty,
            },
    {
        let func = match self.infer_ctx.module.tcx.get(ty) {
            Ty::Function { params_type, ret_type, .. } => Some((crate::ty::ids_copy(params_type), *ret_type)),
            _ => None,
        };
        match func {
            Some((params, ret)) => {
                let mut generic_params: Vec<String> = Vec::new();
                let mut i: usize = 0;
                while i < params.len()
                    invariant
                        self == old(self),
                        self.wf(),
                        i <= params@.len(),
                        forall|j: int| 0 <= j < params@.len() ==> #[trigger] params@[j] < self.infer_ctx.types().len(),
                    decreases params@.len() - i,
                {
                    match self.infer_ctx.module.tcx.get(params[i]) {
                        Ty::Generic(n, _) => generic_params.push(n.clone()),
                        _ => {},
                    }
                    i = i + 1;
                }
                match self.infer_ctx.module.tcx.get(ret) {
                    Ty::Generic(n, _) => generic_params.push(n.clone()),
                    _ => {},
                }
                self.instantiate(ty, &generic_params)
            },
            None => {
                let found = self.local_ty(name);
                proof {
                    self.lemma_same_module_grows(*self);
                    if let Some(v) = found {
                        crate::resolve::lemma_entries_lookup_value(mapping_view(self.locals_tyid@), name@);
                        let j = choose|j: int| 0 <= j < mapping_view(self.locals_tyid@).len()
                            && mapping_view(self.locals_tyid@)[j].0 == name@ && mapping_view(self.locals_tyid@)[j].1 == v;
                        assert(self.locals_tyid@[j].1 == v);
                    }
                }
                match found {
                    Some(current) => current,
                    None => ty,
                }
            },
        }
    }

    /// Infers a type path: the type expressions of its arguments, applied to the generic
    /// struct `left` names, unified with `ty` at the name's token.
    fn infer_type_path(&mut self, left: &crate::typed_ast::Ident, paths: &Vec<ExprId>, ty: TyId, fuel: u64) -> (r: CheckResult<TyId>)
        requires
            old(self).wf(),
            old(self).refs_ok(),
            fuel > 0,
            ty < old(self).infer_ctx.types().len(),
            forall|i: int| 0 <= i < paths@.len() ==> (#[trigger] paths@[i]).0 < old(self).infer_ctx.module.typed_exprs@.len(),
        ensures
            infer_grows(*old(self), *final(self)),
            r is Ok ==> final(self).current_expected_ret_ty == old(self).current_expected_ret_ty,
            r matches Ok(t) ==> t < final(self).infer_ctx.types().len(),
        decreases fuel, 0nat,
    {
        let ghost s0 = *self;
        proof {
            self.lemma_same_module_grows(*self);
        }
        let mut path_types: Vec<TyId> = Vec::new();
        let mut i: usize = 0;
        while i < paths.len()
            invariant
                infer_grows(s0, *self),
                s0 == *old(self),
                fuel > 0,
                self.current_expected_ret_ty == s0.current_expected_ret_ty,
                i <= paths@.len(),
                ty < s0.infer_ctx.types().len(),
                forall|j: int| 0 <= j < paths@.len() ==> (#[trigger] paths@[j]).0 < s0.infer_ctx.module.typed_exprs@.len(),
                forall|j: int| 0 <= j < path_types@.len() ==> #[trigger] path_types@[j] < self.infer_ctx.types().len(),
            decreases paths@.len() - i,
        {
            let ghost s1 = *self;
            let t = match self.infer_type_expr_fuel(paths[i], fuel - 1) {
                Ok(v) => v,
                Err(err) => {
                    proof {
                        lemma_infer_grows_trans(s0, s1, *self);
                    }
                    return Err(err);
                },
            };
            proof {
                lemma_infer_grows_trans(s0, s1, *self);
            }
            path_types.push(t);
            i = i + 1;
        }
        let ghost s2 = *self;
        let new_ty = self.alloc_ty(Ty::AppliedGeneric(left.value.clone(), path_types));
        proof {
            lemma_infer_grows_trans(s0, s2, *self);
        }
        let ghost s3 = *self;
        let u = self.unify(new_ty, ty, left.token.copy());
        proof {
            lemma_infer_grows_trans(s0, s3, *self);
        }
        match u {
            Ok(()) => Ok(new_ty),
            Err(err) => Err(err),
        }
    }
}

impl TypeInfer {
    /// The generic parameters and fields of the type with id `id`, if it is a struct.
    fn struct_parts(&self, id: TyId) -> (r: Option<(Vec<String>, crate::imap::NameMap)>)
        requires
            self.wf(),
            id < self.infer_ctx.types().len(),
        ensures
            r is Some <==> self.infer_ctx.types()[id as int] is Struct,
            r matches Some(p) ==> crate::ty_context::entry_values_below(crate::imap::name_map_entries(p.1),
                self.infer_ctx.types().len() as int),
            r matches Some(p) ==> (self.infer_ctx.types()[id as int] matches Ty::Struct { generics, fields, .. }
                && p.0@ == generics@ && crate::imap::name_map_entries(p.1) == crate::imap::name_map_entries(fields)),
    {
        proof {
            assert(ty_maps_ok(self.infer_ctx.types()[id as int], self.infer_ctx.types().len() as int));
        }
        match self.infer_ctx.module.tcx.get(id) {
            Ty::Struct { generics, fields, .. } => Some((crate::ty::strings_copy(generics), crate::imap::name_map_clone(fields))),
            _ => None,
        }
    }

    /// The type of the field `name` among `fields`, whose types are below the number of
    /// types; `None` if there is no such field.
    fn field_type(&self, fields: &crate::imap::NameMap, name: &str) -> (r: Option<TyId>)
        requires
            crate::ty_context::entry_values_below(crate::imap::name_map_entries(*fields), self.infer_ctx.types().len() as int),
        ensures
            r == crate::imap::entries_lookup(crate::imap::name_map_entries(*fields), name@),
            r matches Some(t) ==> t < self.infer_ctx.types().len(),
    {
        let r = crate::imap::name_map_get(fields, name);
        proof {
            if r is Some {
                crate::resolve::lemma_entries_lookup_value(crate::imap::name_map_entries(*fields), name@);
            }
        }
        r
    }

    /// The error for a type that should be a struct and is not: "expected struct, got" and
    /// the type, at `token`.
    fn not_struct_error(&self, id: TyId, token: &Token) -> (e: TypeCheckerError)
        requires
            self.wf(),
            id < self.infer_ctx.types().len(),
        ensures
            e.kind == TypeCheckerErrorKind::TypeMismatch,
            e.token == *token,
    {
        let mut m = String::from_str("expected struct, got ");
        let d = self.display_at(id);
        m.append(d.as_str());
        TypeCheckerError { kind: TypeCheckerErrorKind::TypeMismatch, token: token.copy(), message: Some(m) }
    }

    /// Infers a struct literal: the struct's definition is found from `ty` (or, for a
    /// generic struct applied to arguments, by its name); each generic parameter gets a
    /// fresh variable, and each field's value is unified with the field's declared type
    /// with those variables put in. The result is the struct applied to the variables.
    fn infer_build_struct(&mut self, ident: &crate::typed_ast::Ident, fields: &Vec<(crate::typed_ast::Ident, ExprId)>, ty: TyId, fuel: u64)
        -> (r: CheckResult<TyId>)
        requires
            old(self).wf(),
            old(self).refs_ok(),
            fuel > 0,
            ty < old(self).infer_ctx.types().len(),
            forall|i: int| 0 <= i < fields@.len() ==> (#[trigger] fields@[i]).1.0 < old(self).infer_ctx.module.typed_exprs@.len(),
        ensures
            infer_grows(*old(self), *final(self)),
            r is Ok ==> final(self).current_expected_ret_ty == old(self).current_expected_ret_ty,
            r matches Ok(t) ==> t < final(self).infer_ctx.types().len(),
        decreases fuel, 0nat,
    {
        let ghost s0 = *self;
        proof {
            self.lemma_same_module_grows(*self);
        }
        let def_id = match self.infer_ctx.module.tcx.get(ty) {
            Ty::Struct { .. } => ty,
            Ty::AppliedGeneric(name, _) => {
                let name = name.clone();
                match self.resolve_type_by_name(name.as_str(), &ident.token) {
                    Ok(t) => t,
                    Err(err) => return Err(err),
                }
            },
            _ => return Err(self.not_struct_error(ty, &ident.token)),
        };
        let (def_generics, def_fields) = match self.struct_parts(def_id) {
            Some(p) => p,
            None => return Err(self.not_struct_error(def_id, &ident.token)),
        };
        let mut mapping: Vec<(String, TyId)> = Vec::new();
        let mut arg_infer_ids: Vec<TyId> = Vec::new();
        let mut i: usize = 0;
        assert(mapping_view(mapping@) =~= Seq::<(Seq<char>, usize)>::empty());
        while i < def_generics.len()
            invariant
                infer_grows(s0, *self),
                s0 == *old(self),
                self.current_expected_ret_ty == s0.current_expected_ret_ty,
                i <= def_generics@.len(),
                entries_keys_unique(mapping_view(mapping@)),
                forall|j: int| 0 <= j < mapping@.len() ==> #[trigger] mapping@[j].1 < self.infer_ctx.types().len(),
                forall|j: int| 0 <= j < arg_infer_ids@.len() ==> #[trigger] arg_infer_ids@[j] < self.infer_ctx.types().len(),
                crate::ty_context::entry_values_below(crate::imap::name_map_entries(def_fields), self.infer_ctx.types().len() as int),
            decreases def_generics@.len() - i,
        {
            let ghost s1 = *self;
            let id = self.fresh_var(false);
            proof {
                lemma_infer_grows_trans(s0, s1, *self);
            }
            let ghost before = mapping@;
            crate::resolve::mapping_insert(&mut mapping, def_generics[i].clone(), id);
            proof {
                assert forall|j: int| 0 <= j < mapping@.len() implies #[trigger] mapping@[j].1 < self.infer_ctx.types().len() by {
                    if mapping@[j].1 != id {
                        assert(before[j].1 < s1.infer_ctx.types().len());
                    }
                }
            }
            arg_infer_ids.push(id);
            i = i + 1;
        }
        let ghost s2 = *self;
        let instantiated = self.alloc_ty(Ty::AppliedGeneric(ident.value.clone(), arg_infer_ids));
        proof {
            lemma_infer_grows_trans(s0, s2, *self);
        }
        let mut k: usize = 0;
        while k < fields.len()
            invariant
                infer_grows(s0, *self),
                s0 == *old(self),
                fuel > 0,
                self.current_expected_ret_ty == s0.current_expected_ret_ty,
                k <= fields@.len(),
                instantiated < self.infer_ctx.types().len(),
                forall|j: int| 0 <= j < fields@.len() ==> (#[trigger] fields@[j]).1.0 < s0.infer_ctx.module.typed_exprs@.len(),
                forall|j: int| 0 <= j < mapping@.len() ==> #[trigger] mapping@[j].1 < self.infer_ctx.types().len(),
                crate::ty_context::entry_values_below(crate::imap::name_map_entries(def_fields), self.infer_ctx.types().len() as int),
            decreases fields@.len() - k,
        {
            let field_ident = &fields[k].0;
            let val_id = fields[k].1;
            let ghost s3 = *self;
            let val_ty = match self.infer_expr_fuel(val_id, fuel - 1) {
                Ok(t) => t,
                Err(err) => {
                    proof {
                        lemma_infer_grows_trans(s0, s3, *self);
                    }
                    return Err(err);
                },
            };
            proof {
                lemma_infer_grows_trans(s0, s3, *self);
            }
            let decl_ty = match self.field_type(&def_fields, field_ident.value.as_str()) {
                Some(t) => t,
                None => return Err(crate::error::make_err(None, TypeCheckerErrorKind::Other, field_ident.token.copy())),
            };
            let ghost s4 = *self;
            let expected = self.substitute(decl_ty, &mapping);
            proof {
                lemma_infer_grows_trans(s0, s4, *self);
            }
            let ghost s5 = *self;
            let u = self.unify(expected, val_ty, field_ident.token.copy());
            proof {
                lemma_infer_grows_trans(s0, s5, *self);
            }
            if let Err(err) = u {
                return Err(err);
            }
            k = k + 1;
        }
        Ok(instantiated)
    }

    /// Infers a field access: on a generic struct applied to arguments, the field's declared
    /// type with the arguments put in for the parameters; on a plain struct, `ty`; on any
    /// other type, a `TypeMismatch` ("not a struct") at the object's token.
    fn infer_field_access(&mut self, obj: ExprId, field: &crate::typed_ast::Ident, ty: TyId, fuel: u64) -> (r: CheckResult<TyId>)
        requires
            old(self).wf(),
            old(self).refs_ok(),
            fuel > 0,
            ty < old(self).infer_ctx.types().len(),
            obj.0 < old(self).infer_ctx.module.typed_exprs@.len(),
        ensures
            infer_grows(*old(self), *final(self)),
            r is Ok ==> final(self).current_expected_ret_ty == old(self).current_expected_ret_ty,
            r matches Ok(t) ==> t < final(self).infer_ctx.types().len(),
            r matches Ok(t) ==> field_inferred(*old(self), *final(self), obj, field.value@, ty, t),
        decreases fuel, 0nat,
    {
        let ghost s0 = *self;
        let obj_token = self.expr_token_at(obj);
        let obj_ty = match self.infer_expr_fuel(obj, fuel - 1) {
            Ok(t) => t,
            Err(err) => return Err(err),
        };
        proof {
            lemma_expr_shape(s0.infer_ctx.module.typed_exprs@[obj.0 as int], obj_ty, obj_ty, 0, 0);
            assert(infer_grows(s0, *self) && expr_ty(self.infer_ctx.module.typed_exprs@[obj.0 as int]) == obj_ty);
            assert(inferred_as(s0, obj, obj_ty));
        }
        let ghost sm = *self;
        let followed = self.follow_all(obj_ty);
        let applied = match self.infer_ctx.module.tcx.get(followed) {
            Ty::AppliedGeneric(name, args) => Some((name.clone(), crate::ty::ids_copy(args))),
            Ty::Struct { .. } => {
                proof {
                    assert(plain_struct_step(s0, *self, obj, sm, obj_ty));
                }
                return Ok(ty);
            },
            _ => return Err(crate::error::make_err(Some("not a struct"), TypeCheckerErrorKind::TypeMismatch, obj_token)),
        };
        let (struct_name, args) = match applied {
            Some(p) => p,
            None => return Ok(ty),
        };
        proof {
            assert(ty_parts_below(self.infer_ctx.types()[followed as int], followed as int));
        }
        let base_id = match self.resolve_type_by_name(struct_name.as_str(), &obj_token) {
            Ok(t) => t,
            Err(err) => return Err(err),
        };
        let (generics, fields) = match self.struct_parts(base_id) {
            Some(p) => p,
            None => return Err(crate::error::make_err(None, TypeCheckerErrorKind::Other, obj_token)),
        };
        if args.len() < generics.len() {
            return Err(crate::error::make_err(None, TypeCheckerErrorKind::Other, obj_token));
        }
        let mut mapping: Vec<(String, TyId)> = Vec::new();
        let mut i: usize = 0;
        assert(mapping_view(mapping@) =~= Seq::<(Seq<char>, usize)>::empty());
        while i < generics.len()
            invariant
                self.wf(),
                i <= generics@.len(),
                generics@.len() <= args@.len(),
                entries_keys_unique(mapping_view(mapping@)),
                forall|j: int| 0 <= j < mapping@.len() ==> #[trigger] mapping@[j].1 < self.infer_ctx.types().len(),
                forall|j: int| 0 <= j < args@.len() ==> #[trigger] args@[j] < self.infer_ctx.types().len(),
                mapping_view(mapping@) == generic_mapping(crate::ty::strings_view(generics@), args@, i as nat),
            decreases generics@.len() - i,
        {
            let ghost before = mapping@;
            crate::resolve::mapping_insert(&mut mapping, generics[i].clone(), args[i]);
            proof {
                assert forall|j: int| 0 <= j < mapping@.len() implies #[trigger] mapping@[j].1 < self.infer_ctx.types().len() by {
                    if mapping@[j].1 != args@[i as int] {
                        assert(before[j].1 < self.infer_ctx.types().len());
                    }
                }
            }
            i = i + 1;
        }
        let field_ty = match self.field_type(&fields, field.value.as_str()) {
            Some(t) => t,
            None => return Err(crate::error::make_err(None, TypeCheckerErrorKind::Other, field.token.copy())),
        };
        let ghost s1 = *self;
        let r = self.substitute(field_ty, &mapping);
        proof {
            lemma_infer_grows_trans(s0, s1, *self);
            assert(generic_field_step(s0, *self, obj, field.value@, r, sm, obj_ty, base_id));
        }
        Ok(r)
    }
}

/// Whether `b` is `a` further on in inference, possibly in another module: as
/// `infer_grows`, with the current module free.
pub open spec fn infer_grows_across(a: TypeInfer, b: TypeInfer) -> bool {
    let (e0, e1) = (a.infer_ctx.module.typed_exprs@, b.infer_ctx.module.typed_exprs@);
    let (s0, s1) = (a.infer_ctx.module.typed_stmts@, b.infer_ctx.module.typed_stmts@);
    &&& b.wf()
    &&& b.refs_ok()
    &&& extends(a.infer_ctx, b.infer_ctx)
    &&& e1.len() == e0.len()
    &&& forall|i: int| 0 <= i < e0.len() ==> #[trigger] e1[i] == expr_with_ty(e0[i], expr_ty(e1[i]))
    &&& s1.len() == s0.len()
    &&& forall|i: int| 0 <= i < s0.len() ==> #[trigger] s1[i] == stmt_with_ty(s0[i], stmt_ty(s1[i]))
    &&& b.globals@ == a.globals@
    &&& b.def_tys@.len() == a.def_tys@.len()
}

/// Going on across modules from `a` to `b`, then within a module from `b` to `c`, goes on
/// from `a` to `c`.
pub proof fn lemma_across_then_grows(a: TypeInfer, b: TypeInfer, c: TypeInfer)
    requires
        infer_grows_across(a, b),
        infer_grows(b, c),
    ensures
        infer_grows_across(a, c),
{
    let (e0, e1, e2) = (a.infer_ctx.module.typed_exprs@, b.infer_ctx.module.typed_exprs@, c.infer_ctx.module.typed_exprs@);
    let (s0, s1, s2) = (a.infer_ctx.module.typed_stmts@, b.infer_ctx.module.typed_stmts@, c.infer_ctx.module.typed_stmts@);
    assert forall|i: int| 0 <= i < e0.len() implies #[trigger] e2[i] == expr_with_ty(e0[i], expr_ty(e2[i])) by {
        assert(e1[i] == expr_with_ty(e0[i], expr_ty(e1[i])));
        assert(e2[i] == expr_with_ty(e1[i], expr_ty(e2[i])));
        lemma_expr_shape(e0[i], expr_ty(e1[i]), expr_ty(e2[i]), 0, 0);
    }
    assert forall|i: int| 0 <= i < s0.len() implies #[trigger] s2[i] == stmt_with_ty(s0[i], stmt_ty(s2[i])) by {
        assert(s1[i] == stmt_with_ty(s0[i], stmt_ty(s1[i])));
        assert(s2[i] == stmt_with_ty(s1[i], stmt_ty(s2[i])));
        lemma_stmt_shape(s0[i], stmt_ty(s1[i]), stmt_ty(s2[i]), 0, 0);
    }
}

/// Finalizing after going on from `a` to `b` still goes on from `a`.
pub proof fn lemma_across_then_finalized(a: TypeInfer, b: TypeInfer, c: TypeInfer)
    requires
        infer_grows_across(a, b),
        finalized(b, c),
        c.wf(),
        types_extend(b.infer_ctx.types(), c.infer_ctx.types()),
        c.infer_ctx.subst() == b.infer_ctx.subst(),
        c.globals == b.globals,
        c.def_tys@.len() == b.def_tys@.len(),
    ensures
        infer_grows_across(a, c),
{
    let (e0, e1, e2) = (a.infer_ctx.module.typed_exprs@, b.infer_ctx.module.typed_exprs@, c.infer_ctx.module.typed_exprs@);
    let (s0, s1, s2) = (a.infer_ctx.module.typed_stmts@, b.infer_ctx.module.typed_stmts@, c.infer_ctx.module.typed_stmts@);
    let (ne, ns) = (e0.len() as int, s0.len() as int);
    assert forall|i: int| 0 <= i < e0.len() implies #[trigger] e2[i] == expr_with_ty(e0[i], expr_ty(e2[i])) by {
        assert(e1[i] == expr_with_ty(e0[i], expr_ty(e1[i])));
        assert(e2[i] == expr_with_ty(e1[i], expr_ty(e2[i])));
        lemma_expr_shape(e0[i], expr_ty(e1[i]), expr_ty(e2[i]), 0, 0);
    }
    assert forall|i: int| 0 <= i < s0.len() implies #[trigger] s2[i] == stmt_with_ty(s0[i], stmt_ty(s2[i])) by {
        assert(s1[i] == stmt_with_ty(s0[i], stmt_ty(s1[i])));
        assert(s2[i] == stmt_with_ty(s1[i], stmt_ty(s2[i])));
        lemma_stmt_shape(s0[i], stmt_ty(s1[i]), stmt_ty(s2[i]), 0, 0);
    }
    assert forall|i: int| 0 <= i < ne implies expr_refs_ok(#[trigger] e2[i], ne, ns) by {
        assert(expr_refs_ok(e1[i], ne, ns));
        assert(e2[i] == expr_with_ty(e1[i], expr_ty(e2[i])));
        lemma_expr_shape(e1[i], expr_ty(e2[i]), 0, ne, ns);
    }
    assert forall|i: int| 0 <= i < ns implies stmt_refs_ok(#[trigger] s2[i], ne, ns) by {
        assert(stmt_refs_ok(s1[i], ne, ns));
        assert(s2[i] == stmt_with_ty(s1[i], stmt_ty(s2[i])));
        lemma_stmt_shape(s1[i], stmt_ty(s2[i]), 0, ne, ns);
    }
}

/// Whether every statement of every program is one of the `ns` statements of the module.
pub open spec fn programs_in_module(modules: Seq<Option<TypedNode>>, ns: int) -> bool {
    forall|i: int| 0 <= i < modules.len() ==> match #[trigger] modules[i] {
        Some(TypedNode::Program { statements, .. }) => forall|j: int| 0 <= j < statements@.len() ==> (#[trigger] statements@[j]).0 < ns,
        None => true,
    }
}

/// Whether inferring the statement `s` succeeds whatever the state: a declaration, a
/// `while`, `trait`, `impl` or `use`, an expression statement whose expression is a literal
/// or a name, or a `let` or `const` without a type annotation binding a literal or a name.
pub open spec fn stmt_always_infers(es: Seq<TypedExpression>, s: TypedStatement) -> bool {
    match s {
        TypedStatement::Struct { .. } => true,
        TypedStatement::FuncDecl { .. } => true,
        TypedStatement::While { .. } => true,
        TypedStatement::Trait { .. } => true,
        TypedStatement::Impl { .. } => true,
        TypedStatement::Use { .. } => true,
        TypedStatement::ExpressionStatement(_, id, _) => 0 <= id.0 < es.len() && (es[id.0 as int] is Int
            || es[id.0 as int] is Bool || es[id.0 as int] is StrLiteral || es[id.0 as int] is Ident),
        TypedStatement::Let { var_type, value, .. } => var_type is None && 0 <= value.0 < es.len() && (es[value.0 as int] is Int
            || es[value.0 as int] is Bool || es[value.0 as int] is StrLiteral || es[value.0 as int] is Ident),
        TypedStatement::Const { var_type, value, .. } => var_type is None && 0 <= value.0 < es.len() && (es[value.0 as int] is Int
            || es[value.0 as int] is Bool || es[value.0 as int] is StrLiteral || es[value.0 as int] is Ident),
        _ => false,
    }
}

/// Whether every statement of every module's program is one that always infers.
pub open spec fn programs_always_infer(modules: Seq<Option<TypedNode>>, ss: Seq<TypedStatement>, es: Seq<TypedExpression>) -> bool {
    forall|i: int| 0 <= i < modules.len() ==> match #[trigger] modules[i] {
        Some(TypedNode::Program { statements, .. }) => forall|j: int| 0 <= j < statements@.len() ==>
            stmt_always_infers(es, ss[(#[trigger] statements@[j]).0 as int]),
        None => true,
    }
}

/// Inference keeps a statement that always infers one that always infers.
pub proof fn lemma_always_infers_kept(a: TypeInfer, b: TypeInfer, id: int)
    requires
        infer_grows_across(a, b),
        0 <= id < a.infer_ctx.module.typed_stmts@.len(),
        stmt_always_infers(a.infer_ctx.module.typed_exprs@, a.infer_ctx.module.typed_stmts@[id]),
    ensures
        stmt_always_infers(b.infer_ctx.module.typed_exprs@, b.infer_ctx.module.typed_stmts@[id]),
{
    let (e0, e1) = (a.infer_ctx.module.typed_exprs@, b.infer_ctx.module.typed_exprs@);
    let (s0, s1) = (a.infer_ctx.module.typed_stmts@, b.infer_ctx.module.typed_stmts@);
    assert(s1[id] == stmt_with_ty(s0[id], stmt_ty(s1[id])));
    match s0[id] {
        TypedStatement::ExpressionStatement(_, x, _) => {
            assert(e1[x.0 as int] == expr_with_ty(e0[x.0 as int], expr_ty(e1[x.0 as int])));
        },
        TypedStatement::Let { value, .. } => {
            assert(e1[value.0 as int] == expr_with_ty(e0[value.0 as int], expr_ty(e1[value.0 as int])));
        },
        TypedStatement::Const { value, .. } => {
            assert(e1[value.0 as int] == expr_with_ty(e0[value.0 as int], expr_ty(e1[value.0 as int])));
        },
        _ => {},
    }
}

impl TypeInfer {
    /// The inference pass over the crate: the program of each module that has one
    /// (`modules[i]` is that of module `i`) has its statements inferred in order, in that
    /// module; then every type is written back resolved (see `finalize`). Stops at the first
    /// error.
    pub fn infer(&mut self, modules: &Vec<Option<TypedNode>>) -> (r: CheckResult<()>)
        requires
            old(self).wf(),
            old(self).refs_ok(),
            programs_in_module(modules@, old(self).infer_ctx.module.typed_stmts@.len() as int),
        ensures
            infer_grows_across(*old(self), *final(self)),
            r is Ok ==> exists|mid: TypeInfer| infer_grows_across(*old(self), mid) && #[trigger] finalized(mid, *final(self))
                && defs_finalized(mid, *final(self)),
            programs_always_infer(modules@, old(self).infer_ctx.module.typed_stmts@, old(self).infer_ctx.module.typed_exprs@)
                ==> r is Ok,
    {
        let ghost s0 = *self;
        proof {
            self.lemma_same_module_grows(*self);
        }
        let mut i: usize = 0;
        while i < modules.len()
            invariant
                infer_grows_across(s0, *self),
                s0 == *old(self),
                i <= modules@.len(),
                programs_in_module(modules@, s0.infer_ctx.module.typed_stmts@.len() as int),
            decreases modules@.len() - i,
        {
            self.current_mod_id = ModuleId(i);
            if let Some(TypedNode::Program { statements, .. }) = &modules[i] {
                let mut k: usize = 0;
                while k < statements.len()
                    invariant
                        infer_grows_across(s0, *self),
                        s0 == *old(self),
                        k <= statements@.len(),
                        forall|j: int| 0 <= j < statements@.len() ==> (#[trigger] statements@[j]).0 < s0.infer_ctx.module.typed_stmts@.len(),
                        i < modules@.len(),
                        modules@[i as int] matches Some(TypedNode::Program { statements: st, .. }) && st@ == statements@,
                    decreases statements@.len() - k,
                {
                    let ghost prev = *self;
                    proof {
                        if programs_always_infer(modules@, s0.infer_ctx.module.typed_stmts@, s0.infer_ctx.module.typed_exprs@) {
                            assert(stmt_always_infers(s0.infer_ctx.module.typed_exprs@,
                                s0.infer_ctx.module.typed_stmts@[statements@[k as int].0 as int]));
                            lemma_always_infers_kept(s0, prev, statements@[k as int].0 as int);
                        }
                    }
                    let r = self.infer_stmt(statements[k]);
                    proof {
                        lemma_across_then_grows(s0, prev, *self);
                    }
                    if let Err(err) = r {
                        proof {
                            if programs_always_infer(modules@, s0.infer_ctx.module.typed_stmts@, s0.infer_ctx.module.typed_exprs@) {
                                let st = prev.infer_ctx.module.typed_stmts@[statements@[k as int].0 as int];
                                assert(stmt_inferred(prev, *self, st, r, (INFER_DEPTH - 1) as nat));
                                assert(false);
                            }
                        }
                        return Err(err);
                    }
                    k = k + 1;
                }
            }
            i = i + 1;
        }
        let ghost mid = *self;
        self.finalize();
        proof {
            lemma_across_then_finalized(s0, mid, *self);
            assert(infer_grows_across(s0, mid) && finalized(mid, *self) && defs_finalized(mid, *self));
        }
        Ok(())
    }
}

/// A type resolved at least one level deep is never an integer variable.
pub proof fn lemma_resolved_not_int_var(types: Seq<Ty>, subst: Map<usize, usize>, id: TyId, r: TyId, fuel: nat)
    requires
        resolved(types, subst, id, r, fuel),
        infer_wf(types, subst),
        fuel > 0,
    ensures
        !(types[r as int] is InferInt),
{
    crate::unify::lemma_follow_all_end(types, subst, id);
}

} // verus!
