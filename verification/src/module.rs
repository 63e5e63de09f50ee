//! A module being typed: its typed expressions and statements, by id, and the type
//! context they draw their types from.
use crate::ids::{ExprId, StmtId};
use crate::ty_context::TypeContext;
use crate::ty::TyId;
use crate::typed_ast::{expr_with_ty, stmt_with_ty, SetType, TypedExpression, TypedStatement};
use vstd::prelude::*;

verus! {

#[derive(Debug)]
pub struct TypedModule {
    pub tcx: TypeContext,
    pub typed_exprs: Vec<TypedExpression>,
    pub typed_stmts: Vec<TypedStatement>,
}

impl TypedModule {
    /// The type context of the module.
    pub open spec fn tcx_view(self) -> TypeContext {
        self.tcx
    }

    /// An empty module over `tcx`.
    pub fn new(tcx: TypeContext) -> (m: TypedModule)
        ensures
            m.tcx_view() == tcx,
            m.typed_exprs@.len() == 0,
            m.typed_stmts@.len() == 0,
    {
        TypedModule { tcx, typed_exprs: Vec::new(), typed_stmts: Vec::new() }
    }

    /// Adds an expression and returns its id.
    pub fn alloc_expr(&mut self, expr: TypedExpression) -> (id: ExprId)
        ensures
            id.0 == old(self).typed_exprs@.len(),
            final(self).typed_exprs@ == old(self).typed_exprs@.push(expr),
            final(self).typed_stmts@ == old(self).typed_stmts@,
            final(self).tcx_view() == old(self).tcx_view(),
    {
        let id = self.typed_exprs.len();
        self.typed_exprs.push(expr);
        ExprId(id)
    }

    /// Adds a statement and returns its id.
    pub fn alloc_stmt(&mut self, stmt: TypedStatement) -> (id: StmtId)
        ensures
            id.0 == old(self).typed_stmts@.len(),
            final(self).typed_stmts@ == old(self).typed_stmts@.push(stmt),
            final(self).typed_exprs@ == old(self).typed_exprs@,
            final(self).tcx_view() == old(self).tcx_view(),
    {
        let id = self.typed_stmts.len();
        self.typed_stmts.push(stmt);
        StmtId(id)
    }

    /// The expression with id `id`, if there is one.
    pub fn get_expr(&self, id: ExprId) -> (r: Option<&TypedExpression>)
        ensures
            r is Some <==> id.0 < self.typed_exprs@.len(),
            r matches Some(e) ==> *e == self.typed_exprs@[id.0 as int],
    {
        if id.0 < self.typed_exprs.len() {
            Some(&self.typed_exprs[id.0])
        } else {
            None
        }
    }

    /// Removes the expression with id `id`, if there is one, and returns it; later
    /// expressions move down by one.
    pub fn take_expr(&mut self, id: ExprId) -> (r: Option<TypedExpression>)
        ensures
            r is Some <==> id.0 < old(self).typed_exprs@.len(),
            r matches Some(e) ==> e == old(self).typed_exprs@[id.0 as int]
                && final(self).typed_exprs@ == old(self).typed_exprs@.remove(id.0 as int),
            r is None ==> final(self).typed_exprs@ == old(self).typed_exprs@,
            final(self).typed_stmts@ == old(self).typed_stmts@,
            final(self).tcx_view() == old(self).tcx_view(),
    {
        if id.0 >= self.typed_exprs.len() {
            return None;
        }
        Some(self.typed_exprs.remove(id.0))
    }

    /// The statement with id `id`, if there is one.
    pub fn get_stmt(&self, id: StmtId) -> (r: Option<&TypedStatement>)
        ensures
            r is Some <==> id.0 < self.typed_stmts@.len(),
            r matches Some(s) ==> *s == self.typed_stmts@[id.0 as int],
    {
        if id.0 < self.typed_stmts.len() {
            Some(&self.typed_stmts[id.0])
        } else {
            None
        }
    }

    /// Removes the statement with id `id`, if there is one, and returns it; later
    /// statements move down by one.
    pub fn take_stmt(&mut self, id: StmtId) -> (r: Option<TypedStatement>)
        ensures
            r is Some <==> id.0 < old(self).typed_stmts@.len(),
            r matches Some(s) ==> s == old(self).typed_stmts@[id.0 as int]
                && final(self).typed_stmts@ == old(self).typed_stmts@.remove(id.0 as int),
            r is None ==> final(self).typed_stmts@ == old(self).typed_stmts@,
            final(self).typed_exprs@ == old(self).typed_exprs@,
            final(self).tcx_view() == old(self).tcx_view(),
    {
        if id.0 >= self.typed_stmts.len() {
            return None;
        }
        Some(self.typed_stmts.remove(id.0))
    }

    /// Gives the expression with id `id` the type `ty`.
    pub fn set_expr_type(&mut self, id: ExprId, ty: TyId)
        requires
            id.0 < old(self).typed_exprs@.len(),
        ensures
            final(self).typed_exprs@ == old(self).typed_exprs@.update(id.0 as int, expr_with_ty(old(self).typed_exprs@[id.0 as int], ty)),
            final(self).typed_stmts@ == old(self).typed_stmts@,
            final(self).tcx_view() == old(self).tcx_view(),
    {
        self.typed_exprs[id.0].set_type(ty);
    }

    /// Gives the statement with id `id` the type `ty`.
    pub fn set_stmt_type(&mut self, id: StmtId, ty: TyId)
        requires
            id.0 < old(self).typed_stmts@.len(),
        ensures
            final(self).typed_stmts@ == old(self).typed_stmts@.update(id.0 as int, stmt_with_ty(old(self).typed_stmts@[id.0 as int], ty)),
            final(self).typed_exprs@ == old(self).typed_exprs@,
            final(self).tcx_view() == old(self).tcx_view(),
    {
        self.typed_stmts[id.0].set_type(ty);
    }

    /// The type context.
    pub fn tcx_ref(&self) -> (r: &TypeContext)
        ensures
            *r == self.tcx_view(),
    {
        &self.tcx
    }

    /// The type context, to change.
    pub fn tcx_mut(&mut self) -> (r: &mut TypeContext)
        ensures
            *r == old(self).tcx_view(),
            final(self).tcx_view() == *final(r),
            final(self).typed_exprs@ == old(self).typed_exprs@,
            final(self).typed_stmts@ == old(self).typed_stmts@,
    {
        &mut self.tcx
    }

    /// Gives back the type context.
    pub fn into_tcx(self) -> (r: TypeContext)
        ensures
            r == self.tcx_view(),
    {
        self.tcx
    }
}

} // verus!
