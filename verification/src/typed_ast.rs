//! The typed syntax tree that checking produces: expressions and statements refer to
//! their parts by id, and each carries the id of its type.
use bigdecimal::BigDecimal;
use crate::ids::{DefId, ExprId, StmtId};
use crate::imap::NameMap;
use crate::token::Token;
use crate::ty::{IntTy, TyId};
use vstd::prelude::*;

verus! {

#[verifier::external_type_specification]
#[verifier::external_body]
pub struct ExBigDecimal(BigDecimal);

/// `Clone::clone` of `BigDecimal`, which its crate derives: a value equal to the one cloned.
#[verifier::external_body]
pub(crate) fn big_decimal_clone(v: &BigDecimal) -> (r: BigDecimal)
    ensures
        r == *v,
{
    v.clone()
}

/// Things that carry a type.
pub trait GetType {
    spec fn type_of(&self) -> TyId;

    fn get_type(&self) -> (r: TyId)
        ensures
            r == self.type_of(),
    ;
}

/// Things whose type can be replaced.
pub trait SetType: Sized {
    spec fn with_type(self, new_ty: TyId) -> Self;

    fn set_type(&mut self, new_ty: TyId)
        ensures
            *final(self) == old(self).with_type(new_ty),
    ;
}

/// A name as written, with its token.
#[derive(Clone, Debug)]
pub struct Ident {
    pub token: Token,
    pub value: String,
}

impl Ident {
    /// A copy of this name.
    pub fn copy(&self) -> (r: Ident)
        ensures
            r == *self,
    {
        Ident { token: self.token.copy(), value: self.value.clone() }
    }

    /// The name as written.
    pub fn to_display_string(&self) -> (s: String)
        ensures
            s@ == self.value@,
    {
        self.value.clone()
    }
}

/// A copy of a struct literal's field initializers: each field's name with its value.
pub fn field_inits_copy(a: &Vec<(Ident, ExprId)>) -> (r: Vec<(Ident, ExprId)>)
    ensures
        r@ == a@,
{
    let mut r: Vec<(Ident, ExprId)> = Vec::new();
    let mut i: usize = 0;
    while i < a.len()
        invariant
            0 <= i <= a.len(),
            r@ == a@.take(i as int),
        decreases a.len() - i,
    {
        r.push((a[i].0.copy(), a[i].1));
        i = i + 1;
        assert(r@ =~= a@.take(i as int));
    }
    assert(a@.take(a.len() as int) =~= a@);
    r
}

/// An integer literal with its type.
#[derive(Clone, Copy, Debug, PartialEq, Eq, Structural)]
pub enum IntValue {
    ISize(isize),
    I64(i64),
    I32(i32),
    I16(i16),
    I8(i8),
    USize(usize),
    U64(u64),
    U32(u32),
    U16(u16),
    U8(u8),
}

/// The integer type of an integer literal.
pub open spec fn int_value_ty(v: IntValue) -> IntTy {
    match v {
        IntValue::ISize(_) => IntTy::ISize,
        IntValue::I64(_) => IntTy::I64,
        IntValue::I32(_) => IntTy::I32,
        IntValue::I16(_) => IntTy::I16,
        IntValue::I8(_) => IntTy::I8,
        IntValue::USize(_) => IntTy::USize,
        IntValue::U64(_) => IntTy::U64,
        IntValue::U32(_) => IntTy::U32,
        IntValue::U16(_) => IntTy::U16,
        IntValue::U8(_) => IntTy::U8,
    }
}

impl From<IntValue> for IntTy {
    fn from(value: IntValue) -> (r: IntTy) {
        match value {
            IntValue::ISize(_) => IntTy::ISize,
            IntValue::I64(_) => IntTy::I64,
            IntValue::I32(_) => IntTy::I32,
            IntValue::I16(_) => IntTy::I16,
            IntValue::I8(_) => IntTy::I8,
            IntValue::USize(_) => IntTy::USize,
            IntValue::U64(_) => IntTy::U64,
            IntValue::U32(_) => IntTy::U32,
            IntValue::U16(_) => IntTy::U16,
            IntValue::U8(_) => IntTy::U8,
        }
    }
}

impl vstd::std_specs::convert::FromSpecImpl<IntValue> for IntTy {
    open spec fn obeys_from_spec() -> bool {
        true
    }

    open spec fn from_spec(v: IntValue) -> IntTy {
        int_value_ty(v)
    }
}

/// A typed expression.
#[derive(Debug)]
pub enum TypedExpression {
    BigInt { token: Token, value: BigDecimal, ty: TyId },
    /// An integer literal whose type is left to inference.
    UnknownTypeInt { token: Token, value: BigDecimal, ty: TyId },
    Bool { token: Token, value: bool, ty: TyId },
    Int { token: Token, value: IntValue, ty: TyId },
    /// A name, its type, and the definition it names if it is one.
    Ident(Ident, TyId, Option<DefId>),
    Block(Token, Vec<StmtId>, TyId),
    TypeHint(Ident, ExprId, TyId),
    SizeOf(Token, ExprId, TyId),
    BuildStruct(Token, Ident, Vec<(Ident, ExprId)>, TyId),
    FieldAccess(Token, ExprId, Ident, TyId),
    Infix { token: Token, op: String, left: ExprId, right: ExprId, ty: TyId },
    Cast { token: Token, val: ExprId, cast_to: ExprId, ty: TyId },
    Prefix { token: Token, op: String, right: ExprId, ty: TyId },
    Function {
        token: Token,
        name: Option<Token>,
        params: Vec<ExprId>,
        generics_params: Vec<ExprId>,
        block: ExprId,
        ret_ty: Option<ExprId>,
        ty: TyId,
    },
    Call { token: Token, func: ExprId, args: Vec<ExprId>, func_ty: TyId, ret_ty: TyId },
    If { token: Token, condition: ExprId, consequence: ExprId, else_block: Option<ExprId>, ty: TyId },
    Assign { token: Token, left: ExprId, right: ExprId, ty: TyId },
    StrLiteral { token: Token, value: String, ty: TyId },
    BoolAnd { token: Token, left: ExprId, right: ExprId, ty: TyId },
    BoolOr { token: Token, left: ExprId, right: ExprId, ty: TyId },
    TypePath { token: Token, left: Ident, paths: Vec<ExprId>, ty: TyId },
    GenericInstance { token: Token, left: ExprId, paths: Vec<ExprId>, ty: TyId },
}

/// The type of a typed expression.
pub open spec fn expr_ty(e: TypedExpression) -> TyId {
    match e {
        TypedExpression::BigInt { ty, .. } => ty,
        TypedExpression::UnknownTypeInt { ty, .. } => ty,
        TypedExpression::Bool { ty, .. } => ty,
        TypedExpression::Int { ty, .. } => ty,
        TypedExpression::Ident(_, ty, _) => ty,
        TypedExpression::Block(_, _, ty) => ty,
        TypedExpression::TypeHint(_, _, ty) => ty,
        TypedExpression::SizeOf(_, _, ty) => ty,
        TypedExpression::BuildStruct(_, _, _, ty) => ty,
        TypedExpression::FieldAccess(_, _, _, ty) => ty,
        TypedExpression::Infix { ty, .. } => ty,
        TypedExpression::Cast { ty, .. } => ty,
        TypedExpression::Prefix { ty, .. } => ty,
        TypedExpression::Function { ty, .. } => ty,
        TypedExpression::Call { ret_ty, .. } => ret_ty,
        TypedExpression::If { ty, .. } => ty,
        TypedExpression::Assign { ty, .. } => ty,
        TypedExpression::StrLiteral { ty, .. } => ty,
        TypedExpression::BoolAnd { ty, .. } => ty,
        TypedExpression::BoolOr { ty, .. } => ty,
        TypedExpression::TypePath { ty, .. } => ty,
        TypedExpression::GenericInstance { ty, .. } => ty,
    }
}

/// The same expression with its type replaced.
pub open spec fn expr_with_ty(e: TypedExpression, t: TyId) -> TypedExpression {
    match e {
        TypedExpression::BigInt { token, value, .. } => TypedExpression::BigInt { token, value, ty: t },
        TypedExpression::UnknownTypeInt { token, value, .. } => TypedExpression::UnknownTypeInt { token, value, ty: t },
        TypedExpression::Bool { token, value, .. } => TypedExpression::Bool { token, value, ty: t },
        TypedExpression::Int { token, value, .. } => TypedExpression::Int { token, value, ty: t },
        TypedExpression::Ident(i, _, d) => TypedExpression::Ident(i, t, d),
        TypedExpression::Block(k, s, _) => TypedExpression::Block(k, s, t),
        TypedExpression::TypeHint(i, e, _) => TypedExpression::TypeHint(i, e, t),
        TypedExpression::SizeOf(k, e, _) => TypedExpression::SizeOf(k, e, t),
        TypedExpression::BuildStruct(k, i, f, _) => TypedExpression::BuildStruct(k, i, f, t),
        TypedExpression::FieldAccess(k, e, i, _) => TypedExpression::FieldAccess(k, e, i, t),
        TypedExpression::Infix { token, op, left, right, .. } => TypedExpression::Infix { token, op, left, right, ty: t },
        TypedExpression::Cast { token, val, cast_to, .. } => TypedExpression::Cast { token, val, cast_to, ty: t },
        TypedExpression::Prefix { token, op, right, .. } => TypedExpression::Prefix { token, op, right, ty: t },
        TypedExpression::Function { token, name, params, generics_params, block, ret_ty, .. } =>
            TypedExpression::Function { token, name, params, generics_params, block, ret_ty, ty: t },
        TypedExpression::Call { token, func, args, func_ty, .. } => TypedExpression::Call { token, func, args, func_ty, ret_ty: t },
        TypedExpression::If { token, condition, consequence, else_block, .. } =>
            TypedExpression::If { token, condition, consequence, else_block, ty: t },
        TypedExpression::Assign { token, left, right, .. } => TypedExpression::Assign { token, left, right, ty: t },
        TypedExpression::StrLiteral { token, value, .. } => TypedExpression::StrLiteral { token, value, ty: t },
        TypedExpression::BoolAnd { token, left, right, .. } => TypedExpression::BoolAnd { token, left, right, ty: t },
        TypedExpression::BoolOr { token, left, right, .. } => TypedExpression::BoolOr { token, left, right, ty: t },
        TypedExpression::TypePath { token, left, paths, .. } => TypedExpression::TypePath { token, left, paths, ty: t },
        TypedExpression::GenericInstance { token, left, paths, .. } => TypedExpression::GenericInstance { token, left, paths, ty: t },
    }
}

/// The token of a typed expression.
pub open spec fn expr_token(e: TypedExpression) -> Token {
    match e {
        TypedExpression::BigInt { token, .. } => token,
        TypedExpression::UnknownTypeInt { token, .. } => token,
        TypedExpression::Bool { token, .. } => token,
        TypedExpression::Int { token, .. } => token,
        TypedExpression::Ident(ident, ..) => ident.token,
        TypedExpression::Block(token, ..) => token,
        TypedExpression::TypeHint(ident, ..) => ident.token,
        TypedExpression::SizeOf(token, ..) => token,
        TypedExpression::BuildStruct(token, ..) => token,
        TypedExpression::FieldAccess(token, ..) => token,
        TypedExpression::Infix { token, .. } => token,
        TypedExpression::Cast { token, .. } => token,
        TypedExpression::Prefix { token, .. } => token,
        TypedExpression::Function { token, .. } => token,
        TypedExpression::Call { token, .. } => token,
        TypedExpression::If { token, .. } => token,
        TypedExpression::Assign { token, .. } => token,
        TypedExpression::StrLiteral { token, .. } => token,
        TypedExpression::BoolAnd { token, .. } => token,
        TypedExpression::BoolOr { token, .. } => token,
        TypedExpression::TypePath { token, .. } => token,
        TypedExpression::GenericInstance { token, .. } => token,
    }
}

impl GetType for TypedExpression {
    open spec fn type_of(&self) -> TyId {
        expr_ty(*self)
    }

    fn get_type(&self) -> (r: TyId) {
        match self {
            TypedExpression::BigInt { ty, .. } => *ty,
            TypedExpression::UnknownTypeInt { ty, .. } => *ty,
            TypedExpression::Bool { ty, .. } => *ty,
            TypedExpression::Int { ty, .. } => *ty,
            TypedExpression::Ident(_, ty, _) => *ty,
            TypedExpression::Block(_, _, ty) => *ty,
            TypedExpression::TypeHint(_, _, ty) => *ty,
            TypedExpression::SizeOf(_, _, ty) => *ty,
            TypedExpression::BuildStruct(_, _, _, ty) => *ty,
            TypedExpression::FieldAccess(_, _, _, ty) => *ty,
            TypedExpression::Infix { ty, .. } => *ty,
            TypedExpression::Cast { ty, .. } => *ty,
            TypedExpression::Prefix { ty, .. } => *ty,
            TypedExpression::Function { ty, .. } => *ty,
            TypedExpression::Call { ret_ty, .. } => *ret_ty,
            TypedExpression::If { ty, .. } => *ty,
            TypedExpression::Assign { ty, .. } => *ty,
            TypedExpression::StrLiteral { ty, .. } => *ty,
            TypedExpression::BoolAnd { ty, .. } => *ty,
            TypedExpression::BoolOr { ty, .. } => *ty,
            TypedExpression::TypePath { ty, .. } => *ty,
            TypedExpression::GenericInstance { ty, .. } => *ty,
        }
    }
}

impl SetType for TypedExpression {
    open spec fn with_type(self, new_ty: TyId) -> Self {
        expr_with_ty(self, new_ty)
    }

    fn set_type(&mut self, new_ty: TyId) {
        match self {
            TypedExpression::BigInt { ty, .. } => *ty = new_ty,
            TypedExpression::UnknownTypeInt { ty, .. } => *ty = new_ty,
            TypedExpression::Bool { ty, .. } => *ty = new_ty,
            TypedExpression::Int { ty, .. } => *ty = new_ty,
            TypedExpression::Ident(_, ty, _) => *ty = new_ty,
            TypedExpression::Block(_, _, ty) => *ty = new_ty,
            TypedExpression::TypeHint(_, _, ty) => *ty = new_ty,
            TypedExpression::SizeOf(_, _, ty) => *ty = new_ty,
            TypedExpression::BuildStruct(_, _, _, ty) => *ty = new_ty,
            TypedExpression::FieldAccess(_, _, _, ty) => *ty = new_ty,
            TypedExpression::Infix { ty, .. } => *ty = new_ty,
            TypedExpression::Cast { ty, .. } => *ty = new_ty,
            TypedExpression::Prefix { ty, .. } => *ty = new_ty,
            TypedExpression::Function { ty, .. } => *ty = new_ty,
            TypedExpression::Call { ret_ty, .. } => *ret_ty = new_ty,
            TypedExpression::If { ty, .. } => *ty = new_ty,
            TypedExpression::Assign { ty, .. } => *ty = new_ty,
            TypedExpression::StrLiteral { ty, .. } => *ty = new_ty,
            TypedExpression::BoolAnd { ty, .. } => *ty = new_ty,
            TypedExpression::BoolOr { ty, .. } => *ty = new_ty,
            TypedExpression::TypePath { ty, .. } => *ty = new_ty,
            TypedExpression::GenericInstance { ty, .. } => *ty = new_ty,
        }
    }
}

impl TypedExpression {
    /// The token of the expression.
    pub fn token(&self) -> (t: Token)
        ensures
            t == expr_token(*self),
    {
        match self {
            TypedExpression::BigInt { token, .. } => token.copy(),
            TypedExpression::UnknownTypeInt { token, .. } => token.copy(),
            TypedExpression::Bool { token, .. } => token.copy(),
            TypedExpression::Int { token, .. } => token.copy(),
            TypedExpression::Ident(ident, ..) => ident.token.copy(),
            TypedExpression::Block(token, ..) => token.copy(),
            TypedExpression::TypeHint(ident, ..) => ident.token.copy(),
            TypedExpression::SizeOf(token, ..) => token.copy(),
            TypedExpression::BuildStruct(token, ..) => token.copy(),
            TypedExpression::FieldAccess(token, ..) => token.copy(),
            TypedExpression::Infix { token, .. } => token.copy(),
            TypedExpression::Cast { token, .. } => token.copy(),
            TypedExpression::Prefix { token, .. } => token.copy(),
            TypedExpression::Function { token, .. } => token.copy(),
            TypedExpression::Call { token, .. } => token.copy(),
            TypedExpression::If { token, .. } => token.copy(),
            TypedExpression::Assign { token, .. } => token.copy(),
            TypedExpression::StrLiteral { token, .. } => token.copy(),
            TypedExpression::BoolAnd { token, .. } => token.copy(),
            TypedExpression::BoolOr { token, .. } => token.copy(),
            TypedExpression::TypePath { token, .. } => token.copy(),
            TypedExpression::GenericInstance { token, .. } => token.copy(),
        }
    }

    /// Whether the expression is a boolean, integer or string literal.
    pub fn is_literal(&self) -> (r: bool)
        ensures
            r == (self is Bool || self is Int || self is StrLiteral),
    {
        match self {
            TypedExpression::Bool { .. } | TypedExpression::Int { .. } | TypedExpression::StrLiteral { .. } => true,
            _ => false,
        }
    }
}

/// A typed statement.
#[derive(Debug)]
pub enum TypedStatement {
    ExpressionStatement(Token, ExprId, TyId),
    Return { token: Token, expr: Option<ExprId>, ty: TyId },
    Block { token: Token, statements: Vec<StmtId>, ty: TyId },
    Let { token: Token, name: Ident, var_type: Option<Ident>, value: ExprId, ty: TyId },
    Const { token: Token, name: Ident, var_type: Option<Ident>, value: ExprId, ty: TyId },
    While { token: Token, condition: ExprId, block: StmtId, ty: TyId },
    Struct { token: Token, name: Ident, fields: Vec<ExprId>, ty: TyId, generics: Vec<ExprId> },
    Trait { token: Token, name: Ident, block: StmtId, ty: TyId },
    Extern {
        token: Token,
        abi: Token,
        extern_func_name: Token,
        alias: Token,
        params: Vec<ExprId>,
        ret_ty: Option<ExprId>,
        ty: TyId,
        vararg: bool,
    },
    FuncDecl { token: Token, name: Token, params: Vec<ExprId>, generics_params: Vec<ExprId>, ret_ty: Option<ExprId>, ty: TyId },
    Impl { token: Token, impl_: Ident, for_: Option<Ident>, block: StmtId, new_fields: NameMap, ty: TyId },
    Use { token: Token, full_path: Vec<String>, alias: Option<Token>, ty: TyId },
}

/// The type of a typed statement.
pub open spec fn stmt_ty(s: TypedStatement) -> TyId {
    match s {
        TypedStatement::ExpressionStatement(_, _, ty) => ty,
        TypedStatement::Return { ty, .. } => ty,
        TypedStatement::Block { ty, .. } => ty,
        TypedStatement::Let { ty, .. } => ty,
        TypedStatement::Const { ty, .. } => ty,
        TypedStatement::While { ty, .. } => ty,
        TypedStatement::Struct { ty, .. } => ty,
        TypedStatement::Trait { ty, .. } => ty,
        TypedStatement::Extern { ty, .. } => ty,
        TypedStatement::FuncDecl { ty, .. } => ty,
        TypedStatement::Impl { ty, .. } => ty,
        TypedStatement::Use { ty, .. } => ty,
    }
}

/// The same statement with its type replaced.
pub open spec fn stmt_with_ty(s: TypedStatement, t: TyId) -> TypedStatement {
    match s {
        TypedStatement::ExpressionStatement(k, e, _) => TypedStatement::ExpressionStatement(k, e, t),
        TypedStatement::Return { token, expr, .. } => TypedStatement::Return { token, expr, ty: t },
        TypedStatement::Block { token, statements, .. } => TypedStatement::Block { token, statements, ty: t },
        TypedStatement::Let { token, name, var_type, value, .. } => TypedStatement::Let { token, name, var_type, value, ty: t },
        TypedStatement::Const { token, name, var_type, value, .. } => TypedStatement::Const { token, name, var_type, value, ty: t },
        TypedStatement::While { token, condition, block, .. } => TypedStatement::While { token, condition, block, ty: t },
        TypedStatement::Struct { token, name, fields, generics, .. } => TypedStatement::Struct { token, name, fields, ty: t, generics },
        TypedStatement::Trait { token, name, block, .. } => TypedStatement::Trait { token, name, block, ty: t },
        TypedStatement::Extern { token, abi, extern_func_name, alias, params, ret_ty, vararg, .. } =>
            TypedStatement::Extern { token, abi, extern_func_name, alias, params, ret_ty, ty: t, vararg },
        TypedStatement::FuncDecl { token, name, params, generics_params, ret_ty, .. } =>
            TypedStatement::FuncDecl { token, name, params, generics_params, ret_ty, ty: t },
        TypedStatement::Impl { token, impl_, for_, block, new_fields, .. } =>
            TypedStatement::Impl { token, impl_, for_, block, new_fields, ty: t },
        TypedStatement::Use { token, full_path, alias, .. } => TypedStatement::Use { token, full_path, alias, ty: t },
    }
}

/// The token of a typed statement.
pub open spec fn stmt_token(s: TypedStatement) -> Token {
    match s {
        TypedStatement::ExpressionStatement(token, ..) => token,
        TypedStatement::Return { token, .. } => token,
        TypedStatement::Block { token, .. } => token,
        TypedStatement::Let { token, .. } => token,
        TypedStatement::Const { token, .. } => token,
        TypedStatement::While { token, .. } => token,
        TypedStatement::Struct { token, .. } => token,
        TypedStatement::Trait { token, .. } => token,
        TypedStatement::Extern { token, .. } => token,
        TypedStatement::FuncDecl { token, .. } => token,
        TypedStatement::Impl { token, .. } => token,
        TypedStatement::Use { token, .. } => token,
    }
}

impl GetType for TypedStatement {
    open spec fn type_of(&self) -> TyId {
        stmt_ty(*self)
    }

    fn get_type(&self) -> (r: TyId) {
        match self {
            TypedStatement::ExpressionStatement(_, _, ty) => *ty,
            TypedStatement::Return { ty, .. } => *ty,
            TypedStatement::Block { ty, .. } => *ty,
            TypedStatement::Let { ty, .. } => *ty,
            TypedStatement::Const { ty, .. } => *ty,
            TypedStatement::While { ty, .. } => *ty,
            TypedStatement::Struct { ty, .. } => *ty,
            TypedStatement::Trait { ty, .. } => *ty,
            TypedStatement::Extern { ty, .. } => *ty,
            TypedStatement::FuncDecl { ty, .. } => *ty,
            TypedStatement::Impl { ty, .. } => *ty,
            TypedStatement::Use { ty, .. } => *ty,
        }
    }
}

impl SetType for TypedStatement {
    open spec fn with_type(self, new_ty: TyId) -> Self {
        stmt_with_ty(self, new_ty)
    }

    fn set_type(&mut self, new_ty: TyId) {
        match self {
            TypedStatement::ExpressionStatement(_, _, ty) => *ty = new_ty,
            TypedStatement::Return { ty, .. } => *ty = new_ty,
            TypedStatement::Block { ty, .. } => *ty = new_ty,
            TypedStatement::Let { ty, .. } => *ty = new_ty,
            TypedStatement::Const { ty, .. } => *ty = new_ty,
            TypedStatement::While { ty, .. } => *ty = new_ty,
            TypedStatement::Struct { ty, .. } => *ty = new_ty,
            TypedStatement::Trait { ty, .. } => *ty = new_ty,
            TypedStatement::Extern { ty, .. } => *ty = new_ty,
            TypedStatement::FuncDecl { ty, .. } => *ty = new_ty,
            TypedStatement::Impl { ty, .. } => *ty = new_ty,
            TypedStatement::Use { ty, .. } => *ty = new_ty,
        }
    }
}

impl TypedStatement {
    /// The token of the statement.
    pub fn token(&self) -> (t: Token)
        ensures
            t == stmt_token(*self),
    {
        match self {
            TypedStatement::ExpressionStatement(token, ..) => token.copy(),
            TypedStatement::Return { token, .. } => token.copy(),
            TypedStatement::Block { token, .. } => token.copy(),
            TypedStatement::Let { token, .. } => token.copy(),
            TypedStatement::Const { token, .. } => token.copy(),
            TypedStatement::While { token, .. } => token.copy(),
            TypedStatement::Struct { token, .. } => token.copy(),
            TypedStatement::Trait { token, .. } => token.copy(),
            TypedStatement::Extern { token, .. } => token.copy(),
            TypedStatement::FuncDecl { token, .. } => token.copy(),
            TypedStatement::Impl { token, .. } => token.copy(),
            TypedStatement::Use { token, .. } => token.copy(),
        }
    }
}

/// A typed program: its statements, by id.
#[derive(Debug)]
pub enum TypedNode {
    Program { token: Token, statements: Vec<StmtId> },
}

/// Giving an expression a type and reading it back gives that type.
pub proof fn lemma_expr_with_ty(e: TypedExpression, t: TyId)
    ensures
        expr_ty(expr_with_ty(e, t)) == t,
{
}

/// Giving a statement a type and reading it back gives that type.
pub proof fn lemma_stmt_with_ty(s: TypedStatement, t: TyId)
    ensures
        stmt_ty(stmt_with_ty(s, t)) == t,
{
}

} // verus!
