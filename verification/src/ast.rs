//! The syntax tree that checking takes: expressions and statements as parsed.
use bigdecimal::BigDecimal;
use crate::token::Token;
use crate::typed_ast::{Ident, IntValue};
use vstd::prelude::*;

verus! {

/// A parsed expression.
#[derive(Debug)]
pub enum Expression {
    /// An integer literal without a type suffix.
    UnknownTypeInt { token: Token, value: BigDecimal },
    Bool { token: Token, value: bool },
    Int { token: Token, value: IntValue },
    StrLiteral { token: Token, value: String },
    SizeOf(Token, Box<Expression>),
    Cast { token: Token, val: Box<Expression>, cast_to: Box<Expression> },
    FieldAccess(Token, Box<Expression>, Ident),
    BuildStruct(Token, Ident, Vec<(Ident, Expression)>),
    Assign { token: Token, left: Box<Expression>, right: Box<Expression> },
    Ident(Ident),
    Infix { token: Token, op: String, left: Box<Expression>, right: Box<Expression> },
    Prefix { token: Token, op: String, right: Box<Expression> },
    BoolAnd { token: Token, left: Box<Expression>, right: Box<Expression> },
    BoolOr { token: Token, left: Box<Expression>, right: Box<Expression> },
    If { token: Token, condition: Box<Expression>, consequence: Box<Expression>, else_block: Option<Box<Expression>> },
    Call { token: Token, func: Box<Expression>, args: Vec<Expression> },
    /// A function value: its parameters are type hints, and its body is a block.
    Function {
        token: Token,
        name: Option<Token>,
        params: Vec<Expression>,
        block: Box<Expression>,
        ret_ty: Option<Box<Expression>>,
        generics_params: Vec<Expression>,
    },
    Block(Token, Vec<Statement>),
    TypeHint(Ident, Box<Expression>),
    GenericInstance { token: Token, left: Box<Expression>, paths: Vec<Expression> },
    TypePath { token: Token, left: Ident, paths: Vec<Expression> },
}

/// A parsed statement.
#[derive(Debug)]
pub enum Statement {
    ExpressionStatement(Expression),
    Let { token: Token, name: Ident, var_type: Option<Ident>, value: Expression },
    Const { token: Token, name: Ident, var_type: Option<Ident>, value: Expression },
    Return { token: Token, expr: Option<Expression> },
    Block { token: Token, statements: Vec<Statement> },
    While { token: Token, condition: Expression, block: Box<Statement> },
    /// A use of a path, with the name it is brought in under, if given.
    Use { token: Token, full_path: Vec<String>, alias: Option<Token> },
    /// A function declaration: its parameters are type hints.
    FuncDecl {
        token: Token,
        name: Token,
        params: Vec<Expression>,
        ret_ty: Option<Box<Expression>>,
        generics_params: Vec<Expression>,
    },
    /// A function defined outside, known under `alias`.
    Extern {
        token: Token,
        abi: Token,
        extern_func_name: Token,
        alias: Token,
        params: Vec<Expression>,
        ret_ty: Option<Box<Expression>>,
        vararg: bool,
    },
    /// A struct: its fields are type hints.
    Struct { token: Token, name: Ident, fields: Vec<Expression>, generics: Vec<Expression> },
    /// A trait: its methods are function declarations in a block.
    Trait { token: Token, name: Ident, block: Box<Statement> },
    /// An implementation block: what it binds is added to the struct named `impl_`, unless
    /// it implements `impl_` for the type `for_`.
    Impl { token: Token, impl_: Ident, for_: Option<Ident>, block: Box<Statement> },
}

/// A parsed program.
#[derive(Debug)]
pub enum Node {
    Program { token: Token, statements: Vec<Statement> },
}

/// The token of an expression.
pub open spec fn ast_expr_token(e: Expression) -> Token {
    match e {
        Expression::UnknownTypeInt { token, .. } => token,
        Expression::Bool { token, .. } => token,
        Expression::Int { token, .. } => token,
        Expression::StrLiteral { token, .. } => token,
        Expression::SizeOf(token, _) => token,
        Expression::Cast { token, .. } => token,
        Expression::FieldAccess(token, ..) => token,
        Expression::BuildStruct(token, ..) => token,
        Expression::Assign { token, .. } => token,
        Expression::Ident(ident) => ident.token,
        Expression::Infix { token, .. } => token,
        Expression::Prefix { token, .. } => token,
        Expression::BoolAnd { token, .. } => token,
        Expression::BoolOr { token, .. } => token,
        Expression::If { token, .. } => token,
        Expression::Call { token, .. } => token,
        Expression::Function { token, .. } => token,
        Expression::Block(token, _) => token,
        Expression::TypeHint(ident, _) => ident.token,
        Expression::GenericInstance { token, .. } => token,
        Expression::TypePath { token, .. } => token,
    }
}

/// The token of a statement: that of its expression for an expression statement.
pub open spec fn ast_stmt_token(s: Statement) -> Token {
    match s {
        Statement::ExpressionStatement(e) => ast_expr_token(e),
        Statement::Let { token, .. } => token,
        Statement::Const { token, .. } => token,
        Statement::Return { token, .. } => token,
        Statement::Block { token, .. } => token,
        Statement::While { token, .. } => token,
        Statement::Use { token, .. } => token,
        Statement::FuncDecl { token, .. } => token,
        Statement::Extern { token, .. } => token,
        Statement::Struct { token, .. } => token,
        Statement::Trait { token, .. } => token,
        Statement::Impl { token, .. } => token,
    }
}

/// Whether `e` can be checked as a value: no type path stands where a value is expected,
/// and the type expressions in it can be checked as types.
pub open spec fn value_expr_ok(e: Expression) -> bool
    decreases e,
{
    match e {
        Expression::TypePath { .. } => false,
        Expression::SizeOf(_, x) => value_expr_ok(*x),
        Expression::Cast { val, cast_to, .. } => value_expr_ok(*val) && type_expr_ok(*cast_to),
        Expression::FieldAccess(_, x, _) => value_expr_ok(*x),
        Expression::BuildStruct(_, _, fields) => forall|i: int| 0 <= i < fields@.len() ==> value_expr_ok(#[trigger] fields@[i].1),
        Expression::Assign { left, right, .. } => value_expr_ok(*left) && value_expr_ok(*right),
        Expression::Infix { left, right, .. } => value_expr_ok(*left) && value_expr_ok(*right),
        Expression::Prefix { right, .. } => value_expr_ok(*right),
        Expression::BoolAnd { left, right, .. } => value_expr_ok(*left) && value_expr_ok(*right),
        Expression::BoolOr { left, right, .. } => value_expr_ok(*left) && value_expr_ok(*right),
        Expression::If { condition, consequence, else_block, .. } => value_expr_ok(*condition) && value_expr_ok(*consequence)
            && match else_block {
                Some(x) => value_expr_ok(*x),
                None => true,
            },
        Expression::Call { func, args, .. } => value_expr_ok(*func) && forall|i: int| 0 <= i < args@.len() ==> value_expr_ok(#[trigger] args@[i]),
        Expression::Function { params, block, ret_ty, generics_params, .. } =>
            (forall|i: int| 0 <= i < params@.len() ==> type_expr_ok(#[trigger] params@[i]))
            && (forall|i: int| 0 <= i < generics_params@.len() ==> value_expr_ok(#[trigger] generics_params@[i]))
            && match ret_ty {
                Some(t) => type_expr_ok(*t),
                None => true,
            }
            && match *block {
                Expression::Block(_, stmts) => forall|i: int| 0 <= i < stmts@.len() ==> stmt_ok(#[trigger] stmts@[i]),
                other => type_expr_ok(other),
            },
        Expression::Block(_, stmts) => forall|i: int| 0 <= i < stmts@.len() ==> stmt_ok(#[trigger] stmts@[i]),
        Expression::TypeHint(_, x) => type_expr_ok(*x),
        Expression::GenericInstance { left, paths, .. } => value_expr_ok(*left)
            && forall|i: int| 0 <= i < paths@.len() ==> type_expr_ok(#[trigger] paths@[i]),
        _ => true,
    }
}

/// Whether `e` can be checked as a type: the values in it can be checked as values.
pub open spec fn type_expr_ok(e: Expression) -> bool
    decreases e,
{
    match e {
        Expression::Prefix { right, .. } => type_expr_ok(*right),
        Expression::TypeHint(_, x) => type_expr_ok(*x),
        Expression::TypePath { paths, .. } => forall|i: int| 0 <= i < paths@.len() ==> value_expr_ok(#[trigger] paths@[i]),
        _ => true,
    }
}

/// Whether every expression of `s` can be checked, and the generic parameters of a struct
/// are names.
pub open spec fn stmt_ok(s: Statement) -> bool
    decreases s,
{
    match s {
        Statement::ExpressionStatement(e) => value_expr_ok(e),
        Statement::Let { value, .. } => value_expr_ok(value),
        Statement::Const { value, .. } => value_expr_ok(value),
        Statement::Return { expr, .. } => match expr {
            Some(e) => value_expr_ok(e),
            None => true,
        },
        Statement::Block { statements, .. } => forall|i: int| 0 <= i < statements@.len() ==> stmt_ok(#[trigger] statements@[i]),
        Statement::While { condition, block, .. } => value_expr_ok(condition) && stmt_ok(*block),
        Statement::Use { .. } => true,
        Statement::FuncDecl { params, ret_ty, generics_params, .. } =>
            (forall|i: int| 0 <= i < params@.len() ==> value_expr_ok(#[trigger] params@[i]) && type_expr_ok(params@[i]))
            && (forall|i: int| 0 <= i < generics_params@.len() ==> value_expr_ok(#[trigger] generics_params@[i]))
            && match ret_ty {
                Some(t) => type_expr_ok(*t),
                None => true,
            },
        Statement::Extern { params, ret_ty, .. } =>
            (forall|i: int| 0 <= i < params@.len() ==> type_expr_ok(#[trigger] params@[i]))
            && match ret_ty {
                Some(t) => type_expr_ok(*t),
                None => true,
            },
        Statement::Struct { fields, generics, .. } =>
            (forall|i: int| 0 <= i < fields@.len() ==> value_expr_ok(#[trigger] fields@[i]) && type_expr_ok(fields@[i]))
            && (forall|i: int| 0 <= i < generics@.len() ==> (#[trigger] generics@[i]) is Ident),
        Statement::Trait { block, .. } => stmt_ok(*block),
        Statement::Impl { block, .. } => stmt_ok(*block),
    }
}

impl Expression {
    /// The token of the expression.
    pub fn token(&self) -> (t: Token)
        ensures
            t == ast_expr_token(*self),
    {
        match self {
            Expression::UnknownTypeInt { token, .. } => token.copy(),
            Expression::Bool { token, .. } => token.copy(),
            Expression::Int { token, .. } => token.copy(),
            Expression::StrLiteral { token, .. } => token.copy(),
            Expression::SizeOf(token, _) => token.copy(),
            Expression::Cast { token, .. } => token.copy(),
            Expression::FieldAccess(token, ..) => token.copy(),
            Expression::BuildStruct(token, ..) => token.copy(),
            Expression::Assign { token, .. } => token.copy(),
            Expression::Ident(ident) => ident.token.copy(),
            Expression::Infix { token, .. } => token.copy(),
            Expression::Prefix { token, .. } => token.copy(),
            Expression::BoolAnd { token, .. } => token.copy(),
            Expression::BoolOr { token, .. } => token.copy(),
            Expression::If { token, .. } => token.copy(),
            Expression::Call { token, .. } => token.copy(),
            Expression::Function { token, .. } => token.copy(),
            Expression::Block(token, _) => token.copy(),
            Expression::TypeHint(ident, _) => ident.token.copy(),
            Expression::GenericInstance { token, .. } => token.copy(),
            Expression::TypePath { token, .. } => token.copy(),
        }
    }

    /// Whether the expression is a boolean, integer or string literal.
    pub fn is_literal(&self) -> (r: bool)
        ensures
            r == (*self is Bool || *self is Int || *self is StrLiteral),
    {
        match self {
            Expression::Bool { .. } | Expression::Int { .. } | Expression::StrLiteral { .. } => true,
            _ => false,
        }
    }
}

impl Statement {
    /// The token of the statement.
    pub fn token(&self) -> (t: Token)
        ensures
            t == ast_stmt_token(*self),
    {
        match self {
            Statement::ExpressionStatement(e) => e.token(),
            Statement::Let { token, .. } => token.copy(),
            Statement::Const { token, .. } => token.copy(),
            Statement::Return { token, .. } => token.copy(),
            Statement::Block { token, .. } => token.copy(),
            Statement::While { token, .. } => token.copy(),
            Statement::Use { token, .. } => token.copy(),
            Statement::FuncDecl { token, .. } => token.copy(),
            Statement::Extern { token, .. } => token.copy(),
            Statement::Struct { token, .. } => token.copy(),
            Statement::Trait { token, .. } => token.copy(),
            Statement::Impl { token, .. } => token.copy(),
        }
    }
}

/// The arguments of a call that can be checked can be checked, and each is smaller than
/// the call.
pub proof fn lemma_call_args(e: Expression, args: Vec<Expression>)
    requires
        value_expr_ok(e),
        e matches Expression::Call { args: a, .. } && a == args,
    ensures
        forall|i: int| 0 <= i < args@.len() ==> value_expr_ok(#[trigger] args@[i]) && decreases_to!(e => args@[i]),
{
    assert forall|i: int| 0 <= i < args@.len() implies value_expr_ok(#[trigger] args@[i]) && decreases_to!(e => args@[i]) by {
        assert(decreases_to!(e => args));
        assert(decreases_to!(args => args@));
        assert(decreases_to!(args@ => args@[i]));
    }
}

/// The type arguments of a generic instance that can be checked can be checked as types,
/// and each is smaller than the instance.
pub proof fn lemma_generic_paths(e: Expression, paths: Vec<Expression>)
    requires
        value_expr_ok(e),
        e matches Expression::GenericInstance { paths: p, .. } && p == paths,
    ensures
        forall|i: int| 0 <= i < paths@.len() ==> type_expr_ok(#[trigger] paths@[i]) && decreases_to!(e => paths@[i]),
{
    assert forall|i: int| 0 <= i < paths@.len() implies type_expr_ok(#[trigger] paths@[i]) && decreases_to!(e => paths@[i]) by {
        assert(decreases_to!(e => paths));
        assert(decreases_to!(paths => paths@));
        assert(decreases_to!(paths@ => paths@[i]));
    }
}

/// The field values of a struct literal that can be checked can be checked, and each is
/// smaller than the literal.
pub proof fn lemma_build_struct_fields(e: Expression, fields: Vec<(Ident, Expression)>)
    requires
        value_expr_ok(e),
        e matches Expression::BuildStruct(_, _, f) && f == fields,
    ensures
        forall|i: int| 0 <= i < fields@.len() ==> value_expr_ok(#[trigger] fields@[i].1) && decreases_to!(e => fields@[i].1),
{
    assert forall|i: int| 0 <= i < fields@.len() implies value_expr_ok(#[trigger] fields@[i].1) && decreases_to!(e => fields@[i].1) by {
        assert(decreases_to!(e => fields));
        assert(decreases_to!(fields => fields@));
        assert(decreases_to!(fields@ => fields@[i]));
        assert(decreases_to!(fields@[i] => fields@[i].1));
    }
}

/// The statements of a block expression that can be checked can be checked, and each is
/// smaller than the block.
pub proof fn lemma_block_stmts(e: Expression, stmts: Vec<Statement>)
    requires
        value_expr_ok(e),
        e matches Expression::Block(_, st) && st == stmts,
    ensures
        forall|i: int| 0 <= i < stmts@.len() ==> stmt_ok(#[trigger] stmts@[i]) && decreases_to!(e => stmts@[i]),
{
    assert forall|i: int| 0 <= i < stmts@.len() implies stmt_ok(#[trigger] stmts@[i]) && decreases_to!(e => stmts@[i]) by {
        assert(decreases_to!(e => stmts));
        assert(decreases_to!(stmts => stmts@));
        assert(decreases_to!(stmts@ => stmts@[i]));
    }
}

/// The statements of a block statement that can be checked can be checked, and each is
/// smaller than the block.
pub proof fn lemma_block_stmt_stmts(s: Statement, stmts: Vec<Statement>)
    requires
        stmt_ok(s),
        s matches Statement::Block { statements: st, .. } && st == stmts,
    ensures
        forall|i: int| 0 <= i < stmts@.len() ==> stmt_ok(#[trigger] stmts@[i]) && decreases_to!(s => stmts@[i]),
{
    assert forall|i: int| 0 <= i < stmts@.len() implies stmt_ok(#[trigger] stmts@[i]) && decreases_to!(s => stmts@[i]) by {
        assert(decreases_to!(s => stmts));
        assert(decreases_to!(stmts => stmts@));
        assert(decreases_to!(stmts@ => stmts@[i]));
    }
}

/// The statements of a trait's block can be checked and are smaller than the trait.
pub proof fn lemma_trait_parts(s: Statement)
    requires
        stmt_ok(s),
        s is Trait,
    ensures
        decreases_to!(s => *s->Trait_block),
        *s->Trait_block matches Statement::Block { statements, .. } ==> forall|i: int| 0 <= i < statements@.len()
            ==> stmt_ok(#[trigger] statements@[i]) && decreases_to!(s => statements@[i]),
{
    let b = *s->Trait_block;
    assert(decreases_to!(s => s->Trait_block));
    assert(stmt_ok(b));
    if let Statement::Block { statements, .. } = b {
        assert forall|i: int| 0 <= i < statements@.len() implies stmt_ok(#[trigger] statements@[i]) && decreases_to!(s => statements@[i]) by {
            assert(decreases_to!(b => statements));
            assert(decreases_to!(statements => statements@));
            assert(decreases_to!(statements@ => statements@[i]));
        }
    }
}

/// The block of an implementation can be checked and is smaller than it.
pub proof fn lemma_impl_parts(s: Statement)
    requires
        stmt_ok(s),
        s is Impl,
    ensures
        stmt_ok(*s->Impl_block),
        decreases_to!(s => *s->Impl_block),
{
    assert(decreases_to!(s => s->Impl_block));
}

/// Each expression of a list held by a statement is smaller than the statement.
pub proof fn lemma_stmt_exprs_smaller(s: Statement, v: Vec<Expression>)
    requires
        (s matches Statement::FuncDecl { params, generics_params, .. } && (v == params || v == generics_params))
            || (s matches Statement::Extern { params, .. } && v == params)
            || (s matches Statement::Struct { fields, generics, .. } && (v == fields || v == generics)),
    ensures
        forall|i: int| 0 <= i < v@.len() ==> decreases_to!(s => #[trigger] v@[i]),
{
    assert forall|i: int| 0 <= i < v@.len() implies decreases_to!(s => #[trigger] v@[i]) by {
        assert(decreases_to!(s => v));
        assert(decreases_to!(v => v@));
        assert(decreases_to!(v@ => v@[i]));
    }
}

/// The parts of a function declaration that can be checked can be checked.
pub proof fn lemma_func_decl_parts(s: Statement)
    requires
        stmt_ok(s),
        s is FuncDecl,
    ensures
        forall|i: int| 0 <= i < s->FuncDecl_params@.len() ==> value_expr_ok(#[trigger] s->FuncDecl_params@[i]),
        forall|i: int| 0 <= i < s->FuncDecl_params@.len() ==> type_expr_ok(#[trigger] s->FuncDecl_params@[i])
            && decreases_to!(s => s->FuncDecl_params@[i]),
        forall|i: int| 0 <= i < s->FuncDecl_generics_params@.len() ==> value_expr_ok(#[trigger] s->FuncDecl_generics_params@[i]),
        s->FuncDecl_ret_ty matches Some(t) ==> type_expr_ok(*t) && decreases_to!(s => *t),
        decreases_to!(s => s->FuncDecl_params),
        decreases_to!(s => s->FuncDecl_generics_params),
{
    lemma_stmt_exprs_smaller(s, s->FuncDecl_params);
    if let Some(t) = s->FuncDecl_ret_ty {
        assert(decreases_to!(s => s->FuncDecl_ret_ty));
        assert(decreases_to!(s->FuncDecl_ret_ty => t));
    }
}

/// The parts of an external function declaration that can be checked can be checked.
pub proof fn lemma_extern_parts(s: Statement)
    requires
        stmt_ok(s),
        s is Extern,
    ensures
        forall|i: int| 0 <= i < s->Extern_params@.len() ==> type_expr_ok(#[trigger] s->Extern_params@[i]) && decreases_to!(s => s->Extern_params@[i]),
        s->Extern_ret_ty matches Some(t) ==> type_expr_ok(*t) && decreases_to!(s => *t),
{
    lemma_stmt_exprs_smaller(s, s->Extern_params);
    if let Some(t) = s->Extern_ret_ty {
        assert(decreases_to!(s => s->Extern_ret_ty));
        assert(decreases_to!(s->Extern_ret_ty => t));
    }
}

/// The parts of a struct declaration that can be checked can be checked.
pub proof fn lemma_struct_parts(s: Statement)
    requires
        stmt_ok(s),
        s is Struct,
    ensures
        forall|i: int| 0 <= i < s->Struct_fields@.len() ==> value_expr_ok(#[trigger] s->Struct_fields@[i]) && decreases_to!(s => s->Struct_fields@[i]),
        forall|i: int| 0 <= i < s->Struct_fields@.len() ==> type_expr_ok(#[trigger] s->Struct_fields@[i]),
        forall|i: int| 0 <= i < s->Struct_generics@.len() ==> value_expr_ok(#[trigger] s->Struct_generics@[i]),
        decreases_to!(s => s->Struct_generics),
{
    lemma_stmt_exprs_smaller(s, s->Struct_fields);
}

/// The parts of a function value that can be checked can be checked, and are smaller than
/// it.
pub proof fn lemma_function_parts(e: Expression)
    requires
        value_expr_ok(e),
        e is Function,
    ensures
        forall|i: int| 0 <= i < e->Function_params@.len() ==> type_expr_ok(#[trigger] e->Function_params@[i])
            && decreases_to!(e => e->Function_params@[i]),
        forall|i: int| 0 <= i < e->Function_generics_params@.len() ==> value_expr_ok(#[trigger] e->Function_generics_params@[i]),
        decreases_to!(e => e->Function_generics_params),
        e->Function_ret_ty matches Some(t) ==> type_expr_ok(*t) && decreases_to!(e => *t),
        *e->Function_block matches Expression::Block(_, stmts) ==> decreases_to!(e => stmts)
            && forall|i: int| 0 <= i < stmts@.len() ==> stmt_ok(#[trigger] stmts@[i]),
        !((*e->Function_block) is Block) ==> type_expr_ok(*e->Function_block) && decreases_to!(e => *e->Function_block),
{
    let params = e->Function_params;
    assert forall|i: int| 0 <= i < params@.len() implies type_expr_ok(#[trigger] params@[i]) && decreases_to!(e => params@[i]) by {
        assert(decreases_to!(e => params));
        assert(decreases_to!(params => params@));
        assert(decreases_to!(params@ => params@[i]));
    }
    if let Some(t) = e->Function_ret_ty {
        assert(decreases_to!(e => e->Function_ret_ty));
        assert(decreases_to!(e->Function_ret_ty => t));
    }
    let b = *e->Function_block;
    assert(decreases_to!(e => e->Function_block));
    if let Expression::Block(_, stmts) = b {
        assert(decreases_to!(b => stmts));
    }
}

} // verus!
