use bigdecimal::BigDecimal;
use type_checker::ast::{Expression, Node, Statement};
use type_checker::checker::TypeChecker;
use type_checker::constraint::Constraint;
use type_checker::error::TypeCheckerErrorKind;
use type_checker::ids::ModuleId;
use type_checker::infer::TypeInfer;
use type_checker::infer_context::InferContext;
use type_checker::module::TypedModule;
use type_checker::token::{Token, TokenType};
use type_checker::ty::{IntTy, Ty};
use type_checker::ty_context::TypeContext;
use type_checker::typed_ast::{GetType, Ident, TypedNode, TypedStatement};

fn tok(value: &str, line: usize, column: usize) -> Token {
    Token::new(value.to_string(), TokenType::Other, "__infer__".to_string(), line, column)
}

fn ident(value: &str, column: usize) -> Ident {
    Ident { token: tok(value, 1, column), value: value.to_string() }
}

fn fresh_ctx() -> InferContext {
    InferContext::new(TypedModule::new(TypeContext::new()))
}

#[test]
fn an_integer_variable_takes_an_integer_type() {
    let mut ctx = fresh_ctx();
    let v = ctx.alloc_infer_int();
    let i32_ty = ctx.module.tcx.alloc_type(Ty::IntTy(IntTy::I32));
    ctx.unify(v, i32_ty, tok("x", 1, 1)).unwrap();
    assert_eq!(ctx.follow_all(v), i32_ty);
    assert_eq!(ctx.follow_all(i32_ty), i32_ty);
}

#[test]
fn unifying_a_type_with_itself_changes_nothing() {
    let mut ctx = fresh_ctx();
    let b = ctx.module.tcx.alloc_type(Ty::Bool);
    let before = ctx.substitutions.len();
    ctx.unify(b, b, tok("b", 1, 1)).unwrap();
    assert_eq!(ctx.substitutions.len(), before);
}

#[test]
fn mismatched_types_report_both() {
    let mut ctx = fresh_ctx();
    let b = ctx.module.tcx.alloc_type(Ty::Bool);
    let i = ctx.module.tcx.alloc_type(Ty::IntTy(IntTy::I64));
    let err = ctx.unify(b, i, tok("here", 3, 7)).unwrap_err();
    assert_eq!(err.kind, TypeCheckerErrorKind::TypeMismatch);
    assert_eq!(err.token.value, "here");
    assert_eq!(err.message.unwrap(), "expected `bool`, got i64");
}

#[test]
fn an_integer_variable_does_not_take_bool() {
    let mut ctx = fresh_ctx();
    let v = ctx.alloc_infer_int();
    let b = ctx.module.tcx.alloc_type(Ty::Bool);
    let err = ctx.unify(v, b, tok("n", 1, 1)).unwrap_err();
    assert_eq!(err.kind, TypeCheckerErrorKind::TypeMismatch);
}

#[test]
fn plain_variables_are_bound_through_chains() {
    let mut ctx = fresh_ctx();
    let a = ctx.alloc_infer_ty();
    let b = ctx.alloc_infer_ty();
    let s = ctx.module.tcx.alloc_type(Ty::Str);
    ctx.unify(a, b, tok("a", 1, 1)).unwrap();
    ctx.unify(b, s, tok("b", 1, 1)).unwrap();
    assert_eq!(ctx.follow_all(a), s);
}

#[test]
fn unify_all_stops_at_the_first_mismatch() {
    let ctx = fresh_ctx();
    let mut infer = TypeInfer::new(ctx, Vec::new(), Vec::new(), ModuleId(0));
    let v = infer.infer_ctx.alloc_infer_int();
    let i8_ty = infer.infer_ctx.module.tcx.alloc_type(Ty::IntTy(IntTy::I8));
    let b = infer.infer_ctx.module.tcx.alloc_type(Ty::Bool);
    let constraints = vec![
        Constraint { expected: v, got: i8_ty, token: tok("first", 1, 1) },
        Constraint { expected: b, got: i8_ty, token: tok("second", 2, 1) },
        Constraint { expected: v, got: b, token: tok("third", 3, 1) },
    ];
    let err = infer.unify_all(constraints).unwrap_err();
    assert_eq!(err.token.value, "second");
    assert_eq!(infer.infer_ctx.follow_all(v), i8_ty);
}

#[test]
fn a_literal_takes_the_declared_type() {
    let mut checker = TypeChecker::new(TypedModule::new(TypeContext::new()), Vec::new(), Vec::new(), Vec::new(), ModuleId(0));
    let stmt = Statement::Let {
        token: tok("let", 1, 1),
        name: ident("x", 5),
        var_type: Some(ident("u16", 8)),
        value: Expression::UnknownTypeInt { token: tok("7", 1, 14), value: BigDecimal::from(7) },
    };
    let program = Node::Program { token: tok("", 1, 1), statements: vec![stmt] };
    let typed = checker.check_all(&program).unwrap();
    let (value_id, let_ty) = match &typed {
        TypedNode::Program { statements, .. } => match checker.module.get_stmt(statements[0]).unwrap() {
            TypedStatement::Let { value, ty, .. } => (*value, *ty),
            _ => unreachable!(),
        },
    };
    let modules = vec![Some(typed)];
    let constraints = checker.get_constraints().to_vec();
    let infer_ctx = InferContext::new(checker.module);
    let mut infer = TypeInfer::new(infer_ctx, Vec::new(), Vec::new(), ModuleId(0));
    infer.unify_all(constraints).unwrap();
    infer.infer(&modules).unwrap();
    let tcx = &infer.infer_ctx.module.tcx;
    assert!(matches!(tcx.get(let_ty), Ty::IntTy(IntTy::U16)));
    let value_ty = infer.infer_ctx.module.get_expr(value_id).unwrap().get_type();
    assert!(matches!(tcx.get(value_ty), Ty::IntTy(IntTy::U16)));
    assert_eq!(infer.locals_tyid.len(), 1);
    assert_eq!(infer.locals_tyid[0].0, "x");
    assert!(matches!(tcx.get(infer.locals_tyid[0].1), Ty::IntTy(IntTy::U16)));
}

#[test]
fn an_unsuffixed_literal_alone_defaults_to_i32() {
    let mut checker = TypeChecker::new(TypedModule::new(TypeContext::new()), Vec::new(), Vec::new(), Vec::new(), ModuleId(0));
    let stmt = Statement::ExpressionStatement(Expression::UnknownTypeInt { token: tok("3", 1, 1), value: BigDecimal::from(3) });
    let program = Node::Program { token: tok("", 1, 1), statements: vec![stmt] };
    let typed = checker.check_all(&program).unwrap();
    let modules = vec![Some(typed)];
    let infer_ctx = InferContext::new(checker.module);
    let mut infer = TypeInfer::new(infer_ctx, Vec::new(), Vec::new(), ModuleId(0));
    infer.infer(&modules).unwrap();
    let stmt_ty = match &modules[0] {
        Some(TypedNode::Program { statements, .. }) => infer.infer_ctx.module.get_stmt(statements[0]).unwrap().get_type(),
        None => unreachable!(),
    };
    assert!(matches!(infer.infer_ctx.module.tcx.get(stmt_ty), Ty::IntTy(IntTy::I32)));
}

#[test]
fn following_bindings_of_each_kind() {
    let ctx = fresh_ctx();
    let mut infer = TypeInfer::new(ctx, Vec::new(), Vec::new(), ModuleId(0));
    let plain = infer.infer_ctx.alloc_infer_ty();
    let int_var = infer.infer_ctx.alloc_infer_int();
    let u32_ty = infer.infer_ctx.module.tcx.alloc_type(Ty::IntTy(IntTy::U32));
    infer.unify(plain, int_var, tok("p", 1, 1)).unwrap();
    infer.unify(int_var, u32_ty, tok("i", 1, 1)).unwrap();
    assert_eq!(infer.follow(plain), int_var);
    assert_eq!(infer.follow_int(int_var), u32_ty);
    assert_eq!(infer.follow_all(plain), u32_ty);
    assert_eq!(infer.resolve_real_ty(plain), u32_ty);
}

#[test]
fn a_generic_struct_literal_is_instantiated() {
    let mut checker = TypeChecker::new(TypedModule::new(TypeContext::new()), Vec::new(), Vec::new(), Vec::new(), ModuleId(0));
    let decl = Statement::Struct {
        token: tok("struct", 1, 1),
        name: ident("Cell", 8),
        fields: vec![Expression::TypeHint(ident("value", 14), Box::new(Expression::Ident(ident("T", 21))))],
        generics: vec![Expression::Ident(ident("T", 13))],
    };
    let build = Expression::BuildStruct(
        tok("Cell", 2, 1),
        ident("Cell", 1),
        vec![(ident("value", 8), Expression::UnknownTypeInt { token: tok("1", 2, 15), value: BigDecimal::from(1) })],
    );
    let program = Node::Program { token: tok("", 1, 1), statements: vec![decl, Statement::ExpressionStatement(build)] };
    let typed = checker.check_all(&program).unwrap();
    let modules = vec![Some(typed)];
    let infer_ctx = InferContext::new(checker.module);
    let mut infer = TypeInfer::new(infer_ctx, Vec::new(), Vec::new(), ModuleId(0));
    infer.infer(&modules).unwrap();
    let stmt_ty = match &modules[0] {
        Some(TypedNode::Program { statements, .. }) => infer.infer_ctx.module.get_stmt(statements[1]).unwrap().get_type(),
        None => unreachable!(),
    };
    let tcx = &infer.infer_ctx.module.tcx;
    assert_eq!(type_checker::display::display_ty(tcx.get(stmt_ty), tcx), "Cell<i32>");
}

#[test]
fn a_return_outside_a_function_still_has_a_type() {
    let mut checker = TypeChecker::new(TypedModule::new(TypeContext::new()), Vec::new(), Vec::new(), Vec::new(), ModuleId(0));
    let ret = Statement::Return { token: tok("return", 1, 1), expr: None };
    let program = Node::Program { token: tok("", 1, 1), statements: vec![ret] };
    let typed = checker.check_all(&program).unwrap();
    let modules = vec![Some(typed)];
    let infer_ctx = InferContext::new(checker.module);
    let mut infer = TypeInfer::new(infer_ctx, Vec::new(), Vec::new(), ModuleId(0));
    infer.infer(&modules).unwrap();
    let stmt_ty = match &modules[0] {
        Some(TypedNode::Program { statements, .. }) => infer.infer_ctx.module.get_stmt(statements[0]).unwrap().get_type(),
        None => unreachable!(),
    };
    assert!(matches!(infer.infer_ctx.module.tcx.get(stmt_ty), Ty::Unit));
}

#[test]
fn a_conjunction_has_the_bool_type() {
    let mut checker = TypeChecker::new(TypedModule::new(TypeContext::new()), Vec::new(), Vec::new(), Vec::new(), ModuleId(0));
    let both = Expression::BoolAnd {
        token: tok("&&", 1, 6),
        left: Box::new(Expression::Bool { token: tok("true", 1, 1), value: true }),
        right: Box::new(Expression::Bool { token: tok("false", 1, 9), value: false }),
    };
    let program = Node::Program { token: tok("", 1, 1), statements: vec![Statement::ExpressionStatement(both)] };
    let typed = checker.check_all(&program).unwrap();
    let modules = vec![Some(typed)];
    let infer_ctx = InferContext::new(checker.module);
    let mut infer = TypeInfer::new(infer_ctx, Vec::new(), Vec::new(), ModuleId(0));
    infer.infer(&modules).unwrap();
    let stmt_ty = match &modules[0] {
        Some(TypedNode::Program { statements, .. }) => infer.infer_ctx.module.get_stmt(statements[0]).unwrap().get_type(),
        None => unreachable!(),
    };
    assert!(matches!(infer.infer_ctx.module.tcx.get(stmt_ty), Ty::Bool));
}

#[test]
fn a_program_of_literal_statements_checks_and_infers() {
    let mut checker = TypeChecker::new(TypedModule::new(TypeContext::new()), Vec::new(), Vec::new(), Vec::new(), ModuleId(0));
    let stmts = vec![
        Statement::ExpressionStatement(Expression::Bool { token: tok("true", 1, 1), value: true }),
        Statement::ExpressionStatement(Expression::StrLiteral { token: tok("\"s\"", 2, 1), value: "s".to_string() }),
        Statement::Return { token: tok("return", 3, 1), expr: None },
    ];
    let program = Node::Program { token: tok("", 1, 1), statements: stmts };
    let typed = checker.check_all(&program).unwrap();
    let modules = vec![Some(typed)];
    let infer_ctx = InferContext::new(checker.module);
    let mut infer = TypeInfer::new(infer_ctx, Vec::new(), Vec::new(), ModuleId(0));
    assert!(infer.infer(&modules).is_ok());
}
