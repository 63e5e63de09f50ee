use bigdecimal::BigDecimal;
use indexmap::IndexMap;
use type_checker::ast::{Expression, Node, Statement};
use type_checker::checker::{DefSlot, GlobalDef, TypeChecker};
use type_checker::error::TypeCheckerErrorKind;
use type_checker::ids::{DefId, ModuleId};
use type_checker::infer::TypeInfer;
use type_checker::infer_context::InferContext;
use type_checker::module::TypedModule;
use type_checker::table::SymbolType;
use type_checker::token::{Token, TokenType};
use type_checker::ty::{IntTy, Ty};
use type_checker::ty_context::TypeContext;
use type_checker::typed_ast::{GetType, Ident, IntValue, TypedExpression, TypedStatement};

fn tok(file: &str, value: &str, kind: TokenType, line: usize, column: usize) -> Token {
    Token::new(value.to_string(), kind, file.to_string(), line, column)
}

fn ident(value: &str, column: usize) -> Ident {
    Ident { token: tok("__checker__", value, TokenType::Ident, 1, column), value: value.to_string() }
}

fn int_lit(v: i32, column: usize) -> Expression {
    Expression::Int { token: tok("__checker__", &v.to_string(), TokenType::Integer, 1, column), value: IntValue::I32(v) }
}

fn hint(name: &str, ty: &str) -> Expression {
    Expression::TypeHint(ident(name, 1), Box::new(Expression::Ident(ident(ty, 5))))
}

fn checker_with(tcx: TypeContext) -> TypeChecker {
    TypeChecker::new(TypedModule::new(tcx), Vec::new(), Vec::new(), Vec::new(), ModuleId(0))
}

#[test]
fn test_checker_var_get() {
    let file = "__test_checker_var_get__";

    let mut tcx = TypeContext::new();
    let bigint_id = tcx.alloc_type(Ty::BigInt);
    tcx.table.define_var("a", bigint_id);

    let mut checker = checker_with(tcx);

    let ident_raw = Ident { token: tok(file, "a", TokenType::Ident, 1, 1), value: "a".to_string() };
    let result = checker.check_expr(&Expression::Ident(ident_raw)).unwrap();

    let constraints = checker.get_constraints().to_vec();
    let infer_ctx = InferContext::new(checker.module);
    let mut type_infer = TypeInfer::new(infer_ctx, Vec::new(), Vec::new(), ModuleId(0));
    type_infer.unify_all(constraints).unwrap();
    type_infer.infer(&Vec::new()).unwrap();

    assert!(matches!(result, TypedExpression::Ident(..)));

    let (ident, ty) = match result {
        TypedExpression::Ident(it, ty, _) => (it, ty),
        _ => unreachable!(),
    };

    assert!(ident.value == "a");
    assert!(matches!(type_infer.infer_ctx.module.tcx.get(ty), Ty::BigInt));
}

#[test]
fn test_checker_var_def() {
    let file = "__test_checker_var_def__";

    let tcx = TypeContext::new();
    let mut checker = checker_with(tcx);

    let let_stmt_raw = Statement::Let {
        name: Ident { token: tok(file, "a", TokenType::Ident, 1, 5), value: "a".to_string() },
        value: Expression::UnknownTypeInt {
            token: tok(file, "1", TokenType::Integer, 1, 17),
            value: BigDecimal::from(1),
        },
        var_type: Some(Ident { token: tok(file, "BigInt", TokenType::Integer, 1, 8), value: "BigInt".to_string() }),
        token: tok(file, "let", TokenType::Let, 1, 1),
    };

    let result = checker.check_statement(&let_stmt_raw).unwrap();

    let constraints = checker.get_constraints().to_vec();
    let infer_ctx = InferContext::new(checker.module);
    let mut type_infer = TypeInfer::new(infer_ctx, Vec::new(), Vec::new(), ModuleId(0));
    type_infer.unify_all(constraints).unwrap();
    type_infer.infer(&Vec::new()).unwrap();

    assert!(matches!(result, TypedStatement::Let { .. }));

    let (ident, ty) = match result {
        TypedStatement::Let { name, ty, .. } => (name, ty),
        _ => unreachable!(),
    };

    let tcx = &type_infer.infer_ctx.module.tcx;
    assert!(ident.value == "a");
    assert!(matches!(tcx.get(ty), Ty::BigInt));

    let get_symbol_result = tcx.table.get("a");
    assert!(get_symbol_result.is_some());
    let symbol = get_symbol_result.unwrap();
    assert!(symbol.name == "a");
    let sym_ty = match symbol.ty {
        SymbolType::Variable(t) => t,
        SymbolType::Function(t) => t,
    };
    assert!(matches!(tcx.get(sym_ty), Ty::BigInt));
}

#[test]
fn unknown_name_is_variable_not_found() {
    let mut checker = checker_with(TypeContext::new());
    let err = checker.check_expr(&Expression::Ident(ident("nowhere", 3))).unwrap_err();
    assert_eq!(err.kind, TypeCheckerErrorKind::VariableNotFound);
    assert_eq!(err.token.value, "nowhere");
    assert!(err.message.is_none());
}

#[test]
fn let_with_unknown_type_is_type_not_found() {
    let mut checker = checker_with(TypeContext::new());
    let stmt = Statement::Let {
        token: tok("__checker__", "let", TokenType::Let, 1, 1),
        name: ident("a", 5),
        var_type: Some(ident("Nope", 8)),
        value: int_lit(1, 15),
    };
    let err = checker.check_statement(&stmt).unwrap_err();
    assert_eq!(err.kind, TypeCheckerErrorKind::TypeNotFound);
    assert_eq!(err.token.value, "Nope");
}

#[test]
fn unknown_type_name_message() {
    let mut checker = checker_with(TypeContext::new());
    let err = checker.lookup_type_by_name("Missing", tok("__checker__", "Missing", TokenType::Ident, 2, 4)).unwrap_err();
    assert_eq!(err.kind, TypeCheckerErrorKind::TypeNotFound);
    assert_eq!(err.message.unwrap(), "type `Missing` not found in this scope");
    let t = checker.lookup_type_by_name("i32", tok("__checker__", "i32", TokenType::Ident, 2, 4)).unwrap();
    assert!(matches!(checker.module.tcx.get(t), Ty::IntTy(IntTy::I32)));
}

#[test]
fn const_of_non_literal_is_not_a_constant() {
    let mut checker = checker_with(TypeContext::new());
    let value = Expression::Infix {
        token: tok("__checker__", "+", TokenType::Other, 1, 13),
        op: "+".to_string(),
        left: Box::new(int_lit(1, 11)),
        right: Box::new(int_lit(2, 15)),
    };
    let stmt = Statement::Const {
        token: tok("__checker__", "const", TokenType::Const, 1, 1),
        name: ident("C", 7),
        var_type: None,
        value,
    };
    let err = checker.check_statement(&stmt).unwrap_err();
    assert_eq!(err.kind, TypeCheckerErrorKind::NotAConstant);
    assert_eq!(err.message.unwrap(), "expression `+` is not a constant");
}

#[test]
fn comparison_gives_bool_and_arithmetic_keeps_left_type() {
    let mut checker = checker_with(TypeContext::new());
    let cmp = Expression::Infix {
        token: tok("__checker__", "<", TokenType::Other, 1, 3),
        op: "<".to_string(),
        left: Box::new(int_lit(1, 1)),
        right: Box::new(int_lit(2, 5)),
    };
    let t = checker.check_expr(&cmp).unwrap();
    assert!(matches!(checker.module.tcx.get(t.get_type()), Ty::Bool));
    let add = Expression::Infix {
        token: tok("__checker__", "+", TokenType::Other, 1, 3),
        op: "+".to_string(),
        left: Box::new(int_lit(1, 1)),
        right: Box::new(int_lit(2, 5)),
    };
    let t = checker.check_expr(&add).unwrap();
    assert!(matches!(checker.module.tcx.get(t.get_type()), Ty::IntTy(IntTy::I32)));
}

#[test]
fn struct_literal_and_field_access() {
    let mut checker = checker_with(TypeContext::new());
    let decl = Statement::Struct {
        token: tok("__checker__", "struct", TokenType::Other, 1, 1),
        name: ident("Point", 8),
        fields: vec![hint("x", "i32"), hint("y", "bool")],
        generics: Vec::new(),
    };
    let typed = checker.check_statement(&decl).unwrap();
    let struct_ty = typed.get_type();
    match checker.module.tcx.get(struct_ty) {
        Ty::Struct { name, fields, .. } => {
            assert_eq!(name, "Point");
            assert_eq!(fields.len(), 2);
            assert!(matches!(checker.module.tcx.get(*fields.get("x").unwrap()), Ty::IntTy(IntTy::I32)));
            assert!(matches!(checker.module.tcx.get(*fields.get("y").unwrap()), Ty::Bool));
        },
        other => panic!("not a struct: {:?}", other),
    }
    let build = Expression::BuildStruct(
        tok("__checker__", "Point", TokenType::Ident, 2, 1),
        ident("Point", 1),
        vec![(ident("x", 9), int_lit(3, 12)), (ident("y", 15), Expression::Bool { token: tok("__checker__", "true", TokenType::Other, 2, 18), value: true })],
    );
    let built = checker.check_expr(&build).unwrap();
    assert_eq!(built.get_type(), struct_ty);
    let bind = Statement::Let { token: tok("__checker__", "let", TokenType::Let, 3, 1), name: ident("p", 5), var_type: None, value: build };
    checker.check_statement(&bind).unwrap();
    let access = Expression::FieldAccess(tok("__checker__", ".", TokenType::Other, 4, 2), Box::new(Expression::Ident(ident("p", 1))), ident("y", 3));
    let got = checker.check_expr(&access).unwrap();
    assert!(matches!(checker.module.tcx.get(got.get_type()), Ty::Bool));
}

#[test]
fn field_access_on_non_struct_is_an_error() {
    let mut checker = checker_with(TypeContext::new());
    let access = Expression::FieldAccess(tok("__checker__", ".", TokenType::Other, 1, 2), Box::new(int_lit(1, 1)), ident("x", 3));
    assert!(checker.check_expr(&access).is_err());
}

fn crate_checker(statements: Vec<Statement>, globals: Vec<(&str, usize)>) -> TypeChecker {
    let n = statements.len();
    let defs: Vec<DefSlot> = (0..n)
        .map(|i| DefSlot { module_id: ModuleId(0), ast_index: i, ty: None, params: IndexMap::new(), struct_data: None })
        .collect();
    let globals: Vec<GlobalDef> = globals
        .into_iter()
        .map(|(name, d)| GlobalDef { module_id: ModuleId(0), name: name.to_string(), def_id: DefId(d) })
        .collect();
    let program = Node::Program { token: tok("__crate__", "", TokenType::Eof, 1, 1), statements };
    TypeChecker::new(TypedModule::new(TypeContext::new()), globals, defs, vec![Some(program)], ModuleId(0))
}

#[test]
fn a_constant_is_resolved_on_first_use() {
    let konst = Statement::Const {
        token: tok("__crate__", "const", TokenType::Const, 1, 1),
        name: ident("LIMIT", 7),
        var_type: None,
        value: int_lit(5, 15),
    };
    let mut checker = crate_checker(vec![konst], vec![("LIMIT", 0)]);
    let used = checker.check_expr(&Expression::Ident(ident("LIMIT", 1))).unwrap();
    let ty = used.get_type();
    assert!(matches!(checker.module.tcx.get(ty), Ty::IntTy(IntTy::I32)));
    assert_eq!(checker.defs[0].ty, Some(ty));
    match used {
        TypedExpression::Ident(_, _, def) => assert_eq!(def, Some(DefId(0))),
        _ => unreachable!(),
    }
    // A second resolution gives the recorded type back.
    assert_eq!(checker.resolve_def_type(DefId(0)).unwrap(), ty);
}

#[test]
fn constants_that_name_each_other_are_circular() {
    let a = Statement::Const {
        token: tok("__crate__", "const", TokenType::Const, 1, 1),
        name: ident("A", 7),
        var_type: None,
        value: Expression::Ident(ident("B", 11)),
    };
    let b = Statement::Const {
        token: tok("__crate__", "const", TokenType::Const, 2, 1),
        name: ident("B", 7),
        var_type: None,
        value: Expression::Ident(ident("A", 11)),
    };
    let mut checker = crate_checker(vec![a, b], vec![("A", 0), ("B", 1)]);
    let err = checker.fill_defs_ty().unwrap_err();
    assert_eq!(err.kind, TypeCheckerErrorKind::Other);
    assert_eq!(err.message.unwrap(), "circular dependency detected");
}

#[test]
fn function_and_struct_definitions_get_types() {
    let f = Statement::FuncDecl {
        token: tok("__crate__", "fn", TokenType::Other, 1, 1),
        name: tok("__crate__", "f", TokenType::Ident, 1, 4),
        params: vec![hint("x", "i32")],
        ret_ty: Some(Box::new(Expression::Ident(ident("bool", 20)))),
        generics_params: Vec::new(),
    };
    let s = Statement::Struct {
        token: tok("__crate__", "struct", TokenType::Other, 2, 1),
        name: ident("Wrapper", 8),
        fields: vec![hint("value", "T")],
        generics: vec![Expression::Ident(ident("T", 16))],
    };
    let e = Statement::Extern {
        token: tok("__crate__", "extern", TokenType::Other, 3, 1),
        abi: tok("__crate__", "\"C\"", TokenType::Str, 3, 8),
        extern_func_name: tok("__crate__", "puts", TokenType::Ident, 3, 15),
        alias: tok("__crate__", "c_puts", TokenType::Ident, 3, 25),
        params: vec![hint("s", "str")],
        ret_ty: None,
        vararg: true,
    };
    let mut checker = crate_checker(vec![f, s, e], vec![("f", 0), ("Wrapper", 1), ("c_puts", 2)]);
    checker.fill_defs_ty().unwrap();
    let tcx = &checker.module.tcx;
    let f_ty = checker.defs[0].ty.unwrap();
    assert_eq!(type_checker::display::display_ty(tcx.get(f_ty), tcx), "Fn(i32) -> bool");
    match tcx.get(checker.defs[1].ty.unwrap()) {
        Ty::Struct { name, generics, fields, .. } => {
            assert_eq!(name, "Wrapper");
            assert_eq!(generics, &vec!["T".to_string()]);
            assert!(matches!(tcx.get(*fields.get("value").unwrap()), Ty::Generic(..)));
        },
        other => panic!("not a struct: {:?}", other),
    }
    let e_ty = checker.defs[2].ty.unwrap();
    match tcx.get(e_ty) {
        Ty::Function { is_variadic, params_type, ret_type, .. } => {
            assert!(*is_variadic);
            assert_eq!(params_type.len(), 1);
            assert!(matches!(tcx.get(*ret_type), Ty::Unit));
        },
        other => panic!("not a function: {:?}", other),
    }
    // The generic parameter is no longer bound once the struct is resolved.
    assert!(tcx.table.get("T").is_none());
    // The external function's name is bound to its type.
    match tcx.table.get("c_puts").unwrap().ty {
        SymbolType::Variable(t) => assert_eq!(t, e_ty),
        SymbolType::Function(_) => panic!("bound as a function"),
    }
}

#[test]
fn a_trait_binds_its_name() {
    let mut checker = checker_with(TypeContext::new());
    let method = Statement::FuncDecl {
        token: tok("__checker__", "fn", TokenType::Other, 2, 5),
        name: tok("__checker__", "show", TokenType::Ident, 2, 8),
        params: Vec::new(),
        ret_ty: None,
        generics_params: Vec::new(),
    };
    let tr = Statement::Trait {
        token: tok("__checker__", "trait", TokenType::Other, 1, 1),
        name: ident("Show", 7),
        block: Box::new(Statement::Block { token: tok("__checker__", "{", TokenType::Other, 1, 12), statements: vec![method] }),
    };
    let typed = checker.check_statement(&tr).unwrap();
    match checker.module.tcx.get(typed.get_type()) {
        Ty::Trait { name, functions } => {
            assert_eq!(name, "Show");
            assert_eq!(functions.len(), 1);
        },
        other => panic!("not a trait: {:?}", other),
    }
    assert!(checker.module.tcx.table.get("Show").is_some());
    let bad = Statement::Trait {
        token: tok("__checker__", "trait", TokenType::Other, 1, 1),
        name: ident("Bad", 7),
        block: Box::new(Statement::Block {
            token: tok("__checker__", "{", TokenType::Other, 1, 12),
            statements: vec![Statement::ExpressionStatement(int_lit(1, 14))],
        }),
    };
    let err = checker.check_statement(&bad).unwrap_err();
    assert_eq!(err.kind, TypeCheckerErrorKind::Other);
}

#[test]
fn an_impl_block_adds_its_items_to_the_struct() {
    let mut checker = checker_with(TypeContext::new());
    let decl = Statement::Struct {
        token: tok("__checker__", "struct", TokenType::Other, 1, 1),
        name: ident("Counter", 8),
        fields: vec![hint("n", "i32")],
        generics: Vec::new(),
    };
    let struct_ty = checker.check_statement(&decl).unwrap().get_type();
    let tick = Statement::FuncDecl {
        token: tok("__checker__", "fn", TokenType::Other, 3, 5),
        name: tok("__checker__", "tick", TokenType::Ident, 3, 8),
        params: Vec::new(),
        ret_ty: None,
        generics_params: Vec::new(),
    };
    let imp = Statement::Impl {
        token: tok("__checker__", "impl", TokenType::Other, 2, 1),
        impl_: ident("Counter", 6),
        for_: None,
        block: Box::new(Statement::Block { token: tok("__checker__", "{", TokenType::Other, 2, 14), statements: vec![tick] }),
    };
    let typed = checker.check_statement(&imp).unwrap();
    assert!(matches!(checker.module.tcx.get(typed.get_type()), Ty::Unit));
    match &typed {
        TypedStatement::Impl { new_fields, .. } => assert_eq!(new_fields.len(), 0),
        _ => unreachable!(),
    }
    match checker.module.tcx.get(struct_ty) {
        Ty::Struct { fields, .. } => {
            assert_eq!(fields.len(), 2);
            assert!(matches!(checker.module.tcx.get(*fields.get("n").unwrap()), Ty::IntTy(IntTy::I32)));
            assert!(matches!(checker.module.tcx.get(*fields.get("tick").unwrap()), Ty::Function { .. }));
        },
        other => panic!("not a struct: {:?}", other),
    }
}

#[test]
fn an_impl_of_an_unknown_type_is_an_error() {
    let mut checker = checker_with(TypeContext::new());
    let imp = Statement::Impl {
        token: tok("__checker__", "impl", TokenType::Other, 1, 1),
        impl_: ident("Missing", 6),
        for_: None,
        block: Box::new(Statement::Block { token: tok("__checker__", "{", TokenType::Other, 1, 14), statements: Vec::new() }),
    };
    let err = checker.check_statement(&imp).unwrap_err();
    assert_eq!(err.kind, TypeCheckerErrorKind::TypeNotFound);
    assert_eq!(err.message.unwrap(), "cannot find type 'Missing' in this scope");
}

#[test]
fn an_impl_for_another_type_leaves_the_struct_alone() {
    let mut checker = checker_with(TypeContext::new());
    let decl = Statement::Struct {
        token: tok("__checker__", "struct", TokenType::Other, 1, 1),
        name: ident("Plain", 8),
        fields: vec![hint("a", "bool")],
        generics: Vec::new(),
    };
    let struct_ty = checker.check_statement(&decl).unwrap().get_type();
    let method = Statement::FuncDecl {
        token: tok("__checker__", "fn", TokenType::Other, 3, 5),
        name: tok("__checker__", "go", TokenType::Ident, 3, 8),
        params: Vec::new(),
        ret_ty: None,
        generics_params: Vec::new(),
    };
    let imp = Statement::Impl {
        token: tok("__checker__", "impl", TokenType::Other, 2, 1),
        impl_: ident("bool", 6),
        for_: Some(ident("Plain", 15)),
        block: Box::new(Statement::Block { token: tok("__checker__", "{", TokenType::Other, 2, 21), statements: vec![method] }),
    };
    let typed = checker.check_statement(&imp).unwrap();
    match &typed {
        TypedStatement::Impl { new_fields, .. } => assert_eq!(new_fields.len(), 1),
        _ => unreachable!(),
    }
    match checker.module.tcx.get(struct_ty) {
        Ty::Struct { fields, .. } => assert_eq!(fields.len(), 1),
        other => panic!("not a struct: {:?}", other),
    }
}

#[test]
fn checking_a_struct_records_its_fields_in_its_definition() {
    let decl = Statement::Struct {
        token: tok("__crate__", "struct", TokenType::Other, 1, 1),
        name: ident("Pos", 8),
        fields: vec![hint("line", "usize"), hint("col", "usize")],
        generics: Vec::new(),
    };
    let program = Node::Program { token: tok("__crate__", "", TokenType::Eof, 1, 1), statements: vec![decl] };
    let defs = vec![DefSlot {
        module_id: ModuleId(0),
        ast_index: 0,
        ty: None,
        params: IndexMap::new(),
        struct_data: Some((Vec::new(), IndexMap::new())),
    }];
    let globals = vec![GlobalDef { module_id: ModuleId(0), name: "Pos".to_string(), def_id: DefId(0) }];
    let root = Node::Program { token: tok("__crate__", "", TokenType::Eof, 1, 1), statements: Vec::new() };
    let mut checker = TypeChecker::new(TypedModule::new(TypeContext::new()), globals, defs, vec![Some(program)], ModuleId(1));
    checker.check_all(&root).unwrap();
    assert!(checker.typed_programs[0].is_some());
    let (generics, fields) = checker.defs[0].struct_data.as_ref().unwrap();
    assert!(generics.is_empty());
    assert_eq!(fields.len(), 2);
    assert!(fields.get("line").is_some());
    assert!(matches!(checker.module.tcx.get(checker.defs[0].ty.unwrap()), Ty::Struct { .. }));
}

#[test]
fn calling_a_literal_is_not_a_function() {
    let mut checker = checker_with(TypeContext::new());
    let call = Expression::Call {
        token: tok("__checker__", "(", TokenType::Other, 1, 2),
        func: Box::new(int_lit(3, 1)),
        args: vec![int_lit(4, 3)],
    };
    let err = checker.check_expr(&call).unwrap_err();
    assert_eq!(err.kind, TypeCheckerErrorKind::TypeMismatch);
    assert_eq!(err.token.value, "3");
    assert_eq!(err.message.unwrap(), "not a function");
}

#[test]
fn an_unknown_prefix_operator_is_reported() {
    let mut checker = checker_with(TypeContext::new());
    let prefix = Expression::Prefix {
        token: tok("__checker__", "~", TokenType::Other, 1, 1),
        op: "~".to_string(),
        right: Box::new(int_lit(1, 2)),
    };
    let err = checker.check_expr(&prefix).unwrap_err();
    assert_eq!(err.kind, TypeCheckerErrorKind::Other);
    assert_eq!(err.token.value, "~");
    assert_eq!(err.message.unwrap(), "unknown operator `~`");
}

#[test]
fn a_size_of_a_literal_is_a_usize() {
    let mut checker = checker_with(TypeContext::new());
    let e = Expression::SizeOf(tok("__checker__", "size_of", TokenType::Other, 1, 1), Box::new(int_lit(1, 9)));
    let typed = checker.check_expr(&e).unwrap();
    assert!(matches!(checker.module.tcx.get(typed.get_type()), Ty::IntTy(IntTy::USize)));
}

#[test]
fn a_type_path_is_not_a_type_expression() {
    let mut checker = checker_with(TypeContext::new());
    let path = Expression::TypePath {
        token: tok("__checker__", "Cell", TokenType::Ident, 1, 1),
        left: ident("Cell", 1),
        paths: vec![Expression::Ident(ident("i32", 6))],
    };
    let err = checker.check_type_expr(&path).unwrap_err();
    assert_eq!(err.kind, TypeCheckerErrorKind::Other);
    assert_eq!(err.token.value, "Cell");
    assert_eq!(err.message.unwrap(), "not a type expr");
}

#[test]
fn a_pointer_type_of_a_builtin_checks() {
    let mut checker = checker_with(TypeContext::new());
    let ptr = Expression::Prefix {
        token: tok("__checker__", "*", TokenType::Other, 1, 1),
        op: "*".to_string(),
        right: Box::new(Expression::Ident(ident("i32", 2))),
    };
    let typed = checker.check_type_expr(&ptr).unwrap();
    match checker.module.tcx.get(typed.get_type()) {
        Ty::Ptr(inner) => assert!(matches!(checker.module.tcx.get(*inner), Ty::IntTy(IntTy::I32))),
        other => panic!("expected a pointer type, got {:?}", other),
    }
}

#[test]
fn a_nested_comparison_of_literals_is_bool() {
    let mut checker = checker_with(TypeContext::new());
    let sum = Expression::Infix {
        token: tok("__checker__", "+", TokenType::Other, 1, 3),
        op: "+".to_string(),
        left: Box::new(int_lit(1, 1)),
        right: Box::new(int_lit(2, 5)),
    };
    let cmp = Expression::Infix {
        token: tok("__checker__", "<", TokenType::Other, 1, 7),
        op: "<".to_string(),
        left: Box::new(sum),
        right: Box::new(int_lit(4, 9)),
    };
    let typed = checker.check_expr(&cmp).unwrap();
    assert!(matches!(checker.module.tcx.get(typed.get_type()), Ty::Bool));
}
