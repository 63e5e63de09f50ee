use indexmap::IndexMap;
use type_checker::error::TypeCheckerErrorKind;
use type_checker::display::display_ty;
use type_checker::ty::{FloatTy, IntTy, Ty};
use type_checker::ty_context::TypeContext;

fn expected_ty_display(ty: &Ty, expected: &str) {
    assert_eq!(ty.to_display_string(), expected);
}

#[test]
fn expected_ty_displays() {
    let cases = vec![
        (Ty::BigInt, "BigInt"),
        (Ty::IntTy(IntTy::I64), "i64"),
        (Ty::IntTy(IntTy::I32), "i32"),
        (Ty::IntTy(IntTy::I16), "i16"),
        (Ty::IntTy(IntTy::I8), "i8"),
        (Ty::IntTy(IntTy::U64), "u64"),
        (Ty::IntTy(IntTy::U32), "u32"),
        (Ty::IntTy(IntTy::U16), "u16"),
        (Ty::IntTy(IntTy::U8), "u8"),
        (Ty::IntTy(IntTy::USize), "usize"),
        (Ty::IntTy(IntTy::ISize), "isize"),
        (Ty::BigInt, "BigInt"),
        (
            Ty::Struct {
                name: "CialloInfo".to_string(),
                generics: Vec::new(),
                fields: IndexMap::new(),
                impl_traits: IndexMap::new(),
            },
            "CialloInfo",
        ),
    ];

    for (ty, expected) in cases {
        expected_ty_display(&ty, expected);
    }
}

#[test]
fn simple_types_display_by_name() {
    expected_ty_display(&Ty::Bool, "bool");
    expected_ty_display(&Ty::Str, "str");
    expected_ty_display(&Ty::Unit, "Unit");
    expected_ty_display(&Ty::Unknown, "unknown");
    expected_ty_display(&Ty::FloatTy(FloatTy::F64), "f64");
    expected_ty_display(&Ty::Infer(3), "Infer(3)");
    expected_ty_display(&Ty::InferInt(12), "InferInt(12)");
    expected_ty_display(&Ty::Ptr(7), "*7");
}

#[test]
fn generic_struct_displays_its_parameters_in_context() {
    let ty = Ty::Struct {
        name: "Pair".to_string(),
        generics: vec!["A".to_string(), "B".to_string()],
        fields: IndexMap::new(),
        impl_traits: IndexMap::new(),
    };
    expected_ty_display(&ty, "Pair");
    let tcx = TypeContext::new();
    assert_eq!(display_ty(&ty, &tcx), "Pair<A, B>");
}

#[test]
fn int_type_sizes_and_signs() {
    assert_eq!(IntTy::I8.get_bytes_size(), 1);
    assert_eq!(IntTy::U16.get_bytes_size(), 2);
    assert_eq!(IntTy::I32.get_bytes_size(), 4);
    assert_eq!(IntTy::U64.get_bytes_size(), 8);
    assert_eq!(IntTy::USize.get_bytes_size(), std::mem::size_of::<usize>());
    assert!(IntTy::I64.is_signed());
    assert!(!IntTy::U8.is_signed());
}

#[test]
fn error_kinds_display() {
    assert_eq!(TypeCheckerErrorKind::TypeMismatch.to_display_string(), "type mismatch");
    assert_eq!(TypeCheckerErrorKind::VariableNotFound.to_display_string(), "variable not found");
}

#[test]
fn type_names_parse() {
    assert!(matches!(type_checker::ty::str_to_ty("u8"), Some(Ty::IntTy(IntTy::U8))));
    assert!(matches!(type_checker::ty::str_to_ty("isize"), Some(Ty::IntTy(IntTy::ISize))));
    assert!(matches!(type_checker::ty::str_to_ty("str"), Some(Ty::Str)));
    assert!(matches!(type_checker::ty::str_to_ty("BigInt"), Some(Ty::BigInt)));
    assert!(type_checker::ty::str_to_ty("bool").is_none());
    assert!(type_checker::ty::str_to_ty("Point").is_none());
}

#[test]
fn a_new_context_holds_exactly_the_builtin_types_in_order() {
    let tcx = type_checker::ty_context::TypeContext::new();
    assert_eq!(tcx.types.len(), 14);
    assert!(matches!(tcx.get(0), type_checker::ty::Ty::Str));
    assert!(matches!(tcx.get(1), type_checker::ty::Ty::BigInt));
    assert!(matches!(tcx.get(13), type_checker::ty::Ty::IntTy(type_checker::ty::IntTy::USize)));
}
