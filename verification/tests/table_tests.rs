use type_checker::table::{SymbolType, TypeTable};
use type_checker::ty::Ty;
use type_checker::ty_context::TypeContext;

#[test]
fn a_defined_name_is_found_until_removed() {
    let mut table = TypeTable::new();
    assert!(table.get("a").is_none());
    table.define_var("a", 4);
    let sym = table.get("a").unwrap();
    assert_eq!(sym.name, "a");
    assert!(matches!(sym.ty, SymbolType::Variable(4)));
    table.define_var("a", 9);
    assert!(matches!(table.get("a").unwrap().ty, SymbolType::Variable(9)));
    table.remove("a");
    assert!(table.get("a").is_none());
}

#[test]
fn an_inner_scope_shadows_and_then_uncovers() {
    let mut outer = TypeTable::new();
    outer.define_var("x", 1);
    outer.define_var("y", 2);
    let mut inner = TypeTable::with_outer(outer);
    assert!(matches!(inner.get("x").unwrap().ty, SymbolType::Variable(1)));
    inner.define_var("x", 3);
    assert!(matches!(inner.get("x").unwrap().ty, SymbolType::Variable(3)));
    assert!(matches!(inner.get("y").unwrap().ty, SymbolType::Variable(2)));
    inner.remove("x");
    assert!(matches!(inner.get("x").unwrap().ty, SymbolType::Variable(1)));
}

#[test]
fn allocating_an_equal_type_gives_the_same_id() {
    let mut tcx = TypeContext::new();
    let a = tcx.alloc_type(Ty::Ptr(0));
    let n = tcx.types.len();
    let b = tcx.alloc_type(Ty::Ptr(0));
    assert_eq!(a, b);
    assert_eq!(tcx.types.len(), n);
    let c = tcx.alloc_type(Ty::Ptr(1));
    assert_ne!(a, c);
    assert_eq!(tcx.types.len(), n + 1);
}

#[test]
fn builtin_names_are_bound() {
    let tcx = TypeContext::new();
    for name in ["i64", "i32", "i16", "i8", "isize", "u64", "u32", "u16", "u8", "usize", "bool", "str", "BigInt"] {
        let sym = tcx.table.get(name).unwrap();
        let id = match sym.ty {
            SymbolType::Variable(t) => t,
            SymbolType::Function(t) => t,
        };
        assert_eq!(tcx.get(id).to_display_string(), name);
    }
}
