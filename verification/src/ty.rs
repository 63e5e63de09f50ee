use crate::imap::{entries_same_map, name_map_entries, name_map_eq, NameMap};
use vstd::prelude::*;

verus! {

/// Index of a type in a type context.
pub type TyId = usize;

/// The width in bits of a pointer on this machine.
pub fn get_platform_width() -> (w: usize)
    ensures
        w == usize::BITS,
{
    usize::BITS as usize
}

/// The fixed-width integer types.
#[derive(Clone, Copy, Debug, PartialEq, Eq, Structural)]
pub enum IntTy {
    ISize,
    I64,
    I32,
    I16,
    I8,
    USize,
    U64,
    U32,
    U16,
    U8,
}

/// The floating-point types.
#[derive(Clone, Copy, Debug, PartialEq, Eq, Structural)]
pub enum FloatTy {
    F32,
    F64,
}

/// Whether an integer type is signed.
pub open spec fn int_ty_signed(t: IntTy) -> bool {
    t is ISize || t is I64 || t is I32 || t is I16 || t is I8
}

/// The size in bytes of an integer type.
pub open spec fn int_ty_bytes(t: IntTy) -> int {
    match t {
        IntTy::I8 | IntTy::U8 => 1,
        IntTy::I16 | IntTy::U16 => 2,
        IntTy::I32 | IntTy::U32 => 4,
        IntTy::I64 | IntTy::U64 => 8,
        IntTy::ISize | IntTy::USize => (usize::BITS / 8) as int,
    }
}

/// The source name of an integer type.
pub open spec fn int_ty_name(t: IntTy) -> Seq<char> {
    match t {
        IntTy::I64 => "i64"@,
        IntTy::I32 => "i32"@,
        IntTy::I16 => "i16"@,
        IntTy::I8 => "i8"@,
        IntTy::U64 => "u64"@,
        IntTy::U32 => "u32"@,
        IntTy::U16 => "u16"@,
        IntTy::U8 => "u8"@,
        IntTy::ISize => "isize"@,
        IntTy::USize => "usize"@,
    }
}

/// The source name of a floating-point type.
pub open spec fn float_ty_name(t: FloatTy) -> Seq<char> {
    match t {
        FloatTy::F32 => "f32"@,
        FloatTy::F64 => "f64"@,
    }
}

impl IntTy {
    pub fn is_signed(&self) -> (r: bool)
        ensures
            r == int_ty_signed(*self),
    {
        match self {
            IntTy::ISize | IntTy::I64 | IntTy::I32 | IntTy::I16 | IntTy::I8 => true,
            _ => false,
        }
    }

    pub fn get_bytes_size(&self) -> (r: usize)
        ensures
            r == int_ty_bytes(*self),
    {
        match self {
            IntTy::I8 | IntTy::U8 => 1,
            IntTy::I16 | IntTy::U16 => 2,
            IntTy::I32 | IntTy::U32 => 4,
            IntTy::I64 | IntTy::U64 => 8,
            IntTy::ISize | IntTy::USize => get_platform_width() / 8,
        }
    }

    /// The source name, as the type is written and displayed.
    pub fn to_display_string(&self) -> (s: String)
        ensures
            s@ == int_ty_name(*self),
    {
        match self {
            IntTy::I64 => String::from_str("i64"),
            IntTy::I32 => String::from_str("i32"),
            IntTy::I16 => String::from_str("i16"),
            IntTy::I8 => String::from_str("i8"),
            IntTy::U64 => String::from_str("u64"),
            IntTy::U32 => String::from_str("u32"),
            IntTy::U16 => String::from_str("u16"),
            IntTy::U8 => String::from_str("u8"),
            IntTy::ISize => String::from_str("isize"),
            IntTy::USize => String::from_str("usize"),
        }
    }
}

impl FloatTy {
    /// The source name, as the type is written and displayed.
    pub fn to_display_string(&self) -> (s: String)
        ensures
            s@ == float_ty_name(*self),
    {
        match self {
            FloatTy::F32 => String::from_str("f32"),
            FloatTy::F64 => String::from_str("f64"),
        }
    }
}

/// The type a type name written in source denotes, for the names of the string, integer
/// and big integer types.
pub open spec fn named_ty(name: Seq<char>) -> Option<Ty> {
    if name == "str"@ {
        Some(Ty::Str)
    } else if name == "i64"@ {
        Some(Ty::IntTy(IntTy::I64))
    } else if name == "i32"@ {
        Some(Ty::IntTy(IntTy::I32))
    } else if name == "i16"@ {
        Some(Ty::IntTy(IntTy::I16))
    } else if name == "i8"@ {
        Some(Ty::IntTy(IntTy::I8))
    } else if name == "u64"@ {
        Some(Ty::IntTy(IntTy::U64))
    } else if name == "u32"@ {
        Some(Ty::IntTy(IntTy::U32))
    } else if name == "u16"@ {
        Some(Ty::IntTy(IntTy::U16))
    } else if name == "u8"@ {
        Some(Ty::IntTy(IntTy::U8))
    } else if name == "usize"@ {
        Some(Ty::IntTy(IntTy::USize))
    } else if name == "isize"@ {
        Some(Ty::IntTy(IntTy::ISize))
    } else if name == "BigInt"@ {
        Some(Ty::BigInt)
    } else {
        None
    }
}

/// The type the name `ty_str` denotes (see `named_ty`), if it names one.
pub fn str_to_ty(ty_str: &str) -> (r: Option<Ty>)
    ensures
        r == named_ty(ty_str@),
{
    proof {
        reveal_strlit("str");
        reveal_strlit("i64");
        reveal_strlit("i32");
        reveal_strlit("i16");
        reveal_strlit("i8");
        reveal_strlit("u64");
        reveal_strlit("u32");
        reveal_strlit("u16");
        reveal_strlit("u8");
        reveal_strlit("usize");
        reveal_strlit("isize");
        reveal_strlit("BigInt");
    }
    if str_eq(ty_str, "str") {
        Some(Ty::Str)
    } else if str_eq(ty_str, "i64") {
        Some(Ty::IntTy(IntTy::I64))
    } else if str_eq(ty_str, "i32") {
        Some(Ty::IntTy(IntTy::I32))
    } else if str_eq(ty_str, "i16") {
        Some(Ty::IntTy(IntTy::I16))
    } else if str_eq(ty_str, "i8") {
        Some(Ty::IntTy(IntTy::I8))
    } else if str_eq(ty_str, "u64") {
        Some(Ty::IntTy(IntTy::U64))
    } else if str_eq(ty_str, "u32") {
        Some(Ty::IntTy(IntTy::U32))
    } else if str_eq(ty_str, "u16") {
        Some(Ty::IntTy(IntTy::U16))
    } else if str_eq(ty_str, "u8") {
        Some(Ty::IntTy(IntTy::U8))
    } else if str_eq(ty_str, "usize") {
        Some(Ty::IntTy(IntTy::USize))
    } else if str_eq(ty_str, "isize") {
        Some(Ty::IntTy(IntTy::ISize))
    } else if str_eq(ty_str, "BigInt") {
        Some(Ty::BigInt)
    } else {
        None
    }
}

/// A type. Types refer to their component types by their ids in a type context.
#[derive(Debug)]
pub enum Ty {
    BigInt,
    Function { generics: Vec<String>, params_type: Vec<TyId>, ret_type: TyId, is_variadic: bool },
    Struct { name: String, generics: Vec<String>, fields: NameMap, impl_traits: NameMap },
    Trait { name: String, functions: NameMap },
    /// A generic parameter, with the traits it is bound by.
    Generic(String, Vec<TyId>),
    /// A generic struct applied to type arguments.
    AppliedGeneric(String, Vec<TyId>),
    /// A type variable to be inferred.
    Infer(usize),
    /// An integer type variable to be inferred.
    InferInt(usize),
    IntTy(IntTy),
    FloatTy(FloatTy),
    Ptr(TyId),
    Bool,
    Unit,
    Str,
    Unknown,
}

/// The characters of each string.
pub open spec fn strings_view(v: Seq<String>) -> Seq<Seq<char>> {
    v.map_values(|s: String| s@)
}

/// Type equality as `==` on types decides it: component ids, names and generic names must
/// match in order, while field, trait and function maps are compared as maps.
pub open spec fn ty_equiv(a: Ty, b: Ty) -> bool {
    match (a, b) {
        (Ty::BigInt, Ty::BigInt) => true,
        (
            Ty::Function { generics: g1, params_type: p1, ret_type: r1, is_variadic: v1 },
            Ty::Function { generics: g2, params_type: p2, ret_type: r2, is_variadic: v2 },
        ) => strings_view(g1@) == strings_view(g2@) && p1@ == p2@ && r1 == r2 && v1 == v2,
        (
            Ty::Struct { name: n1, generics: g1, fields: f1, impl_traits: i1 },
            Ty::Struct { name: n2, generics: g2, fields: f2, impl_traits: i2 },
        ) => n1@ == n2@ && strings_view(g1@) == strings_view(g2@)
            && entries_same_map(name_map_entries(f1), name_map_entries(f2))
            && entries_same_map(name_map_entries(i1), name_map_entries(i2)),
        (Ty::Trait { name: n1, functions: f1 }, Ty::Trait { name: n2, functions: f2 }) =>
            n1@ == n2@ && entries_same_map(name_map_entries(f1), name_map_entries(f2)),
        (Ty::Generic(n1, a1), Ty::Generic(n2, a2)) => n1@ == n2@ && a1@ == a2@,
        (Ty::AppliedGeneric(n1, a1), Ty::AppliedGeneric(n2, a2)) => n1@ == n2@ && a1@ == a2@,
        (Ty::Infer(x), Ty::Infer(y)) => x == y,
        (Ty::InferInt(x), Ty::InferInt(y)) => x == y,
        (Ty::IntTy(x), Ty::IntTy(y)) => x == y,
        (Ty::FloatTy(x), Ty::FloatTy(y)) => x == y,
        (Ty::Ptr(x), Ty::Ptr(y)) => x == y,
        (Ty::Bool, Ty::Bool) => true,
        (Ty::Unit, Ty::Unit) => true,
        (Ty::Str, Ty::Str) => true,
        (Ty::Unknown, Ty::Unknown) => true,
        _ => false,
    }
}

/// Whether two strings have the same characters.
pub fn str_eq(a: &str, b: &str) -> (r: bool)
    ensures
        r == (a@ == b@),
{
    let x = String::from_str(a);
    let y = String::from_str(b);
    x == y
}

/// Whether two lists of names are equal, name by name.
pub fn strings_eq(a: &Vec<String>, b: &Vec<String>) -> (r: bool)
    ensures
        r == (strings_view(a@) == strings_view(b@)),
{
    if a.len() != b.len() {
        assert(strings_view(a@).len() != strings_view(b@).len());
        return false;
    }
    let mut i: usize = 0;
    while i < a.len()
        invariant
            a.len() == b.len(),
            0 <= i <= a.len(),
            forall|j: int| 0 <= j < i ==> a@[j]@ == b@[j]@,
        decreases a.len() - i,
    {
        if !(a[i] == b[i]) {
            assert(strings_view(a@)[i as int] != strings_view(b@)[i as int]);
            return false;
        }
        i = i + 1;
    }
    assert(strings_view(a@) =~= strings_view(b@));
    true
}

/// Whether two lists of type ids are equal.
pub fn ids_eq(a: &Vec<TyId>, b: &Vec<TyId>) -> (r: bool)
    ensures
        r == (a@ == b@),
{
    if a.len() != b.len() {
        return false;
    }
    let mut i: usize = 0;
    while i < a.len()
        invariant
            a.len() == b.len(),
            0 <= i <= a.len(),
            forall|j: int| 0 <= j < i ==> a@[j] == b@[j],
        decreases a.len() - i,
    {
        if a[i] != b[i] {
            return false;
        }
        i = i + 1;
    }
    assert(a@ =~= b@);
    true
}

/// A copy of a list of type ids.
pub fn ids_copy(a: &Vec<TyId>) -> (r: Vec<TyId>)
    ensures
        r@ == a@,
{
    let mut r: Vec<TyId> = Vec::new();
    let mut i: usize = 0;
    while i < a.len()
        invariant
            0 <= i <= a.len(),
            r@ == a@.take(i as int),
        decreases a.len() - i,
    {
        r.push(a[i]);
        i = i + 1;
        assert(r@ =~= a@.take(i as int));
    }
    assert(a@.take(a.len() as int) =~= a@);
    r
}

/// A copy of a list of names.
pub fn strings_copy(a: &Vec<String>) -> (r: Vec<String>)
    ensures
        r@ == a@,
{
    let mut r: Vec<String> = Vec::new();
    let mut i: usize = 0;
    while i < a.len()
        invariant
            0 <= i <= a.len(),
            r@ == a@.take(i as int),
        decreases a.len() - i,
    {
        r.push(a[i].clone());
        i = i + 1;
        assert(r@ =~= a@.take(i as int));
    }
    assert(a@.take(a.len() as int) =~= a@);
    r
}

/// `==` on types.
pub fn ty_eq(a: &Ty, b: &Ty) -> (r: bool)
    ensures
        r == ty_equiv(*a, *b),
{
    match (a, b) {
        (Ty::BigInt, Ty::BigInt) => true,
        (
            Ty::Function { generics: g1, params_type: p1, ret_type: r1, is_variadic: v1 },
            Ty::Function { generics: g2, params_type: p2, ret_type: r2, is_variadic: v2 },
        ) => strings_eq(g1, g2) && ids_eq(p1, p2) && *r1 == *r2 && *v1 == *v2,
        (
            Ty::Struct { name: n1, generics: g1, fields: f1, impl_traits: i1 },
            Ty::Struct { name: n2, generics: g2, fields: f2, impl_traits: i2 },
        ) => *n1 == *n2 && strings_eq(g1, g2) && name_map_eq(f1, f2) && name_map_eq(i1, i2),
        (Ty::Trait { name: n1, functions: f1 }, Ty::Trait { name: n2, functions: f2 }) =>
            *n1 == *n2 && name_map_eq(f1, f2),
        (Ty::Generic(n1, a1), Ty::Generic(n2, a2)) => *n1 == *n2 && ids_eq(a1, a2),
        (Ty::AppliedGeneric(n1, a1), Ty::AppliedGeneric(n2, a2)) => *n1 == *n2 && ids_eq(a1, a2),
        (Ty::Infer(x), Ty::Infer(y)) => *x == *y,
        (Ty::InferInt(x), Ty::InferInt(y)) => *x == *y,
        (Ty::IntTy(x), Ty::IntTy(y)) => *x == *y,
        (Ty::FloatTy(x), Ty::FloatTy(y)) => *x == *y,
        (Ty::Ptr(x), Ty::Ptr(y)) => *x == *y,
        (Ty::Bool, Ty::Bool) => true,
        (Ty::Unit, Ty::Unit) => true,
        (Ty::Str, Ty::Str) => true,
        (Ty::Unknown, Ty::Unknown) => true,
        _ => false,
    }
}

} // verus!
