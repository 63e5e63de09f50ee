//! How types are written out in messages.
use crate::ty::{float_ty_name, int_ty_name, strings_view, Ty, TyId};
use crate::ty_context::{TypeContext, types_wf, ty_parts_below, ids_below};
use vstd::prelude::*;

verus! {

/// The decimal digit character for `d < 10`.
pub open spec fn digit_char(d: nat) -> char {
    if d == 0 { '0' } else if d == 1 { '1' } else if d == 2 { '2' } else if d == 3 { '3' }
    else if d == 4 { '4' } else if d == 5 { '5' } else if d == 6 { '6' } else if d == 7 { '7' }
    else if d == 8 { '8' } else { '9' }
}

/// The decimal notation of `n`.
pub open spec fn decimal(n: nat) -> Seq<char>
    decreases n,
{
    if n < 10 {
        seq![digit_char(n)]
    } else {
        decimal(n / 10) + seq![digit_char(n % 10)]
    }
}

/// The parts joined with `sep` between each two.
pub open spec fn join(parts: Seq<Seq<char>>, sep: Seq<char>) -> Seq<char>
    decreases parts.len(),
{
    if parts.len() == 0 {
        Seq::empty()
    } else if parts.len() == 1 {
        parts[0]
    } else {
        join(parts.drop_last(), sep) + sep + parts.last()
    }
}

fn digit_string(d: usize) -> (s: String)
    requires
        d < 10,
    ensures
        s@ == seq![digit_char(d as nat)],
{
    proof {
        reveal_strlit("0");
        reveal_strlit("1");
        reveal_strlit("2");
        reveal_strlit("3");
        reveal_strlit("4");
        reveal_strlit("5");
        reveal_strlit("6");
        reveal_strlit("7");
        reveal_strlit("8");
        reveal_strlit("9");
    }
    let s = if d == 0 { "0" } else if d == 1 { "1" } else if d == 2 { "2" } else if d == 3 { "3" }
        else if d == 4 { "4" } else if d == 5 { "5" } else if d == 6 { "6" } else if d == 7 { "7" }
        else if d == 8 { "8" } else { "9" };
    let r = String::from_str(s);
    assert(r@ =~= seq![digit_char(d as nat)]);
    r
}

/// The decimal notation of `n`.
pub fn usize_to_string(n: usize) -> (s: String)
    ensures
        s@ == decimal(n as nat),
    decreases n,
{
    if n < 10 {
        digit_string(n)
    } else {
        let mut s = usize_to_string(n / 10);
        let d = digit_string(n % 10);
        s.append(d.as_str());
        s
    }
}

/// Joins the strings with `sep` between each two.
pub fn join_strings(parts: &Vec<String>, sep: &str) -> (s: String)
    ensures
        s@ == join(strings_view(parts@), sep@),
{
    let mut s = String::new();
    let ghost v = strings_view(parts@);
    let mut i: usize = 0;
    while i < parts.len()
        invariant
            0 <= i <= parts@.len(),
            v == strings_view(parts@),
            s@ == join(v.take(i as int), sep@),
        decreases parts@.len() - i,
    {
        proof {
            assert(v.take(i + 1).drop_last() =~= v.take(i as int));
            assert(v.take(i + 1).last() == parts@[i as int]@);
        }
        if i != 0 {
            s.append(sep);
        } else {
            assert(v.take(1) =~= seq![parts@[0]@]);
        }
        s.append(parts[i].as_str());
        i = i + 1;
    }
    assert(v.take(parts@.len() as int) =~= v);
    s
}

/// The text of a type alone: component types are shown by their ids.
pub open spec fn ty_text(ty: Ty) -> Seq<char> {
    match ty {
        Ty::Unknown => "unknown"@,
        Ty::Ptr(it) => "*"@ + decimal(it as nat),
        Ty::Infer(it) => "Infer("@ + decimal(it as nat) + ")"@,
        Ty::InferInt(it) => "InferInt("@ + decimal(it as nat) + ")"@,
        Ty::Generic(it, _) => it@,
        Ty::AppliedGeneric(it, _) => it@,
        Ty::BigInt => "BigInt"@,
        Ty::Str => "str"@,
        Ty::IntTy(it) => int_ty_name(it),
        Ty::FloatTy(it) => float_ty_name(it),
        Ty::Bool => "bool"@,
        Ty::Unit => "Unit"@,
        Ty::Struct { name, .. } => name@,
        Ty::Trait { name, .. } => name@,
        Ty::Function { params_type, ret_type, .. } =>
            "Fn("@ + join(params_type@.map_values(|p: TyId| decimal(p as nat)), ", "@) + ") -> "@ + decimal(ret_type as nat),
    }
}

/// The text of the type with id `id`, its component types written out in turn.
pub open spec fn display_id(types: Seq<Ty>, id: int) -> Seq<char>
    decreases id, 3int,
{
    if 0 <= id < types.len() {
        display_ty_spec(types, types[id], id)
    } else {
        Seq::empty()
    }
}

/// The text of the type with id `c`, if `c` is below `bound`.
pub open spec fn display_below(types: Seq<Ty>, c: int, bound: int) -> Seq<char>
    decreases bound, 0int,
{
    if 0 <= c < bound {
        display_id(types, c)
    } else {
        Seq::empty()
    }
}

/// The texts of the types with the given ids, each if below `bound`.
pub open spec fn display_ids(types: Seq<Ty>, ids: Seq<TyId>, bound: int) -> Seq<Seq<char>>
    decreases bound, 1int,
{
    Seq::new(ids.len(), |i: int| display_below(types, ids[i] as int, bound))
}

/// The text of a type, its component types (with ids below `bound`) written out in turn.
pub open spec fn display_ty_spec(types: Seq<Ty>, ty: Ty, bound: int) -> Seq<char>
    decreases bound, 2int,
{
    match ty {
        Ty::Unknown => "unknown"@,
        Ty::BigInt => "BigInt"@,
        Ty::Str => "str"@,
        Ty::FloatTy(it) => float_ty_name(it),
        Ty::IntTy(it) => int_ty_name(it),
        Ty::Bool => "bool"@,
        Ty::Unit => "Unit"@,
        Ty::Ptr(it) => "*"@ + display_below(types, it as int, bound),
        Ty::Infer(it) => "Infer("@ + decimal(it as nat) + ")"@,
        Ty::InferInt(it) => "InferInt("@ + decimal(it as nat) + ")"@,
        Ty::Generic(it, _) => it@,
        Ty::AppliedGeneric(it, args) => it@ + if args@.len() != 0 {
            "<"@ + join(display_ids(types, args@, bound), ", "@) + ">"@
        } else {
            Seq::empty()
        },
        Ty::Struct { name, generics, .. } => name@ + if generics@.len() != 0 {
            "<"@ + join(strings_view(generics@), ", "@) + ">"@
        } else {
            Seq::empty()
        },
        Ty::Trait { name, .. } => name@,
        Ty::Function { params_type, ret_type, .. } =>
            "Fn("@ + join(display_ids(types, params_type@, bound), ", "@) + ") -> "@ + display_below(types, ret_type as int, bound),
    }
}

impl Ty {
    /// The text of the type alone, component types shown by their ids.
    pub fn to_display_string(&self) -> (s: String)
        ensures
            s@ == ty_text(*self),
    {
        match self {
            Ty::Unknown => String::from_str("unknown"),
            Ty::Ptr(it) => {
                let mut s = String::from_str("*");
                let d = usize_to_string(*it);
                s.append(d.as_str());
                s
            },
            Ty::Infer(it) => {
                let mut s = String::from_str("Infer(");
                let d = usize_to_string(*it);
                s.append(d.as_str());
                s.append(")");
                s
            },
            Ty::InferInt(it) => {
                let mut s = String::from_str("InferInt(");
                let d = usize_to_string(*it);
                s.append(d.as_str());
                s.append(")");
                s
            },
            Ty::Generic(it, _) => it.clone(),
            Ty::AppliedGeneric(it, _) => it.clone(),
            Ty::BigInt => String::from_str("BigInt"),
            Ty::Str => String::from_str("str"),
            Ty::IntTy(it) => it.to_display_string(),
            Ty::FloatTy(it) => it.to_display_string(),
            Ty::Bool => String::from_str("bool"),
            Ty::Unit => String::from_str("Unit"),
            Ty::Struct { name, .. } => name.clone(),
            Ty::Trait { name, .. } => name.clone(),
            Ty::Function { params_type, ret_type, .. } => {
                let mut parts: Vec<String> = Vec::new();
                let mut i: usize = 0;
                while i < params_type.len()
                    invariant
                        0 <= i <= params_type@.len(),
                        parts@.len() == i,
                        forall|j: int| 0 <= j < i ==> #[trigger] parts@[j]@ == decimal(params_type@[j] as nat),
                    decreases params_type@.len() - i,
                {
                    parts.push(usize_to_string(params_type[i]));
                    i = i + 1;
                }
                assert(strings_view(parts@) =~= params_type@.map_values(|p: TyId| decimal(p as nat)));
                let mut s = String::from_str("Fn(");
                let joined = join_strings(&parts, ", ");
                s.append(joined.as_str());
                s.append(") -> ");
                let r = usize_to_string(*ret_type);
                s.append(r.as_str());
                s
            },
        }
    }
}

/// The text of the type with id `id` in `tcx`.
fn display_id_exec(id: TyId, tcx: &TypeContext) -> (s: String)
    requires
        types_wf(tcx.types@),
        id < tcx.types@.len(),
    ensures
        s@ == display_id(tcx.types@, id as int),
    decreases id, 3int,
{
    let ty = tcx.get(id);
    assert(ty_parts_below(tcx.types@[id as int], id as int));
    display_bounded(ty, tcx, id)
}

/// The displayed texts of the types with the given ids.
fn display_list(ids: &Vec<TyId>, tcx: &TypeContext, bound: TyId) -> (parts: Vec<String>)
    requires
        types_wf(tcx.types@),
        bound <= tcx.types@.len(),
        ids_below(ids@, bound as int),
    ensures
        strings_view(parts@) == display_ids(tcx.types@, ids@, bound as int),
    decreases bound, 1int,
{
    let mut parts: Vec<String> = Vec::new();
    let mut i: usize = 0;
    while i < ids.len()
        invariant
            0 <= i <= ids@.len(),
            types_wf(tcx.types@),
            bound <= tcx.types@.len(),
            ids_below(ids@, bound as int),
            parts@.len() == i,
            forall|j: int| 0 <= j < i ==> #[trigger] parts@[j]@ == display_id(tcx.types@, ids@[j] as int),
        decreases ids@.len() - i,
    {
        assert(ids@[i as int] < bound);
        parts.push(display_id_exec(ids[i], tcx));
        i = i + 1;
    }
    assert(strings_view(parts@) =~= display_ids(tcx.types@, ids@, bound as int));
    parts
}

fn display_bounded(ty: &Ty, tcx: &TypeContext, bound: TyId) -> (s: String)
    requires
        types_wf(tcx.types@),
        bound <= tcx.types@.len(),
        ty_parts_below(*ty, bound as int),
    ensures
        s@ == display_ty_spec(tcx.types@, *ty, bound as int),
    decreases bound, 2int,
{
    match ty {
        Ty::Unknown => {
            assert(display_ty_spec(tcx.types@, *ty, bound as int) == "unknown"@);
            String::from_str("unknown")
        },
        Ty::BigInt => String::from_str("BigInt"),
        Ty::Str => String::from_str("str"),
        Ty::FloatTy(it) => it.to_display_string(),
        Ty::IntTy(it) => it.to_display_string(),
        Ty::Bool => String::from_str("bool"),
        Ty::Unit => String::from_str("Unit"),
        Ty::Ptr(it) => {
            let mut s = String::from_str("*");
            let inner = display_id_exec(*it, tcx);
            s.append(inner.as_str());
            assert(s@ =~= display_ty_spec(tcx.types@, *ty, bound as int));
            s
        },
        Ty::Infer(it) => {
            let mut s = String::from_str("Infer(");
            let d = usize_to_string(*it);
            s.append(d.as_str());
            s.append(")");
            assert(s@ =~= display_ty_spec(tcx.types@, *ty, bound as int));
            s
        },
        Ty::InferInt(it) => {
            let mut s = String::from_str("InferInt(");
            let d = usize_to_string(*it);
            s.append(d.as_str());
            s.append(")");
            assert(s@ =~= display_ty_spec(tcx.types@, *ty, bound as int));
            s
        },
        Ty::Generic(it, _) => it.clone(),
        Ty::AppliedGeneric(it, args) => {
            let mut s = it.clone();
            assert(it@ + Seq::<char>::empty() =~= it@);
            if args.len() != 0 {
                let parts = display_list(args, tcx, bound);
                s.append("<");
                let joined = join_strings(&parts, ", ");
                s.append(joined.as_str());
                s.append(">");
            }
            assert(s@ =~= display_ty_spec(tcx.types@, *ty, bound as int));
            s
        },
        Ty::Struct { name, generics, .. } => {
            let mut s = name.clone();
            assert(name@ + Seq::<char>::empty() =~= name@);
            if generics.len() != 0 {
                s.append("<");
                let joined = join_strings(generics, ", ");
                s.append(joined.as_str());
                s.append(">");
            }
            assert(s@ =~= display_ty_spec(tcx.types@, *ty, bound as int));
            s
        },
        Ty::Trait { name, .. } => name.clone(),
        Ty::Function { params_type, ret_type, .. } => {
            let parts = display_list(params_type, tcx, bound);
            let mut s = String::from_str("Fn(");
            let joined = join_strings(&parts, ", ");
            s.append(joined.as_str());
            s.append(") -> ");
            let r = display_id_exec(*ret_type, tcx);
            s.append(r.as_str());
            assert(s@ =~= display_ty_spec(tcx.types@, *ty, bound as int));
            s
        },
    }
}

/// The text of a type, its component types written out in turn.
pub fn display_ty(ty: &Ty, tcx: &TypeContext) -> (s: String)
    requires
        types_wf(tcx.types@),
        ty_parts_below(*ty, tcx.types@.len() as int),
    ensures
        s@ == display_ty_spec(tcx.types@, *ty, tcx.types@.len() as int),
{
    display_bounded(ty, tcx, tcx.types.len())
}

} // verus!
