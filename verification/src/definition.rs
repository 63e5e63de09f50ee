//! What a crate defines: modules, structs, functions, traits and constants.
use indexmap::IndexMap;
use crate::ids::{DefId, ExprId, ModuleId};
use crate::imap::NameMap;
use crate::ty::TyId;
use vstd::prelude::*;

verus! {

/// Whether a definition can be seen from other modules.
#[derive(Debug, Clone, Copy, PartialEq, Eq, Structural)]
pub enum Visibility {
    Public,
    Private,
}

/// A definition of a crate.
#[derive(Debug)]
pub enum Def {
    Module(ModuleData),
    Struct(StructData),
    Function(FunctionData),
    Trait(TraitData),
    Constant(ConstantData),
}

/// A module: its name, its parent, and its full path, itself included.
#[derive(Debug)]
pub struct ModuleData {
    pub name: String,
    pub parent: Option<ModuleId>,
    pub path: Vec<String>,
}

/// A struct: its generic parameters and its fields with their types, in order.
#[derive(Debug)]
pub struct StructData {
    pub name: String,
    pub vis: Visibility,
    pub module_id: ModuleId,
    pub generics: Vec<String>,
    pub fields: NameMap,
}

/// A function; an external function has no body.
#[derive(Debug)]
pub struct FunctionData {
    pub name: String,
    pub vis: Visibility,
    pub module_id: ModuleId,
    pub generics: Vec<String>,
    pub params: Vec<TyId>,
    pub ret_ty: TyId,
    pub is_variadic: bool,
    pub body: Option<ExprId>,
}

/// A trait, with the function definition of each of its methods.
#[derive(Debug)]
pub struct TraitData {
    pub name: String,
    pub vis: Visibility,
    pub module_id: ModuleId,
    pub methods: IndexMap<String, DefId>,
}

/// A constant and its type.
#[derive(Debug)]
pub struct ConstantData {
    pub name: String,
    pub vis: Visibility,
    pub module_id: ModuleId,
    pub ty: TyId,
}

} // verus!
