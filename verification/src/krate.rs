//! A crate: its definitions, the index of their paths, and its modules.
use std::collections::HashMap;
use indexmap::IndexMap;
use crate::definition::Def;
use crate::ids::{DefId, ModuleId};
use crate::module::TypedModule;
use crate::table::Symbol;
use crate::typed_ast::TypedNode;
use vstd::prelude::*;

verus! {

/// A module of a crate: its path from the root, itself included, its syntax tree, the
/// result of checking it, what it exports and its child modules.
pub struct ModuleNode {
    pub id: ModuleId,
    pub path: Vec<String>,
    pub ast: Option<TypedNode>,
    pub typed_module: Option<TypedModule>,
    pub exports: HashMap<String, Symbol>,
    pub children: HashMap<String, ModuleId>,
}

/// A crate.
pub struct Crate {
    pub definitions: Vec<Def>,
    pub path_index: IndexMap<Vec<String>, DefId>,
    pub modules: Vec<ModuleNode>,
    pub root_id: ModuleId,
}

impl Crate {
    /// The definition with id `id`.
    pub fn get_def(&self, id: DefId) -> (r: &Def)
        requires
            id.0 < self.definitions@.len(),
        ensures
            *r == self.definitions@[id.0 as int],
    {
        &self.definitions[id.0]
    }
}

} // verus!
