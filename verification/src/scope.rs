//! The scopes the checker walks through.
use crate::token::Token;
use crate::ty::TyId;
use vstd::prelude::*;

verus! {

/// What kind of construct a scope belongs to.
#[derive(Debug, Clone, Copy, PartialEq, Eq, Structural)]
pub enum ScopeKind {
    Global,
    Function,
    Class,
    Trait,
}

/// A scope being checked, with the types of the values it returns.
#[derive(Debug)]
pub struct CheckScope {
    pub kind: ScopeKind,
    pub collect_return_types: Vec<(TyId, Token)>,
}

} // verus!
