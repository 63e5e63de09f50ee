use crate::token::Token;
use crate::ty::TyId;
use vstd::prelude::*;

verus! {

/// A requirement that the type `got` found at `token` agree with the type `expected`.
#[derive(Debug, Clone)]
pub struct Constraint {
    pub expected: TyId,
    pub got: TyId,
    pub token: Token,
}

impl Constraint {
    pub fn new(expected: TyId, got: TyId, token: Token) -> (c: Constraint)
        ensures
            c.expected == expected,
            c.got == got,
            c.token == token,
    {
        Constraint { expected, got, token }
    }
}

} // verus!
