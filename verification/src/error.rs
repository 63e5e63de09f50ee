//! Errors of type checking and inference.
use crate::token::Token;
use vstd::prelude::*;

verus! {

/// What went wrong.
#[derive(Clone, Copy, Debug, PartialEq, Eq, Structural)]
pub enum TypeCheckerErrorKind {
    VariableNotFound,
    TypeNotFound,
    TypeMismatch,
    InvalidCast,
    NotAConstant,
    Other,
}

/// How an error kind is written.
pub open spec fn error_kind_text(k: TypeCheckerErrorKind) -> Seq<char> {
    match k {
        TypeCheckerErrorKind::VariableNotFound => "variable not found"@,
        TypeCheckerErrorKind::TypeNotFound => "type not found"@,
        TypeCheckerErrorKind::TypeMismatch => "type mismatch"@,
        TypeCheckerErrorKind::InvalidCast => "invalid cast"@,
        TypeCheckerErrorKind::NotAConstant => "not a constant"@,
        TypeCheckerErrorKind::Other => "other"@,
    }
}

impl TypeCheckerErrorKind {
    /// How the error kind is written.
    pub fn to_display_string(&self) -> (s: String)
        ensures
            s@ == error_kind_text(*self),
    {
        match self {
            TypeCheckerErrorKind::VariableNotFound => String::from_str("variable not found"),
            TypeCheckerErrorKind::TypeNotFound => String::from_str("type not found"),
            TypeCheckerErrorKind::TypeMismatch => String::from_str("type mismatch"),
            TypeCheckerErrorKind::InvalidCast => String::from_str("invalid cast"),
            TypeCheckerErrorKind::NotAConstant => String::from_str("not a constant"),
            TypeCheckerErrorKind::Other => String::from_str("other"),
        }
    }
}

/// An error, with the token where it was found and an optional message.
#[derive(Clone, Debug)]
pub struct TypeCheckerError {
    pub kind: TypeCheckerErrorKind,
    pub token: Token,
    pub message: Option<String>,
}

/// The result of a checking step.
pub type CheckResult<T> = Result<T, TypeCheckerError>;

/// An error of kind `kind` at `token`, with `message` if given.
pub fn make_err(message: Option<&str>, kind: TypeCheckerErrorKind, token: Token) -> (e: TypeCheckerError)
    ensures
        e.kind == kind,
        e.token == token,
        message is None ==> e.message is None,
        message matches Some(m) ==> e.message matches Some(s) && s@ == m@,
{
    TypeCheckerError {
        kind,
        token,
        message: match message {
            Some(m) => Some(String::from_str(m)),
            None => None,
        },
    }
}

} // verus!
