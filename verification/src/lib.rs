//! Type checking and type inference for a small statically typed language.
//!
//! The checker walks a parsed program, gives every expression and statement a
//! type drawn from a shared type context, and records the constraints between
//! them; the inference engine then unifies those types and writes the resolved
//! types back.

pub mod ast;
pub mod checker;
pub mod ids;
pub mod constraint;
pub mod definition;
pub mod display;
pub mod error;
pub mod imap;
pub mod infer;
pub mod infer_context;
pub mod krate;
pub mod module;
pub mod resolve;
pub mod scope;
pub mod token;
pub mod table;
pub mod ty;
pub mod ty_context;
pub mod typed_ast;
pub mod unify;
pub mod utils;
