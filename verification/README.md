# type_checker

Type checking and type inference for a small statically typed language, written in
Verus: every function carries a contract that Verus proves.

The checker (`checker`) walks a parsed program (`ast`), gives every expression and
statement a type drawn from a shared type context (`ty_context`, `ty`), and resolves the
types of the crate's definitions on demand. The inference pass (`infer`) then unifies the
types that must agree (`unify`, `infer_context`), instantiates and substitutes generic
types (`resolve`), and writes the resolved types back.

Layout:

- `src/ast.rs`, `src/typed_ast.rs`: the parsed and the typed program.
- `src/ty.rs`, `src/ty_context.rs`, `src/display.rs`: types, the type context with its
  built-in names, and how types are written.
- `src/table.rs`, `src/scope.rs`: symbol tables and the checker's scopes.
- `src/checker.rs`: the checking pass and the resolution of definitions.
- `src/unify.rs`, `src/infer_context.rs`, `src/resolve.rs`, `src/infer.rs`: inference.
- `src/imap.rs`: the insertion-ordered name maps of struct and trait types, kept in
  `indexmap::IndexMap`.
- `tests/`: tests on concrete programs.
