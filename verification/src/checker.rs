//! The checking pass: it walks the parsed program, gives every expression and statement a
//! type from the type context, and builds the typed module.
use crate::ast::{lemma_block_stmt_stmts, lemma_block_stmts, lemma_build_struct_fields, lemma_call_args, lemma_generic_paths, ast_expr_token, ast_stmt_token, stmt_ok, type_expr_ok, value_expr_ok, Expression, Node, Statement};
use crate::constraint::Constraint;
use crate::error::{make_err, CheckResult, TypeCheckerError, TypeCheckerErrorKind};
use crate::ids::{DefId, ExprId, ModuleId, StmtId};
use crate::module::TypedModule;
use crate::scope::{CheckScope, ScopeKind};
use crate::table::{lemma_lookup_below, scope_lookup, symbol_type_ty, table_below, ScopeView, TypeTable};
use crate::token::Token;
use crate::display::{display_ty, display_ty_spec};
use crate::ty::str_eq;
use crate::ty::{IntTy, Ty, TyId};
use crate::ty_context::{ty_infer_id, ty_maps_ok, ty_parts_below, types_wf, TypeContext};
use crate::resolve::types_extend;
use crate::typed_ast::{big_decimal_clone, expr_token, expr_ty, int_value_ty, stmt_ty, GetType, Ident, TypedExpression, TypedNode, TypedStatement};
use crate::imap::{entries_insert, entries_lookup, name_map_entries, name_map_get, name_map_insert, name_map_new};
use crate::ty::strings_view;
use std::rc::Rc;
use vstd::prelude::*;

verus! {

/// Whether an expression is checked for the value it gives.
#[derive(Clone, Copy, Debug, PartialEq, Eq, Structural)]
pub enum CompileAs {
    AsValue,
    AsNone,
}

/// A name of the crate that resolves to a definition when no symbol binds it: the module
/// it is visible in, the name, and the definition's id.
#[derive(Debug)]
pub struct GlobalDef {
    pub module_id: ModuleId,
    pub name: String,
    pub def_id: DefId,
}

/// Where a definition of the crate comes from: its module and the index of its statement
/// in that module's program; its type once resolved; for a function written as a function
/// value, the names of its parameters with their types; and, for a struct, its generic
/// names and fields as last checked (`None` for a definition that is no struct).
#[derive(Debug)]
pub struct DefSlot {
    pub module_id: ModuleId,
    pub ast_index: usize,
    pub ty: Option<TyId>,
    pub params: crate::imap::NameMap,
    pub struct_data: Option<(Vec<String>, crate::imap::NameMap)>,
}

/// The number of definitions among the first `k` that are not being resolved.
pub open spec fn free_count(resolving: Seq<DefId>, k: nat) -> nat
    decreases k,
{
    if k == 0 {
        0
    } else {
        free_count(resolving, (k - 1) as nat) + if resolving.contains(DefId((k - 1) as usize)) { 0nat } else { 1nat }
    }
}

/// Starting to resolve a definition that was not being resolved leaves one fewer free.
pub proof fn lemma_free_count_push(resolving: Seq<DefId>, d: DefId, k: nat)
    requires
        !resolving.contains(d),
        k <= usize::MAX + 1,
    ensures
        free_count(resolving.push(d), k) + (if d.0 < k { 1nat } else { 0nat }) == free_count(resolving, k),
    decreases k,
{
    if k > 0 {
        lemma_free_count_push(resolving, d, (k - 1) as nat);
        let x = DefId((k - 1) as usize);
        if x == d {
            assert(resolving.push(d).contains(x)) by {
                assert(resolving.push(d)[resolving.len() as int] == d);
            }
        } else {
            assert(resolving.push(d).contains(x) == resolving.contains(x)) by {
                if resolving.contains(x) {
                    let i = choose|i: int| 0 <= i < resolving.len() && resolving[i] == x;
                    assert(resolving.push(d)[i] == x);
                }
                if resolving.push(d).contains(x) {
                    let i = choose|i: int| 0 <= i < resolving.push(d).len() && resolving.push(d)[i] == x;
                    assert(i < resolving.len());
                    assert(resolving[i] == x);
                }
            }
        }
    }
}

/// Whether every statement of every program can be checked.
pub open spec fn programs_ok(programs: Seq<Option<Node>>) -> bool {
    forall|m: int| 0 <= m < programs.len() ==> match #[trigger] programs[m] {
        Some(Node::Program { statements, .. }) => forall|j: int| 0 <= j < statements@.len() ==> stmt_ok(#[trigger] statements@[j]),
        None => true,
    }
}

/// The definition named `name` in module `m`: the first such.
pub open spec fn global_lookup(globals: Seq<GlobalDef>, m: ModuleId, name: Seq<char>) -> Option<GlobalDef>
    decreases globals.len(),
{
    if globals.len() == 0 {
        None
    } else if globals[0].module_id == m && globals[0].name@ == name {
        Some(globals[0])
    } else {
        global_lookup(globals.drop_first(), m, name)
    }
}

/// A definition found by name is one of the names listed.
pub proof fn lemma_global_lookup_in(globals: Seq<GlobalDef>, m: ModuleId, name: Seq<char>)
    ensures
        global_lookup(globals, m, name) matches Some(g) ==> exists|i: int| 0 <= i < globals.len() && #[trigger] globals[i] == g,
    decreases globals.len(),
{
    if globals.len() > 0 && !(globals[0].module_id == m && globals[0].name@ == name) {
        lemma_global_lookup_in(globals.drop_first(), m, name);
        if let Some(g) = global_lookup(globals, m, name) {
            let i = choose|i: int| 0 <= i < globals.drop_first().len() && #[trigger] globals.drop_first()[i] == g;
            assert(globals[i + 1] == g);
        }
    } else if globals.len() > 0 {
        assert(globals[0] == global_lookup(globals, m, name).unwrap());
    }
}

/// The state of the checking pass.
pub struct TypeChecker {
    pub module: TypedModule,
    /// The crate's definitions, with their types.
    pub globals: Vec<GlobalDef>,
    pub current_mod_id: ModuleId,
    pub constraints: Vec<Constraint>,
    pub scopes: Vec<CheckScope>,
    pub scope_index: usize,
    pub compile_as: CompileAs,
    /// The table that binds the built-in type names; each module starts inside it.
    pub builtins_table: TypeTable,
    /// The crate's definitions, by id.
    pub defs: Vec<DefSlot>,
    /// The definitions whose types are being resolved, innermost last.
    pub resolving_defs: Vec<DefId>,
    /// The parsed program of each module, by module id, if it has one.
    pub raw_programs: Rc<Vec<Option<Node>>>,
    /// The checked program of each module, by module id, once it has been checked.
    pub typed_programs: Vec<Option<TypedNode>>,
    /// The crate's root module.
    pub root_id: ModuleId,
}

/// Whether a binary operator gives a boolean.
pub open spec fn is_bool_infix_op(op: Seq<char>) -> bool {
    op == "=="@ || op == "!="@ || op == "<"@ || op == ">"@ || op == "<="@ || op == ">="@
}

/// Whether a binary operator gives a boolean.
pub fn bool_infix_operator(op: &str) -> (r: bool)
    ensures
        r == is_bool_infix_op(op@),
{
    let s = String::from_str(op);
    proof {
        reveal_strlit("==");
        reveal_strlit("!=");
        reveal_strlit("<");
        reveal_strlit(">");
        reveal_strlit("<=");
        reveal_strlit(">=");
    }
    s == String::from_str("==") || s == String::from_str("!=") || s == String::from_str("<")
        || s == String::from_str(">") || s == String::from_str("<=") || s == String::from_str(">=")
}

impl TypeChecker {
    /// The types of the module.
    pub open spec fn types(self) -> Seq<Ty> {
        self.module.tcx.types@
    }

    /// The symbol table in use.
    pub open spec fn table(self) -> TypeTable {
        self.module.tcx.table
    }

    /// A consistent state: well-formed types and tables whose symbols, expressions,
    /// statements, definitions and constraints have types that exist, and a current scope.
    pub open spec fn wf(self) -> bool {
        let n = self.types().len() as int;
        &&& self.module.tcx.wf()
        &&& table_below(self.table(), n)
        &&& self.builtins_table.wf()
        &&& table_below(self.builtins_table, n)
        &&& forall|i: int| 0 <= i < self.module.typed_exprs@.len() ==> #[trigger] expr_ty(self.module.typed_exprs@[i]) < n
        &&& forall|i: int| 0 <= i < self.module.typed_stmts@.len() ==> #[trigger] stmt_ty(self.module.typed_stmts@[i]) < n
        &&& forall|i: int| 0 <= i < self.globals@.len() ==> (#[trigger] self.globals@[i]).def_id.0 < self.defs@.len()
        &&& forall|i: int| 0 <= i < self.defs@.len() ==> ((#[trigger] self.defs@[i]).ty matches Some(t) ==> t < n)
        &&& programs_ok(self.raw_programs@)
        &&& forall|i: int| 0 <= i < self.constraints@.len() ==> #[trigger] self.constraints@[i].expected < n
            && self.constraints@[i].got < n
        &&& self.scopes@.len() == self.scope_index + 1
    }

    /// The number of definitions that are not being resolved.
    pub open spec fn free_defs(self) -> nat {
        free_count(self.resolving_defs@, self.defs@.len())
    }

    /// Whether `name` is known where the checker stands: a symbol binds it, or it names a
    /// definition in the current module.
    pub open spec fn name_known(self, name: Seq<char>) -> bool {
        self.table().lookup(name) is Some || global_lookup(self.globals@, self.current_mod_id, name) is Some
    }

    /// A checker for `module` that starts in module `root_id`, in the global scope, with
    /// the built-in type names bound.
    pub fn new(module: TypedModule, globals: Vec<GlobalDef>, defs: Vec<DefSlot>, programs: Vec<Option<Node>>, root_id: ModuleId)
        -> (r: TypeChecker)
        requires
            module.tcx.wf(),
            table_below(module.tcx.table, module.tcx.types@.len() as int),
            forall|i: int| 0 <= i < module.typed_exprs@.len() ==> #[trigger] expr_ty(module.typed_exprs@[i]) < module.tcx.types@.len(),
            forall|i: int| 0 <= i < module.typed_stmts@.len() ==> #[trigger] stmt_ty(module.typed_stmts@[i]) < module.tcx.types@.len(),
            forall|i: int| 0 <= i < globals@.len() ==> (#[trigger] globals@[i]).def_id.0 < defs@.len(),
            forall|i: int| 0 <= i < defs@.len() ==> ((#[trigger] defs@[i]).ty matches Some(t) ==> t < module.tcx.types@.len()),
            programs_ok(programs@),
        ensures
            r.wf(),
            r.globals@ == globals@,
            r.defs@ == defs@,
            r.raw_programs@ == programs@,
            r.resolving_defs@.len() == 0,
            r.typed_programs@.len() == programs@.len(),
            forall|i: int| 0 <= i < r.typed_programs@.len() ==> r.typed_programs@[i] is None,
            r.current_mod_id == root_id,
            r.root_id == root_id,
            r.constraints@.len() == 0,
            r.scopes@.len() == 1,
            r.scopes@[0].kind == ScopeKind::Global,
            r.compile_as == CompileAs::AsNone,
            r.table() == module.tcx.table,
            r.module.typed_exprs@ == module.typed_exprs@,
            r.module.typed_stmts@ == module.typed_stmts@,
            types_extend(module.tcx.types@, r.types()),
    {
        let mut module = module;
        let t0 = TypeTable::new();
        let builtins_table = t0.init(&mut module.tcx);
        proof {
            let n = module.tcx.types@.len() as int;
            assert forall|i: int, name: Seq<char>| 0 <= i < builtins_table.scopes().len() implies
                (#[trigger] crate::table::scope_lookup(builtins_table.scopes()[i], name) matches Some(s) ==> symbol_type_ty(s) < n) by {
                assert(i == 0);
                if crate::ty_context::builtin_type(name) is None {
                    assert(crate::table::scope_lookup(ScopeView::empty(), name) is None);
                }
            }
        }
        let global_scope = CheckScope { kind: ScopeKind::Global, collect_return_types: Vec::new() };
        let mut scopes = Vec::new();
        scopes.push(global_scope);
        let mut typed_programs: Vec<Option<TypedNode>> = Vec::new();
        let mut i: usize = 0;
        while i < programs.len()
            invariant
                i <= programs@.len(),
                typed_programs@.len() == i,
                forall|j: int| 0 <= j < i ==> typed_programs@[j] is None,
            decreases programs@.len() - i,
        {
            typed_programs.push(None);
            i = i + 1;
        }
        TypeChecker {
            module,
            globals,
            current_mod_id: root_id,
            constraints: Vec::new(),
            scopes,
            scope_index: 0,
            compile_as: CompileAs::AsNone,
            builtins_table,
            defs,
            resolving_defs: Vec::new(),
            raw_programs: Rc::new(programs),
            typed_programs,
            root_id,
        }
    }
}

/// Whether type `y` is type `x` as it may become: a struct may gain fields (an
/// implementation block adds its items to the struct it implements), keeping its name,
/// generic names and traits; any other type stays as it is.
pub open spec fn ty_grows(x: Ty, y: Ty) -> bool {
    match x {
        Ty::Struct { name, generics, impl_traits, .. } => y matches Ty::Struct { name: n2, generics: g2, impl_traits: i2, .. }
            && n2@ == name@ && strings_view(g2@) == strings_view(generics@)
            && name_map_entries(i2) == name_map_entries(impl_traits),
        _ => y == x,
    }
}

/// A type may become itself.
pub proof fn lemma_ty_grows_refl(x: Ty)
    ensures
        ty_grows(x, x),
{
}

/// Whether `b` keeps the types of `a`, each as it may become (see `ty_grows`), and may
/// add more.
pub open spec fn types_grow(a: Seq<Ty>, b: Seq<Ty>) -> bool {
    &&& a.len() <= b.len()
    &&& forall|i: int| #![trigger b[i]] 0 <= i < a.len() ==> ty_grows(a[i], b[i])
}

/// Whether `name`, looked up where `a` stands, has the type `ty`: that of its symbol, or else
/// that of the definition it names in the current module, as resolved in `b`.
pub open spec fn name_resolves(a: TypeChecker, b: TypeChecker, name: Seq<char>, ty: TyId) -> bool {
    match a.table().lookup(name) {
        Some(s) => ty == symbol_type_ty(s),
        None => match global_lookup(a.globals@, a.current_mod_id, name) {
            Some(g) => b.defs@[g.def_id.0 as int].ty == Some(ty),
            None => false,
        },
    }
}

/// As `name_resolves`, except that a definition's type of id 0, which counts as not yet
/// resolved and may be resolved again, need not be the one recorded in `b`.
pub open spec fn name_resolves_kept(a: TypeChecker, b: TypeChecker, name: Seq<char>, ty: TyId) -> bool {
    match a.table().lookup(name) {
        Some(s) => ty == symbol_type_ty(s),
        None => match global_lookup(a.globals@, a.current_mod_id, name) {
            Some(g) => ty != 0 ==> b.defs@[g.def_id.0 as int].ty == Some(ty),
            None => false,
        },
    }
}

/// Whether `b` keeps and only adds to the types, expressions and statements of `a`, with
/// the same names, definitions, programs, constraints and built-in names, and no more
/// definitions free to resolve.
pub open spec fn grows(a: TypeChecker, b: TypeChecker) -> bool {
    &&& types_grow(a.types(), b.types())
    &&& a.module.typed_exprs@.len() <= b.module.typed_exprs@.len()
    &&& forall|i: int| 0 <= i < a.module.typed_exprs@.len() ==> #[trigger] b.module.typed_exprs@[i] == a.module.typed_exprs@[i]
    &&& a.module.typed_stmts@.len() <= b.module.typed_stmts@.len()
    &&& forall|i: int| 0 <= i < a.module.typed_stmts@.len() ==> #[trigger] b.module.typed_stmts@[i] == a.module.typed_stmts@[i]
    &&& b.globals@ == a.globals@
    &&& b.constraints@ == a.constraints@
    &&& b.builtins_table == a.builtins_table
    &&& b.defs@.len() == a.defs@.len()
    &&& forall|i: int| #![trigger b.defs@[i]] 0 <= i < a.defs@.len() ==> (a.defs@[i].ty is Some ==> b.defs@[i].ty is Some)
        && ((a.defs@[i].ty matches Some(t) && t != 0) ==> b.defs@[i].ty == a.defs@[i].ty)
        && b.defs@[i].module_id == a.defs@[i].module_id && b.defs@[i].ast_index == a.defs@[i].ast_index
    &&& b.free_defs() <= a.free_defs()
    &&& b.raw_programs == a.raw_programs
    &&& b.typed_programs == a.typed_programs
    &&& b.root_id == a.root_id
}

/// Whether `e` is a literal: checking one always succeeds.
pub open spec fn literal_expr(e: Expression) -> bool {
    e is UnknownTypeInt || e is Bool || e is Int || e is StrLiteral
}

/// The type that checking gives the literal `e`, if it is one.
pub open spec fn literal_ty(e: Expression) -> Option<Ty> {
    match e {
        Expression::UnknownTypeInt { .. } => Some(Ty::Unknown),
        Expression::Bool { .. } => Some(Ty::Bool),
        Expression::Int { value, .. } => Some(Ty::IntTy(int_value_ty(value))),
        Expression::StrLiteral { .. } => Some(Ty::Str),
        _ => None,
    }
}

/// Whether the definition `d` can be resolved whatever else is resolved first: it is
/// recorded already, or it is a constant of a literal value that is not being resolved.
pub open spec fn def_always_resolves(c: TypeChecker, d: DefId) -> bool {
    ||| def_recorded(c, d) is Some
    ||| (!c.resolving_defs@.contains(d) && (def_stmt(c, d) matches Some(Statement::Const { value, .. }) && literal_expr(value)))
}

/// Checking that goes on from `a` to `b` in the same frame keeps a definition that can always
/// be resolved one that can always be resolved.
pub proof fn lemma_always_resolves_kept(a: TypeChecker, b: TypeChecker, d: int)
    requires
        grows(a, b),
        b.resolving_defs@ == a.resolving_defs@,
        0 <= d < a.defs@.len(),
        def_always_resolves_at(a, d),
    ensures
        def_always_resolves_at(b, d),
{
    assert(b.defs@[d].module_id == a.defs@[d].module_id);
    assert(def_stmt(b, DefId(d as usize)) == def_stmt(a, DefId(d as usize)));
}

/// Whether every definition of `c` can be resolved whatever else is resolved first.
pub open spec fn defs_always_resolve(c: TypeChecker) -> bool {
    forall|d: int| 0 <= d < c.defs@.len() ==> #[trigger] def_always_resolves_at(c, d)
}

/// Whether the definition with index `d` can be resolved whatever else is resolved first.
pub open spec fn def_always_resolves_at(c: TypeChecker, d: int) -> bool {
    def_always_resolves(c, DefId(d as usize))
}

/// Whether checking the expression `e` succeeds whatever else the state holds, with `t` as
/// the symbol table, and leaves the table as it is: a literal, a name bound in `t`, or an
/// infix operation, `&&`, `||`, assignment, `size_of`, `!`, `-`, `+`, `&` prefix, or `if`
/// with an `else`, built from such expressions.
pub open spec fn expr_closed(e: Expression, t: TypeTable) -> bool
    decreases e,
{
    match e {
        Expression::UnknownTypeInt { .. } => true,
        Expression::Bool { .. } => true,
        Expression::Int { .. } => true,
        Expression::StrLiteral { .. } => true,
        Expression::Ident(n) => t.lookup(n.value@) is Some,
        Expression::Infix { left, right, .. } => expr_closed(*left, t) && expr_closed(*right, t),
        Expression::BoolAnd { left, right, .. } => expr_closed(*left, t) && expr_closed(*right, t),
        Expression::BoolOr { left, right, .. } => expr_closed(*left, t) && expr_closed(*right, t),
        Expression::Assign { left, right, .. } => expr_closed(*left, t) && expr_closed(*right, t),
        Expression::SizeOf(_, x) => expr_closed(*x, t),
        Expression::If { condition, consequence, else_block: Some(e), .. } => expr_closed(*condition, t)
            && expr_closed(*consequence, t) && expr_closed(*e, t),
        Expression::Prefix { op, right, .. } => (op@ == "!"@ || op@ == "-"@ || op@ == "+"@ || op@ == "&"@)
            && expr_closed(*right, t),
        _ => false,
    }
}

/// Whether every name that `a` binds is bound in `b` too.
pub open spec fn table_extends(a: TypeTable, b: TypeTable) -> bool {
    forall|n: Seq<char>| #[trigger] a.lookup(n) is Some ==> b.lookup(n) is Some
}

/// An expression that checks whatever else the state holds under a table checks so under a
/// table that binds at least the same names.
pub proof fn lemma_expr_closed_mono(e: Expression, a: TypeTable, b: TypeTable)
    requires
        expr_closed(e, a),
        table_extends(a, b),
    ensures
        expr_closed(e, b),
    decreases e,
{
    match e {
        Expression::Ident(n) => { assert(a.lookup(n.value@) is Some); },
        Expression::Infix { left, right, .. } => { lemma_expr_closed_mono(*left, a, b); lemma_expr_closed_mono(*right, a, b); },
        Expression::BoolAnd { left, right, .. } => { lemma_expr_closed_mono(*left, a, b); lemma_expr_closed_mono(*right, a, b); },
        Expression::BoolOr { left, right, .. } => { lemma_expr_closed_mono(*left, a, b); lemma_expr_closed_mono(*right, a, b); },
        Expression::Assign { left, right, .. } => { lemma_expr_closed_mono(*left, a, b); lemma_expr_closed_mono(*right, a, b); },
        Expression::SizeOf(_, x) => { lemma_expr_closed_mono(*x, a, b); },
        Expression::If { condition, consequence, else_block: Some(e), .. } => {
            lemma_expr_closed_mono(*condition, a, b);
            lemma_expr_closed_mono(*consequence, a, b);
            lemma_expr_closed_mono(*e, a, b);
        },
        Expression::Prefix { right, .. } => { lemma_expr_closed_mono(*right, a, b); },
        _ => {},
    }
}

/// Whether checking the statement `s` succeeds whatever else the state holds, with `t` as
/// the symbol table, and only adds bindings to the table: an expression statement, `return`
/// or `let` of an expression that checks so (see `expr_closed`), a `let` or `const` whose
/// annotation is bound in `t`, a `const` of a literal, a `use`, or a `while` whose condition
/// and body check so.
pub open spec fn stmt_closed(s: Statement, t: TypeTable) -> bool
    decreases s,
{
    match s {
        Statement::ExpressionStatement(e) => expr_closed(e, t),
        Statement::Return { expr, .. } => expr matches Some(e) ==> expr_closed(e, t),
        Statement::Use { .. } => true,
        Statement::Let { var_type, value, .. } => expr_closed(value, t)
            && (var_type matches Some(v) ==> t.lookup(v.value@) is Some),
        Statement::Const { var_type, value, .. } => (value is Bool || value is Int || value is StrLiteral)
            && (var_type matches Some(v) ==> t.lookup(v.value@) is Some),
        Statement::While { condition, block, .. } => expr_closed(condition, t) && stmt_closed(*block, t),
        _ => false,
    }
}

/// A statement that checks whatever else the state holds under a table checks so under a
/// table that binds at least the same names.
pub proof fn lemma_stmt_closed_mono(s: Statement, a: TypeTable, b: TypeTable)
    requires
        stmt_closed(s, a),
        table_extends(a, b),
    ensures
        stmt_closed(s, b),
    decreases s,
{
    match s {
        Statement::ExpressionStatement(e) => lemma_expr_closed_mono(e, a, b),
        Statement::Return { expr, .. } => { if let Some(e) = expr { lemma_expr_closed_mono(e, a, b); } },
        Statement::Let { var_type, value, .. } => {
            lemma_expr_closed_mono(value, a, b);
            if let Some(v) = var_type { assert(a.lookup(v.value@) is Some); }
        },
        Statement::Const { var_type, .. } => { if let Some(v) = var_type { assert(a.lookup(v.value@) is Some); } },
        Statement::While { condition, block, .. } => {
            lemma_expr_closed_mono(condition, a, b);
            lemma_stmt_closed_mono(*block, a, b);
        },
        _ => {},
    }
}

/// Whether every statement of `ss` checks whatever else the state holds, with `t` as the
/// table they start from.
pub open spec fn stmts_closed(ss: Seq<Statement>, t: TypeTable) -> bool {
    forall|i: int| 0 <= i < ss.len() ==> stmt_closed(#[trigger] ss[i], t)
}

/// Whether every expression of `v` is a literal.
pub open spec fn all_literals(v: Seq<Expression>) -> bool {
    forall|i: int| 0 <= i < v.len() ==> literal_expr(#[trigger] v[i])
}

/// Whether checking the statement `s` succeeds whatever the state, without looking into
/// nested blocks: a `use`, an expression statement of a literal, a `return` of nothing or of
/// a literal, or a `let` or `const` without a type annotation binding a literal.
pub open spec fn flat_stmt_always_checks(s: Statement) -> bool {
    match s {
        Statement::Use { .. } => true,
        Statement::ExpressionStatement(e) => literal_expr(e),
        Statement::Return { expr, .. } => expr matches Some(e) ==> literal_expr(e),
        Statement::Let { var_type, value, .. } => var_type is None && literal_expr(value),
        Statement::Const { var_type, value, .. } => var_type is None && (value is Bool || value is Int || value is StrLiteral),
        _ => false,
    }
}

/// Whether checking the statement `s` succeeds whatever the state: a statement of the kinds
/// above, or a block of such statements.
pub open spec fn stmt_always_checks(s: Statement) -> bool {
    match s {
        Statement::Block { statements, .. } => forall|i: int| 0 <= i < statements@.len()
            ==> flat_stmt_always_checks(#[trigger] statements@[i]),
        _ => flat_stmt_always_checks(s),
    }
}

/// Whether every statement of `statements` always checks.
pub open spec fn stmts_always_check(statements: Seq<Statement>) -> bool {
    forall|i: int| 0 <= i < statements.len() ==> stmt_always_checks(#[trigger] statements[i])
}

/// Whether every statement of the program `node` always checks.
pub open spec fn program_always_checks(node: Node) -> bool {
    match node {
        Node::Program { statements, .. } => stmts_always_check(statements@),
    }
}

/// Whether one of the first `n` generic parameters is the name `name`.
pub open spec fn generic_named(generics: Seq<Expression>, n: int, name: Seq<char>) -> bool {
    exists|k: int| 0 <= k < n && (#[trigger] generics[k] matches Expression::Ident(g) && g.value@ == name)
}

/// Whether `b` follows `a` in the checking pass: `b` grows `a` (see `grows`), the scopes and
/// table keep their depth and kinds, and values are checked as before, or no longer.
pub open spec fn frame(a: TypeChecker, b: TypeChecker) -> bool {
    &&& grows(a, b)
    &&& b.scopes@.len() == a.scopes@.len()
    &&& forall|i: int| 0 <= i < a.scopes@.len() ==> #[trigger] b.scopes@[i].kind == a.scopes@[i].kind
    &&& b.scope_index == a.scope_index
    &&& b.table().scopes().len() == a.table().scopes().len()
    &&& forall|k: int| 1 <= k < a.table().scopes().len() ==> #[trigger] b.table().scopes()[k] == a.table().scopes()[k]
    &&& (b.compile_as == a.compile_as || b.compile_as == CompileAs::AsNone)
    &&& b.current_mod_id == a.current_mod_id
    &&& b.resolving_defs@ == a.resolving_defs@
}

impl TypeChecker {
    /// The id of a type equal to `ty`, added if there is none.
    fn alloc_ty(&mut self, ty: Ty) -> (id: TyId)
        requires
            old(self).wf(),
            ty_infer_id(ty) is None,
            ty_parts_below(ty, old(self).types().len() as int),
            ty_maps_ok(ty, old(self).types().len() as int),
        ensures
            final(self).wf(),
            id < final(self).types().len(),
            crate::ty::ty_equiv(final(self).types()[id as int], ty),
            final(self).types() == crate::ty_context::alloc_types(old(self).types(), ty),
            final(self).table() == old(self).table(),
            frame(*old(self), *final(self)),
            final(self).scopes@ == old(self).scopes@,
            final(self).module.typed_exprs@ == old(self).module.typed_exprs@,
            final(self).module.typed_stmts@ == old(self).module.typed_stmts@,
    {
        let id = self.module.tcx.alloc_type(ty);
        proof {
            let n = self.types().len() as int;
            let m = old(self).types().len() as int;
            assert forall|i: int, name: Seq<char>| 0 <= i < self.table().scopes().len() implies
                (#[trigger] crate::table::scope_lookup(self.table().scopes()[i], name) matches Some(s) ==> symbol_type_ty(s) < n) by {
                assert(crate::table::scope_lookup(old(self).table().scopes()[i], name) matches Some(s) ==> symbol_type_ty(s) < m);
            }
            assert forall|i: int, name: Seq<char>| 0 <= i < self.builtins_table.scopes().len() implies
                (#[trigger] crate::table::scope_lookup(self.builtins_table.scopes()[i], name) matches Some(s) ==> symbol_type_ty(s) < n) by {
                assert(crate::table::scope_lookup(old(self).builtins_table.scopes()[i], name) matches Some(s) ==> symbol_type_ty(s) < m);
            }
        }
        id
    }

    /// Starts a module afresh: a new empty scope inside the built-in type names.
    fn reset_to_builtins(&mut self)
        requires
            old(self).wf(),
        ensures
            final(self).wf(),
            final(self).table().scopes() == seq![ScopeView::empty()] + old(self).builtins_table.scopes(),
            final(self).types() == old(self).types(),
            final(self).module.typed_exprs@ == old(self).module.typed_exprs@,
            final(self).module.typed_stmts@ == old(self).module.typed_stmts@,
            final(self).scopes@ == old(self).scopes@,
            final(self).scope_index == old(self).scope_index,
            final(self).globals@ == old(self).globals@,
            final(self).constraints@ == old(self).constraints@,
            final(self).builtins_table == old(self).builtins_table,
            final(self).current_mod_id == old(self).current_mod_id,
            final(self).compile_as == old(self).compile_as,
            final(self).defs == old(self).defs,
            final(self).resolving_defs == old(self).resolving_defs,
            final(self).raw_programs == old(self).raw_programs,
            final(self).typed_programs == old(self).typed_programs,
            final(self).root_id == old(self).root_id,
    {
        let b = self.builtins_table.copy();
        self.module.tcx.table = TypeTable::with_outer(b);
        proof {
            let n = self.types().len() as int;
            let t = self.table();
            assert forall|i: int, name: Seq<char>| 0 <= i < t.scopes().len() implies
                (#[trigger] crate::table::scope_lookup(t.scopes()[i], name) matches Some(s) ==> symbol_type_ty(s) < n) by {
                if i == 0 {
                    assert(crate::table::scope_lookup(ScopeView::empty(), name) is None);
                } else {
                    assert(t.scopes()[i] == self.builtins_table.scopes()[i - 1]);
                }
            }
        }
    }

    /// Enters a scope of kind `kind`, with a new empty scope of symbols.
    pub fn enter_scope(&mut self, kind: ScopeKind)
        requires
            old(self).wf(),
        ensures
            final(self).wf(),
            final(self).table().scopes() == seq![ScopeView::empty()] + old(self).table().scopes(),
            final(self).table().outer is Some,
            final(self).scopes@.len() == old(self).scopes@.len() + 1,
            final(self).scopes@.drop_last() == old(self).scopes@,
            final(self).scopes@.last().kind == kind,
            final(self).scopes@.last().collect_return_types@.len() == 0,
            final(self).scope_index == old(self).scope_index + 1,
            final(self).types() == old(self).types(),
            final(self).module.typed_exprs@ == old(self).module.typed_exprs@,
            final(self).module.typed_stmts@ == old(self).module.typed_stmts@,
            final(self).globals@ == old(self).globals@,
            final(self).constraints@ == old(self).constraints@,
            final(self).builtins_table == old(self).builtins_table,
            final(self).current_mod_id == old(self).current_mod_id,
            final(self).compile_as == old(self).compile_as,
            final(self).defs == old(self).defs,
            final(self).resolving_defs == old(self).resolving_defs,
            final(self).raw_programs == old(self).raw_programs,
            final(self).typed_programs == old(self).typed_programs,
            final(self).root_id == old(self).root_id,
    {
        let mut t = TypeTable::new();
        std::mem::swap(&mut t, &mut self.module.tcx.table);
        self.module.tcx.table = TypeTable::with_outer(t);
        proof {
            let n = self.types().len() as int;
            let tb = self.table();
            assert forall|i: int, name: Seq<char>| 0 <= i < tb.scopes().len() implies
                (#[trigger] crate::table::scope_lookup(tb.scopes()[i], name) matches Some(s) ==> symbol_type_ty(s) < n) by {
                if i == 0 {
                    assert(crate::table::scope_lookup(ScopeView::empty(), name) is None);
                } else {
                    assert(tb.scopes()[i] == old(self).table().scopes()[i - 1]);
                }
            }
        }
        self.scope_index = self.scopes.len();
        self.scopes.push(CheckScope { kind, collect_return_types: Vec::new() });
    }

    /// Leaves the current scope: the table goes back to the enclosing one. Gives back the
    /// scope left and its table.
    pub fn leave_scope(&mut self) -> (r: (CheckScope, TypeTable))
        requires
            old(self).wf(),
            old(self).table().outer is Some,
            old(self).scope_index > 0,
        ensures
            final(self).wf(),
            final(self).table().scopes() == old(self).table().scopes().drop_first(),
            r.1 == old(self).table(),
            r.0 == old(self).scopes@.last(),
            final(self).scopes@ == old(self).scopes@.drop_last(),
            final(self).scope_index == old(self).scope_index - 1,
            final(self).types() == old(self).types(),
            final(self).module.typed_exprs@ == old(self).module.typed_exprs@,
            final(self).module.typed_stmts@ == old(self).module.typed_stmts@,
            final(self).globals@ == old(self).globals@,
            final(self).constraints@ == old(self).constraints@,
            final(self).builtins_table == old(self).builtins_table,
            final(self).current_mod_id == old(self).current_mod_id,
            final(self).compile_as == old(self).compile_as,
            final(self).defs == old(self).defs,
            final(self).resolving_defs == old(self).resolving_defs,
            final(self).raw_programs == old(self).raw_programs,
            final(self).typed_programs == old(self).typed_programs,
            final(self).root_id == old(self).root_id,
    {
        let mut cur = TypeTable::new();
        std::mem::swap(&mut cur, &mut self.module.tcx.table);
        proof {
            cur.lemma_scopes_len();
        }
        let before = cur.copy();
        let outer = match before.outer {
            Some(o) => *o,
            None => TypeTable::new(),
        };
        self.module.tcx.table = outer;
        proof {
            let n = self.types().len() as int;
            let tb = self.table();
            assert(tb.scopes() == cur.scopes().drop_first());
            assert forall|i: int| 0 <= i < tb.scopes().len() implies crate::table::scope_names_unique(#[trigger] tb.scopes()[i]) by {
                assert(tb.scopes()[i] == cur.scopes()[i + 1]);
            }
            assert forall|i: int, name: Seq<char>| 0 <= i < tb.scopes().len() implies
                (#[trigger] crate::table::scope_lookup(tb.scopes()[i], name) matches Some(s) ==> symbol_type_ty(s) < n) by {
                assert(tb.scopes()[i] == cur.scopes()[i + 1]);
            }
        }
        self.scope_index = self.scope_index - 1;
        let scope = self.scopes.pop().unwrap();
        (scope, cur)
    }

    /// The current scope.
    pub fn current_scope(&self) -> (r: &CheckScope)
        requires
            self.wf(),
        ensures
            *r == self.scopes@[self.scope_index as int],
    {
        &self.scopes[self.scope_index]
    }

    /// The type context.
    pub fn tcx_ref(&self) -> (r: &TypeContext)
        ensures
            *r == self.module.tcx,
    {
        &self.module.tcx
    }

    /// The type context.
    pub fn get_type_context(&self) -> (r: &TypeContext)
        ensures
            *r == self.module.tcx,
    {
        &self.module.tcx
    }

    /// The constraints recorded so far.
    pub fn get_constraints(&self) -> (r: &Vec<Constraint>)
        ensures
            *r == self.constraints,
    {
        &self.constraints
    }

    /// An error of kind `kind` at `token`, with `message` if given.
    pub fn make_err(message: Option<&str>, kind: TypeCheckerErrorKind, token: Token) -> (e: TypeCheckerError)
        ensures
            e.kind == kind,
            e.token == token,
            message is None ==> e.message is None,
            message matches Some(m) ==> e.message matches Some(s) && s@ == m@,
    {
        make_err(message, kind, token)
    }

    /// The definition named `name` in the current module, if any.
    pub fn lookup_name(&self, name: &str) -> (r: Option<usize>)
        ensures
            match global_lookup(self.globals@, self.current_mod_id, name@) {
                Some(g) => r matches Some(i) && i < self.globals@.len() && self.globals@[i as int] == g,
                None => r is None,
            },
    {
        let ghost gs = self.globals@;
        let mut i: usize = 0;
        assert(gs.skip(0) =~= gs);
        while i < self.globals.len()
            invariant
                i <= gs.len(),
                gs == self.globals@,
                global_lookup(gs, self.current_mod_id, name@) == global_lookup(gs.skip(i as int), self.current_mod_id, name@),
            decreases gs.len() - i,
        {
            assert(gs.skip(i as int)[0] == gs[i as int]);
            assert(gs.skip(i as int).drop_first() =~= gs.skip(i as int + 1));
            if self.globals[i].module_id == self.current_mod_id && crate::ty::str_eq(self.globals[i].name.as_str(), name) {
                return Some(i);
            }
            i = i + 1;
        }
        assert(gs.skip(i as int).len() == 0);
        None
    }

    /// The type that the type name `name` denotes: its symbol's, or else that of the
    /// definition of the current module it names, resolved if need be (see
    /// `resolve_def_type`); else a `TypeNotFound` error at `token`.
    pub fn lookup_type_by_name(&mut self, name: &str, token: Token) -> (r: CheckResult<TyId>)
        requires
            old(self).wf(),
        ensures
            final(self).wf(),
            grows(*old(self), *final(self)),
            r is Ok ==> frame(*old(self), *final(self)),
            r matches Ok(t) ==> t < final(self).types().len() && name_resolves(*old(self), *final(self), name@, t),
            old(self).table().lookup(name@) is Some ==> *final(self) == *old(self),
            old(self).table().lookup(name@) matches Some(s) ==> r == Ok::<TyId, TypeCheckerError>(symbol_type_ty(s)),
            old(self).table().lookup(name@) is None ==> (global_lookup(old(self).globals@, old(self).current_mod_id, name@) matches Some(g)
                ==> (def_recorded(*old(self), g.def_id) matches Some(t) ==> r == Ok::<TyId, TypeCheckerError>(t))
                && (def_always_resolves(*old(self), g.def_id) ==> r is Ok)
                && (r matches Ok(t) ==> final(self).defs@[g.def_id.0 as int].ty == Some(t))),
            !old(self).name_known(name@) ==> (r matches Err(e) && e.kind == TypeCheckerErrorKind::TypeNotFound && e.token == token
                && (e.message matches Some(m) && m@ == "type `"@ + name@ + "` not found in this scope"@)),
        decreases 3 * old(self).free_defs() + 1, token, 0nat,
    {
        proof {
            lemma_lookup_below(self.table(), self.types().len() as int, name@);
        }
        if let Some(symbol) = self.module.tcx.table.get(name) {
            return Ok(symbol.ty.get_type());
        }
        if let Some(i) = self.lookup_name(name) {
            let def_id = self.globals[i].def_id;
            return self.resolve_def_type(def_id);
        }
        let mut m = String::from_str("type `");
        m.append(name);
        m.append("` not found in this scope");
        proof {
            reveal_strlit("type `");
            reveal_strlit("` not found in this scope");
        }
        Err(TypeCheckerError { kind: TypeCheckerErrorKind::TypeNotFound, token, message: Some(m) })
    }
}

/// The type of a prefix expression with operator `op` whose operand has type `right`: `!`
/// gives a boolean, `-` and `+` the operand's type, `&` a pointer to it, and `*` the type
/// the operand points to.
pub open spec fn prefix_ty_ok(op: Seq<char>, types: Seq<Ty>, ty: TyId, right: TyId) -> bool {
    if op == "!"@ {
        types[ty as int] == Ty::Bool
    } else if op == "-"@ || op == "+"@ {
        ty == right
    } else if op == "&"@ {
        types[ty as int] == Ty::Ptr(right)
    } else if op == "*"@ {
        types[right as int] == Ty::Ptr(ty)
    } else {
        false
    }
}

/// What checking the expression `e` gave, `t`, as seen from the checker before (`a`) and
/// after (`b`): the token of `e`, a type that exists, the parts of `e` checked and added,
/// and the type that each kind of expression has.
pub open spec fn expr_checked(a: TypeChecker, b: TypeChecker, e: Expression, t: TypedExpression) -> bool {
    let types = b.types();
    let exprs = b.module.typed_exprs@;
    let stmts = b.module.typed_stmts@;
    let ty = expr_ty(t);
    &&& expr_token(t) == ast_expr_token(e)
    &&& ty < types.len()
    &&& match e {
        Expression::UnknownTypeInt { value, .. } => t matches TypedExpression::UnknownTypeInt { value: v, .. }
            && v == value && types[ty as int] == Ty::Unknown,
        Expression::Bool { value, .. } => t matches TypedExpression::Bool { value: v, .. } && v == value
            && types[ty as int] == Ty::Bool,
        Expression::Int { value, .. } => t matches TypedExpression::Int { value: v, .. } && v == value
            && types[ty as int] == Ty::IntTy(int_value_ty(value)),
        Expression::StrLiteral { value, .. } => t matches TypedExpression::StrLiteral { value: v, .. } && v@ == value@
            && types[ty as int] == Ty::Str,
        Expression::SizeOf(..) => t matches TypedExpression::SizeOf(_, x, _) && x.0 < exprs.len()
            && types[ty as int] == Ty::IntTy(IntTy::USize),
        Expression::Cast { .. } => t matches TypedExpression::Cast { val, cast_to, .. } && val.0 < exprs.len()
            && cast_to.0 < exprs.len() && ty == expr_ty(exprs[cast_to.0 as int]),
        Expression::FieldAccess(_, _, field) => t matches TypedExpression::FieldAccess(_, obj, f2, _) && f2 == field
            && obj.0 < exprs.len() && match types[expr_ty(exprs[obj.0 as int]) as int] {
                Ty::Struct { fields, .. } => entries_lookup(name_map_entries(fields), field.value@) == Some(ty),
                Ty::AppliedGeneric(..) => true,
                _ => false,
            },
        Expression::BuildStruct(_, name, fields) => t matches TypedExpression::BuildStruct(_, n2, fs, _) && n2 == name
            && fs@.len() == fields@.len() && name_resolves_kept(a, b, name.value@, ty) && types[ty as int] is Struct,
        Expression::Assign { .. } => t matches TypedExpression::Assign { left, right, .. } && left.0 < exprs.len()
            && right.0 < exprs.len() && types[ty as int] == Ty::Unit,
        Expression::Ident(name) => t matches TypedExpression::Ident(n2, _, d) && n2 == name
            && name_resolves(a, b, name.value@, ty)
            && d == match global_lookup(a.globals@, a.current_mod_id, name.value@) {
                Some(g) => Some(g.def_id),
                None => None,
            },
        Expression::Infix { op, .. } => t matches TypedExpression::Infix { op: o2, left, right, .. } && o2@ == op@
            && left.0 < exprs.len() && right.0 < exprs.len()
            && if is_bool_infix_op(op@) { types[ty as int] == Ty::Bool } else { ty == expr_ty(exprs[left.0 as int]) },
        Expression::Prefix { op, .. } => t matches TypedExpression::Prefix { op: o2, right, .. } && o2@ == op@
            && right.0 < exprs.len() && prefix_ty_ok(op@, types, ty, expr_ty(exprs[right.0 as int])),
        Expression::BoolAnd { .. } => t matches TypedExpression::BoolAnd { left, right, .. } && left.0 < exprs.len()
            && right.0 < exprs.len() && types[ty as int] == Ty::Bool,
        Expression::BoolOr { .. } => t matches TypedExpression::BoolOr { left, right, .. } && left.0 < exprs.len()
            && right.0 < exprs.len() && types[ty as int] == Ty::Bool,
        Expression::If { else_block, .. } => t matches TypedExpression::If { condition, consequence, else_block: eb, .. }
            && condition.0 < exprs.len() && consequence.0 < exprs.len() && ty == expr_ty(exprs[consequence.0 as int])
            && (eb is Some <==> else_block is Some)
            && (eb matches Some(x) ==> x.0 < exprs.len())
            && (else_block is None && a.compile_as == CompileAs::AsValue ==> types[ty as int] == Ty::Unit),
        Expression::Call { args, .. } => t matches TypedExpression::Call { func, args: a2, func_ty, .. }
            && func.0 < exprs.len() && func_ty == expr_ty(exprs[func.0 as int]) && a2@.len() == args@.len()
            && (forall|i: int| 0 <= i < a2@.len() ==> (#[trigger] a2@[i]).0 < exprs.len())
            && (types[func_ty as int] matches Ty::Function { ret_type, .. } && ty == ret_type),
        Expression::Function { name, params, ret_ty, generics_params, .. } =>
            t matches TypedExpression::Function { name: n2, params: ps, generics_params: gs, block: bl, ret_ty: r2, .. }
            && n2 == name && ps@.len() == params@.len() && gs@.len() == generics_params@.len()
            && ids_in(exprs, ps@) && ids_in(exprs, gs@) && bl.0 < exprs.len() && (r2 is Some <==> ret_ty is Some)
            && fn_ty_ok(types, exprs, ty, ident_names(generics_params@), types_of(exprs, ps@), r2, false),
        Expression::Block(_, src) => t matches TypedExpression::Block(_, ids, _) && ids@.len() == src@.len()
            && (forall|i: int| 0 <= i < ids@.len() ==> (#[trigger] ids@[i]).0 < stmts.len())
            && if ids@.len() == 0 { types[ty as int] == Ty::Unit } else { ty == stmt_ty(stmts[ids@.last().0 as int]) },
        Expression::TypeHint(name, _) => t matches TypedExpression::TypeHint(n2, x, _) && n2 == name && x.0 < exprs.len()
            && ty == expr_ty(exprs[x.0 as int]),
        Expression::GenericInstance { paths, .. } => t matches TypedExpression::GenericInstance { left, paths: p2, .. }
            && left.0 < exprs.len() && ty == expr_ty(exprs[left.0 as int]) && p2@.len() == paths@.len(),
        Expression::TypePath { .. } => false,
    }
}

/// What checking the type expression `e` gave, `t`: the token of `e`, a type that exists,
/// and the type that each kind of type expression denotes.
pub open spec fn type_expr_checked(a: TypeChecker, b: TypeChecker, e: Expression, t: TypedExpression) -> bool {
    let types = b.types();
    let exprs = b.module.typed_exprs@;
    let ty = expr_ty(t);
    &&& expr_token(t) == ast_expr_token(e)
    &&& ty < types.len()
    &&& match e {
        Expression::Ident(name) => t matches TypedExpression::Ident(n2, _, d) && n2 == name
            && name_resolves(a, b, name.value@, ty)
            && d == if a.table().lookup(name.value@) is Some { None } else {
                match global_lookup(a.globals@, a.current_mod_id, name.value@) {
                    Some(g) => Some(g.def_id),
                    None => None,
                }
            },
        Expression::Prefix { op, .. } => op@ == "*"@ && (t matches TypedExpression::Prefix { right, .. }
            && right.0 < exprs.len() && types[ty as int] == Ty::Ptr(expr_ty(exprs[right.0 as int]))),
        Expression::TypeHint(name, _) => t matches TypedExpression::TypeHint(n2, x, _) && n2 == name
            && x.0 < exprs.len() && ty == expr_ty(exprs[x.0 as int]),
        _ => false,
    }
}

/// The names of the generic parameters among `gs` that are names, in order.
pub open spec fn ident_names(gs: Seq<Expression>) -> Seq<Seq<char>>
    decreases gs.len(),
{
    if gs.len() == 0 {
        Seq::empty()
    } else {
        ident_names(gs.drop_last()) + match gs.last() {
            Expression::Ident(i) => seq![i.value@],
            _ => Seq::empty(),
        }
    }
}

/// The types of the expressions with ids `ids`.
pub open spec fn types_of(exprs: Seq<TypedExpression>, ids: Seq<ExprId>) -> Seq<TyId> {
    ids.map_values(|id: ExprId| expr_ty(exprs[id.0 as int]))
}

/// The entries of a map from each type hint among the expressions with ids `ids` to its
/// type, in order; a name given twice keeps its first place and takes its later type.
pub open spec fn hint_entries(exprs: Seq<TypedExpression>, ids: Seq<ExprId>) -> Seq<(Seq<char>, usize)>
    decreases ids.len(),
{
    if ids.len() == 0 {
        Seq::empty()
    } else {
        let prev = hint_entries(exprs, ids.drop_last());
        match exprs[ids.last().0 as int] {
            TypedExpression::TypeHint(n, _, ty) => entries_insert(prev, n.value@, ty),
            _ => prev,
        }
    }
}

/// Whether every id of `ids` is that of an expression.
pub open spec fn ids_in(exprs: Seq<TypedExpression>, ids: Seq<ExprId>) -> bool {
    forall|i: int| 0 <= i < ids.len() ==> (#[trigger] ids[i]).0 < exprs.len()
}

/// Whether `ty` is a function type with the given generic names, parameter types and
/// variadicity, whose return type is that of the return type expression `ret`, or `()`.
pub open spec fn fn_ty_ok(types: Seq<Ty>, exprs: Seq<TypedExpression>, ty: TyId, generics: Seq<Seq<char>>, params: Seq<TyId>, ret: Option<ExprId>, variadic: bool) -> bool {
    types[ty as int] matches Ty::Function { generics: g, params_type, ret_type, is_variadic }
        && strings_view(g@) == generics && params_type@ == params && is_variadic == variadic
        && match ret {
            Some(x) => x.0 < exprs.len() && ret_type == expr_ty(exprs[x.0 as int]),
            None => types[ret_type as int] == Ty::Unit,
        }
}

/// What checking the statement `s` gave, `t`: its token, a type that exists, and the type
/// each kind of statement has.
pub open spec fn stmt_checked(a: TypeChecker, b: TypeChecker, s: Statement, t: TypedStatement) -> bool {
    let types = b.types();
    let exprs = b.module.typed_exprs@;
    let stmts = b.module.typed_stmts@;
    let ty = stmt_ty(t);
    &&& ty < types.len()
    &&& match s {
        Statement::ExpressionStatement(e) => t matches TypedStatement::ExpressionStatement(k, x, _) && k == ast_expr_token(e)
            && x.0 < exprs.len() && ty == expr_ty(exprs[x.0 as int]),
        Statement::Let { token, name, var_type, .. } => t matches TypedStatement::Let { token: k, name: n2, var_type: v2, value, .. }
            && k == token && n2.value@ == name.value@ && n2.token == token && v2 == var_type && value.0 < exprs.len()
            && ty == match var_type {
                Some(v) => symbol_type_ty(b.table().lookup(v.value@).unwrap()),
                None => expr_ty(exprs[value.0 as int]),
            }
            && b.table().lookup(name.value@) == Some(crate::table::SymbolType::Variable(ty)),
        Statement::Const { token, name, var_type, .. } => t matches TypedStatement::Const { token: k, name: n2, var_type: v2, value, .. }
            && k == token && n2.value@ == name.value@ && n2.token == token && v2 == var_type && value.0 < exprs.len()
            && ty == match var_type {
                Some(v) => symbol_type_ty(b.table().lookup(v.value@).unwrap()),
                None => expr_ty(exprs[value.0 as int]),
            }
            && b.table().lookup(name.value@) == Some(crate::table::SymbolType::Variable(ty)),
        Statement::Return { token, expr } => t matches TypedStatement::Return { token: k, expr: x, .. } && k == token
            && (x is Some <==> expr is Some)
            && (x matches Some(i) ==> i.0 < exprs.len() && ty == expr_ty(exprs[i.0 as int]))
            && (x is None ==> types[ty as int] == Ty::Unit)
            && b.scopes@[b.scope_index as int].collect_return_types@.len() > 0
            && b.scopes@[b.scope_index as int].collect_return_types@.last() == (ty, match x {
                Some(i) => expr_token(exprs[i.0 as int]),
                None => token,
            }),
        Statement::Block { token, statements } => t matches TypedStatement::Block { token: k, statements: ids, .. } && k == token
            && ids@.len() == statements@.len()
            && (forall|i: int| 0 <= i < ids@.len() ==> (#[trigger] ids@[i]).0 < stmts.len())
            && if ids@.len() == 0 { types[ty as int] == Ty::Unit } else { ty == stmt_ty(stmts[ids@.last().0 as int]) },
        Statement::While { token, .. } => t matches TypedStatement::While { token: k, condition, block, .. } && k == token
            && condition.0 < exprs.len() && block.0 < stmts.len() && types[ty as int] == Ty::Unit,
        Statement::Use { token, full_path, alias } => t matches TypedStatement::Use { token: k, full_path: fp, alias: al, .. }
            && k == token && strings_view(fp@) == strings_view(full_path@) && al == alias && types[ty as int] == Ty::Unit,
        Statement::FuncDecl { token, name, params, ret_ty, generics_params } =>
            t matches TypedStatement::FuncDecl { token: k, name: n2, params: ps, generics_params: gs, ret_ty: r2, .. }
            && k == token && n2 == name && ps@.len() == params@.len() && gs@.len() == generics_params@.len()
            && ids_in(exprs, ps@) && ids_in(exprs, gs@) && (r2 is Some <==> ret_ty is Some)
            && fn_ty_ok(types, exprs, ty, ident_names(generics_params@), types_of(exprs, ps@), r2, false),
        Statement::Extern { token, abi, extern_func_name, alias, params, ret_ty, vararg } =>
            t matches TypedStatement::Extern { token: k, abi: a2, extern_func_name: f2, alias: al, params: ps, ret_ty: r2, vararg: v2, .. }
            && k == token && a2 == abi && f2 == extern_func_name && al == alias && v2 == vararg
            && ps@.len() == params@.len() && ids_in(exprs, ps@) && (r2 is Some <==> ret_ty is Some)
            && fn_ty_ok(types, exprs, ty, Seq::empty(), types_of(exprs, ps@), r2, vararg)
            && b.table().lookup(alias.value@) == Some(crate::table::SymbolType::Variable(ty)),
        Statement::Impl { token, impl_, for_, .. } => t matches TypedStatement::Impl { token: k, impl_: i2, for_: f2, block, .. }
            && k == token && i2 == impl_ && f2 == for_ && block.0 < stmts.len() && types[ty as int] == Ty::Unit,
        Statement::Trait { token, name, .. } => t matches TypedStatement::Trait { token: k, name: n2, block, .. }
            && k == token && n2 == name && block.0 < stmts.len()
            && (types[ty as int] matches Ty::Trait { name: tn, .. } && tn@ == name.value@)
            && (b.table().lookup(name.value@) matches Some(crate::table::SymbolType::Variable(v)) && v < types.len()
                && (types[v as int] matches Ty::Trait { name: vn, .. } && vn@ == name.value@)),
        Statement::Struct { token, name, fields, generics } =>
            t matches TypedStatement::Struct { token: k, name: n2, fields: fs, generics: gs, .. }
            && k == token && n2 == name && fs@.len() == fields@.len() && gs@.len() == generics@.len()
            && ids_in(exprs, fs@) && ids_in(exprs, gs@)
            && (types[ty as int] matches Ty::Struct { name: sn, generics: g2, impl_traits, .. }
                && sn@ == name.value@ && strings_view(g2@) == ident_names(generics@)
                && name_map_entries(impl_traits).len() == 0),
    }
}

impl TypeChecker {
    /// Adds a typed expression to the module.
    fn push_expr(&mut self, e: TypedExpression) -> (id: ExprId)
        requires
            old(self).wf(),
            expr_ty(e) < old(self).types().len(),
        ensures
            final(self).wf(),
            id.0 == old(self).module.typed_exprs@.len(),
            final(self).module.typed_exprs@ == old(self).module.typed_exprs@.push(e),
            final(self).module.typed_stmts@ == old(self).module.typed_stmts@,
            final(self).types() == old(self).types(),
            final(self).table() == old(self).table(),
            final(self).scopes@ == old(self).scopes@,
            frame(*old(self), *final(self)),
    {
        self.module.alloc_expr(e)
    }

    /// Adds a typed statement to the module.
    fn push_stmt(&mut self, st: TypedStatement) -> (id: StmtId)
        requires
            old(self).wf(),
            stmt_ty(st) < old(self).types().len(),
        ensures
            final(self).wf(),
            id.0 == old(self).module.typed_stmts@.len(),
            final(self).module.typed_stmts@ == old(self).module.typed_stmts@.push(st),
            final(self).module.typed_exprs@ == old(self).module.typed_exprs@,
            final(self).types() == old(self).types(),
            final(self).table() == old(self).table(),
            final(self).scopes@ == old(self).scopes@,
            frame(*old(self), *final(self)),
    {
        self.module.alloc_stmt(st)
    }

    /// Checks `expr` for the value it gives; see `check_expr`.
    pub fn check_expr_as_val(&mut self, expr: &Expression) -> (r: CheckResult<TypedExpression>)
        requires
            old(self).wf(),
            value_expr_ok(*expr),
        ensures
            final(self).wf(),
            grows(*old(self), *final(self)),
            r is Ok ==> frame(*old(self), *final(self)),
            final(self).compile_as == old(self).compile_as,
            r matches Ok(t) ==> expr_checked(as_value(*old(self)), *final(self), *expr, t),
            literal_expr(*expr) ==> r is Ok,
            literal_expr(*expr) ==> final(self).table() == old(self).table() && final(self).scopes@ == old(self).scopes@,
            expr matches Expression::Ident(name) ==> (old(self).table().lookup(name.value@) is Some ==> r is Ok),
            expr_closed(*expr, old(self).table()) ==> r is Ok && final(self).table() == old(self).table(),
        decreases 3 * old(self).free_defs() + 2, expr, 3nat,
    {
        let old_mode = self.compile_as;
        self.compile_as = CompileAs::AsValue;
        let ghost mid = *self;
        let result = self.check_expr(expr);
        self.compile_as = old_mode;
        result
    }

    /// Checks `expr` and gives its typed form; its parts are checked and added to the
    /// module first (see `expr_checked`).
    #[verifier::rlimit(100)]
    #[verifier::spinoff_prover]
    pub fn check_expr(&mut self, expr: &Expression) -> (r: CheckResult<TypedExpression>)
        requires
            old(self).wf(),
            value_expr_ok(*expr),
        ensures
            final(self).wf(),
            grows(*old(self), *final(self)),
            r is Ok ==> frame(*old(self), *final(self)),
            r matches Ok(t) ==> expr_checked(*old(self), *final(self), *expr, t),
            expr matches Expression::Ident(name) ==> (old(self).table().lookup(name.value@) is Some ==> r is Ok),
            expr matches Expression::Ident(name) ==> (!old(self).name_known(name.value@) ==> (r matches Err(e)
                && e.kind == TypeCheckerErrorKind::VariableNotFound && e.token == name.token && e.message is None)),
            (expr is UnknownTypeInt || expr is Bool || expr is Int || expr is StrLiteral) ==> r is Ok,
            literal_expr(*expr) ==> final(self).table() == old(self).table() && final(self).scopes@ == old(self).scopes@,
            expr matches Expression::Ident(name) ==> (!old(self).name_known(name.value@) ==> *final(self) == *old(self)),
            expr matches Expression::SizeOf(_, inner) ==> (literal_expr(**inner)
                || (**inner matches Expression::Ident(n) && old(self).table().lookup(n.value@) is Some) ==> r is Ok),
            expr_closed(*expr, old(self).table()) ==> r is Ok && final(self).table() == old(self).table(),
        decreases 3 * old(self).free_defs() + 2, expr, 2nat,
    {
        let ghost n = self.types().len() as int;
        match expr {
            Expression::UnknownTypeInt { token, value } => {
                let ty = self.alloc_ty(Ty::Unknown);
                Ok(TypedExpression::UnknownTypeInt { token: token.copy(), value: big_decimal_clone(value), ty })
            },
            Expression::Bool { token, value } => {
                let ty = self.alloc_ty(Ty::Bool);
                Ok(TypedExpression::Bool { token: token.copy(), value: *value, ty })
            },
            Expression::Int { token, value } => {
                let ty = self.alloc_ty(Ty::IntTy(IntTy::from(*value)));
                Ok(TypedExpression::Int { token: token.copy(), value: *value, ty })
            },
            Expression::StrLiteral { token, value } => {
                let ty = self.alloc_ty(Ty::Str);
                Ok(TypedExpression::StrLiteral { token: token.copy(), value: value.clone(), ty })
            },
            Expression::SizeOf(token, inner) => {
                let e = match self.check_expr_as_val(inner) {
                    Ok(e) => e,
                    Err(err) => return Err(err),
                };
                let id = self.push_expr(e);
                let ty = self.alloc_ty(Ty::IntTy(IntTy::USize));
                Ok(TypedExpression::SizeOf(token.copy(), id, ty))
            },
            Expression::Cast { token, val, cast_to } => {
                let typed_val = match self.check_expr_as_val(val) {
                    Ok(e) => e,
                    Err(err) => return Err(err),
                };
                let typed_cast_to = match self.check_type_expr(cast_to) {
                    Ok(e) => e,
                    Err(err) => return Err(err),
                };
                let cast_to_ty = typed_cast_to.get_type();
                let val_id = self.push_expr(typed_val);
                let cast_to_id = self.push_expr(typed_cast_to);
                Ok(TypedExpression::Cast { token: token.copy(), val: val_id, cast_to: cast_to_id, ty: cast_to_ty })
            },
            Expression::Assign { token, left, right } => {
                let typed_left = match self.check_expr_as_val(left) {
                    Ok(e) => e,
                    Err(err) => return Err(err),
                };
                let typed_right = match self.check_expr_as_val(right) {
                    Ok(e) => e,
                    Err(err) => return Err(err),
                };
                let ty = self.alloc_ty(Ty::Unit);
                let left_id = self.push_expr(typed_left);
                let right_id = self.push_expr(typed_right);
                Ok(TypedExpression::Assign { token: token.copy(), ty, left: left_id, right: right_id })
            },
            Expression::Ident(it) => self.check_ident(expr, it),
            Expression::Infix { token, op, left, right } => {
                let left_t = match self.check_expr_as_val(left) {
                    Ok(e) => e,
                    Err(err) => return Err(err),
                };
                let right_t = match self.check_expr_as_val(right) {
                    Ok(e) => e,
                    Err(err) => return Err(err),
                };
                let lty = left_t.get_type();
                let ty = if bool_infix_operator(op.as_str()) {
                    self.alloc_ty(Ty::Bool)
                } else {
                    lty
                };
                let left_id = self.push_expr(left_t);
                let right_id = self.push_expr(right_t);
                Ok(TypedExpression::Infix { token: token.copy(), ty, left: left_id, right: right_id, op: op.clone() })
            },
            Expression::BoolAnd { token, left, right } => {
                let left_t = match self.check_expr_as_val(left) {
                    Ok(e) => e,
                    Err(err) => return Err(err),
                };
                let right_t = match self.check_expr_as_val(right) {
                    Ok(e) => e,
                    Err(err) => return Err(err),
                };
                let left_id = self.push_expr(left_t);
                let right_id = self.push_expr(right_t);
                let ty = self.alloc_ty(Ty::Bool);
                Ok(TypedExpression::BoolAnd { token: token.copy(), left: left_id, right: right_id, ty })
            },
            Expression::BoolOr { token, left, right } => {
                let left_t = match self.check_expr_as_val(left) {
                    Ok(e) => e,
                    Err(err) => return Err(err),
                };
                let right_t = match self.check_expr_as_val(right) {
                    Ok(e) => e,
                    Err(err) => return Err(err),
                };
                let left_id = self.push_expr(left_t);
                let right_id = self.push_expr(right_t);
                let ty = self.alloc_ty(Ty::Bool);
                Ok(TypedExpression::BoolOr { token: token.copy(), left: left_id, right: right_id, ty })
            },
            Expression::TypeHint(ident, ty_expr) => {
                let new_ty_expr = match self.check_type_expr(ty_expr) {
                    Ok(e) => e,
                    Err(err) => return Err(err),
                };
                let ty = new_ty_expr.get_type();
                let id = self.push_expr(new_ty_expr);
                Ok(TypedExpression::TypeHint(ident.copy(), id, ty))
            },
            Expression::Prefix { token, op, right } => self.check_prefix(expr, token, op, right),
            Expression::If { token, condition, consequence, else_block } => self.check_if(expr, token, condition, consequence, else_block),
            Expression::Call { token, func, args } => self.check_call(expr, token, func, args),
            Expression::GenericInstance { token, left, paths } => self.check_generic_instance(expr, token, left, paths),
            Expression::Block(token, statements) => self.check_block_expr(expr, token, statements),
            Expression::Function { token, name, params, block, ret_ty, generics_params } =>
                self.check_function(expr, token, name, params, block, ret_ty, generics_params),
            Expression::FieldAccess(token, struct_expr, field) => self.check_field_access(expr, token, struct_expr, field),
            Expression::BuildStruct(token, name, fields) => self.check_build_struct(expr, token, name, fields),
            Expression::TypePath { .. } => {
                proof {
                    assert(false);
                }
                Err(make_err(Some("a type path is no value"), TypeCheckerErrorKind::Other, expr.token()))
            },
        }
    }

    /// Checks a name used as a value: the type of its symbol, or else that of the definition
    /// of the current module it names, resolved if need be (see `resolve_def_type`); else
    /// a `VariableNotFound` error at its token.
    fn check_ident(&mut self, expr: &Expression, it: &Ident) -> (r: CheckResult<TypedExpression>)
        requires
            old(self).wf(),
            *expr == Expression::Ident(*it),
        ensures
            final(self).wf(),
            grows(*old(self), *final(self)),
            r is Ok ==> frame(*old(self), *final(self)),
            r matches Ok(t) ==> expr_checked(*old(self), *final(self), *expr, t),
            old(self).table().lookup(it.value@) is Some ==> r is Ok,
            !old(self).name_known(it.value@) ==> (r matches Err(e)
                && e.kind == TypeCheckerErrorKind::VariableNotFound && e.token == it.token && e.message is None),
            !old(self).name_known(it.value@) ==> *final(self) == *old(self),
            old(self).table().lookup(it.value@) is Some ==> *final(self) == *old(self),
        decreases 3 * old(self).free_defs() + 2, expr, 1nat,
    {
        proof {
            lemma_lookup_below(self.table(), self.types().len() as int, it.value@);
        }
        if let Some(symbol) = self.module.tcx.table.get(it.value.as_str()) {
            let def = match self.lookup_name(it.value.as_str()) {
                Some(i) => Some(self.globals[i].def_id),
                None => None,
            };
            Ok(TypedExpression::Ident(it.copy(), symbol.ty.get_type(), def))
        } else if let Some(i) = self.lookup_name(it.value.as_str()) {
            let def_id = self.globals[i].def_id;
            match self.resolve_def_type(def_id) {
                Ok(ty) => Ok(TypedExpression::Ident(it.copy(), ty, Some(def_id))),
                Err(err) => Err(err),
            }
        } else {
            Err(make_err(None, TypeCheckerErrorKind::VariableNotFound, it.token.copy()))
        }
    }

    /// Checks a prefix expression: `!` gives a boolean, `-` and `+` the operand's type, `&` a
    /// pointer to it, `*` the type it points to; any other operator is an error.
    fn check_prefix(&mut self, expr: &Expression, token: &Token, op: &String, right: &Box<Expression>) -> (r: CheckResult<TypedExpression>)
        requires
            old(self).wf(),
            value_expr_ok(*expr),
            *expr == (Expression::Prefix { token: *token, op: *op, right: *right }),
        ensures
            final(self).wf(),
            grows(*old(self), *final(self)),
            r is Ok ==> frame(*old(self), *final(self)),
            r matches Ok(t) ==> expr_checked(*old(self), *final(self), *expr, t),
            literal_expr(**right) && (op@ == "!"@ || op@ == "-"@ || op@ == "+"@ || op@ == "&"@) ==> r is Ok,
            literal_expr(**right) && !(op@ == "!"@ || op@ == "-"@ || op@ == "+"@ || op@ == "&"@ || op@ == "*"@)
                ==> (r matches Err(e) && e.kind == TypeCheckerErrorKind::Other && e.token == *token
                && (e.message matches Some(m) && m@ == "unknown operator `"@ + token.value@ + "`"@)),
            !(op@ == "!"@ || op@ == "-"@ || op@ == "+"@ || op@ == "&"@ || op@ == "*"@) ==> r is Err,
            expr_closed(*expr, old(self).table()) ==> r is Ok && final(self).table() == old(self).table(),
        decreases 3 * old(self).free_defs() + 2, expr, 1nat,
    {
        let ghost n = self.types().len() as int;
        let right_t = match self.check_expr_as_val(right) {
            Ok(e) => e,
            Err(err) => return Err(err),
        };
        let rty = right_t.get_type();
        proof {
            reveal_strlit("!");
            reveal_strlit("-");
            reveal_strlit("+");
            reveal_strlit("&");
            reveal_strlit("*");
        }
        let ty = if str_eq(op.as_str(), "!") {
            self.alloc_ty(Ty::Bool)
        } else if str_eq(op.as_str(), "-") || str_eq(op.as_str(), "+") {
            rty
        } else if str_eq(op.as_str(), "&") {
            self.alloc_ty(Ty::Ptr(rty))
        } else if str_eq(op.as_str(), "*") {
            let inner = match self.module.tcx.get(rty) {
                Ty::Ptr(inner) => Some(*inner),
                _ => None,
            };
            match inner {
                Some(inner) => {
                    proof {
                        assert(ty_parts_below(self.types()[rty as int], rty as int));
                    }
                    inner
                },
                None => {
                    return Err(self.deref_error(rty, right_t.token()));
                },
            }
        } else {
            let mut m = String::from_str("unknown operator `");
            m.append(token.value.as_str());
            m.append("`");
            proof {
                reveal_strlit("unknown operator `");
                reveal_strlit("`");
            }
            return Err(TypeCheckerError { kind: TypeCheckerErrorKind::Other, token: token.copy(), message: Some(m) });
        };
        let right_id = self.push_expr(right_t);
        Ok(TypedExpression::Prefix { token: token.copy(), op: op.clone(), right: right_id, ty })
    }

    /// Checks an `if`: its type is that of its consequence; without an `else`, a value must be `()`.
    fn check_if(&mut self, expr: &Expression, token: &Token, condition: &Box<Expression>, consequence: &Box<Expression>, else_block: &Option<Box<Expression>>) -> (r: CheckResult<TypedExpression>)
        requires
            old(self).wf(),
            value_expr_ok(*expr),
            *expr == (Expression::If { token: *token, condition: *condition, consequence: *consequence, else_block: *else_block }),
        ensures
            final(self).wf(),
            grows(*old(self), *final(self)),
            r is Ok ==> frame(*old(self), *final(self)),
            r matches Ok(t) ==> expr_checked(*old(self), *final(self), *expr, t),
            expr_closed(**condition, old(self).table()) && expr_closed(**consequence, old(self).table())
                && (else_block matches Some(e) ==> expr_closed(**e, old(self).table()))
                && (else_block is None ==> old(self).compile_as != CompileAs::AsValue)
                ==> r is Ok && final(self).table() == old(self).table(),
            expr_closed(**condition, old(self).table()) && literal_expr(**consequence) && else_block is None
                && old(self).compile_as == CompileAs::AsValue ==> (r matches Err(e) && e.kind == TypeCheckerErrorKind::Other
                && e.token == *token && (e.message matches Some(m) && m@ == "`if` may be missing an `else` clause"@)),
        decreases 3 * old(self).free_defs() + 2, expr, 1nat,
    {
        let ghost n = self.types().len() as int;
        let ghost s0 = *self;
        let typed_condition = match self.check_expr_as_val(condition) {
            Ok(e) => e,
            Err(err) => return Err(err),
        };
        let typed_consequence = if self.compile_as == CompileAs::AsValue {
            match self.check_expr_as_val(consequence) {
                Ok(e) => e,
                Err(err) => return Err(err),
            }
        } else {
            match self.check_expr(consequence) {
                Ok(e) => e,
                Err(err) => return Err(err),
            }
        };
        let typed_else_block = match else_block {
            Some(it) => {
                let e = if self.compile_as == CompileAs::AsValue {
                    self.check_expr_as_val(it)
                } else {
                    self.check_expr(it)
                };
                let e = match e {
                    Ok(e) => e,
                    Err(err) => return Err(err),
                };
                Some(self.push_expr(e))
            },
            None => {
                let consequence_ty = typed_consequence.get_type();
                proof {
                    if literal_expr(**consequence) && s0.compile_as == CompileAs::AsValue {
                        assert(!(self.types()[consequence_ty as int] is Unit));
                    }
                }
                let is_unit = match self.module.tcx.get(consequence_ty) {
                    Ty::Unit => true,
                    _ => false,
                };
                if self.compile_as == CompileAs::AsValue && !is_unit {
                    return Err(make_err(
                        Some("`if` may be missing an `else` clause"),
                        TypeCheckerErrorKind::Other,
                        token.copy(),
                    ));
                }
                None
            },
        };
        let ty = typed_consequence.get_type();
        let condition_id = self.push_expr(typed_condition);
        let consequence_id = self.push_expr(typed_consequence);
        Ok(TypedExpression::If {
            token: token.copy(),
            ty,
            condition: condition_id,
            consequence: consequence_id,
            else_block: typed_else_block,
        })
    }

    /// Checks a call: the callee must have a function type, whose return type is the call's.
    fn check_call(&mut self, expr: &Expression, token: &Token, func: &Box<Expression>, args: &Vec<Expression>) -> (r: CheckResult<TypedExpression>)
        requires
            old(self).wf(),
            value_expr_ok(*expr),
            *expr == (Expression::Call { token: *token, func: *func, args: *args }),
        ensures
            final(self).wf(),
            grows(*old(self), *final(self)),
            r is Ok ==> frame(*old(self), *final(self)),
            r matches Ok(t) ==> expr_checked(*old(self), *final(self), *expr, t),
            literal_expr(**func) ==> (r matches Err(e) && e.kind == TypeCheckerErrorKind::TypeMismatch
                && e.token == ast_expr_token(**func) && (e.message matches Some(m) && m@ == "not a function"@)),
        decreases 3 * old(self).free_defs() + 2, expr, 1nat,
    {
        let ghost n = self.types().len() as int;
        let ghost s0 = *self;
        let typed_func = match self.check_expr(func) {
            Ok(e) => e,
            Err(err) => return Err(err),
        };
        let func_ty = typed_func.get_type();
        proof {
            if literal_expr(**func) {
                assert(expr_checked(s0, *self, **func, typed_func));
                assert(!(self.types()[func_ty as int] is Function));
            }
        }
        let ret_type = match self.module.tcx.get(func_ty) {
            Ty::Function { ret_type, .. } => *ret_type,
            _ => {
                return Err(make_err(Some("not a function"), TypeCheckerErrorKind::TypeMismatch, typed_func.token()));
            },
        };
        proof {
            assert(ty_parts_below(self.types()[func_ty as int], func_ty as int));
        }
        let ghost s1 = *self;
        let mut typed_arg_ids: Vec<ExprId> = Vec::new();
        let mut i: usize = 0;
        proof {
            lemma_call_args(*expr, *args);
        }
        while i < args.len()
            invariant
                self.wf(),
                frame(s1, *self),
                frame(*old(self), *self),
                *expr == (Expression::Call { token: *token, func: *func, args: *args }),
                i <= args@.len(),
                typed_arg_ids@.len() == i,
                forall|j: int| 0 <= j < args@.len() ==> value_expr_ok(#[trigger] args@[j]) && decreases_to!(*expr => args@[j]),
                forall|j: int| 0 <= j < i ==> (#[trigger] typed_arg_ids@[j]).0 < self.module.typed_exprs@.len(),
                func_ty < s1.types().len(),
                expr_ty(typed_func) == func_ty,
                s1.types()[func_ty as int] matches Ty::Function { ret_type: rt, .. } && rt == ret_type,
                ret_type < s1.types().len(),
                !literal_expr(**func),
            decreases args@.len() - i,
        {
            let e = match self.check_expr(&args[i]) {
                Ok(e) => e,
                Err(err) => return Err(err),
            };
            let id = self.push_expr(e);
            typed_arg_ids.push(id);
            i = i + 1;
        }
        let func_id = self.push_expr(typed_func);
        Ok(TypedExpression::Call { token: token.copy(), func_ty, args: typed_arg_ids, func: func_id, ret_ty: ret_type })
    }

    /// Checks a generic function applied to type arguments; its type is left to inference.
    fn check_generic_instance(&mut self, expr: &Expression, token: &Token, left: &Box<Expression>, paths: &Vec<Expression>) -> (r: CheckResult<TypedExpression>)
        requires
            old(self).wf(),
            value_expr_ok(*expr),
            *expr == (Expression::GenericInstance { token: *token, left: *left, paths: *paths }),
        ensures
            final(self).wf(),
            grows(*old(self), *final(self)),
            r is Ok ==> frame(*old(self), *final(self)),
            r matches Ok(t) ==> expr_checked(*old(self), *final(self), *expr, t),
        decreases 3 * old(self).free_defs() + 2, expr, 1nat,
    {
        let ghost n = self.types().len() as int;
        let typed_left = match self.check_expr_as_val(left) {
            Ok(e) => e,
            Err(err) => return Err(err),
        };
        let initial_ty = typed_left.get_type();
        let left_id = self.push_expr(typed_left);
        let ghost s1 = *self;
        let mut typed_paths: Vec<ExprId> = Vec::new();
        let mut i: usize = 0;
        proof {
            lemma_generic_paths(*expr, *paths);
        }
        while i < paths.len()
            invariant
                self.wf(),
                frame(s1, *self),
                frame(*old(self), *self),
                *expr == (Expression::GenericInstance { token: *token, left: *left, paths: *paths }),
                i <= paths@.len(),
                typed_paths@.len() == i,
                forall|j: int| 0 <= j < paths@.len() ==> type_expr_ok(#[trigger] paths@[j]) && decreases_to!(*expr => paths@[j]),
                left_id.0 < s1.module.typed_exprs@.len(),
                expr_ty(s1.module.typed_exprs@[left_id.0 as int]) == initial_ty,
            decreases paths@.len() - i,
        {
            let e = match self.check_type_expr(&paths[i]) {
                Ok(e) => e,
                Err(err) => return Err(err),
            };
            let id = self.push_expr(e);
            typed_paths.push(id);
            i = i + 1;
        }
        Ok(TypedExpression::GenericInstance { token: token.copy(), left: left_id, paths: typed_paths, ty: initial_ty })
    }

    /// Checks a block expression: each statement in turn; its type is that of the last
    /// statement, or `()` when there is none.
    fn check_block_expr(&mut self, expr: &Expression, token: &Token, statements: &Vec<Statement>) -> (r: CheckResult<TypedExpression>)
        requires
            old(self).wf(),
            value_expr_ok(*expr),
            *expr == Expression::Block(*token, *statements),
        ensures
            final(self).wf(),
            grows(*old(self), *final(self)),
            r is Ok ==> frame(*old(self), *final(self)),
            r matches Ok(t) ==> expr_checked(*old(self), *final(self), *expr, t),
            stmts_always_check(statements@) ==> r is Ok,
            stmts_closed(statements@, old(self).table()) ==> r is Ok,
        decreases 3 * old(self).free_defs() + 2, expr, 1nat,
    {
        proof {
            lemma_block_stmts(*expr, *statements);
            assert(decreases_to!(*expr => (*expr)->Block_1));
        }
        let (stmt_ids, ty) = match self.check_stmt_list(statements) {
            Ok(p) => p,
            Err(err) => return Err(err),
        };
        Ok(TypedExpression::Block(token.copy(), stmt_ids, ty))
    }

    /// Checks each statement in turn and gives their ids and the type of the last, or `()`
    /// when there is none.
    fn check_stmt_list(&mut self, statements: &Vec<Statement>) -> (r: CheckResult<(Vec<StmtId>, TyId)>)
        requires
            old(self).wf(),
            forall|i: int| 0 <= i < statements@.len() ==> stmt_ok(#[trigger] statements@[i]),
        ensures
            final(self).wf(),
            grows(*old(self), *final(self)),
            r is Ok ==> frame(*old(self), *final(self)),
            r matches Ok(p) ==> {
                let (ids, ty) = p;
                let stmts = final(self).module.typed_stmts@;
                &&& ids@.len() == statements@.len()
                &&& forall|i: int| 0 <= i < ids@.len() ==> (#[trigger] ids@[i]).0 < stmts.len()
                &&& ty < final(self).types().len()
                &&& if ids@.len() == 0 { final(self).types()[ty as int] == Ty::Unit } else { ty == stmt_ty(stmts[ids@.last().0 as int]) }
            },
            stmts_always_check(statements@) ==> r is Ok,
            stmts_closed(statements@, old(self).table()) ==> r is Ok && table_extends(old(self).table(), final(self).table()),
        decreases 3 * old(self).free_defs() + 2, statements, 0nat,
    {
        let mut stmt_ids: Vec<StmtId> = Vec::new();
        let mut i: usize = 0;
        while i < statements.len()
            invariant
                self.wf(),
                frame(*old(self), *self),
                i <= statements@.len(),
                stmt_ids@.len() == i,
                forall|j: int| 0 <= j < statements@.len() ==> stmt_ok(#[trigger] statements@[j]),
                forall|j: int| 0 <= j < i ==> (#[trigger] stmt_ids@[j]).0 < self.module.typed_stmts@.len(),
                i > 0 ==> stmt_ids@.last().0 == self.module.typed_stmts@.len() - 1,
                stmts_closed(statements@, old(self).table()) ==> table_extends(old(self).table(), self.table()),
            decreases statements@.len() - i,
        {
            proof {
                assert(decreases_to!(statements => statements@));
                assert(decreases_to!(statements@ => statements@[i as int]));
                if stmts_closed(statements@, old(self).table()) {
                    assert(stmt_closed(statements@[i as int], old(self).table()));
                    lemma_stmt_closed_mono(statements@[i as int], old(self).table(), self.table());
                }
            }
            let ghost before = *self;
            let typed_stmt = match self.check_statement(&statements[i]) {
                Ok(t) => t,
                Err(err) => {
                    proof {
                        assert(stmts_always_check(statements@) ==> stmt_always_checks(statements@[i as int]));
                    }
                    return Err(err);
                },
            };
            let ghost after = *self;
            let id = self.push_stmt(typed_stmt);
            stmt_ids.push(id);
            proof {
                assert(self.table() == after.table());
                if stmts_closed(statements@, old(self).table()) {
                    assert forall|n: Seq<char>| #[trigger] old(self).table().lookup(n) is Some implies self.table().lookup(n) is Some by {
                        assert(before.table().lookup(n) is Some);
                    }
                }
            }
            i = i + 1;
        }
        let unit = self.alloc_ty(Ty::Unit);
        let ty = if stmt_ids.len() == 0 {
            unit
        } else {
            self.module.typed_stmts[stmt_ids[stmt_ids.len() - 1].0].get_type()
        };
        Ok((stmt_ids, ty))
    }

    /// Checks `stmt` and gives its typed form (see `stmt_checked`); `let` and `const` bind
    /// their name in the innermost scope, and `return` records its type in the current
    /// scope.
    #[verifier::spinoff_prover]
    #[verifier::rlimit(100)]
    pub fn check_statement(&mut self, stmt: &Statement) -> (r: CheckResult<TypedStatement>)
        requires
            old(self).wf(),
            stmt_ok(*stmt),
        ensures
            final(self).wf(),
            grows(*old(self), *final(self)),
            r is Ok ==> frame(*old(self), *final(self)),
            r matches Ok(t) ==> stmt_checked(*old(self), *final(self), *stmt, t),
            stmt_always_checks(*stmt) ==> r is Ok,
            stmt_closed(*stmt, old(self).table()) ==> r is Ok && table_extends(old(self).table(), final(self).table()),
            *stmt matches Statement::Let { var_type: Some(v), value, .. } ==> (literal_expr(value)
                ==> (old(self).table().lookup(v.value@) is Some ==> r is Ok)
                && (old(self).table().lookup(v.value@) is None ==> (r matches Err(e) && e.kind == TypeCheckerErrorKind::TypeNotFound
                    && e.token == v.token && e.message is None && final(self).table() == old(self).table()))),
            *stmt matches Statement::Const { var_type: Some(v), value, .. } ==> (literal_expr(value) && !(value is UnknownTypeInt)
                ==> (old(self).table().lookup(v.value@) is Some ==> r is Ok)
                && (old(self).table().lookup(v.value@) is None ==> (r matches Err(e) && e.kind == TypeCheckerErrorKind::TypeNotFound
                    && e.token == v.token && e.message is None && final(self).table() == old(self).table()))),
            *stmt matches Statement::Return { expr, .. } ==> ((expr matches Some(e) ==> literal_expr(e))
                ==> final(self).scope_index == old(self).scope_index
                && final(self).scopes@[old(self).scope_index as int].collect_return_types@.drop_last()
                    == old(self).scopes@[old(self).scope_index as int].collect_return_types@),
            *stmt matches Statement::Const { value, .. } ==> (!(value is Bool || value is Int || value is StrLiteral)
                ==> *final(self) == *old(self) && (r matches Err(e) && e.kind == TypeCheckerErrorKind::NotAConstant
                && e.token == ast_expr_token(value)
                && (e.message matches Some(m) && m@ == "expression `"@ + ast_expr_token(value).value@ + "` is not a constant"@))),
        decreases 3 * old(self).free_defs() + 2, stmt, 2nat,
    {
        match stmt {
            Statement::While { token, condition, block } => {
                let typed_condition = match self.check_expr(condition) {
                    Ok(e) => e,
                    Err(err) => return Err(err),
                };
                let typed_block = match self.check_statement(block) {
                    Ok(t) => t,
                    Err(err) => return Err(err),
                };
                let condition_id = self.push_expr(typed_condition);
                let block_id = self.push_stmt(typed_block);
                let ty = self.alloc_ty(Ty::Unit);
                Ok(TypedStatement::While { token: token.copy(), condition: condition_id, block: block_id, ty })
            },
            Statement::ExpressionStatement(expr) => {
                let token = expr.token();
                let typed_expr = match self.check_expr(expr) {
                    Ok(e) => e,
                    Err(err) => return Err(err),
                };
                let ty = typed_expr.get_type();
                let id = self.push_expr(typed_expr);
                Ok(TypedStatement::ExpressionStatement(token, id, ty))
            },
            Statement::Let { token, name, var_type, value } => {
                let (typed_name, typed_var_type, value_id, ty) = match self.check_binding(stmt, token, name, var_type, value) {
                    Ok(p) => p,
                    Err(err) => return Err(err),
                };
                Ok(TypedStatement::Let { token: token.copy(), name: typed_name, var_type: typed_var_type, ty, value: value_id })
            },
            Statement::Const { token, name, var_type, value } => {
                if !value.is_literal() {
                    let k = value.token();
                    let mut m = String::from_str("expression `");
                    m.append(k.value.as_str());
                    m.append("` is not a constant");
                    proof {
                        reveal_strlit("expression `");
                        reveal_strlit("` is not a constant");
                    }
                    return Err(TypeCheckerError { kind: TypeCheckerErrorKind::NotAConstant, token: k, message: Some(m) });
                }
                let (typed_name, typed_var_type, value_id, ty) = match self.check_binding(stmt, token, name, var_type, value) {
                    Ok(p) => p,
                    Err(err) => return Err(err),
                };
                Ok(TypedStatement::Const { token: token.copy(), name: typed_name, var_type: typed_var_type, ty, value: value_id })
            },
            Statement::Return { token, expr } => {
                let typed = match expr {
                    Some(it) => match self.check_expr(it) {
                        Ok(e) => Some(e),
                        Err(err) => return Err(err),
                    },
                    None => None,
                };
                let (ret_ty, ret_token) = match &typed {
                    Some(e) => (e.get_type(), e.token()),
                    None => (self.alloc_ty(Ty::Unit), token.copy()),
                };
                let ghost before = *self;
                let idx = self.scope_index;
                self.scopes[idx].collect_return_types.push((ret_ty, ret_token));
                proof {
                    assert forall|i: int| 0 <= i < before.scopes@.len() implies #[trigger] self.scopes@[i].kind == before.scopes@[i].kind by {
                    }
                }
                let expr_id = match typed {
                    Some(e) => Some(self.push_expr(e)),
                    None => None,
                };
                Ok(TypedStatement::Return { token: token.copy(), expr: expr_id, ty: ret_ty })
            },
            Statement::Block { token, statements } => {
                proof {
                    lemma_block_stmt_stmts(*stmt, *statements);
                }
                let (stmt_ids, ty) = match self.check_stmt_list(statements) {
                    Ok(p) => p,
                    Err(err) => return Err(err),
                };
                Ok(TypedStatement::Block { token: token.copy(), statements: stmt_ids, ty })
            },
            Statement::Use { token, full_path, alias } => {
                let ty = self.alloc_ty(Ty::Unit);
                let alias_copy = match alias {
                    Some(a) => Some(a.copy()),
                    None => None,
                };
                Ok(TypedStatement::Use { token: token.copy(), full_path: crate::ty::strings_copy(full_path), alias: alias_copy, ty })
            },
            Statement::FuncDecl { token, name, params, ret_ty, generics_params } =>
                self.check_func_decl(stmt, token, name, params, ret_ty, generics_params),
            Statement::Extern { token, abi, extern_func_name, alias, params, ret_ty, vararg } =>
                self.check_extern(stmt, token, abi, extern_func_name, alias, params, ret_ty, *vararg),
            Statement::Struct { token, name, fields, generics } => self.check_struct(stmt, token, name, fields, generics),
            Statement::Trait { token, name, block } => self.check_trait(stmt, token, name, block),
            Statement::Impl { token, impl_, for_, block } => self.check_impl(stmt, token, impl_, for_, block),
        }
    }

    /// Binds `name` to a variable of type `ty` in the innermost scope.
    fn define(&mut self, name: &str, ty: TyId)
        requires
            old(self).wf(),
            ty < old(self).types().len(),
        ensures
            final(self).wf(),
            frame(*old(self), *final(self)),
            final(self).module.typed_exprs@ == old(self).module.typed_exprs@,
            final(self).module.typed_stmts@ == old(self).module.typed_stmts@,
            final(self).types() == old(self).types(),
            final(self).table().scopes() == old(self).table().scopes().update(0,
                crate::table::scope_insert(old(self).table().scopes()[0], name@, crate::table::SymbolType::Variable(ty))),
            final(self).table().lookup(name@) == Some(crate::table::SymbolType::Variable(ty)),
            final(self).compile_as == old(self).compile_as,
            final(self).scopes@ == old(self).scopes@,
    {
        let ghost before = self.table();
        self.module.tcx.table.define_var(name, ty);
        proof {
            before.lemma_scopes_len();
            crate::table::lemma_define_below(before, self.table(), name@, ty, self.types().len() as int);
            crate::table::law_define_then_get(before, self.table(), name@, ty, name@);
        }
    }

    /// Binds each generic parameter that is a name to a new generic type of that name, and
    /// gives the names.
    fn define_generics(&mut self, generics: &Vec<Expression>) -> (names: Vec<String>)
        requires
            old(self).wf(),
        ensures
            final(self).wf(),
            frame(*old(self), *final(self)),
            final(self).module.typed_exprs@ == old(self).module.typed_exprs@,
            final(self).module.typed_stmts@ == old(self).module.typed_stmts@,
            strings_view(names@) == ident_names(generics@),
    {
        let mut names: Vec<String> = Vec::new();
        let mut i: usize = 0;
        assert(strings_view(names@) =~= Seq::<Seq<char>>::empty());
        assert(generics@.take(0) =~= Seq::<Expression>::empty());
        while i < generics.len()
            invariant
                self.wf(),
                frame(*old(self), *self),
                self.module.typed_exprs@ == old(self).module.typed_exprs@,
                self.module.typed_stmts@ == old(self).module.typed_stmts@,
                i <= generics@.len(),
                strings_view(names@) == ident_names(generics@.take(i as int)),
            decreases generics@.len() - i,
        {
            let ghost before = names@;
            assert(generics@.take(i as int + 1).drop_last() =~= generics@.take(i as int));
            assert(generics@.take(i as int + 1).last() == generics@[i as int]);
            match &generics[i] {
                Expression::Ident(it) => {
                    let ty_id = self.alloc_ty(Ty::Generic(it.value.clone(), Vec::new()));
                    self.define(it.value.as_str(), ty_id);
                    names.push(it.value.clone());
                    assert(strings_view(names@) =~= strings_view(before) + seq![it.value@]);
                },
                _ => {
                    assert(strings_view(names@) =~= strings_view(before) + Seq::<Seq<char>>::empty());
                },
            }
            i = i + 1;
        }
        assert(generics@.take(generics@.len() as int) =~= generics@);
        names
    }

    /// Removes the binding of each generic parameter that is a name from the innermost scope.
    fn remove_generics(&mut self, generics: &Vec<Expression>)
        requires
            old(self).wf(),
        ensures
            final(self).wf(),
            frame(*old(self), *final(self)),
            final(self).module.typed_exprs@ == old(self).module.typed_exprs@,
            final(self).module.typed_stmts@ == old(self).module.typed_stmts@,
            final(self).types() == old(self).types(),
            forall|k: int| 1 <= k < old(self).table().scopes().len() ==>
                #[trigger] final(self).table().scopes()[k] == old(self).table().scopes()[k],
            forall|name: Seq<char>| #[trigger] scope_lookup(final(self).table().scopes()[0], name)
                == if generic_named(generics@, generics@.len() as int, name) { None }
                else { scope_lookup(old(self).table().scopes()[0], name) },
    {
        let mut i: usize = 0;
        proof {
            old(self).table().lemma_scopes_len();
        }
        while i < generics.len()
            invariant
                self.wf(),
                frame(*old(self), *self),
                self.module.typed_exprs@ == old(self).module.typed_exprs@,
                self.module.typed_stmts@ == old(self).module.typed_stmts@,
                self.types() == old(self).types(),
                i <= generics@.len(),
                old(self).table().scopes().len() >= 1,
                forall|k: int| 1 <= k < old(self).table().scopes().len() ==>
                    #[trigger] self.table().scopes()[k] == old(self).table().scopes()[k],
                forall|name: Seq<char>| #[trigger] scope_lookup(self.table().scopes()[0], name)
                    == if generic_named(generics@, i as int, name) { None }
                    else { scope_lookup(old(self).table().scopes()[0], name) },
            decreases generics@.len() - i,
        {
            let ghost before = self.table();
            if let Expression::Ident(it) = &generics[i] {
                self.module.tcx.table.remove(it.value.as_str());
                proof {
                    before.lemma_scopes_len();
                    crate::table::lemma_remove_below(before, self.table(), it.value@, self.types().len() as int);
                    assert forall|name: Seq<char>| #[trigger] scope_lookup(self.table().scopes()[0], name)
                        == if generic_named(generics@, i + 1, name) { None }
                        else { scope_lookup(old(self).table().scopes()[0], name) } by {
                        crate::table::lemma_scope_remove_lookup(before.scopes()[0], it.value@, name);
                        if generic_named(generics@, i as int, name) {
                            let k = choose|k: int| 0 <= k < i && (#[trigger] generics@[k] matches Expression::Ident(g) && g.value@ == name);
                            assert(0 <= k < i + 1);
                        }
                        if name == it.value@ {
                            assert(generics@[i as int] matches Expression::Ident(g) && g.value@ == name);
                        }
                        if generic_named(generics@, i + 1, name) && name != it.value@ {
                            let k = choose|k: int| 0 <= k < i + 1 && (#[trigger] generics@[k] matches Expression::Ident(g) && g.value@ == name);
                            assert(k != i);
                        }
                    }
                }
            } else {
                proof {
                    assert forall|name: Seq<char>| generic_named(generics@, i + 1, name) == generic_named(generics@, i as int, name) by {
                        if generic_named(generics@, i + 1, name) {
                            let k = choose|k: int| 0 <= k < i + 1 && (#[trigger] generics@[k] matches Expression::Ident(g) && g.value@ == name);
                            assert(k != i);
                        }
                    }
                }
            }
            i = i + 1;
        }
    }

    /// Checks each expression in turn, adding each to the module as soon as it is checked.
    fn check_exprs_pushing(&mut self, v: &Vec<Expression>) -> (r: CheckResult<Vec<ExprId>>)
        requires
            old(self).wf(),
            forall|i: int| 0 <= i < v@.len() ==> value_expr_ok(#[trigger] v@[i]),
        ensures
            final(self).wf(),
            grows(*old(self), *final(self)),
            r is Ok ==> frame(*old(self), *final(self)),
            r matches Ok(ids) ==> ids@.len() == v@.len() && ids_in(final(self).module.typed_exprs@, ids@),
            all_literals(v@) ==> r is Ok,
        decreases 3 * old(self).free_defs() + 2, v, 0nat,
    {
        let mut ids: Vec<ExprId> = Vec::new();
        let mut i: usize = 0;
        while i < v.len()
            invariant
                self.wf(),
                frame(*old(self), *self),
                i <= v@.len(),
                ids@.len() == i,
                forall|j: int| 0 <= j < v@.len() ==> value_expr_ok(#[trigger] v@[j]),
                ids_in(self.module.typed_exprs@, ids@),
            decreases v@.len() - i,
        {
            proof {
                assert(decreases_to!(v => v@));
                assert(decreases_to!(v@ => v@[i as int]));
            }
            proof {
                assert(all_literals(v@) ==> literal_expr(v@[i as int]));
            }
            let e = match self.check_expr(&v[i]) {
                Ok(e) => e,
                Err(err) => return Err(err),
            };
            let id = self.push_expr(e);
            ids.push(id);
            i = i + 1;
        }
        Ok(ids)
    }

    /// Checks every expression first, then adds them all to the module in order.
    fn check_exprs_then_push(&mut self, v: &Vec<Expression>) -> (r: CheckResult<Vec<ExprId>>)
        requires
            old(self).wf(),
            forall|i: int| 0 <= i < v@.len() ==> value_expr_ok(#[trigger] v@[i]),
        ensures
            final(self).wf(),
            grows(*old(self), *final(self)),
            r is Ok ==> frame(*old(self), *final(self)),
            r matches Ok(ids) ==> ids@.len() == v@.len() && ids_in(final(self).module.typed_exprs@, ids@),
            all_literals(v@) ==> r is Ok,
        decreases 3 * old(self).free_defs() + 2, v, 0nat,
    {
        let mut typed: Vec<TypedExpression> = Vec::new();
        let mut i: usize = 0;
        while i < v.len()
            invariant
                self.wf(),
                frame(*old(self), *self),
                i <= v@.len(),
                typed@.len() == i,
                forall|j: int| 0 <= j < v@.len() ==> value_expr_ok(#[trigger] v@[j]),
                forall|j: int| 0 <= j < i ==> #[trigger] expr_ty(typed@[j]) < self.types().len(),
            decreases v@.len() - i,
        {
            proof {
                assert(decreases_to!(v => v@));
                assert(decreases_to!(v@ => v@[i as int]));
            }
            proof {
                assert(all_literals(v@) ==> literal_expr(v@[i as int]));
            }
            let e = match self.check_expr(&v[i]) {
                Ok(e) => e,
                Err(err) => return Err(err),
            };
            typed.push(e);
            i = i + 1;
        }
        let mut ids: Vec<ExprId> = Vec::new();
        let n = typed.len();
        let ghost tp = typed@;
        let mut j: usize = 0;
        while j < n
            invariant
                self.wf(),
                frame(*old(self), *self),
                n == tp.len(),
                j <= n,
                typed@ == tp.skip(j as int),
                ids@.len() == j,
                ids_in(self.module.typed_exprs@, ids@),
                forall|k: int| 0 <= k < tp.len() ==> #[trigger] expr_ty(tp[k]) < self.types().len(),
            decreases n - j,
        {
            let e = typed.remove(0);
            assert(tp.skip(j as int)[0] == tp[j as int]);
            assert(typed@ =~= tp.skip(j as int + 1));
            let id = self.push_expr(e);
            ids.push(id);
            j = j + 1;
        }
        Ok(ids)
    }

    /// The types of the expressions with ids `ids`.
    fn expr_types(&self, ids: &Vec<ExprId>) -> (r: Vec<TyId>)
        requires
            self.wf(),
            ids_in(self.module.typed_exprs@, ids@),
        ensures
            r@ == types_of(self.module.typed_exprs@, ids@),
            forall|i: int| 0 <= i < r@.len() ==> #[trigger] r@[i] < self.types().len(),
    {
        let mut r: Vec<TyId> = Vec::new();
        let mut i: usize = 0;
        while i < ids.len()
            invariant
                self.wf(),
                ids_in(self.module.typed_exprs@, ids@),
                i <= ids@.len(),
                r@ == types_of(self.module.typed_exprs@, ids@.take(i as int)),
                forall|j: int| 0 <= j < r@.len() ==> #[trigger] r@[j] < self.types().len(),
            decreases ids@.len() - i,
        {
            r.push(self.module.typed_exprs[ids[i].0].get_type());
            i = i + 1;
            assert(r@ =~= types_of(self.module.typed_exprs@, ids@.take(i as int)));
        }
        assert(ids@.take(ids@.len() as int) =~= ids@);
        r
    }

    /// Checks a function value: its generic parameters are bound while its parameter and
    /// return types are checked; a name, if given, is bound to its function type; its body
    /// is checked in a new function scope where the parameters are bound.
    #[verifier::rlimit(100)]
    fn check_function(
        &mut self,
        expr: &Expression,
        token: &Token,
        name: &Option<Token>,
        params: &Vec<Expression>,
        block: &Box<Expression>,
        ret_ty: &Option<Box<Expression>>,
        generics_params: &Vec<Expression>,
    ) -> (r: CheckResult<TypedExpression>)
        requires
            old(self).wf(),
            value_expr_ok(*expr),
            *expr == (Expression::Function {
                token: *token,
                name: *name,
                params: *params,
                block: *block,
                ret_ty: *ret_ty,
                generics_params: *generics_params,
            }),
        ensures
            final(self).wf(),
            grows(*old(self), *final(self)),
            r is Ok ==> frame(*old(self), *final(self)),
            r matches Ok(t) ==> expr_checked(*old(self), *final(self), *expr, t),
        decreases 3 * old(self).free_defs() + 2, expr, 1nat,
    {
        proof {
            crate::ast::lemma_function_parts(*expr);
        }
        let generic_names = self.define_generics(generics_params);
        let mut typed_param_ids: Vec<ExprId> = Vec::new();
        let mut i: usize = 0;
        while i < params.len()
            invariant
                self.wf(),
                frame(*old(self), *self),
                *expr == (Expression::Function {
                    token: *token,
                    name: *name,
                    params: *params,
                    block: *block,
                    ret_ty: *ret_ty,
                    generics_params: *generics_params,
                }),
                i <= params@.len(),
                typed_param_ids@.len() == i,
                ids_in(self.module.typed_exprs@, typed_param_ids@),
                forall|j: int| 0 <= j < params@.len() ==> type_expr_ok(#[trigger] params@[j]) && decreases_to!(*expr => params@[j]),
                strings_view(generic_names@) == ident_names(generics_params@),
            decreases params@.len() - i,
        {
            let e = match self.check_type_expr(&params[i]) {
                Ok(e) => e,
                Err(err) => return Err(err),
            };
            let id = self.push_expr(e);
            typed_param_ids.push(id);
            i = i + 1;
        }
        let mut params_type: Vec<TyId> = Vec::new();
        let mut i: usize = 0;
        while i < typed_param_ids.len()
            invariant
                self.wf(),
                ids_in(self.module.typed_exprs@, typed_param_ids@),
                i <= typed_param_ids@.len(),
                forall|j: int| 0 <= j < params_type@.len() ==> #[trigger] params_type@[j] < self.types().len(),
            decreases typed_param_ids@.len() - i,
        {
            proof {
                assert(expr_ty(self.module.typed_exprs@[typed_param_ids@[i as int].0 as int]) < self.types().len());
            }
            if let TypedExpression::TypeHint(_, _, ty) = &self.module.typed_exprs[typed_param_ids[i].0] {
                params_type.push(*ty);
            }
            i = i + 1;
        }
        let first = match ret_ty {
            Some(it) => Some(self.check_type_expr(it)),
            None => None,
        };
        let unit_id = self.alloc_ty(Ty::Unit);
        let ret = match first {
            Some(Ok(e)) => e.get_type(),
            Some(Err(err)) => return Err(err),
            None => unit_id,
        };
        if let Some(n) = name {
            let ty_id = self.alloc_ty(Ty::Function {
                generics: crate::ty::strings_copy(&generic_names),
                params_type,
                ret_type: ret,
                is_variadic: false,
            });
            self.define(n.value.as_str(), ty_id);
        }
        let typed_block = match self.check_fn_block(expr, block, &typed_param_ids, ret) {
            Ok(e) => e,
            Err(err) => return Err(err),
        };
        let block_id = self.push_expr(typed_block);
        let checked = match ret_ty {
            Some(it) => Some(self.check_type_expr(it)),
            None => None,
        };
        let unit_id2 = self.alloc_ty(Ty::Unit);
        let checked = match checked {
            Some(Ok(e)) => Some(e),
            Some(Err(err)) => return Err(err),
            None => None,
        };
        let ret2 = match &checked {
            Some(e) => e.get_type(),
            None => unit_id2,
        };
        let params_type2 = self.expr_types(&typed_param_ids);
        let ghost pt2 = params_type2@;
        let typed_generic_params = match self.check_exprs_then_push(generics_params) {
            Ok(ids) => ids,
            Err(err) => return Err(err),
        };
        self.remove_generics(generics_params);
        let ret_id = match checked {
            Some(e) => Some(self.push_expr(e)),
            None => None,
        };
        let ty = self.alloc_ty(Ty::Function {
            generics: generic_names,
            params_type: params_type2,
            ret_type: ret2,
            is_variadic: false,
        });
        proof {
            assert(types_of(self.module.typed_exprs@, typed_param_ids@) =~= pt2);
        }
        let name_copy = match name {
            Some(n) => Some(n.copy()),
            None => None,
        };
        Ok(TypedExpression::Function {
            token: token.copy(),
            name: name_copy,
            params: typed_param_ids,
            block: block_id,
            ret_ty: ret_id,
            ty,
            generics_params: typed_generic_params,
        })
    }

    /// Checks the body of a function value: a block is checked in a new function scope where
    /// the parameters are bound, and has the return type `ret`; anything else is checked as
    /// a type.
    fn check_fn_block(&mut self, expr: &Expression, block: &Box<Expression>, typed_param_ids: &Vec<ExprId>, ret: TyId)
        -> (r: CheckResult<TypedExpression>)
        requires
            old(self).wf(),
            ids_in(old(self).module.typed_exprs@, typed_param_ids@),
            ret < old(self).types().len(),
            *expr is Function,
            *block == (*expr)->Function_block,
            (**block) matches Expression::Block(_, stmts) ==> decreases_to!(*expr => stmts)
                && forall|i: int| 0 <= i < stmts@.len() ==> stmt_ok(#[trigger] stmts@[i]),
            !((**block) is Block) ==> type_expr_ok(**block) && decreases_to!(*expr => **block),
        ensures
            final(self).wf(),
            grows(*old(self), *final(self)),
            r is Ok ==> frame(*old(self), *final(self)),
            r matches Ok(t) ==> expr_ty(t) < final(self).types().len(),
        decreases 3 * old(self).free_defs() + 2, expr, 0nat,
    {
        let ghost pre = *self;
        match &**block {
            Expression::Block(block_token, statements) => {
                self.enter_scope(ScopeKind::Function);
                assert(self.table().scopes().drop_first() =~= pre.table().scopes());
                assert(self.scopes@.drop_last() == pre.scopes@);
                assert forall|j: int| 0 <= j < pre.scopes@.len() implies #[trigger] self.scopes@[j].kind == pre.scopes@[j].kind by {
                    assert(self.scopes@[j] == self.scopes@.drop_last()[j]);
                }
                let mut k: usize = 0;
                while k < typed_param_ids.len()
                    invariant
                        self.wf(),
                        grows(*old(self), *self),
                        frame(*old(self), pre),
                        self.current_mod_id == pre.current_mod_id,
                        self.resolving_defs@ == pre.resolving_defs@,
                        self.table().scopes().len() == pre.table().scopes().len() + 1,
                        self.table().scopes().drop_first() == pre.table().scopes(),
                        self.scopes@.len() == pre.scopes@.len() + 1,
                        self.scope_index == pre.scope_index + 1,
                        forall|j: int| 0 <= j < pre.scopes@.len() ==> #[trigger] self.scopes@[j].kind == pre.scopes@[j].kind,
                        self.compile_as == pre.compile_as,
                        ret < self.types().len(),
                        ids_in(self.module.typed_exprs@, typed_param_ids@),
                        k <= typed_param_ids@.len(),
                    decreases typed_param_ids@.len() - k,
                {
                    proof {
                        assert(expr_ty(self.module.typed_exprs@[typed_param_ids@[k as int].0 as int]) < self.types().len());
                    }
                    let hint = match &self.module.typed_exprs[typed_param_ids[k].0] {
                        TypedExpression::TypeHint(n, _, ty) => Some((n.value.clone(), *ty)),
                        _ => None,
                    };
                    let ghost before_define = *self;
                    if let Some((n, ty)) = hint {
                        self.define(n.as_str(), ty);
                        proof {
                            assert(self.table().scopes().drop_first() =~= before_define.table().scopes().drop_first());
                        }
                    }
                    k = k + 1;
                }
                proof {
                    self.table().lemma_scopes_len();
                }
                let (stmts, _) = match self.check_statements(statements, ScopeKind::Function) {
                    Ok(p) => p,
                    Err(err) => return Err(err),
                };
                assert(ret < self.types().len());
                Ok(TypedExpression::Block(block_token.copy(), stmts, ret))
            },
            other => self.check_type_expr(other),
        }
    }

    /// Checks a function declaration: its generic parameters are bound while its parameter
    /// and return types are checked, and its name is bound to its function type.
    #[verifier::rlimit(100)]
    fn check_func_decl(
        &mut self,
        stmt: &Statement,
        token: &Token,
        name: &Token,
        params: &Vec<Expression>,
        ret_ty: &Option<Box<Expression>>,
        generics_params: &Vec<Expression>,
    ) -> (r: CheckResult<TypedStatement>)
        requires
            old(self).wf(),
            stmt_ok(*stmt),
            *stmt == (Statement::FuncDecl { token: *token, name: *name, params: *params, ret_ty: *ret_ty, generics_params: *generics_params }),
        ensures
            final(self).wf(),
            grows(*old(self), *final(self)),
            r is Ok ==> frame(*old(self), *final(self)),
            r matches Ok(t) ==> stmt_checked(*old(self), *final(self), *stmt, t),
        decreases 3 * old(self).free_defs() + 2, stmt, 1nat,
    {
        proof {
            crate::ast::lemma_func_decl_parts(*stmt);
        }
        let generic_names = self.define_generics(generics_params);
        let typed_param_ids = match self.check_exprs_pushing(params) {
            Ok(ids) => ids,
            Err(err) => return Err(err),
        };
        let mut params_type: Vec<TyId> = Vec::new();
        let mut i: usize = 0;
        while i < typed_param_ids.len()
            invariant
                self.wf(),
                ids_in(self.module.typed_exprs@, typed_param_ids@),
                i <= typed_param_ids@.len(),
                forall|j: int| 0 <= j < params_type@.len() ==> #[trigger] params_type@[j] < self.types().len(),
            decreases typed_param_ids@.len() - i,
        {
            proof {
                assert(expr_ty(self.module.typed_exprs@[typed_param_ids@[i as int].0 as int]) < self.types().len());
            }
            if let TypedExpression::TypeHint(_, _, ty) = &self.module.typed_exprs[typed_param_ids[i].0] {
                params_type.push(*ty);
            }
            i = i + 1;
        }
        let first = match ret_ty {
            Some(it) => Some(self.check_type_expr(it)),
            None => None,
        };
        let unit_id = self.alloc_ty(Ty::Unit);
        let ret = match first {
            Some(Ok(e)) => e.get_type(),
            Some(Err(err)) => return Err(err),
            None => unit_id,
        };
        let func_ty_id = self.alloc_ty(Ty::Function {
            generics: crate::ty::strings_copy(&generic_names),
            params_type,
            ret_type: ret,
            is_variadic: false,
        });
        self.define(name.value.as_str(), func_ty_id);
        let checked = match ret_ty {
            Some(it) => Some(self.check_type_expr(it)),
            None => None,
        };
        let unit_id2 = self.alloc_ty(Ty::Unit);
        let checked = match checked {
            Some(Ok(e)) => Some(e),
            Some(Err(err)) => return Err(err),
            None => None,
        };
        let ret2 = match &checked {
            Some(e) => e.get_type(),
            None => unit_id2,
        };
        let params_type2 = self.expr_types(&typed_param_ids);
        let ghost pt2 = params_type2@;
        let ty_id = self.alloc_ty(Ty::Function {
            generics: crate::ty::strings_copy(&generic_names),
            params_type: crate::ty::ids_copy(&params_type2),
            ret_type: ret2,
            is_variadic: false,
        });
        self.define(name.value.as_str(), ty_id);
        let typed_generic_params = match self.check_exprs_then_push(generics_params) {
            Ok(ids) => ids,
            Err(err) => return Err(err),
        };
        self.remove_generics(generics_params);
        let ret_id = match checked {
            Some(e) => Some(self.push_expr(e)),
            None => None,
        };
        let final_ty = self.alloc_ty(Ty::Function {
            generics: crate::ty::strings_copy(&generic_names),
            params_type: params_type2,
            ret_type: ret2,
            is_variadic: false,
        });
        proof {
            assert(types_of(self.module.typed_exprs@, typed_param_ids@) =~= pt2);
        }
        Ok(TypedStatement::FuncDecl {
            token: token.copy(),
            name: name.copy(),
            params: typed_param_ids,
            generics_params: typed_generic_params,
            ret_ty: ret_id,
            ty: final_ty,
        })
    }

    /// Checks an external function: its parameter and return types, and binds its alias
    /// to its function type.
    fn check_extern(
        &mut self,
        stmt: &Statement,
        token: &Token,
        abi: &Token,
        extern_func_name: &Token,
        alias: &Token,
        params: &Vec<Expression>,
        ret_ty: &Option<Box<Expression>>,
        vararg: bool,
    ) -> (r: CheckResult<TypedStatement>)
        requires
            old(self).wf(),
            stmt_ok(*stmt),
            *stmt == (Statement::Extern {
                token: *token,
                abi: *abi,
                extern_func_name: *extern_func_name,
                alias: *alias,
                params: *params,
                ret_ty: *ret_ty,
                vararg,
            }),
        ensures
            final(self).wf(),
            grows(*old(self), *final(self)),
            r is Ok ==> frame(*old(self), *final(self)),
            r matches Ok(t) ==> stmt_checked(*old(self), *final(self), *stmt, t),
        decreases 3 * old(self).free_defs() + 2, stmt, 1nat,
    {
        proof {
            crate::ast::lemma_extern_parts(*stmt);
        }
        let mut typed_param_ids: Vec<ExprId> = Vec::new();
        let mut params_type: Vec<TyId> = Vec::new();
        let mut i: usize = 0;
        while i < params.len()
            invariant
                self.wf(),
                frame(*old(self), *self),
                *stmt == (Statement::Extern {
                    token: *token,
                    abi: *abi,
                    extern_func_name: *extern_func_name,
                    alias: *alias,
                    params: *params,
                    ret_ty: *ret_ty,
                    vararg,
                }),
                i <= params@.len(),
                typed_param_ids@.len() == i,
                params_type@ == types_of(self.module.typed_exprs@, typed_param_ids@),
                ids_in(self.module.typed_exprs@, typed_param_ids@),
                forall|j: int| 0 <= j < params@.len() ==> type_expr_ok(#[trigger] params@[j]) && decreases_to!(*stmt => params@[j]),
                forall|j: int| 0 <= j < params_type@.len() ==> #[trigger] params_type@[j] < self.types().len(),
            decreases params@.len() - i,
        {
            let typed_param = match self.check_type_expr(&params[i]) {
                Ok(e) => e,
                Err(err) => return Err(err),
            };
            params_type.push(typed_param.get_type());
            let ghost before = self.module.typed_exprs@;
            let id = self.push_expr(typed_param);
            typed_param_ids.push(id);
            proof {
                assert(types_of(self.module.typed_exprs@, typed_param_ids@) =~= params_type@);
            }
            i = i + 1;
        }
        let ret_typed = match ret_ty {
            Some(r) => match self.check_type_expr(r) {
                Ok(e) => Some(e),
                Err(err) => return Err(err),
            },
            None => None,
        };
        let ret_type = match &ret_typed {
            Some(e) => e.get_type(),
            None => self.alloc_ty(Ty::Unit),
        };
        let func_ty_id = self.alloc_ty(Ty::Function {
            generics: Vec::new(),
            params_type,
            ret_type,
            is_variadic: vararg,
        });
        self.define(alias.value.as_str(), func_ty_id);
        let ret_id = match ret_typed {
            Some(e) => Some(self.push_expr(e)),
            None => None,
        };
        let ghost pids = typed_param_ids@;
        let t = TypedStatement::Extern {
            ty: func_ty_id,
            token: token.copy(),
            abi: abi.copy(),
            alias: alias.copy(),
            extern_func_name: extern_func_name.copy(),
            params: typed_param_ids,
            ret_ty: ret_id,
            vararg,
        };
        proof {
            let exprs = self.module.typed_exprs@;
            assert(ids_in(exprs, pids));
            assert(types_of(exprs, pids) =~= params_type@);
            assert(strings_view(Seq::<String>::empty()) =~= Seq::<Seq<char>>::empty());
            assert(self.table().lookup(alias.value@) == Some(crate::table::SymbolType::Variable(func_ty_id)));
            assert(fn_ty_ok(self.types(), exprs, func_ty_id, Seq::empty(), types_of(exprs, pids), ret_id, vararg));
        }
        Ok(t)
    }

    /// Checks a struct: its generic parameters are bound while its fields, which must be type
    /// hints, are checked; its name is bound to a struct type with those fields.
    fn check_struct(&mut self, stmt: &Statement, token: &Token, name: &Ident, fields: &Vec<Expression>, generics: &Vec<Expression>)
        -> (r: CheckResult<TypedStatement>)
        requires
            old(self).wf(),
            stmt_ok(*stmt),
            *stmt == (Statement::Struct { token: *token, name: *name, fields: *fields, generics: *generics }),
        ensures
            final(self).wf(),
            grows(*old(self), *final(self)),
            r is Ok ==> frame(*old(self), *final(self)),
            r matches Ok(t) ==> stmt_checked(*old(self), *final(self), *stmt, t),
        decreases 3 * old(self).free_defs() + 2, stmt, 1nat,
    {
        proof {
            crate::ast::lemma_struct_parts(*stmt);
        }
        let typed_name = name.copy();
        let generic_names = self.define_generics(generics);
        let mut typed_field_ids: Vec<ExprId> = Vec::new();
        let mut i: usize = 0;
        while i < fields.len()
            invariant
                self.wf(),
                frame(*old(self), *self),
                *stmt == (Statement::Struct { token: *token, name: *name, fields: *fields, generics: *generics }),
                i <= fields@.len(),
                typed_field_ids@.len() == i,
                ids_in(self.module.typed_exprs@, typed_field_ids@),
                forall|j: int| 0 <= j < fields@.len() ==> value_expr_ok(#[trigger] fields@[j]) && decreases_to!(*stmt => fields@[j]),
            decreases fields@.len() - i,
        {
            let is_hint = match &fields[i] {
                Expression::TypeHint(..) => true,
                _ => false,
            };
            if !is_hint {
                let k = fields[i].token();
                let mut m = String::from_str("not a type hint: ");
                m.append(k.value.as_str());
                return Err(TypeCheckerError { kind: TypeCheckerErrorKind::Other, token: k, message: Some(m) });
            }
            let typed_field = match self.check_expr(&fields[i]) {
                Ok(e) => e,
                Err(err) => return Err(err),
            };
            let id = self.push_expr(typed_field);
            typed_field_ids.push(id);
            i = i + 1;
        }
        let mut m = name_map_new();
        let mut j: usize = 0;
        assert(typed_field_ids@.take(0) =~= Seq::<ExprId>::empty());
        while j < typed_field_ids.len()
            invariant
                self.wf(),
                frame(*old(self), *self),
                ids_in(self.module.typed_exprs@, typed_field_ids@),
                j <= typed_field_ids@.len(),
                name_map_entries(m) == hint_entries(self.module.typed_exprs@, typed_field_ids@.take(j as int)),
                crate::imap::entries_keys_unique(name_map_entries(m)),
                crate::ty_context::entry_values_below(name_map_entries(m), self.types().len() as int),
            decreases typed_field_ids@.len() - j,
        {
            let ghost e0 = name_map_entries(m);
            assert(typed_field_ids@.take(j as int + 1).drop_last() =~= typed_field_ids@.take(j as int));
            assert(typed_field_ids@.take(j as int + 1).last() == typed_field_ids@[j as int]);
            match &self.module.typed_exprs[typed_field_ids[j].0] {
                TypedExpression::TypeHint(n, _, ty) => {
                    proof {
                        crate::imap::lemma_entries_insert_unique(e0, n.value@, *ty);
                        let e1 = entries_insert(e0, n.value@, *ty);
                        assert(expr_ty(self.module.typed_exprs@[typed_field_ids@[j as int].0 as int]) < self.types().len());
                        assert forall|k: int| 0 <= k < e1.len() implies #[trigger] e1[k].1 < self.types().len() by {
                            assert(e1[k].1 == *ty || exists|w: int| 0 <= w < e0.len() && e0[w].1 == e1[k].1);
                            if e1[k].1 != *ty {
                                let w = choose|w: int| 0 <= w < e0.len() && e0[w].1 == e1[k].1;
                                assert(e0[w].1 < self.types().len());
                            }
                        }
                    }
                    name_map_insert(&mut m, n.value.clone(), *ty);
                },
                other => {
                    return Err(make_err(Some("not a type hint"), TypeCheckerErrorKind::Other, other.token()));
                },
            }
            j = j + 1;
        }
        assert(typed_field_ids@.take(typed_field_ids@.len() as int) =~= typed_field_ids@);
        if let Some(i) = self.lookup_name(name.value.as_str()) {
            let d = self.globals[i].def_id.0;
            if self.defs[d].struct_data.is_some() {
                self.defs[d].struct_data = Some((crate::ty::strings_copy(&generic_names), crate::imap::name_map_clone(&m)));
            }
        }
        let impl_traits = name_map_new();
        let ty_id = self.alloc_ty(Ty::Struct {
            name: name.value.clone(),
            generics: generic_names,
            fields: m,
            impl_traits,
        });
        self.define(typed_name.value.as_str(), ty_id);
        let typed_generics = match self.check_exprs_then_push(generics) {
            Ok(ids) => ids,
            Err(err) => return Err(err),
        };
        self.remove_generics(generics);
        let ghost fids = typed_field_ids@;
        let ghost gids = typed_generics@;
        let t = TypedStatement::Struct { ty: ty_id, token: token.copy(), name: typed_name, fields: typed_field_ids, generics: typed_generics };
        proof {
            let exprs = self.module.typed_exprs@;
            assert(ids_in(exprs, fids));
            assert(ids_in(exprs, gids));
            assert(stmt_ty(t) < self.types().len());
        }
        Ok(t)
    }

    /// Checks a trait: each statement of its block must be a function declaration, checked
    /// in a trait scope; the trait's type maps its name to the type of its last method, and
    /// its name is bound to that type. Gives the trait with its checked block.
    fn check_trait(&mut self, stmt: &Statement, token: &Token, name: &Ident, block: &Box<Statement>) -> (r: CheckResult<TypedStatement>)
        requires
            old(self).wf(),
            stmt_ok(*stmt),
            *stmt == (Statement::Trait { token: *token, name: *name, block: *block }),
        ensures
            final(self).wf(),
            grows(*old(self), *final(self)),
            r is Ok ==> frame(*old(self), *final(self)),
            r matches Ok(t) ==> stmt_checked(*old(self), *final(self), *stmt, t),
        decreases 3 * old(self).free_defs() + 2, stmt, 1nat,
    {
        proof {
            crate::ast::lemma_trait_parts(*stmt);
        }
        let typed_name = name.copy();
        let (block_token, statements) = match &**block {
            Statement::Block { token, statements } => (token, statements),
            other => {
                let k = other.token();
                let mut m = String::from_str("not a block: ");
                m.append(k.value.as_str());
                return Err(TypeCheckerError { kind: TypeCheckerErrorKind::Other, token: k, message: Some(m) });
            },
        };
        let ghost pre = *self;
        self.enter_scope(ScopeKind::Trait);
        assert(self.table().scopes().drop_first() =~= pre.table().scopes());
        assert(self.scopes@.drop_last() == pre.scopes@);
        assert forall|j: int| 0 <= j < pre.scopes@.len() implies #[trigger] self.scopes@[j].kind == pre.scopes@[j].kind by {
            assert(self.scopes@[j] == self.scopes@.drop_last()[j]);
        }
        let mut stmt_ids: Vec<StmtId> = Vec::new();
        let mut i: usize = 0;
        while i < statements.len()
            invariant
                self.wf(),
                grows(pre, *self),
                pre == *old(self),
                self.current_mod_id == pre.current_mod_id,
                self.resolving_defs@ == pre.resolving_defs@,
                self.compile_as == pre.compile_as || self.compile_as == CompileAs::AsNone,
                self.table().scopes().len() == pre.table().scopes().len() + 1,
                self.table().scopes().drop_first() == pre.table().scopes(),
                forall|j: int| 0 <= j < pre.scopes@.len() ==> #[trigger] self.scopes@[j].kind == pre.scopes@[j].kind,
                self.scopes@.len() == pre.scopes@.len() + 1,
                self.scope_index == pre.scope_index + 1,
                *block == (*stmt)->Trait_block,
                (**block) matches Statement::Block { statements: st, .. } && st == *statements,
                forall|j: int| 0 <= j < statements@.len() ==> stmt_ok(#[trigger] statements@[j]) && decreases_to!(*stmt => statements@[j]),
                i <= statements@.len(),
                forall|j: int| 0 <= j < stmt_ids@.len() ==> (#[trigger] stmt_ids@[j]).0 < self.module.typed_stmts@.len(),
            decreases statements@.len() - i,
        {
            let is_decl = match &statements[i] {
                Statement::FuncDecl { .. } => true,
                _ => false,
            };
            if !is_decl {
                let k = statements[i].token();
                let mut m = String::from_str("not a func decl: ");
                m.append(k.value.as_str());
                return Err(TypeCheckerError { kind: TypeCheckerErrorKind::Other, token: k, message: Some(m) });
            }
            let ghost before = *self;
            let typed = match self.check_statement(&statements[i]) {
                Ok(t) => t,
                Err(err) => return Err(err),
            };
            proof {
                assert forall|j: int| 0 <= j < pre.scopes@.len() implies #[trigger] self.scopes@[j].kind == pre.scopes@[j].kind by {
                    assert(self.scopes@[j].kind == before.scopes@[j].kind);
                }
                assert(self.table().scopes().drop_first() =~= before.table().scopes().drop_first()) by {
                    assert forall|k: int| 0 <= k < self.table().scopes().drop_first().len() implies
                        self.table().scopes().drop_first()[k] == before.table().scopes().drop_first()[k] by {
                        assert(self.table().scopes()[k + 1] == before.table().scopes()[k + 1]);
                    }
                }
            }
            let id = self.push_stmt(typed);
            stmt_ids.push(id);
            i = i + 1;
        }
        proof {
            self.table().lemma_scopes_len();
        }
        let _ = self.leave_scope();
        let mut m = name_map_new();
        let mut j: usize = 0;
        while j < stmt_ids.len()
            invariant
                self.wf(),
                grows(pre, *self),
                pre == *old(self),
                j <= stmt_ids@.len(),
                forall|k: int| 0 <= k < stmt_ids@.len() ==> (#[trigger] stmt_ids@[k]).0 < self.module.typed_stmts@.len(),
                crate::imap::entries_keys_unique(name_map_entries(m)),
                crate::ty_context::entry_values_below(name_map_entries(m), self.types().len() as int),
            decreases stmt_ids@.len() - j,
        {
            proof {
                assert(stmt_ty(self.module.typed_stmts@[stmt_ids@[j as int].0 as int]) < self.types().len());
            }
            match &self.module.typed_stmts[stmt_ids[j].0] {
                TypedStatement::FuncDecl { ty, .. } => {
                    let ghost e0 = name_map_entries(m);
                    proof {
                        crate::imap::lemma_entries_insert_unique(e0, name.value@, *ty);
                        let e1 = entries_insert(e0, name.value@, *ty);
                        assert forall|k: int| 0 <= k < e1.len() implies #[trigger] e1[k].1 < self.types().len() by {
                            assert(e1[k].1 == *ty || exists|w: int| 0 <= w < e0.len() && e0[w].1 == e1[k].1);
                            if e1[k].1 != *ty {
                                let w = choose|w: int| 0 <= w < e0.len() && e0[w].1 == e1[k].1;
                                assert(e0[w].1 < self.types().len());
                            }
                        }
                    }
                    name_map_insert(&mut m, name.value.clone(), *ty);
                },
                other => {
                    return Err(make_err(Some("not a func decl"), TypeCheckerErrorKind::Other, other.token()));
                },
            }
            j = j + 1;
        }
        let functions = crate::imap::name_map_clone(&m);
        let ty_id = self.alloc_ty(Ty::Trait { name: name.value.clone(), functions });
        self.define(typed_name.value.as_str(), ty_id);
        let block_ty = self.alloc_ty(Ty::Unit);
        let ty = self.alloc_ty(Ty::Trait { name: name.value.clone(), functions: m });
        let block_id = self.push_stmt(TypedStatement::Block { token: block_token.copy(), statements: stmt_ids, ty: block_ty });
        Ok(TypedStatement::Trait { ty, token: token.copy(), name: typed_name, block: block_id })
    }

    /// Checks an implementation block: `impl_` (and `for_`, if given) must be bound, else a
    /// `TypeNotFound` error ("cannot find type '..' in this scope"); the block is checked in
    /// a class scope. Then, for each symbol of the innermost scope that is a struct, in
    /// order, what the block bound is gathered, and when there is no `for_` and the struct
    /// is the one `impl_` names, what was gathered is added to its fields.
    fn check_impl(&mut self, stmt: &Statement, token: &Token, impl_: &Ident, for_: &Option<Ident>, block: &Box<Statement>)
        -> (r: CheckResult<TypedStatement>)
        requires
            old(self).wf(),
            stmt_ok(*stmt),
            *stmt == (Statement::Impl { token: *token, impl_: *impl_, for_: *for_, block: *block }),
        ensures
            final(self).wf(),
            grows(*old(self), *final(self)),
            r is Ok ==> frame(*old(self), *final(self)),
            r matches Ok(t) ==> stmt_checked(*old(self), *final(self), *stmt, t),
            old(self).table().lookup(impl_.value@) is None ==> (r matches Err(e) && e.kind == TypeCheckerErrorKind::TypeNotFound
                && e.token == impl_.token),
        decreases 3 * old(self).free_defs() + 2, stmt, 1nat,
    {
        proof {
            crate::ast::lemma_impl_parts(*stmt);
        }
        if self.module.tcx.table.get(impl_.value.as_str()).is_none() {
            let mut m = String::from_str("cannot find type '");
            m.append(impl_.value.as_str());
            m.append("' in this scope");
            return Err(TypeCheckerError { kind: TypeCheckerErrorKind::TypeNotFound, token: impl_.token.copy(), message: Some(m) });
        }
        if let Some(f) = for_ {
            if self.module.tcx.table.get(f.value.as_str()).is_none() {
                let mut m = String::from_str("cannot find type '");
                m.append(f.value.as_str());
                m.append("' in this scope");
                return Err(TypeCheckerError { kind: TypeCheckerErrorKind::TypeNotFound, token: f.token.copy(), message: Some(m) });
            }
        }
        let ghost pre = *self;
        self.enter_scope(ScopeKind::Class);
        assert(self.scopes@.drop_last() == pre.scopes@);
        let ghost entered = *self;
        let typed_block = match self.check_statement(block) {
            Ok(t) => t,
            Err(err) => return Err(err),
        };
        proof {
            self.table().lemma_scopes_len();
            assert forall|j: int| 0 <= j < pre.scopes@.len() implies #[trigger] self.scopes@[j].kind == pre.scopes@[j].kind by {
                assert(self.scopes@[j].kind == entered.scopes@[j].kind);
                assert(entered.scopes@[j] == entered.scopes@.drop_last()[j]);
            }
        }
        let (_, impl_table) = self.leave_scope();
        let ghost left = *self;
        proof {
            assert(impl_table.wf());
            assert(table_below(impl_table, self.types().len() as int));
        }
        let symbols = crate::table::symbols_copy(&self.module.tcx.table.var_map);
        let mut new_fields = name_map_new();
        let mut k: usize = 0;
        while k < symbols.len()
            invariant
                self.wf(),
                frame(left, *self),
                grows(pre, *self),
                pre == *old(self),
                self.table() == left.table(),
                self.module.typed_exprs@ == left.module.typed_exprs@,
                self.module.typed_stmts@ == left.module.typed_stmts@,
                symbols@ == left.table().var_map@,
                left.table().wf(),
                table_below(left.table(), left.types().len() as int),
                impl_table.wf(),
                table_below(impl_table, left.types().len() as int),
                self.types().len() == left.types().len(),
                stmt_ty(typed_block) < self.types().len(),
                k <= symbols@.len(),
                crate::imap::entries_keys_unique(name_map_entries(new_fields)),
                crate::ty_context::entry_values_below(name_map_entries(new_fields), self.types().len() as int),
            decreases symbols@.len() - k,
        {
            proof {
                crate::table::lemma_innermost_below(left.table(), left.types().len() as int, k as int);
            }
            let sym_ty = symbols[k].ty.get_type();
            let struct_name = match self.module.tcx.get(sym_ty) {
                Ty::Struct { name, .. } => Some(name.clone()),
                _ => None,
            };
            if let Some(struct_name) = struct_name {
                let mut v: usize = 0;
                while v < impl_table.var_map.len()
                    invariant
                        self.wf(),
                        impl_table.wf(),
                        table_below(impl_table, left.types().len() as int),
                        self.types().len() == left.types().len(),
                        v <= impl_table.var_map@.len(),
                        crate::imap::entries_keys_unique(name_map_entries(new_fields)),
                        crate::ty_context::entry_values_below(name_map_entries(new_fields), self.types().len() as int),
                    decreases impl_table.var_map@.len() - v,
                {
                    proof {
                        crate::table::lemma_innermost_below(impl_table, left.types().len() as int, v as int);
                    }
                    let item = &impl_table.var_map[v];
                    let item_ty = item.ty.get_type();
                    let ghost e0 = name_map_entries(new_fields);
                    proof {
                        crate::imap::lemma_entries_insert_unique(e0, item.name@, item_ty);
                        let e1 = entries_insert(e0, item.name@, item_ty);
                        assert forall|q: int| 0 <= q < e1.len() implies #[trigger] e1[q].1 < self.types().len() by {
                            if e1[q].1 != item_ty {
                                let w = choose|w: int| 0 <= w < e0.len() && e0[w].1 == e1[q].1;
                                assert(e0[w].1 < self.types().len());
                            }
                        }
                    }
                    name_map_insert(&mut new_fields, item.name.clone(), item_ty);
                    v = v + 1;
                }
                if for_.is_none() && str_eq(impl_.value.as_str(), struct_name.as_str()) {
                    self.append_fields(sym_ty, &mut new_fields);
                }
            }
            k = k + 1;
        }
        let block_id = self.push_stmt(typed_block);
        let ty = self.alloc_ty(Ty::Unit);
        let for_copy = match for_ {
            Some(f) => Some(f.copy()),
            None => None,
        };
        Ok(TypedStatement::Impl { token: token.copy(), new_fields, impl_: impl_.copy(), for_: for_copy, block: block_id, ty })
    }

    /// Adds the entries of `new_fields`, in order, to the fields of the struct type with id
    /// `id` (as `IndexMap::append` does: a field already there takes the new type), and
    /// leaves `new_fields` empty.
    fn append_fields(&mut self, id: TyId, new_fields: &mut crate::imap::NameMap)
        requires
            old(self).wf(),
            id < old(self).types().len(),
            old(self).types()[id as int] is Struct,
            crate::imap::entries_keys_unique(name_map_entries(*old(new_fields))),
            crate::ty_context::entry_values_below(name_map_entries(*old(new_fields)), old(self).types().len() as int),
        ensures
            final(self).wf(),
            frame(*old(self), *final(self)),
            final(self).types().len() == old(self).types().len(),
            final(self).table() == old(self).table(),
            final(self).module.typed_exprs@ == old(self).module.typed_exprs@,
            final(self).module.typed_stmts@ == old(self).module.typed_stmts@,
            final(self).types()[id as int] matches Ty::Struct { fields, .. } && (old(self).types()[id as int] matches Ty::Struct { fields: f0, .. }
                && name_map_entries(fields) == crate::imap::entries_extend(name_map_entries(f0), name_map_entries(*old(new_fields)))),
            name_map_entries(*final(new_fields)).len() == 0,
    {
        let ghost n = self.types().len() as int;
        let new_ty = match self.module.tcx.get(id) {
            Ty::Struct { name, generics, fields, impl_traits } => {
                let mut f = crate::imap::name_map_clone(fields);
                proof {
                    assert(ty_maps_ok(self.types()[id as int], n));
                    crate::imap::lemma_entries_extend_ok(name_map_entries(f), name_map_entries(*new_fields), n);
                }
                crate::imap::name_map_append(&mut f, new_fields);
                Ty::Struct { name: name.clone(), generics: crate::ty::strings_copy(generics), fields: f, impl_traits: crate::imap::name_map_clone(impl_traits) }
            },
            _ => {
                proof {
                    assert(false);
                }
                Ty::Unit
            },
        };
        let ghost before = self.types();
        self.module.tcx.types.set(id, new_ty);
        proof {
            let after = self.types();
            assert(after == before.update(id as int, new_ty));
            assert forall|i: int| 0 <= i < after.len() implies ty_parts_below(#[trigger] after[i], i) by {
                if i != id as int {
                    assert(after[i] == before[i]);
                }
            }
            assert forall|i: int| 0 <= i < after.len() implies ty_maps_ok(#[trigger] after[i], after.len() as int) by {
                if i != id as int {
                    assert(after[i] == before[i]);
                }
            }
            assert forall|i: int, j: int|
                0 <= i < after.len() && 0 <= j < after.len() && i != j && (#[trigger] ty_infer_id(after[i])) is Some
                implies ty_infer_id(after[i]) != #[trigger] ty_infer_id(after[j]) by {
                if i != id as int && j != id as int {
                    assert(after[i] == before[i]);
                    assert(after[j] == before[j]);
                } else if j == id as int {
                    assert(ty_infer_id(after[j]) is None);
                }
            }
            assert(types_wf(after));
            assert forall|i: int| 0 <= i < before.len() implies ty_grows(before[i], #[trigger] after[i]) by {
                if i != id as int {
                    assert(after[i] == before[i]);
                    lemma_ty_grows_refl(before[i]);
                }
            }
        }
    }

    /// Checks the value of a `let` or `const`, finds its type (that of the named type when
    /// one is written, else the value's) and binds the name to it in the innermost scope.
    fn check_binding(
        &mut self,
        stmt: &Statement,
        token: &Token,
        name: &Ident,
        var_type: &Option<Ident>,
        value: &Expression,
    ) -> (r: CheckResult<(Ident, Option<Ident>, ExprId, TyId)>)
        requires
            old(self).wf(),
            value_expr_ok(*value),
            decreases_to!(*stmt => *value),
        ensures
            final(self).wf(),
            grows(*old(self), *final(self)),
            r is Ok ==> frame(*old(self), *final(self)),
            r matches Ok(p) ==> {
                let (n2, v2, value_id, ty) = p;
                let exprs = final(self).module.typed_exprs@;
                &&& n2.value@ == name.value@ && n2.token == *token
                &&& v2 == *var_type
                &&& value_id.0 < exprs.len()
                &&& ty < final(self).types().len()
                &&& ty == match *var_type {
                    Some(v) => symbol_type_ty(final(self).table().lookup(v.value@).unwrap()),
                    None => expr_ty(exprs[value_id.0 as int]),
                }
                &&& final(self).table().lookup(name.value@) == Some(crate::table::SymbolType::Variable(ty))
            },
            var_type is None && (literal_expr(*value)
                || (value matches Expression::Ident(n) && old(self).table().lookup(n.value@) is Some)) ==> r is Ok,
            expr_closed(*value, old(self).table()) && (var_type matches Some(v) ==> old(self).table().lookup(v.value@) is Some)
                ==> r is Ok && table_extends(old(self).table(), final(self).table()),
            literal_expr(*value) ==> (var_type matches Some(v) ==> (old(self).table().lookup(v.value@) is Some ==> r is Ok)
                && (old(self).table().lookup(v.value@) is None ==> (r matches Err(e) && e.kind == TypeCheckerErrorKind::TypeNotFound
                    && e.token == v.token && e.message is None && final(self).table() == old(self).table()))),
        decreases 3 * old(self).free_defs() + 2, stmt, 1nat,
    {
        let typed_val = match self.check_expr_as_val(value) {
            Ok(e) => e,
            Err(err) => return Err(err),
        };
        let ghost mid = *self;
        proof {
            if let Some(v) = var_type {
                lemma_lookup_below(self.table(), self.types().len() as int, v.value@);
            }
        }
        let ty = match var_type {
            Some(ty_ident) => match self.module.tcx.table.get(ty_ident.value.as_str()) {
                Some(it) => it.ty.get_type(),
                None => {
                    return Err(make_err(None, TypeCheckerErrorKind::TypeNotFound, ty_ident.token.copy()));
                },
            },
            None => typed_val.get_type(),
        };
        self.module.tcx.table.define_var(name.value.as_str(), ty);
        proof {
            assert forall|n: Seq<char>| #[trigger] mid.table().lookup(n) is Some implies self.table().lookup(n) is Some by {
                crate::table::law_define_then_get(mid.table(), self.table(), name.value@, ty, n);
            }
            crate::table::lemma_define_below(mid.table(), self.table(), name.value@, ty, self.types().len() as int);
            crate::table::law_define_then_get(mid.table(), self.table(), name.value@, ty, name.value@);
            if let Some(v) = var_type {
                crate::table::law_define_then_get(mid.table(), self.table(), name.value@, ty, v.value@);
            }
        }
        let typed_name = Ident { token: token.copy(), value: name.value.clone() };
        let typed_var_type = match var_type {
            Some(it) => Some(it.copy()),
            None => None,
        };
        let value_id = self.push_expr(typed_val);
        Ok((typed_name, typed_var_type, value_id, ty))
    }

    /// Checks a field access: on a struct, the field's declared type; on a generic struct
    /// applied to type arguments, the declared type with the struct's parameters replaced by
    /// the arguments.
    fn check_field_access(&mut self, expr: &Expression, token: &Token, struct_expr: &Box<Expression>, field: &Ident) -> (r: CheckResult<TypedExpression>)
        requires
            old(self).wf(),
            value_expr_ok(*expr),
            *expr == Expression::FieldAccess(*token, *struct_expr, *field),
        ensures
            final(self).wf(),
            grows(*old(self), *final(self)),
            r is Ok ==> frame(*old(self), *final(self)),
            r matches Ok(t) ==> expr_checked(*old(self), *final(self), *expr, t),
        decreases 3 * old(self).free_defs() + 2, expr, 1nat,
    {
        let typed_struct_expr = match self.check_expr_as_val(struct_expr) {
            Ok(e) => e,
            Err(err) => return Err(err),
        };
        let sty = typed_struct_expr.get_type();
        let ghost n = self.types().len() as int;
        proof {
            assert(crate::ty_context::ty_maps_ok(self.types()[sty as int], n));
            assert(ty_parts_below(self.types()[sty as int], sty as int));
        }
        let (plain, struct_name, applied) = match self.module.tcx.get(sty) {
            Ty::Struct { fields, name, .. } => (Some(name_map_get(fields, field.value.as_str())), name.clone(), None),
            Ty::AppliedGeneric(base, args) => (None, String::new(), Some((base.clone(), crate::ty::ids_copy(args)))),
            _ => (None, String::new(), None),
        };
        if let Some(found) = plain {
            match found {
                Some(field_ty) => {
                    proof {
                        if let Ty::Struct { fields, .. } = self.types()[sty as int] {
                            crate::resolve::lemma_entries_lookup_value(name_map_entries(fields), field.value@);
                        }
                    }
                    let id = self.push_expr(typed_struct_expr);
                    return Ok(TypedExpression::FieldAccess(token.copy(), id, field.copy(), field_ty));
                },
                None => {
                    let mut m = String::from_str("field `");
                    m.append(field.value.as_str());
                    m.append("` of struct ");
                    m.append(struct_name.as_str());
                    m.append(" not found");
                    return Err(TypeCheckerError { kind: TypeCheckerErrorKind::VariableNotFound, token: field.token.copy(), message: Some(m) });
                },
            }
        }
        if let Some((base, args)) = applied {
            proof {
                lemma_lookup_below(self.table(), n, base@);
            }
            let base_ty = match self.module.tcx.table.get(base.as_str()) {
                Some(sym) => sym.ty.get_type(),
                None => {
                    return Err(make_err(Some("struct definition not found"), TypeCheckerErrorKind::Other, field.token.copy()));
                },
            };
            proof {
                assert(crate::ty_context::ty_maps_ok(self.types()[base_ty as int], n));
            }
            let (generics, field_found) = match self.module.tcx.get(base_ty) {
                Ty::Struct { generics, fields, .. } => (Some(crate::ty::strings_copy(generics)), name_map_get(fields, field.value.as_str())),
                _ => (None, None),
            };
            let generics = match generics {
                Some(g) => g,
                None => {
                    return Err(make_err(Some("not a struct definition"), TypeCheckerErrorKind::Other, field.token.copy()));
                },
            };
            let mut mapping: Vec<(String, TyId)> = Vec::new();
            let mut i: usize = 0;
            assert(crate::resolve::mapping_view(mapping@) =~= Seq::<(Seq<char>, usize)>::empty());
            while i < generics.len()
                invariant
                    self.wf(),
                    frame(*old(self), *self),
                    i <= generics@.len(),
                    crate::imap::entries_keys_unique(crate::resolve::mapping_view(mapping@)),
                    forall|k: int| 0 <= k < mapping@.len() ==> #[trigger] mapping@[k].1 < n,
                    forall|k: int| 0 <= k < args@.len() ==> #[trigger] args@[k] < n,
                decreases generics@.len() - i,
            {
                if i >= args.len() {
                    return Err(make_err(Some("missing type argument"), TypeCheckerErrorKind::Other, field.token.copy()));
                }
                let ghost before = mapping@;
                crate::resolve::mapping_insert(&mut mapping, generics[i].clone(), args[i]);
                proof {
                    assert forall|k: int| 0 <= k < mapping@.len() implies #[trigger] mapping@[k].1 < n by {
                        if mapping@[k].1 != args@[i as int] {
                            assert(before[k].1 < n);
                        }
                    }
                }
                i = i + 1;
            }
            let field_ty = match field_found {
                Some(t) => t,
                None => {
                    let mut m = String::from_str("field `");
                    m.append(field.value.as_str());
                    m.append("` not found");
                    return Err(TypeCheckerError { kind: TypeCheckerErrorKind::VariableNotFound, token: field.token.copy(), message: Some(m) });
                },
            };
            proof {
                if let Ty::Struct { fields, .. } = self.types()[base_ty as int] {
                    crate::resolve::lemma_entries_lookup_value(name_map_entries(fields), field.value@);
                }
            }
            let mut concrete = field_ty;
            let generic_name = match self.module.tcx.get(field_ty) {
                Ty::Generic(name, _) => Some(name.clone()),
                _ => None,
            };
            if let Some(g) = generic_name {
                if let Some(actual) = crate::resolve::mapping_get(&mapping, &g) {
                    proof {
                        crate::resolve::lemma_entries_lookup_value(crate::resolve::mapping_view(mapping@), g@);
                        let k = choose|k: int| 0 <= k < crate::resolve::mapping_view(mapping@).len()
                            && crate::resolve::mapping_view(mapping@)[k].0 == g@
                            && crate::resolve::mapping_view(mapping@)[k].1 == actual;
                        assert(mapping@[k].1 == actual);
                    }
                    concrete = actual;
                }
            }
            let id = self.push_expr(typed_struct_expr);
            return Ok(TypedExpression::FieldAccess(token.copy(), id, field.copy(), concrete));
        }
        Err(make_err(Some("not a struct"), TypeCheckerErrorKind::TypeMismatch, typed_struct_expr.token()))
    }

    /// Checks a struct literal: its name must denote a struct type, which is the literal's
    /// type; each field value is checked in turn.
    fn check_build_struct(&mut self, expr: &Expression, token: &Token, name: &Ident, fields: &Vec<(Ident, Expression)>) -> (r: CheckResult<TypedExpression>)
        requires
            old(self).wf(),
            value_expr_ok(*expr),
            *expr == Expression::BuildStruct(*token, *name, *fields),
        ensures
            final(self).wf(),
            grows(*old(self), *final(self)),
            r is Ok ==> frame(*old(self), *final(self)),
            r matches Ok(t) ==> expr_checked(*old(self), *final(self), *expr, t),
        decreases 3 * old(self).free_defs() + 2, expr, 1nat,
    {
        let struct_ty_id = match self.lookup_type_by_name(name.value.as_str(), name.token.copy()) {
            Ok(t) => t,
            Err(err) => return Err(err),
        };
        let is_struct = match self.module.tcx.get(struct_ty_id) {
            Ty::Struct { .. } => true,
            _ => false,
        };
        if !is_struct {
            let tcx = &self.module.tcx;
            proof {
                crate::unify::lemma_parts_below_mono(self.types()[struct_ty_id as int], struct_ty_id as int, self.types().len() as int);
            }
            let mut m = String::from_str("expected struct, got ");
            let d = display_ty(tcx.get(struct_ty_id), tcx);
            m.append(d.as_str());
            return Err(TypeCheckerError { kind: TypeCheckerErrorKind::TypeMismatch, token: name.token.copy(), message: Some(m) });
        }
        proof {
            lemma_build_struct_fields(*expr, *fields);
        }
        let ghost s1 = *self;
        let mut typed_fields: Vec<(Ident, ExprId)> = Vec::new();
        let mut i: usize = 0;
        while i < fields.len()
            invariant
                self.wf(),
                frame(*old(self), *self),
                frame(s1, *self),
                *expr == Expression::BuildStruct(*token, *name, *fields),
                i <= fields@.len(),
                typed_fields@.len() == i,
                forall|j: int| 0 <= j < fields@.len() ==> value_expr_ok(#[trigger] fields@[j].1) && decreases_to!(*expr => fields@[j].1),
                struct_ty_id < s1.types().len(),
                s1.types()[struct_ty_id as int] is Struct,
            decreases fields@.len() - i,
        {
            let tv = match self.check_expr_as_val(&fields[i].1) {
                Ok(e) => e,
                Err(err) => return Err(err),
            };
            let id = self.push_expr(tv);
            typed_fields.push((fields[i].0.copy(), id));
            i = i + 1;
        }
        proof {
            lemma_global_lookup_in(old(self).globals@, old(self).current_mod_id, name.value@);
        }
        Ok(TypedExpression::BuildStruct(token.copy(), name.copy(), typed_fields, struct_ty_id))
    }

    /// Checks the statements of a scope entered just before, then leaves it and gives back
    /// the scope. In a function's scope the last statement is checked for its value, and its
    /// type is recorded as a returned type; an empty scope records `()`.
    pub fn check_statements(&mut self, statements: &Vec<Statement>, scope_kind: ScopeKind) -> (r: CheckResult<(Vec<StmtId>, CheckScope)>)
        requires
            old(self).wf(),
            old(self).table().outer is Some,
            old(self).scope_index > 0,
            forall|i: int| 0 <= i < statements@.len() ==> stmt_ok(#[trigger] statements@[i]),
        ensures
            final(self).wf(),
            grows(*old(self), *final(self)),
            r is Ok ==> final(self).compile_as == old(self).compile_as || final(self).compile_as == CompileAs::AsNone,
            r matches Ok(p) ==> {
                let (ids, scope) = p;
                let stmts = final(self).module.typed_stmts@;
                &&& ids@.len() == statements@.len()
                &&& forall|i: int| 0 <= i < ids@.len() ==> (#[trigger] ids@[i]).0 < stmts.len()
                &&& final(self).scope_index == old(self).scope_index - 1
                &&& final(self).scopes@.len() == old(self).scopes@.len() - 1
                &&& forall|k: int| 0 <= k < final(self).scopes@.len() ==> #[trigger] final(self).scopes@[k].kind == old(self).scopes@[k].kind
                &&& final(self).table().scopes().len() == old(self).table().scopes().len() - 1
                &&& final(self).table().scopes() == old(self).table().scopes().drop_first()
                &&& scope.kind == old(self).scopes@.last().kind
                &&& final(self).current_mod_id == old(self).current_mod_id
                &&& final(self).resolving_defs@ == old(self).resolving_defs@
                &&& statements@.len() == 0 ==> scope.collect_return_types@.len() > 0
                    && final(self).types()[scope.collect_return_types@.last().0 as int] == Ty::Unit
                &&& statements@.len() > 0 && scope_kind == ScopeKind::Function ==> scope.collect_return_types@.len() > 0
                    && scope.collect_return_types@.last() == (stmt_ty(stmts[ids@.last().0 as int]), crate::typed_ast::stmt_token(stmts[ids@.last().0 as int]))
            },
            stmts_always_check(statements@) ==> r is Ok,
        decreases 3 * old(self).free_defs() + 2, statements, 0nat,
    {
        if statements.len() == 0 {
            let unit_id = self.alloc_ty(Ty::Unit);
            let idx = self.scope_index;
            self.scopes[idx].collect_return_types.push((unit_id, Token::eof(String::from_str("unknown"), 0, 0)));
            let (scope, _) = self.leave_scope();
            return Ok((Vec::new(), scope));
        }
        let statement_count = statements.len() - 1;
        proof {
            self.table().lemma_scopes_len();
        }
        let mut stmt_ids: Vec<StmtId> = Vec::new();
        let mut i: usize = 0;
        while i < statements.len()
            invariant
                self.wf(),
                self.table().scopes().len() >= 2,
                self.scope_index > 0,
                self.scope_index == old(self).scope_index,
                self.scopes@.len() == old(self).scopes@.len(),
                forall|k: int| 0 <= k < self.scopes@.len() ==> #[trigger] self.scopes@[k].kind == old(self).scopes@[k].kind,
                self.table().scopes().len() == old(self).table().scopes().len(),
                forall|k: int| 1 <= k < old(self).table().scopes().len() ==> #[trigger] self.table().scopes()[k] == old(self).table().scopes()[k],
                grows(*old(self), *self),
                self.current_mod_id == old(self).current_mod_id,
                self.resolving_defs@ == old(self).resolving_defs@,
                self.compile_as == old(self).compile_as || self.compile_as == CompileAs::AsNone,
                statement_count + 1 == statements@.len(),
                i <= statements@.len(),
                stmt_ids@.len() == i,
                forall|j: int| 0 <= j < statements@.len() ==> stmt_ok(#[trigger] statements@[j]),
                forall|j: int| 0 <= j < i ==> (#[trigger] stmt_ids@[j]).0 < self.module.typed_stmts@.len(),
                i == statements@.len() && scope_kind == ScopeKind::Function ==>
                    self.scopes@[self.scope_index as int].collect_return_types@.len() > 0
                    && self.scopes@[self.scope_index as int].collect_return_types@.last()
                        == (stmt_ty(self.module.typed_stmts@[stmt_ids@.last().0 as int]),
                            crate::typed_ast::stmt_token(self.module.typed_stmts@[stmt_ids@.last().0 as int])),
            decreases statements@.len() - i,
        {
            proof {
                assert(decreases_to!(statements => statements@));
                assert(decreases_to!(statements@ => statements@[i as int]));
            }
            if i == statement_count && scope_kind == ScopeKind::Function {
                self.compile_as = CompileAs::AsValue;
                proof {
                    assert(stmts_always_check(statements@) ==> stmt_always_checks(statements@[i as int]));
                }
                let r = match self.check_statement(&statements[i]) {
                    Ok(t) => t,
                    Err(err) => return Err(err),
                };
                self.compile_as = CompileAs::AsNone;
                let idx = self.scope_index;
                self.scopes[idx].collect_return_types.push((r.get_type(), r.token()));
                let id = self.push_stmt(r);
                stmt_ids.push(id);
            } else {
                proof {
                    assert(stmts_always_check(statements@) ==> stmt_always_checks(statements@[i as int]));
                }
                let typed_stmt = match self.check_statement(&statements[i]) {
                    Ok(t) => t,
                    Err(err) => return Err(err),
                };
                let id = self.push_stmt(typed_stmt);
                stmt_ids.push(id);
            }
            i = i + 1;
        }
        proof {
            self.table().lemma_scopes_len();
        }
        let ghost before_leave = *self;
        let (scope, _) = self.leave_scope();
        proof {
            assert(self.table().scopes() =~= old(self).table().scopes().drop_first()) by {
                assert forall|k: int| 0 <= k < self.table().scopes().len() implies
                    self.table().scopes()[k] == old(self).table().scopes().drop_first()[k] by {
                    assert(before_leave.table().scopes()[k + 1] == old(self).table().scopes()[k + 1]);
                }
            }
        }
        Ok((stmt_ids, scope))
    }

    /// Checks the statements of a program in order and gives the typed program.
    pub fn check_node(&mut self, node: &Node) -> (r: CheckResult<TypedNode>)
        requires
            old(self).wf(),
            node matches Node::Program { statements, .. } && forall|i: int| 0 <= i < statements@.len() ==> stmt_ok(#[trigger] statements@[i]),
        ensures
            final(self).wf(),
            grows(*old(self), *final(self)),
            r is Ok ==> frame(*old(self), *final(self)),
            r matches Ok(TypedNode::Program { token, statements: ids }) ==> node matches Node::Program { token: k, statements }
                && token == k && ids@.len() == statements@.len()
                && forall|i: int| 0 <= i < ids@.len() ==> (#[trigger] ids@[i]).0 < final(self).module.typed_stmts@.len(),
            program_always_checks(*node) ==> r is Ok,
            (node matches Node::Program { statements, .. } && stmts_closed(statements@, old(self).table())) ==> r is Ok,
    {
        match node {
            Node::Program { token, statements } => {
                let mut typed_statements: Vec<StmtId> = Vec::new();
                let mut i: usize = 0;
                while i < statements.len()
                    invariant
                        self.wf(),
                        frame(*old(self), *self),
                        i <= statements@.len(),
                        typed_statements@.len() == i,
                        forall|j: int| 0 <= j < statements@.len() ==> stmt_ok(#[trigger] statements@[j]),
                        forall|j: int| 0 <= j < i ==> (#[trigger] typed_statements@[j]).0 < self.module.typed_stmts@.len(),
                        program_always_checks(*node) ==> stmts_always_check(statements@),
                        stmts_closed(statements@, old(self).table()) ==> table_extends(old(self).table(), self.table()),
                        *node == (Node::Program { token: *token, statements: *statements }),
                    decreases statements@.len() - i,
                {
                    proof {
                        assert(stmts_always_check(statements@) ==> stmt_always_checks(statements@[i as int]));
                        if stmts_closed(statements@, old(self).table()) {
                            assert(stmt_closed(statements@[i as int], old(self).table()));
                            lemma_stmt_closed_mono(statements@[i as int], old(self).table(), self.table());
                        }
                    }
                    let ghost before = *self;
                    let st = match self.check_statement(&statements[i]) {
                        Ok(t) => t,
                        Err(err) => return Err(err),
                    };
                    let ghost after = *self;
                    let id = self.push_stmt(st);
                    typed_statements.push(id);
                    proof {
                        assert(self.table() == after.table());
                        if stmts_closed(statements@, old(self).table()) {
                            assert forall|n: Seq<char>| #[trigger] old(self).table().lookup(n) is Some implies self.table().lookup(n) is Some by {
                                assert(before.table().lookup(n) is Some);
                            }
                        }
                    }
                    i = i + 1;
                }
                Ok(TypedNode::Program { token: token.copy(), statements: typed_statements })
            },
        }
    }

    /// Checks the program of module `mod_id` in a fresh scope inside the built-in type names,
    /// then comes back to the current module.
    pub fn check_module(&mut self, node: &Node, mod_id: ModuleId) -> (r: CheckResult<TypedNode>)
        requires
            old(self).wf(),
            node matches Node::Program { statements, .. } && forall|i: int| 0 <= i < statements@.len() ==> stmt_ok(#[trigger] statements@[i]),
        ensures
            final(self).wf(),
            final(self).current_mod_id == old(self).current_mod_id,
            r is Ok ==> final(self).table().scopes().len() == old(self).builtins_table.scopes().len() + 1,
            types_grow(old(self).types(), final(self).types()),
            final(self).globals@ == old(self).globals@,
            final(self).defs@.len() == old(self).defs@.len(),
            forall|i: int| 0 <= i < old(self).defs@.len() && old(self).defs@[i].ty is Some ==> (#[trigger] final(self).defs@[i]).ty is Some,
            final(self).raw_programs == old(self).raw_programs,
            final(self).typed_programs == old(self).typed_programs,
            final(self).root_id == old(self).root_id,
            r matches Ok(TypedNode::Program { statements: ids, .. }) ==> node matches Node::Program { statements, .. }
                && ids@.len() == statements@.len(),
            program_always_checks(*node) ==> r is Ok,
    {
        let old_mod = self.current_mod_id;
        self.current_mod_id = mod_id;
        assert(self.builtins_table.wf());
        assert(self.module.tcx.wf());
        assert(self.wf());
        self.reset_to_builtins();
        let r = self.check_node(node);
        self.current_mod_id = old_mod;
        r
    }

    /// Resolves the type of every definition of the crate, in order of id (see
    /// `resolve_def_type`); stops at the first error.
    pub fn fill_defs_ty(&mut self) -> (r: CheckResult<()>)
        requires
            old(self).wf(),
        ensures
            final(self).wf(),
            grows(*old(self), *final(self)),
            r is Ok ==> frame(*old(self), *final(self)),
            r is Ok ==> forall|d: int| 0 <= d < final(self).defs@.len() ==> (#[trigger] final(self).defs@[d]).ty is Some,
            all_defs_recorded(*old(self))
                ==> r is Ok && *final(self) == *old(self),
            defs_always_resolve(*old(self)) ==> r is Ok,
    {
        let n = self.defs.len();
        let mut i: usize = 0;
        while i < n
            invariant
                self.wf(),
                frame(*old(self), *self),
                n == self.defs@.len(),
                i <= n,
                forall|d: int| 0 <= d < i ==> (#[trigger] self.defs@[d]).ty is Some,
                all_defs_recorded(*old(self))
                    ==> *self == *old(self),
                defs_always_resolve(*old(self)) ==> forall|d: int| i <= d < n ==> #[trigger] def_always_resolves_at(*self, d),
            decreases n - i,
        {
            let ghost before = *self;
            proof {
                if defs_always_resolve(*old(self)) {
                    assert(def_always_resolves_at(*self, i as int));
                }
            }
            proof {
                assert(all_defs_recorded(*old(self))
                    ==> def_recorded(*old(self), DefId(i)) is Some);
            }
            match self.resolve_def_type(DefId(i)) {
                Ok(_) => {},
                Err(err) => return Err(err),
            }
            proof {
                if defs_always_resolve(*old(self)) {
                    assert forall|d: int| i + 1 <= d < n implies #[trigger] def_always_resolves_at(*self, d) by {
                        lemma_always_resolves_kept(before, *self, d);
                    }
                }
                assert forall|d: int| 0 <= d <= i implies (#[trigger] self.defs@[d]).ty is Some by {
                    if d < i {
                        assert(before.defs@[d].ty is Some);
                    }
                }
            }
            i = i + 1;
        }
        Ok(())
    }

    /// Checks the program of every module other than the root that has not been checked
    /// yet, each in its own module (see `check_module`), and records the checked programs;
    /// stops at the first error.
    pub fn check_all_modules(&mut self) -> (r: CheckResult<()>)
        requires
            old(self).wf(),
        ensures
            final(self).wf(),
            final(self).current_mod_id == old(self).current_mod_id,
            final(self).defs@.len() == old(self).defs@.len(),
            forall|d: int| 0 <= d < old(self).defs@.len() && old(self).defs@[d].ty is Some ==> (#[trigger] final(self).defs@[d]).ty is Some,
            final(self).raw_programs == old(self).raw_programs,
            final(self).root_id == old(self).root_id,
            final(self).typed_programs@.len() == old(self).typed_programs@.len(),
            forall|m: int| 0 <= m < old(self).typed_programs@.len() && old(self).typed_programs@[m] is Some
                ==> #[trigger] final(self).typed_programs@[m] == old(self).typed_programs@[m],
            r is Ok ==> forall|m: int| 0 <= m < final(self).typed_programs@.len() && m < final(self).raw_programs@.len()
                && m != final(self).root_id.0 && final(self).raw_programs@[m] is Some
                ==> (#[trigger] final(self).typed_programs@[m]) is Some,
            pending_programs_always_check(*old(self)) ==> r is Ok,
    {
        let progs = programs_clone(&self.raw_programs);
        let n = self.typed_programs.len();
        let mut i: usize = 0;
        while i < n
            invariant
                self.wf(),
                *progs == *self.raw_programs,
                self.current_mod_id == old(self).current_mod_id,
                self.defs@.len() == old(self).defs@.len(),
                forall|d: int| 0 <= d < old(self).defs@.len() && old(self).defs@[d].ty is Some ==> (#[trigger] self.defs@[d]).ty is Some,
                self.raw_programs == old(self).raw_programs,
                self.root_id == old(self).root_id,
                n == self.typed_programs@.len(),
                n == old(self).typed_programs@.len(),
                i <= n,
                forall|m: int| 0 <= m < n && old(self).typed_programs@[m] is Some
                    ==> #[trigger] self.typed_programs@[m] == old(self).typed_programs@[m],
                forall|m: int| 0 <= m < i && m < self.raw_programs@.len() && m != self.root_id.0 && self.raw_programs@[m] is Some
                    ==> (#[trigger] self.typed_programs@[m]) is Some,
                forall|m: int| i <= m < n ==> #[trigger] self.typed_programs@[m] == old(self).typed_programs@[m],
            decreases n - i,
        {
            if i != self.root_id.0 && i < progs.len() && self.typed_programs[i].is_none() {
                if let Some(node) = &progs[i] {
                    proof {
                        assert(programs_ok(self.raw_programs@));
                        assert(self.raw_programs@[i as int] == Some(*node));
                    }
                    let ghost before = *self;
                    proof {
                        if pending_programs_always_check(*old(self)) {
                            assert(old(self).typed_programs@[i as int] is None);
                            assert(program_always_checks(*node));
                        }
                    }
                    let typed = match self.check_module(node, ModuleId(i)) {
                        Ok(t) => t,
                        Err(err) => return Err(err),
                    };
                    self.typed_programs.set(i, Some(typed));
                    proof {
                        assert forall|d: int| 0 <= d < old(self).defs@.len() && old(self).defs@[d].ty is Some
                            implies (#[trigger] self.defs@[d]).ty is Some by {
                            assert(before.defs@[d].ty is Some);
                        }
                    }
                }
            }
            i = i + 1;
        }
        Ok(())
    }

    /// Checks the whole crate: resolves the type of every definition (see `fill_defs_ty`),
    /// checks the other modules (see `check_all_modules`), then the root program in a fresh
    /// scope inside the built-in type names, and records it as the root module's checked
    /// program.
    pub fn check_all(&mut self, root_node: &Node) -> (r: CheckResult<TypedNode>)
        requires
            old(self).wf(),
            root_node matches Node::Program { statements, .. } && forall|i: int| 0 <= i < statements@.len() ==> stmt_ok(#[trigger] statements@[i]),
        ensures
            final(self).wf(),
            r is Ok ==> final(self).current_mod_id == old(self).current_mod_id,
            r is Ok ==> forall|d: int| 0 <= d < final(self).defs@.len() ==> (#[trigger] final(self).defs@[d]).ty is Some,
            r is Ok ==> forall|m: int| 0 <= m < final(self).typed_programs@.len() && m < final(self).raw_programs@.len()
                && m != final(self).root_id.0 && final(self).raw_programs@[m] is Some
                ==> (#[trigger] final(self).typed_programs@[m]) is Some,
            r is Ok && final(self).root_id.0 < final(self).typed_programs@.len()
                ==> final(self).typed_programs@[final(self).root_id.0 as int] is Some,
            r matches Ok(TypedNode::Program { statements: ids, .. }) ==> root_node matches Node::Program { statements, .. }
                && ids@.len() == statements@.len(),
            defs_always_resolve(*old(self)) && pending_programs_always_check(*old(self)) && program_always_checks(*root_node)
                ==> r is Ok,
            r matches Ok(TypedNode::Program { token: k, statements: ids }) ==> (final(self).root_id.0 < final(self).typed_programs@.len()
                ==> (final(self).typed_programs@[final(self).root_id.0 as int] matches Some(TypedNode::Program { token: k2, statements: ids2 })
                    && k2 == k && ids2@ == ids@)),
    {
        match self.fill_defs_ty() {
            Ok(()) => {},
            Err(err) => return Err(err),
        }
        match self.check_all_modules() {
            Ok(()) => {},
            Err(err) => return Err(err),
        }
        let ghost before = *self;
        self.reset_to_builtins();
        let node = match self.check_node(root_node) {
            Ok(n) => n,
            Err(err) => return Err(err),
        };
        let root = self.root_id.0;
        if root < self.typed_programs.len() {
            let copy = match &node {
                TypedNode::Program { token, statements } =>
                    TypedNode::Program { token: token.copy(), statements: crate::ids::stmt_ids_copy(statements) },
            };
            self.typed_programs.set(root, Some(copy));
        }
        proof {
            assert forall|d: int| 0 <= d < self.defs@.len() implies (#[trigger] self.defs@[d]).ty is Some by {
                assert(before.defs@[d].ty is Some);
            }
        }
        Ok(node)
    }

    /// Checks `expr` as if in module `id`; see `check_expr`.
    pub fn check_expr_with_mod_id(&mut self, expr: &Expression, id: ModuleId) -> (r: CheckResult<TypedExpression>)
        requires
            old(self).wf(),
            value_expr_ok(*expr),
        ensures
            final(self).wf(),
            grows(*old(self), *final(self)),
            r is Ok ==> frame(*old(self), *final(self)),
            r matches Ok(t) ==> expr_checked(in_module(*old(self), id), *final(self), *expr, t),
            literal_expr(*expr) ==> r is Ok,
            expr matches Expression::Ident(name) ==> (old(self).table().lookup(name.value@) is Some ==> r is Ok),
    {
        let old_mod = self.current_mod_id;
        self.current_mod_id = id;
        let result = self.check_expr(expr);
        self.current_mod_id = old_mod;
        assert(self.module.tcx.wf());
        assert(self.builtins_table.wf());
        result
    }

    /// Checks `stmt` as if in module `id`; see `check_statement`.
    pub fn check_stmt_with_mod_id(&mut self, stmt: &Statement, id: ModuleId) -> (r: CheckResult<TypedStatement>)
        requires
            old(self).wf(),
            stmt_ok(*stmt),
        ensures
            final(self).wf(),
            grows(*old(self), *final(self)),
            r is Ok ==> frame(*old(self), *final(self)),
            r matches Ok(t) ==> stmt_checked(in_module(*old(self), id), *final(self), *stmt, t),
            stmt_always_checks(*stmt) ==> r is Ok,
    {
        let old_mod = self.current_mod_id;
        self.current_mod_id = id;
        let result = self.check_statement(stmt);
        self.current_mod_id = old_mod;
        assert(self.module.tcx.wf());
        assert(self.builtins_table.wf());
        result
    }

    /// The error for dereferencing a value of the type with id `ty`, which is no pointer.
    fn deref_error(&self, ty: TyId, token: Token) -> (e: TypeCheckerError)
        requires
            self.wf(),
            ty < self.types().len(),
        ensures
            e.kind == TypeCheckerErrorKind::TypeMismatch,
            e.token == token,
            e.message matches Some(m) && m@ == "type `"@ + display_ty_spec(self.types(), self.types()[ty as int], self.types().len() as int)
                + "` cannot be dereferenced"@,
    {
        let tcx = &self.module.tcx;
        proof {
            crate::unify::lemma_parts_below_mono(self.types()[ty as int], ty as int, self.types().len() as int);
        }
        let mut m = String::from_str("type `");
        let d = display_ty(tcx.get(ty), tcx);
        m.append(d.as_str());
        m.append("` cannot be dereferenced");
        TypeCheckerError { kind: TypeCheckerErrorKind::TypeMismatch, token, message: Some(m) }
    }

    /// Checks `expr` as a type and gives its typed form (see `type_expr_checked`); only
    /// names, pointer types (`*T`) and type hints are types.
    pub fn check_type_expr(&mut self, expr: &Expression) -> (r: CheckResult<TypedExpression>)
        requires
            old(self).wf(),
            type_expr_ok(*expr),
        ensures
            final(self).wf(),
            grows(*old(self), *final(self)),
            r is Ok ==> frame(*old(self), *final(self)),
            r matches Ok(t) ==> type_expr_checked(*old(self), *final(self), *expr, t),
            expr matches Expression::Ident(name) ==> (old(self).table().lookup(name.value@) is Some ==> r is Ok),
            expr matches Expression::Ident(name) ==> (!old(self).name_known(name.value@) ==> (r matches Err(e)
                && e.kind == TypeCheckerErrorKind::VariableNotFound && e.token == name.token)),
            expr matches Expression::TypeHint(_, inner) ==> (**inner matches Expression::Ident(name)
                ==> (old(self).table().lookup(name.value@) is Some ==> r is Ok)),
            !(expr is Ident || expr is TypeHint || expr is Prefix) ==> *final(self) == *old(self) && (r matches Err(e)
                && e.kind == TypeCheckerErrorKind::Other && e.token == ast_expr_token(*expr)
                && (e.message matches Some(m) && m@ == "not a type expr"@)),
            expr matches Expression::Prefix { op, right, .. } ==> (op@ == "*"@ ==> (**right matches Expression::Ident(name)
                ==> (old(self).table().lookup(name.value@) is Some ==> r is Ok))),
        decreases 3 * old(self).free_defs() + 2, expr, 2nat,
    {
        let ghost n = self.types().len() as int;
        match expr {
            Expression::Ident(it) => {
                proof {
                    lemma_lookup_below(self.table(), n, it.value@);
                }
                if let Some(symbol) = self.module.tcx.table.get(it.value.as_str()) {
                    Ok(TypedExpression::Ident(it.copy(), symbol.ty.get_type(), None))
                } else if let Some(i) = self.lookup_name(it.value.as_str()) {
                    let def_id = self.globals[i].def_id;
                    match self.resolve_def_type(def_id) {
                        Ok(ty) => Ok(TypedExpression::Ident(it.copy(), ty, Some(def_id))),
                        Err(err) => Err(err),
                    }
                } else {
                    Err(make_err(None, TypeCheckerErrorKind::VariableNotFound, it.token.copy()))
                }
            },
            Expression::TypeHint(ident, ty_expr) => {
                let new_ty_expr = match self.check_type_expr(ty_expr) {
                    Ok(e) => e,
                    Err(err) => return Err(err),
                };
                let ty = new_ty_expr.get_type();
                let id = self.push_expr(new_ty_expr);
                Ok(TypedExpression::TypeHint(ident.copy(), id, ty))
            },
            Expression::Prefix { token, op, right } => {
                let inner_t = match self.check_type_expr(right) {
                    Ok(e) => e,
                    Err(err) => return Err(err),
                };
                proof {
                    reveal_strlit("*");
                }
                if str_eq(op.as_str(), "*") {
                    let inner_ty = inner_t.get_type();
                    let ty = self.alloc_ty(Ty::Ptr(inner_ty));
                    let right_id = self.push_expr(inner_t);
                    Ok(TypedExpression::Prefix { token: token.copy(), op: op.clone(), right: right_id, ty })
                } else {
                    let mut m = String::from_str("unknown operator `");
                    m.append(token.value.as_str());
                    m.append("`");
                    Err(TypeCheckerError { kind: TypeCheckerErrorKind::Other, token: token.copy(), message: Some(m) })
                }
            },
            _ => Err(make_err(Some("not a type expr"), TypeCheckerErrorKind::Other, expr.token())),
        }
    }
}

/// `Rc::clone`: another pointer to the same programs.
#[verifier::external_body]
fn programs_clone(p: &Rc<Vec<Option<Node>>>) -> (r: Rc<Vec<Option<Node>>>)
    ensures
        r == *p,
{
    Rc::clone(p)
}

/// The statement that definition `d` comes from: the one at its index in the parsed
/// program of its module, as long as that module has not been checked.
pub open spec fn def_stmt(c: TypeChecker, d: DefId) -> Option<Statement> {
    let m = c.defs@[d.0 as int].module_id.0 as int;
    let k = c.defs@[d.0 as int].ast_index as int;
    if 0 <= m < c.raw_programs@.len() && !(m < c.typed_programs@.len() && c.typed_programs@[m] is Some) {
        match c.raw_programs@[m] {
            Some(Node::Program { statements, .. }) => if 0 <= k < statements@.len() {
                Some(statements@[k])
            } else {
                None
            },
            None => None,
        }
    } else {
        None
    }
}

/// Whether every module other than the root whose program is still to be checked has a
/// program that always checks.
pub open spec fn pending_programs_always_check(c: TypeChecker) -> bool {
    forall|m: int| 0 <= m < c.typed_programs@.len() && m < c.raw_programs@.len() && m != c.root_id.0
        && (#[trigger] c.typed_programs@[m]) is None
        ==> (c.raw_programs@[m] matches Some(node) ==> program_always_checks(node))
}

/// Whether every definition has its type recorded already.
pub open spec fn all_defs_recorded(c: TypeChecker) -> bool {
    forall|d: int| 0 <= d < c.defs@.len() ==> ((#[trigger] c.defs@[d]).ty matches Some(t) && t != 0)
}

/// The type recorded for definition `d`, unless there is none or it is that of id 0, which
/// counts as not yet resolved.
pub open spec fn def_recorded(c: TypeChecker, d: DefId) -> Option<TyId> {
    match c.defs@[d.0 as int].ty {
        Some(t) => if t != 0 { Some(t) } else { None },
        None => None,
    }
}

/// Whether `t` is a function type with the generic names `generics`, `n_params` parameters,
/// `()` as return type if `no_ret`, and the given variadicity.
pub open spec fn fn_header_ok(types: Seq<Ty>, t: TyId, generics: Seq<Seq<char>>, n_params: int, no_ret: bool, variadic: bool) -> bool {
    types[t as int] matches Ty::Function { generics: g, params_type, ret_type, is_variadic }
        && strings_view(g@) == generics && params_type@.len() == n_params && is_variadic == variadic
        && (no_ret ==> types[ret_type as int] == Ty::Unit)
}

/// Whether the entries `e` of a struct's fields hold exactly the names of the field type
/// hints among `fields`: each hint's name is a key, and each key is a hint's name.
pub open spec fn fields_match_hints(e: Seq<(Seq<char>, usize)>, fields: Seq<Expression>) -> bool {
    &&& forall|k: int| 0 <= k < fields.len() ==> (#[trigger] fields[k] matches Expression::TypeHint(n, _)
        ==> entries_lookup(e, n.value@) is Some)
    &&& forall|j: int| 0 <= j < e.len() ==> exists|k: int| 0 <= k < fields.len()
        && (#[trigger] fields[k] matches Expression::TypeHint(n, _) && n.value@ == (#[trigger] e[j]).0)
}

/// What the type `t` resolved for a definition from statement `s` is, as far as the types
/// show it: a function type for a function, with its generic names, as many parameters as
/// written, `()` as return type when none is written, variadic only for an external
/// function marked so; a struct type for a struct, with its name and generic names and no
/// traits; for a constant whose value is a literal, the literal's type.
pub open spec fn def_type_ok(types: Seq<Ty>, s: Statement, t: TyId) -> bool {
    match s {
        Statement::Const { value, .. } => literal_ty(value) matches Some(x) ==> types[t as int] == x,
        Statement::FuncDecl { params, ret_ty, generics_params, .. } =>
            fn_header_ok(types, t, ident_names(generics_params@), params@.len() as int, ret_ty is None, false),
        Statement::ExpressionStatement(Expression::Function { params, ret_ty, generics_params, .. }) =>
            fn_header_ok(types, t, ident_names(generics_params@), params@.len() as int, ret_ty is None, false),
        Statement::Extern { params, ret_ty, vararg, .. } =>
            fn_header_ok(types, t, Seq::empty(), params@.len() as int, ret_ty is None, vararg),
        Statement::Struct { name, generics, fields, .. } => types[t as int] matches Ty::Struct { name: n, generics: g, impl_traits, fields: f }
            && n@ == name.value@ && strings_view(g@) == ident_names(generics@) && name_map_entries(impl_traits).len() == 0
            && fields_match_hints(name_map_entries(f), fields@),
        _ => false,
    }
}

impl TypeChecker {
    /// The statement that definition `def_id` comes from (see `def_stmt`), found in
    /// `programs`, the parsed programs of the crate.
    fn raw_stmt_of<'p>(&self, programs: &'p Rc<Vec<Option<Node>>>, def_id: DefId) -> (r: Option<&'p Statement>)
        requires
            def_id.0 < self.defs@.len(),
            *programs == self.raw_programs,
        ensures
            match def_stmt(*self, def_id) {
                Some(st) => r matches Some(x) && *x == st,
                None => r is None,
            },
    {
        let m = self.defs[def_id.0].module_id.0;
        let k = self.defs[def_id.0].ast_index;
        if m >= programs.len() {
            return None;
        }
        if m < self.typed_programs.len() && self.typed_programs[m].is_some() {
            return None;
        }
        match &programs[m] {
            Some(Node::Program { statements, .. }) => {
                if k < statements.len() {
                    Some(&statements[k])
                } else {
                    None
                }
            },
            None => None,
        }
    }

    /// The token of the statement that definition `def_id` comes from; an end-of-input
    /// token if there is none.
    fn get_def_token(&self, def_id: DefId) -> (t: Token)
        requires
            def_id.0 < self.defs@.len(),
        ensures
            def_stmt(*self, def_id) matches Some(st) ==> t == crate::ast::ast_stmt_token(st),
    {
        let progs = programs_clone(&self.raw_programs);
        match self.raw_stmt_of(&progs, def_id) {
            Some(st) => st.token(),
            None => Token::eof(String::from_str("unknown"), 0, 0),
        }
    }

    /// Whether the type of definition `def_id` is being resolved.
    fn is_resolving(&self, def_id: DefId) -> (r: bool)
        ensures
            r == self.resolving_defs@.contains(def_id),
    {
        let mut i: usize = 0;
        while i < self.resolving_defs.len()
            invariant
                i <= self.resolving_defs@.len(),
                forall|j: int| 0 <= j < i ==> self.resolving_defs@[j] != def_id,
            decreases self.resolving_defs@.len() - i,
        {
            if self.resolving_defs[i].0 == def_id.0 {
                assert(self.resolving_defs@[i as int] == def_id);
                return true;
            }
            i = i + 1;
        }
        false
    }

    /// Records `ty` as the type of definition `def_id`.
    fn write_back_type(&mut self, def_id: DefId, ty: TyId)
        requires
            old(self).wf(),
            def_id.0 < old(self).defs@.len(),
            ty < old(self).types().len(),
        ensures
            final(self).wf(),
            final(self).defs@[def_id.0 as int].ty == Some(ty),
            final(self).defs@.len() == old(self).defs@.len(),
            forall|i: int| 0 <= i < old(self).defs@.len() && i != def_id.0 ==> #[trigger] final(self).defs@[i] == old(self).defs@[i],
            final(self).defs@[def_id.0 as int].module_id == old(self).defs@[def_id.0 as int].module_id,
            final(self).defs@[def_id.0 as int].ast_index == old(self).defs@[def_id.0 as int].ast_index,
            final(self).module == old(self).module,
            final(self).globals == old(self).globals,
            final(self).resolving_defs == old(self).resolving_defs,
            final(self).raw_programs == old(self).raw_programs,
            final(self).typed_programs == old(self).typed_programs,
            final(self).root_id == old(self).root_id,
            final(self).constraints == old(self).constraints,
            final(self).scopes == old(self).scopes,
            final(self).scope_index == old(self).scope_index,
            final(self).compile_as == old(self).compile_as,
            final(self).builtins_table == old(self).builtins_table,
            final(self).current_mod_id == old(self).current_mod_id,
    {
        self.defs[def_id.0].ty = Some(ty);
    }

    /// Resolves the type of definition `def_id` from the statement it comes from, in its
    /// module, and records it: a constant's is its value's; a function's (declared, written
    /// as a value, or external) is built from its header, with its generic parameters bound
    /// while the header is checked; a struct's is built from its fields. An external
    /// function's name is bound in the innermost scope. A type already recorded (other than
    /// that of id 0) is given back as it is; a definition met again while its own type is
    /// being resolved is a circular dependency.
    pub fn resolve_def_type(&mut self, def_id: DefId) -> (r: CheckResult<TyId>)
        requires
            old(self).wf(),
            def_id.0 < old(self).defs@.len(),
        ensures
            final(self).wf(),
            grows(*old(self), *final(self)),
            r is Ok ==> frame(*old(self), *final(self)),
            r matches Ok(t) ==> t < final(self).types().len() && final(self).defs@[def_id.0 as int].ty == Some(t),
            def_recorded(*old(self), def_id) matches Some(t) ==> r == Ok::<TyId, TypeCheckerError>(t)
                && *final(self) == *old(self),
            def_recorded(*old(self), def_id) is None && old(self).resolving_defs@.contains(def_id)
                ==> *final(self) == *old(self) && (r matches Err(e) && e.kind == TypeCheckerErrorKind::Other
                && (e.message matches Some(m) && m@ == "circular dependency detected"@)
                && (def_stmt(*old(self), def_id) matches Some(st) ==> e.token == ast_stmt_token(st))),
            def_recorded(*old(self), def_id) is None && !old(self).resolving_defs@.contains(def_id)
                ==> match def_stmt(*old(self), def_id) {
                    Some(st) => r matches Ok(t) ==> def_type_ok(final(self).types(), st, t),
                    None => r matches Err(e) && e.kind == TypeCheckerErrorKind::Other,
                },
            def_always_resolves(*old(self), def_id) ==> r is Ok,
        decreases 3 * old(self).free_defs(), def_id, 0nat,
    {
        let existing = match self.defs[def_id.0].ty {
            Some(t) => t,
            None => 0,
        };
        if existing != 0 {
            return Ok(existing);
        }
        if self.is_resolving(def_id) {
            return Err(make_err(Some("circular dependency detected"), TypeCheckerErrorKind::Other, self.get_def_token(def_id)));
        }
        let progs = programs_clone(&self.raw_programs);
        let stmt = match self.raw_stmt_of(&progs, def_id) {
            Some(st) => st,
            None => return Err(make_err(Some("the module of this definition has no program to check"),
                TypeCheckerErrorKind::Other, Token::eof(String::from_str("unknown"), 0, 0))),
        };
        let n_defs = self.defs.len();
        let ghost s0 = *self;
        proof {
            let m = self.defs@[def_id.0 as int].module_id.0 as int;
            assert(programs_ok(self.raw_programs@));
            assert(self.raw_programs@[m] matches Some(Node::Program { statements, .. })
                && stmt_ok(statements@[self.defs@[def_id.0 as int].ast_index as int]));
            assert(stmt_ok(*stmt));
            lemma_free_count_push(self.resolving_defs@, def_id, self.defs@.len());
        }
        self.resolving_defs.push(def_id);
        let old_mod = self.current_mod_id;
        self.current_mod_id = self.defs[def_id.0].module_id;
        let ty = match stmt {
            Statement::Const { value, .. } => {
                let typed = match self.check_expr(value) {
                    Ok(e) => e,
                    Err(err) => return Err(err),
                };
                typed.get_type()
            },
            Statement::FuncDecl { params, ret_ty, generics_params, .. } => {
                proof {
                    crate::ast::lemma_func_decl_parts(*stmt);
                }
                match self.resolve_fn_header(stmt, params, ret_ty, generics_params) {
                    Ok((t, _)) => t,
                    Err(err) => return Err(err),
                }
            },
            Statement::ExpressionStatement(e) => {
                match e {
                    Expression::Function { params, ret_ty, generics_params, .. } => {
                        proof {
                            crate::ast::lemma_function_parts(*e);
                            assert(decreases_to!(*stmt => *e));
                        }
                        match self.resolve_fn_header(stmt, params, ret_ty, generics_params) {
                            Ok((t, mapping)) => {
                                self.defs[def_id.0].params = mapping;
                                t
                            },
                            Err(err) => return Err(err),
                        }
                    },
                    _ => return Err(make_err(Some("the type of this definition cannot be resolved"),
                        TypeCheckerErrorKind::Other, stmt.token())),
                }
            },
            Statement::Struct { name, fields, generics, .. } => {
                proof {
                    crate::ast::lemma_struct_parts(*stmt);
                }
                match self.resolve_struct(stmt, name, fields, generics) {
                    Ok(t) => t,
                    Err(err) => return Err(err),
                }
            },
            Statement::Extern { alias, params, ret_ty, vararg, .. } => {
                proof {
                    crate::ast::lemma_extern_parts(*stmt);
                }
                match self.resolve_extern(stmt, alias, params, ret_ty, *vararg) {
                    Ok(t) => t,
                    Err(err) => return Err(err),
                }
            },
            _ => return Err(make_err(Some("the type of this definition cannot be resolved"),
                TypeCheckerErrorKind::Other, stmt.token())),
        };
        self.write_back_type(def_id, ty);
        self.current_mod_id = old_mod;
        self.resolving_defs.pop();
        proof {
            assert(self.resolving_defs@ =~= s0.resolving_defs@);
        }
        Ok(ty)
    }

    /// Resolves a function header: its generic parameters that are names are bound to new
    /// generic types while its parameter and return type expressions are checked, then
    /// removed; gives the function type and the names of the parameters that are type hints
    /// with their types. `()` is added to the types first, whether or not a return type is
    /// written.
    fn resolve_fn_header(&mut self, stmt: &Statement, params: &Vec<Expression>, ret_ty: &Option<Box<Expression>>,
        generics_params: &Vec<Expression>) -> (r: CheckResult<(TyId, crate::imap::NameMap)>)
        requires
            old(self).wf(),
            forall|i: int| 0 <= i < params@.len() ==> type_expr_ok(#[trigger] params@[i]) && decreases_to!(*stmt => params@[i]),
            ret_ty matches Some(t) ==> type_expr_ok(**t) && decreases_to!(*stmt => **t),
        ensures
            final(self).wf(),
            grows(*old(self), *final(self)),
            r is Ok ==> frame(*old(self), *final(self)),
            r matches Ok(p) ==> p.0 < final(self).types().len()
                && fn_header_ok(final(self).types(), p.0, ident_names(generics_params@), params@.len() as int, ret_ty is None, false),
        decreases 3 * old(self).free_defs() + 2, stmt, 3nat,
    {
        let generics = self.define_generics(generics_params);
        let mut params_type: Vec<TyId> = Vec::new();
        let mut mapping = name_map_new();
        let mut i: usize = 0;
        while i < params.len()
            invariant
                self.wf(),
                frame(*old(self), *self),
                i <= params@.len(),
                params_type@.len() == i,
                forall|j: int| 0 <= j < params_type@.len() ==> #[trigger] params_type@[j] < self.types().len(),
                forall|j: int| 0 <= j < params@.len() ==> type_expr_ok(#[trigger] params@[j]) && decreases_to!(*stmt => params@[j]),
                strings_view(generics@) == ident_names(generics_params@),
            decreases params@.len() - i,
        {
            let typed = match self.check_type_expr(&params[i]) {
                Ok(e) => e,
                Err(err) => return Err(err),
            };
            let t = typed.get_type();
            if let TypedExpression::TypeHint(name, _, _) = &typed {
                name_map_insert(&mut mapping, name.value.clone(), t);
            }
            params_type.push(t);
            i = i + 1;
        }
        let unit = self.alloc_ty(Ty::Unit);
        let ret_id = match ret_ty {
            Some(ret) => match self.check_type_expr(ret) {
                Ok(e) => e.get_type(),
                Err(err) => return Err(err),
            },
            None => unit,
        };
        self.remove_generics(generics_params);
        let func_ty = self.alloc_ty(Ty::Function { generics, params_type, ret_type: ret_id, is_variadic: false });
        Ok((func_ty, mapping))
    }

    /// Resolves a struct's type: its generic parameters are bound to new generic types while
    /// its fields are checked as types, then removed; each field that is a type hint gives a
    /// field, in order, and the struct has no traits.
    fn resolve_struct(&mut self, stmt: &Statement, name: &Ident, fields: &Vec<Expression>, generics: &Vec<Expression>)
        -> (r: CheckResult<TyId>)
        requires
            old(self).wf(),
            forall|i: int| 0 <= i < fields@.len() ==> type_expr_ok(#[trigger] fields@[i]) && decreases_to!(*stmt => fields@[i]),
        ensures
            final(self).wf(),
            grows(*old(self), *final(self)),
            r is Ok ==> frame(*old(self), *final(self)),
            r matches Ok(t) ==> t < final(self).types().len()
                && (final(self).types()[t as int] matches Ty::Struct { name: n, generics: g, impl_traits, fields: f }
                && n@ == name.value@ && strings_view(g@) == ident_names(generics@) && name_map_entries(impl_traits).len() == 0
                && fields_match_hints(name_map_entries(f), fields@)),
        decreases 3 * old(self).free_defs() + 2, stmt, 3nat,
    {
        let generic_names = self.define_generics(generics);
        let mut m = name_map_new();
        let mut i: usize = 0;
        while i < fields.len()
            invariant
                self.wf(),
                frame(*old(self), *self),
                i <= fields@.len(),
                forall|j: int| 0 <= j < fields@.len() ==> type_expr_ok(#[trigger] fields@[j]) && decreases_to!(*stmt => fields@[j]),
                strings_view(generic_names@) == ident_names(generics@),
                crate::imap::entries_keys_unique(name_map_entries(m)),
                crate::ty_context::entry_values_below(name_map_entries(m), self.types().len() as int),
                fields_match_hints(name_map_entries(m), fields@.take(i as int)),
            decreases fields@.len() - i,
        {
            let ghost e_before = name_map_entries(m);
            let ghost s_before = *self;
            let typed = match self.check_type_expr(&fields[i]) {
                Ok(e) => e,
                Err(err) => return Err(err),
            };
            if let TypedExpression::TypeHint(field_ident, _, field_ty) = &typed {
                let ghost e0 = name_map_entries(m);
                proof {
                    crate::imap::lemma_entries_insert_unique(e0, field_ident.value@, *field_ty);
                    let e1 = entries_insert(e0, field_ident.value@, *field_ty);
                    assert forall|k: int| 0 <= k < e1.len() implies #[trigger] e1[k].1 < self.types().len() by {
                        assert(e1[k].1 == *field_ty || exists|w: int| 0 <= w < e0.len() && e0[w].1 == e1[k].1);
                        if e1[k].1 != *field_ty {
                            let w = choose|w: int| 0 <= w < e0.len() && e0[w].1 == e1[k].1;
                            assert(e0[w].1 < self.types().len());
                        }
                    }
                }
                name_map_insert(&mut m, field_ident.value.clone(), *field_ty);
            }
            proof {
                let fs = fields@.take(i + 1);
                let e1 = name_map_entries(m);
                assert forall|k: int| 0 <= k < fs.len() implies (#[trigger] fs[k] matches Expression::TypeHint(n, _)
                    ==> entries_lookup(e1, n.value@) is Some) by {
                    if let Expression::TypeHint(n, _) = fs[k] {
                        if k < i {
                            assert(fields@.take(i as int)[k] == fs[k]);
                            assert(entries_lookup(e_before, n.value@) is Some);
                            if let TypedExpression::TypeHint(fi, _, ft) = typed {
                                if n.value@ != fi.value@ {
                                    crate::imap::lemma_entries_insert_keeps(e_before, fi.value@, ft, n.value@);
                                } else {
                                    crate::imap::lemma_entries_insert_lookup(e_before, fi.value@, ft);
                                }
                            }
                        } else {
                            assert(typed matches TypedExpression::TypeHint(fi, _, _) && fi == n);
                            if let TypedExpression::TypeHint(fi, _, ft) = typed {
                                crate::imap::lemma_entries_insert_lookup(e_before, fi.value@, ft);
                            }
                        }
                    }
                }
                assert forall|j: int| 0 <= j < e1.len() implies exists|k: int| 0 <= k < fs.len()
                    && (#[trigger] fs[k] matches Expression::TypeHint(n, _) && n.value@ == (#[trigger] e1[j]).0) by {
                    if let TypedExpression::TypeHint(fi, _, ft) = typed {
                        if e1[j].0 == fi.value@ {
                            assert(fs[i as int] matches Expression::TypeHint(n, _) && n.value@ == e1[j].0);
                        } else {
                            assert(exists|w: int| 0 <= w < e_before.len() && e_before[w].0 == e1[j].0);
                            let w = choose|w: int| 0 <= w < e_before.len() && e_before[w].0 == e1[j].0;
                            let k = choose|k: int| 0 <= k < fields@.take(i as int).len()
                                && (#[trigger] fields@.take(i as int)[k] matches Expression::TypeHint(n, _) && n.value@ == (#[trigger] e_before[w]).0);
                            assert(fs[k] == fields@.take(i as int)[k]);
                        }
                    } else {
                        let k = choose|k: int| 0 <= k < fields@.take(i as int).len()
                            && (#[trigger] fields@.take(i as int)[k] matches Expression::TypeHint(n, _) && n.value@ == (#[trigger] e_before[j]).0);
                        assert(fs[k] == fields@.take(i as int)[k]);
                    }
                }
            }
            i = i + 1;
        }
        proof {
            assert(fields@.take(fields@.len() as int) =~= fields@);
        }
        self.remove_generics(generics);
        let impl_traits = name_map_new();
        let ghost em = name_map_entries(m);
        let struct_ty = self.alloc_ty(Ty::Struct { name: name.value.clone(), generics: generic_names, fields: m, impl_traits });
        proof {
            assert(self.module.tcx.wf());
            assert(crate::ty_context::ty_maps_ok(self.types()[struct_ty as int], self.types().len() as int));
            if let Ty::Struct { fields: f, .. } = self.types()[struct_ty as int] {
                let ef = name_map_entries(f);
                assert(crate::imap::entries_same_map(ef, em));
                crate::imap::lemma_same_map_keys_back(ef, em);
                assert forall|k: int| 0 <= k < fields@.len() implies (#[trigger] fields@[k] matches Expression::TypeHint(n, _)
                    ==> entries_lookup(ef, n.value@) is Some) by {
                    if let Expression::TypeHint(n, _) = fields@[k] {
                        assert(entries_lookup(em, n.value@) is Some);
                        crate::resolve::lemma_entries_lookup_value(em, n.value@);
                        let w = choose|w: int| 0 <= w < em.len() && em[w].0 == n.value@ && em[w].1 == entries_lookup(em, n.value@).unwrap();
                        assert(entries_lookup(ef, em[w].0) is Some);
                    }
                }
                assert forall|j: int| 0 <= j < ef.len() implies exists|k: int| 0 <= k < fields@.len()
                    && (#[trigger] fields@[k] matches Expression::TypeHint(n, _) && n.value@ == (#[trigger] ef[j]).0) by {
                    assert(entries_lookup(em, ef[j].0) == Some(ef[j].1));
                    crate::resolve::lemma_entries_lookup_value(em, ef[j].0);
                    let w = choose|w: int| 0 <= w < em.len() && em[w].0 == ef[j].0 && em[w].1 == entries_lookup(em, ef[j].0).unwrap();
                    assert(exists|k: int| 0 <= k < fields@.len()
                        && (#[trigger] fields@[k] matches Expression::TypeHint(n, _) && n.value@ == (#[trigger] em[w]).0));
                }
            }
        }
        Ok(struct_ty)
    }

    /// Resolves an external function's type: its parameters are checked as types and added
    /// to the module, its return type expression is checked (`()` without one), and its
    /// name `alias` is bound in the innermost scope to the function type.
    fn resolve_extern(&mut self, stmt: &Statement, alias: &Token, params: &Vec<Expression>, ret_ty: &Option<Box<Expression>>,
        vararg: bool) -> (r: CheckResult<TyId>)
        requires
            old(self).wf(),
            forall|i: int| 0 <= i < params@.len() ==> type_expr_ok(#[trigger] params@[i]) && decreases_to!(*stmt => params@[i]),
            ret_ty matches Some(t) ==> type_expr_ok(**t) && decreases_to!(*stmt => **t),
        ensures
            final(self).wf(),
            grows(*old(self), *final(self)),
            r is Ok ==> frame(*old(self), *final(self)),
            r matches Ok(t) ==> t < final(self).types().len()
                && fn_header_ok(final(self).types(), t, Seq::empty(), params@.len() as int, ret_ty is None, vararg)
                && final(self).table().lookup(alias.value@) == Some(crate::table::SymbolType::Variable(t)),
        decreases 3 * old(self).free_defs() + 2, stmt, 3nat,
    {
        let mut params_type: Vec<TyId> = Vec::new();
        let mut i: usize = 0;
        while i < params.len()
            invariant
                self.wf(),
                frame(*old(self), *self),
                i <= params@.len(),
                params_type@.len() == i,
                forall|j: int| 0 <= j < params_type@.len() ==> #[trigger] params_type@[j] < self.types().len(),
                forall|j: int| 0 <= j < params@.len() ==> type_expr_ok(#[trigger] params@[j]) && decreases_to!(*stmt => params@[j]),
            decreases params@.len() - i,
        {
            let typed = match self.check_type_expr(&params[i]) {
                Ok(e) => e,
                Err(err) => return Err(err),
            };
            params_type.push(typed.get_type());
            let _ = self.push_expr(typed);
            i = i + 1;
        }
        let ret_typed = match ret_ty {
            Some(ret) => match self.check_type_expr(ret) {
                Ok(e) => Some(e.get_type()),
                Err(err) => return Err(err),
            },
            None => None,
        };
        let ret_id = match ret_typed {
            Some(t) => t,
            None => self.alloc_ty(Ty::Unit),
        };
        let no_generics: Vec<String> = Vec::new();
        proof {
            assert(strings_view(no_generics@) =~= Seq::<Seq<char>>::empty());
        }
        let func_ty = self.alloc_ty(Ty::Function { generics: no_generics, params_type, ret_type: ret_id, is_variadic: vararg });
        self.define(alias.value.as_str(), func_ty);
        Ok(func_ty)
    }
}

/// The checker as it stands in module `id`.
pub open spec fn in_module(c: TypeChecker, id: ModuleId) -> TypeChecker {
    TypeChecker { current_mod_id: id, ..c }
}

/// The checker as it stands with expressions checked for their values.
pub open spec fn as_value(c: TypeChecker) -> TypeChecker {
    TypeChecker { compile_as: CompileAs::AsValue, ..c }
}

/// Law: an infix expression with a comparison operator (`==`, `!=`, `<`, `>`, `<=`, `>=`)
/// checks to an expression of type `bool`.
pub proof fn law_comparison_is_bool(a: TypeChecker, b: TypeChecker, e: Expression, t: TypedExpression)
    requires
        expr_checked(a, b, e, t),
        e matches Expression::Infix { op, .. } && (op@ == "=="@ || op@ == "!="@ || op@ == "<"@ || op@ == ">"@
            || op@ == "<="@ || op@ == ">="@),
    ensures
        b.types()[expr_ty(t) as int] == Ty::Bool,
{
}

/// Law: an infix expression with any other operator checks to an expression of its left
/// operand's type.
pub proof fn law_arithmetic_keeps_left_type(a: TypeChecker, b: TypeChecker, e: Expression, t: TypedExpression)
    requires
        expr_checked(a, b, e, t),
        e matches Expression::Infix { op, .. } && !(op@ == "=="@ || op@ == "!="@ || op@ == "<"@ || op@ == ">"@
            || op@ == "<="@ || op@ == ">="@),
    ensures
        t matches TypedExpression::Infix { left, .. }
            && expr_ty(t) == expr_ty(b.module.typed_exprs@[left.0 as int]),
{
}

/// Law: the struct type resolved for a struct definition has a field for each field type
/// hint written in it, and no field that none of them names.
pub proof fn law_resolved_struct_fields(types: Seq<Ty>, s: Statement, t: TyId, k: int, name: Seq<char>)
    requires
        def_type_ok(types, s, t),
        s matches Statement::Struct { fields, .. } && 0 <= k < fields@.len(),
    ensures
        s matches Statement::Struct { fields, .. } && (fields@[k] matches Expression::TypeHint(n, _)
            ==> (types[t as int] matches Ty::Struct { fields: f, .. }
                && entries_lookup(name_map_entries(f), n.value@) is Some)),
        s matches Statement::Struct { fields, .. } && (types[t as int] matches Ty::Struct { fields: f, .. }
            && entries_lookup(name_map_entries(f), name) is Some
            ==> exists|j: int| 0 <= j < fields@.len() && (#[trigger] fields@[j] matches Expression::TypeHint(n, _) && n.value@ == name)),
{
    if let Statement::Struct { fields, .. } = s {
        if let Ty::Struct { fields: f, .. } = types[t as int] {
            assert(fields@[k] == fields@[k]);
            if entries_lookup(name_map_entries(f), name) is Some {
                crate::resolve::lemma_entries_lookup_value(name_map_entries(f), name);
                let w = choose|w: int| 0 <= w < name_map_entries(f).len() && name_map_entries(f)[w].0 == name
                    && name_map_entries(f)[w].1 == entries_lookup(name_map_entries(f), name).unwrap();
                assert(exists|j: int| 0 <= j < fields@.len()
                    && (#[trigger] fields@[j] matches Expression::TypeHint(n, _) && n.value@ == (#[trigger] name_map_entries(f)[w]).0));
            }
        }
    }
}

} // verus!
