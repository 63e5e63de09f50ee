use vstd::prelude::*;

verus! {

/// Index of a module of a crate.
#[derive(Debug, Clone, Copy, PartialEq, Eq, Structural, Hash, PartialOrd, Ord)]
pub struct ModuleId(pub usize);

/// Index of a definition of a crate.
#[derive(Debug, Clone, Copy, PartialEq, Eq, Structural, Hash, PartialOrd, Ord)]
pub struct DefId(pub usize);

/// Index of a typed expression of a module.
#[derive(Debug, Clone, Copy, PartialEq, Eq, Structural, Hash, PartialOrd, Ord)]
pub struct ExprId(pub usize);

/// Index of a typed statement of a module.
#[derive(Debug, Clone, Copy, PartialEq, Eq, Structural, Hash, PartialOrd, Ord)]
pub struct StmtId(pub usize);

impl From<usize> for ModuleId {
    fn from(value: usize) -> (r: ModuleId) {
        ModuleId(value)
    }
}

impl vstd::std_specs::convert::FromSpecImpl<usize> for ModuleId {
    open spec fn obeys_from_spec() -> bool {
        true
    }

    open spec fn from_spec(v: usize) -> ModuleId {
        ModuleId(v)
    }
}

impl From<usize> for DefId {
    fn from(value: usize) -> (r: DefId) {
        DefId(value)
    }
}

impl vstd::std_specs::convert::FromSpecImpl<usize> for DefId {
    open spec fn obeys_from_spec() -> bool {
        true
    }

    open spec fn from_spec(v: usize) -> DefId {
        DefId(v)
    }
}

impl From<usize> for ExprId {
    fn from(value: usize) -> (r: ExprId) {
        ExprId(value)
    }
}

impl vstd::std_specs::convert::FromSpecImpl<usize> for ExprId {
    open spec fn obeys_from_spec() -> bool {
        true
    }

    open spec fn from_spec(v: usize) -> ExprId {
        ExprId(v)
    }
}

impl From<usize> for StmtId {
    fn from(value: usize) -> (r: StmtId) {
        StmtId(value)
    }
}

impl vstd::std_specs::convert::FromSpecImpl<usize> for StmtId {
    open spec fn obeys_from_spec() -> bool {
        true
    }

    open spec fn from_spec(v: usize) -> StmtId {
        StmtId(v)
    }
}

/// A copy of a list of expression ids.
pub fn expr_ids_copy(a: &Vec<ExprId>) -> (r: Vec<ExprId>)
    ensures
        r@ == a@,
{
    let mut r: Vec<ExprId> = Vec::new();
    let mut i: usize = 0;
    while i < a.len()
        invariant
            0 <= i <= a.len(),
            r@ == a@.take(i as int),
        decreases a.len() - i,
    {
        r.push(a[i]);
        i = i + 1;
        assert(r@ =~= a@.take(i as int));
    }
    assert(a@.take(a.len() as int) =~= a@);
    r
}

/// A copy of a list of statement ids.
pub fn stmt_ids_copy(a: &Vec<StmtId>) -> (r: Vec<StmtId>)
    ensures
        r@ == a@,
{
    let mut r: Vec<StmtId> = Vec::new();
    let mut i: usize = 0;
    while i < a.len()
        invariant
            0 <= i <= a.len(),
            r@ == a@.take(i as int),
        decreases a.len() - i,
    {
        r.push(a[i]);
        i = i + 1;
        assert(r@ =~= a@.take(i as int));
    }
    assert(a@.take(a.len() as int) =~= a@);
    r
}

} // verus!
