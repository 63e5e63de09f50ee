//! The insertion-ordered maps from names to type ids that struct and trait types
//! carry, kept in `indexmap::IndexMap` and reached through the trusted items below.
use indexmap::IndexMap;
use vstd::prelude::*;

verus! {

#[verifier::external_type_specification]
#[verifier::external_body]
#[verifier::reject_recursive_types(K)]
#[verifier::reject_recursive_types(V)]
#[verifier::reject_recursive_types(S)]
pub struct ExIndexMap<K, V, S>(IndexMap<K, V, S>);

/// An insertion-ordered map from names to type ids.
pub type NameMap = IndexMap<String, usize>;

/// The entries of a name map, in their order: each key by its characters, with its value.
pub uninterp spec fn name_map_entries(m: NameMap) -> Seq<(Seq<char>, usize)>;

/// The value stored for `key` in `entries`: that of the first entry with this key.
pub open spec fn entries_lookup(entries: Seq<(Seq<char>, usize)>, key: Seq<char>) -> Option<usize>
    decreases entries.len(),
{
    if entries.len() == 0 {
        None
    } else if entries[0].0 == key {
        Some(entries[0].1)
    } else {
        entries_lookup(entries.drop_first(), key)
    }
}

/// The entries after inserting `key` with `value`: an existing entry of the key keeps its
/// place and takes the new value, otherwise the pair goes last.
pub open spec fn entries_insert(entries: Seq<(Seq<char>, usize)>, key: Seq<char>, value: usize) -> Seq<(Seq<char>, usize)>
{
    if exists|i: int| 0 <= i < entries.len() && #[trigger] entries[i].0 == key {
        let i = choose|i: int| 0 <= i < entries.len() && #[trigger] entries[i].0 == key;
        entries.update(i, (key, value))
    } else {
        entries.push((key, value))
    }
}

/// The entries after inserting each pair of `other`, in order.
pub open spec fn entries_extend(entries: Seq<(Seq<char>, usize)>, other: Seq<(Seq<char>, usize)>) -> Seq<(Seq<char>, usize)>
    decreases other.len(),
{
    if other.len() == 0 {
        entries
    } else {
        entries_extend(entries_insert(entries, other[0].0, other[0].1), other.drop_first())
    }
}

/// Whether two name maps hold the same keys with the same values, whatever their order.
pub open spec fn entries_same_map(a: Seq<(Seq<char>, usize)>, b: Seq<(Seq<char>, usize)>) -> bool {
    &&& a.len() == b.len()
    &&& forall|i: int| 0 <= i < a.len() ==> entries_lookup(b, #[trigger] a[i].0) == Some(a[i].1)
}

/// Whether no two entries share a key.
pub open spec fn entries_keys_unique(entries: Seq<(Seq<char>, usize)>) -> bool {
    forall|i: int, j: int| 0 <= i < j < entries.len() ==> #[trigger] entries[i].0 != #[trigger] entries[j].0
}

/// `IndexMap::new`: an empty map.
#[verifier::external_body]
pub(crate) fn name_map_new() -> (m: NameMap)
    ensures
        name_map_entries(m) == Seq::<(Seq<char>, usize)>::empty(),
{
    IndexMap::new()
}

/// `IndexMap::get`: the value stored for `key`, if any.
#[verifier::external_body]
pub(crate) fn name_map_get(m: &NameMap, key: &str) -> (r: Option<usize>)
    ensures
        r == entries_lookup(name_map_entries(*m), key@),
{
    m.get(key).copied()
}

/// `IndexMap::insert`: an existing entry of `key` keeps its place and takes `value`;
/// otherwise the pair goes last.
#[verifier::external_body]
pub(crate) fn name_map_insert(m: &mut NameMap, key: String, value: usize)
    ensures
        name_map_entries(*final(m)) == entries_insert(name_map_entries(*old(m)), key@, value),
{
    m.insert(key, value);
}

/// `IndexMap::append`: inserts every entry of `other`, in order, and leaves `other` empty.
#[verifier::external_body]
pub(crate) fn name_map_append(m: &mut NameMap, other: &mut NameMap)
    ensures
        name_map_entries(*final(m)) == entries_extend(name_map_entries(*old(m)), name_map_entries(*old(other))),
        name_map_entries(*final(other)) == Seq::<(Seq<char>, usize)>::empty(),
{
    m.append(other);
}

/// `IndexMap::clone`: a map with the same entries in the same order.
#[verifier::external_body]
pub(crate) fn name_map_clone(m: &NameMap) -> (r: NameMap)
    ensures
        name_map_entries(r) == name_map_entries(*m),
{
    m.clone()
}

/// `PartialEq::eq` of `IndexMap`: equal lengths, and every entry of `a` found in `b` with the
/// same value.
#[verifier::external_body]
pub(crate) fn name_map_eq(a: &NameMap, b: &NameMap) -> (r: bool)
    ensures
        r == entries_same_map(name_map_entries(*a), name_map_entries(*b)),
{
    a == b
}

/// The first entry with key `k` gives the value found for `k`.
pub proof fn lemma_entries_lookup_first(e: Seq<(Seq<char>, usize)>, k: Seq<char>, c: int)
    requires
        0 <= c < e.len(),
        e[c].0 == k,
        forall|j: int| 0 <= j < c ==> e[j].0 != k,
    ensures
        entries_lookup(e, k) == Some(e[c].1),
    decreases c,
{
    if c > 0 {
        assert forall|j: int| 0 <= j < c - 1 implies e.drop_first()[j].0 != k by {
            assert(e.drop_first()[j] == e[j + 1]);
        }
        lemma_entries_lookup_first(e.drop_first(), k, c - 1);
    }
}

/// After inserting `k` with `v` into entries with no key twice, `k` is found with `v`.
pub proof fn lemma_entries_insert_lookup(e: Seq<(Seq<char>, usize)>, k: Seq<char>, v: usize)
    requires
        entries_keys_unique(e),
    ensures
        entries_lookup(entries_insert(e, k, v), k) == Some(v),
{
    let r = entries_insert(e, k, v);
    if exists|i: int| 0 <= i < e.len() && #[trigger] e[i].0 == k {
        let c = choose|i: int| 0 <= i < e.len() && #[trigger] e[i].0 == k;
        assert forall|j: int| 0 <= j < c implies r[j].0 != k by {
            assert(e[j].0 != e[c].0);
        }
        lemma_entries_lookup_first(r, k, c);
    } else {
        assert forall|j: int| 0 <= j < e.len() implies r[j].0 != k by {
            assert(r[j] == e[j]);
        }
        lemma_entries_lookup_first(r, k, e.len() as int);
    }
}

/// Inserting each pair of entries with values below `n` into entries with no key twice and
/// values below `n` gives entries with no key twice and values below `n`.
pub proof fn lemma_entries_extend_ok(e: Seq<(Seq<char>, usize)>, other: Seq<(Seq<char>, usize)>, n: int)
    requires
        entries_keys_unique(e),
        forall|i: int| 0 <= i < e.len() ==> #[trigger] e[i].1 < n,
        forall|i: int| 0 <= i < other.len() ==> #[trigger] other[i].1 < n,
    ensures
        entries_keys_unique(entries_extend(e, other)),
        forall|i: int| 0 <= i < entries_extend(e, other).len() ==> #[trigger] entries_extend(e, other)[i].1 < n,
    decreases other.len(),
{
    if other.len() > 0 {
        let e1 = entries_insert(e, other[0].0, other[0].1);
        lemma_entries_insert_unique(e, other[0].0, other[0].1);
        assert forall|i: int| 0 <= i < e1.len() implies #[trigger] e1[i].1 < n by {
            if e1[i].1 != other[0].1 {
                let j = choose|j: int| 0 <= j < e.len() && e[j].1 == e1[i].1;
                assert(e[j].1 < n);
            }
        }
        let rest = other.drop_first();
        assert forall|i: int| 0 <= i < rest.len() implies #[trigger] rest[i].1 < n by {
            assert(rest[i] == other[i + 1]);
        }
        lemma_entries_extend_ok(e1, rest, n);
    }
}

/// Inserting into entries with no key twice gives entries with no key twice, whose values
/// are the inserted one or values that were there.
pub proof fn lemma_entries_insert_unique(e: Seq<(Seq<char>, usize)>, k: Seq<char>, v: usize)
    requires
        entries_keys_unique(e),
    ensures
        entries_keys_unique(entries_insert(e, k, v)),
        forall|i: int| 0 <= i < entries_insert(e, k, v).len() ==> #[trigger] entries_insert(e, k, v)[i].1 == v
            || exists|j: int| 0 <= j < e.len() && e[j].1 == entries_insert(e, k, v)[i].1,
{
    let r = entries_insert(e, k, v);
    if exists|i: int| 0 <= i < e.len() && #[trigger] e[i].0 == k {
        let c = choose|i: int| 0 <= i < e.len() && #[trigger] e[i].0 == k;
        assert forall|a: int, b: int| 0 <= a < b < r.len() implies #[trigger] r[a].0 != #[trigger] r[b].0 by {
            if a == c {
                assert(e[c].0 != e[b].0);
            } else if b == c {
                assert(e[a].0 != e[c].0);
            } else {
                assert(e[a].0 != e[b].0);
            }
        }
        assert forall|i: int| 0 <= i < r.len() implies #[trigger] r[i].1 == v
            || exists|j: int| 0 <= j < e.len() && e[j].1 == r[i].1 by {
            if i != c {
                assert(e[i].1 == r[i].1);
            }
        }
    } else {
        assert forall|a: int, b: int| 0 <= a < b < r.len() implies #[trigger] r[a].0 != #[trigger] r[b].0 by {
            if b < e.len() {
                assert(e[a].0 != e[b].0);
            } else {
                assert(e[a].0 != k);
            }
        }
        assert forall|i: int| 0 <= i < r.len() implies #[trigger] r[i].1 == v
            || exists|j: int| 0 <= j < e.len() && e[j].1 == r[i].1 by {
            if i < e.len() {
                assert(e[i].1 == r[i].1);
            }
        }
    }
}

/// Inserting a key into entries with no key twice keeps every other key found with its
/// value.
pub proof fn lemma_entries_insert_keeps(e: Seq<(Seq<char>, usize)>, k: Seq<char>, v: usize, n: Seq<char>)
    requires
        entries_keys_unique(e),
        n != k,
        entries_lookup(e, n) is Some,
    ensures
        entries_lookup(entries_insert(e, k, v), n) == entries_lookup(e, n),
{
    crate::resolve::lemma_entries_lookup_value(e, n);
    let c = choose|j: int| 0 <= j < e.len() && e[j].0 == n && e[j].1 == entries_lookup(e, n).unwrap();
    let r = entries_insert(e, k, v);
    assert(r.len() >= e.len());
    assert(r[c] == e[c]);
    assert forall|j: int| 0 <= j < c implies r[j].0 != n by {
        assert(e[j].0 != e[c].0);
        if exists|i: int| 0 <= i < e.len() && #[trigger] e[i].0 == k {
        } else {
            assert(r[j] == e[j]);
        }
    }
    lemma_entries_lookup_first(r, n, c);
}

/// Two maps with no key twice that hold the same keys with the same values, seen from one
/// side, hold them seen from the other side too: each key of `b` is found in `a`.
pub proof fn lemma_same_map_keys_back(a: Seq<(Seq<char>, usize)>, b: Seq<(Seq<char>, usize)>)
    requires
        entries_same_map(a, b),
        entries_keys_unique(a),
        entries_keys_unique(b),
    ensures
        forall|i: int| 0 <= i < b.len() ==> entries_lookup(a, #[trigger] b[i].0) is Some,
{
    broadcast use vstd::seq_lib::seq_to_set_is_finite;
    let ka = a.map_values(|p: (Seq<char>, usize)| p.0);
    let kb = b.map_values(|p: (Seq<char>, usize)| p.0);
    assert(ka.no_duplicates()) by {
        assert forall|i: int, j: int| 0 <= i < ka.len() && 0 <= j < ka.len() && i != j implies ka[i] != ka[j] by {
            if i < j { assert(a[i].0 != a[j].0); } else { assert(a[j].0 != a[i].0); }
        }
    }
    assert(kb.no_duplicates()) by {
        assert forall|i: int, j: int| 0 <= i < kb.len() && 0 <= j < kb.len() && i != j implies kb[i] != kb[j] by {
            if i < j { assert(b[i].0 != b[j].0); } else { assert(b[j].0 != b[i].0); }
        }
    }
    ka.unique_seq_to_set();
    kb.unique_seq_to_set();
    assert(ka.to_set().subset_of(kb.to_set())) by {
        assert forall|x: Seq<char>| ka.to_set().contains(x) implies kb.to_set().contains(x) by {
            let i = choose|i: int| 0 <= i < ka.len() && ka[i] == x;
            assert(entries_lookup(b, a[i].0) == Some(a[i].1));
            crate::resolve::lemma_entries_lookup_value(b, x);
            let j = choose|j: int| 0 <= j < b.len() && b[j].0 == x && b[j].1 == entries_lookup(b, x).unwrap();
            assert(kb[j] == x);
        }
    }
    vstd::set_lib::lemma_subset_equality(ka.to_set(), kb.to_set());
    assert forall|i: int| 0 <= i < b.len() implies entries_lookup(a, #[trigger] b[i].0) is Some by {
        assert(kb[i] == b[i].0);
        assert(kb.to_set().contains(b[i].0));
        assert(ka.to_set().contains(b[i].0));
        let c = choose|c: int| 0 <= c < ka.len() && ka[c] == b[i].0;
        assert forall|j: int| 0 <= j < c implies a[j].0 != b[i].0 by {
            assert(a[j].0 != a[c].0);
        }
        lemma_entries_lookup_first(a, b[i].0, c);
    }
}

} // verus!
