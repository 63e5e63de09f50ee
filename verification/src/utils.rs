use vstd::prelude::*;
use vstd::std_specs::cmp::PartialEqSpec;

verus! {

/// Checks that `left` and `right` are equal. The callback `on_failure` would be run
/// before a failure is reported; callers must pass equal values.
pub fn assert_eq<T: PartialEq + core::fmt::Debug, F: FnOnce()>(left: T, right: T, on_failure: F)
    requires
        T::obeys_eq_spec(),
        left.eq_spec(&right),
{
    if left != right {
        on_failure();
    }
}

/// Whether every item equals the first one; `true` for an empty sequence.
pub fn all_eq<T: PartialEq>(items: &[T]) -> (res: bool)
    requires
        T::obeys_eq_spec(),
    ensures
        res == (items@.len() == 0 || forall|i: int|
            1 <= i < items@.len() ==> #[trigger] items@[i].eq_spec(&items@[0])),
{
    if items.len() == 0 {
        return true;
    }
    let first = &items[0];
    let mut i: usize = 1;
    while i < items.len()
        invariant
            1 <= i <= items@.len(),
            T::obeys_eq_spec(),
            first == &items@[0],
            forall|j: int| 1 <= j < i ==> #[trigger] items@[j].eq_spec(&items@[0]),
        decreases items@.len() - i,
    {
        if !(items[i] == *first) {
            return false;
        }
        i = i + 1;
    }
    true
}

} // verus!
