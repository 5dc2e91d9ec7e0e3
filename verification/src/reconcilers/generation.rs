//! Generation and status change detection.

use vstd::prelude::*;
use vstd::std_specs::cmp::PartialEqSpec;

verus! {

/// Whether a spec change is pending: the resource's `metadata.generation` is
/// known and differs from the controller's `status.observedGeneration`, or the
/// controller has never observed a generation.
pub open spec fn spec_should_reconcile(current: Option<i64>, observed: Option<i64>) -> bool {
    match (current, observed) {
        (Some(c), Some(o)) => c != o,
        (Some(_), None) => true,
        _ => false,
    }
}

/// Check if a resource's spec has changed by comparing generation with
/// `observed_generation`.
///
/// Returns `true` when both are known and differ, or when only the current
/// generation is known (first reconciliation); `false` when they are equal or
/// the current generation is unknown.
pub fn should_reconcile(current_generation: Option<i64>, observed_generation: Option<i64>) -> (r: bool)
    ensures
        r == spec_should_reconcile(current_generation, observed_generation),
{
    match (current_generation, observed_generation) {
        (Some(current), Some(observed)) => current != observed,
        (Some(_), None) => true,
        _ => false,
    }
}

/// Check if a status value has actually changed compared to the current status.
///
/// Returns `true` exactly when the two optional values differ under `T`'s
/// equality (for types whose `==` obeys its specification).
pub fn status_changed<T: PartialEq>(current_value: &Option<T>, new_value: &Option<T>) -> (r: bool)
    ensures
        T::obeys_eq_spec() ==> r == !current_value.eq_spec(new_value),
{
    current_value != new_value
}

} // verus!
