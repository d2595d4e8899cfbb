//! Notions that the contracts of the other modules share.
use vstd::prelude::*;

verus! {

/// What a result says.
pub open spec fn result_view<T: DeepView, E: DeepView>(r: Result<T, E>) -> Result<T::V, E::V> {
    match r {
        Ok(t) => Ok(t.deep_view()),
        Err(e) => Err(e.deep_view()),
    }
}

/// The first of two optional values that is present.
pub open spec fn either<T>(a: Option<T>, b: Option<T>) -> Option<T> {
    if a is Some {
        a
    } else {
        b
    }
}

/// An optional value, or a default in its absence.
pub open spec fn value_or<T>(a: Option<T>, default: T) -> T {
    match a {
        Some(a) => a,
        None => default,
    }
}

} // verus!
