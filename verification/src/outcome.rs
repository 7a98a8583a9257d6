//! How an executed contract call relates to its specification: a call either
//! commits the specified next state and emits the specified events, or fails
//! with the specified error and leaves the state as it was.

use crate::common::CallError;
use vstd::prelude::*;

verus! {

/// A specified transition: the next state and the events it publishes, or
/// the error that rejects the call.
pub type Transition<S, E> = Result<(S, Seq<E>), CallError>;

/// The executed call (its result and the states before and after it) agrees
/// with the specified transition.
pub open spec fn commits<S, E: View>(
    r: Result<Vec<E>, CallError>,
    before: S,
    after: S,
    spec: Transition<S, E::V>,
) -> bool {
    match spec {
        Ok((next, events)) => r is Ok && after == next && seq_views(r->Ok_0@) == events,
        Err(e) => r == Err::<Vec<E>, CallError>(e) && after == before,
    }
}

/// The views of the elements of a sequence.
pub open spec fn seq_views<E: View>(events: Seq<E>) -> Seq<E::V> {
    events.map_values(|e: E| e@)
}

/// The state a specified transition leads to, or `before` when it fails.
pub open spec fn next_state<S, E>(before: S, spec: Transition<S, E>) -> S {
    match spec {
        Ok((next, _)) => next,
        Err(_) => before,
    }
}

} // verus!
