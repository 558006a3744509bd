//! The three answers a handler can give.

use vstd::prelude::*;

verus! {

/// What a handler makes of an event.
#[derive(Debug, PartialEq, Eq)]
pub enum Response<S> {
    /// The event was consumed and the machine stays where it is.
    Handled,
    /// The event is left to the enclosing superstate.
    Super,
    /// The event was consumed and the machine moves to the given state.
    Transition(S),
}

} // verus!
