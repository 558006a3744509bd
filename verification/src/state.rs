//! What a state has to offer the engine.

use crate::response::Response;
use crate::superstate::Superstate;
use vstd::prelude::*;

verus! {

/// A leaf of the hierarchy: a value the machine can be in.
///
/// `M` is the shared storage and `E` the event. The specification functions
/// are the model of the state; each executable method has to do what its
/// model says.
pub trait State<M, E>: Sized {
    /// The type of the superstates above the states of this type.
    type Superstate: Superstate<M, E, Self>;

    /// The enclosing superstate, if there is one.
    spec fn parent(&self) -> Option<Self::Superstate>;

    /// The storage and the response after this state's handler saw `event`.
    spec fn handled(&self, storage: M, event: E) -> (M, Response<Self>);

    /// The storage after this state's entry action.
    spec fn entered(&self, storage: M) -> M;

    /// The storage after this state's exit action.
    spec fn exited(&self, storage: M) -> M;

    fn superstate(&self) -> (r: Option<Self::Superstate>)
        ensures
            r == self.parent(),
    ;

    fn call_handler(&self, storage: &mut M, event: &E) -> (r: Response<Self>)
        ensures
            (*final(storage), r) == self.handled(*old(storage), *event),
    ;

    fn call_entry_action(&self, storage: &mut M)
        ensures
            *final(storage) == self.entered(*old(storage)),
    ;

    fn call_exit_action(&self, storage: &mut M)
        ensures
            *final(storage) == self.exited(*old(storage)),
    ;
}

} // verus!
