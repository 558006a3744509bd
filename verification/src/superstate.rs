//! What a superstate has to offer the engine.

use crate::response::Response;
use vstd::prelude::*;

verus! {

/// The largest depth a superstate can have.
pub const MAX_SUPERSTATE_DEPTH: usize = 65536;

/// A node of the hierarchy that groups states.
///
/// `M` is the shared storage, `E` the event and `S` the type of the leaf
/// states. A value of the implementing type names one node: two values are
/// the same node exactly when they are equal. The specification functions are
/// the model of the node; each executable method has to do what its model says.
pub trait Superstate<M, E, S>: Sized {
    /// The enclosing superstate, if there is one.
    spec fn parent(&self) -> Option<Self>;

    /// A measure that gets strictly smaller from a node to its parent, so
    /// that following `parent` ends. As it is a `u16`, no superstate is
    /// deeper than `MAX_SUPERSTATE_DEPTH`, and every depth fits a `usize`.
    spec fn rank(&self) -> u16;

    /// The storage and the response after this node's handler saw `event`.
    spec fn handled(&self, storage: M, event: E) -> (M, Response<S>);

    /// The storage after this node's entry action.
    spec fn entered(&self, storage: M) -> M;

    /// The storage after this node's exit action.
    spec fn exited(&self, storage: M) -> M;

    /// The hierarchy has no cycle.
    proof fn lemma_parent_rank(&self)
        ensures
            self.parent() matches Some(p) ==> p.rank() < self.rank(),
    ;

    fn superstate(&self) -> (r: Option<Self>)
        ensures
            r == self.parent(),
    ;

    /// Whether `self` and `other` are the same node.
    fn same_state(&self, other: &Self) -> (r: bool)
        ensures
            r == (*self == *other),
    ;

    fn call_handler(&self, storage: &mut M, event: &E) -> (r: Response<S>)
        ensures
            (*final(storage), r) == self.handled(*old(storage), *event),
    ;

    fn call_entry_action(&self, storage: &mut M)
        ensures
            *final(storage) == self.entered(*old(storage)),
    ;

    fn call_exit_action(&self, storage: &mut M)
        ensures
            *final(storage) == self.exited(*old(storage)),
    ;
}

} // verus!
