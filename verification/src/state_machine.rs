//! The machine itself: the shared storage with its hooks, and the engine
//! that holds the storage and the current state, before and after its
//! initialisation.

use crate::actions::{
    enters, exits, lemma_performed_concat, performed, state_enter, state_exit, Step,
};
use crate::dispatch::{bubbled, state_handle};
use crate::hierarchy::{
    enter_levels, exit_levels, state_depth, state_depth_spec, state_path, transition_path,
};
use crate::response::Response;
use crate::state::State;
use vstd::prelude::*;

verus! {

/// The superstate type of the machine `M`.
pub type SuperstateOf<M> = <<M as StateMachine>::State as State<
    M,
    <M as StateMachine>::Event,
>>::Superstate;

/// Holds a reference to either a state or a superstate.
#[derive(Debug)]
pub enum StateOrSuperstate<'a, S, P> {
    /// Reference to a state.
    State(&'a S),
    /// Reference to a superstate.
    Superstate(&'a P),
}

/// The shared storage of a machine, which declares the types that belong to
/// it, its initial state and its two hooks.
pub trait StateMachine: Sized {
    /// Event that is processed by the state machine.
    type Event;

    /// Enumeration of the various states.
    type State: State<Self, Self::Event>;

    /// The state the machine starts in.
    spec fn initial_state() -> Self::State;

    /// The storage after the dispatch hook ran for `target`.
    spec fn dispatched(
        self,
        target: StateOrSuperstate<'_, Self::State, SuperstateOf<Self>>,
        event: Self::Event,
    ) -> Self;

    /// The storage after the transition hook ran for a move from `source`
    /// to `target`.
    spec fn transitioned(self, source: Self::State, target: Self::State) -> Self;

    fn initial() -> (s: Self::State)
        ensures
            s == Self::initial_state(),
    ;

    /// Called before an event is handed to the handler of a state or
    /// superstate.
    fn on_dispatch(
        &mut self,
        target: StateOrSuperstate<'_, Self::State, SuperstateOf<Self>>,
        event: &Self::Event,
    )
        ensures
            *final(self) == old(self).dispatched(target, *event),
    ;

    /// Called after every transition.
    fn on_transition(&mut self, source: &Self::State, target: &Self::State)
        ensures
            *final(self) == old(self).transitioned(*source, *target),
    ;
}

/// The steps of a transition from `source` to `target`: the exit actions
/// from `source` up to the lowest superstate that encloses both, that one
/// left out, then the entry actions from below that superstate down to
/// `target`.
pub open spec fn transition_steps<M: StateMachine>(source: M::State, target: M::State) -> Seq<
    Step<M::State, SuperstateOf<M>>,
> {
    exits(state_path::<M>(source), exit_levels::<M>(source, target)) + enters(
        state_path::<M>(target),
        enter_levels::<M>(source, target),
    )
}

/// The entry actions that lead into `initial` from outside the hierarchy:
/// those of all its superstates, outermost first, then its own.
pub open spec fn init_steps<M: StateMachine>(initial: M::State) -> Seq<
    Step<M::State, SuperstateOf<M>>,
> {
    enters(state_path::<M>(initial), state_depth_spec::<M>(initial))
}

/// The storage after a transition from `source` to `target`: the steps of
/// the transition are performed, then the transition hook runs.
pub open spec fn transition_done<M: StateMachine>(
    source: M::State,
    target: M::State,
    storage: M,
) -> M {
    performed::<M>(transition_steps::<M>(source, target), storage).transitioned(source, target)
}

/// The state and the storage of a machine after it handled `event` in
/// `state`: the event goes up the path of `state`, and where the answer is a
/// transition, the transition is made from `state`.
pub open spec fn event_handled<M: StateMachine>(state: M::State, storage: M, event: M::Event) -> (
    M::State,
    M,
) {
    let (after, response) = bubbled::<M>(state_path::<M>(state), storage, event);
    match response {
        Response::Transition(target) => (target, transition_done::<M>(state, target, after)),
        _ => (state, after),
    }
}

/// A state machine where the shared storage is of type `Self`.
pub trait StateMachineSharedStorage: StateMachine {
    /// Create an uninitialized state machine. Use
    /// [`UninitializedStateMachine::init`] to initialize it.
    fn state_machine(self) -> (machine: UninitializedStateMachine<Self>)
        ensures
            machine.storage() == self,
            machine.current() == Self::initial_state(),
    {
        UninitializedStateMachine { shared_storage: self, state: Self::initial() }
    }
}

impl<T: StateMachine> StateMachineSharedStorage for T {

}

/// A state machine that has not yet been initialized.
///
/// A state machine needs to be initialized before it can handle events. This
/// can be done by calling the [`init`](Self::init) method on it. This will
/// execute all the entry actions into the initial state.
pub struct UninitializedStateMachine<M: StateMachine> {
    shared_storage: M,
    state: M::State,
}

impl<M: StateMachine> UninitializedStateMachine<M> {
    /// The shared storage.
    pub closed spec fn storage(&self) -> M {
        self.shared_storage
    }

    /// The state that `init` will enter.
    pub closed spec fn current(&self) -> M::State {
        self.state
    }

    /// Initialize the state machine by executing all entry actions towards
    /// the initial state.
    pub fn init(self) -> (machine: InitializedStatemachine<M>)
        ensures
            machine.current() == self.current(),
            machine.storage() == performed::<M>(
                init_steps::<M>(self.current()),
                self.storage(),
            ),
    {
        let mut machine = InitializedStatemachine {
            shared_storage: self.shared_storage,
            state: self.state,
        };
        machine.init();
        machine
    }
}

/// A state machine that has been initialized.
pub struct InitializedStatemachine<M: StateMachine> {
    shared_storage: M,
    state: M::State,
}

impl<M: StateMachine> InitializedStatemachine<M> {
    /// The shared storage.
    pub closed spec fn storage(&self) -> M {
        self.shared_storage
    }

    /// The state the machine is in.
    pub closed spec fn current(&self) -> M::State {
        self.state
    }

    /// Get an immutable reference to the current state of the state machine.
    pub fn state(&self) -> (state: &M::State)
        ensures
            *state == self.current(),
    {
        &self.state
    }

    /// Get a mutable reference the current state of the state machine.
    ///
    /// Writing through it replaces the current state without running any
    /// exit or entry action: the states the machine has entered and the
    /// state it is in then no longer agree.
    pub fn state_mut(&mut self) -> (state: &mut M::State)
        ensures
            *state == old(self).current(),
            final(self).current() == *final(state),
            final(self).storage() == old(self).storage(),
    {
        &mut self.state
    }

    /// Handle the given event.
    pub fn handle(&mut self, event: &M::Event)
        ensures
            (final(self).current(), final(self).storage()) == event_handled::<M>(
                old(self).current(),
                old(self).storage(),
                *event,
            ),
    {
        let response = state_handle::<M>(&self.state, &mut self.shared_storage, event);
        match response {
            Response::Super => {},
            Response::Handled => {},
            Response::Transition(state) => self.transition(state),
        }
    }

    /// Initialize the state machine by executing all entry actions towards
    /// the initial state.
    fn init(&mut self)
        ensures
            final(self).current() == old(self).current(),
            final(self).storage() == performed::<M>(
                init_steps::<M>(old(self).current()),
                old(self).storage(),
            ),
    {
        let enter_levels = state_depth::<M>(&self.state);
        state_enter::<M>(&self.state, &mut self.shared_storage, enter_levels);
    }

    /// Transition from the current state to the given target state.
    fn transition(&mut self, target: M::State)
        ensures
            final(self).current() == target,
            final(self).storage() == transition_done::<M>(
                old(self).current(),
                target,
                old(self).storage(),
            ),
    {
        proof {
            lemma_performed_concat::<M>(
                exits(state_path::<M>(self.state), exit_levels::<M>(self.state, target)),
                enters(state_path::<M>(target), enter_levels::<M>(self.state, target)),
                self.shared_storage,
            );
        }
        let mut previous = target;
        // Get the transition path we need to perform from one state to the next.
        let (exit_levels, enter_levels) = transition_path::<M>(&self.state, &previous);
        // Perform the exit from the previous state towards the common ancestor state.
        state_exit::<M>(&self.state, &mut self.shared_storage, exit_levels);
        // Perform the entry actions from the common ancestor state into the new state.
        state_enter::<M>(&previous, &mut self.shared_storage, enter_levels);
        // Update the state, now that both are done.
        core::mem::swap(&mut self.state, &mut previous);
        self.shared_storage.on_transition(&previous, &self.state);
    }
}

impl<M: StateMachine<Event = ()>> InitializedStatemachine<M> {
    /// This is the same as `handle(&())` in the case `Event` is of type `()`.
    pub fn step(&mut self)
        ensures
            (final(self).current(), final(self).storage()) == event_handled::<M>(
                old(self).current(),
                old(self).storage(),
                (),
            ),
    {
        self.handle(&());
    }
}

impl<M: StateMachine> core::ops::Deref for InitializedStatemachine<M> {
    type Target = M;

    fn deref(&self) -> (storage: &M)
        ensures
            *storage == self.storage(),
    {
        &self.shared_storage
    }
}

impl<M: StateMachine> core::ops::DerefMut for InitializedStatemachine<M> {
    fn deref_mut(&mut self) -> (storage: &mut M)
        ensures
            *storage == old(self).storage(),
            final(self).storage() == *final(storage),
            final(self).current() == old(self).current(),
    {
        &mut self.shared_storage
    }
}

} // verus!
