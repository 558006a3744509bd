//! How an event travels: from the handler of a state up through the
//! handlers of its superstates, until one of them takes it.

use crate::hierarchy::{lemma_state_path, lemma_superstate_path, state_path, superstate_path, Node};
use crate::response::Response;
use crate::state::State;
use crate::state_machine::{StateMachine, StateOrSuperstate, SuperstateOf};
use crate::superstate::Superstate;
use vstd::prelude::*;

verus! {

/// The storage and the response after one node saw `event`: the dispatch
/// hook runs for the node, then the handler of the node.
pub open spec fn node_dispatched<M: StateMachine>(
    node: Node<M::State, SuperstateOf<M>>,
    storage: M,
    event: M::Event,
) -> (M, Response<M::State>) {
    match node {
        Node::State(s) => s.handled(
            storage.dispatched(StateOrSuperstate::State(&s), event),
            event,
        ),
        Node::Superstate(p) => p.handled(
            storage.dispatched(StateOrSuperstate::Superstate(&p), event),
            event,
        ),
    }
}

/// The storage and the response after `event` went up `path`: it goes to the
/// first node, and for as long as the answer is `Super`, on to the next. At
/// the end of the path the event is dropped and the answer stays `Super`.
pub open spec fn bubbled<M: StateMachine>(
    path: Seq<Node<M::State, SuperstateOf<M>>>,
    storage: M,
    event: M::Event,
) -> (M, Response<M::State>)
    decreases path.len(),
{
    if path.len() == 0 {
        (storage, Response::Super)
    } else {
        let (after, response) = node_dispatched::<M>(path[0], storage, event);
        match response {
            Response::Super => bubbled::<M>(path.drop_first(), after, event),
            _ => (after, response),
        }
    }
}

/// Hands the event to the superstate `p` and, as long as the answer is
/// `Super`, to the superstates above it.
pub fn superstate_handle<M: StateMachine>(
    p: &SuperstateOf<M>,
    storage: &mut M,
    event: &M::Event,
) -> (response: Response<M::State>)
    ensures
        (*final(storage), response) == bubbled::<M>(superstate_path::<M>(*p), *old(storage), *event),
    decreases p.rank(),
{
    proof {
        p.lemma_parent_rank();
        lemma_superstate_path::<M>(*p);
        reveal_with_fuel(bubbled, 2);
    }
    storage.on_dispatch(StateOrSuperstate::Superstate(p), event);
    let response = p.call_handler(storage, event);
    match response {
        Response::Super => match p.superstate() {
            Some(q) => superstate_handle::<M>(&q, storage, event),
            None => Response::Super,
        },
        Response::Handled => Response::Handled,
        Response::Transition(target) => Response::Transition(target),
    }
}

/// Hands the event to the state `s` and, as long as the answer is `Super`,
/// to the superstates above it.
pub fn state_handle<M: StateMachine>(s: &M::State, storage: &mut M, event: &M::Event) -> (response:
    Response<M::State>)
    ensures
        (*final(storage), response) == bubbled::<M>(state_path::<M>(*s), *old(storage), *event),
{
    proof {
        lemma_state_path::<M>(*s);
        reveal_with_fuel(bubbled, 2);
    }
    storage.on_dispatch(StateOrSuperstate::State(s), event);
    let response = s.call_handler(storage, event);
    match response {
        Response::Super => match s.superstate() {
            Some(p) => superstate_handle::<M>(&p, storage, event),
            None => Response::Super,
        },
        Response::Handled => Response::Handled,
        Response::Transition(target) => Response::Transition(target),
    }
}

} // verus!
