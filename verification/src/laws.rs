//! What holds of every machine: how an event travels, which actions a
//! transition and the initialisation perform, and what does not change while
//! events are only handled.

use crate::actions::{enters, exits, performed, Step};
use crate::dispatch::{bubbled, node_dispatched};
use crate::hierarchy::{
    ancestors, common_depth, lemma_state_path, lemma_superstate_chain,
    lemma_superstate_chain_distinct, lemma_superstate_path, state_depth_spec, state_path,
    superstate_depth_spec, superstate_path, Node,
};
use crate::response::Response;
use crate::state::State;
use crate::state_machine::{
    event_handled, init_steps, transition_steps, StateMachine, SuperstateOf,
};
use crate::suffix::{lemma_common_suffix_len, lemma_common_suffix_len_same};
use crate::superstate::Superstate;
use vstd::prelude::*;

verus! {

/// Depth counts nodes: a node that nothing encloses has depth 1, and any
/// other is one deeper than the superstate that encloses it. What no node of
/// a hierarchy is part of, the ground the outermost nodes stand on, has
/// depth 0.
pub proof fn lemma_depth_is_one_more_than_parent<M: StateMachine>(s: M::State, p: SuperstateOf<M>)
    ensures
        state_depth_spec::<M>(s) == match s.parent() {
            Some(above) => superstate_depth_spec::<M>(above) + 1,
            None => 1,
        },
        superstate_depth_spec::<M>(p) == match p.parent() {
            Some(above) => superstate_depth_spec::<M>(above) + 1,
            None => 1,
        },
{
    lemma_superstate_chain::<M>(p);
}

/// Bubbling, for a state: where the handler of the state `s` answers
/// `Super`, the next handler to see the event is that of the superstate of
/// `s`, and what follows is what follows from there. Where `s` has no
/// superstate, the event is dropped: the machine stays in `s`, and the
/// storage is as the handler of `s` left it.
pub proof fn lemma_state_defers_to_superstate<M: StateMachine>(
    s: M::State,
    storage: M,
    event: M::Event,
)
    requires
        node_dispatched::<M>(Node::State(s), storage, event).1 is Super,
    ensures
        ({
            let after = node_dispatched::<M>(Node::State(s), storage, event).0;
            match s.parent() {
                Some(p) => {
                    let next = node_dispatched::<M>(Node::Superstate(p), after, event);
                    &&& bubbled::<M>(state_path::<M>(s), storage, event) == bubbled::<M>(
                        superstate_path::<M>(p),
                        after,
                        event,
                    )
                    &&& bubbled::<M>(state_path::<M>(s), storage, event) == if next.1 is Super {
                        bubbled::<M>(superstate_path::<M>(p).drop_first(), next.0, event)
                    } else {
                        next
                    }
                },
                None => event_handled::<M>(s, storage, event) == (s, after),
            }
        }),
{
    reveal_with_fuel(bubbled, 2);
    lemma_state_path::<M>(s);
    match s.parent() {
        Some(p) => {
            lemma_superstate_path::<M>(p);
        },
        None => {},
    }
}

/// Bubbling, for a superstate: where the handler of the superstate `p`
/// answers `Super`, the next handler to see the event is that of the parent
/// of `p`, not that of the state the event came from. Where `p` has no
/// parent, the event is dropped and the answer stays `Super`.
pub proof fn lemma_superstate_defers_to_parent<M: StateMachine>(
    p: SuperstateOf<M>,
    storage: M,
    event: M::Event,
)
    requires
        node_dispatched::<M>(Node::Superstate(p), storage, event).1 is Super,
    ensures
        ({
            let after = node_dispatched::<M>(Node::Superstate(p), storage, event).0;
            match p.parent() {
                Some(q) => {
                    let next = node_dispatched::<M>(Node::Superstate(q), after, event);
                    &&& bubbled::<M>(superstate_path::<M>(p), storage, event) == bubbled::<M>(
                        superstate_path::<M>(q),
                        after,
                        event,
                    )
                    &&& bubbled::<M>(superstate_path::<M>(p), storage, event) == if next.1 is Super {
                        bubbled::<M>(superstate_path::<M>(q).drop_first(), next.0, event)
                    } else {
                        next
                    }
                },
                None => bubbled::<M>(superstate_path::<M>(p), storage, event) == (
                    after,
                    Response::<M::State>::Super,
                ),
            }
        }),
{
    reveal_with_fuel(bubbled, 2);
    lemma_superstate_path::<M>(p);
    match p.parent() {
        Some(q) => {
            lemma_superstate_path::<M>(q);
        },
        None => {},
    }
}

/// The event stops at the first handler that does not answer `Super`: no
/// handler further up the path sees it.
pub proof fn lemma_bubbling_stops<M: StateMachine>(
    path: Seq<Node<M::State, SuperstateOf<M>>>,
    storage: M,
    event: M::Event,
)
    requires
        path.len() > 0,
        !(node_dispatched::<M>(path[0], storage, event).1 is Super),
    ensures
        bubbled::<M>(path, storage, event) == node_dispatched::<M>(path[0], storage, event),
{
}

/// Minimality of a transition. Let `d` be the number of superstates that
/// enclose both `source` and `target`. Those are the last `d` nodes of both
/// paths, and no action of theirs is performed. The transition performs the
/// exit actions of the nodes of the path of `source` below them, innermost
/// first, then the entry actions of the nodes of the path of `target` below
/// them, outermost first, and nothing else. `d` cannot be larger: where both
/// states have a superstate below the common ones, the two differ.
pub proof fn lemma_transition_minimal<M: StateMachine>(source: M::State, target: M::State)
    ensures
        ({
            let left = state_path::<M>(source);
            let reached = state_path::<M>(target);
            let d = common_depth::<M>(source, target);
            &&& d < left.len()
            &&& d < reached.len()
            &&& left.skip(left.len() - d) == reached.skip(reached.len() - d)
            &&& d + 1 < left.len() && d + 1 < reached.len() ==> left[left.len() - 1 - d]
                != reached[reached.len() - 1 - d]
            &&& transition_steps::<M>(source, target) == left.take(left.len() - d).map_values(
                |n: Node<M::State, SuperstateOf<M>>| Step::Exit(n),
            ) + reached.take(reached.len() - d).reverse().map_values(
                |n: Node<M::State, SuperstateOf<M>>| Step::Enter(n),
            )
        }),
{
    let left = state_path::<M>(source);
    let reached = state_path::<M>(target);
    let above_source = ancestors::<M>(source);
    let above_target = ancestors::<M>(target);
    let d = common_depth::<M>(source, target);
    lemma_common_suffix_len(above_source, above_target);
    lemma_state_path::<M>(source);
    lemma_state_path::<M>(target);
    assert(left.skip(left.len() - d) =~= above_source.skip(above_source.len() - d).map_values(
        |q: SuperstateOf<M>| Node::Superstate(q),
    ));
    assert(reached.skip(reached.len() - d) =~= above_target.skip(
        above_target.len() - d,
    ).map_values(|q: SuperstateOf<M>| Node::Superstate(q)));
    if d + 1 < left.len() && d + 1 < reached.len() {
        assert(left[left.len() - 1 - d] == Node::<M::State, SuperstateOf<M>>::Superstate(
            above_source[above_source.len() - 1 - d],
        ));
        assert(reached[reached.len() - 1 - d] == Node::<M::State, SuperstateOf<M>>::Superstate(
            above_target[above_target.len() - 1 - d],
        ));
    }
    let n = (left.len() - d) as nat;
    let m = (reached.len() - d) as nat;
    assert(exits(left, n) =~= left.take(n as int).map_values(
        |n: Node<M::State, SuperstateOf<M>>| Step::Exit(n),
    ));
    assert(enters(reached, m) =~= reached.take(m as int).reverse().map_values(
        |n: Node<M::State, SuperstateOf<M>>| Step::Enter(n),
    ));
}

/// Re-entry: a transition from a state to itself performs the exit action
/// of the state and then its entry action, and no other action.
pub proof fn lemma_self_transition_reenters<M: StateMachine>(s: M::State)
    ensures
        transition_steps::<M>(s, s) == seq![
            Step::<M::State, SuperstateOf<M>>::Exit(Node::State(s)),
            Step::<M::State, SuperstateOf<M>>::Enter(Node::State(s)),
        ],
{
    lemma_common_suffix_len_same(ancestors::<M>(s));
    lemma_state_path::<M>(s);
    let path = state_path::<M>(s);
    assert(exits(path, 1) =~= seq![Step::Exit(path[0])]);
    assert(enters(path, 1) =~= seq![Step::Enter(path[0])]);
    assert(transition_steps::<M>(s, s) =~= seq![
        Step::<M::State, SuperstateOf<M>>::Exit(Node::State(s)),
        Step::<M::State, SuperstateOf<M>>::Enter(Node::State(s)),
    ]);
}

/// Completeness of the initialisation: the actions that lead into the
/// initial state are the entry actions of all the nodes of its path, the
/// outermost superstate first and the state itself last. No node occurs
/// twice on the path, so each is entered once.
pub proof fn lemma_init_enters_whole_path<M: StateMachine>(initial: M::State)
    ensures
        init_steps::<M>(initial) == state_path::<M>(initial).reverse().map_values(
            |n: Node<M::State, SuperstateOf<M>>| Step::Enter(n),
        ),
        state_path::<M>(initial).no_duplicates(),
{
    let path = state_path::<M>(initial);
    lemma_state_path::<M>(initial);
    assert(path.take(path.len() as int) =~= path);
    assert(init_steps::<M>(initial) =~= path.reverse().map_values(
        |n: Node<M::State, SuperstateOf<M>>| Step::Enter(n),
    ));
    let above = ancestors::<M>(initial);
    match initial.parent() {
        Some(p) => {
            lemma_superstate_chain_distinct::<M>(p);
        },
        None => {},
    }
    assert forall|i: int, j: int| 0 <= i < path.len() && 0 <= j < path.len() && i != j implies path[i]
        != path[j] by {
        if i > 0 && j > 0 {
            assert(path[i] == Node::<M::State, SuperstateOf<M>>::Superstate(above[i - 1]));
            assert(path[j] == Node::<M::State, SuperstateOf<M>>::Superstate(above[j - 1]));
        }
    }
}

/// Whether each of the events, handled one after the other from `state`, is
/// answered with `Handled`.
pub open spec fn all_handled<M: StateMachine>(
    state: M::State,
    storage: M,
    events: Seq<M::Event>,
) -> bool
    decreases events.len(),
{
    events.len() == 0 || {
        let (after, response) = bubbled::<M>(state_path::<M>(state), storage, events[0]);
        response is Handled && all_handled::<M>(state, after, events.drop_first())
    }
}

/// The storage after each of the events went up the path of `state`, with no
/// entry or exit action in between.
pub open spec fn all_bubbled<M: StateMachine>(
    state: M::State,
    storage: M,
    events: Seq<M::Event>,
) -> M
    decreases events.len(),
{
    if events.len() == 0 {
        storage
    } else {
        all_bubbled::<M>(
            state,
            bubbled::<M>(state_path::<M>(state), storage, events[0]).0,
            events.drop_first(),
        )
    }
}

/// The state and the storage of a machine after it handled the events one
/// after the other.
pub open spec fn events_handled<M: StateMachine>(
    state: M::State,
    storage: M,
    events: Seq<M::Event>,
) -> (M::State, M)
    decreases events.len(),
{
    if events.len() == 0 {
        (state, storage)
    } else {
        let (next, after) = event_handled::<M>(state, storage, events[0]);
        events_handled::<M>(next, after, events.drop_first())
    }
}

/// An event that is answered with `Handled` or with `Super` moves nothing:
/// the machine stays in its state, and no entry or exit action touches the
/// storage.
pub proof fn lemma_no_transition_keeps_state<M: StateMachine>(
    state: M::State,
    storage: M,
    event: M::Event,
)
    requires
        !(bubbled::<M>(state_path::<M>(state), storage, event).1 is Transition),
    ensures
        event_handled::<M>(state, storage, event) == (
            state,
            bubbled::<M>(state_path::<M>(state), storage, event).0,
        ),
{
}

/// However many events are handled, as long as each is answered with
/// `Handled` the machine stays in its state, and the storage is what the
/// handlers and the dispatch hook made of it: no entry or exit action was
/// performed.
pub proof fn lemma_handled_events_keep_state<M: StateMachine>(
    state: M::State,
    storage: M,
    events: Seq<M::Event>,
)
    requires
        all_handled::<M>(state, storage, events),
    ensures
        events_handled::<M>(state, storage, events) == (
            state,
            all_bubbled::<M>(state, storage, events),
        ),
    decreases events.len(),
{
    if events.len() > 0 {
        let after = bubbled::<M>(state_path::<M>(state), storage, events[0]).0;
        lemma_handled_events_keep_state::<M>(state, after, events.drop_first());
    }
}

} // verus!
