//! Entry and exit actions along a path, and what a run of them makes of the
//! shared storage.

use crate::hierarchy::{
    lemma_state_path, lemma_superstate_path, state_path, superstate_path, Node,
};
use crate::state::State;
use crate::state_machine::{StateMachine, SuperstateOf};
use crate::superstate::Superstate;
use vstd::prelude::*;

verus! {

/// One step of a transition or of the initialisation: the entry or the exit
/// action of one node.
pub enum Step<S, P> {
    /// The exit action of the node.
    Exit(Node<S, P>),
    /// The entry action of the node.
    Enter(Node<S, P>),
}

/// The storage after one step.
pub open spec fn applied<M: StateMachine>(
    step: Step<M::State, SuperstateOf<M>>,
    storage: M,
) -> M {
    match step {
        Step::Exit(Node::State(s)) => s.exited(storage),
        Step::Exit(Node::Superstate(p)) => p.exited(storage),
        Step::Enter(Node::State(s)) => s.entered(storage),
        Step::Enter(Node::Superstate(p)) => p.entered(storage),
    }
}

/// The storage after the steps, performed from first to last.
pub open spec fn performed<M: StateMachine>(
    steps: Seq<Step<M::State, SuperstateOf<M>>>,
    storage: M,
) -> M
    decreases steps.len(),
{
    if steps.len() == 0 {
        storage
    } else {
        performed::<M>(steps.drop_first(), applied::<M>(steps[0], storage))
    }
}

/// How many of `levels` levels a path has.
pub open spec fn levels_within<T>(path: Seq<T>, levels: nat) -> nat {
    if levels <= path.len() {
        levels
    } else {
        path.len()
    }
}

/// The exit actions of the first `levels` nodes of a path, innermost first.
pub open spec fn exits<S, P>(path: Seq<Node<S, P>>, levels: nat) -> Seq<Step<S, P>> {
    Seq::new(levels_within(path, levels), |i: int| Step::Exit(path[i]))
}

/// The entry actions of the first `levels` nodes of a path, outermost first.
pub open spec fn enters<S, P>(path: Seq<Node<S, P>>, levels: nat) -> Seq<Step<S, P>> {
    Seq::new(
        levels_within(path, levels),
        |i: int| Step::Enter(path[levels_within(path, levels) - 1 - i]),
    )
}

/// Performing two runs of steps one after the other is performing their
/// concatenation.
pub proof fn lemma_performed_concat<M: StateMachine>(
    first: Seq<Step<M::State, SuperstateOf<M>>>,
    second: Seq<Step<M::State, SuperstateOf<M>>>,
    storage: M,
)
    ensures
        performed::<M>(first + second, storage) == performed::<M>(
            second,
            performed::<M>(first, storage),
        ),
    decreases first.len(),
{
    if first.len() == 0 {
        assert(first + second =~= second);
    } else {
        assert((first + second).drop_first() =~= first.drop_first() + second);
        lemma_performed_concat::<M>(
            first.drop_first(),
            second,
            applied::<M>(first[0], storage),
        );
    }
}

/// Leaving a path is leaving its first node and then the rest of it.
pub proof fn lemma_performed_exits<M: StateMachine>(
    path: Seq<Node<M::State, SuperstateOf<M>>>,
    levels: nat,
    storage: M,
)
    ensures
        performed::<M>(exits(path, levels), storage) == if levels >= 1 && path.len() >= 1 {
            performed::<M>(
                exits(path.drop_first(), (levels - 1) as nat),
                applied::<M>(Step::Exit(path[0]), storage),
            )
        } else {
            storage
        },
{
    if levels >= 1 && path.len() >= 1 {
        let rest = exits(path.drop_first(), (levels - 1) as nat);
        assert(exits(path, levels) =~= seq![Step::Exit(path[0])] + rest);
        assert(exits(path, levels).drop_first() =~= rest);
    } else {
        assert(exits(path, levels).len() == 0);
    }
}

/// Entering a path is entering the rest of it and then its first node.
pub proof fn lemma_performed_enters<M: StateMachine>(
    path: Seq<Node<M::State, SuperstateOf<M>>>,
    levels: nat,
    storage: M,
)
    ensures
        performed::<M>(enters(path, levels), storage) == if levels >= 1 && path.len() >= 1 {
            applied::<M>(
                Step::Enter(path[0]),
                performed::<M>(enters(path.drop_first(), (levels - 1) as nat), storage),
            )
        } else {
            storage
        },
{
    if levels >= 1 && path.len() >= 1 {
        let rest = enters(path.drop_first(), (levels - 1) as nat);
        let last = seq![Step::Enter(path[0])];
        assert(enters(path, levels) =~= rest + last);
        lemma_performed_concat::<M>(rest, last, storage);
        let before = performed::<M>(rest, storage);
        assert(last.drop_first().len() == 0);
        assert(performed::<M>(last, before) == performed::<M>(
            last.drop_first(),
            applied::<M>(last[0], before),
        ));
    } else {
        assert(enters(path, levels).len() == 0);
    }
}

/// Runs the exit action of `p` and of the superstates above it, `levels`
/// nodes in all, innermost first.
pub fn superstate_exit<M: StateMachine>(p: &SuperstateOf<M>, storage: &mut M, levels: usize)
    ensures
        *final(storage) == performed::<M>(
            exits(superstate_path::<M>(*p), levels as nat),
            *old(storage),
        ),
    decreases levels,
{
    proof {
        let path = superstate_path::<M>(*p);
        lemma_superstate_path::<M>(*p);
        lemma_performed_exits::<M>(path, levels as nat, *old(storage));
        lemma_performed_exits::<M>(path.drop_first(), (levels - 1) as nat, p.exited(*old(storage)));
    }
    if levels == 0 {
        return ;
    }
    p.call_exit_action(storage);
    if levels > 1 {
        match p.superstate() {
            Some(q) => {
                superstate_exit::<M>(&q, storage, levels - 1);
            },
            None => {},
        }
    }
}

/// Runs the entry action of `p` and of the superstates above it, `levels`
/// nodes in all, outermost first.
pub fn superstate_enter<M: StateMachine>(p: &SuperstateOf<M>, storage: &mut M, levels: usize)
    ensures
        *final(storage) == performed::<M>(
            enters(superstate_path::<M>(*p), levels as nat),
            *old(storage),
        ),
    decreases levels,
{
    proof {
        let path = superstate_path::<M>(*p);
        lemma_superstate_path::<M>(*p);
        lemma_performed_enters::<M>(path, levels as nat, *old(storage));
        lemma_performed_enters::<M>(path.drop_first(), (levels - 1) as nat, *old(storage));
    }
    if levels == 0 {
        return ;
    }
    if levels > 1 {
        match p.superstate() {
            Some(q) => {
                superstate_enter::<M>(&q, storage, levels - 1);
            },
            None => {},
        }
    }
    p.call_entry_action(storage);
}

/// Runs the exit action of `s` and of the superstates above it, `levels`
/// nodes in all, innermost first.
pub fn state_exit<M: StateMachine>(s: &M::State, storage: &mut M, levels: usize)
    ensures
        *final(storage) == performed::<M>(exits(state_path::<M>(*s), levels as nat), *old(storage)),
{
    proof {
        let path = state_path::<M>(*s);
        lemma_state_path::<M>(*s);
        lemma_performed_exits::<M>(path, levels as nat, *old(storage));
        lemma_performed_exits::<M>(path.drop_first(), (levels - 1) as nat, s.exited(*old(storage)));
    }
    if levels == 0 {
        return ;
    }
    s.call_exit_action(storage);
    if levels > 1 {
        match s.superstate() {
            Some(p) => {
                superstate_exit::<M>(&p, storage, levels - 1);
            },
            None => {},
        }
    }
}

/// Runs the entry action of `s` and of the superstates above it, `levels`
/// nodes in all, outermost first.
pub fn state_enter<M: StateMachine>(s: &M::State, storage: &mut M, levels: usize)
    ensures
        *final(storage) == performed::<M>(
            enters(state_path::<M>(*s), levels as nat),
            *old(storage),
        ),
{
    proof {
        let path = state_path::<M>(*s);
        lemma_state_path::<M>(*s);
        lemma_performed_enters::<M>(path, levels as nat, *old(storage));
        lemma_performed_enters::<M>(path.drop_first(), (levels - 1) as nat, *old(storage));
    }
    if levels == 0 {
        return ;
    }
    if levels > 1 {
        match s.superstate() {
            Some(p) => {
                superstate_enter::<M>(&p, storage, levels - 1);
            },
            None => {},
        }
    }
    s.call_entry_action(storage);
}

} // verus!
