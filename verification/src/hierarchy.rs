//! The shape of a hierarchy: the chain of superstates above a node, the
//! depth of a node, and how far two states have to be left and entered to
//! get from one to the other. All of it is worked out from the link of each
//! node to its parent.

use crate::state::State;
use crate::state_machine::{StateMachine, SuperstateOf};
use crate::suffix::{
    common_suffix_len, lemma_common_suffix_len, lemma_common_suffix_len_same,
    lemma_common_suffix_len_skip_both, lemma_common_suffix_len_skip_longer,
};
use crate::superstate::{Superstate, MAX_SUPERSTATE_DEPTH};
use vstd::prelude::*;

verus! {

/// A node of the hierarchy, held by value.
pub enum Node<S, P> {
    /// A leaf.
    State(S),
    /// A node that groups others.
    Superstate(P),
}

/// A superstate followed by the superstates that enclose it, innermost first.
pub open spec fn superstate_chain<M: StateMachine>(p: SuperstateOf<M>) -> Seq<SuperstateOf<M>>
    decreases p.rank(),
{
    match p.parent() {
        Some(q) => {
            proof {
                p.lemma_parent_rank();
            }
            seq![p] + superstate_chain::<M>(q)
        },
        None => seq![p],
    }
}

/// The superstates that enclose a state, innermost first.
pub open spec fn ancestors<M: StateMachine>(s: M::State) -> Seq<SuperstateOf<M>> {
    match s.parent() {
        Some(p) => superstate_chain::<M>(p),
        None => Seq::empty(),
    }
}

/// A superstate and what encloses it, innermost first, as nodes.
pub open spec fn superstate_path<M: StateMachine>(p: SuperstateOf<M>) -> Seq<
    Node<M::State, SuperstateOf<M>>,
> {
    superstate_chain::<M>(p).map_values(|q: SuperstateOf<M>| Node::Superstate(q))
}

/// A state and what encloses it, innermost first, as nodes.
pub open spec fn state_path<M: StateMachine>(s: M::State) -> Seq<Node<M::State, SuperstateOf<M>>> {
    seq![Node::State(s)] + ancestors::<M>(s).map_values(|q: SuperstateOf<M>| Node::Superstate(q))
}

/// The depth of a superstate: 1 for one without a parent, and one more than
/// its parent's otherwise.
pub open spec fn superstate_depth_spec<M: StateMachine>(p: SuperstateOf<M>) -> nat {
    superstate_chain::<M>(p).len()
}

/// The depth of a state: 1 for one without a superstate, and one more than
/// its superstate's otherwise.
pub open spec fn state_depth_spec<M: StateMachine>(s: M::State) -> nat {
    ancestors::<M>(s).len() + 1
}

/// The depth of the lowest superstate that encloses both states; 0 where
/// they have none in common.
pub open spec fn common_depth<M: StateMachine>(source: M::State, target: M::State) -> nat {
    common_suffix_len(ancestors::<M>(source), ancestors::<M>(target))
}

/// How many levels a transition from `source` to `target` leaves, the source
/// itself included.
pub open spec fn exit_levels<M: StateMachine>(source: M::State, target: M::State) -> nat {
    (state_depth_spec::<M>(source) - common_depth::<M>(source, target)) as nat
}

/// How many levels a transition from `source` to `target` enters, the target
/// itself included.
pub open spec fn enter_levels<M: StateMachine>(source: M::State, target: M::State) -> nat {
    (state_depth_spec::<M>(target) - common_depth::<M>(source, target)) as nat
}

/// A chain is never empty, it is no longer than the rank allows, and it is
/// its first node followed by the chain of that node's parent.
pub proof fn lemma_superstate_chain<M: StateMachine>(p: SuperstateOf<M>)
    ensures
        superstate_chain::<M>(p).len() >= 1,
        superstate_chain::<M>(p).len() <= p.rank() + 1,
        superstate_chain::<M>(p)[0] == p,
        match p.parent() {
            Some(q) => superstate_chain::<M>(p).drop_first() == superstate_chain::<M>(q),
            None => superstate_chain::<M>(p).len() == 1,
        },
    decreases p.rank(),
{
    p.lemma_parent_rank();
    match p.parent() {
        Some(q) => {
            lemma_superstate_chain::<M>(q);
            assert(superstate_chain::<M>(p).drop_first() =~= superstate_chain::<M>(q));
        },
        None => {},
    }
}

/// No node occurs twice in a chain: the ranks get smaller along it.
pub proof fn lemma_superstate_chain_distinct<M: StateMachine>(p: SuperstateOf<M>)
    ensures
        forall|i: int, j: int|
            0 <= i < j < superstate_chain::<M>(p).len() ==> (#[trigger] superstate_chain::<M>(
                p,
            )[j]).rank() < (#[trigger] superstate_chain::<M>(p)[i]).rank(),
        superstate_chain::<M>(p).no_duplicates(),
    decreases p.rank(),
{
    p.lemma_parent_rank();
    lemma_superstate_chain::<M>(p);
    let c = superstate_chain::<M>(p);
    match p.parent() {
        Some(q) => {
            lemma_superstate_chain_distinct::<M>(q);
            lemma_superstate_chain::<M>(q);
            let d = superstate_chain::<M>(q);
            assert forall|i: int, j: int| 0 <= i < j < c.len() implies (#[trigger] c[j]).rank() < (
            #[trigger] c[i]).rank() by {
                assert(c[j] == c.drop_first()[j - 1]);
                if i > 0 {
                    assert(c[i] == c.drop_first()[i - 1]);
                } else if j > 1 {
                    assert(d[j - 1].rank() < d[0].rank());
                }
            }
        },
        None => {},
    }
}

/// The path of a superstate is the superstate followed by the path of its
/// parent.
pub proof fn lemma_superstate_path<M: StateMachine>(p: SuperstateOf<M>)
    ensures
        superstate_path::<M>(p).len() == superstate_depth_spec::<M>(p),
        superstate_path::<M>(p).len() >= 1,
        superstate_path::<M>(p)[0] == Node::<M::State, SuperstateOf<M>>::Superstate(p),
        match p.parent() {
            Some(q) => superstate_path::<M>(p).drop_first() == superstate_path::<M>(q),
            None => superstate_path::<M>(p).len() == 1,
        },
{
    lemma_superstate_chain::<M>(p);
    match p.parent() {
        Some(q) => {
            assert(superstate_path::<M>(p).drop_first() =~= superstate_path::<M>(q)) by {
                let c = superstate_chain::<M>(p);
                let d = superstate_chain::<M>(q);
                assert(c.drop_first() == d);
                assert forall|i: int| 0 <= i < d.len() implies superstate_path::<M>(p).drop_first()[i]
                    == superstate_path::<M>(q)[i] by {
                    assert(c.drop_first()[i] == c[i + 1]);
                }
            }
        },
        None => {},
    }
}

/// The path of a state is the state followed by the path of its superstate.
pub proof fn lemma_state_path<M: StateMachine>(s: M::State)
    ensures
        state_path::<M>(s).len() == state_depth_spec::<M>(s),
        state_path::<M>(s)[0] == Node::<M::State, SuperstateOf<M>>::State(s),
        match s.parent() {
            Some(p) => state_path::<M>(s).drop_first() == superstate_path::<M>(p),
            None => state_path::<M>(s).len() == 1,
        },
{
    match s.parent() {
        Some(p) => {
            assert(state_path::<M>(s).drop_first() =~= superstate_path::<M>(p));
        },
        None => {},
    }
}

/// The depth of a superstate.
pub fn superstate_depth<M: StateMachine>(p: &SuperstateOf<M>) -> (depth: usize)
    ensures
        depth == superstate_depth_spec::<M>(*p),
        1 <= depth <= MAX_SUPERSTATE_DEPTH,
    decreases p.rank(),
{
    proof {
        p.lemma_parent_rank();
        lemma_superstate_chain::<M>(*p);
    }
    match p.superstate() {
        Some(q) => {
            proof {
                lemma_superstate_chain::<M>(q);
            }
            superstate_depth::<M>(&q) + 1
        },
        None => 1,
    }
}

/// The depth of a state.
pub fn state_depth<M: StateMachine>(s: &M::State) -> (depth: usize)
    ensures
        depth == state_depth_spec::<M>(*s),
        1 <= depth <= MAX_SUPERSTATE_DEPTH + 1,
{
    match s.superstate() {
        Some(p) => {
            proof {
                lemma_superstate_chain::<M>(p);
            }
            superstate_depth::<M>(&p) + 1
        },
        None => 1,
    }
}

/// The depth of the lowest node that is `source` or encloses it and is
/// `target` or encloses it; 0 where there is none.
///
/// The deeper of the two chains is followed upwards until both are at one
/// depth, then both are followed together until they meet.
pub fn common_ancestor_depth<M: StateMachine>(
    source: SuperstateOf<M>,
    target: SuperstateOf<M>,
) -> (depth: usize)
    ensures
        depth == common_suffix_len(superstate_chain::<M>(source), superstate_chain::<M>(target)),
{
    let ghost common = common_suffix_len(
        superstate_chain::<M>(source),
        superstate_chain::<M>(target),
    );
    let mut source_depth = superstate_depth::<M>(&source);
    let mut target_depth = superstate_depth::<M>(&target);
    let mut a = source;
    let mut b = target;
    while source_depth > target_depth
        invariant
            source_depth == superstate_chain::<M>(a).len(),
            target_depth == superstate_chain::<M>(b).len(),
            common_suffix_len(superstate_chain::<M>(a), superstate_chain::<M>(b)) == common,
            common == common_suffix_len(
                superstate_chain::<M>(source),
                superstate_chain::<M>(target),
            ),
        decreases source_depth,
    {
        proof {
            lemma_superstate_chain::<M>(a);
            lemma_superstate_chain::<M>(b);
            lemma_common_suffix_len_skip_longer(superstate_chain::<M>(a), superstate_chain::<M>(b));
        }
        match a.superstate() {
            Some(q) => {
                a = q;
                source_depth = source_depth - 1;
            },
            None => {
                return 0;
            },
        }
    }
    while target_depth > source_depth
        invariant
            source_depth <= target_depth,
            source_depth == superstate_chain::<M>(a).len(),
            target_depth == superstate_chain::<M>(b).len(),
            common_suffix_len(superstate_chain::<M>(a), superstate_chain::<M>(b)) == common,
            common == common_suffix_len(
                superstate_chain::<M>(source),
                superstate_chain::<M>(target),
            ),
        decreases target_depth,
    {
        proof {
            lemma_superstate_chain::<M>(a);
            lemma_superstate_chain::<M>(b);
            lemma_common_suffix_len_skip_longer(superstate_chain::<M>(b), superstate_chain::<M>(a));
        }
        match b.superstate() {
            Some(q) => {
                b = q;
                target_depth = target_depth - 1;
            },
            None => {
                return 0;
            },
        }
    }
    loop
        invariant
            source_depth == target_depth,
            source_depth == superstate_chain::<M>(a).len(),
            target_depth == superstate_chain::<M>(b).len(),
            common_suffix_len(superstate_chain::<M>(a), superstate_chain::<M>(b)) == common,
            common == common_suffix_len(
                superstate_chain::<M>(source),
                superstate_chain::<M>(target),
            ),
        decreases source_depth,
    {
        proof {
            lemma_superstate_chain::<M>(a);
            lemma_superstate_chain::<M>(b);
        }
        if a.same_state(&b) {
            proof {
                lemma_common_suffix_len_same(superstate_chain::<M>(a));
            }
            return source_depth;
        }
        proof {
            lemma_common_suffix_len_skip_both(superstate_chain::<M>(a), superstate_chain::<M>(b));
        }
        match (a.superstate(), b.superstate()) {
            (Some(p), Some(q)) => {
                a = p;
                b = q;
                source_depth = source_depth - 1;
                target_depth = target_depth - 1;
            },
            _ => {
                return 0;
            },
        }
    }
}

/// The levels to leave and the levels to enter on the way from `source` to
/// `target`. Both count the state itself, so neither is ever 0.
pub fn transition_path<M: StateMachine>(source: &M::State, target: &M::State) -> (levels: (
    usize,
    usize,
))
    ensures
        levels.0 == exit_levels::<M>(*source, *target),
        levels.1 == enter_levels::<M>(*source, *target),
        levels.0 >= 1,
        levels.1 >= 1,
{
    let source_depth = state_depth::<M>(source);
    let target_depth = state_depth::<M>(target);
    proof {
        lemma_common_suffix_len(ancestors::<M>(*source), ancestors::<M>(*target));
    }
    match (source.superstate(), target.superstate()) {
        (Some(a), Some(b)) => {
            let common = common_ancestor_depth::<M>(a, b);
            (source_depth - common, target_depth - common)
        },
        _ => (source_depth, target_depth),
    }
}

} // verus!
