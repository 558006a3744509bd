//! Hierarchical state machines.
//!
//! A machine is a tree of states. Leaf states are the values the engine can
//! be in; superstates group states and hold the behaviour they share. An
//! event goes to the handler of the current state and bubbles up through its
//! superstates until a handler consumes it or asks for a transition. A
//! transition leaves the states below the common ancestor of source and
//! target, innermost first, and enters the target's side, outermost first.
//!
//! Every component a user supplies (handlers, entry and exit actions, hooks)
//! comes with a specification function that says what it does to the shared
//! storage. The contracts of the engine are stated over those functions, and
//! `laws` holds what follows from them for every machine.
//!
//! `syntax` and `analyze` serve the attribute that generates the states and
//! superstates of a machine from an annotated `impl` block: they find out
//! which methods are states, superstates and actions, and what each is given.

pub mod actions;
pub mod analyze;
pub mod dispatch;
pub mod hierarchy;
pub mod laws;
pub mod response;
pub mod state;
pub mod state_machine;
pub mod suffix;
pub mod superstate;
pub mod syntax;
