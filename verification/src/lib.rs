//! A multi-producer/multi-consumer FIFO queue built from linked cells, with
//! every shared access written as one indivisible step so that the protocol
//! can be proved correct for all interleavings of its users.
//!
//! An insertion or a removal is a small state machine. Each of its steps
//! makes one access to the shared words of the queue: a read, a
//! compare-and-swap, or a bump of the counter. Whoever takes a step has the
//! queue to itself for that step and no longer. A host that shares the queue
//! among threads supplies exactly that, and is free to order the steps of
//! different operations in any way; what is proved here holds for every such
//! order.
//!
//! - `node`: the cell.
//! - `backoff`: the pause between two attempts.
//! - `queue`: the shared state, its invariant and its indivisible accesses;
//!   `push` and `pop` for a caller that has the queue to itself.
//! - `push_op`, `pop_op`: the two operations, step by step.
//! - `interleaving`: a queue with the operations in progress on it, and what
//!   holds of them after any sequence of steps.

pub mod backoff;
pub mod interleaving;
pub mod node;
pub mod pop_op;
pub mod push_op;
pub mod queue;

pub use backoff::Backoff;
pub use interleaving::{Interleaving, Turn};
pub use node::Node;
pub use pop_op::{PopOp, PopPhase};
pub use push_op::{PushOp, PushPhase};
pub use queue::{Link, LockFreeQueue};
