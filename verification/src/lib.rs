//! A first-in-first-out queue over a growable array, and a last-in-first-out
//! stack composed of two such queues.
//!
//! Every operation carries a contract over a mathematical sequence: the queue
//! is viewed front to back, the stack bottom to top. The module `history`
//! states what follows from those contracts for whole runs of stack
//! operations.

pub mod history;
pub mod queue;
pub mod stack;

pub use crate::queue::Queue;
pub use crate::stack::MyStack;
