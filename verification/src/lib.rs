//! A fixed-size worker pool, written as a deterministic core.
//!
//! The pool owns a FIFO job queue and a table of workers. Every operation is
//! an ordinary function from the pool's state and one event to the next state
//! and a directive for the caller, so the rules of submission, dispatch and
//! teardown are proved for every interleaving of submitters and workers. The
//! threads that carry the workers, and the blocking between two events, belong
//! to the program that embeds the pool.

pub mod error;
pub mod queue;
pub mod worker;
pub mod model;
pub mod pool;
pub mod laws;
