//! A fixed-size worker pool, modelled as a verified state machine.
//!
//! The pool owns a FIFO queue of jobs and a fixed set of workers. Each job is
//! delivered to exactly one worker, runs exactly once, and shutdown drains
//! the backlog before the last worker is joined. The surrounding program
//! performs the actual thread and socket work and drives this model with the
//! events it observes; the model decides what each event may do and accounts
//! for every job.

pub mod http;
pub mod pool;
