//! A fixed-size pool of workers that take jobs from one shared queue, with
//! the small HTTP front end that feeds it.
//!
//! The pool is written as a state machine and verified with Verus:
//!
//! - [`model`] is the pool over mathematical values, with its transitions and
//!   its invariant; [`trace`] runs it over sequences of events.
//! - [`channel`], [`worker`] and [`pool`] are the executable pool, proved to
//!   follow the model step by step.
//! - [`safety`], [`laws`] and [`progress`] prove what holds of every pool:
//!   the invariant, the fate of every job, the shutdown handshake, and that
//!   the workers neither get stuck nor run on forever.
//! - [`http`], [`stream`] and [`text`] classify requests, frame responses and
//!   stand in for a connection.
//!
//! The pool takes no lock and starts no thread. Its caller keeps it behind
//! one lock, makes the calls from the pool's threads, and waits where a call
//! returns that a step cannot be taken yet.

pub mod channel;
pub mod http;
pub mod laws;
pub mod message;
pub mod model;
pub mod pool;
pub mod progress;
pub mod safety;
pub mod stream;
pub mod text;
pub mod trace;
pub mod worker;
