//! A worker pool and line-protocol dispatcher for long-lived text-processing
//! engine processes.
//!
//! The pool owns a fixed number of worker slots, hands workers out one
//! exclusive checkout at a time, queues waiters in arrival order, and
//! replaces workers whose process has died.  The codec frames requests and
//! responses over a byte stream and parses word-oriented response blocks
//! into suggestion records.  The dispatcher ties one request's life cycle to
//! a state machine that releases its worker on every exit path, and the
//! supervisor bounds the retries when replacement spawns fail.

pub mod bundle;
pub mod codec;
pub mod dispatch;
pub mod pool;
pub mod supervisor;
