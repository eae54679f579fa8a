//! A media-pipeline runtime core: a bounded single-producer/single-consumer
//! channel, the cancellation context, the stage contract, and the stage
//! combinators, sequential and concurrent, each with its contract.
//!
//! Everything here is sequential and waits for nothing. Where work goes on
//! in the background, a function of this crate is one step of it, and the
//! caller decides when the step is taken.

pub mod and_then;
pub mod chain;
pub mod concurrent_each;
pub mod context;
pub mod either;
pub mod except;
pub mod filter;
pub mod framing;
pub mod inspect;
pub mod map;
pub mod maybe;
pub mod optional;
pub mod pass;
pub mod pipe;
pub mod scope;
pub mod service;
pub mod spawn;
pub mod spawn_each;
pub mod spsc;
pub mod stub;
pub mod switch;
pub mod trace;
pub mod void;
