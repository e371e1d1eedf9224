//! Rewrites the texts of a loaded web page through a text completion service.
//!
//! The library holds the decisions of a run: which texts of a page are worth
//! rewriting, what is asked of the service for each, what an answer of the
//! service means, and how a batch of tasks is dispatched over a bounded pool of
//! completion calls and a page session that takes one command at a time. It
//! performs no call itself: its caller sends the requests and runs the scripts.

use vstd::prelude::*;

pub mod chat;
pub mod collect;
pub mod completion;
pub mod dispatch;
pub mod laws;
pub mod model;
pub mod outcome;
pub mod preservation;
pub mod request;
pub mod sink;

verus! {

/// The smallest text, in bytes, that is worth rewriting when the caller names no other bound.
pub const DEFAULT_MIN_LENGTH: usize = 20;

/// The width of the pool when the caller names no other.
pub const DEFAULT_CONCURRENCY: usize = 8;

} // verus!
