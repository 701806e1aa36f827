//! Persistence and dispatch core of an event-sourcing runtime.
//!
//! The crate stores the immutable history of domain changes ("events") per
//! aggregate, enforces optimistic concurrency on writes, reconstructs
//! aggregate state by replay (optionally accelerated by snapshots), and
//! routes committed events to interested subscribers.

use vstd::prelude::*;

pub mod uuid;
pub mod event;
pub mod matcher;
pub mod eventstore;
pub mod snapshot;
pub mod aggregate;
pub mod aggregatestore;
pub mod eventhandler;
pub mod eventbus;
pub mod outbox;
pub mod entity;
pub mod eventsource;
pub mod command_main;
pub mod command_check;
pub mod context;
pub mod commandhandler;
pub mod compare;
pub mod repo;
pub mod middleware;
pub mod eventmaintenance;
pub mod codec_main;

verus! {

/// Adds two lengths, used by callers that combine event counts.
pub fn add(left: usize, right: usize) -> (sum: usize)
    requires
        left + right <= usize::MAX,
    ensures
        sum == left + right,
{
    left + right
}

} // verus!
