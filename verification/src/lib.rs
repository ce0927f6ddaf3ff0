//! Order coordination for a group of elevator nodes that share no coordinator:
//! hybrid logical timestamps, hall and cabin orders with expiry and claims,
//! the per-node order queue, and the dispatch strategy that ranks it.

pub mod clock;
pub mod config;
pub mod elevator;
pub mod queue;
pub mod timestamp;
