//! What the node knows of its own elevator.

pub mod hardware;
