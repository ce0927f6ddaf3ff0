//! Orders, the queue that holds them and the strategies that rank them.

pub mod order;
pub mod queue;
pub mod scheduler;

pub use order::{Call, Command, Direction, Expiration, Order};
pub use queue::{OrderQueue, QueueError};
pub use scheduler::{FifoScheduler, Scheduler, SchedulerContext};
