pub mod task;
pub mod thread_pool;
pub mod worker;

pub use task::{notifications, AfterPoll, PollOutcome, TaskEvent, TaskLife};
pub use thread_pool::{
    spawned, stop_result, stopped, wait_result, waited, PoolError, PoolHandle, Stopping,
};
pub use worker::{spilled, task_in, task_of, ExecutorMessage, Placement, Worker};
