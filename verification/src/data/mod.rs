mod atomic_take;
mod global_injector;
mod local_queue;

pub use atomic_take::AtomicTake;
pub use global_injector::{global_injector, InjectorError, InjectorReceiver, InjectorSender};
pub use local_queue::{LocalQueue, QueueError, DEFAULT_SIZE};
