pub mod context;
pub mod reactor;

pub use context::{from_pool, handed_on, Context, ContextError};
pub use reactor::{
    next_key, slab_slots, slab_vacant, vacant_after, IoWaker, Reactor, Slot, DEFAULT_SLAB_SIZE,
};
