//! The foundation of the engine, with machine-checked contracts.
//!
//! At its heart is generational resource storage: [`Handle`]s, a slot-based
//! store with slot reuse ([`SlotMap`], [`Pool`]), a chunked [`Arena`] and a
//! [`SparseSet`]. Each container has a mathematical model, every operation
//! says what it does to that model, and the laws that hold over whole
//! histories of operations are proved beside the models.
//!
//! Around it stand the engine's plain vocabulary: identifiers, the error
//! type, byte-buffer allocators, input bindings, and platform events and
//! configuration.

pub mod collections;
pub mod error;
pub mod handle;
pub mod id;
pub mod input;
pub mod memory;
pub mod platform;
pub mod traits;

pub use collections::arena::Arena;
pub use collections::pool::Pool;
pub use collections::slot_map::SlotMap;
pub use collections::sparse_set::SparseSet;
pub use error::Error;
pub use handle::Handle;
pub use id::{GenerationalId, Id};
pub use memory::linear::LinearAllocator;
pub use memory::pool::PoolAllocator;
pub use memory::stack::StackAllocator;
pub use traits::{Identifiable, Named};
