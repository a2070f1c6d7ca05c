//! Byte-buffer allocators: linear, fixed-block and scoped.

pub mod linear;
pub mod pool;
pub mod stack;
