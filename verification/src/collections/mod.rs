//! Containers: a generational store, a chunked arena and a sparse set, each
//! with its mathematical model and the laws that hold of it.

pub mod arena;
pub mod arena_laws;
pub mod arena_model;
pub mod pool;
pub mod slot_map;
pub mod sparse_laws;
pub mod sparse_model;
pub mod sparse_set;
pub mod store_laws;
pub mod store_model;
