//! A small task tracker: a store of tasks with creation, lookup, update,
//! completion, deletion, filtered listing and restoration from saved parts.

pub mod due;
pub mod error;
pub mod laws;
pub mod menu;
pub mod store;
pub mod task;
