//! A personal task tracker: tasks with a description and a small status
//! lifecycle, held in an ordered list with a monotone identifier allocator,
//! and persisted as a human-readable JSON document.

pub mod codec;
pub mod error;
pub mod roundtrip;
pub mod task;
pub mod task_list;
