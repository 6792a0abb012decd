//! Host-side logic for embedding a single-threaded script engine: the task
//! queue that serialises engine work, the session's operation table, the
//! class registry with its instance directory and listener tables, and the
//! runtime builder.
pub mod esruntimewrapperbuilder;
pub mod esruntimewrapperinner;
pub mod listeners;
pub mod name_map;
pub mod reflection;
pub mod registry;
pub mod session;
pub mod task_queue;
