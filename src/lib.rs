//! A small task tracker: tasks with a status and timestamps, a per-task
//! edit/view state machine, a collection controller and a filter.

pub mod text;
pub mod ambient;
pub mod task;
pub mod task_tracker;
