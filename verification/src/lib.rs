//! An in-memory registry of to-do tasks.
//!
//! A [`TODO`] holds the live tasks in a concurrent hash map, each under an
//! identifier that is drawn at random when the task is added. Four operations
//! work on it: add a task, list all tasks, delete one by its identifier, and
//! delete all. None of them can fail.
//!
//! The value of a registry is a map from identifier to label, and every
//! operation states its effect on that map:
//!
//! - [`task`]: the task record and its value;
//! - [`ident`]: the shape of an identifier, and the call that draws one;
//! - [`shared_map`]: the hash map and the contracts assumed of it;
//! - [`store`]: the registry and its operations;
//! - [`listing`]: what a listing of the registry is, with the theorems that
//!   relate the operations to one another.

pub mod ident;
pub mod listing;
pub mod shared_map;
pub mod store;
pub mod task;

pub use store::TODO;
pub use task::{Task, TaskView};
