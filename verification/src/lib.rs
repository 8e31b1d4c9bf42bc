//! A persistent to-do list: tasks with ids, completion state and timestamps,
//! kept in insertion order.

pub mod clock;
pub mod command;
pub mod dispatch;
pub mod error;
pub mod laws;
pub mod store;
pub mod task;
pub mod text;

pub use command::{parse_command, Action, Command};
pub use dispatch::Outcome;
pub use error::{ArgumentIssue, TodoError};
pub use store::{TodoList, TodoListView};
pub use task::{Task, TaskView};
