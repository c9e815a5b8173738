//! A single-user task list: tasks with an id, a description and a completion
//! flag, kept in insertion order by a repository that hands out ids from a
//! counter that never goes back.
pub mod task;
pub mod repository;
pub mod storage;
pub mod laws;
pub mod shell;

pub use task::{Task, TaskView};
pub use repository::{RepositoryView, TaskRepository};
pub use shell::{AppView, ToDoApp, UiAction, UiEvent};
pub use storage::{ron_text, ron_value};
