//! The state core of a todo-list application: one store of tasks and
//! per-component view state, changed only by applying actions.

pub mod codec;
pub mod container;
pub mod dispatcher;
pub mod footer;
pub mod ident;
pub mod laws;
pub mod local_state;
pub mod render_laws;
pub mod state_tree;
pub mod store;
pub mod task;
pub mod text;
pub mod todolist;
