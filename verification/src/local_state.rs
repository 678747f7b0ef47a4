//! The view state that the components keep, and the tagged form in which
//! the state tree stores it.
//!
//! Each component declares one plain record with a default. A record is
//! tagged when it is written ([`LocalState::encode`]) and recovered by tag
//! when it is read ([`LocalState::decode`]); a value written by another
//! component is never mistaken for one's own.

use vstd::prelude::*;

use crate::store::TodoFilter;

verus! {

/// State of the container: the filter in force and the text typed so far
/// into the "new todo" box.
#[derive(Debug, PartialEq, Eq)]
pub struct AppState {
    pub now_showing: TodoFilter,
    pub new_todo: String,
}

pub struct AppStateView {
    pub now_showing: TodoFilter,
    pub new_todo: Seq<char>,
}

impl View for AppState {
    type V = AppStateView;

    open spec fn view(&self) -> AppStateView {
        AppStateView { now_showing: self.now_showing, new_todo: self.new_todo@ }
    }
}

impl Clone for AppState {
    fn clone(&self) -> (r: Self)
        ensures
            r == *self,
    {
        AppState { now_showing: self.now_showing, new_todo: self.new_todo.clone() }
    }
}

impl Default for AppState {
    fn default() -> (r: Self)
        ensures
            r@ == <AppState as LocalState>::initial(),
    {
        AppState { now_showing: TodoFilter::All, new_todo: String::new() }
    }
}

/// State of the list: the id of the task being edited, if any.
#[derive(Debug, PartialEq, Eq)]
pub struct TodolistState {
    pub editing: Option<String>,
}

pub struct TodolistStateView {
    pub editing: Option<Seq<char>>,
}

impl View for TodolistState {
    type V = TodolistStateView;

    open spec fn view(&self) -> TodolistStateView {
        TodolistStateView {
            editing: match self.editing {
                Some(id) => Some(id@),
                None => None,
            },
        }
    }
}

impl Clone for TodolistState {
    fn clone(&self) -> (r: Self)
        ensures
            r == *self,
    {
        TodolistState {
            editing: match &self.editing {
                Some(id) => Some(id.clone()),
                None => None,
            },
        }
    }
}

impl Default for TodolistState {
    fn default() -> (r: Self)
        ensures
            r@ == <TodolistState as LocalState>::initial(),
    {
        TodolistState { editing: None }
    }
}

/// State of one task row: the text in its edit box.
#[derive(Debug, PartialEq, Eq)]
pub struct TaskState {
    pub edit_text: String,
}

pub struct TaskStateView {
    pub edit_text: Seq<char>,
}

impl View for TaskState {
    type V = TaskStateView;

    open spec fn view(&self) -> TaskStateView {
        TaskStateView { edit_text: self.edit_text@ }
    }
}

impl Clone for TaskState {
    fn clone(&self) -> (r: Self)
        ensures
            r == *self,
    {
        TaskState { edit_text: self.edit_text.clone() }
    }
}

impl Default for TaskState {
    fn default() -> (r: Self)
        ensures
            r@ == <TaskState as LocalState>::initial(),
    {
        TaskState { edit_text: String::new() }
    }
}

/// A component's state as the tree stores it: the record, under the tag of
/// the component that wrote it.
#[derive(Debug, PartialEq, Eq)]
pub enum StateValue {
    App(AppState),
    Todolist(TodolistState),
    Task(TaskState),
}

pub enum StateValueView {
    App(AppStateView),
    Todolist(TodolistStateView),
    Task(TaskStateView),
}

impl View for StateValue {
    type V = StateValueView;

    open spec fn view(&self) -> StateValueView {
        match self {
            StateValue::App(s) => StateValueView::App(s@),
            StateValue::Todolist(s) => StateValueView::Todolist(s@),
            StateValue::Task(s) => StateValueView::Task(s@),
        }
    }
}

impl Clone for StateValue {
    fn clone(&self) -> (r: Self)
        ensures
            r == *self,
    {
        match self {
            StateValue::App(s) => StateValue::App(s.clone()),
            StateValue::Todolist(s) => StateValue::Todolist(s.clone()),
            StateValue::Task(s) => StateValue::Task(s.clone()),
        }
    }
}

/// A record that a component keeps in the state tree.
pub trait LocalState: View + Sized {
    /// The value a component starts from, and falls back to.
    spec fn initial() -> Self::V;

    /// The record that a stored value holds, if it carries this record's tag.
    spec fn decoded(v: StateValueView) -> Option<Self::V>;

    /// The stored value that holds a record.
    spec fn encoded(s: Self::V) -> StateValueView;

    /// What is written is what is read back.
    proof fn encoding_is_faithful(s: Self::V)
        ensures
            Self::decoded(Self::encoded(s)) == Some(s),
    ;

    fn decode(v: &StateValue) -> (r: Option<Self>)
        ensures
            match r {
                Some(s) => Self::decoded(v@) == Some(s@),
                None => Self::decoded(v@) is None,
            },
    ;

    fn encode(self) -> (v: StateValue)
        ensures
            v@ == Self::encoded(self@),
    ;

    fn fallback() -> (r: Self)
        ensures
            r@ == Self::initial(),
    ;
}

impl LocalState for AppState {
    open spec fn initial() -> AppStateView {
        AppStateView { now_showing: TodoFilter::All, new_todo: Seq::empty() }
    }

    open spec fn decoded(v: StateValueView) -> Option<AppStateView> {
        match v {
            StateValueView::App(s) => Some(s),
            _ => None,
        }
    }

    open spec fn encoded(s: AppStateView) -> StateValueView {
        StateValueView::App(s)
    }

    proof fn encoding_is_faithful(s: AppStateView) {
    }

    fn decode(v: &StateValue) -> (r: Option<Self>) {
        match v {
            StateValue::App(s) => Some(s.clone()),
            _ => None,
        }
    }

    fn encode(self) -> (v: StateValue) {
        StateValue::App(self)
    }

    fn fallback() -> (r: Self) {
        AppState::default()
    }
}

impl LocalState for TodolistState {
    open spec fn initial() -> TodolistStateView {
        TodolistStateView { editing: None }
    }

    open spec fn decoded(v: StateValueView) -> Option<TodolistStateView> {
        match v {
            StateValueView::Todolist(s) => Some(s),
            _ => None,
        }
    }

    open spec fn encoded(s: TodolistStateView) -> StateValueView {
        StateValueView::Todolist(s)
    }

    proof fn encoding_is_faithful(s: TodolistStateView) {
    }

    fn decode(v: &StateValue) -> (r: Option<Self>) {
        match v {
            StateValue::Todolist(s) => Some(s.clone()),
            _ => None,
        }
    }

    fn encode(self) -> (v: StateValue) {
        StateValue::Todolist(self)
    }

    fn fallback() -> (r: Self) {
        TodolistState::default()
    }
}

impl LocalState for TaskState {
    open spec fn initial() -> TaskStateView {
        TaskStateView { edit_text: Seq::empty() }
    }

    open spec fn decoded(v: StateValueView) -> Option<TaskStateView> {
        match v {
            StateValueView::Task(s) => Some(s),
            _ => None,
        }
    }

    open spec fn encoded(s: TaskStateView) -> StateValueView {
        StateValueView::Task(s)
    }

    proof fn encoding_is_faithful(s: TaskStateView) {
    }

    fn decode(v: &StateValue) -> (r: Option<Self>) {
        match v {
            StateValue::Task(s) => Some(s.clone()),
            _ => None,
        }
    }

    fn encode(self) -> (v: StateValue) {
        StateValue::Task(self)
    }

    fn fallback() -> (r: Self) {
        TaskState::default()
    }
}

} // verus!
