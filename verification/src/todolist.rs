//! The list: one row for each task it is given, each under the task's id.
//!
//! A row's place in the state tree, and with it everything the row
//! remembers, hangs on the row's key. The key is the task's id and never
//! the task's position, so a row keeps its state when the tasks around it
//! come and go.

use vstd::prelude::*;

use crate::dispatcher::actions_view;
use crate::local_state::{LocalState, StateValueView, TaskState, TodolistState, TodolistStateView};
use crate::state_tree::{copy_path, node_at, read_as, PathView, StateCursor};
use crate::store::{clear_at, tasks_view, write_at, ActionOp, ActionView, Task, TaskView};
use crate::task::{comp_task, EditingState, TaskRow, TaskRowView};

verus! {

/// How a row tells the list that its editing begins. Holds the list's
/// place in the state tree.
#[derive(Debug, Clone, PartialEq, Eq)]
pub struct OnEdit {
    pub cursor: Vec<String>,
}

impl View for OnEdit {
    type V = PathView;

    open spec fn view(&self) -> PathView {
        self.cursor.deep_view()
    }
}

impl OnEdit {
    /// What is asked for: the list's state becomes "editing `todo_id`".
    pub open spec fn actions(cursor: PathView, todo_id: Seq<char>) -> Seq<ActionView> {
        seq![
            write_at(
                cursor,
                <TodolistState as LocalState>::encoded(
                    TodolistStateView { editing: Some(todo_id) },
                ),
            ),
        ]
    }

    pub fn call(&self, todo_id: String) -> (r: Vec<ActionOp>)
        ensures
            actions_view(r@) == Self::actions(self@, todo_id@),
    {
        let mut r: Vec<ActionOp> = Vec::new();
        let state = TodolistState { editing: Some(todo_id) };
        r.push(ActionOp::build_states_action(&self.cursor, Some(state.encode())));
        assert(actions_view(r@) =~= Self::actions(self@, todo_id@));
        r
    }
}

/// How a row tells the list that editing is over. Holds the list's place
/// in the state tree.
#[derive(Debug, Clone, PartialEq, Eq)]
pub struct OnCancel {
    pub cursor: Vec<String>,
}

impl View for OnCancel {
    type V = PathView;

    open spec fn view(&self) -> PathView {
        self.cursor.deep_view()
    }
}

impl OnCancel {
    /// What is asked for: the list's state is cleared, so that no row is
    /// being edited.
    pub open spec fn actions(cursor: PathView) -> Seq<ActionView> {
        seq![clear_at(cursor)]
    }

    pub fn call(&self) -> (r: Vec<ActionOp>)
        ensures
            actions_view(r@) == Self::actions(self@),
    {
        let mut r: Vec<ActionOp> = Vec::new();
        r.push(ActionOp::build_states_action(&self.cursor, None));
        assert(actions_view(r@) =~= Self::actions(self@));
        r
    }
}

/// A row with the key under which the list holds it.
#[derive(Debug, Clone, PartialEq, Eq)]
pub struct KeyedRow {
    pub key: String,
    pub row: TaskRow,
}

pub struct KeyedRowView {
    pub key: Seq<char>,
    pub row: TaskRowView,
}

impl View for KeyedRow {
    type V = KeyedRowView;

    open spec fn view(&self) -> KeyedRowView {
        KeyedRowView { key: self.key@, row: self.row@ }
    }
}

/// The rendered list: its rows, in the order of the tasks.
#[derive(Debug, Clone, PartialEq, Eq)]
pub struct TodolistView {
    pub children: Vec<KeyedRow>,
}

impl View for TodolistView {
    type V = Seq<KeyedRowView>;

    open spec fn view(&self) -> Seq<KeyedRowView> {
        self.children@.map_values(|c: KeyedRow| c@)
    }
}

/// The place of the row with key `id` under a list at `list`.
pub open spec fn row_path(list: PathView, id: Seq<char>) -> PathView {
    list.push(id)
}

/// The row that a list at `list` shows for a task, given what the state
/// tree holds. It depends on the task and on two nodes of the tree, the
/// list's and the row's own; not on where the task stands in the list nor
/// on which other tasks are shown.
pub open spec fn row_for(
    tree: Map<PathView, StateValueView>,
    list: PathView,
    task: TaskView,
) -> KeyedRowView {
    let editing = read_as::<TodolistState>(node_at(tree, list)).editing == Some(task.id);
    KeyedRowView {
        key: task.id,
        row: TaskRowView {
            task,
            editing,
            state: read_as::<TaskState>(node_at(tree, row_path(list, task.id))),
            cursor: row_path(list, task.id),
            on_edit: list,
            on_cancel: list,
            effect: EditingState { editing },
        },
    }
}

/// The rows that a list at `list` shows for `tasks`.
pub open spec fn rows_for(
    tree: Map<PathView, StateValueView>,
    list: PathView,
    tasks: Seq<TaskView>,
) -> Seq<KeyedRowView> {
    tasks.map_values(|t: TaskView| row_for(tree, list, t))
}

/// The list of `tasks`, with its state read at `states`.
pub fn comp_todolist(states: &StateCursor<'_>, tasks: &Vec<Task>) -> (r: TodolistView)
    ensures
        r@ == rows_for(states.tree()@, states.path_view(), tasks_view(tasks@)),
{
    let cursor = states.path();
    let state = states.read::<TodolistState>();
    let mut children: Vec<KeyedRow> = Vec::new();
    let mut i: usize = 0;
    while i < tasks.len()
        invariant
            i <= tasks.len(),
            children.len() == i,
            cursor.deep_view() == states.path_view(),
            state@ == read_as::<TodolistState>(states.node()),
            forall|k: int|
                0 <= k < i ==> (#[trigger] children[k])@ == row_for(
                    states.tree()@,
                    states.path_view(),
                    tasks[k]@,
                ),
        decreases tasks.len() - i,
    {
        let task = &tasks[i];
        let editing = match &state.editing {
            Some(id) => *id == task.id,
            None => false,
        };
        let on_edit = OnEdit { cursor: copy_path(&cursor) };
        let on_cancel = OnCancel { cursor: copy_path(&cursor) };
        let row = comp_task(states.pick(task.id.as_str()), task, editing, on_edit, on_cancel);
        children.push(KeyedRow { key: task.id.clone(), row });
        i += 1;
    }
    let r = TodolistView { children };
    assert(r@ =~= rows_for(states.tree()@, states.path_view(), tasks_view(tasks@)));
    r
}

} // verus!
