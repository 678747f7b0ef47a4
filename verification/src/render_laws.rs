//! What holds between rendering, the handlers and the store: a row's
//! state follows its key, and editing is begun, committed and abandoned as
//! the rows' handlers say.

use vstd::prelude::*;

use crate::container::{app_state, list_path, passes, visible};
use crate::dispatcher::{accepts_all, after_all};
use crate::footer::{OnFilter, OnFilterView};
use crate::local_state::StateValueView;
use crate::state_tree::PathView;
use crate::store::{has_id, saved, StoreView, TaskView, TodoFilter};
use crate::task::Gesture;
use crate::todolist::{row_for, row_path, rows_for, OnCancel};

verus! {

/// A task that a filter lets through is among the visible tasks, and
/// every visible task is a task that the filter lets through.
pub proof fn visible_holds_what_passes(todos: Seq<TaskView>, filter: TodoFilter, t: TaskView)
    ensures
        visible(todos, filter).contains(t) <==> todos.contains(t) && passes(filter, t),
    decreases todos.len(),
{
    let keep = |t: TaskView| passes(filter, t);
    if todos.len() == 0 {
        crate::store::selection_push(todos, keep, t);
        assert(todos =~= Seq::<TaskView>::empty());
    } else {
        let front = todos.drop_last();
        let last = todos.last();
        visible_holds_what_passes(front, filter, t);
        crate::store::selection_push(front, keep, last);
        assert(front.push(last) =~= todos);
        let shown = visible(todos, filter);
        let shown_front = visible(front, filter);
        if todos.contains(t) && passes(filter, t) {
            let i = choose|i: int| 0 <= i < todos.len() && todos[i] == t;
            if i == todos.len() - 1 {
                assert(shown[shown.len() - 1] == t);
            } else {
                assert(front[i] == t);
                let j = choose|j: int| 0 <= j < shown_front.len() && shown_front[j] == t;
                assert(shown[j] == t);
            }
        }
        if shown.contains(t) {
            let j = choose|j: int| 0 <= j < shown.len() && shown[j] == t;
            if passes(filter, last) && j == shown.len() - 1 {
                assert(todos[todos.len() - 1] == t);
            } else {
                assert(shown_front[j] == t);
                let i = choose|i: int| 0 <= i < front.len() && front[i] == t;
                assert(todos[i] == t);
            }
        }
    }
}

/// Every row is held under its task's id, at the place that the id names.
pub proof fn rows_are_keyed_by_id(
    tree: Map<PathView, StateValueView>,
    list: PathView,
    tasks: Seq<TaskView>,
)
    ensures
        rows_for(tree, list, tasks).len() == tasks.len(),
        forall|i: int|
            0 <= i < tasks.len() ==> {
                &&& (#[trigger] rows_for(tree, list, tasks)[i]).key == tasks[i].id
                &&& rows_for(tree, list, tasks)[i].row.cursor == row_path(list, tasks[i].id)
                &&& rows_for(tree, list, tasks)[i] == row_for(tree, list, tasks[i])
            },
{
}

/// A task that two filters both let through has the same row under
/// either: the same key, the same place, the same edit box.
pub proof fn row_is_the_same_under_any_filter(
    tree: Map<PathView, StateValueView>,
    list: PathView,
    todos: Seq<TaskView>,
    t: TaskView,
    one: TodoFilter,
    other: TodoFilter,
)
    requires
        todos.contains(t),
        passes(one, t),
        passes(other, t),
    ensures
        rows_for(tree, list, visible(todos, one)).contains(row_for(tree, list, t)),
        rows_for(tree, list, visible(todos, other)).contains(row_for(tree, list, t)),
{
    visible_holds_what_passes(todos, one, t);
    visible_holds_what_passes(todos, other, t);
    let a = visible(todos, one);
    let i = choose|i: int| 0 <= i < a.len() && a[i] == t;
    assert(rows_for(tree, list, a)[i] == row_for(tree, list, t));
    let b = visible(todos, other);
    let j = choose|j: int| 0 <= j < b.len() && b[j] == t;
    assert(rows_for(tree, list, b)[j] == row_for(tree, list, t));
}

/// Choosing a filter changes the filter and no row: every task's row,
/// with its edit box, is after the change what it was before. So a row
/// that is hidden by one filter and shown again by the next comes back as
/// it was.
pub proof fn choosing_a_filter_keeps_every_row(s: StoreView, tag: TodoFilter, t: TaskView)
    ensures
        ({
            let root = Seq::<Seq<char>>::empty();
            let link = OnFilterView { cursor: root, state: app_state(s.states) };
            let after = after_all(s, OnFilter::actions(link, tag));
            &&& accepts_all(s, OnFilter::actions(link, tag))
            &&& after.todos == s.todos
            &&& app_state(after.states).now_showing == tag
            &&& app_state(after.states).new_todo == app_state(s.states).new_todo
            &&& row_for(after.states, list_path(root), t) == row_for(s.states, list_path(root), t)
        }),
{
    reveal_with_fuel(after_all, 2);
    reveal_with_fuel(accepts_all, 2);
    let root = Seq::<Seq<char>>::empty();
    assert(list_path(root).len() == 1);
    assert(row_path(list_path(root), t.id).len() == 2);
}

/// Beginning to edit a row leaves the tasks alone, makes that row the one
/// being edited, and fills its edit box with the task's title. No row
/// with another id is being edited.
pub proof fn editing_begins(s: StoreView, list: PathView, t: TaskView, u: TaskView)
    requires
        u.id != t.id,
    ensures
        ({
            let row = row_for(s.states, list, t).row;
            let after = after_all(s, row.edit_actions());
            &&& accepts_all(s, row.edit_actions())
            &&& after.todos == s.todos
            &&& row_for(after.states, list, t).row.editing
            &&& row_for(after.states, list, t).row.state.edit_text == t.title
            &&& !row_for(after.states, list, u).row.editing
        }),
{
    reveal_with_fuel(after_all, 3);
    reveal_with_fuel(accepts_all, 3);
    let row = row_for(s.states, list, t).row;
    let ops = row.edit_actions();
    assert(ops.len() == 2);
    assert(ops.drop_first().len() == 1);
    assert(ops.drop_first()[0] == ops[1]);
    assert(ops.drop_first().drop_first().len() == 0);
    assert(row_path(list, t.id).len() == list.len() + 1);
}

/// Committing the edit of a row whose task is in the store gives the task
/// the text of the edit box as its title, changes no other thing about the
/// tasks, and leaves no row being edited.
pub proof fn editing_is_committed(s: StoreView, list: PathView, t: TaskView, u: TaskView)
    requires
        has_id(s.todos, t.id),
    ensures
        ({
            let row = row_for(s.states, list, t).row;
            let after = after_all(s, row.submit_actions());
            &&& accepts_all(s, row.submit_actions())
            &&& after.todos == saved(s.todos, t.id, row.state.edit_text)
            &&& !row_for(after.states, list, u).row.editing
        }),
{
    reveal_with_fuel(after_all, 3);
    reveal_with_fuel(accepts_all, 3);
    let row = row_for(s.states, list, t).row;
    let ops = row.submit_actions();
    assert(ops.len() == 2);
    assert(ops.drop_first().len() == 1);
    assert(ops.drop_first()[0] == ops[1]);
    assert(ops.drop_first().drop_first().len() == 0);
}

/// Committing the edit of a row whose task is gone from the store is
/// refused, and changes nothing: the save fails, and editing is not
/// closed after it.
pub proof fn commit_for_missing_task_is_refused(s: StoreView, list: PathView, t: TaskView)
    requires
        !has_id(s.todos, t.id),
    ensures
        ({
            let row = row_for(s.states, list, t).row;
            &&& !accepts_all(s, row.submit_actions())
            &&& after_all(s, row.submit_actions()) == s
        }),
{
    reveal_with_fuel(after_all, 2);
    reveal_with_fuel(accepts_all, 2);
}

/// A gesture on the row of a task that is in the store moves the row as
/// `EditMode::after` says.
pub proof fn gesture_moves_the_row(s: StoreView, list: PathView, t: TaskView, gesture: Gesture)
    requires
        has_id(s.todos, t.id),
    ensures
        ({
            let row = row_for(s.states, list, t).row;
            let after = after_all(s, row.gesture_actions(gesture));
            &&& accepts_all(s, row.gesture_actions(gesture))
            &&& row_for(after.states, list, t).row.mode() == row.mode().after(gesture)
        }),
{
    match gesture {
        Gesture::BeginEdit => {
            let other = TaskView { id: t.id.push('x'), ..t };
            assert(other.id.len() != t.id.len());
            editing_begins(s, list, t, other);
        },
        Gesture::Confirm => {
            editing_is_committed(s, list, t, t);
        },
        Gesture::Blur => {
            editing_is_committed(s, list, t, t);
        },
        Gesture::Cancel => {
            editing_is_abandoned(s, list, t);
        },
    }
}

/// Abandoning an edit saves nothing: the tasks stay as they were, and no
/// row is being edited.
pub proof fn editing_is_abandoned(s: StoreView, list: PathView, u: TaskView)
    ensures
        ({
            let after = after_all(s, OnCancel::actions(list));
            &&& accepts_all(s, OnCancel::actions(list))
            &&& after.todos == s.todos
            &&& !row_for(after.states, list, u).row.editing
        }),
{
    reveal_with_fuel(after_all, 2);
    reveal_with_fuel(accepts_all, 2);
}

} // verus!
