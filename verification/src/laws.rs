//! What holds of the store whatever the actions: the laws that the
//! reducer's users rely on, each proved from [`StoreView::step`].

use vstd::prelude::*;

use crate::store::{
    all_completed, destroyed, first_with_id, has_id, is_first_with_id, saved, toggled,
    toggled_all, without_completed, without_completed_push, ActionView, StoreView, TaskView,
};

verus! {

/// Whether no two tasks share an id.
pub open spec fn ids_distinct(todos: Seq<TaskView>) -> bool {
    forall|i: int, j: int|
        0 <= i < todos.len() && 0 <= j < todos.len() && i != j ==> todos[i].id != todos[j].id
}

/// The store after the same action `n` times.
pub open spec fn repeated(s: StoreView, op: ActionView, n: nat) -> StoreView
    decreases n,
{
    if n == 0 {
        s
    } else {
        repeated(s, op, (n - 1) as nat).step(op)
    }
}

/// The least place at or before `i` that holds a task with this id.
proof fn least_with_id(todos: Seq<TaskView>, id: Seq<char>, i: int) -> (k: int)
    requires
        0 <= i < todos.len(),
        todos[i].id == id,
    ensures
        is_first_with_id(todos, id, k),
        k <= i,
    decreases i,
{
    if exists|j: int| 0 <= j < i && todos[j].id == id {
        let j = choose|j: int| 0 <= j < i && todos[j].id == id;
        least_with_id(todos, id, j)
    } else {
        i
    }
}

/// Where some task has an id, there is a first one.
pub proof fn first_with_id_exists(todos: Seq<TaskView>, id: Seq<char>)
    requires
        has_id(todos, id),
    ensures
        is_first_with_id(todos, id, first_with_id(todos, id)),
{
    let i = choose|i: int| 0 <= i < todos.len() && todos[i].id == id;
    let k = least_with_id(todos, id, i);
    assert(is_first_with_id(todos, id, k));
}

/// `Toggle` changes one task's `completed` and nothing else: no id, no
/// title, no place.
pub proof fn toggle_flips_first_match(todos: Seq<TaskView>, id: Seq<char>)
    ensures
        toggled(todos, id).len() == todos.len(),
        forall|i: int|
            0 <= i < todos.len() ==> (#[trigger] toggled(todos, id)[i]).id == todos[i].id
                && toggled(todos, id)[i].title == todos[i].title,
        forall|i: int|
            0 <= i < todos.len() ==> (#[trigger] toggled(todos, id)[i]).completed == (
            if is_first_with_id(todos, id, i) {
                !todos[i].completed
            } else {
                todos[i].completed
            }),
        !has_id(todos, id) ==> toggled(todos, id) == todos,
{
    if has_id(todos, id) {
        first_with_id_exists(todos, id);
        let k = first_with_id(todos, id);
        assert forall|i: int| 0 <= i < todos.len() implies (#[trigger] toggled(
            todos,
            id,
        )[i]).completed == (if is_first_with_id(todos, id, i) {
            !todos[i].completed
        } else {
            todos[i].completed
        }) by {
            if is_first_with_id(todos, id, i) && i != k {
                if i < k {
                    assert(todos[i].id != id);
                } else {
                    assert(todos[k].id != id);
                }
            }
        }
    } else {
        assert forall|i: int| 0 <= i < todos.len() implies !is_first_with_id(todos, id, i) by {}
    }
}

/// Toggling a task twice gives back the store as it was.
pub proof fn toggle_twice_restores(s: StoreView, id: Seq<char>)
    ensures
        s.step(ActionView::Toggle(id)).step(ActionView::Toggle(id)) == s,
{
    let once = toggled(s.todos, id);
    if has_id(s.todos, id) {
        first_with_id_exists(s.todos, id);
        let k = first_with_id(s.todos, id);
        assert(is_first_with_id(once, id, k));
        crate::store::first_with_id_is_unique(once, id, k);
        assert(toggled(once, id) =~= s.todos);
    }
}

/// Toggling a task an even number of times gives back the store as it was;
/// an odd number of times does what toggling once does.
pub proof fn toggle_is_an_involution(s: StoreView, id: Seq<char>, n: nat)
    ensures
        n % 2 == 0 ==> repeated(s, ActionView::Toggle(id), n) == s,
        n % 2 == 1 ==> repeated(s, ActionView::Toggle(id), n) == s.step(ActionView::Toggle(id)),
    decreases n,
{
    let op = ActionView::Toggle(id);
    if n == 0 {
    } else if n == 1 {
        assert(repeated(s, op, 1) == repeated(s, op, 0).step(op));
    } else {
        toggle_is_an_involution(s, id, (n - 2) as nat);
        let earlier = repeated(s, op, (n - 2) as nat);
        assert(repeated(s, op, (n - 1) as nat) == earlier.step(op));
        assert(repeated(s, op, n) == earlier.step(op).step(op));
        toggle_twice_restores(earlier, id);
    }
}

/// Toggling a task that is in the store an even number of times leaves its
/// `completed` as it was, and an odd number of times flips it.
pub proof fn toggle_parity(s: StoreView, id: Seq<char>, n: nat)
    requires
        has_id(s.todos, id),
    ensures
        ({
            let i = first_with_id(s.todos, id);
            let after = repeated(s, ActionView::Toggle(id), n).todos;
            &&& after.len() == s.todos.len()
            &&& after[i].id == id
            &&& after[i].completed == if n % 2 == 0 {
                s.todos[i].completed
            } else {
                !s.todos[i].completed
            }
        }),
{
    toggle_is_an_involution(s, id, n);
    first_with_id_exists(s.todos, id);
    toggle_flips_first_match(s.todos, id);
}

/// The flip rule of `ToggleAll`: where every task is completed, all are
/// reopened; in every other case all are completed. Ids, titles and order
/// stay.
pub proof fn toggle_all_flip_rule(todos: Seq<TaskView>)
    ensures
        toggled_all(todos).len() == todos.len(),
        forall|i: int|
            0 <= i < todos.len() ==> #[trigger] toggled_all(todos)[i] == (TaskView {
                completed: !all_completed(todos),
                ..todos[i]
            }),
{
}

/// From a list in which some task is open, `ToggleAll` completes every
/// task, and a second `ToggleAll` reopens every task.
pub proof fn toggle_all_twice_from_mixed(todos: Seq<TaskView>)
    requires
        !all_completed(todos),
    ensures
        forall|i: int| 0 <= i < todos.len() ==> (#[trigger] toggled_all(todos)[i]).completed,
        forall|i: int|
            0 <= i < todos.len() ==> !(#[trigger] toggled_all(toggled_all(todos))[i]).completed,
{
    let once = toggled_all(todos);
    assert(all_completed(once));
}

/// From a list in which every task is completed, and there is one,
/// `ToggleAll` reopens every task, and a second `ToggleAll` gives back the
/// list as it was.
pub proof fn toggle_all_twice_from_complete(todos: Seq<TaskView>)
    requires
        all_completed(todos),
        todos.len() > 0,
    ensures
        forall|i: int| 0 <= i < todos.len() ==> !(#[trigger] toggled_all(todos)[i]).completed,
        toggled_all(toggled_all(todos)) == todos,
{
    let once = toggled_all(todos);
    assert(!once[0].completed);
    assert(!all_completed(once));
    assert(toggled_all(once) =~= todos);
}

/// `ClearCompleted` leaves no completed task.
pub proof fn clear_completed_leaves_open_tasks(todos: Seq<TaskView>)
    ensures
        forall|i: int|
            0 <= i < without_completed(todos).len() ==> !(#[trigger] without_completed(
                todos,
            )[i]).completed,
    decreases todos.len(),
{
    if todos.len() == 0 {
        reveal(Seq::filter);
    } else {
        let front = todos.drop_last();
        clear_completed_leaves_open_tasks(front);
        without_completed_push(front, todos.last());
        assert(front.push(todos.last()) =~= todos);
    }
}

/// A list without completed tasks is left as it is by `ClearCompleted`.
pub proof fn clear_completed_keeps_open_tasks(todos: Seq<TaskView>)
    requires
        forall|i: int| 0 <= i < todos.len() ==> !(#[trigger] todos[i]).completed,
    ensures
        without_completed(todos) == todos,
    decreases todos.len(),
{
    if todos.len() == 0 {
        reveal(Seq::filter);
    } else {
        let front = todos.drop_last();
        clear_completed_keeps_open_tasks(front);
        without_completed_push(front, todos.last());
        assert(front.push(todos.last()) =~= todos);
    }
}

/// `ClearCompleted` twice in a row does what `ClearCompleted` does once.
pub proof fn clear_completed_is_idempotent(s: StoreView)
    ensures
        s.step(ActionView::ClearCompleted).step(ActionView::ClearCompleted) == s.step(
            ActionView::ClearCompleted,
        ),
{
    clear_completed_leaves_open_tasks(s.todos);
    clear_completed_keeps_open_tasks(without_completed(s.todos));
}

/// After `AddTodo` with an id that no task had, exactly one task has that
/// id: the last one, open, with the given title. The tasks before it are
/// those that were there.
pub proof fn add_todo_adds_one_task(s: StoreView, id: Seq<char>, title: Seq<char>)
    requires
        !has_id(s.todos, id),
    ensures
        ({
            let after = s.step(ActionView::AddTodo(id, title)).todos;
            let last = after.len() - 1;
            &&& after.len() == s.todos.len() + 1
            &&& after.drop_last() == s.todos
            &&& after[last] == TaskView { id, completed: false, title }
            &&& forall|i: int| 0 <= i < after.len() && after[i].id == id ==> i == last
        }),
{
    let after = s.step(ActionView::AddTodo(id, title)).todos;
    assert(after.drop_last() =~= s.todos);
    assert forall|i: int| 0 <= i < after.len() && after[i].id == id implies i == after.len()
        - 1 by {
        if i < s.todos.len() {
            assert(s.todos[i].id == id);
        }
    }
}

/// `Save` with an id that some task has changes titles only: every task
/// with that id gets the new title, and nothing else changes, neither
/// `completed` nor the order.
pub proof fn save_changes_titles_only(s: StoreView, id: Seq<char>, title: Seq<char>)
    requires
        has_id(s.todos, id),
    ensures
        ({
            let after = s.step(ActionView::Save(id, title));
            &&& after.states == s.states
            &&& after.todos.len() == s.todos.len()
            &&& forall|i: int|
                0 <= i < s.todos.len() ==> #[trigger] after.todos[i] == if s.todos[i].id == id {
                    TaskView { title, ..s.todos[i] }
                } else {
                    s.todos[i]
                }
        }),
{
}

/// Where ids are distinct, `Save` changes the title of one task and leaves
/// every other task as it was.
pub proof fn save_touches_one_task(s: StoreView, id: Seq<char>, title: Seq<char>)
    requires
        has_id(s.todos, id),
        ids_distinct(s.todos),
    ensures
        ({
            let k = first_with_id(s.todos, id);
            s.step(ActionView::Save(id, title)).todos == s.todos.update(
                k,
                TaskView { title, ..s.todos[k] },
            )
        }),
{
    first_with_id_exists(s.todos, id);
    let k = first_with_id(s.todos, id);
    assert(saved(s.todos, id, title) =~= s.todos.update(k, TaskView { title, ..s.todos[k] }));
}

/// `Save` with an id that no task has leaves the store as it was.
pub proof fn save_of_missing_id_changes_nothing(s: StoreView, id: Seq<char>, title: Seq<char>)
    requires
        !has_id(s.todos, id),
    ensures
        !s.accepts(ActionView::Save(id, title)),
        s.step(ActionView::Save(id, title)) == s,
{
}

/// `Toggle` and `Destroy` with an id that no task has leave the store as
/// it was.
pub proof fn missing_id_is_a_no_op(s: StoreView, id: Seq<char>)
    requires
        !has_id(s.todos, id),
    ensures
        s.step(ActionView::Toggle(id)) == s,
        s.step(ActionView::Destroy(id)) == s,
{
}

/// Every task that `ClearCompleted` keeps was in the list, and the kept
/// tasks are in the order they were in.
proof fn kept_tasks_come_from_list(todos: Seq<TaskView>) -> (from: Seq<int>)
    ensures
        from.len() == without_completed(todos).len(),
        forall|i: int|
            0 <= i < from.len() ==> 0 <= #[trigger] from[i] < todos.len() && without_completed(
                todos,
            )[i] == todos[from[i]],
        forall|i: int, j: int| 0 <= i < j < from.len() ==> from[i] < from[j],
    decreases todos.len(),
{
    if todos.len() == 0 {
        reveal(Seq::filter);
        Seq::empty()
    } else {
        let front = todos.drop_last();
        let from = kept_tasks_come_from_list(front);
        without_completed_push(front, todos.last());
        assert(front.push(todos.last()) =~= todos);
        if todos.last().completed {
            from
        } else {
            from.push(todos.len() - 1)
        }
    }
}

/// No action makes two tasks share an id, but an `AddTodo` with an id
/// that is in use.
pub proof fn step_keeps_ids_distinct(s: StoreView, op: ActionView)
    requires
        ids_distinct(s.todos),
        op matches ActionView::AddTodo(id, _) ==> !has_id(s.todos, id),
    ensures
        ids_distinct(s.step(op).todos),
{
    let after = s.step(op).todos;
    match op {
        ActionView::StatesChange(_) => {},
        ActionView::AddTodo(id, title) => {
            assert forall|i: int, j: int|
                0 <= i < after.len() && 0 <= j < after.len() && i != j implies after[i].id
                != after[j].id by {
                if i < s.todos.len() && j < s.todos.len() {
                } else if i < s.todos.len() {
                    assert(s.todos[i].id != id);
                } else {
                    assert(s.todos[j].id != id);
                }
            }
        },
        ActionView::ToggleAll => {},
        ActionView::Toggle(id) => {
            toggle_flips_first_match(s.todos, id);
        },
        ActionView::Destroy(id) => {
            if has_id(s.todos, id) {
                first_with_id_exists(s.todos, id);
                let k = first_with_id(s.todos, id);
                assert(after == destroyed(s.todos, id));
                assert forall|i: int, j: int|
                    0 <= i < after.len() && 0 <= j < after.len() && i != j implies after[i].id
                    != after[j].id by {
                    let i0 = if i < k { i } else { i + 1 };
                    let j0 = if j < k { j } else { j + 1 };
                    assert(after[i] == s.todos[i0]);
                    assert(after[j] == s.todos[j0]);
                }
            }
        },
        ActionView::Save(id, title) => {},
        ActionView::ClearCompleted => {
            let from = kept_tasks_come_from_list(s.todos);
            assert forall|i: int, j: int|
                0 <= i < after.len() && 0 <= j < after.len() && i != j implies after[i].id
                != after[j].id by {
                assert(after[i] == s.todos[from[i]]);
                assert(after[j] == s.todos[from[j]]);
                if i < j {
                    assert(from[i] < from[j]);
                } else {
                    assert(from[j] < from[i]);
                }
            }
        },
    }
}

/// Where ids are distinct, `Destroy` leaves no task with the id.
pub proof fn destroy_removes_the_task(s: StoreView, id: Seq<char>)
    requires
        ids_distinct(s.todos),
    ensures
        !has_id(s.step(ActionView::Destroy(id)).todos, id),
{
    let after = s.step(ActionView::Destroy(id)).todos;
    if has_id(s.todos, id) {
        first_with_id_exists(s.todos, id);
        let k = first_with_id(s.todos, id);
        assert forall|i: int| 0 <= i < after.len() implies after[i].id != id by {
            let i0 = if i < k { i } else { i + 1 };
            assert(after[i] == s.todos[i0]);
        }
    }
}

} // verus!
