//! The store of tasks and the actions that change it.
//!
//! [`Store::update`] is the only way in which a store changes. What each
//! action does is written down once, over the mathematical view of the
//! store, in [`StoreView::apply`]; `update` is proved to do exactly that.

use vstd::prelude::*;
use vstd::string::*;

use crate::local_state::{StateValue, StateValueView};
use crate::state_tree::{copy_path, entries_with, entries_without, PathView, StateTree};

verus! {

/// One entry of the todo list.
#[derive(Debug, PartialEq, Eq)]
pub struct Task {
    /// Opaque identity, chosen by whoever adds the task.
    pub id: String,
    pub completed: bool,
    pub title: String,
}

/// What a [`Task`] is, mathematically.
pub struct TaskView {
    pub id: Seq<char>,
    pub completed: bool,
    pub title: Seq<char>,
}

impl View for Task {
    type V = TaskView;

    open spec fn view(&self) -> TaskView {
        TaskView { id: self.id@, completed: self.completed, title: self.title@ }
    }
}

impl Clone for Task {
    fn clone(&self) -> (r: Self)
        ensures
            r == *self,
    {
        Task { id: self.id.clone(), completed: self.completed, title: self.title.clone() }
    }
}

/// The views of a sequence of tasks, in the same order.
pub open spec fn tasks_view(tasks: Seq<Task>) -> Seq<TaskView> {
    tasks.map_values(|t: Task| t@)
}

/// Which tasks the list shows.
#[derive(Debug, Clone, Copy, PartialEq, Eq, Structural)]
pub enum TodoFilter {
    All,
    Active,
    Completed,
}

/// A change to one node of the state tree: a new value for the node at
/// `cursor`, or, with no value, its removal.
#[derive(Debug, PartialEq, Eq)]
pub struct StatePatch {
    pub cursor: Vec<String>,
    pub data: Option<StateValue>,
}

pub struct StatePatchView {
    pub cursor: PathView,
    pub data: Option<StateValueView>,
}

impl View for StatePatch {
    type V = StatePatchView;

    open spec fn view(&self) -> StatePatchView {
        StatePatchView {
            cursor: self.cursor.deep_view(),
            data: match self.data {
                Some(v) => Some(v@),
                None => None,
            },
        }
    }
}

impl Clone for StatePatch {
    fn clone(&self) -> (r: Self)
        ensures
            r@ == self@,
    {
        StatePatch {
            cursor: copy_path(&self.cursor),
            data: match &self.data {
                Some(v) => Some(v.clone()),
                None => None,
            },
        }
    }
}

/// Everything that can be asked of the store.
#[derive(Debug, PartialEq, Eq)]
pub enum ActionOp {
    /// Write or clear one node of the state tree.
    StatesChange(StatePatch),
    /// Append a task with this id and this title.
    AddTodo(String, String),
    /// Complete every task, or, if all are complete already, reopen them all.
    ToggleAll,
    /// Flip the first task with this id.
    Toggle(String),
    /// Remove the first task with this id.
    Destroy(String),
    /// Give the task with this id a new title.
    Save(String, String),
    /// Remove every completed task.
    ClearCompleted,
}

pub enum ActionView {
    StatesChange(StatePatchView),
    AddTodo(Seq<char>, Seq<char>),
    ToggleAll,
    Toggle(Seq<char>),
    Destroy(Seq<char>),
    Save(Seq<char>, Seq<char>),
    ClearCompleted,
}

impl View for ActionOp {
    type V = ActionView;

    open spec fn view(&self) -> ActionView {
        match self {
            ActionOp::StatesChange(p) => ActionView::StatesChange(p@),
            ActionOp::AddTodo(id, title) => ActionView::AddTodo(id@, title@),
            ActionOp::ToggleAll => ActionView::ToggleAll,
            ActionOp::Toggle(id) => ActionView::Toggle(id@),
            ActionOp::Destroy(id) => ActionView::Destroy(id@),
            ActionOp::Save(id, title) => ActionView::Save(id@, title@),
            ActionOp::ClearCompleted => ActionView::ClearCompleted,
        }
    }
}

impl Clone for ActionOp {
    fn clone(&self) -> (r: Self)
        ensures
            r@ == self@,
    {
        match self {
            ActionOp::StatesChange(p) => ActionOp::StatesChange(p.clone()),
            ActionOp::AddTodo(id, title) => ActionOp::AddTodo(id.clone(), title.clone()),
            ActionOp::ToggleAll => ActionOp::ToggleAll,
            ActionOp::Toggle(id) => ActionOp::Toggle(id.clone()),
            ActionOp::Destroy(id) => ActionOp::Destroy(id.clone()),
            ActionOp::Save(id, title) => ActionOp::Save(id.clone(), title.clone()),
            ActionOp::ClearCompleted => ActionOp::ClearCompleted,
        }
    }
}

impl ActionOp {
    /// The action that carries a state patch.
    pub fn states_action(a: StatePatch) -> (r: Self)
        ensures
            r == ActionOp::StatesChange(a),
    {
        ActionOp::StatesChange(a)
    }

    /// The action that stores `a` at `cursor`, or clears that node where
    /// `a` is `None`.
    pub fn build_states_action(cursor: &Vec<String>, a: Option<StateValue>) -> (r: Self)
        ensures
            r@ == ActionView::StatesChange(
                StatePatchView {
                    cursor: cursor.deep_view(),
                    data: match a {
                        Some(v) => Some(v@),
                        None => None,
                    },
                },
            ),
    {
        Self::states_action(StatePatch { cursor: copy_path(cursor), data: a })
    }
}

/// The action that stores `value` at `cursor`.
pub open spec fn write_at(cursor: PathView, value: StateValueView) -> ActionView {
    ActionView::StatesChange(StatePatchView { cursor, data: Some(value) })
}

/// The action that clears the node at `cursor`.
pub open spec fn clear_at(cursor: PathView) -> ActionView {
    ActionView::StatesChange(StatePatchView { cursor, data: None })
}

/// The entries of the state tree after an action: changed by a state
/// patch as the patch says, and by no other action.
pub open spec fn entries_step(entries: Seq<(PathView, StateValueView)>, op: ActionView) -> Seq<
    (PathView, StateValueView),
> {
    match op {
        ActionView::StatesChange(patch) => match patch.data {
            Some(v) => entries_with(entries, patch.cursor, v),
            None => entries_without(entries, patch.cursor),
        },
        _ => entries,
    }
}

/// Whether some task has this id.
pub open spec fn has_id(todos: Seq<TaskView>, id: Seq<char>) -> bool {
    exists|i: int| 0 <= i < todos.len() && todos[i].id == id
}

/// Whether `i` is the place of the first task with this id.
pub open spec fn is_first_with_id(todos: Seq<TaskView>, id: Seq<char>, i: int) -> bool {
    &&& 0 <= i < todos.len()
    &&& todos[i].id == id
    &&& forall|j: int| 0 <= j < i ==> todos[j].id != id
}

/// The place of the first task with this id, where there is one.
pub open spec fn first_with_id(todos: Seq<TaskView>, id: Seq<char>) -> int {
    choose|i: int| is_first_with_id(todos, id, i)
}

/// Whether every task is completed. It is so of the empty list.
pub open spec fn all_completed(todos: Seq<TaskView>) -> bool {
    forall|i: int| 0 <= i < todos.len() ==> todos[i].completed
}

/// The list with every task's `completed` set to one value.
pub open spec fn with_all_set(todos: Seq<TaskView>, completed: bool) -> Seq<TaskView> {
    todos.map_values(|t: TaskView| TaskView { completed, ..t })
}

/// The list after `ToggleAll`.
pub open spec fn toggled_all(todos: Seq<TaskView>) -> Seq<TaskView> {
    with_all_set(todos, !all_completed(todos))
}

/// The list after `Toggle(id)`.
pub open spec fn toggled(todos: Seq<TaskView>, id: Seq<char>) -> Seq<TaskView> {
    if has_id(todos, id) {
        let i = first_with_id(todos, id);
        todos.update(i, TaskView { completed: !todos[i].completed, ..todos[i] })
    } else {
        todos
    }
}

/// The list after `Destroy(id)`.
pub open spec fn destroyed(todos: Seq<TaskView>, id: Seq<char>) -> Seq<TaskView> {
    if has_id(todos, id) {
        todos.remove(first_with_id(todos, id))
    } else {
        todos
    }
}

/// The list after `Save(id, title)`.
pub open spec fn saved(todos: Seq<TaskView>, id: Seq<char>, title: Seq<char>) -> Seq<TaskView> {
    todos.map_values(
        |t: TaskView|
            if t.id == id {
                TaskView { title, ..t }
            } else {
                t
            },
    )
}

/// The list after `ClearCompleted`.
pub open spec fn without_completed(todos: Seq<TaskView>) -> Seq<TaskView> {
    todos.filter(|t: TaskView| !t.completed)
}

/// The text of the error that `Save` gives for an id that no task has.
pub open spec fn not_found_message(id: Seq<char>) -> Seq<char> {
    "task "@ + id + " not found"@
}

/// The tasks, in the order in which they were added, and the state tree.
#[derive(Debug, PartialEq, Eq)]
pub struct Store {
    pub todos: Vec<Task>,
    pub states: StateTree,
}

pub struct StoreView {
    pub todos: Seq<TaskView>,
    pub states: Map<PathView, StateValueView>,
}

impl View for Store {
    type V = StoreView;

    open spec fn view(&self) -> StoreView {
        StoreView { todos: tasks_view(self.todos@), states: self.states@ }
    }
}

impl Clone for Store {
    fn clone(&self) -> (r: Self)
        ensures
            r@ == self@,
            r.states.entries() == self.states.entries(),
    {
        let todos = self.todos.clone();
        assert(tasks_view(todos@) =~= tasks_view(self.todos@)) by {
            assert forall|i: int| 0 <= i < todos.len() implies todos[i] == self.todos[i] by {
                assert(cloned::<Task>(self.todos[i], todos[i]));
            }
        }
        Store { todos, states: self.states.clone() }
    }
}

impl Default for Store {
    fn default() -> (r: Self)
        ensures
            r@.todos == Seq::<TaskView>::empty(),
            r@.states == Map::<PathView, StateValueView>::empty(),
            r.states.entries() == Seq::<(PathView, StateValueView)>::empty(),
    {
        Store::new()
    }
}

impl StoreView {
    /// Whether the store takes the action. It refuses only a `Save` whose
    /// id no task has.
    pub open spec fn accepts(self, op: ActionView) -> bool {
        match op {
            ActionView::Save(id, _) => has_id(self.todos, id),
            _ => true,
        }
    }

    /// The store after an action that it accepts.
    pub open spec fn apply(self, op: ActionView) -> StoreView {
        match op {
            ActionView::StatesChange(patch) => StoreView {
                states: match patch.data {
                    Some(v) => self.states.insert(patch.cursor, v),
                    None => self.states.remove(patch.cursor),
                },
                ..self
            },
            ActionView::AddTodo(id, title) => StoreView {
                todos: self.todos.push(TaskView { id, completed: false, title }),
                ..self
            },
            ActionView::ToggleAll => StoreView { todos: toggled_all(self.todos), ..self },
            ActionView::Toggle(id) => StoreView { todos: toggled(self.todos, id), ..self },
            ActionView::Destroy(id) => StoreView { todos: destroyed(self.todos, id), ..self },
            ActionView::Save(id, title) => StoreView { todos: saved(self.todos, id, title), ..self },
            ActionView::ClearCompleted => StoreView {
                todos: without_completed(self.todos),
                ..self
            },
        }
    }

    /// The store after an action: changed as the action says, or, where the
    /// store refuses the action, as it was.
    pub open spec fn step(self, op: ActionView) -> StoreView {
        if self.accepts(op) {
            self.apply(op)
        } else {
            self
        }
    }
}

/// The place of the first task with this id.
fn find_task(todos: &Vec<Task>, id: &String) -> (r: Option<usize>)
    ensures
        match r {
            Some(i) => is_first_with_id(tasks_view(todos@), id@, i as int),
            None => !has_id(tasks_view(todos@), id@),
        },
{
    let mut i: usize = 0;
    while i < todos.len()
        invariant
            i <= todos.len(),
            forall|j: int| 0 <= j < i ==> tasks_view(todos@)[j].id != id@,
        decreases todos.len() - i,
    {
        if todos[i].id == *id {
            return Some(i);
        }
        i += 1;
    }
    None
}

/// A selection goes through the list from the front: a task added at the
/// end is selected, or not, after the others.
pub proof fn selection_push(todos: Seq<TaskView>, keep: spec_fn(TaskView) -> bool, t: TaskView)
    ensures
        todos.push(t).filter(keep) == if keep(t) {
            todos.filter(keep).push(t)
        } else {
            todos.filter(keep)
        },
        Seq::<TaskView>::empty().filter(keep) == Seq::<TaskView>::empty(),
{
    reveal(Seq::filter);
    assert(todos.push(t).drop_last() =~= todos);
}

/// `ClearCompleted` goes through the list from the front: a task added at
/// the end is kept, or not, after the others.
pub proof fn without_completed_push(todos: Seq<TaskView>, t: TaskView)
    ensures
        without_completed(todos.push(t)) == if t.completed {
            without_completed(todos)
        } else {
            without_completed(todos).push(t)
        },
{
    selection_push(todos, |t: TaskView| !t.completed, t);
}

/// The first task with an id is at one place only.
pub proof fn first_with_id_is_unique(todos: Seq<TaskView>, id: Seq<char>, i: int)
    requires
        is_first_with_id(todos, id, i),
    ensures
        has_id(todos, id),
        first_with_id(todos, id) == i,
{
    let k = first_with_id(todos, id);
    assert(is_first_with_id(todos, id, k));
    if k < i {
        assert(todos[k].id != id);
    }
    if i < k {
        assert(todos[i].id != id);
    }
}

impl Store {
    /// A store with no task and an empty state tree.
    pub fn new() -> (r: Self)
        ensures
            r@.todos == Seq::<TaskView>::empty(),
            r@.states == Map::<PathView, StateValueView>::empty(),
            r.states.entries() == Seq::<(PathView, StateValueView)>::empty(),
    {
        let r = Store { todos: Vec::new(), states: StateTree::new() };
        assert(r@.todos =~= Seq::<TaskView>::empty());
        r
    }

    /// The state tree, to change in place.
    pub fn get_states(&mut self) -> (r: &mut StateTree)
        ensures
            *r == old(self).states,
            final(self).states == *final(r),
            final(self).todos == old(self).todos,
    {
        &mut self.states
    }

    /// Applies one action.
    ///
    /// Every action is accepted but a `Save` whose id no task has: that one
    /// leaves the store as it was and is answered with an error that names
    /// the id.
    pub fn update(&mut self, op: ActionOp) -> (r: Result<(), String>)
        ensures
            final(self)@ == old(self)@.step(op@),
            final(self).states.entries() == entries_step(old(self).states.entries(), op@),
            match r {
                Ok(_) => old(self)@.accepts(op@),
                Err(e) => {
                    &&& !old(self)@.accepts(op@)
                    &&& op@ matches ActionView::Save(id, _)
                    &&& e@ == not_found_message(id)
                },
            },
    {
        let ghost before = self.todos@;
        match op {
            ActionOp::StatesChange(patch) => {
                match patch.data {
                    Some(v) => self.states.set(patch.cursor, v),
                    None => self.states.clear(&patch.cursor),
                }
            },
            ActionOp::AddTodo(id, title) => {
                self.todos.push(Task { id, completed: false, title });
                assert(tasks_view(self.todos@) =~= tasks_view(before).push(
                    TaskView { id: id@, completed: false, title: title@ },
                ));
            },
            ActionOp::ToggleAll => {
                let completed = self.all_completed();
                self.set_all(!completed);
            },
            ActionOp::Toggle(id) => {
                match find_task(&self.todos, &id) {
                    Some(i) => {
                        proof {
                            first_with_id_is_unique(tasks_view(before), id@, i as int);
                        }
                        let c = self.todos[i].completed;
                        self.todos[i].completed = !c;
                        assert(tasks_view(self.todos@) =~= toggled(tasks_view(before), id@));
                    },
                    None => {},
                }
            },
            ActionOp::Destroy(id) => {
                match find_task(&self.todos, &id) {
                    Some(i) => {
                        proof {
                            first_with_id_is_unique(tasks_view(before), id@, i as int);
                        }
                        let _ = self.todos.remove(i);
                        assert(tasks_view(self.todos@) =~= destroyed(tasks_view(before), id@));
                    },
                    None => {},
                }
            },
            ActionOp::Save(id, title) => {
                if find_task(&self.todos, &id).is_none() {
                    let mut message = String::from_str("task ");
                    message.append(id.as_str());
                    message.append(" not found");
                    return Err(message);
                }
                self.retitle(&id, &title);
            },
            ActionOp::ClearCompleted => {
                self.drop_completed();
            },
        }
        Ok(())
    }

    /// Whether every task is completed.
    fn all_completed(&self) -> (r: bool)
        ensures
            r == all_completed(self@.todos),
    {
        let mut i: usize = 0;
        while i < self.todos.len()
            invariant
                i <= self.todos.len(),
                forall|j: int| 0 <= j < i ==> tasks_view(self.todos@)[j].completed,
            decreases self.todos.len() - i,
        {
            if !self.todos[i].completed {
                assert(!tasks_view(self.todos@)[i as int].completed);
                return false;
            }
            i += 1;
        }
        true
    }

    /// Sets `completed` on every task.
    fn set_all(&mut self, completed: bool)
        ensures
            final(self)@.todos == with_all_set(old(self)@.todos, completed),
            final(self).states == old(self).states,
    {
        let ghost before = self.todos@;
        let mut i: usize = 0;
        while i < self.todos.len()
            invariant
                i <= self.todos.len(),
                self.todos.len() == before.len(),
                self.states == old(self).states,
                forall|j: int|
                    0 <= j < i ==> (#[trigger] self.todos[j])@ == (TaskView {
                        completed,
                        ..before[j]@
                    }),
                forall|j: int| i <= j < before.len() ==> self.todos[j] == before[j],
            decreases self.todos.len() - i,
        {
            self.todos[i].completed = completed;
            i += 1;
        }
        assert(tasks_view(self.todos@) =~= with_all_set(tasks_view(before), completed));
    }

    /// Gives every task with this id the title `title`.
    fn retitle(&mut self, id: &String, title: &String)
        ensures
            final(self)@.todos == saved(old(self)@.todos, id@, title@),
            final(self).states == old(self).states,
    {
        let ghost before = self.todos@;
        let mut i: usize = 0;
        while i < self.todos.len()
            invariant
                i <= self.todos.len(),
                self.todos.len() == before.len(),
                self.states == old(self).states,
                forall|j: int|
                    0 <= j < i ==> (#[trigger] self.todos[j])@ == saved(
                        tasks_view(before),
                        id@,
                        title@,
                    )[j],
                forall|j: int| i <= j < before.len() ==> self.todos[j] == before[j],
            decreases self.todos.len() - i,
        {
            if self.todos[i].id == *id {
                self.todos[i].title = title.clone();
            }
            i += 1;
        }
        assert(tasks_view(self.todos@) =~= saved(tasks_view(before), id@, title@));
    }

    /// Removes the completed tasks and keeps the others in their order.
    fn drop_completed(&mut self)
        ensures
            final(self)@.todos == without_completed(old(self)@.todos),
            final(self).states == old(self).states,
    {
        let mut all: Vec<Task> = Vec::new();
        core::mem::swap(&mut self.todos, &mut all);
        let ghost before = all@;
        proof {
            reveal(Seq::filter);
            assert(tasks_view(before.take(0)) =~= Seq::<TaskView>::empty());
            assert(tasks_view(self.todos@) =~= without_completed(tasks_view(before.take(0))));
        }
        for task in it: all
            invariant
                it.seq() == before,
                self.states == old(self).states,
                tasks_view(self.todos@) == without_completed(tasks_view(before.take(it.index()))),
        {
            let ghost k = it.index();
            let ghost kept = self.todos@;
            proof {
                assert(before.take(k + 1) =~= before.take(k).push(task));
                assert(tasks_view(before.take(k).push(task)) =~= tasks_view(before.take(k)).push(
                    task@,
                ));
                without_completed_push(tasks_view(before.take(k)), task@);
            }
            if !task.completed {
                self.todos.push(task);
                assert(tasks_view(self.todos@) =~= tasks_view(kept).push(task@));
            }
        }
        assert(before.take(before.len() as int) =~= before);
    }
}

} // verus!
