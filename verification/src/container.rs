//! The top of the component tree: the "new todo" box, the list of the
//! tasks that the filter lets through, and the footer.

use vstd::prelude::*;
use vstd::string::*;

use crate::dispatcher::actions_view;
use crate::footer::{comp_footer, FooterView, FooterViewView, OnClearCompleted, OnFilter, OnFilterView};
use crate::ident::random_id;
use crate::local_state::{AppState, AppStateView, LocalState, StateValueView};
use crate::state_tree::{copy_path, node_at, read_as, PathView};
use crate::store::{
    selection_push, tasks_view, write_at, ActionOp, ActionView, Store, StoreView, Task,
    TaskView, TodoFilter,
};
use crate::task::KEY_ENTER;
use crate::text::{blank, is_blank};
use crate::todolist::{comp_todolist, rows_for, KeyedRowView, TodolistView};

verus! {

/// Whether a filter lets a task through.
pub open spec fn passes(filter: TodoFilter, t: TaskView) -> bool {
    match filter {
        TodoFilter::All => true,
        TodoFilter::Active => !t.completed,
        TodoFilter::Completed => t.completed,
    }
}

/// The tasks that a filter lets through, in their order.
pub open spec fn visible(todos: Seq<TaskView>, filter: TodoFilter) -> Seq<TaskView> {
    todos.filter(|t: TaskView| passes(filter, t))
}

/// How many tasks are open.
pub open spec fn active_count(todos: Seq<TaskView>) -> nat {
    visible(todos, TodoFilter::Active).len()
}

/// The key under which the container holds the list.
pub open spec fn list_path(container: PathView) -> PathView {
    container.push("todolist"@)
}

impl TodoFilter {
    /// Whether the filter lets through a task that is completed, or is not.
    pub fn passes(&self, completed: bool) -> (r: bool)
        ensures
            forall|t: TaskView| t.completed == completed ==> r == #[trigger] passes(*self, t),
    {
        match self {
            TodoFilter::All => true,
            TodoFilter::Active => !completed,
            TodoFilter::Completed => completed,
        }
    }
}

/// The tasks of `todos` that `filter` lets through, in their order.
pub fn visible_tasks(todos: &Vec<Task>, filter: TodoFilter) -> (r: Vec<Task>)
    ensures
        tasks_view(r@) == visible(tasks_view(todos@), filter),
{
    let ghost keep = |t: TaskView| passes(filter, t);
    let mut r: Vec<Task> = Vec::new();
    let mut i: usize = 0;
    proof {
        selection_push(Seq::empty(), keep, arbitrary());
        assert(tasks_view(todos@.take(0)) =~= Seq::<TaskView>::empty());
        assert(tasks_view(r@) =~= Seq::<TaskView>::empty());
    }
    while i < todos.len()
        invariant
            i <= todos.len(),
            keep == (|t: TaskView| passes(filter, t)),
            tasks_view(r@) == tasks_view(todos@.take(i as int)).filter(keep),
        decreases todos.len() - i,
    {
        let ghost kept = r@;
        proof {
            let front = todos@.take(i as int);
            assert(todos@.take(i + 1) =~= front.push(todos[i as int]));
            assert(tasks_view(front.push(todos[i as int])) =~= tasks_view(front).push(
                todos[i as int]@,
            ));
            selection_push(tasks_view(front), keep, todos[i as int]@);
        }
        if filter.passes(todos[i].completed) {
            r.push(todos[i].clone());
            assert(tasks_view(r@) =~= tasks_view(kept).push(todos[i as int]@));
        }
        i += 1;
    }
    assert(todos@.take(todos.len() as int) =~= todos@);
    r
}

/// How many of `todos` are open.
pub fn count_active(todos: &Vec<Task>) -> (r: usize)
    ensures
        r == active_count(tasks_view(todos@)),
        r <= todos.len(),
{
    let ghost keep = |t: TaskView| passes(TodoFilter::Active, t);
    let mut r: usize = 0;
    let mut i: usize = 0;
    proof {
        selection_push(Seq::empty(), keep, arbitrary());
        assert(tasks_view(todos@.take(0)) =~= Seq::<TaskView>::empty());
    }
    while i < todos.len()
        invariant
            i <= todos.len(),
            r <= i,
            keep == (|t: TaskView| passes(TodoFilter::Active, t)),
            r == tasks_view(todos@.take(i as int)).filter(keep).len(),
        decreases todos.len() - i,
    {
        proof {
            let front = todos@.take(i as int);
            assert(todos@.take(i + 1) =~= front.push(todos[i as int]));
            assert(tasks_view(front.push(todos[i as int])) =~= tasks_view(front).push(
                todos[i as int]@,
            ));
            selection_push(tasks_view(front), keep, todos[i as int]@);
        }
        if !todos[i].completed {
            r += 1;
        }
        i += 1;
    }
    assert(todos@.take(todos.len() as int) =~= todos@);
    r
}

/// The part of the page that is shown while there are tasks: the
/// "toggle all" checkbox and the list.
#[derive(Debug, Clone, PartialEq, Eq)]
pub struct MainView {
    /// Whether the "toggle all" checkbox is drawn as checked.
    pub toggle_all_checked: bool,
    pub list: TodolistView,
}

pub struct MainViewView {
    pub toggle_all_checked: bool,
    pub list: Seq<KeyedRowView>,
}

impl View for MainView {
    type V = MainViewView;

    open spec fn view(&self) -> MainViewView {
        MainViewView { toggle_all_checked: self.toggle_all_checked, list: self.list@ }
    }
}

/// The rendered page.
#[derive(Debug, Clone, PartialEq, Eq)]
pub struct ContainerView {
    /// The container's state as it was rendered. Its `new_todo` is what
    /// the "new todo" box shows.
    pub state: AppState,
    /// The container's place in the state tree.
    pub cursor: Vec<String>,
    /// The list with its checkbox; absent while there is no task.
    pub main: Option<MainView>,
    /// The footer; absent while there is no task.
    pub footer: Option<FooterView>,
}

pub struct ContainerViewView {
    pub state: AppStateView,
    pub cursor: PathView,
    pub main: Option<MainViewView>,
    pub footer: Option<FooterViewView>,
}

impl View for ContainerView {
    type V = ContainerViewView;

    open spec fn view(&self) -> ContainerViewView {
        ContainerViewView {
            state: self.state@,
            cursor: self.cursor.deep_view(),
            main: match self.main {
                Some(m) => Some(m@),
                None => None,
            },
            footer: match self.footer {
                Some(f) => Some(f@),
                None => None,
            },
        }
    }
}

/// The state that the container reads from a tree.
pub open spec fn app_state(tree: Map<PathView, StateValueView>) -> AppStateView {
    read_as::<AppState>(node_at(tree, Seq::empty()))
}

/// The page that a store is rendered as.
pub open spec fn page_of(s: StoreView) -> ContainerViewView {
    let state = app_state(s.states);
    let root = Seq::<Seq<char>>::empty();
    let active = active_count(s.todos);
    ContainerViewView {
        state,
        cursor: root,
        main: if s.todos.len() == 0 {
            None
        } else {
            Some(
                MainViewView {
                    toggle_all_checked: active != 0,
                    list: rows_for(s.states, list_path(root), visible(s.todos, state.now_showing)),
                },
            )
        },
        footer: if s.todos.len() == 0 {
            None
        } else {
            Some(
                FooterViewView {
                    count: active,
                    now_showing: state.now_showing,
                    clear_button: s.todos.len() - active > 0,
                    on_filter: OnFilterView { cursor: root, state },
                },
            )
        },
    }
}

impl ContainerViewView {
    /// What a key pressed in the "new todo" box asks for, given the id
    /// that a new task would get: on Enter, with a text that is not blank,
    /// add the task and then empty the box; else nothing.
    pub open spec fn keydown_actions(self, key_code: u32, id: Seq<char>) -> Seq<ActionView> {
        if key_code == KEY_ENTER && !blank(self.state.new_todo) {
            seq![
                ActionView::AddTodo(id, self.state.new_todo),
                write_at(
                    self.cursor,
                    <AppState as LocalState>::encoded(
                        AppStateView { new_todo: Seq::empty(), ..self.state },
                    ),
                ),
            ]
        } else {
            Seq::empty()
        }
    }

    /// What a change of the text in the "new todo" box asks for: keep the
    /// text as the container's state.
    pub open spec fn input_actions(self, value: Seq<char>) -> Seq<ActionView> {
        seq![
            write_at(
                self.cursor,
                <AppState as LocalState>::encoded(AppStateView { new_todo: value, ..self.state }),
            ),
        ]
    }
}

impl ContainerView {
    /// A key was pressed in the "new todo" box, and `id` is the id for a
    /// new task.
    pub fn keydown_with_id(&self, key_code: u32, id: String) -> (r: Vec<ActionOp>)
        ensures
            actions_view(r@) == self@.keydown_actions(key_code, id@),
    {
        let mut r: Vec<ActionOp> = Vec::new();
        if key_code == KEY_ENTER && !is_blank(self.state.new_todo.as_str()) {
            r.push(ActionOp::AddTodo(id, self.state.new_todo.clone()));
            let state = AppState { now_showing: self.state.now_showing, new_todo: String::new() };
            r.push(ActionOp::build_states_action(&self.cursor, Some(state.encode())));
        }
        assert(actions_view(r@) =~= self@.keydown_actions(key_code, id@));
        r
    }

    /// A key was pressed in the "new todo" box. A new task gets a fresh
    /// random id.
    pub fn on_keydown(&self, key_code: u32) -> (r: Vec<ActionOp>)
        ensures
            exists|id: Seq<char>|
                id.len() == crate::ident::ID_LENGTH && actions_view(r@)
                    == #[trigger] self@.keydown_actions(key_code, id),
    {
        let id = random_id();
        let r = self.keydown_with_id(key_code, id);
        assert(actions_view(r@) == self@.keydown_actions(key_code, id@));
        r
    }

    /// The text in the "new todo" box changed.
    pub fn on_input(&self, value: String) -> (r: Vec<ActionOp>)
        ensures
            actions_view(r@) == self@.input_actions(value@),
    {
        let mut r: Vec<ActionOp> = Vec::new();
        let state = AppState { now_showing: self.state.now_showing, new_todo: value };
        r.push(ActionOp::build_states_action(&self.cursor, Some(state.encode())));
        assert(actions_view(r@) =~= self@.input_actions(value@));
        r
    }

    /// The "toggle all" checkbox was changed.
    pub fn on_toggle_all(&self) -> (r: Vec<ActionOp>)
        ensures
            actions_view(r@) == seq![ActionView::ToggleAll],
    {
        let mut r: Vec<ActionOp> = Vec::new();
        r.push(ActionOp::ToggleAll);
        assert(actions_view(r@) =~= seq![ActionView::ToggleAll]);
        r
    }
}

/// Renders the store.
pub fn comp_container(store: &Store) -> (r: ContainerView)
    ensures
        r@ == page_of(store@),
{
    let states = store.states.root();
    let cursor = states.path();
    let state = states.read::<AppState>();
    let active_todo_count = count_active(&store.todos);
    let completed_count = store.todos.len() - active_todo_count;
    let main = if store.todos.len() == 0 {
        None
    } else {
        let todos = visible_tasks(&store.todos, state.now_showing);
        Some(
            MainView {
                toggle_all_checked: active_todo_count != 0,
                list: comp_todolist(&states.pick("todolist"), &todos),
            },
        )
    };
    let footer = if active_todo_count > 0 || completed_count > 0 {
        let on_filter = OnFilter { cursor: copy_path(&cursor), state: state.clone() };
        Some(
            comp_footer(
                active_todo_count,
                completed_count,
                state.now_showing,
                OnClearCompleted,
                on_filter,
            ),
        )
    } else {
        None
    };
    ContainerView { state, cursor, main, footer }
}

} // verus!
