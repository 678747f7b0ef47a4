use todomvc::container::{comp_container, count_active, visible_tasks, ContainerView};
use todomvc::dispatcher::ActionDispatcher;
use todomvc::footer::{comp_footer, OnClearCompleted, OnFilter};
use todomvc::ident::ID_LENGTH;
use todomvc::local_state::{AppState, LocalState, TaskState, TodolistState};
use todomvc::state_tree::StateTree;
use todomvc::store::{ActionOp, StatePatch, Store, Task, TodoFilter};
use todomvc::task::{
    comp_task, EditMode, EditingState, EffectRequest, EffectStage, Gesture, TaskRow, KEY_ENTER,
    KEY_ESCAPE,
};
use todomvc::todolist::{comp_todolist, OnCancel, OnEdit};

fn entry(id: &str, title: &str, completed: bool) -> Task {
    Task { id: id.to_string(), completed, title: title.to_string() }
}

fn place(segments: &[&str]) -> Vec<String> {
    segments.iter().map(|s| s.to_string()).collect()
}

fn write(cursor: &[&str], value: todomvc::local_state::StateValue) -> ActionOp {
    ActionOp::StatesChange(StatePatch { cursor: place(cursor), data: Some(value) })
}

fn clear(cursor: &[&str]) -> ActionOp {
    ActionOp::StatesChange(StatePatch { cursor: place(cursor), data: None })
}

fn abc_store() -> Store {
    let mut store = Store::new();
    store.todos = vec![entry("A", "a", false), entry("B", "b", true), entry("C", "c", false)];
    store
}

fn row_of(page: &ContainerView, id: &str) -> Option<TaskRow> {
    let main = page.main.as_ref()?;
    main.list.children.iter().find(|c| c.key == id).map(|c| c.row.clone())
}

fn keys_of(page: &ContainerView) -> Vec<String> {
    match &page.main {
        Some(main) => main.list.children.iter().map(|c| c.key.clone()).collect(),
        None => vec![],
    }
}

#[test]
fn filter_passes() {
    assert!(TodoFilter::All.passes(true));
    assert!(TodoFilter::All.passes(false));
    assert!(TodoFilter::Active.passes(false));
    assert!(!TodoFilter::Active.passes(true));
    assert!(TodoFilter::Completed.passes(true));
    assert!(!TodoFilter::Completed.passes(false));
}

#[test]
fn visible_tasks_keeps_order() {
    let todos = abc_store().todos;
    assert_eq!(visible_tasks(&todos, TodoFilter::All), todos);
    assert_eq!(
        visible_tasks(&todos, TodoFilter::Active),
        vec![entry("A", "a", false), entry("C", "c", false)]
    );
    assert_eq!(visible_tasks(&todos, TodoFilter::Completed), vec![entry("B", "b", true)]);
    assert_eq!(visible_tasks(&vec![], TodoFilter::Active), vec![]);
}

#[test]
fn count_active_counts_open_tasks() {
    assert_eq!(count_active(&abc_store().todos), 2);
    assert_eq!(count_active(&vec![]), 0);
    assert_eq!(count_active(&vec![entry("x", "x", true)]), 0);
}

#[test]
fn empty_store_renders_the_box_only() {
    let page = comp_container(&Store::new());
    assert_eq!(page.state, AppState::default());
    assert_eq!(page.cursor, place(&[]));
    assert_eq!(page.main, None);
    assert_eq!(page.footer, None);
}

#[test]
fn store_with_tasks_renders_list_and_footer() {
    let page = comp_container(&abc_store());
    let main = page.main.as_ref().unwrap();
    assert!(main.toggle_all_checked);
    assert_eq!(keys_of(&page), vec!["A", "B", "C"]);
    for child in &main.list.children {
        assert_eq!(child.row.cursor, place(&["todolist", child.key.as_str()]));
        assert_eq!(child.row.task.id, child.key);
        assert!(!child.row.editing);
        assert_eq!(child.row.state, TaskState::default());
        assert_eq!(child.row.on_edit, OnEdit { cursor: place(&["todolist"]) });
        assert_eq!(child.row.on_cancel, OnCancel { cursor: place(&["todolist"]) });
        assert_eq!(child.row.effect, EditingState { editing: false });
    }
    let footer = page.footer.as_ref().unwrap();
    assert_eq!(footer.count, 2);
    assert_eq!(footer.now_showing, TodoFilter::All);
    assert_eq!(footer.clear_button, Some(OnClearCompleted));
    assert_eq!(footer.on_filter, OnFilter { cursor: place(&[]), state: AppState::default() });
}

#[test]
fn toggle_all_box_is_unchecked_when_nothing_is_open() {
    let mut store = Store::new();
    store.todos = vec![entry("A", "a", true)];
    let page = comp_container(&store);
    assert!(!page.main.as_ref().unwrap().toggle_all_checked);
    assert_eq!(page.footer.as_ref().unwrap().count, 0);
}

#[test]
fn container_shows_what_the_filter_lets_through() {
    let mut store = abc_store();
    store
        .update(write(
            &[],
            AppState { now_showing: TodoFilter::Completed, new_todo: String::new() }.encode(),
        ))
        .unwrap();
    let page = comp_container(&store);
    assert_eq!(keys_of(&page), vec!["B"]);
    assert_eq!(page.footer.as_ref().unwrap().now_showing, TodoFilter::Completed);
    assert_eq!(page.footer.as_ref().unwrap().count, 2);
}

#[test]
fn row_state_survives_filtering_away_and_back() {
    let mut dispatcher = ActionDispatcher::new(abc_store());
    dispatcher
        .submit_state_at(
            &place(&["todolist", "B"]),
            TaskState { edit_text: "half typed".to_string() },
        )
        .unwrap();

    let all = comp_container(dispatcher.store());
    assert_eq!(keys_of(&all), vec!["A", "B", "C"]);
    let before = row_of(&all, "B").unwrap();
    assert_eq!(before.state.edit_text, "half typed");

    let to_completed = all.footer.as_ref().unwrap().click_filter(TodoFilter::Completed);
    dispatcher.submit_all(to_completed).unwrap();
    let filtered = comp_container(dispatcher.store());
    assert_eq!(keys_of(&filtered), vec!["B"]);
    assert_eq!(row_of(&filtered, "B").unwrap(), before);

    let to_all = filtered.footer.as_ref().unwrap().click_filter(TodoFilter::All);
    dispatcher.submit_all(to_all).unwrap();
    let back = comp_container(dispatcher.store());
    assert_eq!(keys_of(&back), vec!["A", "B", "C"]);
    assert_eq!(row_of(&back, "B").unwrap(), before);
    assert_eq!(row_of(&back, "B").unwrap().state.edit_text, "half typed");
}

#[test]
fn row_state_follows_the_key_when_a_task_before_it_goes() {
    let mut dispatcher = ActionDispatcher::new(abc_store());
    dispatcher
        .submit_state_at(&place(&["todolist", "C"]), TaskState { edit_text: "mine".to_string() })
        .unwrap();
    dispatcher.submit(ActionOp::Destroy("A".to_string())).unwrap();
    let page = comp_container(dispatcher.store());
    assert_eq!(keys_of(&page), vec!["B", "C"]);
    assert_eq!(row_of(&page, "C").unwrap().state.edit_text, "mine");
    assert_eq!(row_of(&page, "B").unwrap().state.edit_text, "");
}

#[test]
fn todolist_marks_the_row_being_edited() {
    let mut tree = StateTree::new();
    tree.set(place(&["list"]), TodolistState { editing: Some("B".to_string()) }.encode());
    let list = comp_todolist(&tree.root().pick("list"), &abc_store().todos);
    let editing: Vec<bool> = list.children.iter().map(|c| c.row.editing).collect();
    assert_eq!(editing, vec![false, true, false]);
    let cursors: Vec<Vec<String>> = list.children.iter().map(|c| c.row.cursor.clone()).collect();
    assert_eq!(cursors, vec![place(&["list", "A"]), place(&["list", "B"]), place(&["list", "C"])]);
    assert_eq!(list.children[1].row.effect, EditingState { editing: true });
}

#[test]
fn comp_task_reads_its_own_state() {
    let mut tree = StateTree::new();
    tree.set(place(&["todolist", "1"]), TaskState { edit_text: "draft".to_string() }.encode());
    let row = comp_task(
        tree.root().pick("todolist").pick("1"),
        &entry("1", "one", true),
        true,
        OnEdit { cursor: place(&["todolist"]) },
        OnCancel { cursor: place(&["todolist"]) },
    );
    assert_eq!(row.task, entry("1", "one", true));
    assert!(row.editing);
    assert_eq!(row.mode(), EditMode::Editing);
    assert_eq!(row.state, TaskState { edit_text: "draft".to_string() });
    assert_eq!(row.cursor, place(&["todolist", "1"]));
    assert_eq!(row.effect, EditingState { editing: true });
}

fn sample_row() -> TaskRow {
    let mut tree = StateTree::new();
    tree.set(place(&["todolist", "1"]), TaskState { edit_text: "draft".to_string() }.encode());
    comp_task(
        tree.root().pick("todolist").pick("1"),
        &entry("1", "one", false),
        false,
        OnEdit { cursor: place(&["todolist"]) },
        OnCancel { cursor: place(&["todolist"]) },
    )
}

#[test]
fn row_handlers_ask_for_the_right_actions() {
    let row = sample_row();
    assert_eq!(row.mode(), EditMode::Viewing);
    assert_eq!(row.on_toggle(), vec![ActionOp::Toggle("1".to_string())]);
    assert_eq!(row.on_destroy(), vec![ActionOp::Destroy("1".to_string())]);
    assert_eq!(
        row.handle_change("new".to_string()),
        vec![write(&["todolist", "1"], TaskState { edit_text: "new".to_string() }.encode())]
    );
    let submit =
        vec![ActionOp::Save("1".to_string(), "draft".to_string()), clear(&["todolist"])];
    assert_eq!(row.handle_submit(), submit);
    assert_eq!(row.handle_blur(), submit);
    assert_eq!(row.handle_keydown(KEY_ENTER), submit);
    assert_eq!(row.handle_keydown(13), submit);
    assert_eq!(row.handle_keydown(KEY_ESCAPE), vec![clear(&["todolist"])]);
    assert_eq!(row.handle_keydown(27), vec![clear(&["todolist"])]);
    assert_eq!(row.handle_keydown(65), vec![]);
    assert_eq!(
        row.handle_edit(),
        vec![
            write(&["todolist"], TodolistState { editing: Some("1".to_string()) }.encode()),
            write(&["todolist", "1"], TaskState { edit_text: "one".to_string() }.encode()),
        ]
    );
    assert_eq!(row.on_gesture(Gesture::BeginEdit), row.handle_edit());
    assert_eq!(row.on_gesture(Gesture::Confirm), submit);
    assert_eq!(row.on_gesture(Gesture::Blur), submit);
    assert_eq!(row.on_gesture(Gesture::Cancel), vec![clear(&["todolist"])]);
}

#[test]
fn list_callbacks_ask_for_the_right_actions() {
    let on_edit = OnEdit { cursor: place(&["todolist"]) };
    assert_eq!(
        on_edit.call("9".to_string()),
        vec![write(&["todolist"], TodolistState { editing: Some("9".to_string()) }.encode())]
    );
    let on_cancel = OnCancel { cursor: place(&["todolist"]) };
    assert_eq!(on_cancel.call(), vec![clear(&["todolist"])]);
}

#[test]
fn edit_mode_steps() {
    assert_eq!(EditMode::Viewing.next(Gesture::BeginEdit), EditMode::Editing);
    assert_eq!(EditMode::Editing.next(Gesture::Confirm), EditMode::Viewing);
    assert_eq!(EditMode::Editing.next(Gesture::Blur), EditMode::Viewing);
    assert_eq!(EditMode::Editing.next(Gesture::Cancel), EditMode::Viewing);
    assert_eq!(EditMode::Editing.next(Gesture::BeginEdit), EditMode::Editing);
    assert_eq!(EditMode::Viewing.next(Gesture::Cancel), EditMode::Viewing);
}

#[test]
fn editing_begins_is_committed_and_closes() {
    let mut dispatcher = ActionDispatcher::new(abc_store());
    let page = comp_container(dispatcher.store());
    let row = row_of(&page, "B").unwrap();
    assert_eq!(row.mode(), EditMode::Viewing);

    dispatcher.submit_all(row.on_gesture(Gesture::BeginEdit)).unwrap();
    let page = comp_container(dispatcher.store());
    let row = row_of(&page, "B").unwrap();
    assert_eq!(row.mode(), EditMode::Editing);
    assert_eq!(row.state.edit_text, "b");
    assert_eq!(row_of(&page, "A").unwrap().mode(), EditMode::Viewing);
    assert_eq!(row_of(&page, "C").unwrap().mode(), EditMode::Viewing);

    dispatcher.submit_all(row.handle_change("bee".to_string())).unwrap();
    let page = comp_container(dispatcher.store());
    let row = row_of(&page, "B").unwrap();
    assert_eq!(row.state.edit_text, "bee");
    assert_eq!(row.task.title, "b");

    assert_eq!(dispatcher.submit_all(row.handle_keydown(KEY_ENTER)), Ok(()));
    let page = comp_container(dispatcher.store());
    let row = row_of(&page, "B").unwrap();
    assert_eq!(row.mode(), EditMode::Viewing);
    assert_eq!(row.task, entry("B", "bee", true));
    assert_eq!(
        dispatcher.store().todos,
        vec![entry("A", "a", false), entry("B", "bee", true), entry("C", "c", false)]
    );
}

#[test]
fn editing_is_abandoned_without_saving() {
    let mut dispatcher = ActionDispatcher::new(abc_store());
    let row = row_of(&comp_container(dispatcher.store()), "A").unwrap();
    dispatcher.submit_all(row.handle_edit()).unwrap();
    let row = row_of(&comp_container(dispatcher.store()), "A").unwrap();
    dispatcher.submit_all(row.handle_change("changed".to_string())).unwrap();
    let row = row_of(&comp_container(dispatcher.store()), "A").unwrap();
    assert!(row.editing);

    assert_eq!(dispatcher.submit_all(row.handle_keydown(KEY_ESCAPE)), Ok(()));
    let row = row_of(&comp_container(dispatcher.store()), "A").unwrap();
    assert!(!row.editing);
    assert_eq!(row.task.title, "a");
    assert_eq!(dispatcher.store().todos, abc_store().todos);
}

#[test]
fn commit_for_a_task_that_is_gone_fails_and_leaves_editing_open() {
    let mut dispatcher = ActionDispatcher::new(abc_store());
    let row = row_of(&comp_container(dispatcher.store()), "C").unwrap();
    dispatcher.submit_all(row.handle_edit()).unwrap();
    let stale = row_of(&comp_container(dispatcher.store()), "C").unwrap();
    dispatcher.submit(ActionOp::Destroy("C".to_string())).unwrap();
    let before = dispatcher.store().clone();

    assert_eq!(dispatcher.submit_all(stale.handle_submit()), Err("task C not found".to_string()));
    assert_eq!(dispatcher.store(), &before);
    assert_eq!(
        dispatcher.store().states.root().pick("todolist").read::<TodolistState>(),
        TodolistState { editing: Some("C".to_string()) }
    );
}

#[test]
fn effect_asks_for_focus_when_editing_begins_only() {
    let viewing = EditingState { editing: false };
    let editing = EditingState { editing: true };
    assert_eq!(editing.rerendered(&viewing), Some(EffectRequest::FocusEditBox));
    assert_eq!(editing.rerendered(&editing), None);
    assert_eq!(viewing.rerendered(&editing), None);
    assert_eq!(viewing.rerendered(&viewing), None);

    assert_eq!(editing.updated(), Some(EffectRequest::FocusEditBox));
    assert_eq!(viewing.updated(), None);
    assert_eq!(editing.run(EffectStage::Updated), Some(EffectRequest::FocusEditBox));
    assert_eq!(editing.run(EffectStage::Mounted), None);
    assert_eq!(editing.run(EffectStage::BeforeUpdate), None);
    assert_eq!(editing.run(EffectStage::BeforeUnmount), None);
    assert_eq!(viewing.run(EffectStage::Updated), None);
}

#[test]
fn footer_shows_the_clear_button_when_something_is_completed() {
    let link = OnFilter {
        cursor: place(&[]),
        state: AppState { now_showing: TodoFilter::Active, new_todo: "typing".to_string() },
    };
    let footer = comp_footer(3, 0, TodoFilter::Active, OnClearCompleted, link);
    assert_eq!(footer.count, 3);
    assert_eq!(footer.clear_button, None);
    assert!(footer.is_selected(TodoFilter::Active));
    assert!(!footer.is_selected(TodoFilter::All));
    assert!(!footer.is_selected(TodoFilter::Completed));
    assert_eq!(footer.click_clear_completed(), vec![]);
    assert_eq!(
        footer.click_filter(TodoFilter::Completed),
        vec![write(
            &[],
            AppState { now_showing: TodoFilter::Completed, new_todo: "typing".to_string() }
                .encode()
        )]
    );

    let link = OnFilter { cursor: place(&[]), state: AppState::default() };
    let footer = comp_footer(0, 2, TodoFilter::All, OnClearCompleted, link);
    assert_eq!(footer.clear_button, Some(OnClearCompleted));
    assert_eq!(footer.click_clear_completed(), vec![ActionOp::ClearCompleted]);
    assert_eq!(OnClearCompleted.call(), vec![ActionOp::ClearCompleted]);
}

#[test]
fn typing_is_kept_as_state() {
    let page = comp_container(&Store::new());
    assert_eq!(
        page.on_input("Buy m".to_string()),
        vec![write(
            &[],
            AppState { now_showing: TodoFilter::All, new_todo: "Buy m".to_string() }.encode()
        )]
    );
    assert_eq!(page.on_toggle_all(), vec![ActionOp::ToggleAll]);
}

#[test]
fn enter_adds_the_typed_task_and_empties_the_box() {
    let mut store = Store::new();
    store
        .update(write(
            &[],
            AppState { now_showing: TodoFilter::Active, new_todo: "Buy milk".to_string() }
                .encode(),
        ))
        .unwrap();
    let page = comp_container(&store);
    assert_eq!(page.state.new_todo, "Buy milk");
    assert_eq!(
        page.keydown_with_id(KEY_ENTER, "id-1".to_string()),
        vec![
            ActionOp::AddTodo("id-1".to_string(), "Buy milk".to_string()),
            write(
                &[],
                AppState { now_showing: TodoFilter::Active, new_todo: String::new() }.encode()
            ),
        ]
    );
    assert_eq!(page.keydown_with_id(65, "id-1".to_string()), vec![]);
    assert_eq!(page.keydown_with_id(KEY_ESCAPE, "id-1".to_string()), vec![]);
}

#[test]
fn enter_on_blank_text_adds_nothing() {
    for typed in ["", " ", " \t\n "] {
        let mut store = Store::new();
        store
            .update(write(
                &[],
                AppState { now_showing: TodoFilter::All, new_todo: typed.to_string() }.encode(),
            ))
            .unwrap();
        let page = comp_container(&store);
        assert_eq!(page.keydown_with_id(KEY_ENTER, "id-1".to_string()), vec![]);
        assert_eq!(page.on_keydown(KEY_ENTER), vec![]);
    }
}

#[test]
fn on_keydown_adds_with_a_fresh_id() {
    let mut dispatcher = ActionDispatcher::new(Store::new());
    let page = comp_container(dispatcher.store());
    dispatcher.submit_all(page.on_input("Buy milk".to_string())).unwrap();
    let page = comp_container(dispatcher.store());

    let first = page.on_keydown(KEY_ENTER);
    let second = page.on_keydown(KEY_ENTER);
    assert_eq!(first.len(), 2);
    let id_of = |actions: &Vec<ActionOp>| match &actions[0] {
        ActionOp::AddTodo(id, title) => {
            assert_eq!(title, "Buy milk");
            id.clone()
        }
        other => panic!("not an AddTodo: {:?}", other),
    };
    assert_eq!(id_of(&first).chars().count(), ID_LENGTH);
    assert_ne!(id_of(&first), id_of(&second));
    assert_eq!(first[1], page.keydown_with_id(KEY_ENTER, String::new())[1]);

    dispatcher.submit_all(first).unwrap();
    let page = comp_container(dispatcher.store());
    assert_eq!(page.state.new_todo, "");
    assert_eq!(dispatcher.store().todos.len(), 1);
    assert_eq!(dispatcher.store().todos[0].title, "Buy milk");
    assert!(!dispatcher.store().todos[0].completed);
    assert_eq!(page.on_keydown(65), vec![]);
}
