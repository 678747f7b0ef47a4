use todomvc::local_state::{AppState, LocalState, StateValue, TaskState, TodolistState};
use todomvc::state_tree::{copy_path, same_path, StateNode, StateTree};
use todomvc::store::TodoFilter;

fn segs(segments: &[&str]) -> Vec<String> {
    segments.iter().map(|s| s.to_string()).collect()
}

fn draft(text: &str) -> StateValue {
    StateValue::Task(TaskState { edit_text: text.to_string() })
}

#[test]
fn same_path_compares_segment_by_segment() {
    assert!(same_path(&segs(&[]), &segs(&[])));
    assert!(same_path(&segs(&["a", "b"]), &segs(&["a", "b"])));
    assert!(!same_path(&segs(&["a", "b"]), &segs(&["a"])));
    assert!(!same_path(&segs(&["a", "b"]), &segs(&["a", "c"])));
    assert!(!same_path(&segs(&["ab"]), &segs(&["a", "b"])));
}

#[test]
fn copy_path_copies() {
    assert_eq!(copy_path(&segs(&["todolist", "1"])), segs(&["todolist", "1"]));
    assert_eq!(copy_path(&segs(&[])), segs(&[]));
}

#[test]
fn empty_tree_holds_nothing() {
    let tree = StateTree::new();
    assert_eq!(tree.get(&segs(&[])), None);
    assert_eq!(tree.get(&segs(&["todolist"])), None);
    assert!(tree.to_entries().is_empty());
}

#[test]
fn set_then_get_gives_the_value() {
    let mut tree = StateTree::new();
    tree.set(segs(&["todolist", "1"]), draft("one"));
    tree.set(segs(&["todolist", "2"]), draft("two"));
    assert_eq!(tree.get(&segs(&["todolist", "1"])), Some(&draft("one")));
    assert_eq!(tree.get(&segs(&["todolist", "2"])), Some(&draft("two")));
    assert_eq!(tree.get(&segs(&["todolist"])), None);
    assert_eq!(tree.get(&segs(&["todolist", "1", "x"])), None);
}

#[test]
fn set_overwrites_in_place() {
    let mut tree = StateTree::new();
    tree.set(segs(&["a"]), draft("one"));
    tree.set(segs(&["b"]), draft("two"));
    tree.set(segs(&["a"]), draft("three"));
    assert_eq!(tree.get(&segs(&["a"])), Some(&draft("three")));
    assert_eq!(
        tree.to_entries(),
        vec![
            StateNode { path: segs(&["a"]), value: draft("three") },
            StateNode { path: segs(&["b"]), value: draft("two") },
        ]
    );
}

#[test]
fn clear_removes_one_node() {
    let mut tree = StateTree::new();
    tree.set(segs(&["a"]), draft("one"));
    tree.set(segs(&["b"]), draft("two"));
    tree.clear(&segs(&["a"]));
    assert_eq!(tree.get(&segs(&["a"])), None);
    assert_eq!(tree.get(&segs(&["b"])), Some(&draft("two")));
    tree.clear(&segs(&["zz"]));
    assert_eq!(tree.to_entries(), vec![StateNode { path: segs(&["b"]), value: draft("two") }]);
}

#[test]
fn root_has_the_empty_path_and_pick_appends() {
    let tree = StateTree::new();
    let root = tree.root();
    assert_eq!(root.path(), segs(&[]));
    let list = root.pick("todolist");
    assert_eq!(list.path(), segs(&["todolist"]));
    let row = list.pick("42");
    assert_eq!(row.path(), segs(&["todolist", "42"]));
    assert_eq!(root.path(), segs(&[]));
}

#[test]
fn read_of_an_absent_node_is_the_default() {
    let tree = StateTree::new();
    let root = tree.root();
    assert_eq!(
        root.read::<AppState>(),
        AppState { now_showing: TodoFilter::All, new_todo: String::new() }
    );
    assert_eq!(root.pick("todolist").read::<TodolistState>(), TodolistState { editing: None });
    assert_eq!(
        root.pick("todolist").pick("1").read::<TaskState>(),
        TaskState { edit_text: String::new() }
    );
}

#[test]
fn read_gives_what_was_written() {
    let mut tree = StateTree::new();
    let app = AppState { now_showing: TodoFilter::Completed, new_todo: "milk".to_string() };
    tree.set(segs(&[]), app.clone().encode());
    tree.set(segs(&["todolist"]), TodolistState { editing: Some("1".to_string()) }.encode());
    tree.set(segs(&["todolist", "1"]), draft("one"));
    let root = tree.root();
    assert_eq!(root.read::<AppState>(), app);
    assert_eq!(
        root.pick("todolist").read::<TodolistState>(),
        TodolistState { editing: Some("1".to_string()) }
    );
    assert_eq!(
        root.pick("todolist").pick("1").read::<TaskState>(),
        TaskState { edit_text: "one".to_string() }
    );
}

#[test]
fn read_of_another_components_state_is_the_default() {
    let mut tree = StateTree::new();
    tree.set(segs(&["todolist"]), draft("not a list state"));
    let list = tree.root().pick("todolist");
    assert_eq!(list.read::<TodolistState>(), TodolistState::default());
    assert_eq!(list.read::<AppState>(), AppState::default());
    assert_eq!(list.read::<TaskState>(), TaskState { edit_text: "not a list state".to_string() });
}

#[test]
fn defaults_are_the_initial_values() {
    assert_eq!(
        AppState::default(),
        AppState { now_showing: TodoFilter::All, new_todo: String::new() }
    );
    assert_eq!(TodolistState::default(), TodolistState { editing: None });
    assert_eq!(TaskState::default(), TaskState { edit_text: String::new() });
    assert_eq!(AppState::fallback(), AppState::default());
    assert_eq!(TodolistState::fallback(), TodolistState::default());
    assert_eq!(TaskState::fallback(), TaskState::default());
}

#[test]
fn decode_undoes_encode_and_refuses_other_tags() {
    let app = AppState { now_showing: TodoFilter::Active, new_todo: "x".to_string() };
    let list = TodolistState { editing: Some("7".to_string()) };
    let row = TaskState { edit_text: "y".to_string() };
    assert_eq!(AppState::decode(&app.clone().encode()), Some(app.clone()));
    assert_eq!(TodolistState::decode(&list.clone().encode()), Some(list.clone()));
    assert_eq!(TaskState::decode(&row.clone().encode()), Some(row.clone()));
    assert_eq!(AppState::decode(&list.clone().encode()), None);
    assert_eq!(AppState::decode(&row.clone().encode()), None);
    assert_eq!(TodolistState::decode(&app.clone().encode()), None);
    assert_eq!(TodolistState::decode(&row.encode()), None);
    assert_eq!(TaskState::decode(&app.encode()), None);
    assert_eq!(TaskState::decode(&list.encode()), None);
}

#[test]
fn entries_round_trip() {
    let mut tree = StateTree::new();
    tree.set(segs(&[]), AppState::default().encode());
    tree.set(segs(&["todolist", "1"]), draft("one"));
    let entries = tree.to_entries();
    assert_eq!(entries.len(), 2);
    assert_eq!(StateTree::from_entries(entries), Ok(tree.clone()));
    assert_eq!(tree.clone(), tree);
}

#[test]
fn from_entries_refuses_a_repeated_path() {
    let entries = vec![
        StateNode { path: segs(&["a"]), value: draft("1") },
        StateNode { path: segs(&["b"]), value: draft("2") },
        StateNode { path: segs(&["c"]), value: draft("3") },
        StateNode { path: segs(&["b"]), value: draft("4") },
        StateNode { path: segs(&["a"]), value: draft("5") },
    ];
    assert_eq!(StateTree::from_entries(entries), Err(segs(&["b"])));
}
