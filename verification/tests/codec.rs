use todomvc::codec::{DecodeError, Document};
use todomvc::local_state::{AppState, LocalState, StateValue, TaskState, TodolistState};
use todomvc::store::{Store, Task, TodoFilter};

fn todo(id: &str, title: &str, completed: bool) -> Task {
    Task { id: id.to_string(), completed, title: title.to_string() }
}

fn words(segments: &[&str]) -> Vec<String> {
    segments.iter().map(|s| s.to_string()).collect()
}

fn populated_store() -> Store {
    let mut store = Store::new();
    store.todos = vec![todo("1", "Buy \"milk\"", true), todo("2", "Walk the dog\n", false)];
    store.states.set(
        words(&[]),
        AppState { now_showing: TodoFilter::Active, new_todo: "typing…".to_string() }.encode(),
    );
    store.states.set(
        words(&["todolist"]),
        TodolistState { editing: Some("2".to_string()) }.encode(),
    );
    store
        .states
        .set(words(&["todolist", "2"]), TaskState { edit_text: "Walk the cat".to_string() }.encode());
    store.states.set(words(&["todolist", "1"]), TaskState { edit_text: String::new() }.encode());
    store
}

#[test]
fn round_trip_of_an_empty_store() {
    let store = Store::new();
    let text = store.to_string();
    assert_eq!(text, "[[],[]]");
    assert_eq!(Store::try_from_string(&text), Ok(store));
}

#[test]
fn round_trip_of_one_completed_and_one_active_task() {
    let mut store = Store::new();
    store.todos = vec![todo("1", "Buy milk", true), todo("2", "Walk the dog", false)];
    let text = store.to_string();
    assert_eq!(text, r#"[[["1",true,"Buy milk"],["2",false,"Walk the dog"]],[]]"#);
    assert_eq!(Store::try_from_string(&text), Ok(store));
}

#[test]
fn round_trip_of_a_store_with_nested_state() {
    let store = populated_store();
    let text = store.to_string();
    let back = Store::try_from_string(&text).unwrap();
    assert_eq!(back, store);
    assert_eq!(
        back.states.root().pick("todolist").pick("2").read::<TaskState>(),
        TaskState { edit_text: "Walk the cat".to_string() }
    );
    assert_eq!(back.to_string(), text);
}

#[test]
fn text_of_a_store_with_state() {
    let mut store = Store::new();
    store.todos = vec![todo("1", "Buy milk", false)];
    store.states.set(words(&[]), AppState::default().encode());
    store.states.set(
        words(&["todolist"]),
        TodolistState { editing: Some("1".to_string()) }.encode(),
    );
    store.states.set(words(&["todolist", "1"]), TaskState { edit_text: "x".to_string() }.encode());
    assert_eq!(
        store.to_string(),
        r#"[[["1",false,"Buy milk"]],[[[],"app",["all",""]],[["todolist"],"todolist",["1"]],[["todolist","1"],"task",["x"]]]]"#
    );
}

#[test]
fn reading_a_written_text() {
    let text = r#" [ [ ["7", true, "seven"] ], [ [["todolist"], "todolist", []] ] ] "#;
    let store = Store::try_from_string(text).unwrap();
    assert_eq!(store.todos, vec![todo("7", "seven", true)]);
    assert_eq!(
        store.states.get(&words(&["todolist"])),
        Some(&StateValue::Todolist(TodolistState { editing: None }))
    );
}

#[test]
fn malformed_text_is_an_error() {
    for text in ["", "not json", "{", "[[],[]", "{\"todos\":[]}", "[[[\"1\",\"yes\",\"t\"]],[]]", "[[]]"]
    {
        match Store::try_from_string(text) {
            Ok(store) => panic!("read {:?} from {:?}", store, text),
            Err(message) => {
                assert!(message.starts_with("parse store: "), "{}", message);
                assert!(message.len() > "parse store: ".len(), "{}", message);
            }
        }
    }
}

#[test]
fn syntax_error_carries_the_readers_words() {
    assert_eq!(
        Store::try_from_string(""),
        Err("parse store: EOF while parsing a value at line 1 column 0".to_string())
    );
}

#[test]
fn unknown_tag_is_an_error() {
    let text = r#"[[],[[["a"],"panel",["x"]]]]"#;
    assert_eq!(
        Store::try_from_string(text),
        Err("parse store: unknown state tag panel".to_string())
    );
}

#[test]
fn bad_fields_are_an_error() {
    for (text, tag) in [
        (r#"[[],[[[],"app",["all"]]]]"#, "app"),
        (r#"[[],[[[],"app",["some","x"]]]]"#, "app"),
        (r#"[[],[[[],"app",["all","x","y"]]]]"#, "app"),
        (r#"[[],[[["l"],"todolist",["1","2"]]]]"#, "todolist"),
        (r#"[[],[[["l","1"],"task",[]]]]"#, "task"),
        (r#"[[],[[["l","1"],"task",["a","b"]]]]"#, "task"),
    ] {
        assert_eq!(
            Store::try_from_string(text),
            Err(format!("parse store: malformed state under tag {}", tag))
        );
    }
}

#[test]
fn repeated_path_is_an_error() {
    let text = r#"[[],[[["a"],"task",["x"]],[["b"],"task",["y"]],[["a"],"task",["z"]]]]"#;
    assert_eq!(
        Store::try_from_string(text),
        Err("parse store: a state path occurs twice".to_string())
    );
}

#[test]
fn first_faulty_record_decides_the_error() {
    let text = r#"[[],[[["a"],"task",["x"]],[["a"],"task",["y"]],[["b"],"nope",[]]]]"#;
    assert_eq!(
        Store::try_from_string(text),
        Err("parse store: a state path occurs twice".to_string())
    );
    let text = r#"[[],[[["a"],"task",["x"]],[["b"],"nope",[]],[["a"],"task",["y"]]]]"#;
    assert_eq!(Store::try_from_string(text), Err("parse store: unknown state tag nope".to_string()));
}

#[test]
fn document_round_trip() {
    let store = populated_store();
    let doc = store.to_document();
    assert_eq!(doc.0.len(), 2);
    assert_eq!(doc.0[0], ("1".to_string(), true, "Buy \"milk\"".to_string()));
    assert_eq!(doc.1.len(), 4);
    assert_eq!(doc.1[0], (words(&[]), "app".to_string(), words(&["active", "typing…"])));
    assert_eq!(doc.1[1], (words(&["todolist"]), "todolist".to_string(), words(&["2"])));
    assert_eq!(Store::from_document(doc), Ok(store));
}

#[test]
fn from_document_reports_each_fault() {
    let doc: Document = (vec![], vec![(words(&["a"]), "panel".to_string(), vec![])]);
    assert_eq!(Store::from_document(doc), Err(DecodeError::UnknownTag("panel".to_string())));

    let doc: Document = (vec![], vec![(words(&["a"]), "task".to_string(), vec![])]);
    assert_eq!(Store::from_document(doc), Err(DecodeError::BadFields("task".to_string())));

    let doc: Document = (
        vec![],
        vec![
            (words(&["a", "b"]), "task".to_string(), words(&["x"])),
            (words(&["a", "b"]), "todolist".to_string(), vec![]),
        ],
    );
    assert_eq!(Store::from_document(doc), Err(DecodeError::RepeatedPath(words(&["a", "b"]))));
}

#[test]
fn decode_error_messages() {
    assert_eq!(DecodeError::UnknownTag("t".to_string()).message(), "unknown state tag t");
    assert_eq!(DecodeError::BadFields("app".to_string()).message(), "malformed state under tag app");
    assert_eq!(DecodeError::RepeatedPath(words(&["a"])).message(), "a state path occurs twice");
}

#[test]
fn state_records() {
    let app = AppState { now_showing: TodoFilter::Completed, new_todo: "n".to_string() }.encode();
    assert_eq!(app.to_record(), ("app".to_string(), words(&["completed", "n"])));
    assert_eq!(StateValue::from_record(&"app".to_string(), &words(&["completed", "n"])), Ok(app));

    let none = TodolistState { editing: None }.encode();
    assert_eq!(none.to_record(), ("todolist".to_string(), words(&[])));
    assert_eq!(StateValue::from_record(&"todolist".to_string(), &words(&[])), Ok(none));

    let some = TodolistState { editing: Some("3".to_string()) }.encode();
    assert_eq!(some.to_record(), ("todolist".to_string(), words(&["3"])));
    assert_eq!(StateValue::from_record(&"todolist".to_string(), &words(&["3"])), Ok(some));

    let row = TaskState { edit_text: "e".to_string() }.encode();
    assert_eq!(row.to_record(), ("task".to_string(), words(&["e"])));
    assert_eq!(StateValue::from_record(&"task".to_string(), &words(&["e"])), Ok(row));
}

#[test]
fn filter_names() {
    for (filter, name) in [
        (TodoFilter::All, "all"),
        (TodoFilter::Active, "active"),
        (TodoFilter::Completed, "completed"),
    ] {
        assert_eq!(filter.name(), name);
        assert_eq!(TodoFilter::from_name(&name.to_string()), Some(filter));
    }
    assert_eq!(TodoFilter::from_name(&"All".to_string()), None);
    assert_eq!(TodoFilter::from_name(&String::new()), None);
}
