//! The store as text, for keeping it between runs.
//!
//! A store is first laid out as a [`Document`]: plain records of strings
//! and booleans, one for each task and one for each node of the state
//! tree. The document is then written as JSON, and read back from JSON, by
//! `serde_json`. Reading is strict: a text that is no document, or a
//! document that is no store, is an error, never a store with defaults
//! filled in.

use vstd::prelude::*;
use vstd::string::*;

use crate::local_state::{
    AppState, AppStateView, StateValue, StateValueView, TaskState, TaskStateView, TodolistState,
    TodolistStateView,
};
use crate::state_tree::{copy_path, distinct_paths, has_path, tree_of, PathView, StateTree};
use crate::store::{Store, Task, TaskView, TodoFilter};

verus! {

/// A task as a record: id, completed, title.
pub type TaskRecord = (String, bool, String);

/// A node of the state tree as a record: path, tag, fields.
pub type StateRecord = (Vec<String>, String, Vec<String>);

/// A store as records: the tasks, then the nodes of the state tree.
pub type Document = (Vec<TaskRecord>, Vec<StateRecord>);

pub type TaskRecordView = (Seq<char>, bool, Seq<char>);

pub type StateRecordView = (Seq<Seq<char>>, Seq<char>, Seq<Seq<char>>);

pub type DocumentView = (Seq<TaskRecordView>, Seq<StateRecordView>);

/// A list of entries of a state tree, mathematically.
pub type EntriesView = Seq<(PathView, StateValueView)>;

pub open spec fn task_record_view(r: TaskRecord) -> TaskRecordView {
    (r.0@, r.1, r.2@)
}

pub open spec fn state_record_view(r: StateRecord) -> StateRecordView {
    (r.0.deep_view(), r.1@, r.2.deep_view())
}

/// What a document is, mathematically.
pub open spec fn document_view(doc: Document) -> DocumentView {
    (
        doc.0@.map_values(|r: TaskRecord| task_record_view(r)),
        doc.1@.map_values(|r: StateRecord| state_record_view(r)),
    )
}

/// The JSON text that `serde_json::to_string` writes for a document.
pub uninterp spec fn document_text(doc: DocumentView) -> Seq<char>;

/// The document that `serde_json::from_str` reads from a text, or `None`
/// where it reads none.
pub uninterp spec fn document_parsed(text: Seq<char>) -> Option<DocumentView>;

/// The error of `serde_json`.
#[verifier::external_type_specification]
#[verifier::external_body]
pub struct ExJsonError(serde_json::Error);

/// `serde_json::to_string` on a document. Trusted: the result is the text
/// that [`document_text`] names. A document holds strings, booleans,
/// tuples and vectors only, for which writing cannot fail.
#[verifier::external_body]
fn write_document(doc: &Document) -> (r: String)
    ensures
        r@ == document_text(document_view(*doc)),
{
    serde_json::to_string(doc).unwrap_or_default()
}

/// `serde_json::from_str` for a document. Trusted: the result is the
/// document that [`document_parsed`] names, and an error exactly where
/// that is `None`.
#[verifier::external_body]
fn read_document(text: &str) -> (r: Result<Document, serde_json::Error>)
    ensures
        match r {
            Ok(doc) => document_parsed(text@) == Some(document_view(doc)),
            Err(_) => document_parsed(text@) is None,
        },
{
    serde_json::from_str::<Document>(text)
}

/// What an error of `serde_json` says, by its `Display`. Trusted, with
/// nothing claimed of the wording.
#[verifier::external_body]
fn error_text(e: &serde_json::Error) -> (r: String) {
    e.to_string()
}

/// Why a document is not a store.
#[derive(Debug, Clone, PartialEq, Eq)]
pub enum DecodeError {
    /// A state record has a tag that no component writes. Holds the tag.
    UnknownTag(String),
    /// A state record's fields are not those of its tag. Holds the tag.
    BadFields(String),
    /// Two state records have the same path. Holds the path.
    RepeatedPath(Vec<String>),
}

pub enum DecodeErrorView {
    UnknownTag(Seq<char>),
    BadFields(Seq<char>),
    RepeatedPath(PathView),
}

impl View for DecodeError {
    type V = DecodeErrorView;

    open spec fn view(&self) -> DecodeErrorView {
        match self {
            DecodeError::UnknownTag(t) => DecodeErrorView::UnknownTag(t@),
            DecodeError::BadFields(t) => DecodeErrorView::BadFields(t@),
            DecodeError::RepeatedPath(p) => DecodeErrorView::RepeatedPath(p.deep_view()),
        }
    }
}

impl DecodeErrorView {
    /// The error in words.
    pub open spec fn message(self) -> Seq<char> {
        match self {
            DecodeErrorView::UnknownTag(t) => "unknown state tag "@ + t,
            DecodeErrorView::BadFields(t) => "malformed state under tag "@ + t,
            DecodeErrorView::RepeatedPath(_) => "a state path occurs twice"@,
        }
    }
}

impl DecodeError {
    /// The error in words.
    pub fn message(&self) -> (r: String)
        ensures
            r@ == self@.message(),
    {
        match self {
            DecodeError::UnknownTag(t) => String::from_str("unknown state tag ").concat(
                t.as_str(),
            ),
            DecodeError::BadFields(t) => String::from_str("malformed state under tag ").concat(
                t.as_str(),
            ),
            DecodeError::RepeatedPath(_) => String::from_str("a state path occurs twice"),
        }
    }
}

/// The name under which a filter is written.
pub open spec fn filter_name(f: TodoFilter) -> Seq<char> {
    match f {
        TodoFilter::All => "all"@,
        TodoFilter::Active => "active"@,
        TodoFilter::Completed => "completed"@,
    }
}

/// The filter that is written under a name, if any is.
pub open spec fn filter_named(name: Seq<char>) -> Option<TodoFilter> {
    if name == "all"@ {
        Some(TodoFilter::All)
    } else if name == "active"@ {
        Some(TodoFilter::Active)
    } else if name == "completed"@ {
        Some(TodoFilter::Completed)
    } else {
        None
    }
}

/// The tag and the fields under which a stored value is written.
pub open spec fn encode_state(v: StateValueView) -> (Seq<char>, Seq<Seq<char>>) {
    match v {
        StateValueView::App(s) => ("app"@, seq![filter_name(s.now_showing), s.new_todo]),
        StateValueView::Todolist(s) => (
            "todolist"@,
            match s.editing {
                Some(id) => seq![id],
                None => Seq::empty(),
            },
        ),
        StateValueView::Task(s) => ("task"@, seq![s.edit_text]),
    }
}

/// The stored value that is written under a tag with fields.
pub open spec fn decode_state(tag: Seq<char>, fields: Seq<Seq<char>>) -> Result<
    StateValueView,
    DecodeErrorView,
> {
    if tag == "app"@ {
        if fields.len() == 2 && filter_named(fields[0]) is Some {
            Ok(
                StateValueView::App(
                    AppStateView { now_showing: filter_named(fields[0])->0, new_todo: fields[1] },
                ),
            )
        } else {
            Err(DecodeErrorView::BadFields(tag))
        }
    } else if tag == "todolist"@ {
        if fields.len() == 0 {
            Ok(StateValueView::Todolist(TodolistStateView { editing: None }))
        } else if fields.len() == 1 {
            Ok(StateValueView::Todolist(TodolistStateView { editing: Some(fields[0]) }))
        } else {
            Err(DecodeErrorView::BadFields(tag))
        }
    } else if tag == "task"@ {
        if fields.len() == 1 {
            Ok(StateValueView::Task(TaskStateView { edit_text: fields[0] }))
        } else {
            Err(DecodeErrorView::BadFields(tag))
        }
    } else {
        Err(DecodeErrorView::UnknownTag(tag))
    }
}

pub open spec fn encode_task(t: TaskView) -> TaskRecordView {
    (t.id, t.completed, t.title)
}

pub open spec fn decode_task(r: TaskRecordView) -> TaskView {
    TaskView { id: r.0, completed: r.1, title: r.2 }
}

pub open spec fn encode_entry(e: (PathView, StateValueView)) -> StateRecordView {
    (e.0, encode_state(e.1).0, encode_state(e.1).1)
}

/// The document of a store with these tasks and these entries in its
/// state tree.
pub open spec fn encode_store(todos: Seq<TaskView>, entries: EntriesView) -> DocumentView {
    (
        todos.map_values(|t: TaskView| encode_task(t)),
        entries.map_values(|e: (PathView, StateValueView)| encode_entry(e)),
    )
}

/// The entries that state records stand for. The records are taken in
/// order, and the first that is no entry, by its tag, by its fields or
/// because its path came before, decides the error.
pub open spec fn decode_states(records: Seq<StateRecordView>) -> Result<
    EntriesView,
    DecodeErrorView,
>
    decreases records.len(),
{
    if records.len() == 0 {
        Ok(Seq::empty())
    } else {
        let last = records.last();
        match decode_states(records.drop_last()) {
            Err(e) => Err(e),
            Ok(entries) => match decode_state(last.1, last.2) {
                Err(e) => Err(e),
                Ok(value) => if has_path(entries, last.0) {
                    Err(DecodeErrorView::RepeatedPath(last.0))
                } else {
                    Ok(entries.push((last.0, value)))
                },
            },
        }
    }
}

/// The tasks and the entries that a document stands for.
pub open spec fn decode_store(doc: DocumentView) -> Result<
    (Seq<TaskView>, EntriesView),
    DecodeErrorView,
> {
    match decode_states(doc.1) {
        Err(e) => Err(e),
        Ok(entries) => Ok((doc.0.map_values(|r: TaskRecordView| decode_task(r)), entries)),
    }
}

/// The words before every error of [`Store::try_from_string`].
pub open spec fn parse_error_prefix() -> Seq<char> {
    "parse store: "@
}

/// The tags are three different words, and so are the names of the
/// filters.
proof fn written_words_differ()
    ensures
        "app"@ != "todolist"@,
        "app"@ != "task"@,
        "todolist"@ != "task"@,
        "all"@ != "active"@,
        "all"@ != "completed"@,
        "active"@ != "completed"@,
{
    reveal_strlit("app");
    reveal_strlit("todolist");
    reveal_strlit("task");
    reveal_strlit("all");
    reveal_strlit("active");
    reveal_strlit("completed");
    assert("app"@.len() == 3);
    assert("todolist"@.len() == 8);
    assert("task"@.len() == 4);
    assert("all"@.len() == 3);
    assert("active"@.len() == 6);
    assert("completed"@.len() == 9);
}

/// A stored value is read back from what it is written as.
pub proof fn state_is_read_as_written(v: StateValueView)
    ensures
        decode_state(encode_state(v).0, encode_state(v).1) == Ok::<
            StateValueView,
            DecodeErrorView,
        >(v),
{
    written_words_differ();
    match v {
        StateValueView::App(s) => {
            assert(filter_named(filter_name(s.now_showing)) == Some(s.now_showing));
        },
        StateValueView::Todolist(s) => {},
        StateValueView::Task(s) => {},
    }
}

/// Entries with distinct paths are read back from what they are written
/// as.
pub proof fn entries_are_read_as_written(entries: EntriesView)
    requires
        distinct_paths(entries),
    ensures
        decode_states(entries.map_values(|e: (PathView, StateValueView)| encode_entry(e)))
            == Ok::<EntriesView, DecodeErrorView>(entries),
    decreases entries.len(),
{
    let records = entries.map_values(|e: (PathView, StateValueView)| encode_entry(e));
    if entries.len() == 0 {
        assert(entries =~= Seq::empty());
    } else {
        let front = entries.drop_last();
        let last = entries.last();
        assert(distinct_paths(front)) by {
            assert forall|i: int, j: int|
                0 <= i < front.len() && 0 <= j < front.len() && i != j implies front[i].0
                != front[j].0 by {
                assert(entries[i].0 != entries[j].0);
            }
        }
        entries_are_read_as_written(front);
        assert(records.drop_last() =~= front.map_values(
            |e: (PathView, StateValueView)| encode_entry(e),
        ));
        assert(records.last() == encode_entry(last));
        state_is_read_as_written(last.1);
        assert(!has_path(front, last.0)) by {
            if has_path(front, last.0) {
                let i = choose|i: int| 0 <= i < front.len() && front[i].0 == last.0;
                assert(entries[i].0 != entries[entries.len() - 1].0);
            }
        }
        assert(front.push(last) =~= entries);
    }
}

/// A store is read back from the document that it is written as.
pub proof fn store_is_read_as_written(todos: Seq<TaskView>, entries: EntriesView)
    requires
        distinct_paths(entries),
    ensures
        decode_store(encode_store(todos, entries)) == Ok::<
            (Seq<TaskView>, EntriesView),
            DecodeErrorView,
        >((todos, entries)),
{
    entries_are_read_as_written(entries);
    let doc = encode_store(todos, entries);
    assert(doc.0.map_values(|r: TaskRecordView| decode_task(r)) =~= todos);
}

/// Whether a text is exactly a word.
fn text_is(s: &String, word: &str) -> (r: bool)
    ensures
        r == (s@ == word@),
{
    *s == word.to_owned()
}

impl TodoFilter {
    /// The name under which the filter is written.
    pub fn name(&self) -> (r: String)
        ensures
            r@ == filter_name(*self),
    {
        match self {
            TodoFilter::All => String::from_str("all"),
            TodoFilter::Active => String::from_str("active"),
            TodoFilter::Completed => String::from_str("completed"),
        }
    }

    /// The filter that is written under `name`, if any is.
    pub fn from_name(name: &String) -> (r: Option<TodoFilter>)
        ensures
            r == filter_named(name@),
    {
        if text_is(name, "all") {
            Some(TodoFilter::All)
        } else if text_is(name, "active") {
            Some(TodoFilter::Active)
        } else if text_is(name, "completed") {
            Some(TodoFilter::Completed)
        } else {
            None
        }
    }
}

impl StateValue {
    /// The tag and the fields under which the value is written.
    pub fn to_record(&self) -> (r: (String, Vec<String>))
        ensures
            (r.0@, r.1.deep_view()) == encode_state(self@),
    {
        let mut fields: Vec<String> = Vec::new();
        let tag = match self {
            StateValue::App(s) => {
                fields.push(s.now_showing.name());
                fields.push(s.new_todo.clone());
                String::from_str("app")
            },
            StateValue::Todolist(s) => {
                match &s.editing {
                    Some(id) => {
                        fields.push(id.clone());
                    },
                    None => {},
                }
                String::from_str("todolist")
            },
            StateValue::Task(s) => {
                fields.push(s.edit_text.clone());
                String::from_str("task")
            },
        };
        assert(fields.deep_view() =~= encode_state(self@).1);
        (tag, fields)
    }

    /// The value that is written under `tag` with `fields`.
    pub fn from_record(tag: &String, fields: &Vec<String>) -> (r: Result<StateValue, DecodeError>)
        ensures
            match r {
                Ok(v) => decode_state(tag@, fields.deep_view()) == Ok::<
                    StateValueView,
                    DecodeErrorView,
                >(v@),
                Err(e) => decode_state(tag@, fields.deep_view()) == Err::<
                    StateValueView,
                    DecodeErrorView,
                >(e@),
            },
    {
        let ghost f = fields.deep_view();
        assert(f.len() == fields.len());
        assert(forall|i: int| 0 <= i < fields.len() ==> f[i] == fields[i]@);
        if text_is(tag, "app") {
            if fields.len() == 2 {
                match TodoFilter::from_name(&fields[0]) {
                    Some(now_showing) => {
                        return Ok(
                            StateValue::App(AppState { now_showing, new_todo: fields[1].clone() }),
                        );
                    },
                    None => {},
                }
            }
            Err(DecodeError::BadFields(tag.clone()))
        } else if text_is(tag, "todolist") {
            if fields.len() == 0 {
                Ok(StateValue::Todolist(TodolistState { editing: None }))
            } else if fields.len() == 1 {
                Ok(StateValue::Todolist(TodolistState { editing: Some(fields[0].clone()) }))
            } else {
                Err(DecodeError::BadFields(tag.clone()))
            }
        } else if text_is(tag, "task") {
            if fields.len() == 1 {
                Ok(StateValue::Task(TaskState { edit_text: fields[0].clone() }))
            } else {
                Err(DecodeError::BadFields(tag.clone()))
            }
        } else {
            Err(DecodeError::UnknownTag(tag.clone()))
        }
    }
}

impl Store {
    /// The store laid out as a document.
    pub fn to_document(&self) -> (r: Document)
        ensures
            document_view(r) == encode_store(self@.todos, self.states.entries()),
            distinct_paths(self.states.entries()),
            self@.states == tree_of(self.states.entries()),
    {
        let mut tasks: Vec<TaskRecord> = Vec::new();
        let mut i: usize = 0;
        while i < self.todos.len()
            invariant
                i <= self.todos.len(),
                tasks.len() == i,
                forall|k: int|
                    0 <= k < i ==> task_record_view(#[trigger] tasks[k]) == encode_task(
                        self.todos[k]@,
                    ),
            decreases self.todos.len() - i,
        {
            let t = &self.todos[i];
            tasks.push((t.id.clone(), t.completed, t.title.clone()));
            i += 1;
        }
        let nodes = self.states.to_entries();
        let mut states: Vec<StateRecord> = Vec::new();
        let mut j: usize = 0;
        while j < nodes.len()
            invariant
                j <= nodes.len(),
                states.len() == j,
                forall|k: int|
                    0 <= k < j ==> state_record_view(#[trigger] states[k]) == encode_entry(
                        nodes[k]@,
                    ),
            decreases nodes.len() - j,
        {
            let (tag, fields) = nodes[j].value.to_record();
            states.push((copy_path(&nodes[j].path), tag, fields));
            j += 1;
        }
        let r = (tasks, states);
        assert(document_view(r).0 =~= encode_store(self@.todos, self.states.entries()).0);
        assert(document_view(r).1 =~= encode_store(self@.todos, self.states.entries()).1) by {
            assert forall|k: int| 0 <= k < nodes.len() implies document_view(r).1[k]
                == encode_entry(self.states.entries()[k]) by {
                assert(crate::state_tree::nodes_view(nodes@)[k] == nodes[k]@);
            }
        }
        r
    }

    /// The store that a document stands for.
    ///
    /// Every document whose state records are entries, with no path twice,
    /// is a store. Of the others, the first record that is at fault
    /// decides the error.
    pub fn from_document(doc: Document) -> (r: Result<Store, DecodeError>)
        ensures
            match decode_store(document_view(doc)) {
                Ok((todos, entries)) => {
                    &&& r matches Ok(store)
                    &&& store@.todos == todos
                    &&& store.states.entries() == entries
                    &&& store@.states == tree_of(entries)
                },
                Err(e) => r matches Err(x) && x@ == e,
            },
    {
        let ghost records = document_view(doc).1;
        let (tasks, states) = doc;
        let mut tree = StateTree::new();
        let mut j: usize = 0;
        assert(records.take(0) =~= Seq::<StateRecordView>::empty());
        while j < states.len()
            invariant
                j <= states.len(),
                records == document_view(doc).1,
                records == states@.map_values(|r: StateRecord| state_record_view(r)),
                decode_states(records.take(j as int)) == Ok::<EntriesView, DecodeErrorView>(
                    tree.entries(),
                ),
                tree@ == tree_of(tree.entries()),
                distinct_paths(tree.entries()),
            decreases states.len() - j,
        {
            let ghost before = tree.entries();
            let ghost upto = records.take(j + 1);
            proof {
                assert(upto.drop_last() =~= records.take(j as int));
                assert(upto.last() == state_record_view(states[j as int]));
                assert(records.take(states.len() as int) =~= records);
            }
            let value = match StateValue::from_record(&states[j].1, &states[j].2) {
                Ok(value) => value,
                Err(e) => {
                    proof {
                        assert(decode_states(upto) == Err::<EntriesView, DecodeErrorView>(e@));
                        rest_cannot_mend(records, j + 1);
                    }
                    return Err(e);
                },
            };
            proof {
                if has_path(before, upto.last().0) {
                    let i = choose|i: int| 0 <= i < before.len() && before[i].0 == upto.last().0;
                    crate::state_tree::tree_of_holds_each_entry(before, i);
                }
            }
            if tree.get(&states[j].0).is_some() {
                proof {
                    assert(has_path(before, upto.last().0)) by {
                        let q = upto.last().0;
                        assert(tree_of(before).contains_key(q));
                    }
                    assert(decode_states(upto) == Err::<EntriesView, DecodeErrorView>(
                        DecodeErrorView::RepeatedPath(upto.last().0),
                    ));
                    rest_cannot_mend(records, j + 1);
                }
                return Err(DecodeError::RepeatedPath(copy_path(&states[j].0)));
            }
            tree.set(copy_path(&states[j].0), value);
            proof {
                let after = tree.entries();
                assert(distinct_paths(after)) by {
                    assert forall|a: int, b: int|
                        0 <= a < after.len() && 0 <= b < after.len() && a != b implies after[a].0
                        != after[b].0 by {
                        if a < before.len() && b < before.len() {
                            assert(before[a].0 != before[b].0);
                        } else if a < before.len() {
                            assert(before[a].0 == after[a].0);
                        } else {
                            assert(before[b].0 == after[b].0);
                        }
                    }
                }
                assert(tree@ =~= tree_of(after)) by {
                    assert forall|q: PathView| tree@.contains_key(q) <==> tree_of(
                        after,
                    ).contains_key(q) by {
                        if tree_of(before).contains_key(q) {
                            let k = choose|k: int| 0 <= k < before.len() && before[k].0 == q;
                            assert(after[k].0 == q);
                        }
                        if q == upto.last().0 {
                            assert(after[before.len() as int].0 == q);
                        }
                        if tree_of(after).contains_key(q) {
                            let k = choose|k: int| 0 <= k < after.len() && after[k].0 == q;
                            if k < before.len() {
                                assert(before[k].0 == q);
                            }
                        }
                    }
                    assert forall|q: PathView| tree@.contains_key(q) implies tree@[q] == tree_of(
                        after,
                    )[q] by {
                        let k = choose|k: int| 0 <= k < after.len() && after[k].0 == q;
                        crate::state_tree::tree_of_holds_each_entry(after, k);
                        if k < before.len() {
                            assert(before[k] == after[k]);
                            crate::state_tree::tree_of_holds_each_entry(before, k);
                        }
                    }
                }
            }
            j += 1;
        }
        assert(records.take(states.len() as int) =~= records);
        let mut todos: Vec<Task> = Vec::new();
        let mut i: usize = 0;
        while i < tasks.len()
            invariant
                i <= tasks.len(),
                todos.len() == i,
                forall|k: int|
                    0 <= k < i ==> (#[trigger] todos[k])@ == decode_task(
                        task_record_view(tasks[k]),
                    ),
            decreases tasks.len() - i,
        {
            let t = &tasks[i];
            todos.push(Task { id: t.0.clone(), completed: t.1, title: t.2.clone() });
            i += 1;
        }
        let store = Store { todos, states: tree };
        assert(store@.todos =~= document_view(doc).0.map_values(
            |r: TaskRecordView| decode_task(r),
        ));
        Ok(store)
    }

    /// The store as text.
    pub fn to_string(&self) -> (r: String)
        ensures
            r@ == document_text(encode_store(self@.todos, self.states.entries())),
    {
        let doc = self.to_document();
        write_document(&doc)
    }

    /// The store that a text stands for, or why the text stands for none.
    /// Every error begins with "parse store: "; what follows is the
    /// reader's complaint, for a text that is no document, or the
    /// [`DecodeError::message`] for a document that is no store.
    pub fn try_from_string(s: &str) -> (r: Result<Store, String>)
        ensures
            match document_parsed(s@) {
                Some(doc) => match decode_store(doc) {
                    Ok((todos, entries)) => {
                        &&& r matches Ok(store)
                        &&& store@.todos == todos
                        &&& store.states.entries() == entries
                        &&& store@.states == tree_of(entries)
                    },
                    Err(e) => r matches Err(m) && m@ == parse_error_prefix() + e.message(),
                },
                None => r matches Err(m) && exists|detail: Seq<char>|
                    m@ == parse_error_prefix() + detail,
            },
    {
        match read_document(s) {
            Ok(doc) => match Store::from_document(doc) {
                Ok(store) => Ok(store),
                Err(e) => Err(parse_error(e.message())),
            },
            Err(e) => {
                let detail = error_text(&e);
                let m = parse_error(detail);
                assert(m@ == parse_error_prefix() + detail@);
                Err(m)
            },
        }
    }
}

/// An error of [`Store::try_from_string`] with `detail` as its complaint.
fn parse_error(detail: String) -> (r: String)
    ensures
        r@ == parse_error_prefix() + detail@,
{
    String::from_str("parse store: ").concat(detail.as_str())
}

/// Once some record is at fault, the records after it do not matter.
proof fn rest_cannot_mend(records: Seq<StateRecordView>, n: int)
    requires
        0 <= n <= records.len(),
        decode_states(records.take(n)) is Err,
    ensures
        decode_states(records) == decode_states(records.take(n)),
    decreases records.len() - n,
{
    if n == records.len() {
        assert(records.take(n) =~= records);
    } else {
        assert(records.take(n + 1).drop_last() =~= records.take(n));
        rest_cannot_mend(records, n + 1);
    }
}

} // verus!
