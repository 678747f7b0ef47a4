//! One row of the list: what it shows, what its controls ask of the store,
//! and when it wants the input focus.
//!
//! A row is either viewed or edited. Editing begins with [`TaskRow::handle_edit`],
//! which tells the list whose turn it is and fills the edit box with the
//! title. It ends by [`TaskRow::handle_submit`], which saves the edit box
//! and then closes it, or by `on_cancel`, which closes it and saves
//! nothing.

use vstd::prelude::*;

use crate::dispatcher::actions_view;
use crate::local_state::{LocalState, TaskState, TaskStateView};
use crate::state_tree::{PathView, StateCursor};
use crate::store::{write_at, ActionOp, ActionView, Task, TaskView};
use crate::todolist::{OnCancel, OnEdit};

verus! {

/// The key that confirms an edit.
pub const KEY_ENTER: u32 = 13;

/// The key that abandons an edit.
pub const KEY_ESCAPE: u32 = 27;

/// The moments in a component's life at which an effect may run.
#[derive(Debug, Clone, Copy, PartialEq, Eq, Structural)]
pub enum EffectStage {
    /// The component has just been put in place.
    Mounted,
    /// What the effect depends on has changed; the change is not shown yet.
    BeforeUpdate,
    /// What the effect depends on has changed, and the change is shown.
    Updated,
    /// The component is about to be taken away.
    BeforeUnmount,
}

/// What an effect asks of the platform.
#[derive(Debug, Clone, Copy, PartialEq, Eq, Structural)]
pub enum EffectRequest {
    /// Move the input focus into the row's edit box.
    FocusEditBox,
}

/// The effect of a row. It depends on one thing, whether the row is being
/// edited, and so runs when that changes and at no other rendering.
#[derive(Debug, Clone, Copy, PartialEq, Eq, Structural)]
pub struct EditingState {
    pub editing: bool,
}

impl EditingState {
    /// What the effect asks for once a change of `editing` is shown: the
    /// focus, if the row is now being edited.
    pub fn updated(&self) -> (r: Option<EffectRequest>)
        ensures
            r == if self.editing {
                Some(EffectRequest::FocusEditBox)
            } else {
                None::<EffectRequest>
            },
    {
        if self.editing {
            Some(EffectRequest::FocusEditBox)
        } else {
            None
        }
    }

    /// What the effect asks for at a stage: something only at `Updated`.
    pub fn run(&self, stage: EffectStage) -> (r: Option<EffectRequest>)
        ensures
            r == if stage == EffectStage::Updated && self.editing {
                Some(EffectRequest::FocusEditBox)
            } else {
                None::<EffectRequest>
            },
    {
        match stage {
            EffectStage::Updated => self.updated(),
            _ => None,
        }
    }

    /// What the effect asks for when a row that was rendered with `old` is
    /// rendered again with `self`: the focus, exactly when editing has
    /// begun in between.
    pub fn rerendered(&self, old: &EditingState) -> (r: Option<EffectRequest>)
        ensures
            r == if !old.editing && self.editing {
                Some(EffectRequest::FocusEditBox)
            } else {
                None::<EffectRequest>
            },
    {
        if self.editing != old.editing {
            self.run(EffectStage::Updated)
        } else {
            None
        }
    }
}

/// Whether a row is being edited.
#[derive(Debug, Clone, Copy, PartialEq, Eq, Structural)]
pub enum EditMode {
    Viewing,
    Editing,
}

/// What the user does about a row's editing.
#[derive(Debug, Clone, Copy, PartialEq, Eq, Structural)]
pub enum Gesture {
    /// Asks to edit the row.
    BeginEdit,
    /// Accepts the edit.
    Confirm,
    /// Leaves the edit box.
    Blur,
    /// Gives the edit up.
    Cancel,
}

impl EditMode {
    /// The mode that a gesture leads to. A viewed row is edited once the
    /// edit begins; an edited row is viewed again once the edit is
    /// accepted, left or given up. Any other gesture leaves the mode as it
    /// is.
    pub open spec fn after(self, gesture: Gesture) -> EditMode {
        match (self, gesture) {
            (EditMode::Viewing, Gesture::BeginEdit) => EditMode::Editing,
            (EditMode::Editing, Gesture::Confirm) => EditMode::Viewing,
            (EditMode::Editing, Gesture::Blur) => EditMode::Viewing,
            (EditMode::Editing, Gesture::Cancel) => EditMode::Viewing,
            (mode, _) => mode,
        }
    }

    /// The mode that a gesture leads to.
    pub fn next(self, gesture: Gesture) -> (r: EditMode)
        ensures
            r == self.after(gesture),
    {
        match (self, gesture) {
            (EditMode::Viewing, Gesture::BeginEdit) => EditMode::Editing,
            (EditMode::Editing, Gesture::BeginEdit) => EditMode::Editing,
            _ => EditMode::Viewing,
        }
    }
}

/// A rendered row.
#[derive(Debug, Clone, PartialEq, Eq)]
pub struct TaskRow {
    /// The task that the row shows.
    pub task: Task,
    /// Whether this is the row being edited.
    pub editing: bool,
    /// The row's own state: the text in its edit box.
    pub state: TaskState,
    /// The row's place in the state tree.
    pub cursor: Vec<String>,
    /// How the row tells the list that its editing begins.
    pub on_edit: OnEdit,
    /// How the row tells the list that editing is over.
    pub on_cancel: OnCancel,
    /// The row's effect.
    pub effect: EditingState,
}

pub struct TaskRowView {
    pub task: TaskView,
    pub editing: bool,
    pub state: TaskStateView,
    pub cursor: PathView,
    pub on_edit: PathView,
    pub on_cancel: PathView,
    pub effect: EditingState,
}

impl View for TaskRow {
    type V = TaskRowView;

    open spec fn view(&self) -> TaskRowView {
        TaskRowView {
            task: self.task@,
            editing: self.editing,
            state: self.state@,
            cursor: self.cursor.deep_view(),
            on_edit: self.on_edit@,
            on_cancel: self.on_cancel@,
            effect: self.effect,
        }
    }
}

impl TaskRowView {
    /// What committing the edit asks for: save the edit box as the title,
    /// then close editing.
    pub open spec fn submit_actions(self) -> Seq<ActionView> {
        seq![ActionView::Save(self.task.id, self.state.edit_text)] + OnCancel::actions(
            self.on_cancel,
        )
    }

    /// What beginning the edit asks for: tell the list whose turn it is,
    /// then fill the edit box with the title.
    pub open spec fn edit_actions(self) -> Seq<ActionView> {
        OnEdit::actions(self.on_edit, self.task.id) + seq![
            write_at(
                self.cursor,
                <TaskState as LocalState>::encoded(TaskStateView { edit_text: self.task.title }),
            ),
        ]
    }

    /// What a gesture asks for.
    pub open spec fn gesture_actions(self, gesture: Gesture) -> Seq<ActionView> {
        match gesture {
            Gesture::BeginEdit => self.edit_actions(),
            Gesture::Confirm => self.submit_actions(),
            Gesture::Blur => self.submit_actions(),
            Gesture::Cancel => OnCancel::actions(self.on_cancel),
        }
    }

    /// Whether the row is being viewed or edited.
    pub open spec fn mode(self) -> EditMode {
        if self.editing {
            EditMode::Editing
        } else {
            EditMode::Viewing
        }
    }

    /// What a key pressed in the edit box asks for.
    pub open spec fn keydown_actions(self, key_code: u32) -> Seq<ActionView> {
        if key_code == KEY_ENTER {
            self.submit_actions()
        } else if key_code == KEY_ESCAPE {
            OnCancel::actions(self.on_cancel)
        } else {
            Seq::empty()
        }
    }
}

impl TaskRow {
    /// Whether the row is being viewed or edited.
    pub fn mode(&self) -> (r: EditMode)
        ensures
            r == self@.mode(),
    {
        if self.editing {
            EditMode::Editing
        } else {
            EditMode::Viewing
        }
    }

    /// The checkbox was clicked: toggle the task.
    pub fn on_toggle(&self) -> (r: Vec<ActionOp>)
        ensures
            actions_view(r@) == seq![ActionView::Toggle(self@.task.id)],
    {
        let mut r: Vec<ActionOp> = Vec::new();
        r.push(ActionOp::Toggle(self.task.id.clone()));
        assert(actions_view(r@) =~= seq![ActionView::Toggle(self@.task.id)]);
        r
    }

    /// The text of the edit box changed: keep it as the row's state.
    pub fn handle_change(&self, value: String) -> (r: Vec<ActionOp>)
        ensures
            actions_view(r@) == seq![
                write_at(
                    self@.cursor,
                    <TaskState as LocalState>::encoded(TaskStateView { edit_text: value@ }),
                ),
            ],
    {
        let mut r: Vec<ActionOp> = Vec::new();
        let state = TaskState { edit_text: value };
        r.push(ActionOp::build_states_action(&self.cursor, Some(state.encode())));
        assert(actions_view(r@) =~= seq![
            write_at(
                self@.cursor,
                <TaskState as LocalState>::encoded(TaskStateView { edit_text: value@ }),
            ),
        ]);
        r
    }

    /// The remove button was clicked: destroy the task.
    pub fn on_destroy(&self) -> (r: Vec<ActionOp>)
        ensures
            actions_view(r@) == seq![ActionView::Destroy(self@.task.id)],
    {
        let mut r: Vec<ActionOp> = Vec::new();
        r.push(ActionOp::Destroy(self.task.id.clone()));
        assert(actions_view(r@) =~= seq![ActionView::Destroy(self@.task.id)]);
        r
    }

    /// The edit is committed: save the edit box, then close editing.
    pub fn handle_submit(&self) -> (r: Vec<ActionOp>)
        ensures
            actions_view(r@) == self@.submit_actions(),
    {
        let mut r: Vec<ActionOp> = Vec::new();
        r.push(ActionOp::Save(self.task.id.clone(), self.state.edit_text.clone()));
        let ghost first = r@;
        let mut rest = self.on_cancel.call();
        let ghost last = rest@;
        r.append(&mut rest);
        assert(actions_view(r@) =~= actions_view(first) + actions_view(last));
        assert(actions_view(first) =~= seq![
            ActionView::Save(self@.task.id, self@.state.edit_text),
        ]);
        r
    }

    /// The edit box lost the focus: commit the edit.
    pub fn handle_blur(&self) -> (r: Vec<ActionOp>)
        ensures
            actions_view(r@) == self@.submit_actions(),
    {
        self.handle_submit()
    }

    /// A key was pressed in the edit box: Enter commits the edit, Escape
    /// abandons it, and any other key asks for nothing.
    pub fn handle_keydown(&self, key_code: u32) -> (r: Vec<ActionOp>)
        ensures
            actions_view(r@) == self@.keydown_actions(key_code),
    {
        if key_code == KEY_ENTER {
            self.handle_submit()
        } else if key_code == KEY_ESCAPE {
            self.on_cancel.call()
        } else {
            let r: Vec<ActionOp> = Vec::new();
            assert(actions_view(r@) =~= Seq::<ActionView>::empty());
            r
        }
    }

    /// What a gesture asks of the store.
    pub fn on_gesture(&self, gesture: Gesture) -> (r: Vec<ActionOp>)
        ensures
            actions_view(r@) == self@.gesture_actions(gesture),
    {
        match gesture {
            Gesture::BeginEdit => self.handle_edit(),
            Gesture::Confirm => self.handle_submit(),
            Gesture::Blur => self.handle_blur(),
            Gesture::Cancel => self.on_cancel.call(),
        }
    }

    /// The title was double-clicked: begin the edit.
    pub fn handle_edit(&self) -> (r: Vec<ActionOp>)
        ensures
            actions_view(r@) == self@.edit_actions(),
    {
        let mut r = self.on_edit.call(self.task.id.clone());
        let ghost first = r@;
        let state = TaskState { edit_text: self.task.title.clone() };
        r.push(ActionOp::build_states_action(&self.cursor, Some(state.encode())));
        assert(actions_view(r@) =~= actions_view(first) + seq![
            write_at(
                self@.cursor,
                <TaskState as LocalState>::encoded(TaskStateView { edit_text: self@.task.title }),
            ),
        ]);
        r
    }
}

/// The row for `task`, with its state read at `states`.
pub fn comp_task(
    states: StateCursor<'_>,
    task: &Task,
    editing: bool,
    on_edit: OnEdit,
    on_cancel: OnCancel,
) -> (r: TaskRow)
    ensures
        r@ == (TaskRowView {
            task: task@,
            editing,
            state: crate::state_tree::read_as::<TaskState>(states.node()),
            cursor: states.path_view(),
            on_edit: on_edit@,
            on_cancel: on_cancel@,
            effect: EditingState { editing },
        }),
{
    TaskRow {
        task: task.clone(),
        editing,
        state: states.read::<TaskState>(),
        cursor: states.path(),
        on_edit,
        on_cancel,
        effect: EditingState { editing },
    }
}

} // verus!
