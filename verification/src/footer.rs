//! The footer: how many tasks are left, the three filter links, and the
//! button that clears the completed tasks.

use vstd::prelude::*;

use crate::dispatcher::actions_view;
use crate::local_state::{AppState, AppStateView, LocalState};
use crate::state_tree::PathView;
use crate::store::{write_at, ActionOp, ActionView, TodoFilter};

verus! {

/// What the "clear completed" button asks for.
#[derive(Debug, Clone, Copy, PartialEq, Eq, Structural)]
pub struct OnClearCompleted;

impl OnClearCompleted {
    pub fn call(&self) -> (r: Vec<ActionOp>)
        ensures
            actions_view(r@) == seq![ActionView::ClearCompleted],
    {
        let mut r: Vec<ActionOp> = Vec::new();
        r.push(ActionOp::ClearCompleted);
        assert(actions_view(r@) =~= seq![ActionView::ClearCompleted]);
        r
    }
}

/// What a filter link asks for. Holds the place of the state that keeps
/// the filter, and that state as it was rendered.
#[derive(Debug, Clone, PartialEq, Eq)]
pub struct OnFilter {
    pub cursor: Vec<String>,
    pub state: AppState,
}

pub struct OnFilterView {
    pub cursor: PathView,
    pub state: AppStateView,
}

impl View for OnFilter {
    type V = OnFilterView;

    open spec fn view(&self) -> OnFilterView {
        OnFilterView { cursor: self.cursor.deep_view(), state: self.state@ }
    }
}

impl OnFilter {
    /// What is asked for: the kept state with `tag` as its filter, and the
    /// rest of it as it was.
    pub open spec fn actions(link: OnFilterView, tag: TodoFilter) -> Seq<ActionView> {
        seq![
            write_at(
                link.cursor,
                <AppState as LocalState>::encoded(AppStateView { now_showing: tag, ..link.state }),
            ),
        ]
    }

    pub fn call(&self, tag: TodoFilter) -> (r: Vec<ActionOp>)
        ensures
            actions_view(r@) == Self::actions(self@, tag),
    {
        let mut r: Vec<ActionOp> = Vec::new();
        let state = AppState { now_showing: tag, new_todo: self.state.new_todo.clone() };
        r.push(ActionOp::build_states_action(&self.cursor, Some(state.encode())));
        assert(actions_view(r@) =~= Self::actions(self@, tag));
        r
    }
}

/// The rendered footer.
#[derive(Debug, Clone, PartialEq, Eq)]
pub struct FooterView {
    /// The number shown before "items left".
    pub count: usize,
    /// The filter whose link is marked as selected.
    pub now_showing: TodoFilter,
    /// The "clear completed" button, where it is shown.
    pub clear_button: Option<OnClearCompleted>,
    /// What the filter links do.
    pub on_filter: OnFilter,
}

pub struct FooterViewView {
    pub count: nat,
    pub now_showing: TodoFilter,
    pub clear_button: bool,
    pub on_filter: OnFilterView,
}

impl View for FooterView {
    type V = FooterViewView;

    open spec fn view(&self) -> FooterViewView {
        FooterViewView {
            count: self.count as nat,
            now_showing: self.now_showing,
            clear_button: self.clear_button is Some,
            on_filter: self.on_filter@,
        }
    }
}

impl FooterView {
    /// Whether the link of `tag` is marked as selected.
    pub fn is_selected(&self, tag: TodoFilter) -> (r: bool)
        ensures
            r == (self.now_showing == tag),
    {
        self.now_showing == tag
    }

    /// The link of `tag` was clicked.
    pub fn click_filter(&self, tag: TodoFilter) -> (r: Vec<ActionOp>)
        ensures
            actions_view(r@) == OnFilter::actions(self@.on_filter, tag),
    {
        self.on_filter.call(tag)
    }

    /// The "clear completed" button was clicked. Where the button is not
    /// shown, nothing is asked for.
    pub fn click_clear_completed(&self) -> (r: Vec<ActionOp>)
        ensures
            actions_view(r@) == if self@.clear_button {
                seq![ActionView::ClearCompleted]
            } else {
                Seq::<ActionView>::empty()
            },
    {
        match &self.clear_button {
            Some(on_click) => on_click.call(),
            None => {
                let r: Vec<ActionOp> = Vec::new();
                assert(actions_view(r@) =~= Seq::<ActionView>::empty());
                r
            },
        }
    }
}

/// The footer for `count` open tasks and `completed_count` completed
/// ones. The "clear completed" button is shown where there is something to
/// clear.
pub fn comp_footer(
    count: usize,
    completed_count: usize,
    now_showing: TodoFilter,
    on_clear_completed: OnClearCompleted,
    on_filter: OnFilter,
) -> (r: FooterView)
    ensures
        r@ == (FooterViewView {
            count: count as nat,
            now_showing,
            clear_button: completed_count > 0,
            on_filter: on_filter@,
        }),
{
    let clear_button = if completed_count > 0 {
        Some(on_clear_completed)
    } else {
        None
    };
    FooterView { count, now_showing, clear_button, on_filter }
}

} // verus!
