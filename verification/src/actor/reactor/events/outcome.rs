//! What follows from an event.

use vstd::prelude::*;

use crate::model::ids::{SpaceId, WindowId};

verus! {

/// What follows from an event for layout and focus.
#[derive(Debug, Clone, Copy)]
pub struct EventOutcome {
    /// Whether the layout changed and, if so, whether by a resize.
    pub layout_changed: Option<bool>,
    pub arrange_space_scope: Option<SpaceId>,
    pub focused_window_broadcast: Option<WindowId>,
    pub focused_window: Option<WindowId>,
}

impl EventOutcome {
    /// Nothing follows.
    pub open spec fn nothing() -> EventOutcome {
        EventOutcome {
            layout_changed: None,
            arrange_space_scope: None,
            focused_window_broadcast: None,
            focused_window: None,
        }
    }

    pub fn no_change() -> (outcome: Self)
        ensures
            outcome == EventOutcome::nothing(),
    {
        EventOutcome {
            layout_changed: None,
            arrange_space_scope: None,
            focused_window_broadcast: None,
            focused_window: None,
        }
    }

    pub fn layout_changed(is_resize: bool) -> (outcome: Self)
        ensures
            outcome == (EventOutcome {
                layout_changed: Some(is_resize),
                ..EventOutcome::nothing()
            }),
    {
        EventOutcome {
            layout_changed: Some(is_resize),
            arrange_space_scope: None,
            focused_window_broadcast: None,
            focused_window: None,
        }
    }

    pub fn with_arrange_space_scope(self, scope: Option<SpaceId>) -> (outcome: Self)
        ensures
            outcome == (EventOutcome { arrange_space_scope: scope, ..self }),
    {
        let mut outcome = self;
        outcome.arrange_space_scope = scope;
        outcome
    }

    pub fn with_focused_window_broadcast(self, window: WindowId) -> (outcome: Self)
        ensures
            outcome == (EventOutcome { focused_window_broadcast: Some(window), ..self }),
    {
        let mut outcome = self;
        outcome.focused_window_broadcast = Some(window);
        outcome
    }
}

} // verus!
