//! What the actors ask of one another.

use vstd::prelude::*;

use crate::model::ids::WindowId;
use crate::model::palette_entry::LayoutMode;

verus! {

/// Which workspace is meant.
#[derive(Debug, PartialEq, Eq)]
pub enum WorkspaceSelector {
    Index(usize),
    Name(String),
}

/// Which display is meant.
#[derive(Debug, PartialEq, Eq)]
pub enum DisplaySelector {
    Index(usize),
    Uuid(String),
}

/// What is asked of the layout engine.
#[allow(inconsistent_fields)]
#[derive(Debug, PartialEq, Eq)]
pub enum LayoutCommand {
    /// With whether empty workspaces are skipped, where that is not left to the
    /// configuration.
    NextWorkspace(Option<bool>),
    PrevWorkspace(Option<bool>),
    SwitchToWorkspace(usize),
    SwitchToLastWorkspace,
    MoveWindowToWorkspace {
        workspace: WorkspaceSelector,
        follow: bool,
        window_id: Option<WindowId>,
    },
    /// For the active workspace, if none is named.
    SetWorkspaceLayout { workspace: Option<usize>, mode: LayoutMode },
    ToggleWindowFloating,
    ToggleFullscreen,
    ToggleFullscreenWithinGaps,
}

/// What a saved layout is restored for, by its name.
#[derive(Debug, PartialEq, Eq)]
pub struct RestoreScope {
    pub name: String,
}

/// Where in a saved layout to look.
#[derive(Debug, PartialEq, Eq)]
pub enum RestoreSource {
    CurrentSpace,
    /// Another place, by its name.
    Named(String),
}

/// What is asked of the reactor itself.
#[derive(Debug, PartialEq, Eq)]
pub enum ReactorCommand {
    FocusWindow { window_id: WindowId, window_server_id: Option<u32> },
    FocusDisplay(DisplaySelector),
    RestoreLayout { path: String, scope: RestoreScope, source: RestoreSource },
    SaveLayout { path: String },
    ToggleSpaceActivated,
    SaveAndExit,
}

} // verus!
