//! Committed versions of the desktop state, from which presentation actors
//! derive their views.

use std::sync::Arc;

use vstd::prelude::*;

#[allow(unused_imports)]
use crate::model::geometry;
use crate::model::geometry::Frame;
use crate::model::ids::{SpaceId, VirtualWorkspaceId, WindowId, WindowServerId};
use crate::model::server;
use crate::model::server::{RuntimeDisplayData, RuntimeWindowData, RuntimeWorkspaceData};

verus! {

/// A monotonically increasing version assigned to an observable desktop state.
#[derive(Debug, Clone, Copy, PartialEq, Eq, PartialOrd, Ord, Hash, Structural)]
pub struct StateRevision {
    number: u64,
}

impl View for StateRevision {
    type V = u64;

    closed spec fn view(&self) -> u64 {
        self.number
    }
}

impl Default for StateRevision {
    fn default() -> (revision: Self)
        ensures
            revision@ == 0,
    {
        StateRevision { number: 0 }
    }
}

/// The number after `number`. The greatest is followed by one: zero is the
/// number of no committed state.
pub open spec fn number_after(number: u64) -> u64 {
    if number == u64::MAX {
        1
    } else {
        (number + 1) as u64
    }
}

impl StateRevision {
    pub fn get(self) -> (number: u64)
        ensures
            number == self@,
    {
        self.number
    }

    /// The revision after this one.
    pub fn next(self) -> (revision: Self)
        ensures
            revision@ == number_after(self@),
    {
        let next: u64 = self.number.wrapping_add(1);
        StateRevision {
            number: if next == 0 {
                1
            } else {
                next
            },
        }
    }

    /// Whether this revision is `other` or a later one.
    pub fn covers(self, other: StateRevision) -> (result: bool)
        ensures
            result == (self@ >= other@),
    {
        self.number >= other.number
    }
}

/// Workspace data for the display context currently represented by the menu bar.
#[derive(Debug, Clone)]
pub struct WorkspaceContext {
    pub active_space: SpaceId,
    pub active_space_is_activated: bool,
    pub workspaces: Vec<RuntimeWorkspaceData>,
    pub active_workspace_idx: Option<u64>,
    pub active_workspace: Option<VirtualWorkspaceId>,
    pub windows: Vec<RuntimeWindowData>,
}

fn equal_numbers(left: Option<u64>, right: Option<u64>) -> (result: bool)
    ensures
        result == (left == right),
{
    match (left, right) {
        (None, None) => true,
        (Some(a), Some(b)) => a == b,
        _ => false,
    }
}

fn equal_workspace_ids(
    left: Option<VirtualWorkspaceId>,
    right: Option<VirtualWorkspaceId>,
) -> (result: bool)
    ensures
        result == (left == right),
{
    match (left, right) {
        (None, None) => true,
        (Some(a), Some(b)) => a == b,
        _ => false,
    }
}

fn equal_window_ids(left: Option<WindowId>, right: Option<WindowId>) -> (result: bool)
    ensures
        result == (left == right),
{
    match (left, right) {
        (None, None) => true,
        (Some(a), Some(b)) => a == b,
        _ => false,
    }
}

impl WorkspaceContext {
    pub open spec fn same_as(self, other: WorkspaceContext) -> bool {
        &&& self.active_space == other.active_space
        &&& self.active_space_is_activated == other.active_space_is_activated
        &&& server::same_workspaces(self.workspaces@, other.workspaces@)
        &&& self.active_workspace_idx == other.active_workspace_idx
        &&& self.active_workspace == other.active_workspace
        &&& server::same_windows(self.windows@, other.windows@)
    }

    pub fn same(&self, other: &WorkspaceContext) -> (result: bool)
        ensures
            result == self.same_as(*other),
    {
        self.active_space == other.active_space && self.active_space_is_activated
            == other.active_space_is_activated && server::equal_workspaces(
            &self.workspaces,
            &other.workspaces,
        ) && equal_numbers(self.active_workspace_idx, other.active_workspace_idx)
            && equal_workspace_ids(self.active_workspace, other.active_workspace)
            && server::equal_windows(&self.windows, &other.windows)
    }
}

/// Focused window geometry needed by the border renderer.
#[derive(Debug, Clone, Copy)]
pub struct BorderTarget {
    pub window: WindowId,
    pub window_server_id: WindowServerId,
    pub space: SpaceId,
    pub frame: Frame,
}

impl BorderTarget {
    pub open spec fn same_as(self, other: BorderTarget) -> bool {
        &&& self.window == other.window
        &&& self.window_server_id == other.window_server_id
        &&& self.space == other.space
        &&& self.frame.same_as(other.frame)
    }

    pub fn same(self, other: BorderTarget) -> (result: bool)
        ensures
            result == self.same_as(other),
    {
        self.window == other.window && self.window_server_id == other.window_server_id
            && self.space == other.space && self.frame.same(other.frame)
    }
}

/// Immutable data from which presentation actors derive their own views.
#[derive(Debug, Clone)]
pub struct DesktopState {
    pub displays: Vec<RuntimeDisplayData>,
    pub focused_window: Option<WindowId>,
    pub mission_control_active: bool,
    pub border_target: Option<BorderTarget>,
    pub menu_bar_context: Option<WorkspaceContext>,
}

impl Default for DesktopState {
    fn default() -> (state: Self)
        ensures
            state.displays@ == Seq::<RuntimeDisplayData>::empty(),
            state.focused_window is None,
            !state.mission_control_active,
            state.border_target is None,
            state.menu_bar_context is None,
    {
        DesktopState {
            displays: Vec::new(),
            focused_window: None,
            mission_control_active: false,
            border_target: None,
            menu_bar_context: None,
        }
    }
}

impl DesktopState {
    /// Whether both states show the same desktop. Coordinates are compared as
    /// numbers, so a state with a coordinate that is not a number differs from
    /// every state, itself included.
    pub open spec fn same_as(self, other: DesktopState) -> bool {
        &&& server::same_displays(self.displays@, other.displays@)
        &&& self.focused_window == other.focused_window
        &&& self.mission_control_active == other.mission_control_active
        &&& match (self.border_target, other.border_target) {
            (None, None) => true,
            (Some(a), Some(b)) => a.same_as(b),
            _ => false,
        }
        &&& match (self.menu_bar_context, other.menu_bar_context) {
            (None, None) => true,
            (Some(a), Some(b)) => a.same_as(b),
            _ => false,
        }
    }

    pub fn same(&self, other: &DesktopState) -> (result: bool)
        ensures
            result == self.same_as(*other),
    {
        server::equal_displays(&self.displays, &other.displays) && equal_window_ids(
            self.focused_window,
            other.focused_window,
        ) && self.mission_control_active == other.mission_control_active && match (
            &self.border_target,
            &other.border_target,
        ) {
            (None, None) => true,
            (Some(a), Some(b)) => a.same(*b),
            _ => false,
        } && match (&self.menu_bar_context, &other.menu_bar_context) {
            (None, None) => true,
            (Some(a), Some(b)) => a.same(b),
            _ => false,
        }
    }

    /// Whether every coordinate is a number.
    pub open spec fn is_numeric(self) -> bool {
        &&& forall|i: int|
            0 <= i < self.displays@.len() ==> (#[trigger] self.displays@[i]).frame.is_numeric()
        &&& self.border_target matches Some(target) ==> target.frame.is_numeric()
        &&& self.menu_bar_context matches Some(context) ==> {
            &&& forall|i: int|
                0 <= i < context.windows@.len() ==> (
                #[trigger] context.windows@[i]).frame.is_numeric()
            &&& forall|i: int, j: int|
                0 <= i < context.workspaces@.len() && 0 <= j
                    < context.workspaces@[i].windows@.len() ==> (
                #[trigger] context.workspaces@[i].windows@[j]).frame.is_numeric()
        }
    }
}

/// One committed version of [`DesktopState`].
#[derive(Debug, Clone)]
pub struct DesktopSnapshot {
    pub revision: StateRevision,
    pub state: DesktopState,
}

/// A second owner of a snapshot.
pub(crate) fn share(snapshot: &Arc<DesktopSnapshot>) -> (result: Arc<DesktopSnapshot>)
    ensures
        result == *snapshot,
{
    Arc::clone(snapshot)
}

/// Commits changed desktop states and owns their revision sequence.
///
/// Dirty tracking avoids rebuilding projections for query-only work. Exact
/// state comparison makes every renderer idempotent without maintaining its
/// own lossy signature of the domain data.
#[derive(Debug)]
pub struct ProjectionHub {
    revision: StateRevision,
    current: Option<Arc<DesktopSnapshot>>,
    dirty: bool,
}

/// The hub as mathematics.
pub struct HubView {
    pub revision: StateRevision,
    pub current: Option<DesktopSnapshot>,
    pub dirty: bool,
}

impl View for ProjectionHub {
    type V = HubView;

    closed spec fn view(&self) -> HubView {
        HubView {
            revision: self.revision,
            current: match self.current {
                None => None,
                Some(snapshot) => Some(*snapshot),
            },
            dirty: self.dirty,
        }
    }
}

impl HubView {
    /// Whether the state would be committed.
    pub open spec fn commits(self, state: DesktopState) -> bool {
        self.dirty && (self.current matches Some(snapshot) ==> !snapshot.state.same_as(state))
    }

    /// Whether this, with what was published, follows from publishing a state.
    /// Either way nothing is dirty afterwards.
    pub open spec fn follows(
        self,
        before: HubView,
        state: DesktopState,
        published: Option<DesktopSnapshot>,
    ) -> bool {
        &&& !self.dirty
        &&& published is Some <==> before.commits(state)
        &&& match published {
            None => self.revision == before.revision && self.current == before.current,
            Some(snapshot) => {
                &&& snapshot.revision@ == number_after(before.revision@)
                &&& snapshot.state == state
                &&& self.revision == snapshot.revision
                &&& self.current == Some(snapshot)
            },
        }
        &&& before.is_consistent() ==> self.is_consistent()
    }

    /// Whether the current snapshot has the hub's revision.
    pub open spec fn is_consistent(self) -> bool {
        match self.current {
            None => self.revision@ == 0,
            Some(snapshot) => snapshot.revision == self.revision && self.revision@ > 0,
        }
    }
}

impl Default for ProjectionHub {
    fn default() -> (hub: Self)
        ensures
            hub@.revision@ == 0,
            hub@.current is None,
            !hub@.dirty,
            hub@.is_consistent(),
    {
        ProjectionHub { revision: StateRevision::default(), current: None, dirty: false }
    }
}

impl ProjectionHub {
    pub fn mark_dirty(&mut self)
        ensures
            final(self)@ == (HubView { dirty: true, ..old(self)@ }),
    {
        self.dirty = true;
    }

    pub fn is_dirty(&self) -> (dirty: bool)
        ensures
            dirty == self@.dirty,
    {
        self.dirty
    }

    pub fn current(&self) -> (snapshot: Option<&Arc<DesktopSnapshot>>)
        ensures
            match snapshot {
                None => self@.current is None,
                Some(snapshot) => self@.current == Some(**snapshot),
            },
    {
        self.current.as_ref()
    }

    /// Commits the state if something was marked dirty and the state differs
    /// from the current one. Either way nothing is dirty afterwards.
    pub fn publish(&mut self, state: DesktopState) -> (published: Option<Arc<DesktopSnapshot>>)
        ensures
            final(self)@.follows(
                old(self)@,
                state,
                match published {
                    None => None,
                    Some(snapshot) => Some(*snapshot),
                },
            ),
    {
        if !self.dirty {
            return None;
        }
        self.dirty = false;
        let unchanged: bool = match &self.current {
            None => false,
            Some(snapshot) => snapshot.state.same(&state),
        };
        if unchanged {
            return None;
        }
        self.revision = self.revision.next();
        let snapshot: Arc<DesktopSnapshot> = Arc::new(
            DesktopSnapshot { revision: self.revision, state },
        );
        self.current = Some(share(&snapshot));
        Some(snapshot)
    }
}

/// Each committed snapshot has a greater revision than the one before, up to the
/// greatest number that a revision can have.
pub proof fn law_revisions_increase(before: HubView, later: DesktopSnapshot)
    requires
        before.is_consistent(),
        before.revision@ < u64::MAX,
        later.revision@ == number_after(before.revision@),
    ensures
        later.revision@ > before.revision@,
        before.current matches Some(earlier) ==> later.revision@ > earlier.revision@,
{
}

/// A state in which every coordinate is a number shows the same desktop as
/// itself.
pub proof fn law_numeric_state_equals_itself(state: DesktopState)
    requires
        state.is_numeric(),
    ensures
        state.same_as(state),
{
    if let Some(context) = state.menu_bar_context {
        assert forall|i: int| 0 <= i < context.workspaces@.len() implies (
        #[trigger] context.workspaces@[i]).same_as(context.workspaces@[i]) by {
            let windows = context.workspaces@[i].windows@;
            assert forall|j: int| 0 <= j < windows.len() implies (#[trigger] windows[j]).same_as(
                windows[j],
            ) by {
                assert(context.workspaces@[i].windows@[j].frame.is_numeric());
            }
        }
    }
}

/// Publishing the current state again commits nothing, marked dirty or not.
pub proof fn law_equivalent_state_is_silent(hub: HubView, snapshot: DesktopSnapshot)
    requires
        hub.current == Some(snapshot),
        snapshot.state.is_numeric(),
    ensures
        !hub.commits(snapshot.state),
        !(HubView { dirty: true, ..hub }).commits(snapshot.state),
{
    law_numeric_state_equals_itself(snapshot.state);
}

/// Whether both border targets are the same window in the same place.
pub open spec fn is_one_target(left: BorderTarget, right: BorderTarget) -> bool {
    &&& left.window == right.window
    &&& left.window_server_id == right.window_server_id
    &&& left.space == right.space
    &&& geometry::is_one_place(left.frame, right.frame)
}

/// Whether both tell the same of the menu bar's workspaces, field by field.
pub open spec fn is_one_context(left: WorkspaceContext, right: WorkspaceContext) -> bool {
    &&& left.active_space == right.active_space
    &&& left.active_space_is_activated == right.active_space_is_activated
    &&& left.workspaces@.len() == right.workspaces@.len()
    &&& forall|i: int|
        0 <= i < left.workspaces@.len() ==> server::is_one_workspace(
            #[trigger] left.workspaces@[i],
            right.workspaces@[i],
        )
    &&& left.active_workspace_idx == right.active_workspace_idx
    &&& left.active_workspace == right.active_workspace
    &&& server::are_one_window(left.windows@, right.windows@)
}

/// Whether the frames of a workspace's windows are numbers.
pub open spec fn has_numbers(workspace: RuntimeWorkspaceData) -> bool {
    forall|i: int|
        0 <= i < workspace.windows@.len() ==> (#[trigger] workspace.windows@[i]).frame.is_numeric()
}

/// Whether both states tell the same of the desktop, field by field.
pub open spec fn is_one_desktop(left: DesktopState, right: DesktopState) -> bool {
    &&& left.displays@.len() == right.displays@.len()
    &&& forall|i: int|
        0 <= i < left.displays@.len() ==> server::is_one_display(
            #[trigger] left.displays@[i],
            right.displays@[i],
        )
    &&& left.focused_window == right.focused_window
    &&& left.mission_control_active == right.mission_control_active
    &&& left.border_target is Some <==> right.border_target is Some
    &&& left.border_target is Some ==> is_one_target(left.border_target->0, right.border_target->0)
    &&& left.menu_bar_context is Some <==> right.menu_bar_context is Some
    &&& left.menu_bar_context is Some ==> is_one_context(
        left.menu_bar_context->0,
        right.menu_bar_context->0,
    )
}

/// States are the same exactly if they agree in every field, the coordinates of
/// every frame as numbers, and all of these are numbers.
pub proof fn law_states_by_their_fields(left: DesktopState, right: DesktopState)
    ensures
        left.same_as(right) <==> is_one_desktop(left, right) && left.is_numeric()
            && right.is_numeric(),
{
    if left.displays@.len() == right.displays@.len() {
        assert forall|i: int| 0 <= i < left.displays@.len() implies ((
        #[trigger] left.displays@[i]).same_as(right.displays@[i]) <==> server::is_one_display(
            left.displays@[i],
            right.displays@[i],
        ) && left.displays@[i].frame.is_numeric() && right.displays@[i].frame.is_numeric()) by {
            server::law_displays_by_their_fields(left.displays@[i], right.displays@[i]);
        }
        if is_one_desktop(left, right) && left.is_numeric() && right.is_numeric() {
            assert forall|i: int| 0 <= i < left.displays@.len() implies (
            #[trigger] left.displays@[i]).same_as(right.displays@[i]) by {
                assert(right.displays@[i].frame.is_numeric());
            }
        }
        if left.same_as(right) {
            assert forall|i: int| 0 <= i < right.displays@.len() implies (
            #[trigger] right.displays@[i]).frame.is_numeric() by {
                assert(left.displays@[i].same_as(right.displays@[i]));
            }
        }
    }
    if left.border_target is Some && right.border_target is Some {
        geometry::law_frames_by_their_coordinates(
            left.border_target->0.frame,
            right.border_target->0.frame,
        );
    }
    if left.menu_bar_context is Some && right.menu_bar_context is Some {
        let (one, two) = (left.menu_bar_context->0, right.menu_bar_context->0);
        server::law_window_lists_by_their_windows(one.windows@, two.windows@);
        if one.workspaces@.len() == two.workspaces@.len() {
            assert forall|i: int|
                0 <= i < one.workspaces@.len() && (#[trigger] one.workspaces@[i]).same_as(
                    two.workspaces@[i],
                ) implies server::is_one_workspace(one.workspaces@[i], two.workspaces@[i])
                && has_numbers(one.workspaces@[i]) && has_numbers(two.workspaces@[i]) by {
                server::law_workspaces_by_their_fields(one.workspaces@[i], two.workspaces@[i]);
            }
            if left.same_as(right) {
                assert forall|i: int, j: int|
                    0 <= i < one.workspaces@.len() && 0 <= j
                        < one.workspaces@[i].windows@.len() implies (
                #[trigger] one.workspaces@[i].windows@[j]).frame.is_numeric() by {
                    assert(one.workspaces@[i].same_as(two.workspaces@[i]));
                }
                assert forall|i: int, j: int|
                    0 <= i < two.workspaces@.len() && 0 <= j
                        < two.workspaces@[i].windows@.len() implies (
                #[trigger] two.workspaces@[i].windows@[j]).frame.is_numeric() by {
                    assert(one.workspaces@[i].same_as(two.workspaces@[i]));
                }
            }
        }
        if is_one_desktop(left, right) && left.is_numeric() && right.is_numeric() {
            assert forall|i: int| 0 <= i < one.workspaces@.len() implies (
            #[trigger] one.workspaces@[i]).same_as(two.workspaces@[i]) by {
                server::law_workspaces_by_their_fields(one.workspaces@[i], two.workspaces@[i]);
                assert(server::is_one_workspace(one.workspaces@[i], two.workspaces@[i]));
                assert forall|j: int| 0 <= j < one.workspaces@[i].windows@.len() implies (
                #[trigger] one.workspaces@[i].windows@[j]).frame.is_numeric() by {}
                assert forall|j: int| 0 <= j < two.workspaces@[i].windows@.len() implies (
                #[trigger] two.workspaces@[i].windows@[j]).frame.is_numeric() by {}
            }
        }
    }
}

/// What is published and what is not: nothing unless something was marked dirty,
/// and else every state that differs in any field from the current one, and the
/// first one of all. What is published is that state, under a revision above all
/// earlier ones. Publishing leaves nothing dirty.
pub proof fn law_publishing_follows_changes(
    before: HubView,
    state: DesktopState,
    after: HubView,
    published: Option<DesktopSnapshot>,
)
    requires
        after.follows(before, state, published),
    ensures
        !after.dirty,
        !before.dirty ==> published is None,
        before.dirty && before.current is None ==> published is Some,
        before.dirty && before.current is Some && !is_one_desktop(before.current->0.state, state)
            ==> published is Some,
        before.current is Some && is_one_desktop(before.current->0.state, state)
            && before.current->0.state.is_numeric() && state.is_numeric() ==> published is None,
        published is None ==> after.current == before.current && after.revision
            == before.revision,
        published matches Some(snapshot) ==> {
            &&& snapshot.state == state
            &&& after.current == published
            &&& after.revision == snapshot.revision
            &&& snapshot.revision@ > 0
            &&& before.revision@ < u64::MAX ==> snapshot.revision@ == before.revision@ + 1
        },
{
    if before.current is Some {
        law_states_by_their_fields(before.current->0.state, state);
    }
}

/// A window that moved or changed its size is published: a dirty hub commits any
/// state in which the border's frame is another than in the current one.
pub proof fn law_moved_border_is_published(before: HubView, state: DesktopState)
    requires
        before.dirty,
        before.current is Some,
        before.current->0.state.border_target is Some,
        state.border_target is Some,
        !geometry::is_one_place(
            before.current->0.state.border_target->0.frame,
            state.border_target->0.frame,
        ),
    ensures
        before.commits(state),
{
    law_states_by_their_fields(before.current->0.state, state);
}

} // verus!
