//! The windows that the reactor knows of, and where they are.

use std::collections::{HashMap, HashSet};

use vstd::prelude::*;

use crate::model::geometry::Frame;
use crate::model::ids;
use crate::model::ids::{SpaceId, VirtualWorkspaceId, WindowId, WindowServerId};

verus! {

broadcast use vstd::std_specs::hash::group_hash_axioms;

/// What the accessibility layer tells of a window.
#[derive(Debug)]
pub struct WindowInfo {
    pub is_standard: bool,
    pub is_minimized: bool,
    pub title: String,
    pub frame: Frame,
    pub sys_id: Option<WindowServerId>,
}

impl Clone for WindowInfo {
    fn clone(&self) -> (result: Self)
        ensures
            result == *self,
    {
        WindowInfo {
            is_standard: self.is_standard,
            is_minimized: self.is_minimized,
            title: self.title.clone(),
            frame: self.frame,
            sys_id: self.sys_id,
        }
    }
}

/// A window as the reactor keeps it.
#[derive(Debug)]
pub struct WindowState {
    pub info: WindowInfo,
    pub frame_monotonic: Frame,
    pub is_manageable: bool,
    pub manage_override: Option<bool>,
}

impl Clone for WindowState {
    fn clone(&self) -> (result: Self)
        ensures
            result == *self,
    {
        WindowState {
            info: self.info.clone(),
            frame_monotonic: self.frame_monotonic,
            is_manageable: self.is_manageable,
            manage_override: self.manage_override,
        }
    }
}

/// What the window server tells of a window.
#[derive(Debug, Clone, Copy)]
pub struct WindowServerInfo {
    pub id: WindowServerId,
    pub pid: i32,
    pub layer: i32,
    pub frame: Frame,
}

/// The workspace, and its space, in which a window has its layout slot.
#[derive(Debug, Clone, Copy, PartialEq, Eq, Structural)]
pub struct WorkspaceInfo {
    pub space: SpaceId,
    pub workspace: VirtualWorkspaceId,
}

/// The windows that are known, by either of their identifiers.
#[derive(Debug)]
pub struct WindowStore {
    windows: HashMap<u64, WindowState>,
    assignments: HashMap<u64, WorkspaceInfo>,
    server_info: HashMap<u32, WindowServerInfo>,
    server_spaces: HashMap<u32, SpaceId>,
    observed: HashSet<u32>,
    visible: HashSet<u32>,
}

/// The store as mathematics.
#[verifier::ext_equal]
pub struct StoreView {
    pub windows: Map<WindowId, WindowState>,
    pub assignments: Map<WindowId, WorkspaceInfo>,
    pub server_info: Map<u32, WindowServerInfo>,
    pub server_spaces: Map<u32, SpaceId>,
    /// Windows that the window server reported and nobody claimed yet.
    pub observed: Set<u32>,
    pub visible: Set<u32>,
}

/// A map by window numbers as a map by windows.
pub open spec fn by_window<V>(numbered: Map<u64, V>) -> Map<WindowId, V> {
    Map::new(
        |window: WindowId| numbered.contains_key(ids::window_key(window) as u64),
        |window: WindowId| numbered[ids::window_key(window) as u64],
    )
}

/// Changing a window's value changes nothing for other windows.
proof fn lemma_by_window_insert<V>(numbered: Map<u64, V>, window: WindowId, value: V)
    ensures
        by_window(numbered.insert(ids::window_key(window) as u64, value)) == by_window(
            numbered,
        ).insert(window, value),
{
    let left = by_window(numbered.insert(ids::window_key(window) as u64, value));
    let right = by_window(numbered).insert(window, value);
    assert forall|other: WindowId| #[trigger]
        left.contains_key(other) == right.contains_key(other) && (left.contains_key(other)
            ==> left[other] == right[other]) by {
        ids::lemma_window_key(window, other);
        ids::lemma_window_key(other, window);
    }
    assert(left =~= right);
}

proof fn lemma_by_window_remove<V>(numbered: Map<u64, V>, window: WindowId)
    ensures
        by_window(numbered.remove(ids::window_key(window) as u64)) == by_window(numbered).remove(
            window,
        ),
{
    let left = by_window(numbered.remove(ids::window_key(window) as u64));
    let right = by_window(numbered).remove(window);
    assert forall|other: WindowId| #[trigger]
        left.contains_key(other) == right.contains_key(other) && (left.contains_key(other)
            ==> left[other] == right[other]) by {
        ids::lemma_window_key(window, other);
        ids::lemma_window_key(other, window);
    }
    assert(left =~= right);
}

impl View for WindowStore {
    type V = StoreView;

    closed spec fn view(&self) -> StoreView {
        StoreView {
            windows: by_window(self.windows@),
            assignments: by_window(self.assignments@),
            server_info: self.server_info@,
            server_spaces: self.server_spaces@,
            observed: self.observed@,
            visible: self.visible@,
        }
    }
}

impl Default for WindowStore {
    fn default() -> (store: Self)
        ensures
            store@ == (StoreView {
                windows: Map::empty(),
                assignments: Map::empty(),
                server_info: Map::empty(),
                server_spaces: Map::empty(),
                observed: Set::empty(),
                visible: Set::empty(),
            }),
    {
        let store = WindowStore {
            windows: HashMap::new(),
            assignments: HashMap::new(),
            server_info: HashMap::new(),
            server_spaces: HashMap::new(),
            observed: HashSet::new(),
            visible: HashSet::new(),
        };
        assert(store@.windows =~= Map::<WindowId, WindowState>::empty());
        assert(store@.assignments =~= Map::<WindowId, WorkspaceInfo>::empty());
        store
    }
}

impl WindowStore {
    pub fn window(&self, window: WindowId) -> (state: Option<&WindowState>)
        ensures
            match state {
                None => !self@.windows.contains_key(window),
                Some(state) => self@.windows.contains_key(window) && self@.windows[window]
                    == *state,
            },
    {
        proof {
            ids::lemma_window_key(window, window);
        }
        self.windows.get(&ids::window_number(window))
    }

    pub fn workspace_info_for_window(&self, window: WindowId) -> (info: Option<WorkspaceInfo>)
        ensures
            match info {
                None => !self@.assignments.contains_key(window),
                Some(info) => self@.assignments.contains_key(window) && self@.assignments[window]
                    == info,
            },
    {
        proof {
            ids::lemma_window_key(window, window);
        }
        match self.assignments.get(&ids::window_number(window)) {
            Some(info) => Some(*info),
            None => None,
        }
    }

    /// Gives a window its layout slot's workspace.
    pub fn assign_workspace(&mut self, window: WindowId, info: WorkspaceInfo)
        ensures
            final(self)@ == (StoreView {
                assignments: old(self)@.assignments.insert(window, info),
                ..old(self)@
            }),
    {
        proof {
            ids::lemma_window_key(window, window);
            lemma_by_window_insert(self.assignments@, window, info);
        }
        self.assignments.insert(ids::window_number(window), info);
        assert(self@ =~= (StoreView {
            assignments: old(self)@.assignments.insert(window, info),
            ..old(self)@
        }));
    }

    pub fn unassign_workspace(&mut self, window: WindowId)
        ensures
            final(self)@ == (StoreView {
                assignments: old(self)@.assignments.remove(window),
                ..old(self)@
            }),
    {
        proof {
            ids::lemma_window_key(window, window);
            lemma_by_window_remove(self.assignments@, window);
        }
        self.assignments.remove(&ids::window_number(window));
        assert(self@ =~= (StoreView {
            assignments: old(self)@.assignments.remove(window),
            ..old(self)@
        }));
    }

    pub fn insert_window(&mut self, window: WindowId, state: WindowState)
        ensures
            final(self)@ == (StoreView {
                windows: old(self)@.windows.insert(window, state),
                ..old(self)@
            }),
    {
        proof {
            ids::lemma_window_key(window, window);
            lemma_by_window_insert(self.windows@, window, state);
        }
        self.windows.insert(ids::window_number(window), state);
        assert(self@ =~= (StoreView {
            windows: old(self)@.windows.insert(window, state),
            ..old(self)@
        }));
    }

    /// Forgets a window and its layout slot.
    pub fn remove_window(&mut self, window: WindowId)
        ensures
            final(self)@ == (StoreView {
                windows: old(self)@.windows.remove(window),
                assignments: old(self)@.assignments.remove(window),
                ..old(self)@
            }),
    {
        proof {
            ids::lemma_window_key(window, window);
            lemma_by_window_remove(self.windows@, window);
            lemma_by_window_remove(self.assignments@, window);
        }
        self.windows.remove(&ids::window_number(window));
        self.assignments.remove(&ids::window_number(window));
        assert(self@ =~= (StoreView {
            windows: old(self)@.windows.remove(window),
            assignments: old(self)@.assignments.remove(window),
            ..old(self)@
        }));
    }

    /// Notes that the window server reported a window that nobody claimed yet.
    pub fn mark_window_server_observed(&mut self, window: WindowServerId)
        ensures
            final(self)@ == (StoreView {
                observed: old(self)@.observed.insert(window.id),
                ..old(self)@
            }),
    {
        self.observed.insert(window.id);
        assert(self@ =~= (StoreView {
            observed: old(self)@.observed.insert(window.id),
            ..old(self)@
        }));
    }

    pub fn clear_window_server_observed(&mut self, window: WindowServerId)
        ensures
            final(self)@ == (StoreView {
                observed: old(self)@.observed.remove(window.id),
                ..old(self)@
            }),
    {
        self.observed.remove(&window.id);
        assert(self@ =~= (StoreView {
            observed: old(self)@.observed.remove(window.id),
            ..old(self)@
        }));
    }

    pub fn track_window_server_info(&mut self, info: WindowServerInfo)
        ensures
            final(self)@ == (StoreView {
                server_info: old(self)@.server_info.insert(info.id.id, info),
                ..old(self)@
            }),
    {
        self.server_info.insert(info.id.id, info);
        assert(self@ =~= (StoreView {
            server_info: old(self)@.server_info.insert(info.id.id, info),
            ..old(self)@
        }));
    }

    pub fn set_window_server_space(&mut self, window: WindowServerId, space: Option<SpaceId>)
        ensures
            final(self)@ == (StoreView {
                server_spaces: match space {
                    Some(space) => old(self)@.server_spaces.insert(window.id, space),
                    None => old(self)@.server_spaces.remove(window.id),
                },
                ..old(self)@
            }),
    {
        match space {
            Some(space) => {
                self.server_spaces.insert(window.id, space);
            },
            None => {
                self.server_spaces.remove(&window.id);
            },
        }
    }

    pub fn window_server_space(&self, window: WindowServerId) -> (space: Option<SpaceId>)
        ensures
            space == (if self@.server_spaces.contains_key(window.id) {
                Some(self@.server_spaces[window.id])
            } else {
                None
            }),
    {
        match self.server_spaces.get(&window.id) {
            Some(space) => Some(*space),
            None => None,
        }
    }

    pub fn mark_window_visible(&mut self, window: WindowServerId)
        ensures
            final(self)@ == (StoreView {
                visible: old(self)@.visible.insert(window.id),
                ..old(self)@
            }),
    {
        self.visible.insert(window.id);
        assert(self@ =~= (StoreView {
            visible: old(self)@.visible.insert(window.id),
            ..old(self)@
        }));
    }

    pub fn is_window_visible(&self, window: WindowServerId) -> (visible: bool)
        ensures
            visible == self@.visible.contains(window.id),
    {
        self.visible.contains(&window.id)
    }
}

/// The desktop as the reactor knows it.
#[derive(Debug)]
pub struct RiftState {
    pub windows: WindowStore,
}

/// The windows in their layout slots.
#[derive(Debug)]
pub struct LayoutEngine {
    pub slots: Vec<WindowId>,
}

/// The slots with one window in place of another.
pub open spec fn rekeyed(slots: Seq<WindowId>, previous: WindowId, current: WindowId) -> Seq<
    WindowId,
> {
    slots.map_values(
        |window: WindowId|
            if window == previous {
                current
            } else {
                window
            },
    )
}

/// The layout slots' workspaces with one window in place of another.
pub open spec fn moved_assignment(
    assignments: Map<WindowId, WorkspaceInfo>,
    previous: WindowId,
    current: WindowId,
) -> Map<WindowId, WorkspaceInfo> {
    if assignments.contains_key(previous) {
        assignments.remove(previous).insert(current, assignments[previous])
    } else {
        assignments
    }
}

impl LayoutEngine {
    /// Lets one window take over the layout slot of another.
    pub fn rekey_window_identity(
        &mut self,
        windows: &mut WindowStore,
        previous: WindowId,
        current: WindowId,
    )
        ensures
            final(self).slots@ == rekeyed(old(self).slots@, previous, current),
            final(windows)@ == (StoreView {
                assignments: moved_assignment(old(windows)@.assignments, previous, current),
                ..old(windows)@
            }),
    {
        let mut slots: Vec<WindowId> = Vec::new();
        let mut i: usize = 0;
        let ghost before = self.slots@;
        while i < self.slots.len()
            invariant
                i <= self.slots@.len(),
                before == self.slots@,
                slots@ == rekeyed(before, previous, current).take(i as int),
            decreases self.slots@.len() - i,
        {
            if self.slots[i] == previous {
                slots.push(current);
            } else {
                slots.push(self.slots[i]);
            }
            assert(slots@ =~= rekeyed(before, previous, current).take(i + 1));
            i = i + 1;
        }
        assert(slots@ =~= rekeyed(before, previous, current));
        self.slots = slots;
        match windows.workspace_info_for_window(previous) {
            Some(info) => {
                windows.unassign_workspace(previous);
                windows.assign_workspace(current, info);
            },
            None => {},
        }
    }
}

#[derive(Debug)]
pub struct LayoutManager {
    pub layout_engine: LayoutEngine,
}

/// The frame changes that are under way, by window.
#[derive(Debug)]
pub struct TransactionManager {
    pending: HashMap<u32, u64>,
}

impl View for TransactionManager {
    type V = Map<u32, u64>;

    closed spec fn view(&self) -> Map<u32, u64> {
        self.pending@
    }
}

impl Default for TransactionManager {
    fn default() -> (transactions: Self)
        ensures
            transactions@ == Map::<u32, u64>::empty(),
    {
        TransactionManager { pending: HashMap::new() }
    }
}

impl TransactionManager {
    /// Notes that a frame change of the window is under way.
    pub fn begin_for_window(&mut self, window: WindowServerId, transaction: u64)
        ensures
            final(self)@ == old(self)@.insert(window.id, transaction),
    {
        self.pending.insert(window.id, transaction);
    }

    /// The frame change of the window that is under way.
    pub fn pending_for_window(&self, window: WindowServerId) -> (transaction: Option<u64>)
        ensures
            transaction == (if self@.contains_key(window.id) {
                Some(self@[window.id])
            } else {
                None
            }),
    {
        match self.pending.get(&window.id) {
            Some(transaction) => Some(*transaction),
            None => None,
        }
    }

    pub fn remove_for_window(&mut self, window: WindowServerId)
        ensures
            final(self)@ == old(self)@.remove(window.id),
    {
        self.pending.remove(&window.id);
    }
}

} // verus!
