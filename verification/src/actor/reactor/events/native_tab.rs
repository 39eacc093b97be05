//! Native tabs: one window takes the place of another.

use vstd::prelude::*;

use crate::actor::reactor::events::outcome::EventOutcome;
use crate::actor::reactor::state;
use crate::actor::reactor::state::{
    LayoutManager, RiftState, TransactionManager, WindowInfo, WindowServerInfo, WindowState,
};
#[allow(unused_imports)]
use crate::actor::reactor::state::StoreView;
use crate::model::ids::{WindowId, WindowServerId};

verus! {

/// A tab was selected: `current` is shown where `previous` was.
#[derive(Debug)]
pub struct NativeTabFocusedPayload {
    pub previous: WindowId,
    pub current: WindowId,
    pub window: WindowInfo,
    pub window_server_info: Option<WindowServerInfo>,
}

/// Whether the new tab takes the old one's place: the old one is known and has a
/// layout slot, the new one has a window-server identity, both belong to one
/// application, and their frames match.
pub open spec fn is_tab_replacement(
    windows: StoreView,
    payload: NativeTabFocusedPayload,
    frames_match: bool,
) -> bool {
    &&& windows.windows.contains_key(payload.previous)
    &&& windows.assignments.contains_key(payload.previous)
    &&& payload.window.sys_id is Some
    &&& payload.previous != payload.current
    &&& payload.previous.pid == payload.current.pid
    &&& frames_match
}

/// The new tab's state: its own identity in the old one's place.
pub open spec fn replacing_state(previous: WindowState, window: WindowInfo) -> WindowState {
    WindowState {
        info: WindowInfo { frame: previous.frame_monotonic, ..window },
        frame_monotonic: previous.frame_monotonic,
        is_manageable: previous.is_manageable,
        manage_override: previous.manage_override,
    }
}

/// The windows after the new tab took the old one's place.
pub open spec fn windows_after_replacement(
    windows: StoreView,
    payload: NativeTabFocusedPayload,
) -> StoreView {
    let current_wsid = payload.window.sys_id->0.id;
    StoreView {
        windows: windows.windows.insert(
            payload.current,
            replacing_state(windows.windows[payload.previous], payload.window),
        ).remove(payload.previous),
        assignments: state::moved_assignment(
            windows.assignments,
            payload.previous,
            payload.current,
        ).remove(payload.previous),
        server_info: match payload.window_server_info {
            Some(info) => windows.server_info.insert(info.id.id, info),
            None => windows.server_info,
        },
        server_spaces: windows.server_spaces.insert(
            current_wsid,
            windows.assignments[payload.previous].space,
        ),
        observed: match payload.window_server_info {
            Some(info) => windows.observed.remove(info.id.id),
            None => windows.observed,
        }.remove(current_wsid),
        visible: windows.visible.insert(current_wsid),
    }
}

/// The frame changes under way after the new tab took the old one's place: that
/// of the old one is given up.
pub open spec fn transactions_after_replacement(
    transactions: Map<u32, u64>,
    windows: StoreView,
    payload: NativeTabFocusedPayload,
) -> Map<u32, u64> {
    match windows.windows[payload.previous].info.sys_id {
        Some(previous_wsid) => transactions.remove(previous_wsid.id),
        None => transactions,
    }
}

/// What follows from a replacement: the layout of the space is arranged anew, and
/// the new tab has the focus.
pub open spec fn replacement_outcome(
    windows: StoreView,
    payload: NativeTabFocusedPayload,
) -> EventOutcome {
    EventOutcome {
        layout_changed: Some(false),
        arrange_space_scope: Some(windows.assignments[payload.previous].space),
        focused_window_broadcast: Some(payload.current),
        focused_window: Some(payload.current),
    }
}

/// What a selected tab can change, as mathematics.
pub struct TabView {
    pub windows: StoreView,
    pub slots: Seq<WindowId>,
    pub transactions: Map<u32, u64>,
}

/// Whether this follows from a selected tab: one that takes the old one's place
/// does so in the windows, the layout and the focus, and any other changes
/// nothing.
pub open spec fn is_tab_handled(
    before: TabView,
    after: TabView,
    payload: NativeTabFocusedPayload,
    frames_match: bool,
    outcome: EventOutcome,
) -> bool {
    if is_tab_replacement(before.windows, payload, frames_match) {
        &&& after.windows == windows_after_replacement(before.windows, payload)
        &&& after.slots == state::rekeyed(before.slots, payload.previous, payload.current)
        &&& after.transactions == transactions_after_replacement(
            before.transactions,
            before.windows,
            payload,
        )
        &&& outcome == replacement_outcome(before.windows, payload)
    } else {
        after == before && outcome == EventOutcome::nothing()
    }
}

/// Lets a newly selected native tab take the place of the one shown before, in
/// the layout and in the focus. `frames_match` tells whether the new tab's frame
/// is the one in which the previous window was last seen. A transition that
/// cannot be verified changes nothing.
pub fn handle_native_tab_focused(
    state: &mut RiftState,
    layout: &mut LayoutManager,
    transactions: &mut TransactionManager,
    payload: NativeTabFocusedPayload,
    frames_match: bool,
) -> (outcome: EventOutcome)
    ensures
        is_tab_handled(
            TabView {
                windows: old(state).windows@,
                slots: old(layout).layout_engine.slots@,
                transactions: old(transactions)@,
            },
            TabView {
                windows: final(state).windows@,
                slots: final(layout).layout_engine.slots@,
                transactions: final(transactions)@,
            },
            payload,
            frames_match,
            outcome,
        ),
        !is_tab_replacement(old(state).windows@, payload, frames_match) ==> {
            &&& *final(state) == *old(state)
            &&& *final(layout) == *old(layout)
            &&& *final(transactions) == *old(transactions)
            &&& outcome == EventOutcome::nothing()
        },
{
    let NativeTabFocusedPayload { previous, current, window, window_server_info } = payload;
    let previous_state: WindowState = match state.windows.window(previous) {
        Some(previous_state) => previous_state.clone(),
        None => {
            return EventOutcome::no_change();
        },
    };
    let assignment = match state.windows.workspace_info_for_window(previous) {
        Some(assignment) => assignment,
        None => {
            return EventOutcome::no_change();
        },
    };
    let current_wsid: WindowServerId = match window.sys_id {
        Some(current_wsid) => current_wsid,
        None => {
            return EventOutcome::no_change();
        },
    };
    let is_replacement: bool = previous != current && previous.pid == current.pid && frames_match;
    if !is_replacement {
        return EventOutcome::no_change();
    }
    let previous_wsid: Option<WindowServerId> = previous_state.info.sys_id;
    let mut window = window;
    window.frame = previous_state.frame_monotonic;
    let current_state = WindowState {
        info: window,
        frame_monotonic: previous_state.frame_monotonic,
        is_manageable: previous_state.is_manageable,
        manage_override: previous_state.manage_override,
    };
    match window_server_info {
        Some(info) => {
            state.windows.clear_window_server_observed(info.id);
            state.windows.track_window_server_info(info);
        },
        None => {},
    }
    state.windows.insert_window(current, current_state);
    state.windows.clear_window_server_observed(current_wsid);
    layout.layout_engine.rekey_window_identity(&mut state.windows, previous, current);
    state.windows.set_window_server_space(current_wsid, Some(assignment.space));
    state.windows.mark_window_visible(current_wsid);
    match previous_wsid {
        Some(previous_wsid) => {
            transactions.remove_for_window(previous_wsid);
        },
        None => {},
    }
    state.windows.remove_window(previous);
    let mut outcome: EventOutcome = EventOutcome::layout_changed(false).with_arrange_space_scope(
        Some(assignment.space),
    ).with_focused_window_broadcast(current);
    outcome.focused_window = Some(current);
    assert(state.windows@ =~= windows_after_replacement(old(state).windows@, payload));
    outcome
}

/// After a replacement the old tab is gone, and the new one has its layout slot
/// and its frame and is visible.
pub proof fn law_replacement_keeps_the_slot(
    windows: StoreView,
    payload: NativeTabFocusedPayload,
    slots: Seq<WindowId>,
)
    requires
        is_tab_replacement(windows, payload, true),
    ensures
        ({
            let after = windows_after_replacement(windows, payload);
            let slots_after = state::rekeyed(slots, payload.previous, payload.current);
            &&& !after.windows.contains_key(payload.previous)
            &&& !after.assignments.contains_key(payload.previous)
            &&& after.windows.contains_key(payload.current)
            &&& after.windows[payload.current].frame_monotonic
                == windows.windows[payload.previous].frame_monotonic
            &&& after.assignments.contains_key(payload.current)
            &&& after.assignments[payload.current] == windows.assignments[payload.previous]
            &&& after.visible.contains(payload.window.sys_id->0.id)
            &&& !after.observed.contains(payload.window.sys_id->0.id)
            &&& slots_after.len() == slots.len()
            &&& forall|i: int|
                0 <= i < slots.len() ==> #[trigger] slots_after[i] == if slots[i]
                    == payload.previous {
                    payload.current
                } else {
                    slots[i]
                }
            &&& forall|other: WindowId|
                other != payload.previous && other != payload.current ==> {
                    &&& #[trigger] after.windows.contains_key(other)
                        == windows.windows.contains_key(other)
                    &&& windows.windows.contains_key(other) ==> after.windows[other]
                        == windows.windows[other]
                    &&& after.assignments.contains_key(other)
                        == windows.assignments.contains_key(other)
                    &&& windows.assignments.contains_key(other) ==> after.assignments[other]
                        == windows.assignments[other]
                }
        }),
{
}

/// A tab takes another's place only within one application, from a window that is
/// known and has a layout slot, to one that the window server numbers, where it
/// was. Nothing else keeps it from doing so.
pub proof fn law_tab_stays_in_its_application(
    windows: StoreView,
    payload: NativeTabFocusedPayload,
    frames_match: bool,
)
    ensures
        is_tab_replacement(windows, payload, frames_match) <==> {
            &&& payload.current.pid == payload.previous.pid
            &&& payload.current.idx != payload.previous.idx
            &&& windows.windows.contains_key(payload.previous)
            &&& windows.assignments.contains_key(payload.previous)
            &&& payload.window.sys_id is Some
            &&& frames_match
        },
{
}

/// The new tab is itself in the old one's place: it has its own title and number,
/// the old one's frame, both as seen and as told, and the old one's management.
/// The window server has it on the old one's space and visible, what that one
/// told of it is kept, and nobody has to claim it any more. What is known of
/// other windows of the window server stays.
pub proof fn law_new_tab_is_itself(
    windows: StoreView,
    payload: NativeTabFocusedPayload,
    other: u32,
)
    requires
        is_tab_replacement(windows, payload, true),
    ensures
        ({
            let after = windows_after_replacement(windows, payload);
            let (old_tab, new_tab) = (
                windows.windows[payload.previous],
                after.windows[payload.current],
            );
            let number = payload.window.sys_id->0.id;
            &&& new_tab.info.sys_id == payload.window.sys_id
            &&& new_tab.info.title == payload.window.title
            &&& new_tab.info.is_standard == payload.window.is_standard
            &&& new_tab.info.is_minimized == payload.window.is_minimized
            &&& new_tab.info.frame == old_tab.frame_monotonic
            &&& new_tab.frame_monotonic == old_tab.frame_monotonic
            &&& new_tab.is_manageable == old_tab.is_manageable
            &&& new_tab.manage_override == old_tab.manage_override
            &&& after.server_spaces.contains_key(number)
            &&& after.server_spaces[number] == windows.assignments[payload.previous].space
            &&& after.visible.contains(number)
            &&& !after.observed.contains(number)
            &&& payload.window_server_info matches Some(info) ==> {
                &&& after.server_info.contains_key(info.id.id)
                &&& after.server_info[info.id.id] == info
                &&& !after.observed.contains(info.id.id)
            }
            &&& other != number && (payload.window_server_info matches Some(info) ==> other
                != info.id.id) ==> {
                &&& after.visible.contains(other) == windows.visible.contains(other)
                &&& after.observed.contains(other) == windows.observed.contains(other)
                &&& after.server_info.contains_key(other) == windows.server_info.contains_key(other)
                &&& windows.server_info.contains_key(other) ==> after.server_info[other]
                    == windows.server_info[other]
                &&& after.server_spaces.contains_key(other) == windows.server_spaces.contains_key(
                    other,
                )
                &&& windows.server_spaces.contains_key(other) ==> after.server_spaces[other]
                    == windows.server_spaces[other]
            }
        }),
{
}

/// After a replacement the new tab has the focus and its space is arranged anew,
/// without a resize. The old tab's frame change is given up, and no other.
pub proof fn law_replacement_moves_the_focus(
    windows: StoreView,
    payload: NativeTabFocusedPayload,
    transactions: Map<u32, u64>,
    other: u32,
)
    ensures
        ({
            let outcome = replacement_outcome(windows, payload);
            let after = transactions_after_replacement(transactions, windows, payload);
            let gone = windows.windows[payload.previous].info.sys_id;
            &&& outcome.focused_window == Some(payload.current)
            &&& outcome.focused_window_broadcast == Some(payload.current)
            &&& outcome.arrange_space_scope == Some(
                windows.assignments[payload.previous].space,
            )
            &&& outcome.layout_changed == Some(false)
            &&& EventOutcome::nothing().focused_window is None
            &&& EventOutcome::nothing().focused_window_broadcast is None
            &&& EventOutcome::nothing().arrange_space_scope is None
            &&& EventOutcome::nothing().layout_changed is None
            &&& after.contains_key(other) <==> transactions.contains_key(other) && !(gone is Some
                && gone->0.id == other)
            &&& after.contains_key(other) ==> after[other] == transactions[other]
        }),
{
}

/// A selected tab that cannot be verified changes nothing and asks for nothing.
/// One that can takes over every layout slot of the old tab, and its workspace,
/// and is focused; no other window moves.
pub proof fn law_tab_takes_over_or_nothing_happens(
    before: TabView,
    after: TabView,
    payload: NativeTabFocusedPayload,
    frames_match: bool,
    outcome: EventOutcome,
    i: int,
)
    requires
        is_tab_handled(before, after, payload, frames_match, outcome),
        0 <= i < before.slots.len(),
    ensures
        ({
            let verified = payload.current.pid == payload.previous.pid && payload.current
                != payload.previous && before.windows.windows.contains_key(payload.previous)
                && before.windows.assignments.contains_key(payload.previous)
                && payload.window.sys_id is Some && frames_match;
            &&& !verified ==> after == before && outcome.focused_window is None
                && outcome.layout_changed is None && outcome.focused_window_broadcast is None
                && outcome.arrange_space_scope is None
            &&& verified ==> {
                &&& after.slots.len() == before.slots.len()
                &&& after.slots[i] == (if before.slots[i] == payload.previous {
                    payload.current
                } else {
                    before.slots[i]
                })
                &&& after.windows.windows.contains_key(payload.current)
                &&& !after.windows.windows.contains_key(payload.previous)
                &&& after.windows.assignments[payload.current]
                    == before.windows.assignments[payload.previous]
                &&& outcome.focused_window == Some(payload.current)
                &&& outcome.focused_window_broadcast == Some(payload.current)
                &&& outcome.arrange_space_scope == Some(
                    before.windows.assignments[payload.previous].space,
                )
                &&& outcome.layout_changed == Some(false)
                &&& before.windows.windows[payload.previous].info.sys_id matches Some(gone)
                    ==> !after.transactions.contains_key(gone.id)
            }
        }),
{
}

} // verus!
