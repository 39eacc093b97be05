//! One native tab takes the place of another.

use rift::actor::reactor::events::native_tab::{handle_native_tab_focused, NativeTabFocusedPayload};
use rift::actor::reactor::state::{
    LayoutEngine, LayoutManager, RiftState, TransactionManager, WindowInfo, WindowServerInfo,
    WindowState, WindowStore, WorkspaceInfo,
};
use rift::model::geometry::{Coord, Frame, Point, Size};
use rift::model::ids::{SpaceId, VirtualWorkspaceId, WindowId, WindowServerId};

fn frame(value: f64) -> Frame {
    let side = Coord {
        bits: value.to_bits(),
    };
    Frame {
        origin: Point { x: side, y: side },
        size: Size {
            width: side,
            height: side,
        },
    }
}

fn info(sys_id: Option<u32>, at: f64) -> WindowInfo {
    WindowInfo {
        is_standard: true,
        is_minimized: false,
        title: "tab".to_string(),
        frame: frame(at),
        sys_id: sys_id.map(WindowServerId::new),
    }
}

const SPACE: SpaceId = SpaceId { id: 4 };

fn previous() -> WindowId {
    WindowId::new(7, 1)
}

fn current() -> WindowId {
    WindowId::new(7, 2)
}

fn desktop() -> (RiftState, LayoutManager, TransactionManager) {
    let mut windows = WindowStore::default();
    windows.insert_window(
        previous(),
        WindowState {
            info: info(Some(10), 1.0),
            frame_monotonic: frame(5.0),
            is_manageable: true,
            manage_override: Some(false),
        },
    );
    windows.assign_workspace(
        previous(),
        WorkspaceInfo {
            space: SPACE,
            workspace: VirtualWorkspaceId { id: 9 },
        },
    );
    windows.mark_window_server_observed(WindowServerId::new(11));
    let mut transactions = TransactionManager::default();
    transactions.begin_for_window(WindowServerId::new(10), 99);
    let layout = LayoutManager {
        layout_engine: LayoutEngine {
            slots: vec![WindowId::new(1, 1), previous()],
        },
    };
    (RiftState { windows }, layout, transactions)
}

fn payload(current: WindowId, sys_id: Option<u32>) -> NativeTabFocusedPayload {
    NativeTabFocusedPayload {
        previous: previous(),
        current,
        window: info(sys_id, 2.0),
        window_server_info: Some(WindowServerInfo {
            id: WindowServerId::new(11),
            pid: 7,
            layer: 0,
            frame: frame(2.0),
        }),
    }
}

#[test]
fn a_new_tab_takes_over_slot_frame_and_focus() {
    let (mut state, mut layout, mut transactions) = desktop();
    let outcome = handle_native_tab_focused(
        &mut state,
        &mut layout,
        &mut transactions,
        payload(current(), Some(11)),
        true,
    );

    assert_eq!(outcome.layout_changed, Some(false));
    assert_eq!(outcome.arrange_space_scope, Some(SPACE));
    assert_eq!(outcome.focused_window_broadcast, Some(current()));
    assert_eq!(outcome.focused_window, Some(current()));
    assert_eq!(
        layout.layout_engine.slots,
        [WindowId::new(1, 1), current()]
    );
    assert!(state.windows.window(previous()).is_none());
    assert!(state.windows.workspace_info_for_window(previous()).is_none());
    let kept = state.windows.window(current()).expect("the new tab");
    assert!(kept.frame_monotonic.same(frame(5.0)));
    assert!(kept.info.frame.same(frame(5.0)));
    assert_eq!(kept.info.sys_id, Some(WindowServerId::new(11)));
    assert_eq!(kept.manage_override, Some(false));
    assert_eq!(
        state
            .windows
            .workspace_info_for_window(current())
            .map(|info| info.workspace),
        Some(VirtualWorkspaceId { id: 9 })
    );
    assert_eq!(
        state.windows.window_server_space(WindowServerId::new(11)),
        Some(SPACE)
    );
    assert!(state.windows.is_window_visible(WindowServerId::new(11)));
    assert_eq!(
        transactions.pending_for_window(WindowServerId::new(10)),
        None
    );
}

fn assert_ignored(payload: NativeTabFocusedPayload, frames_match: bool) {
    let (mut state, mut layout, mut transactions) = desktop();
    let outcome = handle_native_tab_focused(
        &mut state,
        &mut layout,
        &mut transactions,
        payload,
        frames_match,
    );
    assert_eq!(outcome.layout_changed, None);
    assert_eq!(outcome.focused_window, None);
    assert!(state.windows.window(previous()).is_some());
    assert!(state.windows.window(current()).is_none());
    assert_eq!(
        layout.layout_engine.slots,
        [WindowId::new(1, 1), previous()]
    );
    assert_eq!(
        transactions.pending_for_window(WindowServerId::new(10)),
        Some(99)
    );
}

#[test]
fn transitions_that_cannot_be_verified_are_ignored() {
    assert_ignored(payload(current(), Some(11)), false);
    assert_ignored(payload(current(), None), true);
    assert_ignored(payload(previous(), Some(11)), true);
    assert_ignored(payload(WindowId::new(8, 2), Some(11)), true);
    let mut stale = payload(current(), Some(11));
    stale.previous = WindowId::new(7, 9);
    assert_ignored(stale, true);
}

#[test]
fn a_tab_without_a_layout_slot_is_ignored() {
    let (mut state, mut layout, mut transactions) = desktop();
    state.windows.unassign_workspace(previous());
    let outcome = handle_native_tab_focused(
        &mut state,
        &mut layout,
        &mut transactions,
        payload(current(), Some(11)),
        true,
    );
    assert_eq!(outcome.focused_window, None);
    assert!(state.windows.window(previous()).is_some());
}
