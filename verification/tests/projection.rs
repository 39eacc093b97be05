//! Committed desktop states and who hears of them.

use std::sync::Arc;

use rift::actor::reactor::projection::{Consumer, Observation, PresentationManager, Reactor};
use rift::actor::reactor::state::{
    RiftState, WindowInfo, WindowState, WindowStore,
};
use rift::model::geometry::{Coord, Frame, Point, Size};
use rift::model::ids::{SpaceId, WindowId, WindowServerId};
use rift::model::projection::{BorderTarget, DesktopState, ProjectionHub, StateRevision};
use rift::model::server::{RuntimeDisplayData, RuntimeWindowData, RuntimeWorkspaceData};
use rift::model::projection::WorkspaceContext;

fn coord(value: f64) -> Coord {
    Coord {
        bits: value.to_bits(),
    }
}

fn frame(x: f64, y: f64, width: f64, height: f64) -> Frame {
    Frame {
        origin: Point {
            x: coord(x),
            y: coord(y),
        },
        size: Size {
            width: coord(width),
            height: coord(height),
        },
    }
}

fn window_data(title: &str) -> RuntimeWindowData {
    RuntimeWindowData {
        id: WindowId::new(3, 1),
        title: title.to_string(),
        frame: frame(0.0, 0.0, 10.0, 10.0),
        is_floating: false,
        is_focused: true,
        bundle_id: Some("com.example".to_string()),
        window_server_id: Some(WindowServerId::new(8)),
    }
}

fn full_state(title: &str, x: f64) -> DesktopState {
    DesktopState {
        displays: vec![RuntimeDisplayData {
            uuid: "uuid".to_string(),
            name: Some("Display".to_string()),
            screen_id: 1,
            frame: frame(x, 0.0, 100.0, 100.0),
            space: Some(SpaceId { id: 2 }),
            is_active_context: true,
        }],
        focused_window: Some(WindowId::new(3, 1)),
        mission_control_active: false,
        border_target: Some(BorderTarget {
            window: WindowId::new(3, 1),
            window_server_id: WindowServerId::new(8),
            space: SpaceId { id: 2 },
            frame: frame(1.0, 2.0, 3.0, 4.0),
        }),
        menu_bar_context: Some(WorkspaceContext {
            active_space: SpaceId { id: 2 },
            active_space_is_activated: true,
            workspaces: vec![RuntimeWorkspaceData {
                id: "w".to_string(),
                index: 0,
                name: "one".to_string(),
                layout_mode: "bsp".to_string(),
                is_active: true,
                window_count: 1,
                windows: vec![window_data(title)],
            }],
            active_workspace_idx: Some(0),
            active_workspace: None,
            windows: vec![window_data("front")],
        }),
    }
}

#[test]
fn publish_should_require_an_explicit_dirty_mark() {
    let mut hub = ProjectionHub::default();

    assert!(hub.publish(DesktopState::default()).is_none());
}

#[test]
fn publish_should_not_advance_revision_for_equivalent_state() {
    let mut hub = ProjectionHub::default();
    hub.mark_dirty();
    let first = hub
        .publish(DesktopState::default())
        .expect("first snapshot");

    hub.mark_dirty();
    let duplicate = hub.publish(DesktopState::default());

    assert!(duplicate.is_none());
    assert_eq!(
        hub.current().map(|snapshot| snapshot.revision),
        Some(first.revision)
    );
}

#[test]
fn publish_should_advance_revision_after_state_changes() {
    let mut hub = ProjectionHub::default();
    hub.mark_dirty();
    let first = hub
        .publish(DesktopState::default())
        .expect("first snapshot");

    hub.mark_dirty();
    let second = hub
        .publish(DesktopState {
            focused_window: Some(WindowId::new(42, 7)),
            ..DesktopState::default()
        })
        .expect("changed snapshot");

    assert_eq!(second.revision.get(), first.revision.get() + 1);
}

#[test]
fn publishing_shares_one_snapshot_and_clears_the_mark() {
    let mut hub = ProjectionHub::default();
    assert!(!hub.is_dirty());
    assert!(hub.current().is_none());
    hub.mark_dirty();
    assert!(hub.is_dirty());
    let first = hub.publish(full_state("a", 0.0)).expect("a first state");
    assert!(!hub.is_dirty());
    assert!(Arc::ptr_eq(&first, hub.current().expect("current")));
    assert_eq!(first.revision.get(), 1);
    assert!(hub.publish(full_state("b", 0.0)).is_none());
}

#[test]
fn equality_looks_into_every_part_of_the_state() {
    let mut hub = ProjectionHub::default();
    hub.mark_dirty();
    assert!(hub.publish(full_state("a", 0.0)).is_some());
    hub.mark_dirty();
    assert!(hub.publish(full_state("a", -0.0)).is_none());
    hub.mark_dirty();
    assert!(hub.publish(full_state("b", 0.0)).is_some());
    hub.mark_dirty();
    assert!(hub.publish(full_state("b", 1.0)).is_some());
    hub.mark_dirty();
    let mut state = full_state("b", 1.0);
    state.mission_control_active = true;
    assert!(hub.publish(state).is_some());
}

#[test]
fn a_state_that_is_not_numeric_is_always_new() {
    let mut hub = ProjectionHub::default();
    hub.mark_dirty();
    assert!(hub.publish(full_state("a", f64::NAN)).is_some());
    hub.mark_dirty();
    let again = hub.publish(full_state("a", f64::NAN)).expect("never equal");
    assert_eq!(again.revision.get(), 2);
}

#[test]
fn revisions_count_up_from_one() {
    let zero = StateRevision::default();
    assert_eq!(zero.get(), 0);
    assert_eq!(zero.next().get(), 1);
    assert_eq!(zero.next().next().get(), 2);
    assert!(zero.next().covers(zero));
    assert!(zero.covers(zero));
    assert!(!zero.covers(zero.next()));
}

#[test]
fn coordinates_compare_like_doubles() {
    let values = [
        0.0,
        -0.0,
        1.0,
        -1.0,
        f64::MIN_POSITIVE,
        -5e-324,
        f64::INFINITY,
        f64::NEG_INFINITY,
        f64::NAN,
        -f64::NAN,
    ];
    for a in values {
        assert_eq!(coord(a).not_positive(), a <= 0.0);
        for b in values {
            assert_eq!(coord(a).same(coord(b)), a == b);
        }
    }
}

fn reactor_with(state: WindowState, visible: bool) -> Reactor {
    let mut windows = WindowStore::default();
    let server_id = state.info.sys_id;
    windows.insert_window(WindowId::new(3, 1), state);
    if visible {
        windows.mark_window_visible(server_id.expect("a window with a server id"));
    }
    Reactor {
        state: RiftState { windows },
        presentation_manager: PresentationManager {
            projections: ProjectionHub::default(),
            menu_attached: true,
            border_attached: false,
            command_palette_attached: true,
        },
    }
}

fn ordinary_window() -> WindowState {
    WindowState {
        info: WindowInfo {
            is_standard: true,
            is_minimized: false,
            title: "title".to_string(),
            frame: frame(0.0, 0.0, 0.0, 0.0),
            sys_id: Some(WindowServerId::new(8)),
        },
        frame_monotonic: frame(1.0, 2.0, 30.0, 40.0),
        is_manageable: true,
        manage_override: None,
    }
}

fn observation() -> Observation {
    Observation {
        displays: vec![],
        main_window: Some(WindowId::new(3, 1)),
        main_window_space: Some(SpaceId { id: 5 }),
        mission_control_active: true,
        menu_bar_context: None,
    }
}

#[test]
fn committed_states_reach_the_attached_actors_once() {
    let mut reactor = reactor_with(ordinary_window(), true);
    assert!(reactor.publish_desktop_snapshot(observation()).is_empty());

    reactor.presentation_manager.projections.mark_dirty();
    let deliveries = reactor.publish_desktop_snapshot(observation());
    let consumers: Vec<Consumer> = deliveries.iter().map(|delivery| delivery.consumer).collect();
    assert_eq!(consumers, [Consumer::Menu, Consumer::CommandPalette]);
    let snapshot = &deliveries[0].snapshot;
    assert!(Arc::ptr_eq(snapshot, &deliveries[1].snapshot));
    assert_eq!(snapshot.revision.get(), 1);
    assert_eq!(snapshot.state.focused_window, Some(WindowId::new(3, 1)));
    assert!(snapshot.state.mission_control_active);
    let target = snapshot.state.border_target.expect("a border");
    assert_eq!(target.window_server_id, WindowServerId::new(8));
    assert_eq!(target.space, SpaceId { id: 5 });
    assert!(target.frame.same(frame(1.0, 2.0, 30.0, 40.0)));

    reactor.presentation_manager.projections.mark_dirty();
    assert!(reactor.publish_desktop_snapshot(observation()).is_empty());
}

#[test]
fn only_a_proper_visible_window_carries_the_border() {
    let main = Some(WindowId::new(3, 1));
    let space = Some(SpaceId { id: 5 });
    let target = |state: WindowState, visible: bool| {
        reactor_with(state, visible)
            .snapshot_border_target(main, space)
            .is_some()
    };
    assert!(target(ordinary_window(), true));
    assert!(!target(ordinary_window(), false));

    let mut minimized = ordinary_window();
    minimized.info.is_minimized = true;
    assert!(!target(minimized, true));

    let mut panel = ordinary_window();
    panel.info.is_standard = false;
    assert!(!target(panel, true));

    for (width, height) in [(0.0, 40.0), (30.0, -1.0)] {
        let mut flat = ordinary_window();
        flat.frame_monotonic = frame(1.0, 2.0, width, height);
        assert!(!target(flat, true));
    }
    let mut unknown_size = ordinary_window();
    unknown_size.frame_monotonic = frame(1.0, 2.0, f64::NAN, 1.0);
    assert!(target(unknown_size, true));

    let mut anonymous = ordinary_window();
    anonymous.info.sys_id = None;
    assert!(!target(anonymous, false));

    let reactor = reactor_with(ordinary_window(), true);
    assert!(reactor.snapshot_border_target(main, None).is_none());
    assert!(reactor.snapshot_border_target(None, space).is_none());
    assert!(reactor
        .snapshot_border_target(Some(WindowId::new(4, 1)), space)
        .is_none());
}
