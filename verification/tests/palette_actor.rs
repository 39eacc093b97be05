//! The command palette's lifecycle.

use std::sync::Arc;

use rift::actor::command_palette::{
    dispatch_action, focus_origin_action, panel_mode, Command, CommandPalette,
    CommandPaletteSettings, Effect, Event, Session,
};
use rift::actor::commands::{DisplaySelector, LayoutCommand, ReactorCommand, WorkspaceSelector};
use rift::model::command_palette::{
    LayoutMode, PaletteAction, PaletteEntry, PaletteEntryId, PaletteEntryKind, PaletteFocusOrigin,
    PaletteMode, PaletteSnapshot,
};
use rift::model::geometry::Coord;
use rift::model::ids::{WindowId, WindowServerId};
use rift::model::projection::{DesktopSnapshot, DesktopState, StateRevision};
use rift::ui::command_palette::{PaletteInput, PalettePanelMode};

fn settings(enabled: bool, width: f64) -> CommandPaletteSettings {
    CommandPaletteSettings {
        enabled,
        width: Coord {
            bits: width.to_bits(),
        },
        max_results: 8,
    }
}

fn window_entry(pid: i32, index: u32, title: &str) -> PaletteEntry {
    let window = WindowId::new(pid, index);
    PaletteEntry::new(
        PaletteEntryId::Window(window),
        PaletteEntryKind::Window,
        title.to_string(),
        "place".to_string(),
        vec![],
        Some(pid),
        PaletteAction::FocusWindow {
            window_id: window,
            window_server_id: Some(WindowServerId::new(index)),
        },
    )
}

fn app_entry(pid: i32, name: &str) -> PaletteEntry {
    PaletteEntry::new(
        PaletteEntryId::Application(pid),
        PaletteEntryKind::Application,
        name.to_string(),
        "Running application".to_string(),
        vec![],
        Some(pid),
        PaletteAction::ActivateApplication(pid),
    )
}

fn origin() -> PaletteFocusOrigin {
    PaletteFocusOrigin {
        app_pid: 5,
        window_id: Some(WindowId::new(5, 9)),
        window_server_id: None,
    }
}

fn offer() -> PaletteSnapshot {
    PaletteSnapshot {
        entries: vec![
            window_entry(1, 1, "alpha"),
            window_entry(2, 1, "beta"),
            app_entry(3, "zed"),
        ],
        focus_origin: Some(origin()),
        target_display_id: Some(77),
    }
}

/// A short name for each effect.
fn names(effects: &[Effect]) -> Vec<String> {
    effects
        .iter()
        .map(|effect| match effect {
            Effect::CreatePanel { .. } => "create".to_string(),
            Effect::RemovePanel => "remove".to_string(),
            Effect::HidePanel => "hide".to_string(),
            Effect::SetPanelQuery(query) => format!("query {query}"),
            Effect::RenderPanel { rows, selected } => format!("render {} {selected:?}", rows.len()),
            Effect::ShowPanel { .. } => "show".to_string(),
            Effect::RequestSnapshot(generation) => format!("request {generation}"),
            Effect::ScheduleDispatch(_) => "dispatch".to_string(),
            Effect::ScheduleRestore(_) => "restore".to_string(),
            Effect::Perform(_) => "perform".to_string(),
        })
        .collect()
}

fn visible() -> CommandPalette {
    let mut actor = CommandPalette::new(settings(true, 640.0));
    actor.handle_event(Event::Toggle);
    actor.handle_event(Event::Snapshot {
        generation: 1,
        snapshot: offer(),
    });
    actor
}

#[test]
fn focus_origin_action_should_restore_exact_window_when_available() {
    let window = WindowId::new(5, 9);

    assert_eq!(
        focus_origin_action(PaletteFocusOrigin {
            app_pid: window.pid,
            window_id: Some(window),
            window_server_id: None,
        }),
        PaletteAction::FocusWindow {
            window_id: window,
            window_server_id: None,
        }
    );
}

#[test]
fn focus_origin_action_should_restore_app_when_window_is_unavailable() {
    assert_eq!(
        focus_origin_action(PaletteFocusOrigin {
            app_pid: 7,
            window_id: None,
            window_server_id: None,
        }),
        PaletteAction::ActivateApplication(7)
    );
}

#[test]
fn session_should_reject_stale_snapshot_generation() {
    assert!(!Session::Opening {
        generation: 9,
        mode: PaletteMode::Commands,
    }
    .accepts_snapshot(8));
}

#[test]
fn command_mode_should_map_to_the_commands_panel_header() {
    assert_eq!(
        panel_mode(PaletteMode::Commands),
        PalettePanelMode::Commands
    );
}

#[test]
fn sessions_accept_their_own_generation() {
    let opening = Session::Opening {
        generation: 9,
        mode: PaletteMode::Windows,
    };
    let open = Session::Visible {
        generation: 9,
        origin: None,
        mode: PaletteMode::Windows,
    };
    assert!(opening.accepts_snapshot(9));
    assert!(open.accepts_snapshot(9));
    assert!(!open.accepts_snapshot(10));
    assert!(!Session::Hidden.accepts_snapshot(0));
    assert_eq!(panel_mode(PaletteMode::Windows), PalettePanelMode::Windows);
}

#[test]
fn opening_asks_shows_and_renders() {
    let mut actor = CommandPalette::new(settings(true, 640.0));
    assert_eq!(names(&actor.start()), ["create"]);
    assert!(actor.start().is_empty());
    assert_eq!(
        names(&actor.handle_event(Event::ToggleCommands)),
        ["request 1"]
    );
    let stale = actor.handle_event(Event::Snapshot {
        generation: 0,
        snapshot: offer(),
    });
    assert!(stale.is_empty());
    let mut effects = actor.handle_event(Event::Snapshot {
        generation: 1,
        snapshot: offer(),
    });
    assert_eq!(names(&effects), ["render 0 None", "show"]);
    match effects.pop() {
        Some(Effect::ShowPanel {
            display_id,
            query,
            mode,
        }) => {
            assert_eq!(display_id, Some(77));
            assert_eq!(query, "");
            assert_eq!(mode, PalettePanelMode::Commands);
        }
        other => panic!("not shown: {other:?}"),
    }
}

#[test]
fn a_disabled_palette_does_not_open() {
    let mut actor = CommandPalette::new(settings(false, 640.0));
    assert!(actor.start().is_empty());
    assert!(actor.handle_event(Event::Toggle).is_empty());
    assert_eq!(actor.session, Session::Hidden);
    assert_eq!(actor.generation, 0);
}

#[test]
fn rows_carry_labels_and_icons() {
    let mut actor = CommandPalette::new(settings(true, 640.0));
    actor.handle_event(Event::Toggle);
    let effects = actor.handle_event(Event::Snapshot {
        generation: 1,
        snapshot: offer(),
    });
    match &effects[0] {
        Effect::RenderPanel { rows, selected } => {
            assert_eq!(*selected, Some(0));
            assert_eq!(rows.len(), 3);
            assert_eq!(rows[0].primary, "alpha");
            assert_eq!(rows[0].secondary, "place");
            assert_eq!(rows[2].kind, PaletteEntryKind::Application);
            assert_eq!(rows[2].app_pid, Some(3));
        }
        other => panic!("not rendered: {other:?}"),
    }
}

#[test]
fn input_is_ignored_unless_the_palette_is_visible() {
    let mut actor = CommandPalette::new(settings(true, 640.0));
    assert!(actor
        .handle_event(Event::Input(PaletteInput::Execute))
        .is_empty());
    actor.handle_event(Event::Toggle);
    assert!(actor
        .handle_event(Event::Input(PaletteInput::Cancel))
        .is_empty());
    assert!(!actor.session.accepts_snapshot(0));
    assert!(actor.session.accepts_snapshot(1));
}

#[test]
fn typing_and_moving_render() {
    let mut actor = visible();
    let moved = actor.handle_event(Event::Input(PaletteInput::MoveSelection(1)));
    assert_eq!(names(&moved), ["render 3 Some(1)"]);
    let typed = actor.handle_event(Event::Input(PaletteInput::QueryChanged(
        "alpha".to_string(),
    )));
    assert_eq!(names(&typed), ["render 1 Some(0)"]);
    let nothing = actor.handle_event(Event::Input(PaletteInput::QueryChanged(
        "nothing".to_string(),
    )));
    assert_eq!(names(&nothing), ["render 0 None"]);
    assert!(actor
        .handle_event(Event::Input(PaletteInput::Execute))
        .is_empty());
}

#[test]
fn expanding_and_leaving_set_the_query() {
    let mut actor = visible();
    assert!(actor
        .handle_event(Event::Input(PaletteInput::ExpandApplication))
        .is_empty());
    actor.handle_event(Event::Input(PaletteInput::QueryChanged("zed".to_string())));
    let inside = actor.handle_event(Event::Input(PaletteInput::ExpandApplication));
    assert_eq!(names(&inside), ["query ", "render 0 None"]);
    let outside = actor.handle_event(Event::Input(PaletteInput::LeaveApplication));
    assert_eq!(names(&outside), ["query zed", "render 1 Some(0)"]);
    assert!(actor
        .handle_event(Event::Input(PaletteInput::LeaveApplication))
        .is_empty());
}

#[test]
fn executing_hides_before_it_dispatches() {
    let mut actor = visible();
    let mut effects = actor.handle_event(Event::Input(PaletteInput::Execute));
    assert_eq!(names(&effects), ["hide", "dispatch"]);
    assert_eq!(actor.session, Session::Hidden);
    assert_eq!(actor.mru.window_sequence(WindowId::new(1, 1)), 1);
    match effects.pop() {
        Some(Effect::ScheduleDispatch(action)) => assert_eq!(
            action,
            PaletteAction::FocusWindow {
                window_id: WindowId::new(1, 1),
                window_server_id: Some(WindowServerId::new(1)),
            }
        ),
        other => panic!("not dispatched: {other:?}"),
    }
}

#[test]
fn executing_an_application_prefers_its_window() {
    let mut actor = CommandPalette::new(settings(true, 640.0));
    actor.handle_event(Event::Toggle);
    actor.handle_event(Event::Snapshot {
        generation: 1,
        snapshot: PaletteSnapshot {
            entries: vec![
                app_entry(3, "alpha"),
                window_entry(3, 1, "one"),
                window_entry(3, 2, "two"),
            ],
            ..PaletteSnapshot::default()
        },
    });
    let mut effects = actor.handle_event(Event::Input(PaletteInput::ClickResult(0)));
    match effects.pop() {
        Some(Effect::ScheduleDispatch(PaletteAction::FocusWindow { window_id, .. })) => {
            assert_eq!(window_id, WindowId::new(3, 2));
        }
        other => panic!("not focused: {other:?}"),
    }

    let mut actor = visible();
    assert!(actor
        .handle_event(Event::Input(PaletteInput::ClickResult(3)))
        .is_empty());
    let mut effects = actor.handle_event(Event::Input(PaletteInput::ClickResult(2)));
    match effects.pop() {
        Some(Effect::ScheduleDispatch(action)) => {
            assert_eq!(action, PaletteAction::ActivateApplication(3));
        }
        other => panic!("not activated: {other:?}"),
    }
}

#[test]
fn cancelling_hides_before_it_restores() {
    let mut actor = visible();
    let effects = actor.handle_event(Event::Input(PaletteInput::Cancel));
    assert_eq!(names(&effects), ["hide", "restore"]);
    assert!(matches!(&effects[1], Effect::ScheduleRestore(to) if *to == origin()));
    assert!(actor.handle_event(Event::Toggle).len() == 1);
    assert_eq!(names(&actor.handle_event(Event::Toggle)), ["hide"]);
    assert_eq!(actor.generation, 2);
    let stale = actor.handle_event(Event::Snapshot {
        generation: 2,
        snapshot: offer(),
    });
    assert!(stale.is_empty());
}

#[test]
fn settings_rebuild_the_panel() {
    let mut actor = visible();
    assert!(actor
        .handle_event(Event::ConfigUpdated(settings(true, 640.0)))
        .is_empty());
    assert_eq!(
        names(&actor.handle_event(Event::ConfigUpdated(settings(true, 700.0)))),
        ["remove", "create"]
    );
    assert_eq!(
        names(&actor.handle_event(Event::ConfigUpdated(settings(false, 700.0)))),
        ["hide", "restore"]
    );
    assert_eq!(
        names(&actor.handle_event(Event::ConfigUpdated(settings(false, 640.0)))),
        ["remove"]
    );
    assert_eq!(
        names(&actor.handle_event(Event::ConfigUpdated(settings(true, 640.0)))),
        ["create"]
    );
}

fn committed(number: u64, focused: Option<WindowId>) -> Event {
    let mut revision = StateRevision::default();
    for _ in 0..number {
        revision = revision.next();
    }
    Event::DesktopSnapshot(Arc::new(DesktopSnapshot {
        revision,
        state: DesktopState {
            focused_window: focused,
            ..DesktopState::default()
        },
    }))
}

#[test]
fn committed_states_feed_the_history() {
    let mut actor = CommandPalette::new(settings(true, 640.0));
    let first = WindowId::new(1, 1);
    let second = WindowId::new(2, 1);
    assert!(actor.handle_event(committed(1, Some(first))).is_empty());
    actor.handle_event(committed(3, Some(second)));
    actor.handle_event(committed(2, Some(first)));
    assert_eq!(actor.mru.window_sequence(first), 1);
    assert_eq!(actor.mru.window_sequence(second), 2);

    let mut open = visible();
    assert_eq!(names(&open.handle_event(committed(1, None))), ["request 1"]);
    assert!(open.handle_event(committed(1, None)).is_empty());
    let refreshed = open.handle_event(Event::Snapshot {
        generation: 1,
        snapshot: offer(),
    });
    assert_eq!(names(&refreshed), ["render 3 Some(0)"]);
}

#[test]
fn scheduled_events_are_performed() {
    let mut actor = CommandPalette::new(settings(true, 640.0));
    let effects = actor.handle_event(Event::Restore(origin()));
    assert!(matches!(
        &effects[..],
        [Effect::Perform(Command::Reactor(ReactorCommand::FocusWindow { window_id, .. }))]
            if *window_id == WindowId::new(5, 9)
    ));
    let effects = actor.handle_event(Event::Dispatch(PaletteAction::ReloadConfig));
    assert!(matches!(
        &effects[..],
        [Effect::Perform(Command::ReloadConfig)]
    ));
}

#[test]
fn every_action_has_its_command() {
    let layout = |action: PaletteAction| match dispatch_action(action) {
        Command::Layout(command) => command,
        other => panic!("not a layout command: {other:?}"),
    };
    assert_eq!(
        dispatch_action(PaletteAction::FocusWindow {
            window_id: WindowId::new(1, 2),
            window_server_id: Some(WindowServerId::new(3)),
        }),
        Command::Reactor(ReactorCommand::FocusWindow {
            window_id: WindowId::new(1, 2),
            window_server_id: Some(3),
        })
    );
    assert_eq!(
        dispatch_action(PaletteAction::ActivateApplication(6)),
        Command::ActivateApplication(6)
    );
    assert_eq!(
        layout(PaletteAction::SwitchWorkspace(2)),
        LayoutCommand::SwitchToWorkspace(2)
    );
    assert_eq!(
        layout(PaletteAction::MoveWindowToWorkspace(2)),
        LayoutCommand::MoveWindowToWorkspace {
            workspace: WorkspaceSelector::Index(2),
            follow: true,
            window_id: None,
        }
    );
    assert_eq!(
        layout(PaletteAction::NextWorkspace),
        LayoutCommand::NextWorkspace(None)
    );
    assert_eq!(
        layout(PaletteAction::PreviousWorkspace),
        LayoutCommand::PrevWorkspace(None)
    );
    assert_eq!(
        layout(PaletteAction::LastWorkspace),
        LayoutCommand::SwitchToLastWorkspace
    );
    assert_eq!(
        layout(PaletteAction::ToggleFloating),
        LayoutCommand::ToggleWindowFloating
    );
    assert_eq!(
        layout(PaletteAction::ToggleFullscreen),
        LayoutCommand::ToggleFullscreen
    );
    assert_eq!(
        layout(PaletteAction::ToggleFullscreenWithinGaps),
        LayoutCommand::ToggleFullscreenWithinGaps
    );
    let mode = LayoutMode {
        name: "bsp".to_string(),
    };
    assert_eq!(
        layout(PaletteAction::SetLayout(mode.clone())),
        LayoutCommand::SetWorkspaceLayout {
            workspace: None,
            mode,
        }
    );
    assert_eq!(
        dispatch_action(PaletteAction::FocusDisplay("u".to_string())),
        Command::Reactor(ReactorCommand::FocusDisplay(DisplaySelector::Uuid(
            "u".to_string()
        )))
    );
    assert_eq!(
        dispatch_action(PaletteAction::ReloadConfig),
        Command::ReloadConfig
    );
}
