//! The actor behind the menu bar's icon, and its timer.

use std::sync::Arc;

use rift::actor::commands::{LayoutCommand, ReactorCommand, RestoreScope, RestoreSource};
use rift::actor::debounce::{DebounceCommand, DebounceSignal, DebounceWait, Debouncer};
use rift::actor::menu_bar::{
    Effect, Event, Menu, MenuAction, MenuBarSettings, MenuFiles, MenuLoop, Wakeup,
};
use rift::model::command_palette::LayoutMode;
use rift::model::ids::SpaceId;
use rift::model::projection::{DesktopSnapshot, DesktopState, StateRevision, WorkspaceContext};

fn files() -> MenuFiles {
    MenuFiles {
        restore_file: "/tmp/restore".to_string(),
        config_file: "/tmp/config".to_string(),
    }
}

const ON: MenuBarSettings = MenuBarSettings { enabled: true };
const OFF: MenuBarSettings = MenuBarSettings { enabled: false };

fn snapshot(number: u64, with_context: bool) -> Arc<DesktopSnapshot> {
    let mut revision = StateRevision::default();
    for _ in 0..number {
        revision = revision.next();
    }
    Arc::new(DesktopSnapshot {
        revision,
        state: DesktopState {
            menu_bar_context: if with_context {
                Some(WorkspaceContext {
                    active_space: SpaceId { id: 1 },
                    active_space_is_activated: true,
                    workspaces: vec![],
                    active_workspace_idx: None,
                    active_workspace: None,
                    windows: vec![],
                })
            } else {
                None
            },
            ..DesktopState::default()
        },
    })
}

/// A short name for each effect.
fn names(effects: &[Effect]) -> Vec<&'static str> {
    effects
        .iter()
        .map(|effect| match effect {
            Effect::CreateIcon => "create",
            Effect::RemoveIcon => "remove",
            Effect::ConfigureIcon => "configure",
            Effect::SyncWorkspaceTopology(_) => "topology",
            Effect::UpdateMenuState { .. } => "state",
            Effect::UpdateStatusIcon(_) => "icon",
            Effect::RefreshLayoutLibrary => "library",
            Effect::RefreshLayoutFilesAfter(_) => "library later",
            Effect::Layout(_) => "layout",
            Effect::Reactor(_) => "reactor",
            Effect::Open(_) => "open",
            Effect::ReloadConfig => "reload",
            Effect::ArmDebouncer => "arm",
            Effect::StopDebouncer => "stop",
        })
        .collect()
}

#[test]
fn debouncer_emits_within_one_period_during_continuous_updates() {
    let period: u64 = 40;
    let spam_duration: u64 = 250;
    let mut timer = Debouncer::new();
    let mut elapsed = None;
    let mut now: u64 = 0;
    while now < spam_duration {
        if timer.signal(DebounceSignal::Command(DebounceCommand::Arm), now, period) {
            elapsed = Some(now);
            break;
        }
        match timer.wait(now) {
            DebounceWait::AtMost(left) if left < 5 => {
                now += left;
                if timer.signal(DebounceSignal::TimedOut, now, period) {
                    elapsed = Some(now);
                    break;
                }
            }
            _ => now += 5,
        }
    }

    let elapsed = elapsed.expect("debouncer should emit a tick");
    assert!(
        elapsed < 200,
        "continuous updates starved the menu refresh for {elapsed:?}"
    );
    assert_eq!(elapsed, period);
}

#[test]
fn the_timer_waits_until_its_deadline() {
    let arm = DebounceSignal::Command(DebounceCommand::Arm);
    let mut timer = Debouncer::new();
    assert_eq!(timer.wait(5), DebounceWait::Unlimited);
    assert!(!timer.signal(arm, 100, 40));
    assert_eq!(timer, Debouncer::Armed { deadline: 140 });
    assert!(!timer.signal(arm, 130, 40));
    assert_eq!(timer.wait(130), DebounceWait::AtMost(10));
    assert_eq!(timer.wait(150), DebounceWait::AtMost(0));
    assert!(timer.signal(DebounceSignal::TimedOut, 140, 40));
    assert_eq!(timer, Debouncer::Idle);
    assert!(!timer.signal(DebounceSignal::TimedOut, 141, 40));
    assert!(timer.signal(arm, 200, 0));
}

#[test]
fn a_stopped_timer_stays_silent() {
    let arm = DebounceSignal::Command(DebounceCommand::Arm);
    let endings = [
        DebounceSignal::Command(DebounceCommand::Shutdown),
        DebounceSignal::Disconnected,
    ];
    for ending in endings {
        let mut timer = Debouncer::new();
        timer.signal(arm, 0, 40);
        assert!(!timer.signal(ending, 10, 40));
        assert_eq!(timer, Debouncer::Stopped);
        assert!(!timer.signal(arm, 500, 40));
        assert!(!timer.signal(DebounceSignal::TimedOut, 500, 40));
        assert_eq!(timer.wait(500), DebounceWait::Never);
    }
    let mut unheard = Debouncer::new();
    unheard.stop();
    assert_eq!(unheard, Debouncer::Stopped);
}

#[test]
fn states_are_shown_where_there_is_something_to_show() {
    let (mut menu, effects) = Menu::new(ON, files());
    assert_eq!(names(&effects), ["create", "configure"]);
    assert_eq!(
        names(&menu.handle_snapshot(snapshot(1, true))),
        ["topology", "state", "icon"]
    );
    assert!(menu.handle_snapshot(snapshot(1, true)).is_empty());
    assert!(menu.handle_snapshot(snapshot(2, false)).is_empty());
    assert!(menu.handle_snapshot(snapshot(1, true)).is_empty());

    let (mut hidden, effects) = Menu::new(OFF, files());
    assert!(effects.is_empty());
    assert!(hidden.handle_snapshot(snapshot(1, true)).is_empty());
    assert_eq!(
        hidden.last_snapshot.as_ref().map(|last| last.revision.get()),
        Some(1)
    );
}

#[test]
fn configuring_shows_the_last_state_again() {
    let (mut menu, _) = Menu::new(ON, files());
    menu.handle_snapshot(snapshot(3, true));
    assert_eq!(
        names(&menu.handle_config_updated(ON)),
        ["configure", "topology", "state", "icon"]
    );
    assert_eq!(names(&menu.handle_config_updated(OFF)), ["remove"]);
    assert!(menu.handle_config_updated(OFF).is_empty());
    assert_eq!(
        names(&menu.handle_config_updated(ON)),
        ["create", "configure", "topology", "state", "icon"]
    );
    assert!(menu.handle_snapshot(snapshot(2, true)).is_empty());

    let (mut fresh, _) = Menu::new(OFF, files());
    assert_eq!(
        names(&fresh.handle_config_updated(ON)),
        ["create", "configure"]
    );
}

#[test]
fn states_wait_for_the_tick() {
    let (menu, _) = Menu::new(ON, files());
    let mut actor = MenuLoop::new(menu);
    assert!(actor.step(Wakeup::Tick).is_empty());
    let first = actor.step(Wakeup::Message(Event::Snapshot(snapshot(1, true))));
    assert_eq!(names(&first), ["arm"]);
    let second = actor.step(Wakeup::Message(Event::Snapshot(snapshot(2, true))));
    assert_eq!(names(&second), ["arm"]);
    let configured = actor.step(Wakeup::Message(Event::ConfigUpdated(ON)));
    assert_eq!(names(&configured), ["configure"]);
    assert_eq!(
        names(&actor.step(Wakeup::Tick)),
        ["topology", "state", "icon"]
    );
    assert_eq!(
        actor.menu.last_applied_revision.map(|last| last.get()),
        Some(2)
    );
    assert!(actor.step(Wakeup::Tick).is_empty());
    assert!(actor.running);
}

#[test]
fn the_last_state_is_shown_at_the_end() {
    let endings: [(fn() -> Wakeup, Vec<&str>); 2] = [
        (|| Wakeup::DebouncerGone, vec!["topology", "state", "icon"]),
        (
            || Wakeup::SendersGone,
            vec!["stop", "topology", "state", "icon"],
        ),
    ];
    for (ending, expected) in endings {
        let (menu, _) = Menu::new(ON, files());
        let mut actor = MenuLoop::new(menu);
        actor.step(Wakeup::Message(Event::Snapshot(snapshot(1, true))));
        assert_eq!(names(&actor.step(ending())), expected);
        assert!(!actor.running);
        assert!(actor.pending.is_none());
    }
}

fn acted(action: MenuAction) -> Vec<Effect> {
    Menu::new(ON, files()).0.handle_action(action)
}

fn layout_command(action: MenuAction) -> LayoutCommand {
    match acted(action).pop() {
        Some(Effect::Layout(command)) => command,
        other => panic!("not a layout command: {other:?}"),
    }
}

fn reactor_command(action: MenuAction) -> ReactorCommand {
    match acted(action).into_iter().next() {
        Some(Effect::Reactor(command)) => command,
        other => panic!("not a reactor command: {other:?}"),
    }
}

fn opened(action: MenuAction) -> String {
    match acted(action).pop() {
        Some(Effect::Open(what)) => what,
        other => panic!("nothing to open: {other:?}"),
    }
}

fn scope() -> RestoreScope {
    RestoreScope {
        name: "all".to_string(),
    }
}

#[test]
fn menu_actions_become_commands() {
    let mode = LayoutMode {
        name: "bsp".to_string(),
    };
    assert_eq!(
        layout_command(MenuAction::SetLayout(mode.clone())),
        LayoutCommand::SetWorkspaceLayout {
            workspace: None,
            mode,
        }
    );
    assert_eq!(
        layout_command(MenuAction::NextWorkspace),
        LayoutCommand::NextWorkspace(None)
    );
    assert_eq!(
        layout_command(MenuAction::PrevWorkspace),
        LayoutCommand::PrevWorkspace(None)
    );
    assert_eq!(
        layout_command(MenuAction::SwitchToWorkspace(4)),
        LayoutCommand::SwitchToWorkspace(4)
    );
    assert_eq!(
        reactor_command(MenuAction::RestoreLayout {
            path: "/tmp/a".to_string(),
            scope: scope(),
            source: RestoreSource::Named("b".to_string()),
        }),
        ReactorCommand::RestoreLayout {
            path: "/tmp/a".to_string(),
            scope: scope(),
            source: RestoreSource::Named("b".to_string()),
        }
    );
    assert_eq!(
        reactor_command(MenuAction::RestoreMasterFile(scope())),
        ReactorCommand::RestoreLayout {
            path: "/tmp/restore".to_string(),
            scope: scope(),
            source: RestoreSource::CurrentSpace,
        }
    );
    assert_eq!(
        reactor_command(MenuAction::SaveMasterFile),
        ReactorCommand::SaveLayout {
            path: "/tmp/restore".to_string(),
        }
    );
    assert_eq!(
        reactor_command(MenuAction::ToggleSpaceActivated),
        ReactorCommand::ToggleSpaceActivated
    );
    assert_eq!(
        reactor_command(MenuAction::QuitRift),
        ReactorCommand::SaveAndExit
    );
}

#[test]
fn menu_actions_open_pages_and_files() {
    assert_eq!(
        opened(MenuAction::OpenGitHub),
        "https://github.com/acsandmann/rift"
    );
    assert_eq!(
        opened(MenuAction::OpenDocumentation),
        "https://github.com/acsandmann/rift#readme"
    );
    assert_eq!(
        opened(MenuAction::OpenMatrix),
        "https://matrix.to/#/#rift:matrix.org"
    );
    assert_eq!(
        opened(MenuAction::OpenSponsor),
        "https://github.com/sponsors/acsandmann"
    );
    assert_eq!(opened(MenuAction::OpenConfig), "/tmp/config");
}

#[test]
fn saving_refreshes_the_list_of_files_later() {
    let effects = acted(MenuAction::SaveLayout("/tmp/x".to_string()));
    assert_eq!(names(&effects), ["reactor", "library later"]);
    assert!(matches!(effects[1], Effect::RefreshLayoutFilesAfter(150)));
    assert_eq!(names(&acted(MenuAction::RefreshLayoutFiles)), ["library"]);
    let (hidden, _) = Menu::new(OFF, files());
    assert!(hidden
        .handle_action(MenuAction::RefreshLayoutFiles)
        .is_empty());
    assert_eq!(names(&acted(MenuAction::ReloadConfig)), ["reload"]);
}
