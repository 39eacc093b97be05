//! The actor behind the menu bar's icon.

use std::sync::Arc;

use vstd::prelude::*;

use crate::actor::commands::{LayoutCommand, ReactorCommand, RestoreScope, RestoreSource};
#[allow(unused_imports)]
use crate::actor::debounce::{DebounceCommand, DebounceSignal, Debouncer};
use crate::model::palette_entry::LayoutMode;
use crate::model::projection;
use crate::model::projection::{DesktopSnapshot, StateRevision};

verus! {

/// How long a refresh is held back for others to join it, in milliseconds.
pub const DEBOUNCE_MILLIS: u64 = 150;

/// How long after a layout was saved the list of files is read again, in
/// milliseconds.
pub const SAVE_SETTLE_MILLIS: u64 = 150;

/// How the menu bar is configured, as far as it decides anything here.
#[derive(Debug, Clone, Copy, PartialEq, Eq, Structural)]
pub struct MenuBarSettings {
    pub enabled: bool,
}

/// The files that the menu offers, by their paths.
#[derive(Debug)]
pub struct MenuFiles {
    pub restore_file: String,
    pub config_file: String,
}

/// What the actor hears of.
#[derive(Debug)]
pub enum Event {
    Snapshot(Arc<DesktopSnapshot>),
    ConfigUpdated(MenuBarSettings),
}

/// What is chosen in the menu.
#[derive(Debug)]
pub enum MenuAction {
    SetLayout(LayoutMode),
    NextWorkspace,
    PrevWorkspace,
    SwitchToWorkspace(usize),
    RestoreLayout { path: String, scope: RestoreScope, source: RestoreSource },
    RestoreMasterFile(RestoreScope),
    SaveLayout(String),
    SaveMasterFile,
    ToggleSpaceActivated,
    OpenGitHub,
    OpenDocumentation,
    OpenMatrix,
    OpenSponsor,
    OpenConfig,
    ReloadConfig,
    RefreshLayoutFiles,
    QuitRift,
}

/// What the actor does.
#[derive(Debug)]
pub enum Effect {
    CreateIcon,
    RemoveIcon,
    /// Gives the icon the present configuration.
    ConfigureIcon,
    /// Brings the menu's workspaces in line with those of the state.
    SyncWorkspaceTopology(Arc<DesktopSnapshot>),
    UpdateMenuState { active_space_is_activated: bool, snapshot: Arc<DesktopSnapshot> },
    UpdateStatusIcon(Arc<DesktopSnapshot>),
    /// Reads the list of layout files again.
    RefreshLayoutLibrary,
    /// Sends [`MenuAction::RefreshLayoutFiles`] after so many milliseconds.
    RefreshLayoutFilesAfter(u64),
    Layout(LayoutCommand),
    Reactor(ReactorCommand),
    Open(String),
    ReloadConfig,
    ArmDebouncer,
    StopDebouncer,
}

/// The actor's state.
#[derive(Debug)]
pub struct Menu {
    pub icon: bool,
    pub files: MenuFiles,
    pub last_snapshot: Option<Arc<DesktopSnapshot>>,
    pub last_applied_revision: Option<StateRevision>,
}

/// What shows the state in the menu, if there is an icon and the state has
/// workspaces to show.
pub open spec fn refresh_effects(icon: bool, snapshot: Arc<DesktopSnapshot>) -> Seq<Effect> {
    match snapshot.state.menu_bar_context {
        Some(context) if icon => seq![
            Effect::SyncWorkspaceTopology(snapshot),
            Effect::UpdateMenuState {
                active_space_is_activated: context.active_space_is_activated,
                snapshot,
            },
            Effect::UpdateStatusIcon(snapshot),
        ],
        _ => Seq::empty(),
    }
}

/// One effect alone.
fn single(effect: Effect) -> (effects: Vec<Effect>)
    ensures
        effects@ == seq![effect],
{
    let mut effects: Vec<Effect> = Vec::new();
    effects.push(effect);
    assert(effects@ =~= seq![effect]);
    effects
}

/// Whether the effects are to open one thing.
pub open spec fn is_opening(effects: Seq<Effect>, what: Seq<char>) -> bool {
    &&& effects.len() == 1
    &&& effects[0] matches Effect::Open(target)
    &&& target@ == what
}

/// What gives a new menu its icon, if it is to have one.
pub open spec fn begin_effects(settings: MenuBarSettings) -> Seq<Effect> {
    if settings.enabled {
        seq![Effect::CreateIcon, Effect::ConfigureIcon]
    } else {
        Seq::empty()
    }
}

impl Menu {
    /// A menu that has heard of nothing.
    pub open spec fn begun(settings: MenuBarSettings, files: MenuFiles) -> Menu {
        Menu {
            icon: settings.enabled,
            files,
            last_snapshot: None,
            last_applied_revision: None,
        }
    }

    /// Whether a state of the revision was applied, or a later one.
    pub open spec fn has_applied(self, revision: StateRevision) -> bool {
        self.last_applied_revision matches Some(applied) && applied@ >= revision@
    }

    /// The actor after a committed state.
    pub open spec fn applied(self, snapshot: Arc<DesktopSnapshot>) -> Menu {
        if self.has_applied(snapshot.revision) {
            self
        } else {
            Menu {
                last_snapshot: Some(snapshot),
                last_applied_revision: Some(snapshot.revision),
                ..self
            }
        }
    }

    pub open spec fn apply_effects(self, snapshot: Arc<DesktopSnapshot>) -> Seq<Effect> {
        if self.has_applied(snapshot.revision) {
            Seq::empty()
        } else {
            refresh_effects(self.icon, snapshot)
        }
    }

    /// The actor with another configuration. The last state is applied again.
    pub open spec fn configured(self, settings: MenuBarSettings) -> Menu {
        Menu {
            icon: settings.enabled,
            last_applied_revision: match self.last_snapshot {
                Some(snapshot) => Some(snapshot.revision),
                None => None,
            },
            ..self
        }
    }

    pub open spec fn config_effects(self, settings: MenuBarSettings) -> Seq<Effect> {
        (if settings.enabled && !self.icon {
            seq![Effect::CreateIcon]
        } else if !settings.enabled && self.icon {
            seq![Effect::RemoveIcon]
        } else {
            Seq::empty()
        }) + (if settings.enabled {
            seq![Effect::ConfigureIcon]
        } else {
            Seq::empty()
        }) + (match self.last_snapshot {
            Some(snapshot) => refresh_effects(settings.enabled, snapshot),
            None => Seq::empty(),
        })
    }

    /// Whether the effects are what an action of the menu asks for.
    pub open spec fn is_acting(self, action: MenuAction, effects: Seq<Effect>) -> bool {
        match action {
            MenuAction::SetLayout(mode) => effects == seq![
                Effect::Layout(LayoutCommand::SetWorkspaceLayout { workspace: None, mode }),
            ],
            MenuAction::NextWorkspace => effects == seq![
                Effect::Layout(LayoutCommand::NextWorkspace(None)),
            ],
            MenuAction::PrevWorkspace => effects == seq![
                Effect::Layout(LayoutCommand::PrevWorkspace(None)),
            ],
            MenuAction::SwitchToWorkspace(workspace) => effects == seq![
                Effect::Layout(LayoutCommand::SwitchToWorkspace(workspace)),
            ],
            MenuAction::RestoreLayout { path, scope, source } => effects == seq![
                Effect::Reactor(ReactorCommand::RestoreLayout { path, scope, source }),
            ],
            MenuAction::RestoreMasterFile(scope) => effects == seq![
                Effect::Reactor(
                    ReactorCommand::RestoreLayout {
                        path: self.files.restore_file,
                        scope,
                        source: RestoreSource::CurrentSpace,
                    },
                ),
            ],
            MenuAction::SaveLayout(path) => effects == seq![
                Effect::Reactor(ReactorCommand::SaveLayout { path }),
                Effect::RefreshLayoutFilesAfter(SAVE_SETTLE_MILLIS),
            ],
            MenuAction::SaveMasterFile => effects == seq![
                Effect::Reactor(ReactorCommand::SaveLayout { path: self.files.restore_file }),
            ],
            MenuAction::ToggleSpaceActivated => effects == seq![
                Effect::Reactor(ReactorCommand::ToggleSpaceActivated),
            ],
            MenuAction::OpenGitHub => is_opening(
                effects,
                "https://github.com/acsandmann/rift"@,
            ),
            MenuAction::OpenDocumentation => is_opening(
                effects,
                "https://github.com/acsandmann/rift#readme"@,
            ),
            MenuAction::OpenMatrix => is_opening(effects, "https://matrix.to/#/#rift:matrix.org"@),
            MenuAction::OpenSponsor => is_opening(
                effects,
                "https://github.com/sponsors/acsandmann"@,
            ),
            MenuAction::OpenConfig => is_opening(effects, self.files.config_file@),
            MenuAction::ReloadConfig => effects == seq![Effect::ReloadConfig],
            MenuAction::RefreshLayoutFiles => if self.icon {
                effects == seq![Effect::RefreshLayoutLibrary]
            } else {
                effects.len() == 0
            },
            MenuAction::QuitRift => effects == seq![Effect::Reactor(ReactorCommand::SaveAndExit)],
        }
    }

    /// The actor, and the effects that give it its icon.
    pub fn new(settings: MenuBarSettings, files: MenuFiles) -> (result: (Self, Vec<Effect>))
        ensures
            result.0 == Menu::begun(settings, files),
            result.1@ == begin_effects(settings),
    {
        let mut effects: Vec<Effect> = Vec::new();
        if settings.enabled {
            effects.push(Effect::CreateIcon);
            effects.push(Effect::ConfigureIcon);
        }
        let menu = Menu {
            icon: settings.enabled,
            files,
            last_snapshot: None,
            last_applied_revision: None,
        };
        assert(effects@ =~= if settings.enabled {
            seq![Effect::CreateIcon, Effect::ConfigureIcon]
        } else {
            Seq::empty()
        });
        (menu, effects)
    }

    /// Shows a committed state, unless it or a later one was applied before.
    pub fn handle_snapshot(&mut self, snapshot: Arc<DesktopSnapshot>) -> (effects: Vec<Effect>)
        ensures
            *final(self) == old(self).applied(snapshot),
            effects@ == old(self).apply_effects(snapshot),
    {
        let mut effects: Vec<Effect> = Vec::new();
        match self.last_applied_revision {
            Some(applied) => {
                if applied.covers(snapshot.revision) {
                    return effects;
                }
            },
            None => {},
        }
        self.last_applied_revision = Some(snapshot.revision);
        match &snapshot.state.menu_bar_context {
            Some(context) => {
                if self.icon {
                    effects.push(Effect::SyncWorkspaceTopology(projection::share(&snapshot)));
                    effects.push(
                        Effect::UpdateMenuState {
                            active_space_is_activated: context.active_space_is_activated,
                            snapshot: projection::share(&snapshot),
                        },
                    );
                    effects.push(Effect::UpdateStatusIcon(projection::share(&snapshot)));
                }
            },
            None => {},
        }
        self.last_snapshot = Some(snapshot);
        assert(effects@ =~= refresh_effects(self.icon, snapshot));
        effects
    }

    /// Takes over another configuration and shows the last state again.
    pub fn handle_config_updated(&mut self, settings: MenuBarSettings) -> (effects: Vec<Effect>)
        ensures
            *final(self) == old(self).configured(settings),
            effects@ == old(self).config_effects(settings),
    {
        let mut effects: Vec<Effect> = Vec::new();
        if settings.enabled && !self.icon {
            self.icon = true;
            effects.push(Effect::CreateIcon);
        } else if !settings.enabled && self.icon {
            self.icon = false;
            effects.push(Effect::RemoveIcon);
        }
        if self.icon {
            effects.push(Effect::ConfigureIcon);
        }
        self.last_applied_revision = None;
        match self.last_snapshot.take() {
            Some(snapshot) => {
                let mut refresh: Vec<Effect> = self.handle_snapshot(snapshot);
                effects.append(&mut refresh);
            },
            None => {},
        }
        assert(effects@ =~= old(self).config_effects(settings));
        effects
    }

    /// Does what was chosen in the menu.
    pub fn handle_action(&self, action: MenuAction) -> (effects: Vec<Effect>)
        ensures
            self.is_acting(action, effects@),
    {
        match action {
            MenuAction::SetLayout(mode) => {
                single(
                    Effect::Layout(LayoutCommand::SetWorkspaceLayout { workspace: None, mode }),
                )
            },
            MenuAction::NextWorkspace => {
                single(Effect::Layout(LayoutCommand::NextWorkspace(None)))
            },
            MenuAction::PrevWorkspace => {
                single(Effect::Layout(LayoutCommand::PrevWorkspace(None)))
            },
            MenuAction::SwitchToWorkspace(workspace) => {
                single(Effect::Layout(LayoutCommand::SwitchToWorkspace(workspace)))
            },
            MenuAction::RestoreLayout { path, scope, source } => {
                single(
                    Effect::Reactor(ReactorCommand::RestoreLayout { path, scope, source }),
                )
            },
            MenuAction::RestoreMasterFile(scope) => {
                single(
                    Effect::Reactor(
                        ReactorCommand::RestoreLayout {
                            path: self.files.restore_file.clone(),
                            scope,
                            source: RestoreSource::CurrentSpace,
                        },
                    ),
                )
            },
            MenuAction::SaveLayout(path) => {
                let mut effects: Vec<Effect> = single(
                    Effect::Reactor(ReactorCommand::SaveLayout { path }),
                );
                effects.push(Effect::RefreshLayoutFilesAfter(SAVE_SETTLE_MILLIS));
                assert(effects@ =~= seq![
                    Effect::Reactor(ReactorCommand::SaveLayout { path }),
                    Effect::RefreshLayoutFilesAfter(SAVE_SETTLE_MILLIS),
                ]);
                effects
            },
            MenuAction::SaveMasterFile => {
                single(
                    Effect::Reactor(
                        ReactorCommand::SaveLayout { path: self.files.restore_file.clone() },
                    ),
                )
            },
            MenuAction::ToggleSpaceActivated => {
                single(Effect::Reactor(ReactorCommand::ToggleSpaceActivated))
            },
            MenuAction::OpenGitHub => {
                single(Effect::Open("https://github.com/acsandmann/rift".to_owned()))
            },
            MenuAction::OpenDocumentation => {
                single(Effect::Open("https://github.com/acsandmann/rift#readme".to_owned()))
            },
            MenuAction::OpenMatrix => {
                single(Effect::Open("https://matrix.to/#/#rift:matrix.org".to_owned()))
            },
            MenuAction::OpenSponsor => {
                single(Effect::Open("https://github.com/sponsors/acsandmann".to_owned()))
            },
            MenuAction::OpenConfig => {
                single(Effect::Open(self.files.config_file.clone()))
            },
            MenuAction::ReloadConfig => {
                single(Effect::ReloadConfig)
            },
            MenuAction::RefreshLayoutFiles => {
                if self.icon {
                    single(Effect::RefreshLayoutLibrary)
                } else {
                    Vec::new()
                }
            },
            MenuAction::QuitRift => {
                single(Effect::Reactor(ReactorCommand::SaveAndExit))
            },
        }
    }
}

/// What wakes the actor.
#[derive(Debug)]
pub enum Wakeup {
    /// The debouncer ticked.
    Tick,
    /// The debouncer is gone.
    DebouncerGone,
    Message(Event),
    /// Nobody sends events any more.
    SendersGone,
    Action(MenuAction),
}

/// The actor with the state that waits for the debouncer.
#[derive(Debug)]
pub struct MenuLoop {
    pub menu: Menu,
    pub pending: Option<Arc<DesktopSnapshot>>,
    pub running: bool,
}

impl MenuLoop {
    /// The loop after the state that waits, if any, was applied.
    pub open spec fn flushed(self) -> MenuLoop {
        match self.pending {
            Some(snapshot) => MenuLoop {
                menu: self.menu.applied(snapshot),
                pending: None,
                ..self
            },
            None => self,
        }
    }

    pub open spec fn flush_effects(self) -> Seq<Effect> {
        match self.pending {
            Some(snapshot) => self.menu.apply_effects(snapshot),
            None => Seq::empty(),
        }
    }

    /// Whether this, with the effects, follows from a wakeup of `before`. States
    /// wait for the debouncer, and the last one that waits is applied; all else
    /// is done at once.
    pub open spec fn follows(
        self,
        before: MenuLoop,
        wakeup: Wakeup,
        effects: Seq<Effect>,
    ) -> bool {
        match wakeup {
            Wakeup::Tick => self == before.flushed() && effects == before.flush_effects(),
            Wakeup::DebouncerGone => {
                &&& self == (MenuLoop { running: false, ..before.flushed() })
                &&& effects == before.flush_effects()
            },
            Wakeup::Message(Event::Snapshot(snapshot)) => {
                &&& self == (MenuLoop { pending: Some(snapshot), ..before })
                &&& effects == seq![Effect::ArmDebouncer]
            },
            Wakeup::Message(Event::ConfigUpdated(settings)) => {
                &&& self == (MenuLoop { menu: before.menu.configured(settings), ..before })
                &&& effects == before.menu.config_effects(settings)
            },
            Wakeup::SendersGone => {
                &&& self == (MenuLoop { running: false, ..before.flushed() })
                &&& effects == seq![Effect::StopDebouncer] + before.flush_effects()
            },
            Wakeup::Action(action) => {
                &&& self == before
                &&& before.menu.is_acting(action, effects)
            },
        }
    }

    pub fn new(menu: Menu) -> (result: Self)
        ensures
            result == (MenuLoop { menu, pending: None, running: true }),
    {
        MenuLoop { menu, pending: None, running: true }
    }

    /// Applies the state that waits.
    fn flush(&mut self) -> (effects: Vec<Effect>)
        ensures
            *final(self) == old(self).flushed(),
            effects@ == old(self).flush_effects(),
    {
        match self.pending.take() {
            Some(snapshot) => self.menu.handle_snapshot(snapshot),
            None => Vec::new(),
        }
    }

    /// Does what a wakeup calls for.
    pub fn step(&mut self, wakeup: Wakeup) -> (effects: Vec<Effect>)
        requires
            old(self).running,
        ensures
            final(self).follows(*old(self), wakeup, effects@),
    {
        match wakeup {
            Wakeup::Tick => self.flush(),
            Wakeup::DebouncerGone => {
                let effects: Vec<Effect> = self.flush();
                self.running = false;
                effects
            },
            Wakeup::Message(Event::Snapshot(snapshot)) => {
                self.pending = Some(snapshot);
                single(Effect::ArmDebouncer)
            },
            Wakeup::Message(Event::ConfigUpdated(settings)) => self.menu.handle_config_updated(
                settings,
            ),
            Wakeup::SendersGone => {
                let mut effects: Vec<Effect> = single(Effect::StopDebouncer);
                let mut rest: Vec<Effect> = self.flush();
                effects.append(&mut rest);
                self.running = false;
                assert(effects@ =~= seq![Effect::StopDebouncer] + old(self).flush_effects());
                effects
            },
            Wakeup::Action(action) => self.menu.handle_action(action),
        }
    }
}

/// Applying a state a second time, or an earlier one after it, does nothing.
pub proof fn law_stale_states_are_ignored(
    menu: Menu,
    snapshot: Arc<DesktopSnapshot>,
    earlier: Arc<DesktopSnapshot>,
)
    requires
        earlier.revision@ <= snapshot.revision@,
    ensures
        menu.applied(snapshot).applied(earlier) == menu.applied(snapshot),
        menu.applied(snapshot).apply_effects(earlier).len() == 0,
{
}

/// A change of the configuration shows the state that was shown last, whatever
/// its revision.
pub proof fn law_configuring_shows_last_state(
    menu: Menu,
    settings: MenuBarSettings,
    snapshot: Arc<DesktopSnapshot>,
)
    requires
        menu.last_snapshot == Some(snapshot),
    ensures
        menu.configured(settings).last_snapshot == Some(snapshot),
        menu.configured(settings).has_applied(snapshot.revision),
        refresh_effects(settings.enabled, snapshot).is_suffix_of(menu.config_effects(settings)),
{
    let all = menu.config_effects(settings);
    let refresh = refresh_effects(settings.enabled, snapshot);
    assert(all.subrange(all.len() - refresh.len(), all.len() as int) =~= refresh);
}

/// No state that reached a running loop is lost when it ends: the last one that
/// waits is applied.
pub proof fn law_nothing_waits_at_the_end(
    before: MenuLoop,
    wakeup: Wakeup,
    after: MenuLoop,
    effects: Seq<Effect>,
)
    requires
        before.running,
        after.follows(before, wakeup, effects),
        !after.running,
    ensures
        after.pending is None,
        before.pending matches Some(snapshot) ==> after.menu.has_applied(snapshot.revision),
{
}

/// Until the debouncer ticks, later states replace earlier ones without being
/// shown.
pub proof fn law_waiting_states_coalesce(
    before: MenuLoop,
    first: Arc<DesktopSnapshot>,
    second: Arc<DesktopSnapshot>,
    between: MenuLoop,
    after: MenuLoop,
    first_effects: Seq<Effect>,
    second_effects: Seq<Effect>,
)
    requires
        between.follows(before, Wakeup::Message(Event::Snapshot(first)), first_effects),
        after.follows(between, Wakeup::Message(Event::Snapshot(second)), second_effects),
    ensures
        after == (MenuLoop { pending: Some(second), ..before }),
        first_effects == seq![Effect::ArmDebouncer],
        second_effects == seq![Effect::ArmDebouncer],
{
}

/// Whether the effect tells the menu what the snapshot says: the snapshot has
/// workspaces to show, and the menu shows its space as activated exactly if it
/// is.
pub open spec fn is_faithful(effect: Effect, snapshot: Arc<DesktopSnapshot>) -> bool {
    &&& effect matches Effect::UpdateMenuState { active_space_is_activated, snapshot: told } ==> {
        &&& told == snapshot
        &&& snapshot.state.menu_bar_context is Some
        &&& active_space_is_activated
            == snapshot.state.menu_bar_context->0.active_space_is_activated
    }
    &&& effect matches Effect::SyncWorkspaceTopology(told) ==> told == snapshot
    &&& effect matches Effect::UpdateStatusIcon(told) ==> told == snapshot
}

/// Whatever a menu shows of a state is what that state says, and the state is the
/// one that was committed, or the last one where the configuration changed.
pub proof fn law_menu_shows_what_is_committed(
    menu: Menu,
    snapshot: Arc<DesktopSnapshot>,
    settings: MenuBarSettings,
)
    ensures
        forall|i: int|
            0 <= i < menu.apply_effects(snapshot).len() ==> is_faithful(
                #[trigger] menu.apply_effects(snapshot)[i],
                snapshot,
            ),
        menu.last_snapshot is Some ==> forall|i: int|
            0 <= i < menu.config_effects(settings).len() ==> is_faithful(
                #[trigger] menu.config_effects(settings)[i],
                menu.last_snapshot->0,
            ),
{
}

/// A menu with its icon shows a committed state with workspaces, unless it or a
/// later one was shown before: first the workspaces, then which of them is
/// active, and then the icon. Without an icon or without workspaces nothing is
/// shown. Either way the state is remembered.
pub proof fn law_menu_shows_newer_states(menu: Menu, snapshot: Arc<DesktopSnapshot>)
    requires
        menu.last_applied_revision matches Some(applied) ==> applied@ < snapshot.revision@,
    ensures
        menu.icon && snapshot.state.menu_bar_context is Some ==> menu.apply_effects(snapshot)
            == seq![
            Effect::SyncWorkspaceTopology(snapshot),
            Effect::UpdateMenuState {
                active_space_is_activated: snapshot.state.menu_bar_context->0.active_space_is_activated,
                snapshot,
            },
            Effect::UpdateStatusIcon(snapshot),
        ],
        !menu.icon || snapshot.state.menu_bar_context is None ==> menu.apply_effects(snapshot)
            == Seq::<Effect>::empty(),
        menu.applied(snapshot) == (Menu {
            last_snapshot: Some(snapshot),
            last_applied_revision: Some(snapshot.revision),
            ..menu
        }),
{
}

/// There is an icon exactly if the settings ask for one. It is made where there
/// was none, taken away where it is no longer wanted, and configured anew
/// whenever it stays.
pub proof fn law_icon_follows_settings(menu: Menu, settings: MenuBarSettings)
    ensures
        menu.configured(settings).icon == settings.enabled,
        menu.configured(settings).files == menu.files,
        menu.configured(settings).last_snapshot == menu.last_snapshot,
        menu.config_effects(settings).contains(Effect::CreateIcon) <==> settings.enabled
            && !menu.icon,
        menu.config_effects(settings).contains(Effect::RemoveIcon) <==> !settings.enabled
            && menu.icon,
        menu.config_effects(settings).contains(Effect::ConfigureIcon) <==> settings.enabled,
        settings.enabled && !menu.icon ==> menu.config_effects(settings).take(2) == seq![
            Effect::CreateIcon,
            Effect::ConfigureIcon,
        ],
        settings.enabled && menu.icon ==> menu.config_effects(settings)[0]
            == Effect::ConfigureIcon,
        !settings.enabled ==> menu.config_effects(settings).len() == (if menu.icon {
            1int
        } else {
            0
        }),
        settings.enabled ==> menu.config_effects(settings).len() == (if menu.icon {
            1int
        } else {
            2
        }) + (if menu.last_snapshot is Some
            && menu.last_snapshot->0.state.menu_bar_context is Some {
            3int
        } else {
            0
        }),
{
    let effects = menu.config_effects(settings);
    if settings.enabled && !menu.icon {
        assert(effects[0] == Effect::CreateIcon && effects[1] == Effect::ConfigureIcon);
        assert(effects.take(2) =~= seq![Effect::CreateIcon, Effect::ConfigureIcon]);
    } else if settings.enabled {
        assert(effects[0] == Effect::ConfigureIcon);
    } else if menu.icon {
        assert(effects[0] == Effect::RemoveIcon);
    }
}

/// What is chosen in the menu is what is asked for: the same layout, workspace,
/// file, scope and source, and the one restore file where none is named.
pub proof fn law_menu_asks_for_what_is_chosen(
    menu: Menu,
    action: MenuAction,
    effects: Seq<Effect>,
    at: int,
)
    requires
        menu.is_acting(action, effects),
        0 <= at < effects.len(),
    ensures
        effects.len() == (if action is SaveLayout {
            2int
        } else {
            1
        }),
        effects[at] is Layout <==> action is SetLayout || action is NextWorkspace || action
            is PrevWorkspace || action is SwitchToWorkspace,
        effects[at] matches Effect::Layout(command) ==> match command {
            LayoutCommand::SetWorkspaceLayout { workspace, mode } => workspace is None && action
                == MenuAction::SetLayout(mode),
            LayoutCommand::NextWorkspace(skip) => skip is None && action is NextWorkspace,
            LayoutCommand::PrevWorkspace(skip) => skip is None && action is PrevWorkspace,
            LayoutCommand::SwitchToWorkspace(workspace) => action == MenuAction::SwitchToWorkspace(
                workspace,
            ),
            _ => false,
        },
        effects[at] is Reactor <==> at == 0 && (action is RestoreLayout || action
            is RestoreMasterFile || action is SaveLayout || action is SaveMasterFile || action
            is ToggleSpaceActivated || action is QuitRift),
        effects[at] matches Effect::Reactor(command) ==> match command {
            ReactorCommand::RestoreLayout { path, scope, source } => {
                ||| action == (MenuAction::RestoreLayout { path, scope, source })
                ||| action == MenuAction::RestoreMasterFile(scope) && path
                    == menu.files.restore_file && source == RestoreSource::CurrentSpace
            },
            ReactorCommand::SaveLayout { path } => {
                ||| action == MenuAction::SaveLayout(path)
                ||| action is SaveMasterFile && path == menu.files.restore_file
            },
            ReactorCommand::ToggleSpaceActivated => action is ToggleSpaceActivated,
            ReactorCommand::SaveAndExit => action is QuitRift,
            _ => false,
        },
        effects[at] is Open <==> action is OpenGitHub || action is OpenDocumentation || action
            is OpenMatrix || action is OpenSponsor || action is OpenConfig,
        action is OpenConfig ==> effects[at]->Open_0@ == menu.files.config_file@,
        effects[at] is ReloadConfig <==> action is ReloadConfig,
        effects[at] is RefreshLayoutLibrary <==> action is RefreshLayoutFiles,
        action is RefreshLayoutFiles ==> menu.icon,
        effects[at] is RefreshLayoutFilesAfter <==> action is SaveLayout && at == 1,
        effects[at] matches Effect::RefreshLayoutFilesAfter(millis) ==> millis == 150,
{
}

/// A state waits until the debouncer ticks, and is shown then. A loop runs until
/// its debouncer or everyone who sends it events is gone; what waits is shown even
/// then, and a debouncer that is left is stopped first.
pub proof fn law_loop_shows_what_waits(
    before: MenuLoop,
    wakeup: Wakeup,
    after: MenuLoop,
    effects: Seq<Effect>,
)
    requires
        before.running,
        after.follows(before, wakeup, effects),
    ensures
        after.running <==> !(wakeup is DebouncerGone) && !(wakeup is SendersGone),
        wakeup is Tick || wakeup is DebouncerGone || wakeup is SendersGone ==> {
            &&& after.pending is None
            &&& after.menu == (match before.pending {
                Some(snapshot) => before.menu.applied(snapshot),
                None => before.menu,
            })
            &&& effects == (if wakeup is SendersGone {
                seq![Effect::StopDebouncer]
            } else {
                Seq::empty()
            }) + (match before.pending {
                Some(snapshot) => before.menu.apply_effects(snapshot),
                None => Seq::empty(),
            })
        },
        wakeup matches Wakeup::Message(Event::Snapshot(snapshot)) ==> {
            &&& after.pending == Some(snapshot)
            &&& after.menu == before.menu
            &&& effects == seq![Effect::ArmDebouncer]
        },
        wakeup matches Wakeup::Message(Event::ConfigUpdated(settings)) ==> {
            &&& after.pending == before.pending
            &&& after.menu == before.menu.configured(settings)
            &&& effects == before.menu.config_effects(settings)
        },
        wakeup matches Wakeup::Action(action) ==> after == before && before.menu.is_acting(
            action,
            effects,
        ),
{
    let shown = match before.pending {
        Some(snapshot) => before.menu.apply_effects(snapshot),
        None => Seq::empty(),
    };
    assert(Seq::<Effect>::empty() + shown =~= shown);
}

/// A new menu has its icon exactly if it is enabled, as if it had been without and
/// were configured, and shows any state that is committed.
pub proof fn law_menu_begins_afresh(
    settings: MenuBarSettings,
    files: MenuFiles,
    bare: Menu,
    snapshot: Arc<DesktopSnapshot>,
)
    requires
        !bare.icon,
        bare.files == files,
        bare.last_snapshot is None,
        bare.last_applied_revision is None,
    ensures
        Menu::begun(settings, files) == bare.configured(settings),
        begin_effects(settings) == bare.config_effects(settings),
        Menu::begun(settings, files).icon == settings.enabled,
        !Menu::begun(settings, files).has_applied(snapshot.revision),
{
    assert(begin_effects(settings) =~= bare.config_effects(settings));
}

/// A refresh is held back for a hundred and fifty milliseconds at most.
pub proof fn law_refresh_is_held_back_briefly(now: u64)
    requires
        now <= u64::MAX - 150,
    ensures
        Debouncer::Idle.signalled(
            DebounceSignal::Command(DebounceCommand::Arm),
            now,
            DEBOUNCE_MILLIS,
        ) == (Debouncer::Armed { deadline: (now + 150) as u64 }),
{
}

} // verus!
