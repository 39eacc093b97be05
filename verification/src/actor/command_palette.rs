//! The command palette's lifecycle and the dispatch of its actions.

use std::sync::Arc;

use vstd::prelude::*;

use crate::actor::commands::{DisplaySelector, LayoutCommand, ReactorCommand, WorkspaceSelector};
use crate::model::command_palette;
use crate::model::command_palette::{
    PaletteAction, PaletteEntry, PaletteFocusOrigin, PaletteMode, PaletteModel, PaletteMru,
    PaletteSnapshot,
};
#[allow(unused_imports)]
use crate::model::command_palette::{PaletteView, ScopeView};
use crate::model::geometry::Coord;
#[allow(unused_imports)]
use crate::model::palette_mru::MruView;
use crate::model::projection::{DesktopSnapshot, StateRevision};
use crate::ui::command_palette::{PaletteInput, PalettePanelMode, PaletteRenderRow};

verus! {

/// How the palette is configured.
#[derive(Debug, Clone, Copy)]
pub struct CommandPaletteSettings {
    pub enabled: bool,
    pub width: Coord,
    pub max_results: usize,
}

/// What the actor hears of.
#[derive(Debug)]
pub enum Event {
    Toggle,
    ToggleCommands,
    Input(PaletteInput),
    ConfigUpdated(CommandPaletteSettings),
    DesktopSnapshot(Arc<DesktopSnapshot>),
    Snapshot { generation: u64, snapshot: PaletteSnapshot },
    Dispatch(PaletteAction),
    Restore(PaletteFocusOrigin),
}

/// Whether the palette is open, and for what.
#[derive(Debug, Clone, Copy, PartialEq, Eq, Structural)]
pub enum Session {
    Hidden,
    /// The snapshot was asked for.
    Opening { generation: u64, mode: PaletteMode },
    Visible { generation: u64, origin: Option<PaletteFocusOrigin>, mode: PaletteMode },
}

impl Session {
    /// The number under which an open session asked for its snapshot.
    pub open spec fn open_generation(self) -> Option<u64> {
        match self {
            Session::Hidden => None,
            Session::Opening { generation, .. } => Some(generation),
            Session::Visible { generation, .. } => Some(generation),
        }
    }

    /// Whether a snapshot is the one that the session asked for.
    pub fn accepts_snapshot(self, generation: u64) -> (accepted: bool)
        ensures
            accepted == (self.open_generation() == Some(generation)),
    {
        match self {
            Session::Hidden => false,
            Session::Opening { generation: current, .. } => current == generation,
            Session::Visible { generation: current, .. } => current == generation,
        }
    }

    fn is_hidden(self) -> (hidden: bool)
        ensures
            hidden == (self is Hidden),
    {
        match self {
            Session::Hidden => true,
            _ => false,
        }
    }
}

/// What executing an action asks for.
#[derive(Debug, PartialEq, Eq)]
pub enum Command {
    Reactor(ReactorCommand),
    Layout(LayoutCommand),
    ActivateApplication(i32),
    ReloadConfig,
}

/// What the actor does in answer to an event.
#[derive(Debug)]
pub enum Effect {
    CreatePanel { width: Coord, max_results: usize },
    /// Takes the panel off the screen and gives it up.
    RemovePanel,
    HidePanel,
    SetPanelQuery(String),
    RenderPanel { rows: Vec<PaletteRenderRow>, selected: Option<usize> },
    ShowPanel { display_id: Option<u32>, query: String, mode: PalettePanelMode },
    /// Asks the reactor for what the palette can offer.
    RequestSnapshot(u64),
    /// Sends [`Event::Dispatch`] to the actor once the main thread is free.
    ScheduleDispatch(PaletteAction),
    /// Sends [`Event::Restore`] to the actor once the main thread is free.
    ScheduleRestore(PaletteFocusOrigin),
    Perform(Command),
}

/// The actor's state.
#[derive(Debug)]
pub struct CommandPalette {
    pub settings: CommandPaletteSettings,
    pub has_panel: bool,
    pub model: PaletteModel,
    pub mru: PaletteMru,
    pub session: Session,
    pub generation: u64,
    pub last_applied_revision: Option<StateRevision>,
}

/// The actor's state as mathematics.
pub struct ActorView {
    pub settings: CommandPaletteSettings,
    pub has_panel: bool,
    pub model: PaletteView,
    pub mru: MruView,
    pub session: Session,
    pub generation: u64,
    pub last_applied_revision: Option<StateRevision>,
}

impl View for CommandPalette {
    type V = ActorView;

    open spec fn view(&self) -> ActorView {
        ActorView {
            settings: self.settings,
            has_panel: self.has_panel,
            model: self.model@,
            mru: self.mru@,
            session: self.session,
            generation: self.generation,
            last_applied_revision: self.last_applied_revision,
        }
    }
}

/// The panel mode of a palette mode.
pub open spec fn panel_mode_of(mode: PaletteMode) -> PalettePanelMode {
    match mode {
        PaletteMode::Windows => PalettePanelMode::Windows,
        PaletteMode::Commands => PalettePanelMode::Commands,
    }
}

pub fn panel_mode(mode: PaletteMode) -> (panel: PalettePanelMode)
    ensures
        panel == panel_mode_of(mode),
{
    match mode {
        PaletteMode::Windows => PalettePanelMode::Windows,
        PaletteMode::Commands => PalettePanelMode::Commands,
    }
}

/// What gives the focus back: to the exact window where that is known, and else
/// to the application.
pub open spec fn restoring_action(origin: PaletteFocusOrigin) -> PaletteAction {
    match origin.window_id {
        Some(window_id) => PaletteAction::FocusWindow {
            window_id,
            window_server_id: origin.window_server_id,
        },
        None => PaletteAction::ActivateApplication(origin.app_pid),
    }
}

pub fn focus_origin_action(origin: PaletteFocusOrigin) -> (action: PaletteAction)
    ensures
        action == restoring_action(origin),
{
    match origin.window_id {
        Some(window_id) => PaletteAction::FocusWindow {
            window_id,
            window_server_id: origin.window_server_id,
        },
        None => PaletteAction::ActivateApplication(origin.app_pid),
    }
}

/// What an action asks for.
pub open spec fn command_of(action: PaletteAction) -> Command {
    match action {
        PaletteAction::FocusWindow { window_id, window_server_id } => Command::Reactor(
            ReactorCommand::FocusWindow {
                window_id,
                window_server_id: match window_server_id {
                    Some(window) => Some(window.id),
                    None => None,
                },
            },
        ),
        PaletteAction::ActivateApplication(pid) => Command::ActivateApplication(pid),
        PaletteAction::SwitchWorkspace(index) => Command::Layout(
            LayoutCommand::SwitchToWorkspace(index),
        ),
        PaletteAction::MoveWindowToWorkspace(index) => Command::Layout(
            LayoutCommand::MoveWindowToWorkspace {
                workspace: WorkspaceSelector::Index(index),
                follow: true,
                window_id: None,
            },
        ),
        PaletteAction::NextWorkspace => Command::Layout(LayoutCommand::NextWorkspace(None)),
        PaletteAction::PreviousWorkspace => Command::Layout(LayoutCommand::PrevWorkspace(None)),
        PaletteAction::LastWorkspace => Command::Layout(LayoutCommand::SwitchToLastWorkspace),
        PaletteAction::ToggleFloating => Command::Layout(LayoutCommand::ToggleWindowFloating),
        PaletteAction::ToggleFullscreen => Command::Layout(LayoutCommand::ToggleFullscreen),
        PaletteAction::ToggleFullscreenWithinGaps => Command::Layout(
            LayoutCommand::ToggleFullscreenWithinGaps,
        ),
        PaletteAction::SetLayout(mode) => Command::Layout(
            LayoutCommand::SetWorkspaceLayout { workspace: None, mode },
        ),
        PaletteAction::FocusDisplay(uuid) => Command::Reactor(
            ReactorCommand::FocusDisplay(DisplaySelector::Uuid(uuid)),
        ),
        PaletteAction::ReloadConfig => Command::ReloadConfig,
    }
}

pub fn dispatch_action(action: PaletteAction) -> (command: Command)
    ensures
        command == command_of(action),
{
    match action {
        PaletteAction::FocusWindow { window_id, window_server_id } => Command::Reactor(
            ReactorCommand::FocusWindow {
                window_id,
                window_server_id: match window_server_id {
                    Some(window) => Some(window.as_u32()),
                    None => None,
                },
            },
        ),
        PaletteAction::ActivateApplication(pid) => Command::ActivateApplication(pid),
        PaletteAction::SwitchWorkspace(index) => Command::Layout(
            LayoutCommand::SwitchToWorkspace(index),
        ),
        PaletteAction::MoveWindowToWorkspace(index) => Command::Layout(
            LayoutCommand::MoveWindowToWorkspace {
                workspace: WorkspaceSelector::Index(index),
                follow: true,
                window_id: None,
            },
        ),
        PaletteAction::NextWorkspace => Command::Layout(LayoutCommand::NextWorkspace(None)),
        PaletteAction::PreviousWorkspace => Command::Layout(LayoutCommand::PrevWorkspace(None)),
        PaletteAction::LastWorkspace => Command::Layout(LayoutCommand::SwitchToLastWorkspace),
        PaletteAction::ToggleFloating => Command::Layout(LayoutCommand::ToggleWindowFloating),
        PaletteAction::ToggleFullscreen => Command::Layout(LayoutCommand::ToggleFullscreen),
        PaletteAction::ToggleFullscreenWithinGaps => Command::Layout(
            LayoutCommand::ToggleFullscreenWithinGaps,
        ),
        PaletteAction::SetLayout(mode) => Command::Layout(
            LayoutCommand::SetWorkspaceLayout { workspace: None, mode },
        ),
        PaletteAction::FocusDisplay(uuid) => Command::Reactor(
            ReactorCommand::FocusDisplay(DisplaySelector::Uuid(uuid)),
        ),
        PaletteAction::ReloadConfig => Command::ReloadConfig,
    }
}

/// The row that shows an entry.
pub open spec fn row_of(entry: PaletteEntry) -> PaletteRenderRow {
    PaletteRenderRow {
        primary: entry.primary,
        secondary: entry.secondary,
        kind: entry.kind,
        app_pid: entry.app_pid,
    }
}

/// Whether the effect shows every result of the model and its selection.
pub open spec fn is_render(effect: Effect, model: PaletteView) -> bool {
    &&& effect matches Effect::RenderPanel { rows, selected }
    &&& selected == model.selection
    &&& rows@.len() == model.results.len()
    &&& forall|i: int|
        0 <= i < rows@.len() ==> #[trigger] rows@[i] == row_of(model.result_entry(i))
}

/// Whether the effects show the model on the panel, if there is one.
pub open spec fn is_rendering(effects: Seq<Effect>, has_panel: bool, model: PaletteView) -> bool {
    if has_panel {
        effects.len() == 1 && is_render(effects[0], model)
    } else {
        effects.len() == 0
    }
}

/// Whether the effects set the panel's query to the model's and show the model.
pub open spec fn is_requery(effects: Seq<Effect>, has_panel: bool, model: PaletteView) -> bool {
    if has_panel {
        &&& effects.len() == 2
        &&& effects[0] matches Effect::SetPanelQuery(query)
        &&& query@ == model.query
        &&& is_render(effects[1], model)
    } else {
        effects.len() == 0
    }
}

/// Whether the action is the one that executing the entry takes. An application
/// is activated through its preferred window, if it has any.
pub open spec fn is_execution(
    action: PaletteAction,
    entry: PaletteEntry,
    model: PaletteView,
    mru: MruView,
) -> bool {
    match entry.action {
        PaletteAction::ActivateApplication(pid) => {
            ||| exists|at: int|
                command_palette::is_preferred_window(model.entries, pid, mru, at)
                    && model.entries[at].action == action
            ||| action == entry.action && forall|i: int|
                0 <= i < model.entries.len() ==> !command_palette::is_window_of(
                    #[trigger] model.entries[i],
                    pid,
                )
        },
        _ => action == entry.action,
    }
}

/// The panel's creation, if there is none yet.
pub open spec fn panel_creation(actor: ActorView) -> Seq<Effect> {
    if actor.has_panel {
        Seq::empty()
    } else {
        seq![
            Effect::CreatePanel {
                width: actor.settings.width,
                max_results: actor.settings.max_results,
            },
        ]
    }
}

/// Taking the panel off the screen, if there is one.
pub open spec fn panel_hiding(actor: ActorView) -> Seq<Effect> {
    if actor.has_panel {
        seq![Effect::HidePanel]
    } else {
        Seq::empty()
    }
}

/// The number after the last session's. The greatest is followed by zero.
pub open spec fn generation_after(generation: u64) -> u64 {
    if generation == u64::MAX {
        0
    } else {
        (generation + 1) as u64
    }
}

impl ActorView {
    /// Whether the model holds together, and an open session has its panel and
    /// the number that was given out last.
    pub open spec fn is_consistent(self) -> bool {
        &&& self.model.is_consistent()
        &&& !(self.session is Hidden) ==> {
            &&& self.settings.enabled
            &&& self.has_panel
            &&& self.session.open_generation() == Some(self.generation)
        }
    }

    /// The actor with its panel prepared, if the palette is enabled.
    pub open spec fn started(self) -> ActorView {
        ActorView { has_panel: self.has_panel || self.settings.enabled, ..self }
    }

    pub open spec fn start_effects(self) -> Seq<Effect> {
        if self.settings.enabled {
            panel_creation(self)
        } else {
            Seq::empty()
        }
    }

    /// The actor after it was asked to open the palette.
    pub open spec fn shown(self, mode: PaletteMode) -> ActorView {
        if self.settings.enabled {
            let generation = generation_after(self.generation);
            ActorView {
                has_panel: true,
                generation,
                session: Session::Opening { generation, mode },
                ..self
            }
        } else {
            self
        }
    }

    pub open spec fn show_effects(self) -> Seq<Effect> {
        if self.settings.enabled {
            panel_creation(self) + seq![Effect::RequestSnapshot(generation_after(self.generation))]
        } else {
            Seq::empty()
        }
    }

    /// The actor with the palette closed.
    pub open spec fn closed(self) -> ActorView {
        ActorView { session: Session::Hidden, ..self }
    }

    /// What closing the palette does: an open one leaves the screen, and what
    /// had the focus gets it back.
    pub open spec fn cancel_effects(self) -> Seq<Effect> {
        match self.session {
            Session::Hidden => Seq::empty(),
            Session::Opening { .. } => panel_hiding(self),
            Session::Visible { origin, .. } => panel_hiding(self) + match origin {
                Some(origin) => seq![Effect::ScheduleRestore(origin)],
                None => Seq::empty(),
            },
        }
    }

    /// Whether a state of the revision was applied, or a later one.
    pub open spec fn has_applied(self, revision: StateRevision) -> bool {
        self.last_applied_revision matches Some(applied) && applied@ >= revision@
    }

    /// Whether this follows from executing the selection of `before`: the window
    /// that gets the focus is the latest in the history, the palette closes, and
    /// the action is dispatched after it has left the screen.
    pub open spec fn is_executed(self, before: ActorView, effects: Seq<Effect>) -> bool {
        match before.model.selected() {
            None => self == before && effects.len() == 0,
            Some(entry) => exists|action: PaletteAction| #[trigger]
                is_execution(action, entry, before.model, before.mru) && self == (ActorView {
                    mru: match action {
                        PaletteAction::FocusWindow { window_id, .. } => before.mru.recorded(
                            window_id,
                        ),
                        _ => before.mru,
                    },
                    session: Session::Hidden,
                    ..before
                }) && effects == panel_hiding(before) + seq![Effect::ScheduleDispatch(action)],
        }
    }

    /// The actor with another model.
    pub open spec fn with_model(self, model: PaletteView) -> ActorView {
        ActorView { model, ..self }
    }

    /// Whether this follows from an input to `before`. Only a visible palette
    /// takes input.
    pub open spec fn is_answered(
        self,
        before: ActorView,
        input: PaletteInput,
        effects: Seq<Effect>,
    ) -> bool {
        if !(before.session is Visible) {
            self == before && effects.len() == 0
        } else {
            match input {
                PaletteInput::QueryChanged(query) => {
                    &&& self.model.is_queried(before.model, query@, before.mru)
                    &&& self == before.with_model(self.model)
                    &&& is_rendering(effects, before.has_panel, self.model)
                },
                PaletteInput::MoveSelection(delta) => {
                    &&& self == before.with_model(before.model.moved(delta as int))
                    &&& is_rendering(effects, before.has_panel, self.model)
                },
                PaletteInput::Execute => self.is_executed(before, effects),
                PaletteInput::ExpandApplication => if before.model.expandable() is Some {
                    &&& self.model.is_expanded(before.model, before.mru)
                    &&& self == before.with_model(self.model)
                    &&& is_requery(effects, before.has_panel, self.model)
                } else {
                    self == before && effects.len() == 0
                },
                PaletteInput::LeaveApplication => if before.model.scope is Application {
                    &&& self.model.is_left(before.model, before.mru)
                    &&& self == before.with_model(self.model)
                    &&& is_requery(effects, before.has_panel, self.model)
                } else {
                    self == before && effects.len() == 0
                },
                PaletteInput::Cancel => {
                    &&& self == before.closed()
                    &&& effects == before.cancel_effects()
                },
                PaletteInput::ClickResult(index) => if index < before.model.results.len() {
                    self.is_executed(
                        before.with_model(before.model.with_selection(index)),
                        effects,
                    )
                } else {
                    self == before && effects.len() == 0
                },
            }
        }
    }

    /// The actor with other settings. A palette that is disabled closes; a panel
    /// whose measures change is given up, and made anew if it is still wanted.
    pub open spec fn configured(self, settings: CommandPaletteSettings) -> ActorView {
        let closed = if settings.enabled {
            self
        } else {
            self.closed()
        };
        ActorView {
            settings,
            has_panel: settings.enabled || (self.has_panel && !self.needs_new_panel(settings)),
            ..closed
        }
    }

    pub open spec fn needs_new_panel(self, settings: CommandPaletteSettings) -> bool {
        !settings.width.same_as(self.settings.width) || settings.max_results
            != self.settings.max_results
    }

    pub open spec fn config_effects(self, settings: CommandPaletteSettings) -> Seq<Effect> {
        let removed = self.has_panel && self.needs_new_panel(settings);
        (if settings.enabled {
            Seq::empty()
        } else {
            self.cancel_effects()
        }) + (if removed {
            seq![Effect::RemovePanel]
        } else {
            Seq::empty()
        }) + (if settings.enabled && (removed || !self.has_panel) {
            seq![
                Effect::CreatePanel { width: settings.width, max_results: settings.max_results },
            ]
        } else {
            Seq::empty()
        })
    }

    /// The actor after a committed state: its focused window is the latest in
    /// the history, unless the state or a later one was applied before.
    pub open spec fn informed(self, snapshot: DesktopSnapshot) -> ActorView {
        if self.has_applied(snapshot.revision) {
            self
        } else {
            ActorView {
                mru: match snapshot.state.focused_window {
                    Some(window) => self.mru.recorded(window),
                    None => self.mru,
                },
                last_applied_revision: Some(snapshot.revision),
                ..self
            }
        }
    }

    pub open spec fn inform_effects(self, snapshot: DesktopSnapshot) -> Seq<Effect> {
        match self.session {
            Session::Visible { generation, .. } if !self.has_applied(snapshot.revision) => {
                seq![Effect::RequestSnapshot(generation)]
            },
            _ => Seq::empty(),
        }
    }

    /// Whether this follows from a palette snapshot for `before`. One that the
    /// session did not ask for is ignored; the first opens the panel, later ones
    /// refresh it.
    pub open spec fn is_supplied(
        self,
        before: ActorView,
        generation: u64,
        snapshot: PaletteSnapshot,
        effects: Seq<Effect>,
    ) -> bool {
        if before.session.open_generation() != Some(generation) {
            self == before && effects.len() == 0
        } else {
            match before.session {
                Session::Opening { mode, .. } => {
                    &&& self.model.is_begun(snapshot, before.mru, mode)
                    &&& self == (ActorView {
                        model: self.model,
                        session: Session::Visible {
                            generation,
                            origin: snapshot.focus_origin,
                            mode,
                        },
                        ..before
                    })
                    &&& if before.has_panel {
                        &&& effects.len() == 2
                        &&& is_render(effects[0], self.model)
                        &&& effects[1] matches Effect::ShowPanel { display_id, query, mode: header }
                        &&& display_id == snapshot.target_display_id
                        &&& query@ == Seq::<char>::empty()
                        &&& header == panel_mode_of(mode)
                    } else {
                        effects.len() == 0
                    }
                },
                _ => {
                    &&& self.model.is_refreshed(before.model, snapshot, before.mru)
                    &&& self == before.with_model(self.model)
                    &&& is_rendering(effects, before.has_panel, self.model)
                },
            }
        }
    }

    /// The actor after a toggle: an open palette closes, whatever it shows.
    pub open spec fn toggled(self, mode: PaletteMode) -> ActorView {
        if self.session is Hidden {
            self.shown(mode)
        } else {
            self.closed()
        }
    }

    pub open spec fn toggle_effects(self) -> Seq<Effect> {
        if self.session is Hidden {
            self.show_effects()
        } else {
            self.cancel_effects()
        }
    }

    /// Whether this, with the effects, follows from an event to `before`.
    pub open spec fn follows(self, before: ActorView, event: Event, effects: Seq<Effect>) -> bool {
        match event {
            Event::Toggle => {
                &&& self == before.toggled(PaletteMode::Windows)
                &&& effects == before.toggle_effects()
            },
            Event::ToggleCommands => {
                &&& self == before.toggled(PaletteMode::Commands)
                &&& effects == before.toggle_effects()
            },
            Event::Input(input) => self.is_answered(before, input, effects),
            Event::ConfigUpdated(settings) => {
                &&& self == before.configured(settings)
                &&& effects == before.config_effects(settings)
            },
            Event::DesktopSnapshot(snapshot) => {
                &&& self == before.informed(*snapshot)
                &&& effects == before.inform_effects(*snapshot)
            },
            Event::Snapshot { generation, snapshot } => self.is_supplied(
                before,
                generation,
                snapshot,
                effects,
            ),
            Event::Dispatch(action) => {
                &&& self == before
                &&& effects == seq![Effect::Perform(command_of(action))]
            },
            Event::Restore(origin) => {
                &&& self == before
                &&& effects == seq![Effect::Perform(command_of(restoring_action(origin)))]
            },
        }
    }
}

impl CommandPalette {
    /// Whether the model holds together, and an open session has its panel and
    /// the number that was given out last. Every event keeps this.
    pub open spec fn wf(&self) -> bool {
        self@.is_consistent()
    }

    pub fn new(settings: CommandPaletteSettings) -> (actor: Self)
        ensures
            actor.wf(),
            actor.settings == settings,
            !actor.has_panel,
            actor.model@ == (PaletteView {
                entries: Seq::empty(),
                focus_origin: None,
                target_display_id: None,
                query: Seq::empty(),
                normalized: Seq::empty(),
                scope: ScopeView::Root,
                results: Seq::empty(),
                selection: None,
            }),
            actor.mru@ == (MruView {
                sequence: 0,
                windows: Map::empty(),
                applications: Map::empty(),
            }),
            actor.session is Hidden,
            actor.generation == 0,
            actor.last_applied_revision is None,
    {
        CommandPalette {
            settings,
            has_panel: false,
            model: PaletteModel::new(),
            mru: PaletteMru::default(),
            session: Session::Hidden,
            generation: 0,
            last_applied_revision: None,
        }
    }

    /// Prepares the panel, if the palette is enabled.
    pub fn start(&mut self) -> (effects: Vec<Effect>)
        requires
            old(self).wf(),
        ensures
            final(self).wf(),
            final(self)@ == old(self)@.started(),
            effects@ == old(self)@.start_effects(),
    {
        let mut effects: Vec<Effect> = Vec::new();
        if self.settings.enabled {
            self.ensure_panel(&mut effects);
        }
        assert(effects@ =~= if old(self).settings.enabled {
            panel_creation(old(self)@)
        } else {
            Seq::empty()
        });
        effects
    }

    /// Answers an event.
    pub fn handle_event(&mut self, event: Event) -> (effects: Vec<Effect>)
        requires
            old(self).wf(),
        ensures
            final(self).wf(),
            final(self)@.follows(old(self)@, event, effects@),
    {
        match event {
            Event::Toggle => self.toggle(PaletteMode::Windows),
            Event::ToggleCommands => self.toggle(PaletteMode::Commands),
            Event::Input(input) => self.handle_input(input),
            Event::ConfigUpdated(settings) => self.update_config(settings),
            Event::DesktopSnapshot(snapshot) => self.handle_desktop_snapshot(snapshot),
            Event::Snapshot { generation, snapshot } => self.handle_palette_snapshot(
                generation,
                snapshot,
            ),
            Event::Dispatch(action) => {
                let mut effects: Vec<Effect> = Vec::new();
                effects.push(Effect::Perform(dispatch_action(action)));
                assert(effects@ =~= seq![Effect::Perform(command_of(action))]);
                effects
            },
            Event::Restore(origin) => {
                let mut effects: Vec<Effect> = Vec::new();
                effects.push(Effect::Perform(dispatch_action(focus_origin_action(origin))));
                assert(effects@ =~= seq![Effect::Perform(command_of(restoring_action(origin)))]);
                effects
            },
        }
    }

    fn ensure_panel(&mut self, effects: &mut Vec<Effect>)
        ensures
            final(self)@ == (ActorView { has_panel: true, ..old(self)@ }),
            final(effects)@ == old(effects)@ + panel_creation(old(self)@),
    {
        if !self.has_panel {
            self.has_panel = true;
            effects.push(
                Effect::CreatePanel {
                    width: self.settings.width,
                    max_results: self.settings.max_results,
                },
            );
        }
        assert(effects@ =~= old(effects)@ + panel_creation(old(self)@));
    }

    /// Opens the palette, or closes it if it is open.
    pub fn toggle(&mut self, mode: PaletteMode) -> (effects: Vec<Effect>)
        requires
            old(self).wf(),
        ensures
            final(self).wf(),
            final(self)@ == old(self)@.toggled(mode),
            effects@ == old(self)@.toggle_effects(),
    {
        if self.session.is_hidden() {
            self.show(mode)
        } else {
            self.cancel()
        }
    }

    /// Asks for what the palette can offer.
    fn show(&mut self, mode: PaletteMode) -> (effects: Vec<Effect>)
        requires
            old(self).wf(),
        ensures
            final(self).wf(),
            final(self)@ == old(self)@.shown(mode),
            effects@ == old(self)@.show_effects(),
    {
        let mut effects: Vec<Effect> = Vec::new();
        if !self.settings.enabled {
            return effects;
        }
        self.ensure_panel(&mut effects);
        self.generation = self.generation.wrapping_add(1);
        self.session = Session::Opening { generation: self.generation, mode };
        effects.push(Effect::RequestSnapshot(self.generation));
        assert(effects@ =~= old(self)@.show_effects());
        effects
    }

    /// Answers an input of the panel.
    pub fn handle_input(&mut self, input: PaletteInput) -> (effects: Vec<Effect>)
        requires
            old(self).wf(),
        ensures
            final(self).wf(),
            final(self)@.is_answered(old(self)@, input, effects@),
    {
        let visible: bool = match self.session {
            Session::Visible { .. } => true,
            _ => false,
        };
        if !visible {
            return Vec::new();
        }
        match input {
            PaletteInput::QueryChanged(query) => {
                self.model.set_query(query, &self.mru);
                self.render()
            },
            PaletteInput::MoveSelection(delta) => {
                self.model.move_selection(delta);
                self.render()
            },
            PaletteInput::Execute => self.execute_selection(),
            PaletteInput::ExpandApplication => {
                if self.model.expand_selected_application(&self.mru) {
                    self.render_with_query()
                } else {
                    Vec::new()
                }
            },
            PaletteInput::LeaveApplication => {
                if self.model.leave_application(&self.mru) {
                    self.render_with_query()
                } else {
                    Vec::new()
                }
            },
            PaletteInput::Cancel => self.cancel(),
            PaletteInput::ClickResult(index) => {
                if self.model.select_index(index) {
                    self.execute_selection()
                } else {
                    Vec::new()
                }
            },
        }
    }

    /// Closes the palette and executes what is selected.
    fn execute_selection(&mut self) -> (effects: Vec<Effect>)
        requires
            old(self).wf(),
        ensures
            final(self).wf(),
            final(self)@.is_executed(old(self)@, effects@),
    {
        let mut effects: Vec<Effect> = Vec::new();
        let action: PaletteAction = match self.model.selected_entry() {
            None => {
                return effects;
            },
            Some(entry) => match entry.action {
                PaletteAction::ActivateApplication(pid) => {
                    match self.model.preferred_window_for_application(pid, &self.mru) {
                        Some(action) => action,
                        None => entry.action.clone(),
                    }
                },
                _ => entry.action.clone(),
            },
        };
        let ghost entry = self.model@.selected()->0;
        assert(is_execution(action, entry, old(self)@.model, old(self)@.mru));
        match &action {
            PaletteAction::FocusWindow { window_id, .. } => {
                self.mru.record_window(*window_id);
            },
            _ => {},
        }
        self.session = Session::Hidden;
        if self.has_panel {
            effects.push(Effect::HidePanel);
        }
        effects.push(Effect::ScheduleDispatch(action));
        assert(effects@ =~= panel_hiding(old(self)@) + seq![Effect::ScheduleDispatch(action)]);
        effects
    }

    /// Closes the palette and gives the focus back.
    fn cancel(&mut self) -> (effects: Vec<Effect>)
        requires
            old(self).wf(),
        ensures
            final(self).wf(),
            final(self)@ == old(self)@.closed(),
            effects@ == old(self)@.cancel_effects(),
    {
        let mut effects: Vec<Effect> = Vec::new();
        let origin: Option<PaletteFocusOrigin> = match self.session {
            Session::Hidden => {
                return effects;
            },
            Session::Opening { .. } => None,
            Session::Visible { origin, .. } => origin,
        };
        self.session = Session::Hidden;
        if self.has_panel {
            effects.push(Effect::HidePanel);
        }
        match origin {
            Some(origin) => {
                effects.push(Effect::ScheduleRestore(origin));
            },
            None => {},
        }
        assert(effects@ =~= old(self)@.cancel_effects());
        effects
    }

    /// Shows every result, if there is a panel.
    fn render(&self) -> (effects: Vec<Effect>)
        requires
            self.model.wf(),
        ensures
            is_rendering(effects@, self.has_panel, self.model@),
    {
        let mut effects: Vec<Effect> = Vec::new();
        if self.has_panel {
            effects.push(self.rendering());
        }
        effects
    }

    /// Shows the query and every result, if there is a panel.
    fn render_with_query(&self) -> (effects: Vec<Effect>)
        requires
            self.model.wf(),
        ensures
            is_requery(effects@, self.has_panel, self.model@),
    {
        let mut effects: Vec<Effect> = Vec::new();
        if self.has_panel {
            effects.push(Effect::SetPanelQuery(self.model.query().to_owned()));
            effects.push(self.rendering());
        }
        effects
    }

    /// The effect that shows every result.
    fn rendering(&self) -> (effect: Effect)
        requires
            self.model.wf(),
        ensures
            is_render(effect, self.model@),
    {
        let entries: Vec<&PaletteEntry> = self.model.results();
        let mut rows: Vec<PaletteRenderRow> = Vec::new();
        let mut i: usize = 0;
        while i < entries.len()
            invariant
                i <= entries@.len(),
                rows@.len() == i,
                forall|j: int| 0 <= j < i ==> #[trigger] rows@[j] == row_of(*entries@[j]),
            decreases entries@.len() - i,
        {
            let entry: &PaletteEntry = entries[i];
            rows.push(
                PaletteRenderRow {
                    primary: entry.primary.clone(),
                    secondary: entry.secondary.clone(),
                    kind: entry.kind,
                    app_pid: entry.app_pid,
                },
            );
            i = i + 1;
        }
        Effect::RenderPanel { rows, selected: self.model.selected_index() }
    }

    /// Takes over other settings.
    pub fn update_config(&mut self, settings: CommandPaletteSettings) -> (effects: Vec<Effect>)
        requires
            old(self).wf(),
        ensures
            final(self).wf(),
            final(self)@ == old(self)@.configured(settings),
            effects@ == old(self)@.config_effects(settings),
    {
        let recreate: bool = !settings.width.same(self.settings.width) || settings.max_results
            != self.settings.max_results;
        let mut effects: Vec<Effect> = if !settings.enabled && !self.session.is_hidden() {
            self.cancel()
        } else {
            Vec::new()
        };
        self.settings = settings;
        if recreate && self.has_panel {
            self.has_panel = false;
            effects.push(Effect::RemovePanel);
        }
        if settings.enabled {
            self.ensure_panel(&mut effects);
        }
        assert(effects@ =~= old(self)@.config_effects(settings));
        effects
    }

    /// Takes note of the focused window of a committed state, and asks for a
    /// fresh snapshot if the palette is visible.
    pub fn handle_desktop_snapshot(&mut self, snapshot: Arc<DesktopSnapshot>) -> (effects: Vec<
        Effect,
    >)
        requires
            old(self).wf(),
        ensures
            final(self).wf(),
            final(self)@ == old(self)@.informed(*snapshot),
            effects@ == old(self)@.inform_effects(*snapshot),
    {
        let mut effects: Vec<Effect> = Vec::new();
        match self.last_applied_revision {
            Some(applied) => {
                if applied.covers(snapshot.revision) {
                    return effects;
                }
            },
            None => {},
        }
        self.last_applied_revision = Some(snapshot.revision);
        match snapshot.state.focused_window {
            Some(window) => {
                self.mru.record_window(window);
            },
            None => {},
        }
        match self.session {
            Session::Visible { generation, .. } => {
                effects.push(Effect::RequestSnapshot(generation));
            },
            _ => {},
        }
        assert(effects@ =~= old(self)@.inform_effects(*snapshot));
        effects
    }

    /// Takes in what the palette can offer.
    pub fn handle_palette_snapshot(&mut self, generation: u64, snapshot: PaletteSnapshot) -> (effects:
        Vec<Effect>)
        requires
            old(self).wf(),
        ensures
            final(self).wf(),
            final(self)@.is_supplied(old(self)@, generation, snapshot, effects@),
    {
        if !self.session.accepts_snapshot(generation) {
            return Vec::new();
        }
        match self.session {
            Session::Hidden => Vec::new(),
            Session::Opening { mode, .. } => {
                let origin: Option<PaletteFocusOrigin> = snapshot.focus_origin;
                self.model.begin_session(snapshot, &self.mru, mode);
                self.session = Session::Visible { generation, origin, mode };
                let mut effects: Vec<Effect> = self.render();
                if self.has_panel {
                    effects.push(
                        Effect::ShowPanel {
                            display_id: self.model.target_display_id(),
                            query: self.model.query().to_owned(),
                            mode: panel_mode(mode),
                        },
                    );
                }
                effects
            },
            Session::Visible { .. } => {
                self.model.set_snapshot(snapshot, &self.mru);
                self.render()
            },
        }
    }
}

/// Whether nothing is dispatched and no focus given back unless the panel was
/// taken off the screen before.
pub open spec fn leaves_before_acting(effects: Seq<Effect>) -> bool {
    forall|i: int|
        0 <= i < effects.len() && (#[trigger] effects[i] is ScheduleDispatch || effects[i]
            is ScheduleRestore) ==> exists|j: int| 0 <= j < i && #[trigger] effects[j] is HidePanel
}

/// The panel leaves the screen before an action is dispatched or the focus is
/// given back, and either is only scheduled when the palette closes.
pub proof fn law_panel_leaves_before_acting(
    before: ActorView,
    event: Event,
    after: ActorView,
    effects: Seq<Effect>,
)
    requires
        before.is_consistent(),
        after.follows(before, event, effects),
    ensures
        leaves_before_acting(effects),
        forall|i: int|
            0 <= i < effects.len() && (#[trigger] effects[i] is ScheduleDispatch || effects[i]
                is ScheduleRestore) ==> !(before.session is Hidden) && after.session is Hidden,
{
    assert forall|i: int|
        0 <= i < effects.len() && (#[trigger] effects[i] is ScheduleDispatch || effects[i]
            is ScheduleRestore) implies (exists|j: int|
        0 <= j < i && #[trigger] effects[j] is HidePanel) && !(before.session is Hidden)
        && after.session is Hidden by {
        assert(i > 0);
        assert(effects[0] is HidePanel);
    }
}

/// A palette that is not visible takes no input.
pub proof fn law_hidden_palette_takes_no_input(
    before: ActorView,
    input: PaletteInput,
    after: ActorView,
    effects: Seq<Effect>,
)
    requires
        !(before.session is Visible),
        after.follows(before, Event::Input(input), effects),
    ensures
        after == before,
        effects.len() == 0,
{
}

/// A snapshot that an earlier session asked for never reaches a later one, nor a
/// closed palette.
pub proof fn law_stale_snapshot_is_rejected(
    before: ActorView,
    generation: u64,
    snapshot: PaletteSnapshot,
    after: ActorView,
    effects: Seq<Effect>,
)
    requires
        before.is_consistent(),
        before.session is Hidden || generation != before.generation,
        after.follows(before, (Event::Snapshot { generation, snapshot }), effects),
    ensures
        after == before,
        effects.len() == 0,
{
}

/// Opening the palette gives the session a number that differs from the one
/// before.
pub proof fn law_sessions_are_told_apart(before: ActorView, mode: PaletteMode)
    requires
        before.settings.enabled,
        before.session is Hidden,
    ensures
        before.toggled(mode).generation != before.generation,
        before.toggled(mode).session.open_generation() == Some(before.toggled(mode).generation),
{
}

/// Toggling twice closes the palette again, in either mode, and takes its panel
/// off the screen. Only the panel and the number given out remain.
pub proof fn law_toggling_twice_closes(before: ActorView, first: PaletteMode, second: PaletteMode)
    requires
        before.is_consistent(),
        before.session is Hidden,
        before.settings.enabled,
    ensures
        before.toggled(first).toggled(second) == (ActorView {
            has_panel: true,
            generation: generation_after(before.generation),
            ..before
        }),
        before.toggled(first).toggle_effects() == seq![Effect::HidePanel],
{
}

/// Hearing of a committed state a second time, or of an earlier one after it,
/// changes nothing.
pub proof fn law_stale_states_are_ignored(
    before: ActorView,
    snapshot: DesktopSnapshot,
    earlier: DesktopSnapshot,
)
    requires
        earlier.revision@ <= snapshot.revision@,
    ensures
        before.informed(snapshot).informed(earlier) == before.informed(snapshot),
        before.informed(snapshot).inform_effects(earlier).len() == 0,
{
}

} // verus!
