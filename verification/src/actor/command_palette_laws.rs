//! What holds of every event to the command palette.

use std::sync::Arc;

use vstd::prelude::*;

#[allow(unused_imports)]
use crate::actor::command_palette;
#[allow(unused_imports)]
use crate::actor::command_palette::{
    ActorView, Command, CommandPaletteSettings, Effect, Event, Session,
};
#[allow(unused_imports)]
use crate::actor::commands::{DisplaySelector, LayoutCommand, ReactorCommand, WorkspaceSelector};
#[allow(unused_imports)]
use crate::model::command_palette as model;
#[allow(unused_imports)]
use crate::model::command_palette::PaletteView;
#[allow(unused_imports)]
use crate::model::ids::{WindowId, WindowServerId};
#[allow(unused_imports)]
use crate::model::geometry;
#[allow(unused_imports)]
use crate::model::palette_entry::{
    PaletteAction, PaletteEntry, PaletteEntryId, PaletteEntryKind, PaletteFocusOrigin, PaletteMode,
    PaletteSnapshot,
};
#[allow(unused_imports)]
use crate::model::palette_laws;
#[allow(unused_imports)]
use crate::model::palette_mru::MruView;
use crate::model::projection::DesktopSnapshot;
#[allow(unused_imports)]
use crate::ui::command_palette::{PaletteInput, PalettePanelMode};

verus! {

/// What had the focus when a visible palette was opened.
pub open spec fn origin_of(session: Session) -> Option<PaletteFocusOrigin> {
    match session {
        Session::Visible { origin, .. } => origin,
        _ => None,
    }
}

/// What closing an open palette does: it leaves the screen, and what had the
/// focus gets it back.
pub open spec fn is_closing(session: Session, effects: Seq<Effect>) -> bool {
    &&& effects.len() == (if origin_of(session) is Some {
        2int
    } else {
        1
    })
    &&& effects[0] is HidePanel
    &&& origin_of(session) matches Some(origin) ==> effects[1] == Effect::ScheduleRestore(origin)
}

/// A toggle opens a closed palette, if it is enabled, in the mode that was asked
/// for: a snapshot is asked for under a new number, and a panel is made before if
/// there is none. An open palette closes.
pub proof fn law_toggle_opens_or_closes(
    before: ActorView,
    commands: bool,
    after: ActorView,
    effects: Seq<Effect>,
)
    requires
        before.is_consistent(),
        after.follows(
            before,
            if commands {
                Event::ToggleCommands
            } else {
                Event::Toggle
            },
            effects,
        ),
    ensures
        after.model == before.model && after.mru == before.mru && after.settings
            == before.settings,
        before.session is Hidden && !before.settings.enabled ==> after == before && effects.len()
            == 0,
        before.session is Hidden && before.settings.enabled ==> {
            &&& after.session matches Session::Opening { generation, mode }
            &&& generation == after.generation
            &&& after.generation != before.generation
            &&& mode == (if commands {
                PaletteMode::Commands
            } else {
                PaletteMode::Windows
            })
            &&& after.has_panel
            &&& effects.last() == Effect::RequestSnapshot(after.generation)
            &&& effects.len() == (if before.has_panel {
                1int
            } else {
                2
            })
            &&& !before.has_panel ==> effects[0] == (Effect::CreatePanel {
                width: before.settings.width,
                max_results: before.settings.max_results,
            })
        },
        !(before.session is Hidden) ==> after.session is Hidden && is_closing(
            before.session,
            effects,
        ),
{
}

/// Cancelling closes the palette and gives the focus back to what had it.
pub proof fn law_cancel_gives_the_focus_back(
    before: ActorView,
    after: ActorView,
    effects: Seq<Effect>,
)
    requires
        before.is_consistent(),
        before.session is Visible,
        after.follows(before, Event::Input(PaletteInput::Cancel), effects),
    ensures
        after == (ActorView { session: Session::Hidden, ..before }),
        is_closing(before.session, effects),
{
}

/// The focus goes back to the exact window where that is known, and else to the
/// application that had it.
pub proof fn law_restoring_finds_the_window(
    before: ActorView,
    origin: PaletteFocusOrigin,
    after: ActorView,
    effects: Seq<Effect>,
)
    requires
        after.follows(before, Event::Restore(origin), effects),
    ensures
        after == before,
        effects.len() == 1,
        origin.window_id matches Some(window) ==> {
            &&& effects[0] matches Effect::Perform(
                Command::Reactor(ReactorCommand::FocusWindow { window_id, window_server_id }),
            )
            &&& window_id == window
            &&& window_server_id is Some <==> origin.window_server_id is Some
            &&& window_server_id is Some ==> window_server_id->0 == origin.window_server_id->0.id
        },
        origin.window_id is None ==> effects[0] == Effect::Perform(
            Command::ActivateApplication(origin.app_pid),
        ),
{
}

/// Whether the command does what the action stands for, on the same window,
/// application, workspace, layout or display.
pub open spec fn is_carried_out(action: PaletteAction, command: Command) -> bool {
    match command {
        Command::Reactor(ReactorCommand::FocusWindow { window_id, window_server_id }) => {
            &&& action matches PaletteAction::FocusWindow { window_id: window, window_server_id: id }
            &&& window == window_id
            &&& id is Some <==> window_server_id is Some
            &&& id is Some ==> id->0.id == window_server_id->0
        },
        Command::Reactor(ReactorCommand::FocusDisplay(DisplaySelector::Uuid(uuid))) => action
            == PaletteAction::FocusDisplay(uuid),
        Command::ActivateApplication(pid) => action == PaletteAction::ActivateApplication(pid),
        Command::ReloadConfig => action is ReloadConfig,
        Command::Layout(LayoutCommand::SwitchToWorkspace(index)) => action
            == PaletteAction::SwitchWorkspace(index),
        Command::Layout(
            LayoutCommand::MoveWindowToWorkspace { workspace, follow, window_id },
        ) => {
            &&& action matches PaletteAction::MoveWindowToWorkspace(index)
            &&& workspace == WorkspaceSelector::Index(index)
            &&& follow
            &&& window_id is None
        },
        Command::Layout(LayoutCommand::NextWorkspace(skip)) => skip is None && action
            is NextWorkspace,
        Command::Layout(LayoutCommand::PrevWorkspace(skip)) => skip is None && action
            is PreviousWorkspace,
        Command::Layout(LayoutCommand::SwitchToLastWorkspace) => action is LastWorkspace,
        Command::Layout(LayoutCommand::ToggleWindowFloating) => action is ToggleFloating,
        Command::Layout(LayoutCommand::ToggleFullscreen) => action is ToggleFullscreen,
        Command::Layout(LayoutCommand::ToggleFullscreenWithinGaps) => action
            is ToggleFullscreenWithinGaps,
        Command::Layout(LayoutCommand::SetWorkspaceLayout { workspace, mode }) => workspace is None
            && action == PaletteAction::SetLayout(mode),
        _ => false,
    }
}

/// A dispatched action is carried out, once, and changes nothing in the palette.
pub proof fn law_dispatch_carries_out_the_action(
    before: ActorView,
    action: PaletteAction,
    after: ActorView,
    effects: Seq<Effect>,
)
    requires
        after.follows(before, Event::Dispatch(action), effects),
    ensures
        after == before,
        effects.len() == 1,
        effects[0] is Perform,
        is_carried_out(action, effects[0]->Perform_0),
{
}

/// Executing the selected entry closes the palette and schedules that entry's
/// action. A window that gets the focus is noted as the latest. Without a
/// selection nothing happens.
pub proof fn law_execution_takes_the_selected_entry(
    before: ActorView,
    after: ActorView,
    effects: Seq<Effect>,
)
    requires
        before.is_consistent(),
        before.session is Visible,
        after.follows(before, Event::Input(PaletteInput::Execute), effects),
    ensures
        before.model.selection is None ==> after == before && effects.len() == 0,
        before.model.selection is Some ==> {
            let entry = before.model.entries[
                before.model.results[before.model.selection->0 as int].index as int
            ];
            &&& effects.len() == 2
            &&& effects[0] is HidePanel
            &&& effects[1] matches Effect::ScheduleDispatch(action)
            &&& !(entry.action is ActivateApplication) ==> action == entry.action
            &&& entry.action matches PaletteAction::ActivateApplication(pid) ==> ((forall|i: int|
                0 <= i < before.model.entries.len() ==> !((
                #[trigger] before.model.entries[i]).kind == PaletteEntryKind::Window
                    && before.model.entries[i].app_pid == Some(pid))) ==> action == entry.action)
            &&& after == (ActorView {
                session: Session::Hidden,
                mru: match action {
                    PaletteAction::FocusWindow { window_id, .. } => before.mru.recorded(window_id),
                    _ => before.mru,
                },
                ..before
            })
        },
{
}

/// Executing an application goes to the window of it that had the focus last, if
/// the snapshot lists it.
pub proof fn law_execution_prefers_the_last_window(
    before: ActorView,
    after: ActorView,
    effects: Seq<Effect>,
    mru: MruView,
    window: WindowId,
    at: int,
)
    requires
        before.is_consistent(),
        before.session is Visible,
        mru.is_history(),
        mru.sequence < u64::MAX,
        before.mru == mru.recorded(window),
        before.model.selected() is Some,
        before.model.selected()->0.action == PaletteAction::ActivateApplication(window.pid),
        0 <= at < before.model.entries.len(),
        before.model.entries[at].id == PaletteEntryId::Window(window),
        before.model.entries[at].kind == PaletteEntryKind::Window,
        before.model.entries[at].app_pid == Some(window.pid),
        after.follows(before, Event::Input(PaletteInput::Execute), effects),
    ensures
        exists|i: int|
            0 <= i < before.model.entries.len() && (#[trigger] before.model.entries[i]).id
                == PaletteEntryId::Window(window) && effects.last() == Effect::ScheduleDispatch(
                before.model.entries[i].action,
            ),
{
    let entries = before.model.entries;
    let entry = before.model.selected()->0;
    let pid = window.pid;
    assert(model::is_window_of(entries[at], pid));
    let action = choose|action: PaletteAction| #[trigger]
        command_palette::is_execution(action, entry, before.model, before.mru) && after == (
        ActorView {
            mru: match action {
                PaletteAction::FocusWindow { window_id, .. } => before.mru.recorded(window_id),
                _ => before.mru,
            },
            session: Session::Hidden,
            ..before
        }) && effects == command_palette::panel_hiding(before) + seq![
            Effect::ScheduleDispatch(action),
        ];
    assert(effects.last() == Effect::ScheduleDispatch(action));
    assert(model::is_preferred_action(
        entries,
        pid,
        mru.recorded(window),
        Some(action),
    ));
    palette_laws::law_last_focused_window_is_preferred(
        entries,
        pid,
        mru,
        window,
        at,
        Some(action),
    );
    let i = choose|i: int|
        0 <= i < entries.len() && (#[trigger] entries[i]).id == PaletteEntryId::Window(window)
            && entries[i].kind == PaletteEntryKind::Window && entries[i].app_pid == Some(pid)
            && entries[i].action == action;
    assert(effects.last() == Effect::ScheduleDispatch(entries[i].action));
}

/// A click on a result executes that result, whatever was selected, and a click
/// beside the results does nothing.
pub proof fn law_click_executes_the_result(
    before: ActorView,
    index: usize,
    selected: ActorView,
    after: ActorView,
    effects: Seq<Effect>,
)
    requires
        before.is_consistent(),
        before.session is Visible,
        selected == (ActorView {
            model: PaletteView { selection: Some(index), ..before.model },
            ..before
        }),
        after.follows(before, Event::Input(PaletteInput::ClickResult(index)), effects),
    ensures
        index >= before.model.results.len() ==> after == before && effects.len() == 0,
        index < before.model.results.len() ==> after.follows(
            selected,
            Event::Input(PaletteInput::Execute),
            effects,
        ),
{
}

/// Whether the effect shows every result of the model, in order and with its own
/// labels, and the selected one.
pub open spec fn is_shown(effect: Effect, model: PaletteView) -> bool {
    &&& effect matches Effect::RenderPanel { rows, selected }
    &&& selected == model.selection
    &&& rows@.len() == model.results.len()
    &&& forall|i: int|
        0 <= i < rows@.len() ==> {
            let entry = model.entries[model.results[i].index as int];
            &&& (#[trigger] rows@[i]).primary == entry.primary
            &&& rows@[i].secondary == entry.secondary
            &&& rows@[i].kind == entry.kind
            &&& rows@[i].app_pid == entry.app_pid
        }
}

/// The snapshot that an opening session asked for makes the palette visible: it
/// shows what the snapshot offers on the wanted display, under the header of its
/// mode and with an empty query, and remembers what had the focus. Later ones
/// refresh what is shown.
pub proof fn law_snapshot_opens_the_palette(
    before: ActorView,
    generation: u64,
    snapshot: PaletteSnapshot,
    after: ActorView,
    effects: Seq<Effect>,
)
    requires
        before.is_consistent(),
        after.follows(before, (Event::Snapshot { generation, snapshot }), effects),
        generation == before.generation,
    ensures
        before.session matches Session::Opening { mode: asked, .. } ==> {
            &&& after.session == (Session::Visible {
                generation,
                origin: snapshot.focus_origin,
                mode: asked,
            })
            &&& after.model.is_begun(snapshot, before.mru, asked)
            &&& effects.len() == 2
            &&& is_shown(effects[0], after.model)
            &&& effects[1] matches Effect::ShowPanel { display_id, query, mode }
            &&& display_id == snapshot.target_display_id
            &&& query@.len() == 0
            &&& mode is Commands <==> asked is Commands
        },
        before.session is Visible ==> {
            &&& after.session == before.session
            &&& after.model.is_refreshed(before.model, snapshot, before.mru)
            &&& effects.len() == 1
            &&& is_shown(effects[0], after.model)
        },
        after.mru == before.mru && after.settings == before.settings && after.generation
            == before.generation,
{
}

/// Whatever is typed is searched for, and arrows move the selection: the palette
/// shows the outcome and nothing else changes.
pub proof fn law_typing_searches(
    before: ActorView,
    query: String,
    delta: isize,
    typed: ActorView,
    moved: ActorView,
    typed_effects: Seq<Effect>,
    moved_effects: Seq<Effect>,
)
    requires
        before.is_consistent(),
        before.session is Visible,
        typed.follows(before, Event::Input(PaletteInput::QueryChanged(query)), typed_effects),
        moved.follows(before, Event::Input(PaletteInput::MoveSelection(delta)), moved_effects),
    ensures
        typed.model.query == query@,
        typed.model.searches(query@, before.mru),
        typed.model.entries == before.model.entries,
        typed.model.scope == before.model.scope,
        typed == (ActorView { model: typed.model, ..before }),
        typed_effects.len() == 1 && is_shown(typed_effects[0], typed.model),
        moved.model == before.model.moved(delta as int),
        moved == (ActorView { model: moved.model, ..before }),
        moved_effects.len() == 1 && is_shown(moved_effects[0], moved.model),
{
}

/// Going into an application and out of it again is shown together with the query
/// that holds there; where there is nothing to go into or out of, nothing happens.
pub proof fn law_scope_changes_are_shown(
    before: ActorView,
    expand: bool,
    after: ActorView,
    effects: Seq<Effect>,
)
    requires
        before.is_consistent(),
        before.session is Visible,
        after.follows(
            before,
            Event::Input(
                if expand {
                    PaletteInput::ExpandApplication
                } else {
                    PaletteInput::LeaveApplication
                },
            ),
            effects,
        ),
    ensures
        ({
            let possible = if expand {
                before.model.expandable() is Some
            } else {
                before.model.scope is Application
            };
            &&& !possible ==> after == before && effects.len() == 0
            &&& possible ==> {
                &&& after == (ActorView { model: after.model, ..before })
                &&& expand ==> after.model.is_expanded(before.model, before.mru)
                &&& !expand ==> after.model.is_left(before.model, before.mru)
                &&& effects.len() == 2
                &&& effects[0] matches Effect::SetPanelQuery(query)
                &&& query@ == after.model.query
                &&& is_shown(effects[1], after.model)
            }
        }),
{
}

/// The focused window of a newer state is the latest in the history, and a visible
/// palette asks for a fresh snapshot. A hidden one keeps quiet.
pub proof fn law_focus_is_noted(
    before: ActorView,
    snapshot: Arc<DesktopSnapshot>,
    after: ActorView,
    effects: Seq<Effect>,
)
    requires
        before.is_consistent(),
        after.follows(before, Event::DesktopSnapshot(snapshot), effects),
        before.last_applied_revision matches Some(applied) ==> applied@ < snapshot.revision@,
    ensures
        after == (ActorView {
            mru: match snapshot.state.focused_window {
                Some(window) => before.mru.recorded(window),
                None => before.mru,
            },
            last_applied_revision: Some(snapshot.revision),
            ..before
        }),
        before.session is Visible ==> effects == seq![Effect::RequestSnapshot(before.generation)],
        !(before.session is Visible) ==> effects.len() == 0,
{
}

/// Settings are taken over. A palette that is disabled closes as if it were
/// cancelled. A panel whose measures change is given up, and one that is wanted
/// and not there is made in the measures of the new settings.
pub proof fn law_settings_are_taken_over(
    before: ActorView,
    settings: CommandPaletteSettings,
    after: ActorView,
    effects: Seq<Effect>,
)
    requires
        before.is_consistent(),
        after.follows(before, Event::ConfigUpdated(settings), effects),
        settings.width.is_number(),
        before.settings.width.is_number(),
    ensures
        ({
            let changes = !geometry::is_one_number(settings.width, before.settings.width)
                || settings.max_results != before.settings.max_results;
            let made = Effect::CreatePanel {
                width: settings.width,
                max_results: settings.max_results,
            };
            &&& after.settings == settings
            &&& after.model == before.model && after.mru == before.mru && after.generation
                == before.generation && after.last_applied_revision == before.last_applied_revision
            &&& after.session == (if settings.enabled {
                before.session
            } else {
                Session::Hidden
            })
            &&& settings.enabled ==> after.has_panel
            &&& !settings.enabled ==> after.has_panel == (before.has_panel && !changes)
            &&& effects.contains(Effect::RemovePanel) <==> before.has_panel && changes
            &&& effects.contains(made) <==> settings.enabled && (!before.has_panel || changes)
            &&& settings.enabled && before.has_panel && !changes ==> effects.len() == 0
            &&& settings.enabled && before.has_panel && changes ==> effects == seq![
                Effect::RemovePanel,
                made,
            ]
            &&& !settings.enabled && !(before.session is Hidden) ==> effects.len() >= 1
                && is_closing(
                before.session,
                if changes {
                    effects.drop_last()
                } else {
                    effects
                },
            )
        }),
{
    geometry::law_doubles_by_their_bits(settings.width, before.settings.width);
    let changes = !geometry::is_one_number(settings.width, before.settings.width)
        || settings.max_results != before.settings.max_results;
    let made = Effect::CreatePanel { width: settings.width, max_results: settings.max_results };
    assert(before.needs_new_panel(settings) == changes);
    assert(effects == before.config_effects(settings));
    if settings.enabled && before.has_panel && changes {
        assert(effects =~= seq![Effect::RemovePanel, made]);
        assert(effects[0] == Effect::RemovePanel && effects[1] == made);
    } else if settings.enabled && !before.has_panel {
        assert(effects =~= seq![made]);
        assert(effects[0] == made);
    } else if !settings.enabled && before.has_panel && changes {
        assert(effects =~= before.cancel_effects() + seq![Effect::RemovePanel]);
        assert(effects.last() == Effect::RemovePanel);
        assert(effects.drop_last() =~= before.cancel_effects());
    } else {
        assert(effects =~= if settings.enabled {
            Seq::empty()
        } else {
            before.cancel_effects()
        });
    }
}

/// An enabled palette starts with a panel in its measures, made if there is none,
/// and a disabled one as it is. Starting opens nothing.
pub proof fn law_start_prepares_the_panel(before: ActorView)
    ensures
        before.started() == (ActorView { has_panel: before.started().has_panel, ..before }),
        before.settings.enabled ==> before.started().has_panel,
        !before.settings.enabled ==> before.started() == before && before.start_effects().len()
            == 0,
        before.settings.enabled && before.has_panel ==> before.start_effects().len() == 0,
        before.settings.enabled && !before.has_panel ==> before.start_effects() == seq![
            Effect::CreatePanel {
                width: before.settings.width,
                max_results: before.settings.max_results,
            },
        ],
{
}

} // verus!
