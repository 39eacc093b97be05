//! What a committed desktop state is made of, and who hears of it.

use std::sync::Arc;

use vstd::prelude::*;

use crate::actor::reactor::state::{RiftState, WindowState};
#[allow(unused_imports)]
use crate::actor::reactor::state::StoreView;
#[allow(unused_imports)]
use crate::model::geometry;
use crate::model::ids::{SpaceId, WindowId};
use crate::model::projection;
use crate::model::projection::{
    BorderTarget, DesktopSnapshot, DesktopState, ProjectionHub, WorkspaceContext,
};
#[allow(unused_imports)]
use crate::model::projection::HubView;
use crate::model::server::RuntimeDisplayData;

verus! {

/// The presentation actors that hear of committed states.
#[derive(Debug, Clone, Copy, PartialEq, Eq, Structural)]
pub enum Consumer {
    Menu,
    Border,
    CommandPalette,
}

/// The committed states and the presentation actors that are attached.
#[derive(Debug)]
pub struct PresentationManager {
    pub projections: ProjectionHub,
    pub menu_attached: bool,
    pub border_attached: bool,
    pub command_palette_attached: bool,
}

/// A snapshot on its way to a presentation actor.
#[derive(Debug)]
pub struct Delivery {
    pub consumer: Consumer,
    pub snapshot: Arc<DesktopSnapshot>,
}

/// What is observed of the desktop when a state is to be committed.
#[derive(Debug)]
pub struct Observation {
    pub displays: Vec<RuntimeDisplayData>,
    pub main_window: Option<WindowId>,
    /// The space on which the main window is best shown.
    pub main_window_space: Option<SpaceId>,
    pub mission_control_active: bool,
    pub menu_bar_context: Option<WorkspaceContext>,
}

/// The part of the reactor that presentation depends on.
#[derive(Debug)]
pub struct Reactor {
    pub state: RiftState,
    pub presentation_manager: PresentationManager,
}

/// Whether a window can carry a border: it is an ordinary window that is not
/// minimized and has an extent.
pub open spec fn is_borderable(state: WindowState) -> bool {
    &&& !state.info.is_minimized
    &&& state.info.is_standard
    &&& !state.frame_monotonic.is_degenerate()
}

/// The window that carries the border: the main window, if it is known, can
/// carry one, is visible and is on a space.
pub open spec fn border_target_of(
    windows: StoreView,
    main_window: Option<WindowId>,
    space: Option<SpaceId>,
) -> Option<BorderTarget> {
    match (main_window, space) {
        (Some(window), Some(space)) => {
            let state = windows.windows[window];
            if windows.windows.contains_key(window) && is_borderable(state)
                && state.info.sys_id is Some && windows.visible.contains(
                state.info.sys_id->0.id,
            ) {
                Some(
                    BorderTarget {
                        window,
                        window_server_id: state.info.sys_id->0,
                        space,
                        frame: state.frame_monotonic,
                    },
                )
            } else {
                None
            }
        },
        _ => None,
    }
}

/// The state that an observation amounts to.
pub open spec fn observed_state(windows: StoreView, observation: Observation) -> DesktopState {
    DesktopState {
        displays: observation.displays,
        focused_window: observation.main_window,
        mission_control_active: observation.mission_control_active,
        border_target: border_target_of(
            windows,
            observation.main_window,
            observation.main_window_space,
        ),
        menu_bar_context: observation.menu_bar_context,
    }
}

impl PresentationManager {
    /// The attached actors, in the order in which they hear of a state.
    pub open spec fn attached(self) -> Seq<Consumer> {
        (if self.menu_attached {
            seq![Consumer::Menu]
        } else {
            Seq::empty()
        }) + (if self.border_attached {
            seq![Consumer::Border]
        } else {
            Seq::empty()
        }) + (if self.command_palette_attached {
            seq![Consumer::CommandPalette]
        } else {
            Seq::empty()
        })
    }
}

/// One delivery of the snapshot to each of the actors.
pub open spec fn deliveries_of(snapshot: Arc<DesktopSnapshot>, consumers: Seq<Consumer>) -> Seq<
    Delivery,
> {
    consumers.map_values(|consumer: Consumer| Delivery { consumer, snapshot })
}

/// Whether the hub, and what is delivered, follow from publishing an observation:
/// a state that is committed reaches every attached actor.
pub open spec fn is_published(
    before: HubView,
    after: HubView,
    windows: StoreView,
    observation: Observation,
    attached: Seq<Consumer>,
    deliveries: Seq<Delivery>,
) -> bool {
    let state = observed_state(windows, observation);
    &&& !after.dirty
    &&& before.is_consistent() ==> after.is_consistent()
    &&& if before.commits(state) {
        &&& after.revision@ == projection::number_after(before.revision@)
        &&& after.current == Some(DesktopSnapshot { revision: after.revision, state })
        &&& deliveries == deliveries_of(
            Arc::new(DesktopSnapshot { revision: after.revision, state }),
            attached,
        )
    } else {
        &&& after.revision == before.revision
        &&& after.current == before.current
        &&& deliveries == Seq::<Delivery>::empty()
    }
}

impl Reactor {
    /// Commits what was observed, if anything was marked dirty and the state
    /// changed by it, and gives the snapshot to every attached actor.
    pub fn publish_desktop_snapshot(&mut self, observation: Observation) -> (deliveries: Vec<
        Delivery,
    >)
        ensures
            final(self).state == old(self).state,
            final(self).presentation_manager.menu_attached == old(
                self,
            ).presentation_manager.menu_attached,
            final(self).presentation_manager.border_attached == old(
                self,
            ).presentation_manager.border_attached,
            final(self).presentation_manager.command_palette_attached == old(
                self,
            ).presentation_manager.command_palette_attached,
            is_published(
                old(self).presentation_manager.projections@,
                final(self).presentation_manager.projections@,
                old(self).state.windows@,
                observation,
                old(self).presentation_manager.attached(),
                deliveries@,
            ),
    {
        let mut deliveries: Vec<Delivery> = Vec::new();
        if !self.presentation_manager.projections.is_dirty() {
            return deliveries;
        }
        let border_target: Option<BorderTarget> = self.snapshot_border_target(
            observation.main_window,
            observation.main_window_space,
        );
        let state = DesktopState {
            displays: observation.displays,
            focused_window: observation.main_window,
            mission_control_active: observation.mission_control_active,
            border_target,
            menu_bar_context: observation.menu_bar_context,
        };
        let snapshot: Arc<DesktopSnapshot> = match self.presentation_manager.projections.publish(
            state,
        ) {
            Some(snapshot) => snapshot,
            None => {
                return deliveries;
            },
        };
        if self.presentation_manager.menu_attached {
            deliveries.push(
                Delivery { consumer: Consumer::Menu, snapshot: projection::share(&snapshot) },
            );
        }
        if self.presentation_manager.border_attached {
            deliveries.push(
                Delivery { consumer: Consumer::Border, snapshot: projection::share(&snapshot) },
            );
        }
        if self.presentation_manager.command_palette_attached {
            deliveries.push(Delivery { consumer: Consumer::CommandPalette, snapshot });
        }
        assert(deliveries@ =~= deliveries_of(
            snapshot,
            old(self).presentation_manager.attached(),
        ));
        deliveries
    }

    /// The window that carries the border.
    pub fn snapshot_border_target(
        &self,
        main_window: Option<WindowId>,
        main_window_space: Option<SpaceId>,
    ) -> (target: Option<BorderTarget>)
        ensures
            target == border_target_of(self.state.windows@, main_window, main_window_space),
    {
        let window: WindowId = match main_window {
            Some(window) => window,
            None => {
                return None;
            },
        };
        let state: &WindowState = match self.state.windows.window(window) {
            Some(state) => state,
            None => {
                return None;
            },
        };
        if state.info.is_minimized || !state.info.is_standard || state.frame_monotonic.degenerate() {
            return None;
        }
        match (state.info.sys_id, main_window_space) {
            (Some(window_server_id), Some(space)) => {
                if self.state.windows.is_window_visible(window_server_id) {
                    Some(
                        BorderTarget {
                            window,
                            window_server_id,
                            space,
                            frame: state.frame_monotonic,
                        },
                    )
                } else {
                    None
                }
            },
            _ => None,
        }
    }
}

/// A committed state that is observed again reaches nobody, if its coordinates
/// are numbers.
pub proof fn law_unchanged_desktop_is_silent(
    hub: HubView,
    windows: StoreView,
    observation: Observation,
    revision: projection::StateRevision,
)
    requires
        hub.current == Some(
            (DesktopSnapshot { revision, state: observed_state(windows, observation) }),
        ),
        observed_state(windows, observation).is_numeric(),
    ensures
        !(HubView { dirty: true, ..hub }).commits(observed_state(windows, observation)),
{
    projection::law_equivalent_state_is_silent(
        hub,
        DesktopSnapshot { revision, state: observed_state(windows, observation) },
    );
}

/// The border is only ever at the focused window, where that one is known,
/// visible and can carry it.
pub proof fn law_border_follows_focus(windows: StoreView, observation: Observation)
    ensures
        observed_state(windows, observation).border_target matches Some(target) ==> {
            &&& observed_state(windows, observation).focused_window == Some(target.window)
            &&& windows.windows.contains_key(target.window)
            &&& is_borderable(windows.windows[target.window])
            &&& windows.visible.contains(target.window_server_id.id)
            &&& target.frame == windows.windows[target.window].frame_monotonic
        },
{
}

/// Whether the actor is attached.
pub open spec fn hears(manager: PresentationManager, consumer: Consumer) -> bool {
    match consumer {
        Consumer::Menu => manager.menu_attached,
        Consumer::Border => manager.border_attached,
        Consumer::CommandPalette => manager.command_palette_attached,
    }
}

/// When an actor hears of a state: the menu first, then the border, and last the
/// command palette.
pub open spec fn turn_of(consumer: Consumer) -> int {
    match consumer {
        Consumer::Menu => 0,
        Consumer::Border => 1,
        Consumer::CommandPalette => 2,
    }
}

/// A desktop that changed in any respect reaches every attached actor once, in
/// turn, and nobody else, as one snapshot that holds the observed state and becomes the
/// current one. Otherwise nobody hears of anything.
pub proof fn law_every_attached_actor_hears_once(
    manager: PresentationManager,
    before: HubView,
    after: HubView,
    windows: StoreView,
    observation: Observation,
    deliveries: Seq<Delivery>,
    consumer: Consumer,
)
    requires
        is_published(before, after, windows, observation, manager.attached(), deliveries),
    ensures
        !after.dirty,
        !before.dirty ==> deliveries.len() == 0 && after.current == before.current,
        before.dirty && (before.current is None || !projection::is_one_desktop(
            before.current->0.state,
            observed_state(windows, observation),
        )) ==> {
            &&& after.current is Some
            &&& after.current->0.state == observed_state(windows, observation)
            &&& after.current->0.revision == after.revision
            &&& hears(manager, consumer) <==> exists|i: int|
                0 <= i < deliveries.len() && (#[trigger] deliveries[i]).consumer == consumer
        },
        forall|i: int|
            0 <= i < deliveries.len() ==> after.current == Some(
                *(#[trigger] deliveries[i]).snapshot,
            ) && hears(manager, deliveries[i].consumer),
        forall|i: int, j: int|
            0 <= i < j < deliveries.len() ==> turn_of((#[trigger] deliveries[i]).consumer)
                < turn_of((#[trigger] deliveries[j]).consumer),
{
    let state = observed_state(windows, observation);
    if before.current is Some {
        projection::law_states_by_their_fields(before.current->0.state, state);
    }
    let attached = manager.attached();
    if before.commits(state) {
        let place: int = match consumer {
            Consumer::Menu => 0,
            Consumer::Border => if manager.menu_attached {
                1
            } else {
                0
            },
            Consumer::CommandPalette => (if manager.menu_attached {
                1int
            } else {
                0
            }) + (if manager.border_attached {
                1int
            } else {
                0
            }),
        };
        if hears(manager, consumer) {
            assert(attached[place] == consumer);
            assert(deliveries[place].consumer == consumer);
        }
        assert forall|i: int| 0 <= i < deliveries.len() implies #[trigger] deliveries[i].consumer
            == attached[i] by {}
    }
}

/// The border is at the focused window exactly if that one is known, ordinary and
/// not minimized, has a positive extent, is numbered by the window server and
/// visible, and is on a space. It has that window's number, space and frame.
pub proof fn law_border_target_is_the_focused_window(
    windows: StoreView,
    main_window: Option<WindowId>,
    space: Option<SpaceId>,
)
    ensures
        ({
            let target = border_target_of(windows, main_window, space);
            let state = windows.windows[main_window->0];
            let suitable = main_window is Some && space is Some && windows.windows.contains_key(
                main_window->0,
            ) && !state.info.is_minimized && state.info.is_standard && !geometry::at_most_zero(
                state.frame_monotonic.size.width.bits,
            ) && !geometry::at_most_zero(state.frame_monotonic.size.height.bits)
                && state.info.sys_id is Some && windows.visible.contains(state.info.sys_id->0.id);
            &&& target is Some <==> suitable
            &&& target is Some ==> {
                &&& target->0.window == main_window->0
                &&& target->0.window_server_id == state.info.sys_id->0
                &&& target->0.space == space->0
                &&& target->0.frame == state.frame_monotonic
            }
        }),
{
}

/// A committed state is what was observed: the displays, the focused window,
/// Mission Control and the menu bar's workspaces.
pub proof fn law_state_is_what_was_observed(windows: StoreView, observation: Observation)
    ensures
        ({
            let state = observed_state(windows, observation);
            &&& state.displays == observation.displays
            &&& state.focused_window == observation.main_window
            &&& state.mission_control_active == observation.mission_control_active
            &&& state.menu_bar_context == observation.menu_bar_context
            &&& state.border_target == border_target_of(
                windows,
                observation.main_window,
                observation.main_window_space,
            )
        }),
{
}

} // verus!
