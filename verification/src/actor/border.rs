//! The actor that keeps the border round the focused window.

use std::sync::Arc;

use vstd::prelude::*;

use crate::model::ids::WindowServerId;
use crate::model::projection::{BorderTarget, DesktopSnapshot, StateRevision};
use crate::ui::border;
use crate::ui::border::{BorderSettings, BorderStyle, CgsWindowError, FocusBorderWindow};

verus! {

/// What the actor hears of.
#[derive(Debug)]
pub enum Event {
    Snapshot(Arc<DesktopSnapshot>),
    ConfigUpdated(BorderSettings),
    /// The order of a window among others may have changed.
    OrderInvalidated(WindowServerId),
}

/// The actor's state.
#[derive(Debug)]
pub struct Border {
    pub settings: BorderSettings,
    pub surface: Option<FocusBorderWindow>,
    pub last_snapshot: Option<Arc<DesktopSnapshot>>,
    pub last_applied_revision: Option<StateRevision>,
}

/// What is to be done with the surface. Whatever is begun ends in a call of
/// [`Border::finish`], or of [`Border::finish_order`] after
/// [`SurfacePlan::SyncOrder`].
#[derive(Debug, Clone, Copy)]
pub enum SurfacePlan {
    Nothing,
    /// Take the surface away.
    Clear,
    /// Make a surface. One that is there stays until the new one is finished.
    Create { target: BorderTarget, style: BorderStyle },
    Update { surface: FocusBorderWindow, target: BorderTarget, style: BorderStyle },
    SyncOrder(FocusBorderWindow),
}

/// How many events are taken in before the last snapshot among them is applied.
pub const MAX_EVENTS_PER_BATCH: usize = 4096;

impl Border {
    /// The window that should have a border: the committed target, unless
    /// borders are disabled or Mission Control is open.
    pub open spec fn wanted(self) -> Option<BorderTarget> {
        match self.last_snapshot {
            Some(snapshot) if self.settings.enabled && !snapshot.state.mission_control_active => {
                snapshot.state.border_target
            },
            _ => None,
        }
    }

    /// What brings the surface to the window that should have a border.
    pub open spec fn plan(self) -> SurfacePlan {
        match self.wanted() {
            None => SurfacePlan::Clear,
            Some(target) => match self.surface {
                Some(surface) if surface.target == target.window_server_id => SurfacePlan::Update {
                    surface,
                    target,
                    style: border::style_of(self.settings),
                },
                _ => SurfacePlan::Create { target, style: border::style_of(self.settings) },
            },
        }
    }

    /// The actor once the surface is on its way to where it should be: one that
    /// should not be there is forgotten.
    pub open spec fn planned(self) -> Border {
        Border {
            surface: if self.wanted() is None {
                None
            } else {
                self.surface
            },
            ..self
        }
    }

    /// Whether a state of the revision was applied, or a later one.
    pub open spec fn has_applied(self, revision: StateRevision) -> bool {
        self.last_applied_revision matches Some(applied) && applied@ >= revision@
    }

    /// The actor with the state as the last one.
    pub open spec fn with_snapshot(self, snapshot: Arc<DesktopSnapshot>) -> Border {
        Border {
            last_snapshot: Some(snapshot),
            last_applied_revision: Some(snapshot.revision),
            ..self
        }
    }

    /// The actor after a committed state.
    pub open spec fn applied(self, snapshot: Arc<DesktopSnapshot>) -> Border {
        if self.has_applied(snapshot.revision) {
            self
        } else {
            self.with_snapshot(snapshot).planned()
        }
    }

    /// What a committed state calls for.
    pub open spec fn apply_plan(self, snapshot: Arc<DesktopSnapshot>) -> SurfacePlan {
        if self.has_applied(snapshot.revision) {
            SurfacePlan::Nothing
        } else {
            self.with_snapshot(snapshot).plan()
        }
    }

    /// What a change in a window's order calls for.
    pub open spec fn order_plan(self, window: WindowServerId) -> SurfacePlan {
        match self.surface {
            Some(surface) if !surface.ordering_grouped && surface.target == window => {
                SurfacePlan::SyncOrder(surface)
            },
            _ => SurfacePlan::Nothing,
        }
    }

    /// The actor after making or updating the surface ended. One that failed is
    /// taken away.
    pub open spec fn finished(self, result: Result<FocusBorderWindow, CgsWindowError>) -> Border {
        Border {
            surface: match result {
                Ok(surface) => Some(surface),
                Err(_) => None,
            },
            ..self
        }
    }

    /// The actor after ordering the surface ended. After a failure the surface is
    /// taken away.
    pub open spec fn ordered(self, result: Result<FocusBorderWindow, CgsWindowError>) -> Border {
        match result {
            Ok(_) => self,
            Err(_) => Border { surface: None, ..self },
        }
    }

    /// What remains to be done after ordering the surface ended.
    pub open spec fn plan_after_order(
        self,
        result: Result<FocusBorderWindow, CgsWindowError>,
    ) -> SurfacePlan {
        match result {
            Ok(_) => SurfacePlan::Nothing,
            Err(_) => (Border { surface: None, ..self }).plan(),
        }
    }

    /// The actor with other settings.
    pub open spec fn configured(self, settings: BorderSettings) -> Border {
        (Border { settings, ..self }).planned()
    }

    /// What other settings call for.
    pub open spec fn config_plan(self, settings: BorderSettings) -> SurfacePlan {
        (Border { settings, ..self }).plan()
    }

    pub fn new(settings: BorderSettings) -> (actor: Self)
        ensures
            actor == (Border {
                settings,
                surface: None,
                last_snapshot: None,
                last_applied_revision: None,
            }),
    {
        Border { settings, surface: None, last_snapshot: None, last_applied_revision: None }
    }

    /// Applies a committed state, unless it or a later one was applied before.
    pub fn handle_snapshot(&mut self, snapshot: Arc<DesktopSnapshot>) -> (plan: SurfacePlan)
        ensures
            *final(self) == old(self).applied(snapshot),
            plan == old(self).apply_plan(snapshot),
    {
        match self.last_applied_revision {
            Some(applied) => {
                if applied.covers(snapshot.revision) {
                    return SurfacePlan::Nothing;
                }
            },
            None => {},
        }
        self.last_applied_revision = Some(snapshot.revision);
        self.last_snapshot = Some(snapshot);
        self.sync_surface()
    }

    pub fn handle_config_updated(&mut self, settings: BorderSettings) -> (plan: SurfacePlan)
        ensures
            *final(self) == old(self).configured(settings),
            plan == old(self).config_plan(settings),
    {
        self.settings = settings;
        self.sync_surface()
    }

    /// Orders the border again, if it belongs to the window and the WindowServer
    /// does not keep it in order.
    pub fn handle_order_invalidated(&self, window: WindowServerId) -> (plan: SurfacePlan)
        ensures
            plan == self.order_plan(window),
    {
        match self.surface {
            Some(surface) => {
                if surface.should_resync_order_for(window) {
                    SurfacePlan::SyncOrder(surface)
                } else {
                    SurfacePlan::Nothing
                }
            },
            None => SurfacePlan::Nothing,
        }
    }

    /// Takes in how making or updating the surface ended. One that failed is
    /// taken away.
    pub fn finish(&mut self, result: Result<FocusBorderWindow, CgsWindowError>)
        ensures
            *final(self) == old(self).finished(result),
    {
        self.surface = match result {
            Ok(surface) => Some(surface),
            Err(_) => None,
        };
    }

    /// Takes in how ordering the surface ended. After a failure it is taken away
    /// and made anew.
    pub fn finish_order(&mut self, result: Result<FocusBorderWindow, CgsWindowError>) -> (plan:
        SurfacePlan)
        ensures
            *final(self) == old(self).ordered(result),
            plan == old(self).plan_after_order(result),
    {
        match result {
            Ok(_) => SurfacePlan::Nothing,
            Err(_) => {
                self.surface = None;
                self.sync_surface()
            },
        }
    }

    /// The window that should have a border.
    fn wanted_target(&self) -> (target: Option<BorderTarget>)
        ensures
            target == self.wanted(),
    {
        if !self.settings.enabled {
            return None;
        }
        match &self.last_snapshot {
            Some(snapshot) => {
                if snapshot.state.mission_control_active {
                    None
                } else {
                    snapshot.state.border_target
                }
            },
            None => None,
        }
    }

    /// Brings the surface to the window that should have a border.
    fn sync_surface(&mut self) -> (plan: SurfacePlan)
        ensures
            *final(self) == old(self).planned(),
            plan == old(self).plan(),
    {
        let target: BorderTarget = match self.wanted_target() {
            Some(target) => target,
            None => {
                self.surface = None;
                return SurfacePlan::Clear;
            },
        };
        let style: BorderStyle = BorderStyle::from(self.settings);
        match self.surface {
            Some(surface) => {
                if surface.targets(target) {
                    SurfacePlan::Update { surface, target, style }
                } else {
                    SurfacePlan::Create { target, style }
                }
            },
            None => SurfacePlan::Create { target, style },
        }
    }
}

/// The events of a batch. Of snapshots in a row only the last is kept.
#[derive(Debug)]
pub struct Batch {
    pub pending: Option<Arc<DesktopSnapshot>>,
    pub received: usize,
}

/// The event that applies the snapshot, if there is one.
pub open spec fn pending_event(pending: Option<Arc<DesktopSnapshot>>) -> Seq<Event> {
    match pending {
        Some(snapshot) => seq![Event::Snapshot(snapshot)],
        None => Seq::empty(),
    }
}

/// The events with, of snapshots in a row, the last one alone.
pub open spec fn coalesced(events: Seq<Event>) -> Seq<Event>
    decreases events.len(),
{
    if events.len() == 0 {
        events
    } else if events[0] is Snapshot && events.len() > 1 && events[1] is Snapshot {
        coalesced(events.drop_first())
    } else {
        seq![events[0]] + coalesced(events.drop_first())
    }
}

/// The snapshot that waits after an event.
pub open spec fn pending_after(event: Event) -> Option<Arc<DesktopSnapshot>> {
    match event {
        Event::Snapshot(snapshot) => Some(snapshot),
        _ => None,
    }
}

/// What an event lets through at once: a snapshot waits, anything else comes
/// after what waited.
pub open spec fn passed_on(pending: Option<Arc<DesktopSnapshot>>, event: Event) -> Seq<Event> {
    if event is Snapshot {
        Seq::empty()
    } else {
        pending_event(pending) + seq![event]
    }
}

/// What a batch of events lets through in all, with what waits in the end.
pub open spec fn batched(pending: Option<Arc<DesktopSnapshot>>, events: Seq<Event>) -> Seq<Event>
    decreases events.len(),
{
    if events.len() == 0 {
        pending_event(pending)
    } else {
        passed_on(pending, events[0]) + batched(pending_after(events[0]), events.drop_first())
    }
}

impl Batch {
    /// Whether the batch takes no more events.
    pub open spec fn takes_no_more(self) -> bool {
        self.received >= MAX_EVENTS_PER_BATCH
    }

    pub fn new() -> (batch: Self)
        ensures
            batch.pending is None,
            batch.received == 0,
    {
        Batch { pending: None, received: 0 }
    }

    /// Whether the batch takes no more events.
    pub fn is_full(&self) -> (full: bool)
        ensures
            full == self.takes_no_more(),
    {
        self.received >= MAX_EVENTS_PER_BATCH
    }

    /// Takes in an event and gives those that are to be handled now.
    pub fn handle_batched_event(&mut self, event: Event) -> (ready: Vec<Event>)
        requires
            old(self).received < MAX_EVENTS_PER_BATCH,
        ensures
            final(self).received == old(self).received + 1,
            final(self).pending == pending_after(event),
            ready@ == passed_on(old(self).pending, event),
    {
        self.received = self.received + 1;
        let mut ready: Vec<Event> = Vec::new();
        match event {
            Event::Snapshot(snapshot) => {
                self.pending = Some(snapshot);
            },
            other => {
                match self.flush_pending_snapshot() {
                    Some(waiting) => {
                        ready.push(waiting);
                    },
                    None => {},
                }
                ready.push(other);
                assert(ready@ =~= passed_on(old(self).pending, event));
            },
        }
        ready
    }

    /// Gives the snapshot that waits, if one does.
    pub fn flush_pending_snapshot(&mut self) -> (ready: Option<Event>)
        ensures
            *final(self) == (Batch { pending: None, ..*old(self) }),
            ready == (match old(self).pending {
                Some(snapshot) => Some(Event::Snapshot(snapshot)),
                None => None,
            }),
    {
        match self.pending.take() {
            Some(snapshot) => Some(Event::Snapshot(snapshot)),
            None => None,
        }
    }
}

/// A batch hands on its events in order, less the snapshots that another one
/// follows directly.
pub proof fn law_batch_coalesces(events: Seq<Event>)
    ensures
        batched(None, events) == coalesced(events),
{
    lemma_batch_coalesces(None, events);
    assert(pending_event(None) + events =~= events);
}

proof fn lemma_batch_coalesces(pending: Option<Arc<DesktopSnapshot>>, events: Seq<Event>)
    ensures
        batched(pending, events) == coalesced(pending_event(pending) + events),
    decreases events.len(),
{
    let all = pending_event(pending) + events;
    if events.len() == 0 {
        assert(all =~= pending_event(pending));
        reveal_with_fuel(coalesced, 2);
        if pending is Some {
            assert(all.drop_first() =~= Seq::empty());
            assert(coalesced(all) =~= all);
        }
    } else {
        let rest = events.drop_first();
        let next = pending_after(events[0]);
        lemma_batch_coalesces(next, rest);
        if events[0] is Snapshot {
            assert(pending_event(next) + rest =~= events);
            if pending is Some {
                assert(all.drop_first() =~= events);
            } else {
                assert(all =~= events);
            }
            assert(batched(pending, events) =~= coalesced(all));
        } else {
            assert(pending_event(next) + rest =~= rest);
            assert(coalesced(events) =~= seq![events[0]] + coalesced(rest));
            if pending is Some {
                assert(all.drop_first() =~= events);
                assert(coalesced(all) =~= seq![all[0]] + coalesced(events));
            } else {
                assert(all =~= events);
            }
            assert(batched(pending, events) =~= coalesced(all));
        }
    }
}

/// The actor after it took note of an event, its surface aside.
pub open spec fn noted(actor: Border, event: Event) -> Border {
    match event {
        Event::Snapshot(snapshot) => if actor.has_applied(snapshot.revision) {
            actor
        } else {
            actor.with_snapshot(snapshot)
        },
        Event::ConfigUpdated(settings) => Border { settings, ..actor },
        Event::OrderInvalidated(_) => actor,
    }
}

pub open spec fn all_noted(actor: Border, events: Seq<Event>) -> Border
    decreases events.len(),
{
    if events.len() == 0 {
        actor
    } else {
        all_noted(noted(actor, events[0]), events.drop_first())
    }
}

/// Whether of two snapshots in a row the second has the greater revision.
pub open spec fn revisions_rise(events: Seq<Event>) -> bool {
    forall|i: int, j: int|
        0 <= i < j < events.len() && j == i + 1 && (#[trigger] events[i]) is Snapshot && (
        #[trigger] events[j]) is Snapshot ==> events[i]->Snapshot_0.revision@
            < events[j]->Snapshot_0.revision@
}

/// Leaving out the snapshots that a later one follows directly leads to the same
/// settings, the same state and so the same wanted border.
pub proof fn law_coalescing_loses_nothing(actor: Border, events: Seq<Event>)
    requires
        revisions_rise(events),
    ensures
        all_noted(actor, coalesced(events)) == all_noted(actor, events),
    decreases events.len(),
{
    if events.len() > 0 {
        let rest = events.drop_first();
        assert forall|i: int, j: int|
            0 <= i < j < rest.len() && j == i + 1 && (#[trigger] rest[i]) is Snapshot && (
            #[trigger] rest[j]) is Snapshot implies rest[i]->Snapshot_0.revision@
            < rest[j]->Snapshot_0.revision@ by {
            assert(rest[i] == events[i + 1] && rest[j] == events[j + 1]);
        }
        if events[0] is Snapshot && events.len() > 1 && events[1] is Snapshot {
            law_coalescing_loses_nothing(actor, rest);
            assert(events[0]->Snapshot_0.revision@ < events[1]->Snapshot_0.revision@);
            assert(rest[0] == events[1]);
            assert(noted(noted(actor, events[0]), rest[0]) == noted(actor, rest[0]));
            reveal_with_fuel(all_noted, 3);
        } else {
            law_coalescing_loses_nothing(noted(actor, events[0]), rest);
            assert(coalesced(events).drop_first() =~= coalesced(rest));
        }
    }
}

/// Applying a state a second time, or an earlier one after it, does nothing.
pub proof fn law_stale_states_are_ignored(
    actor: Border,
    snapshot: Arc<DesktopSnapshot>,
    earlier: Arc<DesktopSnapshot>,
)
    requires
        earlier.revision@ <= snapshot.revision@,
    ensures
        actor.applied(snapshot).applied(earlier) == actor.applied(snapshot),
        actor.applied(snapshot).apply_plan(earlier) == SurfacePlan::Nothing,
{
}

/// No border is kept while borders are disabled, Mission Control is open, or no
/// window is there to carry one.
pub proof fn law_border_is_suppressed(actor: Border, snapshot: Arc<DesktopSnapshot>)
    requires
        actor.last_snapshot == Some(snapshot),
        !actor.settings.enabled || snapshot.state.mission_control_active
            || snapshot.state.border_target is None,
    ensures
        actor.plan() == SurfacePlan::Clear,
        actor.planned().surface is None,
{
}

/// Whether the style is the one that the settings ask for.
pub open spec fn is_configured(style: BorderStyle, settings: BorderSettings) -> bool {
    &&& style.width == settings.width
    &&& style.color == settings.color
    &&& style.corner_radius == settings.corner_radius
    &&& style.hidpi == settings.hidpi
}

/// The committed target gets a border in the configured style, if borders are
/// enabled and Mission Control is not open: the one that is there is updated if
/// it is that window's, and else a new one is made. In every other case none is
/// kept.
pub proof fn law_committed_target_gets_the_border(actor: Border)
    ensures
        ({
            let wanted = actor.last_snapshot is Some && actor.settings.enabled
                && !actor.last_snapshot->0.state.mission_control_active
                && actor.last_snapshot->0.state.border_target is Some;
            let committed = actor.last_snapshot->0.state.border_target->0;
            &&& wanted <==> actor.wanted() is Some
            &&& !wanted ==> actor.plan() == SurfacePlan::Clear && actor.planned() == (Border {
                surface: None,
                ..actor
            })
            &&& wanted ==> actor.planned() == actor
            &&& wanted && actor.surface is Some && actor.surface->0.target
                == committed.window_server_id ==> {
                &&& actor.plan() matches SurfacePlan::Update { surface, target, style }
                &&& surface == actor.surface->0
                &&& target == committed
                &&& is_configured(style, actor.settings)
            }
            &&& wanted && !(actor.surface is Some && actor.surface->0.target
                == committed.window_server_id) ==> {
                &&& actor.plan() matches SurfacePlan::Create { target, style }
                &&& target == committed
                &&& is_configured(style, actor.settings)
            }
        }),
{
}

/// A newer state replaces the one before, and what it calls for is done; other
/// settings are taken over in the same way. Neither changes anything else.
pub proof fn law_newer_states_are_applied(
    actor: Border,
    snapshot: Arc<DesktopSnapshot>,
    settings: BorderSettings,
)
    requires
        actor.last_applied_revision matches Some(applied) ==> applied@ < snapshot.revision@,
    ensures
        actor.applied(snapshot).last_snapshot == Some(snapshot),
        actor.applied(snapshot).last_applied_revision == Some(snapshot.revision),
        actor.applied(snapshot).settings == actor.settings,
        actor.apply_plan(snapshot) == (Border {
            last_snapshot: Some(snapshot),
            last_applied_revision: Some(snapshot.revision),
            ..actor
        }).plan(),
        actor.configured(settings).settings == settings,
        actor.configured(settings).last_snapshot == actor.last_snapshot,
        actor.configured(settings).last_applied_revision == actor.last_applied_revision,
        actor.config_plan(settings) == (Border { settings, ..actor }).plan(),
{
}

/// A border is ordered again exactly if its own window's order changed and the
/// WindowServer does not keep it in order. If that fails, it is made anew.
pub proof fn law_order_is_kept(
    actor: Border,
    window: WindowServerId,
    surface: FocusBorderWindow,
    error: CgsWindowError,
)
    ensures
        actor.order_plan(window) is SyncOrder <==> actor.surface is Some && actor.surface->0.target
            == window && !actor.surface->0.ordering_grouped,
        actor.order_plan(window) is SyncOrder || actor.order_plan(window) is Nothing,
        actor.order_plan(window) matches SurfacePlan::SyncOrder(ordered) ==> Some(ordered)
            == actor.surface,
        actor.ordered(Ok(surface)) == actor,
        actor.plan_after_order(Ok(surface)) is Nothing,
        actor.ordered(Err(error)) == (Border { surface: None, ..actor }),
        actor.plan_after_order(Err(error)) is Clear || actor.plan_after_order(Err(error)) is Create,
        actor.plan_after_order(Err(error)) is Create <==> actor.wanted() is Some,
        actor.finished(Ok(surface)) == (Border { surface: Some(surface), ..actor }),
        actor.finished(Err(error)) == (Border { surface: None, ..actor }),
{
    assert((Border { surface: None, ..actor }).wanted() == actor.wanted());
}

/// Tells the events that are not snapshots.
pub open spec fn is_no_snapshot() -> spec_fn(Event) -> bool {
    |event: Event| !(event is Snapshot)
}

/// A batch hands on everything but snapshots as it came, hands on no two snapshots
/// in a row, and ends with the same event.
pub proof fn law_batch_keeps_all_else(events: Seq<Event>)
    ensures
        coalesced(events).filter(is_no_snapshot()) == events.filter(is_no_snapshot()),
        forall|i: int, j: int|
            0 <= i && j == i + 1 && j < coalesced(events).len() ==> !((#[trigger] coalesced(
                events,
            )[i]) is Snapshot && (#[trigger] coalesced(events)[j]) is Snapshot),
        events.len() > 0 ==> coalesced(events).len() > 0 && coalesced(events).last()
            == events.last(),
        events.len() > 0 ==> (coalesced(events)[0] is Snapshot <==> events[0] is Snapshot),
    decreases events.len(),
{
    if events.len() > 0 {
        let rest = events.drop_first();
        law_batch_keeps_all_else(rest);
        let keep = is_no_snapshot();
        lemma_filter_first(events, keep);
        if events[0] is Snapshot && events.len() > 1 && events[1] is Snapshot {
            assert(rest[0] == events[1]);
            assert(rest.last() == events.last());
        } else {
            let all = coalesced(events);
            let later = coalesced(rest);
            assert(all == seq![events[0]] + later);
            assert(all.drop_first() =~= later);
            lemma_filter_first(all, keep);
            assert forall|i: int, j: int| 0 <= i && j == i + 1 && j < all.len() implies !((
            #[trigger] all[i]) is Snapshot && (#[trigger] all[j]) is Snapshot) by {
                if i > 0 {
                    assert(all[i] == later[i - 1] && all[j] == later[j - 1]);
                } else {
                    assert(all[1] == later[0]);
                    assert(rest.len() > 0);
                    assert(rest[0] == events[1]);
                }
            }
            if rest.len() > 0 {
                assert(all.last() == later.last());
                assert(rest.last() == events.last());
            }
        }
    }
}

/// Filtering from the front.
proof fn lemma_filter_first(events: Seq<Event>, keep: spec_fn(Event) -> bool)
    requires
        events.len() > 0,
    ensures
        events.filter(keep) == (if keep(events[0]) {
            seq![events[0]] + events.drop_first().filter(keep)
        } else {
            events.drop_first().filter(keep)
        }),
    decreases events.len(),
{
    reveal(Seq::filter);
    let rest = events.drop_first();
    if events.len() == 1 {
        assert(events.drop_last() =~= Seq::empty());
        assert(rest =~= Seq::empty());
        assert(events.drop_last().filter(keep) =~= Seq::empty());
        assert(rest.filter(keep) =~= Seq::empty());
        assert(events.filter(keep) =~= (if keep(events[0]) {
            seq![events[0]] + rest.filter(keep)
        } else {
            rest.filter(keep)
        }));
    } else {
        lemma_filter_first(events.drop_last(), keep);
        assert(events.drop_last().drop_first() =~= rest.drop_last());
        assert(rest.last() == events.last());
        assert(events.filter(keep) =~= (if keep(events[0]) {
            seq![events[0]] + rest.filter(keep)
        } else {
            rest.filter(keep)
        }));
    }
}

/// A batch takes four thousand and ninety-six events.
pub proof fn law_batch_is_bounded(batch: Batch)
    ensures
        batch.takes_no_more() <==> batch.received >= 4_096,
{
}

} // verus!
