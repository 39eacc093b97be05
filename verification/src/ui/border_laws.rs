//! What holds of every run on a border's surface, however its operations go.

use vstd::prelude::*;

#[allow(unused_imports)]
use crate::model::geometry::Frame;
#[allow(unused_imports)]
use crate::model::projection::BorderTarget;
use crate::ui::border;
#[allow(unused_imports)]
use crate::ui::border::{
    BorderStyle, CgsWindowError, FocusBorderWindow, Outcome, Placement, RunView, SLSWindowTags,
    SurfaceOp,
};

verus! {

/// Whether the operation neither disables nor enables updates.
pub open spec fn leaves_lock(op: SurfaceOp) -> bool {
    !(op is DisableUpdates) && !(op is ReenableUpdates)
}

/// Whether the operation makes the surface visible.
pub open spec fn shows(op: SurfaceOp) -> bool {
    op == SurfaceOp::SetVisible(true)
}

pub open spec fn none_locks(steps: Seq<SurfaceOp>) -> bool {
    forall|i: int| 0 <= i < steps.len() ==> leaves_lock(#[trigger] steps[i])
}

pub open spec fn none_shows(steps: Seq<SurfaceOp>) -> bool {
    forall|i: int| 0 <= i < steps.len() ==> !shows(#[trigger] steps[i])
}

/// Whether updates are enabled once, at `at`, and the surface is not shown
/// before.
pub open spec fn enables_at(steps: Seq<SurfaceOp>, at: int) -> bool {
    &&& 0 <= at < steps.len() - 1
    &&& steps[at] is ReenableUpdates
    &&& forall|i: int| 0 <= i < steps.len() && i != at ==> leaves_lock(#[trigger] steps[i])
    &&& forall|i: int| 0 <= i < at ==> !shows(#[trigger] steps[i])
}

/// Whether updates are disabled once, at `from`, and enabled once, at `at`, and
/// the surface is not shown between.
pub open spec fn disables_at(steps: Seq<SurfaceOp>, from: int, at: int) -> bool {
    &&& 0 <= from < at < steps.len() - 1
    &&& steps[from] is DisableUpdates
    &&& steps[at] is ReenableUpdates
    &&& forall|i: int|
        0 <= i < steps.len() && i != from && i != at ==> leaves_lock(#[trigger] steps[i])
    &&& forall|i: int| from < i < at ==> !shows(#[trigger] steps[i])
}

impl RunView {
    /// Whether what remains leaves updates enabled and shows nothing unfinished.
    pub open spec fn is_sound(self) -> bool {
        match self.failure {
            Some(_) => if self.locked {
                self.steps == seq![SurfaceOp::Thaw, SurfaceOp::ReenableUpdates] || self.steps
                    == seq![SurfaceOp::ReenableUpdates]
            } else {
                self.steps.len() == 0
            },
            None => if self.locked {
                exists|at: int| enables_at(self.steps, at)
            } else {
                none_locks(self.steps) || exists|from: int, at: int|
                    disables_at(self.steps, from, at)
            },
        }
    }

    /// The run after operations that had these outcomes.
    pub open spec fn after(self, outcomes: Seq<Outcome>) -> RunView
        decreases outcomes.len(),
    {
        if outcomes.len() == 0 {
            self
        } else {
            self.advanced(outcomes[0]).after(outcomes.drop_first())
        }
    }
}

/// How many operations one of them can turn into.
pub open spec fn op_weight(op: SurfaceOp) -> nat {
    match op {
        SurfaceOp::QueryLevel { .. } => 3,
        SurfaceOp::QuerySubLevel { .. } => 2,
        SurfaceOp::QueryTracking(_) => 2,
        _ => 1,
    }
}

/// How many operations remain at most.
pub open spec fn weight(steps: Seq<SurfaceOp>) -> nat
    decreases steps.len(),
{
    if steps.len() == 0 {
        0
    } else {
        op_weight(steps[0]) + weight(steps.drop_first())
    }
}

proof fn lemma_weight_covers_length(steps: Seq<SurfaceOp>)
    ensures
        weight(steps) >= steps.len(),
    decreases steps.len(),
{
    if steps.len() > 0 {
        lemma_weight_covers_length(steps.drop_first());
    }
}

/// A new border's run is sound, and so is one that updates or orders a border.
pub proof fn law_runs_start_sound(
    window: FocusBorderWindow,
    target: BorderTarget,
    frame: Frame,
    style: BorderStyle,
)
    ensures
        (RunView {
            window,
            steps: border::creation_steps(target, frame, style),
            locked: false,
            failure: None,
        }).is_sound(),
        (RunView {
            window: window.updated(target, frame, style),
            steps: window.update_steps(target, frame, style),
            locked: false,
            failure: None,
        }).is_sound(),
        (RunView {
            window,
            steps: border::placement_steps(window.target, Placement::Above),
            locked: false,
            failure: None,
        }).is_sound(),
{
    let changed = window.difference(target, frame, style);
    let steps = window.update_steps(target, frame, style);
    if changed.size || changed.style {
        let lead: int = if changed.space {
            1
        } else {
            0
        };
        let moved: int = if changed.shape || (changed.origin && !window.movement_grouped) {
            1
        } else {
            0
        };
        let rescaled: int = if changed.resolution {
            2
        } else {
            0
        };
        assert(disables_at(steps, lead + 1, lead + 6 + moved + rescaled));
    } else {
        assert(none_locks(steps));
    }
    assert(none_locks(border::creation_steps(target, frame, style)));
}

/// A sound run stays sound, whatever the outcome of its next operation.
pub proof fn law_runs_stay_sound(run: RunView, outcome: Outcome)
    requires
        run.is_sound(),
    ensures
        run.advanced(outcome).is_sound(),
{
    let after = run.advanced(outcome);
    if run.steps.len() > 0 {
        let rest = run.performed(outcome);
        if run.failure is Some {
            assert(rest.steps =~= seq![SurfaceOp::ReenableUpdates] || rest.steps =~= Seq::empty());
        } else if after.failure is None {
            if run.locked {
                let at = choose|at: int| enables_at(run.steps, at);
                if at == 0 {
                    assert forall|i: int| 0 <= i < after.steps.len() implies leaves_lock(
                        #[trigger] after.steps[i],
                    ) by {
                        assert(after.steps[i] == run.steps[i + 1]);
                    }
                } else {
                    lemma_enabling_moves_up(run, outcome, at);
                }
            } else if none_locks(run.steps) {
                lemma_plain_run(run, outcome);
            } else {
                let (from, at) = choose|from: int, at: int| disables_at(run.steps, from, at);
                lemma_disabling_moves_up(run, outcome, from, at);
            }
        }
    }
}

proof fn lemma_plain_run(run: RunView, outcome: Outcome)
    requires
        run.steps.len() > 0,
        run.failure is None,
        run.advanced(outcome).failure is None,
        none_locks(run.steps),
    ensures
        run.advanced(outcome).locked == run.locked,
        none_locks(run.advanced(outcome).steps),
{
    let after = run.advanced(outcome);
    assert(leaves_lock(run.steps[0]));
    assert forall|i: int| 0 <= i < after.steps.len() implies leaves_lock(
        #[trigger] after.steps[i],
    ) by {
        if after.steps.len() == run.steps.len() {
            if i > 0 {
                assert(after.steps[i] == run.steps[i]);
            }
        } else {
            assert(after.steps[i] == run.steps[i + 1]);
        }
    }
}

proof fn lemma_enabling_moves_up(run: RunView, outcome: Outcome, at: int)
    requires
        run.failure is None,
        run.advanced(outcome).failure is None,
        run.locked,
        enables_at(run.steps, at),
        at > 0,
    ensures
        run.advanced(outcome).locked,
        exists|next: int| enables_at(run.advanced(outcome).steps, next),
{
    let after = run.advanced(outcome);
    assert(leaves_lock(run.steps[0]));
    if after.steps.len() == run.steps.len() {
        assert forall|i: int| 0 < i < after.steps.len() implies #[trigger] after.steps[i]
            == run.steps[i] by {}
        assert(enables_at(after.steps, at));
    } else {
        assert forall|i: int| 0 <= i < after.steps.len() implies #[trigger] after.steps[i]
            == run.steps[i + 1] by {}
        assert(enables_at(after.steps, at - 1));
    }
}

proof fn lemma_disabling_moves_up(run: RunView, outcome: Outcome, from: int, at: int)
    requires
        run.failure is None,
        run.advanced(outcome).failure is None,
        !run.locked,
        disables_at(run.steps, from, at),
    ensures
        run.advanced(outcome).is_sound(),
{
    let after = run.advanced(outcome);
    if from == 0 {
        assert forall|i: int| 0 <= i < after.steps.len() implies #[trigger] after.steps[i]
            == run.steps[i + 1] by {}
        assert(enables_at(after.steps, at - 1));
    } else {
        assert(leaves_lock(run.steps[0]));
        if after.steps.len() == run.steps.len() {
            assert forall|i: int| 0 < i < after.steps.len() implies #[trigger] after.steps[i]
                == run.steps[i] by {}
            assert(disables_at(after.steps, from, at));
        } else {
            assert forall|i: int| 0 <= i < after.steps.len() implies #[trigger] after.steps[i]
                == run.steps[i + 1] by {}
            assert(disables_at(after.steps, from - 1, at - 1));
        }
    }
}

/// However its operations go, a run that is done has left updates enabled.
pub proof fn law_updates_are_enabled_again(run: RunView, outcomes: Seq<Outcome>)
    requires
        run.is_sound(),
    ensures
        run.after(outcomes).is_sound(),
        run.after(outcomes).steps.len() == 0 ==> !run.after(outcomes).locked,
    decreases outcomes.len(),
{
    if outcomes.len() > 0 {
        law_runs_stay_sound(run, outcomes[0]);
        law_updates_are_enabled_again(run.advanced(outcomes[0]), outcomes.drop_first());
    }
}

/// While updates are disabled the surface is not shown, and after a failure it
/// is never shown.
pub proof fn law_unfinished_surface_stays_hidden(run: RunView)
    requires
        run.is_sound(),
    ensures
        run.locked && run.steps.len() > 0 ==> !shows(run.steps[0]),
        run.failure is Some ==> none_shows(run.steps),
{
    if run.failure is None && run.locked {
        let at = choose|at: int| enables_at(run.steps, at);
        if at == 0 {
            assert(run.steps[0] is ReenableUpdates);
        }
    }
}

/// A surface that would take pointer events fails the run, and is not shown by
/// it any more.
pub proof fn law_pointer_events_fail_closed(run: RunView, tags: SLSWindowTags)
    requires
        run.steps.len() > 0,
        run.steps[0] is QueryTags,
        run.failure is None,
        !tags.passes_events(),
    ensures
        run.advanced(Outcome::Tags(Some(tags))).failure == Some(CgsWindowError::PointerEvents),
        none_shows(run.advanced(Outcome::Tags(Some(tags))).steps),
{
}

/// Whether the surface is shown last of all, directly after it was asked
/// whether it takes pointer events.
pub open spec fn asks_before_showing(steps: Seq<SurfaceOp>) -> bool {
    &&& steps.len() >= 2
    &&& shows(steps.last())
    &&& steps[steps.len() - 2] is QueryTags
    &&& forall|i: int| 0 <= i < steps.len() - 1 ==> !shows(#[trigger] steps[i])
}

/// A new border is shown last, after the WindowServer was asked for its tags:
/// either that question is still to come, or it was just answered and pointer
/// events pass, or the run has failed.
pub proof fn law_new_border_asks_before_showing(
    run: RunView,
    outcome: Outcome,
    target: BorderTarget,
    frame: Frame,
    style: BorderStyle,
)
    ensures
        asks_before_showing(border::creation_steps(target, frame, style)),
        run.failure is None && asks_before_showing(run.steps) ==> {
            let after = run.advanced(outcome);
            ||| after.failure is Some && (!run.locked ==> after.steps.len() == 0)
            ||| after.failure is None && asks_before_showing(after.steps)
            ||| {
                &&& after.failure is None
                &&& run.steps[0] is QueryTags
                &&& after.steps == seq![SurfaceOp::SetVisible(true)]
                &&& outcome matches Outcome::Tags(Some(tags)) ==> tags.passes_events()
            }
        },
{
    if run.failure is None && asks_before_showing(run.steps) {
        let after = run.advanced(outcome);
        if after.failure is None {
            if after.steps.len() == run.steps.len() {
                assert forall|i: int| 0 < i < after.steps.len() implies #[trigger] after.steps[i]
                    == run.steps[i] by {}
                assert(!shows(after.steps[0]));
            } else {
                assert forall|i: int| 0 <= i < after.steps.len() implies #[trigger] after.steps[i]
                    == run.steps[i + 1] by {}
                if run.steps.len() == 2 {
                    assert(after.steps =~= seq![SurfaceOp::SetVisible(true)]);
                }
            }
        }
    }
}

/// Every sound run ends: each operation leaves fewer to come.
pub proof fn law_runs_end(run: RunView, outcome: Outcome)
    requires
        run.is_sound(),
        run.steps.len() > 0,
    ensures
        weight(run.advanced(outcome).steps) < weight(run.steps),
{
    let after = run.advanced(outcome);
    let rest = run.steps.drop_first();
    if run.failure is None && after.failure is Some {
        let cleanup = seq![SurfaceOp::Thaw, SurfaceOp::ReenableUpdates];
        lemma_weight_covers_length(run.steps);
        reveal_with_fuel(weight, 3);
        assert(cleanup.drop_first() =~= seq![SurfaceOp::ReenableUpdates]);
        assert(cleanup.drop_first().drop_first() =~= Seq::empty());
        if after.locked {
            let at = choose|at: int| enables_at(run.steps, at);
            assert(at > 0);
            assert(after.steps == cleanup);
        }
    } else if after.steps.len() == run.steps.len() {
        assert(after.steps.drop_first() =~= rest);
    } else {
        assert(after.steps =~= rest);
    }
}

} // verus!
