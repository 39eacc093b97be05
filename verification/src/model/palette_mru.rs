//! Which windows and applications had the focus last.

use std::collections::HashMap;

use vstd::prelude::*;

use crate::model::ids;
use crate::model::ids::WindowId;
use crate::model::palette_entry::PaletteEntryId;

verus! {

broadcast use vstd::std_specs::hash::group_hash_axioms;

/// What any remembered entry scores before its recency counts.
pub const MRU_BASE_SCORE: i64 = 1_000;

/// When each window and each application last had the focus, on a counter that
/// each focus advances.
#[derive(Debug)]
pub struct PaletteMru {
    sequence: u64,
    windows: HashMap<u64, u64>,
    applications: HashMap<i32, u64>,
}

/// The history as mathematics.
pub struct MruView {
    pub sequence: u64,
    pub windows: Map<WindowId, u64>,
    pub applications: Map<i32, u64>,
}

impl View for PaletteMru {
    type V = MruView;

    closed spec fn view(&self) -> MruView {
        MruView {
            sequence: self.sequence,
            windows: Map::new(
                |window: WindowId| self.windows@.contains_key(ids::window_key(window) as u64),
                |window: WindowId| self.windows@[ids::window_key(window) as u64],
            ),
            applications: self.applications@,
        }
    }
}

impl MruView {
    /// Whether nothing was last focused after the counter's present value.
    pub open spec fn is_history(self) -> bool {
        &&& forall|window: WindowId| #[trigger]
            self.windows.contains_key(window) ==> self.windows[window] <= self.sequence
        &&& forall|pid: i32| #[trigger]
            self.applications.contains_key(pid) ==> self.applications[pid] <= self.sequence
    }

    /// The history after one more focus.
    pub open spec fn recorded(self, window: WindowId) -> MruView {
        let sequence = if self.sequence < u64::MAX {
            (self.sequence + 1) as u64
        } else {
            u64::MAX
        };
        MruView {
            sequence,
            windows: self.windows.insert(window, sequence),
            applications: self.applications.insert(window.pid, sequence),
        }
    }

    /// When the window last had the focus; zero if it never had.
    pub open spec fn window_sequence(self, window: WindowId) -> u64 {
        if self.windows.contains_key(window) {
            self.windows[window]
        } else {
            0
        }
    }

    /// When the entry last had the focus, if it can have it and did.
    pub open spec fn entry_sequence(self, id: PaletteEntryId) -> Option<u64> {
        match id {
            PaletteEntryId::Window(window) => if self.windows.contains_key(window) {
                Some(self.windows[window])
            } else {
                None
            },
            PaletteEntryId::Application(pid) => if self.applications.contains_key(pid) {
                Some(self.applications[pid])
            } else {
                None
            },
            PaletteEntryId::Command(_) => None,
        }
    }

    /// The score of an entry for its recency: none without a focus, nor with
    /// one beyond the range of scores.
    pub open spec fn score(self, id: PaletteEntryId) -> int {
        match self.entry_sequence(id) {
            None => 0,
            Some(sequence) => if sequence > i64::MAX {
                0
            } else if MRU_BASE_SCORE + sequence > i64::MAX {
                i64::MAX as int
            } else {
                MRU_BASE_SCORE + sequence
            },
        }
    }
}

impl Default for PaletteMru {
    fn default() -> (mru: Self)
        ensures
            mru@.sequence == 0,
            mru@.windows == Map::<WindowId, u64>::empty(),
            mru@.applications == Map::<i32, u64>::empty(),
            mru@.is_history(),
    {
        let mru = PaletteMru {
            sequence: 0,
            windows: HashMap::new(),
            applications: HashMap::new(),
        };
        assert(mru@.windows =~= Map::<WindowId, u64>::empty());
        assert(mru@.applications =~= Map::<i32, u64>::empty());
        mru
    }
}

impl PaletteMru {
    /// Notes that the window, and with it its application, has the focus.
    pub fn record_window(&mut self, window: WindowId)
        ensures
            final(self)@ == old(self)@.recorded(window),
            old(self)@.is_history() ==> final(self)@.is_history(),
    {
        let ghost before = self@;
        self.sequence = self.sequence.saturating_add(1);
        self.windows.insert(ids::window_number(window), self.sequence);
        self.applications.insert(window.pid, self.sequence);
        proof {
            let after = before.recorded(window);
            assert forall|other: WindowId| #[trigger]
                self@.windows.contains_key(other) == after.windows.contains_key(other) && (
            after.windows.contains_key(other) ==> self@.windows[other] == after.windows[other]) by {
                ids::lemma_window_key(window, other);
            }
            assert(self@.windows =~= after.windows);
            assert(self@.applications =~= after.applications);
        }
    }

    /// The score of an entry for its recency.
    pub fn score(&self, id: &PaletteEntryId) -> (score: i64)
        ensures
            score == self@.score(*id),
    {
        let sequence: Option<u64> = match id {
            PaletteEntryId::Window(window) => self.window_entry(*window),
            PaletteEntryId::Application(pid) => match self.applications.get(pid) {
                Some(sequence) => Some(*sequence),
                None => None,
            },
            PaletteEntryId::Command(_) => None,
        };
        match sequence {
            None => 0,
            Some(sequence) => {
                if sequence > 0x7fff_ffff_ffff_ffff {
                    0
                } else if sequence > 0x7fff_ffff_ffff_ffff - (MRU_BASE_SCORE as u64) {
                    i64::MAX
                } else {
                    MRU_BASE_SCORE + (sequence as i64)
                }
            },
        }
    }

    fn window_entry(&self, window: WindowId) -> (sequence: Option<u64>)
        ensures
            sequence == self@.entry_sequence(PaletteEntryId::Window(window)),
    {
        proof {
            ids::lemma_window_key(window, window);
        }
        match self.windows.get(&ids::window_number(window)) {
            Some(sequence) => Some(*sequence),
            None => None,
        }
    }

    /// When the window last had the focus; zero if it never had.
    pub fn window_sequence(&self, window: WindowId) -> (sequence: u64)
        ensures
            sequence == self@.window_sequence(window),
    {
        match self.window_entry(window) {
            Some(sequence) => sequence,
            None => 0,
        }
    }
}

/// The window that had the focus last outranks every other window, and its
/// application every other application, as long as scores can tell them apart.
pub proof fn law_last_focus_ranks_first(mru: MruView, window: WindowId)
    requires
        mru.is_history(),
        mru.sequence < i64::MAX - MRU_BASE_SCORE,
    ensures
        forall|other: WindowId|
            other != window ==> #[trigger] mru.recorded(window).score(PaletteEntryId::Window(other))
                < mru.recorded(window).score(PaletteEntryId::Window(window)),
        forall|pid: i32|
            pid != window.pid ==> #[trigger] mru.recorded(window).score(
                PaletteEntryId::Application(pid),
            ) < mru.recorded(window).score(PaletteEntryId::Application(window.pid)),
        forall|other: WindowId|
            other != window ==> #[trigger] mru.recorded(window).window_sequence(other)
                < mru.recorded(window).window_sequence(window),
{
    let after = mru.recorded(window);
    assert forall|other: WindowId| other != window implies #[trigger] after.score(
        PaletteEntryId::Window(other),
    ) < after.score(PaletteEntryId::Window(window)) by {
        if mru.windows.contains_key(other) {
            assert(mru.windows[other] <= mru.sequence);
        }
    }
    assert forall|pid: i32| pid != window.pid implies #[trigger] after.score(
        PaletteEntryId::Application(pid),
    ) < after.score(PaletteEntryId::Application(window.pid)) by {
        if mru.applications.contains_key(pid) {
            assert(mru.applications[pid] <= mru.sequence);
        }
    }
    assert forall|other: WindowId| other != window implies #[trigger] after.window_sequence(other)
        < after.window_sequence(window) by {
        if mru.windows.contains_key(other) {
            assert(mru.windows[other] <= mru.sequence);
        }
    }
}

/// A focus counts for its window and its application alone: all others are
/// remembered as before, and what never had the focus scores nothing.
pub proof fn law_focus_leaves_others_alone(mru: MruView, window: WindowId, other: PaletteEntryId)
    requires
        other != PaletteEntryId::Window(window),
        other != PaletteEntryId::Application(window.pid),
    ensures
        mru.recorded(window).score(other) == mru.score(other),
        other is Command ==> mru.score(other) == 0,
        (other matches PaletteEntryId::Window(one) ==> !mru.windows.contains_key(one)) && (
        other matches PaletteEntryId::Application(pid) ==> !mru.applications.contains_key(pid))
            ==> mru.score(other) == 0,
        other matches PaletteEntryId::Window(one) ==> mru.recorded(window).window_sequence(one)
            == mru.window_sequence(one),
        mru.sequence < i64::MAX - 1_000 ==> mru.recorded(window).score(
            PaletteEntryId::Window(window),
        ) == 1_001 + mru.sequence,
        mru.sequence < i64::MAX - 1_000 ==> mru.recorded(window).score(
            PaletteEntryId::Application(window.pid),
        ) == 1_001 + mru.sequence,
{
}

/// A focus advances the counter by one, up to its greatest value. What was focused
/// scores a thousand more than the counter then had, as far as scores reach; a
/// counter beyond all scores counts for nothing.
pub proof fn law_recency_by_the_counter(mru: MruView, window: WindowId)
    ensures
        mru.sequence < u64::MAX ==> mru.recorded(window).sequence == mru.sequence + 1,
        mru.sequence == u64::MAX ==> mru.recorded(window).sequence == u64::MAX,
        mru.recorded(window).windows[window] == mru.recorded(window).sequence,
        mru.recorded(window).applications[window.pid] == mru.recorded(window).sequence,
        mru.windows.contains_key(window) ==> mru.score(PaletteEntryId::Window(window)) == (
        if mru.windows[window] > i64::MAX {
            0
        } else if mru.windows[window] > i64::MAX - 1_000 {
            i64::MAX as int
        } else {
            1_000 + mru.windows[window]
        }),
        mru.applications.contains_key(window.pid) ==> mru.score(
            PaletteEntryId::Application(window.pid),
        ) == (if mru.applications[window.pid] > i64::MAX {
            0
        } else if mru.applications[window.pid] > i64::MAX - 1_000 {
            i64::MAX as int
        } else {
            1_000 + mru.applications[window.pid]
        }),
{
}

} // verus!
