//! Pure command-palette state, ranking, and navigation.

use vstd::prelude::*;

pub use crate::model::palette_entry::{
    LayoutMode, PaletteAction, PaletteEntry, PaletteEntryId, PaletteEntryKind, PaletteFocusOrigin,
    PaletteMode, PaletteSnapshot,
};
pub use crate::model::palette_mru::PaletteMru;
pub use crate::model::palette_rank::{Admission, RankedEntry};

#[allow(unused_imports)]
use crate::model::palette_mru::MruView;
#[allow(unused_imports)]
use crate::model::ids::WindowId;
#[allow(unused_imports)]
use crate::model::palette_mru;
use crate::model::palette_rank;
use crate::model::text;

verus! {

/// Where in the palette the session is.
#[derive(Debug, PartialEq, Eq)]
pub enum PaletteScope {
    Root,
    Commands,
    /// Inside one application, with the query to which leaving returns.
    Application { pid: i32, previous_query: String },
}

/// A scope as mathematics.
pub enum ScopeView {
    Root,
    Commands,
    Application { pid: i32, previous_query: Seq<char> },
}

impl View for PaletteScope {
    type V = ScopeView;

    open spec fn view(&self) -> ScopeView {
        match self {
            PaletteScope::Root => ScopeView::Root,
            PaletteScope::Commands => ScopeView::Commands,
            PaletteScope::Application { pid, previous_query } => ScopeView::Application {
                pid: *pid,
                previous_query: previous_query@,
            },
        }
    }
}

impl ScopeView {
    /// Which entries the scope offers.
    pub open spec fn admission(self) -> Admission {
        match self {
            ScopeView::Root => Admission::All,
            ScopeView::Commands => Admission::Commands,
            ScopeView::Application { pid, .. } => Admission::WindowsOf(pid),
        }
    }

    pub open spec fn of_mode(mode: PaletteMode) -> ScopeView {
        match mode {
            PaletteMode::Windows => ScopeView::Root,
            PaletteMode::Commands => ScopeView::Commands,
        }
    }
}

impl PaletteScope {
    fn admission(&self) -> (admission: Admission)
        ensures
            admission == self@.admission(),
    {
        match self {
            PaletteScope::Root => Admission::All,
            PaletteScope::Commands => Admission::Commands,
            PaletteScope::Application { pid, .. } => Admission::WindowsOf(*pid),
        }
    }
}

/// The palette's state: what it can offer, what is searched for, what it shows
/// and what is selected.
#[derive(Debug)]
pub struct PaletteModel {
    snapshot: PaletteSnapshot,
    query: String,
    normalized_query: String,
    scope: PaletteScope,
    results: Vec<RankedEntry>,
    selection: Option<usize>,
}

/// The palette's state as mathematics.
pub struct PaletteView {
    pub entries: Seq<PaletteEntry>,
    pub focus_origin: Option<PaletteFocusOrigin>,
    pub target_display_id: Option<u32>,
    pub query: Seq<char>,
    pub normalized: Seq<char>,
    pub scope: ScopeView,
    pub results: Seq<RankedEntry>,
    pub selection: Option<usize>,
}

impl View for PaletteModel {
    type V = PaletteView;

    closed spec fn view(&self) -> PaletteView {
        PaletteView {
            entries: self.snapshot.entries@,
            focus_origin: self.snapshot.focus_origin,
            target_display_id: self.snapshot.target_display_id,
            query: self.query@,
            normalized: self.normalized_query@,
            scope: self.scope@,
            results: self.results@,
            selection: self.selection,
        }
    }
}

/// Whether the result at `at` is the first that stands for `id`.
pub open spec fn is_first_match(
    entries: Seq<PaletteEntry>,
    results: Seq<RankedEntry>,
    id: PaletteEntryId,
    at: int,
) -> bool {
    &&& 0 <= at < results.len()
    &&& entries[results[at].index as int].id.same_as(id)
    &&& forall|earlier: int|
        0 <= earlier < at ==> !entries[(#[trigger] results[earlier]).index as int].id.same_as(id)
}

/// Whether some result stands for `id`.
pub open spec fn has_match(
    entries: Seq<PaletteEntry>,
    results: Seq<RankedEntry>,
    id: PaletteEntryId,
) -> bool {
    exists|at: int|
        0 <= at < results.len() && entries[(#[trigger] results[at]).index as int].id.same_as(id)
}

/// What decides between an application's windows: the latest focus, then the
/// current workspace, then the current display.
pub open spec fn preference_key(entry: PaletteEntry, mru: MruView) -> (u64, bool, bool) {
    match entry.id {
        PaletteEntryId::Window(window) => (
            mru.window_sequence(window),
            entry.is_current_workspace,
            entry.is_current_display,
        ),
        _ => (0, false, false),
    }
}

/// Whether the first key is the lesser one. `false` is less than `true`.
pub open spec fn key_before(left: (u64, bool, bool), right: (u64, bool, bool)) -> bool {
    if left.0 != right.0 {
        left.0 < right.0
    } else if left.1 != right.1 {
        !left.1
    } else {
        !left.2 && right.2
    }
}

/// Whether the entry is a window of the application.
pub open spec fn is_window_of(entry: PaletteEntry, pid: i32) -> bool {
    entry.kind == PaletteEntryKind::Window && entry.app_pid == Some(pid)
}

/// Whether the entry at `at` is the preferred window of the application: no
/// other has a greater key, and later ones have a lesser one.
pub open spec fn is_preferred_window(
    entries: Seq<PaletteEntry>,
    pid: i32,
    mru: MruView,
    at: int,
) -> bool {
    &&& 0 <= at < entries.len()
    &&& is_window_of(entries[at], pid)
    &&& forall|other: int|
        0 <= other < entries.len() && is_window_of(#[trigger] entries[other], pid)
            ==> !key_before(
            preference_key(entries[at], mru),
            preference_key(entries[other], mru),
        ) && (other > at ==> key_before(
            preference_key(entries[other], mru),
            preference_key(entries[at], mru),
        ))
}

/// Whether the action is that of the application's preferred window, or none if
/// the application has no window.
pub open spec fn is_preferred_action(
    entries: Seq<PaletteEntry>,
    pid: i32,
    mru: MruView,
    action: Option<PaletteAction>,
) -> bool {
    match action {
        None => forall|i: int|
            0 <= i < entries.len() ==> !is_window_of(#[trigger] entries[i], pid),
        Some(action) => exists|at: int|
            is_preferred_window(entries, pid, mru, at) && entries[at].action == action,
    }
}

impl PaletteView {
    /// Whether the results stand for offered entries, and one of them is
    /// selected if there is any.
    pub open spec fn is_consistent(self) -> bool {
        &&& palette_rank::indices_valid(self.entries, self.results)
        &&& forall|i: int|
            0 <= i < self.results.len() ==> self.scope.admission().admits(
                self.entries[(#[trigger] self.results[i]).index as int],
            )
        &&& match self.selection {
            None => self.results.len() == 0,
            Some(at) => at < self.results.len(),
        }
        &&& self.is_normalized()
    }

    /// Whether the normalized query is the lowercase form of the query.
    pub open spec fn is_normalized(self) -> bool {
        &&& self.query.len() == 0 ==> self.normalized.len() == 0
        &&& self.query.len() > 0 ==> text::is_lowercase_form(self.normalized, self.query)
    }

    /// Whether the results are those of the query.
    pub open spec fn shows_ranking(self, mru: MruView) -> bool {
        &&& palette_rank::is_ranking(
            self.results,
            self.entries,
            self.scope.admission(),
            text::tokens_of(self.normalized),
            mru,
        )
        &&& self.results == palette_rank::ranking(
            self.entries,
            self.scope.admission(),
            text::tokens_of(self.normalized),
            mru,
        )
    }

    /// Whether the entry at that place in the snapshot is among the results.
    pub open spec fn shows(self, at: int) -> bool {
        exists|i: int| 0 <= i < self.results.len() && (#[trigger] self.results[i]).index == at
    }

    /// Whether results and selection are what the rest of the state calls for:
    /// the ranking of the query, with the preferred entry selected if it is
    /// shown, and else the first one.
    pub open spec fn is_rebuilt(self, mru: MruView, preferred: Option<PaletteEntryId>) -> bool {
        &&& self.shows_ranking(mru)
        &&& match self.selection {
            None => self.results.len() == 0,
            Some(at) => {
                &&& at < self.results.len()
                &&& match preferred {
                    Some(id) if has_match(self.entries, self.results, id) => is_first_match(
                        self.entries,
                        self.results,
                        id,
                        at as int,
                    ),
                    _ => at == 0,
                }
            },
        }
    }

    /// The entry that a result stands for.
    pub open spec fn result_entry(self, i: int) -> PaletteEntry {
        self.entries[self.results[i].index as int]
    }

    /// The selected entry.
    pub open spec fn selected(self) -> Option<PaletteEntry> {
        match self.selection {
            None => None,
            Some(at) => Some(self.result_entry(at as int)),
        }
    }

    /// What the selected entry stands for.
    pub open spec fn selected_id(self) -> Option<PaletteEntryId> {
        match self.selected() {
            None => None,
            Some(entry) => Some(entry.id),
        }
    }

    /// Whether everything but results and selection is equal.
    pub open spec fn same_setting(self, other: PaletteView) -> bool {
        &&& self.entries == other.entries
        &&& self.focus_origin == other.focus_origin
        &&& self.target_display_id == other.target_display_id
        &&& self.query == other.query
        &&& self.normalized == other.normalized
        &&& self.scope == other.scope
    }

    /// The state with the selection moved down by `delta`, round the ends.
    pub open spec fn moved(self, delta: int) -> PaletteView {
        PaletteView {
            selection: match self.selection {
                None => None,
                Some(at) => Some(((at + delta) % (self.results.len() as int)) as usize),
            },
            ..self
        }
    }

    /// The application whose windows expanding the selection shows.
    pub open spec fn expandable(self) -> Option<i32> {
        match self.selected() {
            Some(entry) if entry.kind == PaletteEntryKind::Application => entry.app_pid,
            _ => None,
        }
    }

    /// Whether this is how a session with the snapshot begins.
    pub open spec fn is_begun(self, snapshot: PaletteSnapshot, mru: MruView, mode: PaletteMode) -> bool {
        &&& self.is_consistent()
        &&& self.offers(snapshot)
        &&& self.query == Seq::<char>::empty()
        &&& self.normalized == Seq::<char>::empty()
        &&& self.scope == ScopeView::of_mode(mode)
        &&& self.is_rebuilt(mru, None)
    }

    /// Whether the state is made of what the snapshot holds.
    pub open spec fn offers(self, snapshot: PaletteSnapshot) -> bool {
        &&& self.entries == snapshot.entries@
        &&& self.focus_origin == snapshot.focus_origin
        &&& self.target_display_id == snapshot.target_display_id
    }

    /// Whether both states are made of the same snapshot.
    pub open spec fn offers_same(self, before: PaletteView) -> bool {
        &&& self.entries == before.entries
        &&& self.focus_origin == before.focus_origin
        &&& self.target_display_id == before.target_display_id
    }

    /// Whether this is the earlier state with another snapshot.
    pub open spec fn is_refreshed(
        self,
        before: PaletteView,
        snapshot: PaletteSnapshot,
        mru: MruView,
    ) -> bool {
        &&& self.is_consistent()
        &&& self.offers(snapshot)
        &&& self.query == before.query
        &&& self.normalized == before.normalized
        &&& self.scope == before.scope
        &&& self.is_rebuilt(mru, before.selected_id())
    }

    /// Whether this is a state in which the query was just searched for.
    pub open spec fn searches(self, query: Seq<char>, mru: MruView) -> bool {
        &&& self.is_consistent()
        &&& self.query == query
        &&& text::is_lowercase_form(self.normalized, query)
        &&& self.is_rebuilt(mru, None)
    }

    /// Whether this is the earlier state with another query.
    pub open spec fn is_queried(self, before: PaletteView, query: Seq<char>, mru: MruView) -> bool {
        &&& self.searches(query, mru)
        &&& self.offers_same(before)
        &&& self.scope == before.scope
    }

    /// Whether this is the earlier state inside the application that was
    /// selected in it.
    pub open spec fn is_expanded(self, before: PaletteView, mru: MruView) -> bool {
        &&& self.is_consistent()
        &&& self.offers_same(before)
        &&& self.query == Seq::<char>::empty()
        &&& self.normalized == Seq::<char>::empty()
        &&& self.scope == (ScopeView::Application {
            pid: before.expandable()->0,
            previous_query: before.query,
        })
        &&& self.is_rebuilt(mru, None)
    }

    /// Whether this is the earlier state outside the application that it was in.
    pub open spec fn is_left(self, before: PaletteView, mru: MruView) -> bool {
        &&& self.searches(before.scope->previous_query, mru)
        &&& self.offers_same(before)
        &&& self.scope == ScopeView::Root
    }

    /// The state with the result at `index` selected, if there is one.
    pub open spec fn with_selection(self, index: usize) -> PaletteView {
        if index < self.results.len() {
            PaletteView { selection: Some(index), ..self }
        } else {
            self
        }
    }
}

/// A step within the palette that leaves neither its scope nor its snapshot.
pub enum Navigation {
    Query(Seq<char>),
    Move(int),
    Select(usize),
}

impl PaletteView {
    /// Whether this is the earlier state after the step.
    pub open spec fn is_navigated(
        self,
        before: PaletteView,
        step: Navigation,
        mru: MruView,
    ) -> bool {
        match step {
            Navigation::Query(query) => self.is_queried(before, query, mru),
            Navigation::Move(delta) => self == before.moved(delta),
            Navigation::Select(index) => self == before.with_selection(index),
        }
    }
}

/// Whether each state follows from the one before by a step.
pub open spec fn is_path(path: Seq<PaletteView>, steps: Seq<Navigation>, mru: MruView) -> bool {
    &&& path.len() == steps.len() + 1
    &&& forall|i: int, j: int|
        0 <= i < steps.len() && j == i + 1 ==> (#[trigger] path[j]).is_navigated(
            path[i],
            #[trigger] steps[i],
            mru,
        )
}

/// `(current + delta) mod len`, for a place in a list of `len` items.
fn wrap_index(current: usize, delta: isize, len: usize) -> (result: usize)
    requires
        current < len,
    ensures
        result == (current + delta) % (len as int),
{
    let place: u128 = current as u128;
    let size: u128 = len as u128;
    let sum: u128 = if delta >= 0 {
        place + delta as u128
    } else {
        let back: u128 = (-(delta + 1)) as u128 + 1;
        let step: u128 = back % size;
        proof {
            vstd::arithmetic::div_mod::lemma_fundamental_div_mod(back as int, size as int);
            vstd::arithmetic::div_mod::lemma_mod_multiples_vanish(
                -(back as int / size as int) - 1,
                place + size - step,
                size as int,
            );
            assert(size * (-(back as int / size as int) - 1) + (place + size - step) == place - back)
                by (nonlinear_arith)
                requires
                    back == size * (back as int / size as int) + step,
            ;
        }
        place + (size - step)
    };
    (sum % size) as usize
}

/// Whether the first key is the lesser one.
fn lesser_key(left: (u64, bool, bool), right: (u64, bool, bool)) -> (result: bool)
    ensures
        result == key_before(left, right),
{
    if left.0 != right.0 {
        left.0 < right.0
    } else if left.1 != right.1 {
        !left.1
    } else {
        !left.2 && right.2
    }
}

fn key_for(entry: &PaletteEntry, mru: &PaletteMru) -> (key: (u64, bool, bool))
    ensures
        key == preference_key(*entry, mru@),
{
    match &entry.id {
        PaletteEntryId::Window(window) => (
            mru.window_sequence(*window),
            entry.is_current_workspace,
            entry.is_current_display,
        ),
        _ => (0, false, false),
    }
}

fn belongs_to(entry: &PaletteEntry, pid: i32) -> (result: bool)
    ensures
        result == is_window_of(*entry, pid),
{
    entry.kind == PaletteEntryKind::Window && match entry.app_pid {
        Some(owner) => owner == pid,
        None => false,
    }
}

impl PaletteModel {
    /// Whether the results stand for offered entries, and one of them is
    /// selected if there is any. Every operation keeps this.
    pub open spec fn wf(&self) -> bool {
        self@.is_consistent()
    }

    /// A palette with nothing to offer.
    pub fn new() -> (model: Self)
        ensures
            model.wf(),
            model@.entries == Seq::<PaletteEntry>::empty(),
            model@.focus_origin is None,
            model@.target_display_id is None,
            model@.query == Seq::<char>::empty(),
            model@.normalized == Seq::<char>::empty(),
            model@.scope == ScopeView::Root,
            model@.results == Seq::<RankedEntry>::empty(),
            model@.selection is None,
    {
        PaletteModel {
            snapshot: PaletteSnapshot::default(),
            query: String::new(),
            normalized_query: String::new(),
            scope: PaletteScope::Root,
            results: Vec::new(),
            selection: None,
        }
    }

    /// The same as [`PaletteModel::new`].
    pub fn standard() -> (model: Self)
        ensures
            model.wf(),
            model@.entries == Seq::<PaletteEntry>::empty(),
            model@.focus_origin is None,
            model@.target_display_id is None,
            model@.query == Seq::<char>::empty(),
            model@.normalized == Seq::<char>::empty(),
            model@.scope == ScopeView::Root,
            model@.results == Seq::<RankedEntry>::empty(),
            model@.selection is None,
    {
        Self::new()
    }

    /// Starts over with a snapshot, an empty query and the scope of the mode.
    pub fn begin_session(&mut self, snapshot: PaletteSnapshot, mru: &PaletteMru, mode: PaletteMode)
        ensures
            final(self)@.is_begun(snapshot, mru@, mode),
    {
        self.snapshot = snapshot;
        self.query = String::new();
        self.normalized_query = String::new();
        self.scope = match mode {
            PaletteMode::Windows => PaletteScope::Root,
            PaletteMode::Commands => PaletteScope::Commands,
        };
        self.rebuild(mru, None);
    }

    /// Offers what the snapshot holds, for the same query. The selected entry
    /// stays selected if it is still shown.
    pub fn set_snapshot(&mut self, snapshot: PaletteSnapshot, mru: &PaletteMru)
        requires
            old(self).wf(),
        ensures
            final(self)@.is_refreshed(old(self)@, snapshot, mru@),
    {
        let selected: Option<PaletteEntryId> = match self.selected_entry() {
            Some(entry) => Some(entry.id.clone()),
            None => None,
        };
        self.snapshot = snapshot;
        self.rebuild(mru, selected.as_ref());
    }

    /// Searches for a text.
    pub fn set_query(&mut self, query: String, mru: &PaletteMru)
        ensures
            final(self)@.is_queried(old(self)@, query@, mru@),
    {
        self.normalized_query = text::normalize(query.as_str());
        self.query = query;
        self.rebuild(mru, None);
    }

    pub fn query(&self) -> (query: &str)
        ensures
            query@ == self@.query,
    {
        self.query.as_str()
    }

    pub fn scope(&self) -> (scope: &PaletteScope)
        ensures
            scope@ == self@.scope,
    {
        &self.scope
    }

    /// The entries that are shown, from the top.
    pub fn results(&self) -> (list: Vec<&PaletteEntry>)
        requires
            self.wf(),
        ensures
            list@.len() == self@.results.len(),
            forall|i: int| 0 <= i < list@.len() ==> *(#[trigger] list@[i]) == self@.result_entry(i),
    {
        let mut list: Vec<&PaletteEntry> = Vec::new();
        let mut i: usize = 0;
        while i < self.results.len()
            invariant
                self.wf(),
                i <= self.results@.len(),
                list@.len() == i,
                forall|j: int| 0 <= j < i ==> *(#[trigger] list@[j]) == self@.result_entry(j),
            decreases self.results@.len() - i,
        {
            let ranked: RankedEntry = self.results[i];
            assert(self@.results[i as int].index < self@.entries.len());
            list.push(&self.snapshot.entries[ranked.index]);
            i = i + 1;
        }
        list
    }

    /// How many entries are shown.
    pub fn result_count(&self) -> (count: usize)
        ensures
            count == self@.results.len(),
    {
        self.results.len()
    }

    pub fn selected_entry(&self) -> (entry: Option<&PaletteEntry>)
        requires
            self.wf(),
        ensures
            match entry {
                None => self@.selected() is None,
                Some(entry) => self@.selected() == Some(*entry),
            },
    {
        match self.selection {
            None => None,
            Some(at) => {
                let ranked: RankedEntry = self.results[at];
                assert(self@.results[at as int].index < self@.entries.len());
                Some(&self.snapshot.entries[ranked.index])
            },
        }
    }

    pub fn selected_index(&self) -> (index: Option<usize>)
        ensures
            index == self@.selection,
    {
        self.selection
    }

    /// Selects a result, if there is one at that place.
    pub fn select_index(&mut self, index: usize) -> (selected: bool)
        requires
            old(self).wf(),
        ensures
            final(self).wf(),
            selected == (index < old(self)@.results.len()),
            final(self)@ == old(self)@.with_selection(index),
    {
        if index >= self.results.len() {
            return false;
        }
        self.selection = Some(index);
        true
    }

    /// What focuses the application's window that had the focus last; with equal
    /// history one on the current workspace, then on the current display, and
    /// then the last in the snapshot is preferred.
    pub fn preferred_window_for_application(&self, pid: i32, mru: &PaletteMru) -> (action: Option<
        PaletteAction,
    >)
        ensures
            is_preferred_action(self@.entries, pid, mru@, action),
    {
        let entries: &Vec<PaletteEntry> = &self.snapshot.entries;
        let mut best: Option<usize> = None;
        let mut i: usize = 0;
        while i < entries.len()
            invariant
                i <= entries@.len(),
                match best {
                    None => forall|j: int|
                        0 <= j < i ==> !is_window_of(#[trigger] entries@[j], pid),
                    Some(at) => {
                        &&& at < i
                        &&& is_preferred_window(entries@.take(i as int), pid, mru@, at as int)
                    },
                },
            decreases entries@.len() - i,
        {
            let ghost sofar = entries@.take(i as int);
            let ghost next = entries@.take(i + 1);
            proof {
                assert forall|j: int| 0 <= j < i implies #[trigger] next[j] == sofar[j] by {}
            }
            if belongs_to(&entries[i], pid) {
                let better: bool = match best {
                    None => true,
                    Some(at) => !lesser_key(
                        key_for(&entries[i], mru),
                        key_for(&entries[at], mru),
                    ),
                };
                if better {
                    best = Some(i);
                }
            }
            proof {
                match best {
                    None => {},
                    Some(at) => {
                        assert(is_preferred_window(next, pid, mru@, at as int)) by {
                            assert(next[i as int] == entries@[i as int]);
                            assert(next[at as int] == entries@[at as int]);
                            assert forall|other: int|
                                0 <= other < next.len() && is_window_of(
                                    #[trigger] next[other],
                                    pid,
                                ) implies !key_before(
                                preference_key(next[at as int], mru@),
                                preference_key(next[other], mru@),
                            ) && (other > at ==> key_before(
                                preference_key(next[other], mru@),
                                preference_key(next[at as int], mru@),
                            )) by {
                                if other < i {
                                    assert(is_window_of(sofar[other], pid));
                                }
                            }
                        }
                    },
                }
            }
            i = i + 1;
        }
        assert(entries@.take(entries@.len() as int) =~= entries@);
        match best {
            None => None,
            Some(at) => {
                assert(is_preferred_window(self@.entries, pid, mru@, at as int));
                Some(entries[at].action.clone())
            },
        }
    }

    /// Moves the selection down by `delta`, or up if that is negative, round
    /// the ends of the list.
    pub fn move_selection(&mut self, delta: isize)
        requires
            old(self).wf(),
        ensures
            final(self).wf(),
            final(self)@ == old(self)@.moved(delta as int),
    {
        if self.results.len() == 0 {
            self.selection = None;
            return ;
        }
        let current: usize = match self.selection {
            Some(at) => at,
            None => 0,
        };
        self.selection = Some(wrap_index(current, delta, self.results.len()));
    }

    /// Shows the windows of the selected application, if one is selected.
    pub fn expand_selected_application(&mut self, mru: &PaletteMru) -> (expanded: bool)
        requires
            old(self).wf(),
        ensures
            final(self).wf(),
            expanded == (old(self)@.expandable() is Some),
            !expanded ==> final(self)@ == old(self)@,
            expanded ==> final(self)@.is_expanded(old(self)@, mru@),
    {
        let pid: i32 = match self.selected_entry() {
            None => {
                return false;
            },
            Some(entry) => {
                if entry.kind != PaletteEntryKind::Application {
                    return false;
                }
                match entry.app_pid {
                    None => {
                        return false;
                    },
                    Some(pid) => pid,
                }
            },
        };
        let mut previous_query: String = String::new();
        std::mem::swap(&mut previous_query, &mut self.query);
        self.scope = PaletteScope::Application { pid, previous_query };
        self.normalized_query = String::new();
        self.rebuild(mru, None);
        true
    }

    /// Leaves the application whose windows are shown, if one is, and searches
    /// again for what was searched for before.
    pub fn leave_application(&mut self, mru: &PaletteMru) -> (left: bool)
        ensures
            old(self).wf() ==> final(self).wf(),
            left == (old(self)@.scope is Application),
            !left ==> final(self)@ == old(self)@,
            left ==> final(self)@.is_left(old(self)@, mru@),
    {
        let previous_query: String = match &self.scope {
            PaletteScope::Application { previous_query, .. } => previous_query.clone(),
            _ => {
                return false;
            },
        };
        self.scope = PaletteScope::Root;
        self.normalized_query = text::normalize(previous_query.as_str());
        self.query = previous_query;
        self.rebuild(mru, None);
        true
    }

    pub fn focus_origin(&self) -> (origin: Option<PaletteFocusOrigin>)
        ensures
            origin == self@.focus_origin,
    {
        self.snapshot.focus_origin
    }

    pub fn target_display_id(&self) -> (display: Option<u32>)
        ensures
            display == self@.target_display_id,
    {
        self.snapshot.target_display_id
    }

    /// Ranks the entries anew and selects the preferred one, if it is shown,
    /// or else the first.
    fn rebuild(&mut self, mru: &PaletteMru, preferred: Option<&PaletteEntryId>)
        requires
            old(self)@.is_normalized(),
        ensures
            final(self).wf(),
            final(self)@.same_setting(old(self)@),
            final(self)@.is_rebuilt(
                mru@,
                match preferred {
                    None => None,
                    Some(id) => Some(*id),
                },
            ),
    {
        let normalized: Vec<char> = text::characters(self.normalized_query.as_str());
        let tokens: Vec<Vec<char>> = text::tokens(&normalized);
        self.results =
        palette_rank::rank(&self.snapshot.entries, self.scope.admission(), &tokens, mru);
        let preferred_at: Option<usize> = match preferred {
            None => None,
            Some(id) => self.position_of(id),
        };
        self.selection = match preferred_at {
            Some(at) => Some(at),
            None => if self.results.len() == 0 {
                None
            } else {
                Some(0)
            },
        };
    }

    /// The first result that stands for `id`.
    fn position_of(&self, id: &PaletteEntryId) -> (position: Option<usize>)
        requires
            palette_rank::indices_valid(self@.entries, self@.results),
        ensures
            match position {
                None => !has_match(self@.entries, self@.results, *id),
                Some(at) => {
                    &&& is_first_match(self@.entries, self@.results, *id, at as int)
                    &&& has_match(self@.entries, self@.results, *id)
                },
            },
    {
        let mut at: usize = 0;
        while at < self.results.len()
            invariant
                at <= self.results@.len(),
                palette_rank::indices_valid(self@.entries, self@.results),
                forall|earlier: int|
                    0 <= earlier < at ==> !self@.entries[(
                    #[trigger] self@.results[earlier]).index as int].id.same_as(*id),
            decreases self.results@.len() - at,
        {
            let ranked: RankedEntry = self.results[at];
            assert(self@.results[at as int].index < self@.entries.len());
            if self.snapshot.entries[ranked.index].id.same(id) {
                return Some(at);
            }
            at = at + 1;
        }
        None
    }
}

/// A new snapshot keeps the selected entry selected, if it is still shown.
pub proof fn law_selection_keeps_identity(
    before: PaletteView,
    after: PaletteView,
    snapshot: PaletteSnapshot,
    mru: MruView,
)
    requires
        before.selected_id() is Some,
        after.is_refreshed(before, snapshot, mru),
        has_match(after.entries, after.results, before.selected_id()->0),
    ensures
        after.selected_id() is Some,
        after.selected_id()->0.same_as(before.selected_id()->0),
{
}

/// Among commands the palette shows commands alone, and inside an application
/// that application's windows alone.
pub proof fn law_scope_confines_results(view: PaletteView)
    requires
        view.is_consistent(),
    ensures
        view.scope is Commands ==> forall|i: int|
            0 <= i < view.results.len() ==> (#[trigger] view.result_entry(i)).kind
                == PaletteEntryKind::Command,
        view.scope matches ScopeView::Application { pid, .. } ==> forall|i: int|
            0 <= i < view.results.len() ==> is_window_of(#[trigger] view.result_entry(i), pid),
{
    assert forall|i: int| 0 <= i < view.results.len() implies view.scope.admission().admits(
        #[trigger] view.result_entry(i),
    ) by {
        assert(view.scope.admission().admits(view.entries[view.results[i].index as int]));
    }
}

/// Without a query the palette shows exactly the offered entries that are not
/// hidden then; among commands none is hidden.
pub proof fn law_empty_query_hides(view: PaletteView, mru: MruView, preferred: Option<PaletteEntryId>)
    requires
        view.is_rebuilt(mru, preferred),
        view.normalized.len() == 0,
    ensures
        forall|at: int|
            0 <= at < view.entries.len() ==> ((exists|i: int|
                0 <= i < view.results.len() && (#[trigger] view.results[i]).index == at) <==> {
                &&& view.scope.admission().admits(#[trigger] view.entries[at])
                &&& view.entries[at].show_when_empty || view.scope is Commands
            }),
{
    let admission = view.scope.admission();
    let tokens = text::tokens_of(view.normalized);
    assert(tokens.len() == 0);
    assert forall|at: int| 0 <= at < view.entries.len() implies ((exists|i: int|
        0 <= i < view.results.len() && (#[trigger] view.results[i]).index == at) <==> {
        &&& view.scope.admission().admits(#[trigger] view.entries[at])
        &&& view.entries[at].show_when_empty || view.scope is Commands
    }) by {
        let entry = view.entries[at];
        assert(palette_rank::entry_value(entry, admission, tokens, mru) is Some <==> {
            &&& admission.admits(entry)
            &&& entry.show_when_empty || admission == Admission::Commands
        });
        if exists|i: int| 0 <= i < view.results.len() && (#[trigger] view.results[i]).index == at {
            let i = choose|i: int|
                0 <= i < view.results.len() && (#[trigger] view.results[i]).index == at;
            assert(palette_rank::entry_value(
                view.entries[view.results[i].index as int],
                admission,
                tokens,
                mru,
            ) is Some);
        }
    }
}

/// Steps within an application leave neither it nor the snapshot.
proof fn lemma_path_stays(path: Seq<PaletteView>, steps: Seq<Navigation>, mru: MruView, at: int)
    requires
        is_path(path, steps, mru),
        0 <= at < path.len(),
    ensures
        path[at].offers_same(path[0]),
        path[at].scope == path[0].scope,
    decreases at,
{
    if at > 0 {
        lemma_path_stays(path, steps, mru, at - 1);
        assert(path[at].is_navigated(path[at - 1], steps[at - 1], mru));
    }
}

/// Leaving an application undoes expanding it, whatever was searched for, moved
/// to or selected in between: query, scope and results are as before, and the
/// first result is selected. Nothing is left to leave then.
pub proof fn law_leaving_undoes_expanding(
    before: PaletteView,
    path: Seq<PaletteView>,
    steps: Seq<Navigation>,
    after: PaletteView,
    mru: MruView,
)
    requires
        before.is_consistent(),
        before.expandable() is Some,
        before.shows_ranking(mru),
        is_path(path, steps, mru),
        path[0].is_expanded(before, mru),
        after.is_left(path.last(), mru),
    ensures
        path.last().scope is Application,
        after.offers_same(before),
        after.query == before.query,
        after.normalized == before.normalized,
        after.scope == before.scope,
        after.results == before.results,
        after.selection == Some(0usize),
        !(after.scope is Application),
{
    lemma_path_stays(path, steps, mru, path.len() - 1);
    let at = before.selection->0 as int;
    assert(before.scope.admission().admits(before.entries[before.results[at].index as int]));
    assert(after.normalized =~= before.normalized);
}

/// A session depends on its snapshot, its mode and the history alone, whatever
/// the palette showed before. It begins without a query and with the first result
/// selected; among commands it shows every command, hidden ones too, and nothing
/// else.
pub proof fn law_sessions_begin_alike(
    one: PaletteView,
    other: PaletteView,
    snapshot: PaletteSnapshot,
    mru: MruView,
    mode: PaletteMode,
)
    requires
        one.is_begun(snapshot, mru, mode),
        other.is_begun(snapshot, mru, mode),
    ensures
        one == other,
        one.selection == (if one.results.len() == 0 {
            None
        } else {
            Some(0usize)
        }),
        mode == PaletteMode::Commands ==> forall|at: int|
            0 <= at < one.entries.len() ==> (one.shows(at) <==> (
            #[trigger] one.entries[at]).kind == PaletteEntryKind::Command),
{
    law_empty_query_hides(one, mru, None);
}

/// Whether two states search the same entries.
pub open spec fn same_ground(one: PaletteView, other: PaletteView) -> bool {
    one.entries == other.entries && one.scope == other.scope
}

/// A search depends on the lowercase forms of its words alone, and not on the
/// history.
pub proof fn law_search_depends_on_words(
    one: PaletteView,
    other: PaletteView,
    mru: MruView,
    other_mru: MruView,
)
    requires
        same_ground(one, other),
        one.is_rebuilt(mru, None),
        other.is_rebuilt(other_mru, None),
        text::tokens_of(one.normalized).len() > 0,
        text::tokens_of(one.normalized) == text::tokens_of(other.normalized),
    ensures
        one.results == other.results,
        one.selection == other.selection,
{
    let words = text::tokens_of(one.normalized);
    let admission = one.scope.admission();
    assert forall|at: int| 0 <= at < one.entries.len() implies palette_rank::entry_value(
        #[trigger] one.entries[at],
        admission,
        words,
        mru,
    ) == palette_rank::entry_value(one.entries[at], admission, words, other_mru) by {
        palette_rank::law_search_combines(
            one.entries[at],
            admission,
            words,
            words,
            mru,
            other_mru,
        );
    }
    palette_rank::law_scores_determine_results(
        one.entries,
        admission,
        words,
        mru,
        words,
        other_mru,
    );
}

/// Neither the history nor the case of ASCII letters plays a part in a search.
pub proof fn law_ascii_case_is_free(
    one: PaletteView,
    other: PaletteView,
    query: Seq<char>,
    other_query: Seq<char>,
    mru: MruView,
    other_mru: MruView,
)
    requires
        same_ground(one, other),
        one.searches(query, mru),
        other.searches(other_query, other_mru),
        text::has_word(query),
        text::ascii_lowercase(query) == text::ascii_lowercase(other_query),
    ensures
        one.query == query,
        other.query == other_query,
        one.results == other.results,
        one.selection == other.selection,
{
    text::lemma_has_word(query);
    law_search_depends_on_words(one, other, mru, other_mru);
}

/// Searching for two queries with a space between them shows what both of them
/// show, and it makes no difference which of them comes first, if each has a
/// character that is not white space.
pub proof fn law_joined_query_shows_both(
    first: PaletteView,
    second: PaletteView,
    joined: PaletteView,
    swapped: PaletteView,
    query: Seq<char>,
    other_query: Seq<char>,
    mru: MruView,
)
    requires
        same_ground(first, second),
        same_ground(first, joined),
        same_ground(first, swapped),
        first.searches(query, mru),
        second.searches(other_query, mru),
        joined.searches(query + seq![' '] + other_query, mru),
        swapped.searches(other_query + seq![' '] + query, mru),
        text::has_word(query),
        text::has_word(other_query),
    ensures
        joined.query == query + seq![' '] + other_query,
        forall|at: int|
            0 <= at < first.entries.len() ==> (#[trigger] joined.shows(at) <==> first.shows(at)
                && second.shows(at)),
        joined.results == swapped.results,
        joined.selection == swapped.selection,
{
    let entries = first.entries;
    let admission = first.scope.admission();
    let (one, two) = (text::tokens_of(first.normalized), text::tokens_of(second.normalized));
    text::lemma_has_word(query);
    text::lemma_has_word(other_query);
    text::law_space_separates_words(query, other_query);
    text::law_space_separates_words(other_query, query);
    assert(text::tokens_of(joined.normalized) =~= one + two);
    assert(text::tokens_of(swapped.normalized) =~= two + one);
    assert forall|at: int| 0 <= at < entries.len() implies palette_rank::entry_value(
        #[trigger] entries[at],
        admission,
        one + two,
        mru,
    ) == palette_rank::entry_value(entries[at], admission, two + one, mru) by {
        palette_rank::law_search_combines(entries[at], admission, one, two, mru, mru);
    }
    palette_rank::law_scores_determine_results(entries, admission, one + two, mru, two + one, mru);
    assert forall|at: int| 0 <= at < entries.len() implies (#[trigger] joined.shows(at)
        <==> first.shows(at) && second.shows(at)) by {
        palette_rank::law_search_combines(entries[at], admission, one, two, mru, mru);
        lemma_shows_what_scores(joined, mru, at);
        lemma_shows_what_scores(first, mru, at);
        lemma_shows_what_scores(second, mru, at);
    }
}

/// The results are the entries that have a score.
pub proof fn lemma_shows_what_scores(view: PaletteView, mru: MruView, at: int)
    requires
        view.shows_ranking(mru),
        0 <= at < view.entries.len(),
    ensures
        view.shows(at) <==> palette_rank::entry_value(
            view.entries[at],
            view.scope.admission(),
            text::tokens_of(view.normalized),
            mru,
        ) is Some,
{
    if view.shows(at) {
        let i = choose|i: int|
            0 <= i < view.results.len() && (#[trigger] view.results[i]).index == at;
        assert(palette_rank::entry_value(
            view.entries[view.results[i].index as int],
            view.scope.admission(),
            text::tokens_of(view.normalized),
            mru,
        ) is Some);
    }
}

/// Moving the selection one way and back by the same distance leaves it where
/// it was, and so does moving it by the number of results.
pub proof fn law_move_and_back(view: PaletteView, delta: int)
    requires
        view.is_consistent(),
        view.results.len() <= usize::MAX,
    ensures
        view.moved(delta).moved(-delta) == view,
        view.moved(view.results.len() as int) == view,
{
    if let Some(at) = view.selection {
        let (at, len) = (at as int, view.results.len() as int);
        vstd::arithmetic::div_mod::lemma_small_mod(at as nat, len as nat);
        vstd::arithmetic::div_mod::lemma_sub_mod_noop((at + delta) % len, delta, len);
        vstd::arithmetic::div_mod::lemma_sub_mod_noop(at + delta, delta, len);
        vstd::arithmetic::div_mod::lemma_mod_twice(at + delta, len);
        vstd::arithmetic::div_mod::lemma_mod_add_multiples_vanish(at, len);
    }
}

/// Without a query the window that had the focus last is on top, if the entries'
/// places add equally to their scores and its application is not shown itself.
pub proof fn law_last_focused_window_on_top(
    view: PaletteView,
    mru: MruView,
    window: WindowId,
    at: int,
)
    requires
        mru.is_history(),
        mru.sequence < i64::MAX - palette_mru::MRU_BASE_SCORE - palette_rank::CURRENT_WORKSPACE_BOOST,
        view.is_rebuilt(mru.recorded(window), None),
        view.scope is Root,
        view.normalized.len() == 0,
        0 <= at < view.entries.len(),
        view.entries[at].id == PaletteEntryId::Window(window),
        view.entries[at].show_when_empty,
        forall|i: int|
            0 <= i < view.entries.len() && (#[trigger] view.entries[i]).show_when_empty ==> {
                &&& palette_rank::location_value(view.entries[i]) == palette_rank::location_value(
                    view.entries[at],
                )
                &&& view.entries[i].id != PaletteEntryId::Application(window.pid)
            },
    ensures
        view.results.len() > 0,
        view.result_entry(0).id == PaletteEntryId::Window(window),
        view.selection == Some(0usize),
{
    let after = mru.recorded(window);
    let tokens = text::tokens_of(view.normalized);
    assert(tokens.len() == 0);
    palette_mru::law_last_focus_ranks_first(mru, window);
    assert(palette_rank::entry_value(view.entries[at], Admission::All, tokens, after) is Some);
    let k = choose|k: int| 0 <= k < view.results.len() && (#[trigger] view.results[k]).index == at;
    palette_rank::law_scores_descend(view.results, view.entries, Admission::All, tokens, after);
    let top = view.results[0];
    let first = view.result_entry(0);
    assert(view.results[0].score >= view.results[k].score);
    assert(palette_rank::entry_value(first, Admission::All, tokens, after) == Some(
        top.score as int,
    ));
    assert(first == view.entries[top.index as int]);
    assert(after.score(first.id) >= after.score(PaletteEntryId::Window(window)));
    match first.id {
        PaletteEntryId::Window(other) => {
            if other != window {
                assert(after.score(PaletteEntryId::Window(other)) < after.score(
                    PaletteEntryId::Window(window),
                ));
            }
        },
        PaletteEntryId::Application(pid) => {
            assert(pid != window.pid);
            assert(after.score(PaletteEntryId::Application(pid)) < after.score(
                PaletteEntryId::Application(window.pid),
            ));
        },
        PaletteEntryId::Command(_) => {},
    }
}

} // verus!
