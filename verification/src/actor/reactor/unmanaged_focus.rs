//! Which unmanaged window gets the focus next, display by display.

use vstd::prelude::*;

use crate::model::ids::WindowId;

verus! {

#[derive(Debug, Clone, Copy, PartialEq, Eq, Structural)]
pub enum Action {
    /// Between the unmanaged window focused last and the managed one.
    Toggle,
    /// Through all unmanaged windows.
    Cycle,
}

/// The unmanaged windows of one display, latest focus first.
#[derive(Debug)]
pub struct DisplayHistory {
    pub display: String,
    pub windows: Vec<WindowId>,
}

/// The unmanaged windows of each display, latest focus first. No two lists are
/// for the same display.
#[derive(Debug)]
pub struct History {
    by_display: Vec<DisplayHistory>,
}

/// Whether a display has a list, at `at`.
pub open spec fn listed_at(lists: Seq<DisplayHistory>, display: Seq<char>, at: int) -> bool {
    0 <= at < lists.len() && lists[at].display@ == display
}

pub open spec fn is_listed(lists: Seq<DisplayHistory>, display: Seq<char>) -> bool {
    exists|at: int| listed_at(lists, display, at)
}

pub open spec fn list_of(lists: Seq<DisplayHistory>, display: Seq<char>) -> Seq<WindowId> {
    lists[choose|at: int| listed_at(lists, display, at)].windows@
}

/// Whether no two lists are for the same display.
pub open spec fn displays_differ(lists: Seq<DisplayHistory>) -> bool {
    forall|i: int, j: int|
        0 <= i < j < lists.len() ==> (#[trigger] lists[i]).display@ != (
        #[trigger] lists[j]).display@
}

/// The lists as a map from display names.
pub open spec fn lists_map(lists: Seq<DisplayHistory>) -> Map<Seq<char>, Seq<WindowId>> {
    Map::new(
        |display: Seq<char>| is_listed(lists, display),
        |display: Seq<char>| list_of(lists, display),
    )
}

impl View for History {
    type V = Map<Seq<char>, Seq<WindowId>>;

    closed spec fn view(&self) -> Map<Seq<char>, Seq<WindowId>> {
        lists_map(self.by_display@)
    }
}

/// Tells the windows that are not the given one.
pub open spec fn is_other(window: WindowId) -> spec_fn(WindowId) -> bool {
    |candidate: WindowId| candidate != window
}

/// Tells the windows of other applications.
pub open spec fn is_of_other_app(pid: i32) -> spec_fn(WindowId) -> bool {
    |candidate: WindowId| candidate.pid != pid
}

/// Tells the windows that are among the candidates.
pub open spec fn is_candidate(candidates: Seq<WindowId>) -> spec_fn(WindowId) -> bool {
    |window: WindowId| candidates.contains(window)
}

/// The windows without one of them.
pub open spec fn without_window(windows: Seq<WindowId>, window: WindowId) -> Seq<WindowId> {
    windows.filter(is_other(window))
}

/// The windows without those of one application.
pub open spec fn without_app(windows: Seq<WindowId>, pid: i32) -> Seq<WindowId> {
    windows.filter(is_of_other_app(pid))
}

/// The windows that are among the candidates.
pub open spec fn among(windows: Seq<WindowId>, candidates: Seq<WindowId>) -> Seq<WindowId> {
    windows.filter(is_candidate(candidates))
}

/// The windows, followed by the candidates that are not among them, each once.
pub open spec fn with_missing(windows: Seq<WindowId>, candidates: Seq<WindowId>) -> Seq<WindowId>
    decreases candidates.len(),
{
    if candidates.len() == 0 {
        windows
    } else {
        let earlier = with_missing(windows, candidates.drop_last());
        if earlier.contains(candidates.last()) {
            earlier
        } else {
            earlier.push(candidates.last())
        }
    }
}

/// The list of a display, brought up to date with the windows that are there:
/// closed ones are gone, and new ones stand at the end.
pub open spec fn reconciled(windows: Seq<WindowId>, candidates: Seq<WindowId>) -> Seq<WindowId> {
    with_missing(among(windows, candidates), candidates)
}

/// The list, begun at `by` and continued round the end.
pub open spec fn rotated(windows: Seq<WindowId>, by: int) -> Seq<WindowId> {
    windows.skip(by) + windows.take(by)
}

/// Where a list goes on after the current window; at its start if that is not
/// in it.
pub open spec fn step_after(windows: Seq<WindowId>, current: Option<WindowId>) -> int {
    match current {
        Some(window) if windows.contains(window) => (windows.index_of_first(window)->0 + 1)
            % (windows.len() as int),
        _ => 0,
    }
}

pub open spec fn first_of(windows: Seq<WindowId>) -> Option<WindowId> {
    if windows.len() == 0 {
        None
    } else {
        Some(windows[0])
    }
}

/// The list of a display after an action.
pub open spec fn list_after(
    windows: Seq<WindowId>,
    candidates: Seq<WindowId>,
    current: Option<WindowId>,
    action: Action,
) -> Seq<WindowId> {
    let list = reconciled(windows, candidates);
    match action {
        Action::Toggle => list,
        Action::Cycle => rotated(list, step_after(list, current)),
    }
}

/// The window that an action focuses.
pub open spec fn target_of(
    windows: Seq<WindowId>,
    candidates: Seq<WindowId>,
    current: Option<WindowId>,
    last_managed: Option<WindowId>,
    action: Action,
) -> Option<WindowId> {
    let list = reconciled(windows, candidates);
    match action {
        Action::Toggle => match current {
            Some(window) if list.contains(window) => last_managed,
            _ => first_of(list),
        },
        Action::Cycle => first_of(rotated(list, step_after(list, current))),
    }
}

/// A display's list, empty if it has none.
pub open spec fn list_or_empty(history: Map<Seq<char>, Seq<WindowId>>, display: Seq<char>) -> Seq<
    WindowId,
> {
    if history.contains_key(display) {
        history[display]
    } else {
        Seq::empty()
    }
}

fn contains(windows: &[WindowId], window: WindowId) -> (result: bool)
    ensures
        result == windows@.contains(window),
{
    let mut i: usize = 0;
    while i < windows.len()
        invariant
            i <= windows@.len(),
            forall|j: int| 0 <= j < i ==> windows@[j] != window,
        decreases windows@.len() - i,
    {
        if windows[i] == window {
            return true;
        }
        i = i + 1;
    }
    false
}

/// The first place of a window.
fn position(windows: &Vec<WindowId>, window: WindowId) -> (result: Option<usize>)
    ensures
        match result {
            None => !windows@.contains(window),
            Some(at) => {
                &&& at < windows@.len()
                &&& windows@.contains(window)
                &&& windows@.index_of_first(window) == Some(at as int)
            },
        },
{
    let mut i: usize = 0;
    while i < windows.len()
        invariant
            i <= windows@.len(),
            forall|j: int| 0 <= j < i ==> windows@[j] != window,
        decreases windows@.len() - i,
    {
        if windows[i] == window {
            proof {
                windows@.index_of_first_ensures(window);
            }
            return Some(i);
        }
        i = i + 1;
    }
    None
}

/// What one more item does to a filtered list.
proof fn lemma_filter_step(windows: Seq<WindowId>, keep: spec_fn(WindowId) -> bool, i: int)
    requires
        0 <= i < windows.len(),
    ensures
        windows.take(i + 1).filter(keep) == (if keep(windows[i]) {
            windows.take(i).filter(keep).push(windows[i])
        } else {
            windows.take(i).filter(keep)
        }),
{
    reveal(Seq::filter);
    assert(windows.take(i + 1).drop_last() =~= windows.take(i));
}

/// A window that is gone, or an application that is gone with all its windows.
#[derive(Clone, Copy)]
enum Departed {
    Window(WindowId),
    Application(i32),
}

impl Departed {
    /// Tells the windows that are still there.
    spec fn stays(self) -> spec_fn(WindowId) -> bool {
        match self {
            Departed::Window(window) => is_other(window),
            Departed::Application(pid) => is_of_other_app(pid),
        }
    }

    /// Whether the window is still there.
    fn spares(self, window: WindowId) -> (result: bool)
        ensures
            result == (self.stays())(window),
    {
        match self {
            Departed::Window(gone) => window != gone,
            Departed::Application(pid) => window.pid != pid,
        }
    }
}

/// The windows that are still there.
fn keep_remaining(windows: &Vec<WindowId>, departed: Departed) -> (kept: Vec<WindowId>)
    ensures
        kept@ == windows@.filter(departed.stays()),
{
    let mut kept: Vec<WindowId> = Vec::new();
    let mut i: usize = 0;
    let ghost keep = departed.stays();
    proof {
        reveal(Seq::filter);
        assert(windows@.take(0).filter(keep) =~= Seq::<WindowId>::empty());
    }
    while i < windows.len()
        invariant
            i <= windows@.len(),
            keep == departed.stays(),
            kept@ == windows@.take(i as int).filter(keep),
        decreases windows@.len() - i,
    {
        proof {
            lemma_filter_step(windows@, keep, i as int);
        }
        if departed.spares(windows[i]) {
            kept.push(windows[i]);
        }
        i = i + 1;
    }
    assert(windows@.take(windows@.len() as int) =~= windows@);
    kept
}

/// Brings a list up to date with the windows that are there.
fn reconcile(windows: &Vec<WindowId>, candidates: &[WindowId]) -> (list: Vec<WindowId>)
    ensures
        list@ == reconciled(windows@, candidates@),
{
    let mut list: Vec<WindowId> = Vec::new();
    let mut i: usize = 0;
    let ghost keep = is_candidate(candidates@);
    proof {
        reveal(Seq::filter);
        assert(windows@.take(0).filter(keep) =~= Seq::<WindowId>::empty());
    }
    while i < windows.len()
        invariant
            i <= windows@.len(),
            keep == is_candidate(candidates@),
            list@ == windows@.take(i as int).filter(keep),
        decreases windows@.len() - i,
    {
        proof {
            lemma_filter_step(windows@, keep, i as int);
        }
        if contains(candidates, windows[i]) {
            list.push(windows[i]);
        }
        i = i + 1;
    }
    assert(windows@.take(windows@.len() as int) =~= windows@);
    let ghost kept = list@;
    let mut j: usize = 0;
    assert(candidates@.take(0) =~= Seq::<WindowId>::empty());
    while j < candidates.len()
        invariant
            j <= candidates@.len(),
            list@ == with_missing(kept, candidates@.take(j as int)),
        decreases candidates@.len() - j,
    {
        assert(candidates@.take(j + 1).drop_last() =~= candidates@.take(j as int));
        if !contains(list.as_slice(), candidates[j]) {
            list.push(candidates[j]);
        }
        j = j + 1;
    }
    assert(candidates@.take(candidates@.len() as int) =~= candidates@);
    list
}

/// The list, begun at `by` and continued round the end.
fn rotate(windows: &Vec<WindowId>, by: usize) -> (result: Vec<WindowId>)
    requires
        by <= windows@.len(),
    ensures
        result@ == rotated(windows@, by as int),
{
    let mut result: Vec<WindowId> = Vec::new();
    let mut i: usize = by;
    while i < windows.len()
        invariant
            by <= i <= windows@.len(),
            result@ == windows@.subrange(by as int, i as int),
        decreases windows@.len() - i,
    {
        result.push(windows[i]);
        i = i + 1;
        assert(result@ =~= windows@.subrange(by as int, i as int));
    }
    let mut j: usize = 0;
    assert(result@ =~= windows@.skip(by as int) + windows@.take(0));
    while j < by
        invariant
            j <= by <= windows@.len(),
            result@ == windows@.skip(by as int) + windows@.take(j as int),
        decreases by - j,
    {
        result.push(windows[j]);
        j = j + 1;
        assert(result@ =~= windows@.skip(by as int) + windows@.take(j as int));
    }
    result
}

/// A listed display has one list.
proof fn lemma_listed(lists: Seq<DisplayHistory>, display: Seq<char>, at: int)
    requires
        displays_differ(lists),
        listed_at(lists, display, at),
    ensures
        is_listed(lists, display),
        list_of(lists, display) == lists[at].windows@,
{
    let chosen = choose|at: int| listed_at(lists, display, at);
    assert(listed_at(lists, display, chosen));
    if chosen < at {
        assert(lists[chosen].display@ != lists[at].display@);
    } else if at < chosen {
        assert(lists[at].display@ != lists[chosen].display@);
    }
}

/// What the map of a history is, list by list.
proof fn lemma_history_map(lists: Seq<DisplayHistory>)
    requires
        displays_differ(lists),
    ensures
        forall|at: int|
            0 <= at < lists.len() ==> lists_map(lists).contains_key(
                (#[trigger] lists[at]).display@,
            ) && lists_map(lists)[lists[at].display@] == lists[at].windows@,
        forall|display: Seq<char>| #[trigger]
            lists_map(lists).contains_key(display) ==> exists|at: int|
                listed_at(lists, display, at),
{
    assert forall|at: int| 0 <= at < lists.len() implies lists_map(lists).contains_key(
        (#[trigger] lists[at]).display@,
    ) && lists_map(lists)[lists[at].display@] == lists[at].windows@ by {
        assert(listed_at(lists, lists[at].display@, at));
        lemma_listed(lists, lists[at].display@, at);
    }
}

/// Each display's list with one window taken out.
pub open spec fn map_without_window(
    history: Map<Seq<char>, Seq<WindowId>>,
    window: WindowId,
) -> Map<Seq<char>, Seq<WindowId>> {
    history.map_values(|windows: Seq<WindowId>| without_window(windows, window))
}

/// Each display's list with one application's windows taken out.
pub open spec fn map_without_app(history: Map<Seq<char>, Seq<WindowId>>, pid: i32) -> Map<
    Seq<char>,
    Seq<WindowId>,
> {
    history.map_values(|windows: Seq<WindowId>| without_app(windows, pid))
}

/// The lists after a window of a display got the focus: it is the first of that
/// display's and in no other list.
pub open spec fn recorded(
    history: Map<Seq<char>, Seq<WindowId>>,
    display: Seq<char>,
    window: WindowId,
) -> Map<Seq<char>, Seq<WindowId>> {
    map_without_window(history, window).insert(
        display,
        seq![window] + without_window(list_or_empty(history, display), window),
    )
}

/// The displays whose list is not empty.
pub open spec fn nonempty_lists(history: Map<Seq<char>, Seq<WindowId>>) -> Map<
    Seq<char>,
    Seq<WindowId>,
> {
    history.restrict(
        Set::new(|display: Seq<char>| history.contains_key(display) && history[display].len() > 0),
    )
}

/// The lists without a window, and without the displays that are left with none.
pub open spec fn window_removed(
    history: Map<Seq<char>, Seq<WindowId>>,
    window: WindowId,
) -> Map<Seq<char>, Seq<WindowId>> {
    nonempty_lists(map_without_window(history, window))
}

/// The lists without an application's windows, and without the displays that are
/// left with none.
pub open spec fn app_removed(history: Map<Seq<char>, Seq<WindowId>>, pid: i32) -> Map<
    Seq<char>,
    Seq<WindowId>,
> {
    nonempty_lists(map_without_app(history, pid))
}

/// Whether the lists, and the window to focus, follow from an action on a display.
pub open spec fn is_turned(
    before: Map<Seq<char>, Seq<WindowId>>,
    after: Map<Seq<char>, Seq<WindowId>>,
    display: Seq<char>,
    candidates: Seq<WindowId>,
    current: Option<WindowId>,
    last_managed: Option<WindowId>,
    action: Action,
    target: Option<WindowId>,
) -> bool {
    let list = list_or_empty(before, display);
    &&& after == before.insert(display, list_after(list, candidates, current, action))
    &&& target == target_of(list, candidates, current, last_managed, action)
}

/// Whether no display's list has a window twice.
pub open spec fn lists_are_unique(history: Map<Seq<char>, Seq<WindowId>>) -> bool {
    forall|display: Seq<char>| #[trigger]
        history.contains_key(display) ==> history[display].no_duplicates()
}

impl Default for History {
    fn default() -> (history: Self)
        ensures
            history.wf(),
            history@ == Map::<Seq<char>, Seq<WindowId>>::empty(),
    {
        let history = History { by_display: Vec::new() };
        assert(history@ =~= Map::<Seq<char>, Seq<WindowId>>::empty());
        history
    }
}

impl History {
    /// Whether no two lists are for the same display.
    pub closed spec fn has_distinct_displays(&self) -> bool {
        displays_differ(self.by_display@)
    }

    /// Whether each display has one list, and no list has a window twice. Every
    /// operation keeps this.
    pub open spec fn wf(&self) -> bool {
        self.has_distinct_displays() && lists_are_unique(self@)
    }

    /// Where the display's list stands.
    fn find(&self, display: &str) -> (result: Option<usize>)
        requires
            self.has_distinct_displays(),
        ensures
            match result {
                None => !self@.contains_key(display@),
                Some(at) => {
                    &&& at < self.by_display@.len()
                    &&& self.by_display@[at as int].display@ == display@
                    &&& self@.contains_key(display@)
                    &&& self@[display@] == self.by_display@[at as int].windows@
                },
            },
    {
        let name: String = display.to_owned();
        let mut at: usize = 0;
        while at < self.by_display.len()
            invariant
                self.has_distinct_displays(),
                name@ == display@,
                at <= self.by_display@.len(),
                forall|j: int|
                    0 <= j < at ==> (#[trigger] self.by_display@[j]).display@ != display@,
            decreases self.by_display@.len() - at,
        {
            if self.by_display[at].display == name {
                proof {
                    assert(listed_at(self.by_display@, display@, at as int));
                    lemma_listed(self.by_display@, display@, at as int);
                }
                return Some(at);
            }
            at = at + 1;
        }
        None
    }

    /// Replaces the display's list.
    fn set_list(&mut self, display: &str, windows: Vec<WindowId>)
        requires
            old(self).has_distinct_displays(),
        ensures
            final(self).has_distinct_displays(),
            final(self)@ == old(self)@.insert(display@, windows@),
    {
        let ghost before = self.by_display@;
        let found: Option<usize> = self.find(display);
        match found {
            Some(at) => {
                let name: String = self.by_display[at].display.clone();
                self.by_display.set(at, DisplayHistory { display: name, windows });
            },
            None => {
                self.by_display.push(DisplayHistory { display: display.to_owned(), windows });
            },
        }
        proof {
            let lists = self.by_display@;
            match found {
                Some(at) => {
                    assert forall|i: int, j: int| 0 <= i < j < lists.len() implies (
                    #[trigger] lists[i]).display@ != (#[trigger] lists[j]).display@ by {
                        assert(before[i].display@ != before[j].display@);
                    }
                },
                None => {
                    lemma_history_map(before);
                    assert forall|i: int, j: int| 0 <= i < j < lists.len() implies (
                    #[trigger] lists[i]).display@ != (#[trigger] lists[j]).display@ by {
                        if j < before.len() {
                            assert(before[i].display@ != before[j].display@);
                        } else {
                            assert(lists_map(before).contains_key(before[i].display@));
                        }
                    }
                },
            }
            lemma_history_map(before);
            lemma_history_map(lists);
            assert forall|name: Seq<char>| #[trigger]
                lists_map(lists).contains_key(name) == lists_map(before).insert(
                    display@,
                    windows@,
                ).contains_key(name) && (lists_map(lists).contains_key(name) ==> lists_map(
                lists,
            )[name] == lists_map(before).insert(display@, windows@)[name]) by {
                if lists_map(lists).contains_key(name) {
                    let at = choose|at: int| listed_at(lists, name, at);
                    if name != display@ {
                        assert(before[at] == lists[at]);
                    } else {
                        let place = match found {
                            Some(place) => place as int,
                            None => before.len() as int,
                        };
                        assert(lists[place].display@ == display@);
                    }
                }
                if name == display@ {
                    let place = match found {
                        Some(place) => place as int,
                        None => before.len() as int,
                    };
                    assert(lists[place].display@ == display@);
                } else if lists_map(before).contains_key(name) {
                    let at = choose|at: int| listed_at(before, name, at);
                    assert(lists[at] == before[at]);
                }
            }
            assert(lists_map(lists) =~= lists_map(before).insert(display@, windows@));
        }
    }

    /// Takes what is gone out of every list.
    fn drop_departed(&mut self, departed: Departed)
        requires
            old(self).has_distinct_displays(),
        ensures
            final(self).has_distinct_displays(),
            departed matches Departed::Window(window) ==> final(self)@ == map_without_window(
                old(self)@,
                window,
            ),
            departed matches Departed::Application(pid) ==> final(self)@ == map_without_app(
                old(self)@,
                pid,
            ),
    {
        let mut lists: Vec<DisplayHistory> = Vec::new();
        let mut i: usize = 0;
        let ghost before = self.by_display@;
        while i < self.by_display.len()
            invariant
                i <= self.by_display@.len(),
                before == self.by_display@,
                lists@.len() == i,
                forall|j: int|
                    0 <= j < i ==> (#[trigger] lists@[j]).display@ == before[j].display@
                        && lists@[j].windows@ == before[j].windows@.filter(departed.stays()),
            decreases self.by_display@.len() - i,
        {
            let windows: Vec<WindowId> = keep_remaining(&self.by_display[i].windows, departed);
            lists.push(DisplayHistory { display: self.by_display[i].display.clone(), windows });
            i = i + 1;
        }
        self.by_display = lists;
        proof {
            lemma_mapped_lists(
                before,
                self.by_display@,
                |windows: Seq<WindowId>| windows.filter(departed.stays()),
            );
            match departed {
                Departed::Window(window) => {
                    assert(self@ =~= map_without_window(old(self)@, window));
                },
                Departed::Application(pid) => {
                    assert(self@ =~= map_without_app(old(self)@, pid));
                },
            }
        }
    }

    /// Forgets the displays whose list is empty.
    fn drop_empty(&mut self)
        requires
            old(self).has_distinct_displays(),
        ensures
            final(self).has_distinct_displays(),
            final(self)@ == nonempty_lists(old(self)@),
    {
        let mut lists: Vec<DisplayHistory> = Vec::new();
        let mut source: Vec<DisplayHistory> = Vec::new();
        let ghost before = self.by_display@;
        std::mem::swap(&mut source, &mut self.by_display);
        let mut i: usize = 0;
        let ghost mut places: Seq<int> = Seq::empty();
        while i < source.len()
            invariant
                i <= source@.len(),
                before == source@,
                lists@.len() == places.len(),
                forall|k: int|
                    0 <= k < places.len() ==> 0 <= #[trigger] places[k] < i
                        && before[places[k]].windows@.len() > 0 && lists@[k].display@
                        == before[places[k]].display@ && lists@[k].windows@
                        == before[places[k]].windows@,
                forall|k: int, l: int| 0 <= k < l < places.len() ==> places[k] < places[l],
                forall|j: int|
                    0 <= j < i && (#[trigger] before[j]).windows@.len() > 0 ==> places.contains(j),
            decreases source@.len() - i,
        {
            let ghost old_places = places;
            if source[i].windows.len() > 0 {
                lists.push(
                    DisplayHistory {
                        display: source[i].display.clone(),
                        windows: copy_windows(&source[i].windows),
                    },
                );
                proof {
                    places = places.push(i as int);
                    assert(places[old_places.len() as int] == i as int);
                }
            }
            proof {
                assert forall|j: int|
                    0 <= j < i + 1 && (
                    #[trigger] before[j]).windows@.len() > 0 implies places.contains(j) by {
                    if j < i {
                        let k = choose|k: int| 0 <= k < old_places.len() && old_places[k] == j;
                        assert(places[k] == j);
                    }
                }
            }
            i = i + 1;
        }
        self.by_display = lists;
        proof {
            lemma_nonempty_lists(before, self.by_display@, places);
        }
    }

    /// Notes that an unmanaged window of the display has the focus. It stands in
    /// no other display's list any more.
    pub fn record(&mut self, display: &str, window: WindowId)
        requires
            old(self).wf(),
        ensures
            final(self).wf(),
            final(self)@ == recorded(old(self)@, display@, window),
    {
        proof {
            law_lists_stay_unique(self@, display@, window, Seq::empty(), None, Action::Toggle);
        }
        self.drop_departed(Departed::Window(window));
        let mut windows: Vec<WindowId> = Vec::new();
        windows.push(window);
        match self.find(display) {
            Some(at) => {
                let mut rest: Vec<WindowId> = copy_windows(&self.by_display[at].windows);
                windows.append(&mut rest);
            },
            None => {
                proof {
                    reveal(Seq::filter);
                    assert(without_window(Seq::empty(), window) =~= Seq::<WindowId>::empty());
                }
            },
        }
        assert(windows@ =~= seq![window] + without_window(
            list_or_empty(old(self)@, display@),
            window,
        ));
        self.set_list(display, windows);
    }

    /// Forgets a window, and the displays that are left with none.
    pub fn remove_window(&mut self, window: WindowId)
        requires
            old(self).wf(),
        ensures
            final(self).wf(),
            final(self)@ == window_removed(old(self)@, window),
    {
        proof {
            law_lists_stay_unique(self@, Seq::empty(), window, Seq::empty(), None, Action::Toggle);
        }
        self.drop_departed(Departed::Window(window));
        self.drop_empty();
    }

    /// Forgets an application's windows, and the displays that are left with
    /// none.
    pub fn remove_app(&mut self, pid: i32)
        requires
            old(self).wf(),
        ensures
            final(self).wf(),
            final(self)@ == app_removed(old(self)@, pid),
    {
        proof {
            law_lists_stay_unique(
                self@,
                Seq::empty(),
                WindowId { pid, idx: 1 },
                Seq::empty(),
                None,
                Action::Toggle,
            );
        }
        self.drop_departed(Departed::Application(pid));
        self.drop_empty();
    }

    /// The window to focus on the display, given the unmanaged windows that are
    /// there now. Toggling goes from an unmanaged window back to the managed one
    /// and else to the unmanaged window focused last; cycling goes to the window
    /// after the current one and begins the list there.
    pub fn target(
        &mut self,
        display: &str,
        candidates: &[WindowId],
        current: Option<WindowId>,
        last_managed: Option<WindowId>,
        action: Action,
    ) -> (target: Option<WindowId>)
        requires
            old(self).wf(),
        ensures
            final(self).wf(),
            is_turned(
                old(self)@,
                final(self)@,
                display@,
                candidates@,
                current,
                last_managed,
                action,
                target,
            ),
    {
        proof {
            law_lists_stay_unique(
                self@,
                display@,
                WindowId { pid: 0, idx: 1 },
                candidates@,
                current,
                action,
            );
        }
        let known: Vec<WindowId> = match self.find(display) {
            Some(at) => copy_windows(&self.by_display[at].windows),
            None => Vec::new(),
        };
        assert(known@ =~= list_or_empty(old(self)@, display@));
        let list: Vec<WindowId> = reconcile(&known, candidates);
        match action {
            Action::Toggle => {
                let on_unmanaged: bool = match current {
                    Some(window) => contains(list.as_slice(), window),
                    None => false,
                };
                let target: Option<WindowId> = if on_unmanaged {
                    last_managed
                } else if list.len() == 0 {
                    None
                } else {
                    Some(list[0])
                };
                self.set_list(display, list);
                target
            },
            Action::Cycle => {
                let place: Option<usize> = match current {
                    Some(window) => position(&list, window),
                    None => None,
                };
                let next: usize = match place {
                    Some(at) => if at + 1 == list.len() {
                        0
                    } else {
                        at + 1
                    },
                    None => 0,
                };
                proof {
                    if let Some(at) = place {
                        let len = list@.len() as int;
                        if at + 1 < len {
                            vstd::arithmetic::div_mod::lemma_small_mod(
                                (at + 1) as nat,
                                len as nat,
                            );
                        } else {
                            vstd::arithmetic::div_mod::lemma_mod_self_0(len);
                        }
                    }
                    assert(next == step_after(list@, current));
                }
                let turned: Vec<WindowId> = rotate(&list, next);
                let target: Option<WindowId> = if turned.len() == 0 {
                    None
                } else {
                    Some(turned[0])
                };
                self.set_list(display, turned);
                target
            },
        }
    }
}

fn copy_windows(windows: &Vec<WindowId>) -> (result: Vec<WindowId>)
    ensures
        result@ == windows@,
{
    let mut result: Vec<WindowId> = Vec::new();
    let mut i: usize = 0;
    while i < windows.len()
        invariant
            i <= windows@.len(),
            result@ == windows@.take(i as int),
        decreases windows@.len() - i,
    {
        result.push(windows[i]);
        assert(result@ =~= windows@.take(i + 1));
        i = i + 1;
    }
    assert(result@ =~= windows@);
    result
}

/// Changing every list in the same way changes the map's values in that way.
proof fn lemma_mapped_lists(
    before: Seq<DisplayHistory>,
    after: Seq<DisplayHistory>,
    change: spec_fn(Seq<WindowId>) -> Seq<WindowId>,
)
    requires
        displays_differ(before),
        after.len() == before.len(),
        forall|j: int|
            0 <= j < after.len() ==> (#[trigger] after[j]).display@ == before[j].display@
                && after[j].windows@ == change(before[j].windows@),
    ensures
        displays_differ(after),
        lists_map(after) == lists_map(before).map_values(change),
{
    assert forall|i: int, j: int| 0 <= i < j < after.len() implies (
    #[trigger] after[i]).display@ != (#[trigger] after[j]).display@ by {
        assert(before[i].display@ != before[j].display@);
    }
    lemma_history_map(before);
    lemma_history_map(after);
    let expected = lists_map(before).map_values(change);
    assert forall|name: Seq<char>| #[trigger]
        lists_map(after).contains_key(name) == expected.contains_key(name) && (lists_map(
            after,
        ).contains_key(name) ==> lists_map(after)[name] == expected[name]) by {
        if lists_map(after).contains_key(name) {
            let at = choose|at: int| listed_at(after, name, at);
            assert(after[at].display@ == before[at].display@);
            assert(lists_map(before).contains_key(before[at].display@));
        }
        if lists_map(before).contains_key(name) {
            let at = choose|at: int| listed_at(before, name, at);
            assert(after[at].display@ == before[at].display@);
            assert(lists_map(after).contains_key(after[at].display@));
        }
    }
    assert(lists_map(after) =~= expected);
}

/// Dropping the empty lists restricts the map to the others.
proof fn lemma_nonempty_lists(
    before: Seq<DisplayHistory>,
    after: Seq<DisplayHistory>,
    places: Seq<int>,
)
    requires
        displays_differ(before),
        after.len() == places.len(),
        forall|k: int|
            0 <= k < places.len() ==> 0 <= #[trigger] places[k] < before.len()
                && before[places[k]].windows@.len() > 0 && after[k].display@
                == before[places[k]].display@ && after[k].windows@ == before[places[k]].windows@,
        forall|k: int, l: int| 0 <= k < l < places.len() ==> places[k] < places[l],
        forall|j: int|
            0 <= j < before.len() && (#[trigger] before[j]).windows@.len() > 0 ==> places.contains(
                j,
            ),
    ensures
        displays_differ(after),
        lists_map(after) == nonempty_lists(lists_map(before)),
{
    assert forall|i: int, j: int| 0 <= i < j < after.len() implies (
    #[trigger] after[i]).display@ != (#[trigger] after[j]).display@ by {
        assert(places[i] < places[j]);
        assert(before[places[i]].display@ != before[places[j]].display@);
    }
    lemma_history_map(before);
    lemma_history_map(after);
    let expected = nonempty_lists(lists_map(before));
    assert forall|name: Seq<char>| #[trigger]
        lists_map(after).contains_key(name) == expected.contains_key(name) && (lists_map(
            after,
        ).contains_key(name) ==> lists_map(after)[name] == expected[name]) by {
        if lists_map(after).contains_key(name) {
            let k = choose|k: int| listed_at(after, name, k);
            let at = places[k];
            assert(lists_map(after)[after[k].display@] == after[k].windows@);
            assert(lists_map(before).contains_key(before[at].display@));
        }
        if expected.contains_key(name) {
            let at = choose|at: int| listed_at(before, name, at);
            assert(lists_map(before)[before[at].display@] == before[at].windows@);
            assert(places.contains(at));
            let k = choose|k: int| 0 <= k < places.len() && places[k] == at;
            assert(lists_map(after).contains_key(after[k].display@));
        }
    }
    assert(lists_map(after) =~= expected);
}

/// A filtered list has the members that pass, each as often as before or once
/// if it was there once.
proof fn lemma_filter_members(windows: Seq<WindowId>, keep: spec_fn(WindowId) -> bool)
    ensures
        forall|window: WindowId| #[trigger]
            windows.filter(keep).contains(window) <==> windows.contains(window) && keep(window),
        windows.no_duplicates() ==> windows.filter(keep).no_duplicates(),
    decreases windows.len(),
{
    reveal(Seq::filter);
    if windows.len() > 0 {
        let rest = windows.drop_last();
        let last = windows.last();
        lemma_filter_members(rest, keep);
        assert(windows =~= rest.push(last));
        assert forall|window: WindowId| #[trigger]
            windows.filter(keep).contains(window) <==> windows.contains(window) && keep(window) by {
            let kept = rest.filter(keep);
            if keep(last) {
                assert(windows.filter(keep) == kept.push(last));
                assert(kept.push(last)[kept.len() as int] == last);
                if kept.contains(window) {
                    let i = choose|i: int| 0 <= i < kept.len() && kept[i] == window;
                    assert(kept.push(last)[i] == window);
                }
            }
            if rest.contains(window) {
                let i = choose|i: int| 0 <= i < rest.len() && rest[i] == window;
                assert(windows[i] == window);
            }
            if windows.contains(window) {
                let i = choose|i: int| 0 <= i < windows.len() && windows[i] == window;
                if i < rest.len() {
                    assert(rest[i] == window);
                }
            }
        }
        if windows.no_duplicates() {
            assert forall|i: int, j: int| 0 <= i < rest.len() && 0 <= j < rest.len() && i
                != j implies rest[i] != rest[j] by {
                assert(windows[i] != windows[j]);
            }
            if rest.contains(last) {
                let i = choose|i: int| 0 <= i < rest.len() && rest[i] == last;
                assert(windows[i] == windows[rest.len() as int]);
            }
            assert(!rest.filter(keep).contains(last));
        }
    }
}

/// Where everything passes, filtering changes nothing.
proof fn lemma_filter_all(windows: Seq<WindowId>, keep: spec_fn(WindowId) -> bool)
    requires
        forall|i: int| 0 <= i < windows.len() ==> keep(#[trigger] windows[i]),
    ensures
        windows.filter(keep) == windows,
    decreases windows.len(),
{
    reveal(Seq::filter);
    if windows.len() > 0 {
        let rest = windows.drop_last();
        assert forall|i: int| 0 <= i < rest.len() implies keep(#[trigger] rest[i]) by {
            assert(keep(windows[i]));
        }
        lemma_filter_all(rest, keep);
        assert(keep(windows[windows.len() - 1]));
        assert(windows =~= rest.push(windows.last()));
    } else {
        assert(windows.filter(keep) =~= windows);
    }
}

/// The candidates that were missing are there afterwards, and nothing else is
/// new.
proof fn lemma_with_missing(windows: Seq<WindowId>, candidates: Seq<WindowId>)
    ensures
        forall|window: WindowId| #[trigger]
            with_missing(windows, candidates).contains(window) <==> windows.contains(window)
                || candidates.contains(window),
        windows.no_duplicates() ==> with_missing(windows, candidates).no_duplicates(),
    decreases candidates.len(),
{
    if candidates.len() > 0 {
        let rest = candidates.drop_last();
        let last = candidates.last();
        lemma_with_missing(windows, rest);
        let earlier = with_missing(windows, rest);
        assert forall|window: WindowId| #[trigger]
            with_missing(windows, candidates).contains(window) <==> windows.contains(window)
                || candidates.contains(window) by {
            if !earlier.contains(last) {
                assert(earlier.push(last)[earlier.len() as int] == last);
                if earlier.contains(window) {
                    let i = choose|i: int| 0 <= i < earlier.len() && earlier[i] == window;
                    assert(earlier.push(last)[i] == window);
                }
            }
            if rest.contains(window) {
                let i = choose|i: int| 0 <= i < rest.len() && rest[i] == window;
                assert(candidates[i] == window);
            }
            if candidates.contains(window) {
                let i = choose|i: int| 0 <= i < candidates.len() && candidates[i] == window;
                if i < rest.len() {
                    assert(rest[i] == window);
                }
            }
            assert(candidates[candidates.len() - 1] == last);
        }
    }
}

/// A list that has all candidates is not missing any.
proof fn lemma_none_missing(windows: Seq<WindowId>, candidates: Seq<WindowId>)
    requires
        forall|window: WindowId| #[trigger] candidates.contains(window) ==> windows.contains(window),
    ensures
        with_missing(windows, candidates) == windows,
    decreases candidates.len(),
{
    if candidates.len() > 0 {
        let rest = candidates.drop_last();
        assert forall|window: WindowId| #[trigger] rest.contains(window) implies windows.contains(
            window,
        ) by {
            let i = choose|i: int| 0 <= i < rest.len() && rest[i] == window;
            assert(candidates[i] == window);
            assert(candidates.contains(window));
        }
        lemma_none_missing(windows, rest);
        assert(candidates[candidates.len() - 1] == candidates.last());
        assert(candidates.contains(candidates.last()));
    }
}

/// Brought up to date, a list holds exactly the windows that are there: closed
/// windows are gone, and no window is there twice.
pub proof fn law_reconciled_list_is_the_candidates(
    windows: Seq<WindowId>,
    candidates: Seq<WindowId>,
)
    ensures
        forall|window: WindowId| #[trigger]
            reconciled(windows, candidates).contains(window) <==> candidates.contains(window),
        windows.no_duplicates() ==> reconciled(windows, candidates).no_duplicates(),
{
    lemma_filter_members(windows, is_candidate(candidates));
    lemma_with_missing(among(windows, candidates), candidates);
}

/// A turned list has the same members.
proof fn lemma_rotated(windows: Seq<WindowId>, by: int)
    requires
        0 <= by <= windows.len(),
    ensures
        rotated(windows, by).len() == windows.len(),
        forall|window: WindowId| #[trigger]
            rotated(windows, by).contains(window) <==> windows.contains(window),
        windows.no_duplicates() ==> rotated(windows, by).no_duplicates(),
{
    let turned = rotated(windows, by);
    let n = windows.len() as int;
    assert forall|i: int| 0 <= i < n implies #[trigger] turned[i] == windows[if i < n - by {
        by + i
    } else {
        i - (n - by)
    }] by {}
    assert forall|window: WindowId| #[trigger] turned.contains(window) <==> windows.contains(
        window,
    ) by {
        if turned.contains(window) {
            let i = choose|i: int| 0 <= i < turned.len() && turned[i] == window;
            assert(windows.contains(turned[i]));
        }
        if windows.contains(window) {
            let i = choose|i: int| 0 <= i < windows.len() && windows[i] == window;
            if i >= by {
                assert(turned[i - by] == window);
            } else {
                assert(turned[i + n - by] == window);
            }
        }
    }
}

/// No operation puts a window twice into a display's list.
pub proof fn law_lists_stay_unique(
    history: Map<Seq<char>, Seq<WindowId>>,
    display: Seq<char>,
    window: WindowId,
    candidates: Seq<WindowId>,
    current: Option<WindowId>,
    action: Action,
)
    requires
        lists_are_unique(history),
    ensures
        lists_are_unique(recorded(history, display, window)),
        lists_are_unique(window_removed(history, window)),
        lists_are_unique(app_removed(history, window.pid)),
        lists_are_unique(
            history.insert(
                display,
                list_after(list_or_empty(history, display), candidates, current, action),
            ),
        ),
{
    let list = list_or_empty(history, display);
    assert(list.no_duplicates());
    assert forall|name: Seq<char>| #[trigger] history.contains_key(name) implies without_window(
        history[name],
        window,
    ).no_duplicates() && without_app(history[name], window.pid).no_duplicates() by {
        lemma_filter_members(history[name], is_other(window));
        lemma_filter_members(history[name], is_of_other_app(window.pid));
    }
    lemma_filter_members(list, is_other(window));
    let rest = without_window(list, window);
    assert((seq![window] + rest).no_duplicates()) by {
        if rest.contains(window) {
            assert(is_other(window)(window));
        }
        let joined = seq![window] + rest;
        assert forall|i: int, j: int|
            0 <= i < joined.len() && 0 <= j < joined.len() && i != j implies joined[i]
            != joined[j] by {
            if i == 0 {
                assert(rest.contains(rest[j - 1]));
            } else if j == 0 {
                assert(rest.contains(rest[i - 1]));
            } else {
                assert(rest[i - 1] != rest[j - 1]);
            }
        }
    }
    law_reconciled_list_is_the_candidates(list, candidates);
    let updated = reconciled(list, candidates);
    lemma_step_in_range(updated, current);
    lemma_rotated(updated, step_after(updated, current));
    let removed = nonempty_lists(map_without_window(history, window));
    assert forall|name: Seq<char>| #[trigger]
        removed.contains_key(name) implies removed[name].no_duplicates() by {
        assert(history.contains_key(name));
    }
    let removed_app = nonempty_lists(map_without_app(history, window.pid));
    assert forall|name: Seq<char>| #[trigger]
        removed_app.contains_key(name) implies removed_app[name].no_duplicates() by {
        assert(history.contains_key(name));
    }
    let recorded = recorded(history, display, window);
    assert forall|name: Seq<char>| #[trigger]
        recorded.contains_key(name) implies recorded[name].no_duplicates() by {
        if name != display {
            assert(history.contains_key(name));
        }
    }
}

/// The step after the current window stays within the list.
proof fn lemma_step_in_range(windows: Seq<WindowId>, current: Option<WindowId>)
    ensures
        0 <= step_after(windows, current) <= windows.len(),
        windows.len() > 0 ==> step_after(windows, current) < windows.len(),
{
    if let Some(window) = current {
        if windows.contains(window) {
            let n = windows.len() as int;
            let at = windows.index_of_first(window)->0;
            vstd::arithmetic::div_mod::lemma_mod_bound(at + 1, n);
        }
    }
}

/// After a window was recorded on a display, toggling from anything that is not
/// one of the display's unmanaged windows goes to it, and toggling again goes
/// back to the managed window.
pub proof fn law_toggle_there_and_back(
    history: Map<Seq<char>, Seq<WindowId>>,
    display: Seq<char>,
    window: WindowId,
    candidates: Seq<WindowId>,
    current: Option<WindowId>,
    last_managed: Option<WindowId>,
)
    requires
        candidates.contains(window),
        current matches Some(other) ==> !candidates.contains(other),
    ensures
        ({
            let list = seq![window] + without_window(list_or_empty(history, display), window);
            let after = list_after(list, candidates, current, Action::Toggle);
            &&& target_of(list, candidates, current, last_managed, Action::Toggle) == Some(window)
            &&& target_of(after, candidates, Some(window), last_managed, Action::Toggle)
                == last_managed
        }),
{
    let rest = without_window(list_or_empty(history, display), window);
    let list = seq![window] + rest;
    let keep = is_candidate(candidates);
    law_reconciled_list_is_the_candidates(list, candidates);
    let after = reconciled(list, candidates);
    law_reconciled_list_is_the_candidates(after, candidates);
    lemma_filter_keeps_head(list, keep);
    lemma_with_missing_keeps_head(among(list, candidates), candidates);
}

proof fn lemma_filter_keeps_head(windows: Seq<WindowId>, keep: spec_fn(WindowId) -> bool)
    requires
        windows.len() > 0,
        keep(windows[0]),
    ensures
        windows.filter(keep).len() > 0,
        windows.filter(keep)[0] == windows[0],
    decreases windows.len(),
{
    reveal(Seq::filter);
    let rest = windows.drop_last();
    if rest.len() > 0 {
        lemma_filter_keeps_head(rest, keep);
    } else {
        assert(rest.filter(keep) =~= Seq::<WindowId>::empty());
    }
}

proof fn lemma_with_missing_keeps_head(windows: Seq<WindowId>, candidates: Seq<WindowId>)
    requires
        windows.len() > 0,
    ensures
        with_missing(windows, candidates).len() > 0,
        with_missing(windows, candidates)[0] == windows[0],
    decreases candidates.len(),
{
    if candidates.len() > 0 {
        lemma_with_missing_keeps_head(windows, candidates.drop_last());
    }
}

/// The list and the focused window after `count` steps of cycling, each from the
/// window that the step before focused.
pub open spec fn cycled(
    windows: Seq<WindowId>,
    candidates: Seq<WindowId>,
    current: Option<WindowId>,
    count: nat,
) -> (Seq<WindowId>, Option<WindowId>)
    decreases count,
{
    if count == 0 {
        (windows, current)
    } else {
        let (list, focused) = cycled(windows, candidates, current, (count - 1) as nat);
        (
            list_after(list, candidates, focused, Action::Cycle),
            target_of(list, candidates, focused, None, Action::Cycle),
        )
    }
}

/// Turning a turned list turns the list further.
proof fn lemma_rotate_further(windows: Seq<WindowId>, by: int)
    requires
        0 <= by < windows.len(),
    ensures
        rotated(rotated(windows, by), 1int % (windows.len() as int)) == rotated(
            windows,
            (by + 1) % (windows.len() as int),
        ),
{
    let n = windows.len() as int;
    let turned = rotated(windows, by);
    if n == 1 {
        assert(rotated(turned, 0) =~= windows);
        assert(rotated(windows, 0) =~= windows);
    } else {
        vstd::arithmetic::div_mod::lemma_small_mod(1, n as nat);
        if by + 1 < n {
            vstd::arithmetic::div_mod::lemma_small_mod((by + 1) as nat, n as nat);
            assert(rotated(turned, 1) =~= rotated(windows, by + 1));
        } else {
            vstd::arithmetic::div_mod::lemma_mod_self_0(n);
            assert(rotated(turned, 1) =~= rotated(windows, 0));
        }
    }
}

/// One step of cycling from a list that begins at its focused window.
proof fn lemma_cycle_step(list: Seq<WindowId>, candidates: Seq<WindowId>, by: int)
    requires
        0 <= by < list.len(),
        list.no_duplicates(),
        forall|window: WindowId| #[trigger]
            list.contains(window) <==> candidates.contains(window),
    ensures
        list_after(rotated(list, by), candidates, Some(list[by]), Action::Cycle) == rotated(
            list,
            (by + 1) % (list.len() as int),
        ),
        target_of(rotated(list, by), candidates, Some(list[by]), None, Action::Cycle) == Some(
            list[(by + 1) % (list.len() as int)],
        ),
{
    let n = list.len() as int;
    let turned = rotated(list, by);
    lemma_rotated(list, by);
    assert(turned[0] == list[by]);
    assert(reconciled(turned, candidates) == turned) by {
        assert forall|i: int| 0 <= i < turned.len() implies is_candidate(candidates)(
            #[trigger] turned[i],
        ) by {
            assert(turned.contains(turned[i]));
            assert(list.contains(turned[i]));
        }
        lemma_filter_all(turned, is_candidate(candidates));
        assert forall|window: WindowId| #[trigger]
            candidates.contains(window) implies turned.contains(window) by {
            assert(list.contains(window));
        }
        lemma_none_missing(turned, candidates);
    }
    assert(step_after(turned, Some(turned[0])) == 1int % n) by {
        turned.index_of_first_ensures(turned[0]);
        assert(turned.contains(turned[0]));
        assert(turned.index_of_first(turned[0]) == Some(0int));
    }
    lemma_rotate_further(list, by);
    vstd::arithmetic::div_mod::lemma_mod_bound(by + 1, n);
    let next = (by + 1) % n;
    lemma_rotated(list, next);
    assert(rotated(list, next)[0] == list[next]);
}

/// Cycling visits each unmanaged window of the display once before it comes back
/// to the first: step by step it goes through the list, round its end.
pub proof fn law_cycle_visits_each_before_wrapping(
    windows: Seq<WindowId>,
    candidates: Seq<WindowId>,
    current: Option<WindowId>,
    count: nat,
)
    requires
        windows.no_duplicates(),
        candidates.len() > 0,
        count > 0,
    ensures
        ({
            let list = reconciled(windows, candidates);
            let at = (step_after(list, current) + count - 1) % (list.len() as int);
            &&& list.len() > 0
            &&& list.no_duplicates()
            &&& cycled(windows, candidates, current, count).0 == rotated(list, at)
            &&& cycled(windows, candidates, current, count).1 == Some(list[at])
        }),
    decreases count,
{
    let list = reconciled(windows, candidates);
    let n = list.len() as int;
    let start = step_after(list, current);
    law_reconciled_list_is_the_candidates(windows, candidates);
    assert(candidates.contains(candidates[0]));
    assert(list.contains(candidates[0]));
    lemma_step_in_range(list, current);
    if count == 1 {
        vstd::arithmetic::div_mod::lemma_small_mod(start as nat, n as nat);
        assert(cycled(windows, candidates, current, 0) == (windows, current));
        assert(rotated(list, start)[0] == list[start]);
    } else {
        let earlier = (count - 1) as nat;
        law_cycle_visits_each_before_wrapping(windows, candidates, current, earlier);
        let by = (start + earlier - 1) % n;
        vstd::arithmetic::div_mod::lemma_mod_bound(start + earlier - 1, n);
        lemma_cycle_step(list, candidates, by);
        assert((by + 1) % n == (start + count - 1) % n) by {
            vstd::arithmetic::div_mod::lemma_add_mod_noop(start + earlier - 1, 1, n);
            vstd::arithmetic::div_mod::lemma_add_mod_noop(by, 1, n);
            vstd::arithmetic::div_mod::lemma_mod_twice(start + earlier - 1, n);
        }
    }
}

/// The history after the windows were removed, one after the other.
pub open spec fn removed_in_turn(
    history: Map<Seq<char>, Seq<WindowId>>,
    windows: Seq<WindowId>,
) -> Map<Seq<char>, Seq<WindowId>>
    decreases windows.len(),
{
    if windows.len() == 0 {
        history
    } else {
        window_removed(removed_in_turn(history, windows.drop_last()), windows.last())
    }
}

/// Tells the windows that are none of the given ones.
pub open spec fn is_none_of(windows: Seq<WindowId>) -> spec_fn(WindowId) -> bool {
    |candidate: WindowId| !windows.contains(candidate)
}

/// Filtering twice is filtering by both.
proof fn lemma_filter_twice(
    windows: Seq<WindowId>,
    first: spec_fn(WindowId) -> bool,
    second: spec_fn(WindowId) -> bool,
    both: spec_fn(WindowId) -> bool,
)
    requires
        forall|window: WindowId| #[trigger] both(window) == (first(window) && second(window)),
    ensures
        windows.filter(first).filter(second) == windows.filter(both),
    decreases windows.len(),
{
    reveal(Seq::filter);
    if windows.len() > 0 {
        let (rest, last) = (windows.drop_last(), windows.last());
        lemma_filter_twice(rest, first, second, both);
        assert(both(last) == (first(last) && second(last)));
        if first(last) {
            let kept = rest.filter(first);
            assert(kept.push(last).drop_last() =~= kept);
            assert(kept.push(last).last() == last);
        }
    } else {
        assert(windows.filter(first).filter(second) =~= windows.filter(both));
    }
}

/// Filters that agree on the members keep the same.
proof fn lemma_filters_agree(
    windows: Seq<WindowId>,
    keep: spec_fn(WindowId) -> bool,
    other: spec_fn(WindowId) -> bool,
)
    requires
        forall|i: int| 0 <= i < windows.len() ==> keep(#[trigger] windows[i]) == other(windows[i]),
    ensures
        windows.filter(keep) == windows.filter(other),
    decreases windows.len(),
{
    reveal(Seq::filter);
    if windows.len() > 0 {
        let rest = windows.drop_last();
        assert forall|i: int| 0 <= i < rest.len() implies keep(#[trigger] rest[i]) == other(
            rest[i],
        ) by {
            assert(rest[i] == windows[i]);
        }
        lemma_filters_agree(rest, keep, other);
        assert(windows.last() == windows[windows.len() - 1]);
    } else {
        assert(windows.filter(keep) =~= windows.filter(other));
    }
}

/// Removing windows in turn leaves the lists without all of them.
proof fn lemma_removed_in_turn(history: Map<Seq<char>, Seq<WindowId>>, windows: Seq<WindowId>)
    requires
        windows.len() > 0,
    ensures
        removed_in_turn(history, windows) == nonempty_lists(
            history.map_values(|list: Seq<WindowId>| list.filter(is_none_of(windows))),
        ),
    decreases windows.len(),
{
    let (rest, last) = (windows.drop_last(), windows.last());
    let earlier = removed_in_turn(history, rest);
    let actual = removed_in_turn(history, windows);
    let expected = nonempty_lists(
        history.map_values(|list: Seq<WindowId>| list.filter(is_none_of(windows))),
    );
    assert(windows =~= rest.push(last));
    assert forall|window: WindowId| #[trigger] is_none_of(windows)(window) == (is_none_of(rest)(
        window,
    ) && is_other(last)(window)) by {
        if rest.contains(window) {
            let i = choose|i: int| 0 <= i < rest.len() && rest[i] == window;
            assert(windows[i] == window);
        }
        if windows.contains(window) {
            let i = choose|i: int| 0 <= i < windows.len() && windows[i] == window;
            if i < rest.len() {
                assert(rest[i] == window);
            }
        }
        assert(windows[windows.len() - 1] == last);
    }
    if rest.len() > 0 {
        lemma_removed_in_turn(history, rest);
    }
    assert forall|display: Seq<char>| #[trigger]
        actual.contains_key(display) == expected.contains_key(display) && (actual.contains_key(
            display,
        ) ==> actual[display] == expected[display]) by {
        if history.contains_key(display) {
            let list = history[display];
            lemma_filter_twice(list, is_none_of(rest), is_other(last), is_none_of(windows));
            if rest.len() == 0 {
                assert forall|i: int| 0 <= i < list.len() implies is_none_of(rest)(
                    #[trigger] list[i],
                ) by {}
                lemma_filter_all(list, is_none_of(rest));
            }
            if list.filter(is_none_of(rest)).len() == 0 {
                assert(list.filter(is_none_of(rest)) =~= Seq::empty());
                lemma_filter_members(Seq::empty(), is_other(last));
                let none = Seq::<WindowId>::empty().filter(is_other(last));
                if none.len() > 0 {
                    assert(none.contains(none[0]));
                }
            }
        }
    }
    assert(actual =~= expected);
}

/// Removing an application is removing its windows one by one, in any order.
/// Without any window to remove this is so where no display's list is empty.
pub proof fn law_removing_an_app_removes_its_windows(
    history: Map<Seq<char>, Seq<WindowId>>,
    pid: i32,
    windows: Seq<WindowId>,
)
    requires
        forall|i: int| 0 <= i < windows.len() ==> (#[trigger] windows[i]).pid == pid,
        forall|display: Seq<char>, i: int|
            history.contains_key(display) && 0 <= i < history[display].len() && (
            #[trigger] history[display][i]).pid == pid ==> windows.contains(history[display][i]),
        windows.len() > 0 || nonempty_lists(history) == history,
    ensures
        removed_in_turn(history, windows) == app_removed(history, pid),
{
    assert forall|display: Seq<char>| #[trigger] history.contains_key(display) implies history[
    display].filter(is_none_of(windows)) == without_app(history[display], pid) by {
        let list = history[display];
        assert forall|i: int| 0 <= i < list.len() implies is_none_of(windows)(#[trigger] list[i])
            == is_of_other_app(pid)(list[i]) by {
            assert(history[display][i] == list[i]);
            if windows.contains(list[i]) {
                let k = choose|k: int| 0 <= k < windows.len() && windows[k] == list[i];
                assert(windows[k].pid == pid);
            }
        }
        lemma_filters_agree(list, is_none_of(windows), is_of_other_app(pid));
    }
    if windows.len() > 0 {
        lemma_removed_in_turn(history, windows);
    } else {
        assert forall|display: Seq<char>| #[trigger] history.contains_key(display) implies
            without_app(history[display], pid) == history[display] by {
            lemma_filter_all(history[display], is_none_of(windows));
        }
        assert(map_without_app(history, pid) =~= history);
    }
    assert(removed_in_turn(history, windows) =~= nonempty_lists(map_without_app(history, pid)));
}

/// Whether the part is the list less some of its windows, in the same order.
pub open spec fn is_part_of(part: Seq<WindowId>, list: Seq<WindowId>) -> bool {
    exists|places: Seq<int>| #[trigger] are_places_of(places, part, list)
}

pub open spec fn are_places_of(
    places: Seq<int>,
    part: Seq<WindowId>,
    list: Seq<WindowId>,
) -> bool {
    &&& places.len() == part.len()
    &&& forall|i: int|
        0 <= i < places.len() ==> 0 <= #[trigger] places[i] < list.len() && list[places[i]]
            == part[i]
    &&& forall|i: int, j: int| 0 <= i < j < places.len() ==> places[i] < places[j]
}

/// Filtering leaves the others in their order.
proof fn lemma_filter_is_part(windows: Seq<WindowId>, keep: spec_fn(WindowId) -> bool)
    ensures
        is_part_of(windows.filter(keep), windows),
    decreases windows.len(),
{
    reveal(Seq::filter);
    if windows.len() == 0 {
        assert(are_places_of(Seq::empty(), windows.filter(keep), windows));
    } else {
        let rest = windows.drop_last();
        lemma_filter_is_part(rest, keep);
        let part = rest.filter(keep);
        let places = choose|places: Seq<int>| #[trigger] are_places_of(places, part, rest);
        if keep(windows.last()) {
            assert(are_places_of(
                places.push(windows.len() - 1),
                windows.filter(keep),
                windows,
            ));
        } else {
            assert(are_places_of(places, windows.filter(keep), windows));
        }
    }
}

/// A window that gets the focus is the first of its display's list and in no other
/// list. All other windows stay where they were, in the same order.
pub proof fn law_focused_window_comes_first(
    history: Map<Seq<char>, Seq<WindowId>>,
    display: Seq<char>,
    window: WindowId,
    other: Seq<char>,
    bystander: WindowId,
)
    requires
        bystander != window,
    ensures
        ({
            let after = recorded(history, display, window);
            &&& after.contains_key(display)
            &&& after[display].len() > 0
            &&& after[display][0] == window
            &&& is_part_of(after[display].drop_first(), list_or_empty(history, display))
            &&& !after[display].drop_first().contains(window)
            &&& after[display].contains(bystander) <==> list_or_empty(history, display).contains(
                bystander,
            )
            &&& other != display ==> {
                &&& after.contains_key(other) <==> history.contains_key(other)
                &&& history.contains_key(other) ==> {
                    &&& !after[other].contains(window)
                    &&& after[other].contains(bystander) <==> history[other].contains(bystander)
                    &&& is_part_of(after[other], history[other])
                }
            }
        }),
{
    let list = list_or_empty(history, display);
    let after = recorded(history, display, window);
    lemma_filter_members(list, is_other(window));
    lemma_filter_is_part(list, is_other(window));
    let rest = without_window(list, window);
    assert(after[display].drop_first() =~= rest);
    if rest.contains(window) {
        assert(is_other(window)(window));
    }
    if rest.contains(bystander) {
        let i = choose|i: int| 0 <= i < rest.len() && rest[i] == bystander;
        assert(after[display][i + 1] == bystander);
    }
    if list.contains(bystander) {
        assert(is_other(window)(bystander));
        assert(rest.contains(bystander));
    }
    if after[display].contains(bystander) {
        let i = choose|i: int| 0 <= i < after[display].len() && after[display][i] == bystander;
        assert(i > 0);
        assert(rest[i - 1] == bystander);
        assert(rest.contains(bystander));
    }
    if other != display && history.contains_key(other) {
        lemma_filter_members(history[other], is_other(window));
        lemma_filter_is_part(history[other], is_other(window));
        if after[other].contains(window) {
            assert(is_other(window)(window));
        }
        assert(is_other(window)(bystander));
    }
}

/// A window that is removed is in no list any more. All others stay where they
/// were, in the same order, and a display without windows is forgotten.
pub proof fn law_removed_window_is_nowhere(
    history: Map<Seq<char>, Seq<WindowId>>,
    window: WindowId,
    display: Seq<char>,
    bystander: WindowId,
)
    requires
        bystander != window,
    ensures
        ({
            let after = window_removed(history, window);
            &&& after.contains_key(display) ==> {
                &&& history.contains_key(display)
                &&& after[display].len() > 0
                &&& !after[display].contains(window)
                &&& is_part_of(after[display], history[display])
            }
            &&& history.contains_key(display) && history[display].contains(bystander) <==> (
            after.contains_key(display) && after[display].contains(bystander))
        }),
{
    let after = nonempty_lists(map_without_window(history, window));
    if history.contains_key(display) {
        let list = without_window(history[display], window);
        lemma_filter_members(history[display], is_other(window));
        lemma_filter_is_part(history[display], is_other(window));
        if list.contains(window) {
            assert(is_other(window)(window));
        }
        assert(is_other(window)(bystander));
        if list.contains(bystander) {
            let i = choose|i: int| 0 <= i < list.len() && list[i] == bystander;
            assert(list.len() > 0);
        }
    }
}

/// Toggling from one of the display's unmanaged windows goes to the managed one,
/// and from anything else to the unmanaged window that is there and had the focus
/// last; cycling goes on to the next window of the list, from the last to the
/// first, and begins with the first if the current window is not among them.
/// Cycling leaves the list beginning with its target, and toggling as it is.
pub proof fn law_target_by_the_current_window(
    windows: Seq<WindowId>,
    candidates: Seq<WindowId>,
    current: Option<WindowId>,
    last_managed: Option<WindowId>,
    at: int,
)
    requires
        windows.no_duplicates(),
        current matches Some(window) && candidates.contains(window) ==> 0 <= at < reconciled(
            windows,
            candidates,
        ).len() && reconciled(windows, candidates)[at] == current->0,
    ensures
        ({
            let list = reconciled(windows, candidates);
            let inside = current is Some && candidates.contains(current->0);
            let first = if list.len() == 0 {
                None
            } else {
                Some(list[0])
            };
            let cycle = target_of(windows, candidates, current, last_managed, Action::Cycle);
            &&& target_of(windows, candidates, current, last_managed, Action::Toggle) == (
            if inside {
                last_managed
            } else {
                first
            })
            &&& cycle == (if !inside {
                first
            } else if at + 1 < list.len() {
                Some(list[at + 1])
            } else {
                first
            })
            &&& list_after(windows, candidates, current, Action::Toggle) == list
            &&& cycle is Some ==> list_after(windows, candidates, current, Action::Cycle)[0]
                == cycle->0
        }),
{
    let list = reconciled(windows, candidates);
    law_reconciled_list_is_the_candidates(windows, candidates);
    lemma_step_in_range(list, current);
    lemma_rotated(list, step_after(list, current));
    if current is Some && candidates.contains(current->0) {
        let window = current->0;
        assert(list.contains(window));
        list.index_of_first_ensures(window);
        let found = list.index_of_first(window)->0;
        assert(found == at);
        let n = list.len() as int;
        if at + 1 < n {
            vstd::arithmetic::div_mod::lemma_small_mod((at + 1) as nat, n as nat);
        } else {
            vstd::arithmetic::div_mod::lemma_mod_self_0(n);
        }
        let step = step_after(list, current);
        assert(rotated(list, step)[0] == list[step]);
    } else if list.len() > 0 {
        assert(rotated(list, 0)[0] == list[0]);
    }
}

/// Brought up to date, a list begins with the known windows that are still there,
/// in their order; new ones follow in the order in which they were given.
pub proof fn law_known_windows_stay_in_front(windows: Seq<WindowId>, candidates: Seq<WindowId>)
    ensures
        ({
            let list = reconciled(windows, candidates);
            let known = windows.filter(|window: WindowId| candidates.contains(window));
            &&& known.is_prefix_of(list)
            &&& is_part_of(known, windows)
            &&& is_part_of(list.skip(known.len() as int), candidates)
        }),
{
    let known = windows.filter(|window: WindowId| candidates.contains(window));
    lemma_filters_agree(
        windows,
        |window: WindowId| candidates.contains(window),
        is_candidate(candidates),
    );
    lemma_filter_is_part(windows, |window: WindowId| candidates.contains(window));
    lemma_missing_follow(known, candidates);
}

proof fn lemma_missing_follow(known: Seq<WindowId>, candidates: Seq<WindowId>)
    ensures
        known.is_prefix_of(with_missing(known, candidates)),
        is_part_of(with_missing(known, candidates).skip(known.len() as int), candidates),
    decreases candidates.len(),
{
    let list = with_missing(known, candidates);
    let part = list.skip(known.len() as int);
    if candidates.len() == 0 {
        assert(are_places_of(Seq::empty(), part, candidates));
    } else {
        let rest = candidates.drop_last();
        lemma_missing_follow(known, rest);
        let earlier = with_missing(known, rest);
        let earlier_part = earlier.skip(known.len() as int);
        let places = choose|places: Seq<int>| #[trigger] are_places_of(places, earlier_part, rest);
        if earlier.contains(candidates.last()) {
            assert(are_places_of(places, part, candidates));
        } else {
            assert(part =~= earlier_part.push(candidates.last()));
            assert(are_places_of(places.push(candidates.len() - 1), part, candidates));
        }
    }
}

/// An action on a display leaves the lists of all others alone, and keeps what it
/// found: after it the display's list holds exactly the windows that are there,
/// the one that cycling focuses in front. Toggling from a window of the list goes
/// to the managed one, and anything else to a window that is there, if any is.
pub proof fn law_action_stays_on_its_display(
    before: Map<Seq<char>, Seq<WindowId>>,
    after: Map<Seq<char>, Seq<WindowId>>,
    display: Seq<char>,
    candidates: Seq<WindowId>,
    current: Option<WindowId>,
    last_managed: Option<WindowId>,
    action: Action,
    target: Option<WindowId>,
    other: Seq<char>,
    window: WindowId,
)
    requires
        lists_are_unique(before),
        is_turned(before, after, display, candidates, current, last_managed, action, target),
    ensures
        other != display ==> (after.contains_key(other) <==> before.contains_key(other)),
        other != display && before.contains_key(other) ==> after[other] == before[other],
        after.contains_key(display),
        after[display].contains(window) <==> candidates.contains(window),
        ({
            let back = action is Toggle && current is Some && candidates.contains(current->0);
            &&& back ==> target == last_managed
            &&& !back ==> (target is Some <==> candidates.len() > 0)
            &&& !back && target is Some ==> candidates.contains(target->0) && after[display][0]
                == target->0
        }),
{
    let windows = list_or_empty(before, display);
    let list = reconciled(windows, candidates);
    law_reconciled_list_is_the_candidates(windows, candidates);
    lemma_step_in_range(list, current);
    lemma_rotated(list, step_after(list, current));
    let turned = list_after(windows, candidates, current, action);
    assert(turned.contains(window) <==> list.contains(window));
    if candidates.len() > 0 {
        assert(candidates.contains(candidates[0]));
        assert(list.contains(candidates[0]));
    }
    if list.len() > 0 {
        assert(list.contains(list[0]));
        assert(turned.len() == list.len());
        assert(turned.contains(turned[0]));
        assert(list.contains(turned[0]));
        assert(candidates.contains(list[0]));
    }
}

} // verus!
