//! What the command palette can offer: windows, applications and commands.

use vstd::prelude::*;

use crate::model::fuzzy;
use crate::model::fuzzy::SearchTerm;
use crate::model::ids::{WindowId, WindowServerId};
use crate::model::text;

verus! {

/// What an entry stands for. An entry keeps its identity over snapshots.
#[derive(Debug, PartialEq, Eq, Hash)]
pub enum PaletteEntryId {
    Window(WindowId),
    Application(i32),
    Command(String),
}

impl PaletteEntryId {
    pub open spec fn same_as(self, other: PaletteEntryId) -> bool {
        match (self, other) {
            (PaletteEntryId::Window(a), PaletteEntryId::Window(b)) => a == b,
            (PaletteEntryId::Application(a), PaletteEntryId::Application(b)) => a == b,
            (PaletteEntryId::Command(a), PaletteEntryId::Command(b)) => a@ == b@,
            _ => false,
        }
    }

    /// Whether both stand for the same thing.
    pub fn same(&self, other: &PaletteEntryId) -> (result: bool)
        ensures
            result == self.same_as(*other),
    {
        match (self, other) {
            (PaletteEntryId::Window(a), PaletteEntryId::Window(b)) => *a == *b,
            (PaletteEntryId::Application(a), PaletteEntryId::Application(b)) => *a == *b,
            (PaletteEntryId::Command(a), PaletteEntryId::Command(b)) => *a == *b,
            _ => false,
        }
    }
}

impl Clone for PaletteEntryId {
    fn clone(&self) -> (result: Self)
        ensures
            result == *self,
    {
        match self {
            PaletteEntryId::Window(window) => PaletteEntryId::Window(*window),
            PaletteEntryId::Application(pid) => PaletteEntryId::Application(*pid),
            PaletteEntryId::Command(name) => PaletteEntryId::Command(name.clone()),
        }
    }
}

#[derive(Debug, Clone, Copy, PartialEq, Eq, Structural)]
pub enum PaletteEntryKind {
    Window,
    Application,
    Command,
}

/// What a session of the palette is opened for.
#[derive(Debug, Clone, Copy, PartialEq, Eq, Structural)]
pub enum PaletteMode {
    Windows,
    Commands,
}

/// A layout of the layout engine, by its name.
#[derive(Debug, PartialEq, Eq)]
pub struct LayoutMode {
    pub name: String,
}

impl Clone for LayoutMode {
    fn clone(&self) -> (result: Self)
        ensures
            result == *self,
    {
        LayoutMode { name: self.name.clone() }
    }
}

/// What executing an entry does.
#[derive(Debug, PartialEq, Eq)]
pub enum PaletteAction {
    FocusWindow { window_id: WindowId, window_server_id: Option<WindowServerId> },
    ActivateApplication(i32),
    SwitchWorkspace(usize),
    MoveWindowToWorkspace(usize),
    NextWorkspace,
    PreviousWorkspace,
    LastWorkspace,
    ToggleFloating,
    ToggleFullscreen,
    ToggleFullscreenWithinGaps,
    SetLayout(LayoutMode),
    FocusDisplay(String),
    ReloadConfig,
}

impl Clone for PaletteAction {
    fn clone(&self) -> (result: Self)
        ensures
            result == *self,
    {
        match self {
            PaletteAction::FocusWindow { window_id, window_server_id } => {
                PaletteAction::FocusWindow {
                    window_id: *window_id,
                    window_server_id: *window_server_id,
                }
            },
            PaletteAction::ActivateApplication(pid) => PaletteAction::ActivateApplication(*pid),
            PaletteAction::SwitchWorkspace(index) => PaletteAction::SwitchWorkspace(*index),
            PaletteAction::MoveWindowToWorkspace(index) => {
                PaletteAction::MoveWindowToWorkspace(*index)
            },
            PaletteAction::NextWorkspace => PaletteAction::NextWorkspace,
            PaletteAction::PreviousWorkspace => PaletteAction::PreviousWorkspace,
            PaletteAction::LastWorkspace => PaletteAction::LastWorkspace,
            PaletteAction::ToggleFloating => PaletteAction::ToggleFloating,
            PaletteAction::ToggleFullscreen => PaletteAction::ToggleFullscreen,
            PaletteAction::ToggleFullscreenWithinGaps => PaletteAction::ToggleFullscreenWithinGaps,
            PaletteAction::SetLayout(mode) => PaletteAction::SetLayout(mode.clone()),
            PaletteAction::FocusDisplay(uuid) => PaletteAction::FocusDisplay(uuid.clone()),
            PaletteAction::ReloadConfig => PaletteAction::ReloadConfig,
        }
    }
}

/// How a search finds an entry: the normalized texts in which a query looks for
/// it, and what a search deducts from its score.
#[derive(Debug, PartialEq, Eq)]
pub struct SearchProfile {
    penalty: i64,
    terms: Vec<SearchTerm>,
}

impl SearchProfile {
    #[verifier::type_invariant]
    spec fn never_adds(self) -> bool {
        self.penalty >= 0
    }

    pub closed spec fn deduction(self) -> i64 {
        self.penalty
    }

    pub closed spec fn texts(self) -> Seq<Seq<char>> {
        fuzzy::term_texts(self.terms@)
    }

    /// What a search deducts, which is never negative.
    pub fn penalty(&self) -> (penalty: i64)
        ensures
            penalty == self.deduction(),
            penalty >= 0,
    {
        proof {
            use_type_invariant(self);
        }
        self.penalty
    }

    /// The best score that one of the texts has for a query.
    pub fn best_score(&self, query: &Vec<char>) -> (result: Option<i64>)
        ensures
            fuzzy::score_of(result) == fuzzy::best_value(query@, self.texts()),
    {
        fuzzy::best_term_score(query, &self.terms)
    }
}

impl Clone for SearchProfile {
    fn clone(&self) -> (result: Self)
        ensures
            result.deduction() == self.deduction(),
            result.texts() == self.texts(),
    {
        proof {
            use_type_invariant(self);
        }
        SearchProfile { penalty: self.penalty, terms: copy_terms(&self.terms) }
    }
}

/// One thing that the palette can offer.
#[derive(Debug, PartialEq, Eq)]
pub struct PaletteEntry {
    pub id: PaletteEntryId,
    pub kind: PaletteEntryKind,
    pub primary: String,
    pub secondary: String,
    pub app_pid: Option<i32>,
    pub action: PaletteAction,
    pub show_when_empty: bool,
    pub is_current_workspace: bool,
    pub is_current_display: bool,
    pub search: SearchProfile,
}

/// The lowercase forms of the given texts, without the empty ones.
pub open spec fn search_texts(sources: Seq<Seq<char>>) -> Seq<Seq<char>>
    decreases sources.len(),
{
    if sources.len() == 0 {
        Seq::empty()
    } else {
        let earlier = search_texts(sources.drop_last());
        let text = text::lowercase(sources.last());
        if text.len() == 0 {
            earlier
        } else {
            earlier.push(text)
        }
    }
}

/// The texts of a list of strings.
pub open spec fn string_texts(list: Seq<String>) -> Seq<Seq<char>> {
    list.map_values(|s: String| s@)
}

/// The texts by which an entry is found: its labels and its keywords.
pub open spec fn sources_of(primary: String, secondary: String, keywords: Vec<String>) -> Seq<
    Seq<char>,
> {
    seq![primary@, secondary@] + string_texts(keywords@)
}

/// One more text adds its lowercase form, unless that is empty.
proof fn lemma_search_texts_push(sources: Seq<Seq<char>>, value: Seq<char>)
    ensures
        search_texts(sources.push(value)) == (if text::lowercase(value).len() == 0 {
            search_texts(sources)
        } else {
            search_texts(sources).push(text::lowercase(value))
        }),
{
    assert(sources.push(value).drop_last() =~= sources);
}

/// Adds one text to the terms of a search.
fn add_search_term(terms: &mut Vec<SearchTerm>, value: &str)
    ensures
        fuzzy::term_texts(final(terms)@) == (if text::lowercase(value@).len() == 0 {
            fuzzy::term_texts(old(terms)@)
        } else {
            fuzzy::term_texts(old(terms)@).push(text::lowercase(value@))
        }),
{
    let normalized: String = text::normalize(value);
    let term: SearchTerm = SearchTerm::new(normalized.as_str());
    if !term.is_empty() {
        let ghost before = terms@;
        terms.push(term);
        assert(fuzzy::term_texts(terms@) =~= fuzzy::term_texts(before).push(term@));
    }
}

impl PaletteEntry {
    pub open spec fn terms(self) -> Seq<Seq<char>> {
        self.search.texts()
    }

    /// Whether this is a new entry: it is offered without a query too, is nowhere
    /// in particular and has no penalty.
    pub open spec fn is_made_of(
        self,
        id: PaletteEntryId,
        kind: PaletteEntryKind,
        primary: String,
        secondary: String,
        keywords: Vec<String>,
        app_pid: Option<i32>,
        action: PaletteAction,
    ) -> bool {
        &&& self.id == id
        &&& self.kind == kind
        &&& self.primary == primary
        &&& self.secondary == secondary
        &&& self.app_pid == app_pid
        &&& self.action == action
        &&& self.show_when_empty
        &&& !self.is_current_workspace
        &&& !self.is_current_display
        &&& self.search.deduction() == 0
        &&& self.terms() == search_texts(sources_of(primary, secondary, keywords))
    }

    /// The entry, offered only once something is searched for.
    pub open spec fn hidden(self) -> PaletteEntry {
        PaletteEntry { show_when_empty: false, ..self }
    }

    /// The entry, with what is known of where it is.
    pub open spec fn placed(self, current_workspace: bool, current_display: bool) -> PaletteEntry {
        PaletteEntry {
            is_current_workspace: current_workspace,
            is_current_display: current_display,
            ..self
        }
    }

    /// Whether this is the entry with the penalty, or with none if that is
    /// negative.
    pub open spec fn is_penalized(self, entry: PaletteEntry, penalty: i64) -> bool {
        &&& self == (PaletteEntry { search: self.search, ..entry })
        &&& self.search.texts() == entry.search.texts()
        &&& self.search.deduction() == (if penalty < 0 {
            0
        } else {
            penalty
        })
    }

    /// An entry that a query finds by its two labels and by the keywords.
    pub fn new(
        id: PaletteEntryId,
        kind: PaletteEntryKind,
        primary: String,
        secondary: String,
        keywords: Vec<String>,
        app_pid: Option<i32>,
        action: PaletteAction,
    ) -> (entry: Self)
        ensures
            entry.is_made_of(id, kind, primary, secondary, keywords, app_pid, action),
    {
        let mut search_terms: Vec<SearchTerm> = Vec::new();
        let ghost labels = Seq::<Seq<char>>::empty().push(primary@).push(secondary@);
        proof {
            lemma_search_texts_push(Seq::empty(), primary@);
            lemma_search_texts_push(Seq::empty().push(primary@), secondary@);
            assert(fuzzy::term_texts(search_terms@) =~= search_texts(Seq::empty()));
        }
        add_search_term(&mut search_terms, primary.as_str());
        add_search_term(&mut search_terms, secondary.as_str());
        let mut i: usize = 0;
        let ghost words = string_texts(keywords@);
        assert(labels + words.take(0) =~= labels);
        while i < keywords.len()
            invariant
                i <= keywords@.len(),
                words == string_texts(keywords@),
                fuzzy::term_texts(search_terms@) == search_texts(labels + words.take(i as int)),
            decreases keywords@.len() - i,
        {
            add_search_term(&mut search_terms, keywords[i].as_str());
            proof {
                lemma_search_texts_push(labels + words.take(i as int), keywords@[i as int]@);
                assert((labels + words.take(i as int)).push(keywords@[i as int]@) =~= labels
                    + words.take(i + 1));
            }
            i = i + 1;
        }
        assert(labels + words.take(keywords@.len() as int) =~= seq![primary@, secondary@] + words);
        PaletteEntry {
            id,
            kind,
            primary,
            secondary,
            app_pid,
            action,
            show_when_empty: true,
            is_current_workspace: false,
            is_current_display: false,
            search: SearchProfile { penalty: 0, terms: search_terms },
        }
    }

    /// The entry, offered only once something is searched for.
    pub fn hidden_when_empty(self) -> (entry: Self)
        ensures
            entry == self.hidden(),
    {
        let mut entry = self;
        entry.show_when_empty = false;
        entry
    }

    /// The entry, with what is known of where it is.
    pub fn with_location_boosts(self, current_workspace: bool, current_display: bool) -> (entry:
        Self)
        ensures
            entry == self.placed(current_workspace, current_display),
    {
        let mut entry = self;
        entry.is_current_workspace = current_workspace;
        entry.is_current_display = current_display;
        entry
    }

    /// The entry, ranked lower in searches. A negative penalty counts as none.
    pub fn with_search_penalty(self, penalty: i64) -> (entry: Self)
        ensures
            entry.is_penalized(self, penalty),
    {
        let penalty: i64 = if penalty < 0 {
            0
        } else {
            penalty
        };
        let mut entry = self;
        entry.search = SearchProfile { penalty, terms: entry.search.terms };
        entry
    }
}

fn copy_terms(terms: &Vec<SearchTerm>) -> (result: Vec<SearchTerm>)
    ensures
        fuzzy::term_texts(result@) == fuzzy::term_texts(terms@),
{
    let mut result: Vec<SearchTerm> = Vec::new();
    let mut i: usize = 0;
    while i < terms.len()
        invariant
            i <= terms@.len(),
            result@.len() == i,
            forall|j: int| 0 <= j < i ==> (#[trigger] result@[j])@ == terms@[j]@,
        decreases terms@.len() - i,
    {
        result.push(terms[i].clone());
        i = i + 1;
    }
    assert(fuzzy::term_texts(result@) =~= fuzzy::term_texts(terms@));
    result
}

impl Clone for PaletteEntry {
    fn clone(&self) -> (result: Self)
        ensures
            result == (PaletteEntry { search: result.search, ..*self }),
            result.search.deduction() == self.search.deduction(),
            result.search.texts() == self.search.texts(),
    {
        PaletteEntry {
            id: self.id.clone(),
            kind: self.kind,
            primary: self.primary.clone(),
            secondary: self.secondary.clone(),
            app_pid: self.app_pid,
            action: self.action.clone(),
            show_when_empty: self.show_when_empty,
            is_current_workspace: self.is_current_workspace,
            is_current_display: self.is_current_display,
            search: self.search.clone(),
        }
    }
}

/// What had the focus when the palette was summoned.
#[derive(Debug, Clone, Copy, PartialEq, Eq, Structural)]
pub struct PaletteFocusOrigin {
    pub app_pid: i32,
    pub window_id: Option<WindowId>,
    pub window_server_id: Option<WindowServerId>,
}

/// Everything that one session of the palette can offer.
#[derive(Debug, Clone, PartialEq)]
pub struct PaletteSnapshot {
    pub entries: Vec<PaletteEntry>,
    pub focus_origin: Option<PaletteFocusOrigin>,
    pub target_display_id: Option<u32>,
}

impl Default for PaletteSnapshot {
    fn default() -> (snapshot: Self)
        ensures
            snapshot.entries@ == Seq::<PaletteEntry>::empty(),
            snapshot.focus_origin is None,
            snapshot.target_display_id is None,
    {
        PaletteSnapshot { entries: Vec::new(), focus_origin: None, target_display_id: None }
    }
}

proof fn lemma_search_texts_members(sources: Seq<Seq<char>>, text: Seq<char>)
    ensures
        search_texts(sources).contains(text) <==> text.len() > 0 && exists|i: int|
            0 <= i < sources.len() && text::lowercase(#[trigger] sources[i]) == text,
    decreases sources.len(),
{
    if sources.len() > 0 {
        let (rest, last) = (sources.drop_last(), sources.last());
        lemma_search_texts_members(rest, text);
        let all = search_texts(sources);
        let earlier = search_texts(rest);
        assert(sources[sources.len() - 1] == last);
        if all.contains(text) {
            let k = choose|k: int| 0 <= k < all.len() && all[k] == text;
            if k < earlier.len() {
                assert(earlier[k] == text);
                assert(earlier.contains(text));
                let i = choose|i: int|
                    0 <= i < rest.len() && text::lowercase(#[trigger] rest[i]) == text;
                assert(sources[i] == rest[i]);
            }
        }
        if text.len() > 0 && exists|i: int|
            0 <= i < sources.len() && text::lowercase(#[trigger] sources[i]) == text {
            let i = choose|i: int|
                0 <= i < sources.len() && text::lowercase(#[trigger] sources[i]) == text;
            if i < rest.len() {
                assert(rest[i] == sources[i]);
                assert(earlier.contains(text));
                let k = choose|k: int| 0 <= k < earlier.len() && earlier[k] == text;
                assert(all[k] == text);
            } else {
                assert(all.last() == text);
            }
        }
    }
}

/// An entry is found by the lowercase forms of both its labels and of every
/// keyword, as far as they are not empty, and by nothing else.
pub proof fn law_entry_is_found_by(
    primary: String,
    secondary: String,
    keywords: Vec<String>,
    text: Seq<char>,
)
    ensures
        search_texts(sources_of(primary, secondary, keywords)).contains(text) <==> text.len() > 0
            && (text::lowercase(primary@) == text || text::lowercase(secondary@) == text
            || exists|i: int|
            0 <= i < keywords@.len() && text::lowercase((#[trigger] keywords@[i])@) == text),
{
    let sources = sources_of(primary, secondary, keywords);
    lemma_search_texts_members(sources, text);
    assert(sources[0] == primary@ && sources[1] == secondary@);
    if exists|i: int|
        0 <= i < sources.len() && text::lowercase(#[trigger] sources[i]) == text {
        let i = choose|i: int|
            0 <= i < sources.len() && text::lowercase(#[trigger] sources[i]) == text;
        if i >= 2 {
            assert(sources[i] == keywords@[i - 2]@);
        }
    }
    if exists|i: int|
        0 <= i < keywords@.len() && text::lowercase((#[trigger] keywords@[i])@) == text {
        let i = choose|i: int|
            0 <= i < keywords@.len() && text::lowercase((#[trigger] keywords@[i])@) == text;
        assert(sources[i + 2] == keywords@[i]@);
    }
}

} // verus!
