//! What holds of every search, selection and choice in the command palette.

use vstd::prelude::*;

#[allow(unused_imports)]
use crate::model::command_palette;
#[allow(unused_imports)]
use crate::model::command_palette::{PaletteView, ScopeView};
#[allow(unused_imports)]
use crate::model::fuzzy;
#[allow(unused_imports)]
use crate::model::ids::WindowId;
#[allow(unused_imports)]
use crate::model::palette_entry;
#[allow(unused_imports)]
use crate::model::palette_entry::{
    PaletteAction, PaletteEntry, PaletteEntryId, PaletteEntryKind, PaletteMode, PaletteSnapshot,
};
#[allow(unused_imports)]
use crate::model::palette_mru::MruView;
#[allow(unused_imports)]
use crate::model::palette_rank;
#[allow(unused_imports)]
use crate::model::palette_rank::{Admission, RankedEntry};
#[allow(unused_imports)]
use crate::model::text;

verus! {

/// Whether one entry is shown somewhere above another.
pub open spec fn is_above(view: PaletteView, upper: int, lower: int) -> bool {
    exists|i: int, j: int|
        0 <= i < j < view.results.len() && (#[trigger] view.results[i]).index == upper && (
        #[trigger] view.results[j]).index == lower
}

/// Of two entries that are shown, the one with the greater score is above.
proof fn lemma_score_decides(
    view: PaletteView,
    mru: MruView,
    upper: int,
    lower: int,
    more: int,
    less: int,
)
    requires
        view.shows_ranking(mru),
        0 <= upper < view.entries.len(),
        0 <= lower < view.entries.len(),
        palette_rank::entry_value(
            view.entries[upper],
            view.scope.admission(),
            text::tokens_of(view.normalized),
            mru,
        ) == Some(more),
        palette_rank::entry_value(
            view.entries[lower],
            view.scope.admission(),
            text::tokens_of(view.normalized),
            mru,
        ) == Some(less),
        more > less,
    ensures
        is_above(view, upper, lower),
{
    let tokens = text::tokens_of(view.normalized);
    let admission = view.scope.admission();
    let i = choose|i: int|
        0 <= i < view.results.len() && (#[trigger] view.results[i]).index == upper;
    let j = choose|j: int|
        0 <= j < view.results.len() && (#[trigger] view.results[j]).index == lower;
    assert(palette_rank::entry_value(
        view.entries[view.results[i].index as int],
        admission,
        tokens,
        mru,
    ) == Some(view.results[i].score as int));
    assert(palette_rank::entry_value(
        view.entries[view.results[j].index as int],
        admission,
        tokens,
        mru,
    ) == Some(view.results[j].score as int));
    palette_rank::law_scores_descend(view.results, view.entries, admission, tokens, mru);
    if j < i {
        assert(view.results[j].score >= view.results[i].score);
    }
}

/// All words match exactly if each does.
proof fn lemma_all_tokens(tokens: Seq<Seq<char>>, terms: Seq<Seq<char>>)
    ensures
        palette_rank::tokens_value(tokens, terms) is Some <==> forall|k: int|
            0 <= k < tokens.len() ==> fuzzy::best_value(#[trigger] tokens[k], terms) is Some,
    decreases tokens.len(),
{
    if tokens.len() > 0 {
        let rest = tokens.drop_last();
        lemma_all_tokens(rest, terms);
        assert forall|k: int| 0 <= k < rest.len() implies #[trigger] rest[k] == tokens[k] by {}
        assert(tokens[tokens.len() - 1] == tokens.last());
        if palette_rank::tokens_value(tokens, terms) is Some {
            assert forall|k: int| 0 <= k < tokens.len() implies fuzzy::best_value(
                #[trigger] tokens[k],
                terms,
            ) is Some by {
                if k < rest.len() {
                    assert(rest[k] == tokens[k]);
                }
            }
        }
    }
}

/// Whether the characters of the word occur in order in one of the texts.
pub open spec fn is_found(word: Seq<char>, terms: Seq<Seq<char>>) -> bool {
    exists|i: int| 0 <= i < terms.len() && fuzzy::embeds(#[trigger] terms[i], word)
}

/// Whether the scope has room for the entry: anything at the root, commands
/// among commands, and its own windows inside an application.
pub open spec fn is_within(entry: PaletteEntry, scope: ScopeView) -> bool {
    match scope {
        ScopeView::Root => true,
        ScopeView::Commands => entry.kind == PaletteEntryKind::Command,
        ScopeView::Application { pid, .. } => entry.kind == PaletteEntryKind::Window
            && entry.app_pid == Some(pid),
    }
}

/// A search shows exactly the entries of the scope in which every one of its
/// words is found.
pub proof fn law_search_shows_what_matches(view: PaletteView, mru: MruView, at: int)
    requires
        view.shows_ranking(mru),
        text::tokens_of(view.normalized).len() > 0,
        0 <= at < view.entries.len(),
    ensures
        view.shows(at) <==> is_within(view.entries[at], view.scope) && forall|k: int|
            0 <= k < text::tokens_of(view.normalized).len() ==> is_found(
                #[trigger] text::tokens_of(view.normalized)[k],
                view.entries[at].terms(),
            ),
{
    let tokens = text::tokens_of(view.normalized);
    let terms = view.entries[at].terms();
    command_palette::lemma_shows_what_scores(view, mru, at);
    lemma_all_tokens(tokens, terms);
    assert forall|k: int| 0 <= k < tokens.len() implies is_found(#[trigger] tokens[k], terms) == (
    fuzzy::best_value(tokens[k], terms) is Some) by {
        let word = tokens[k];
        fuzzy::law_best_term_decides(word, terms);
        if is_found(word, terms) {
            let i = choose|i: int| 0 <= i < terms.len() && fuzzy::embeds(#[trigger] terms[i], word);
            fuzzy::law_match_is_subsequence(word, terms[i]);
        }
        if fuzzy::best_value(word, terms) is Some {
            let i = choose|i: int|
                0 <= i < terms.len() && fuzzy::fuzzy_value(word, #[trigger] terms[i]) is Some;
            fuzzy::law_match_is_subsequence(word, terms[i]);
        }
    }
    if forall|k: int| 0 <= k < tokens.len() ==> is_found(#[trigger] tokens[k], terms) {
        assert forall|k: int| 0 <= k < tokens.len() implies fuzzy::best_value(
            #[trigger] tokens[k],
            terms,
        ) is Some by {
            assert(is_found(tokens[k], terms));
        }
    }
    if palette_rank::tokens_value(tokens, terms) is Some {
        assert forall|k: int| 0 <= k < tokens.len() implies is_found(
            #[trigger] tokens[k],
            terms,
        ) by {
            assert(fuzzy::best_value(tokens[k], terms) is Some);
        }
    }
}

/// Without a query the palette shows exactly the entries of the scope that are
/// not hidden then; among commands none is.
pub proof fn law_no_query_shows_what_is_not_hidden(view: PaletteView, mru: MruView, at: int)
    requires
        view.shows_ranking(mru),
        text::tokens_of(view.normalized).len() == 0,
        0 <= at < view.entries.len(),
    ensures
        view.shows(at) <==> is_within(view.entries[at], view.scope) && (
        view.entries[at].show_when_empty || view.scope is Commands),
{
    command_palette::lemma_shows_what_scores(view, mru, at);
}

/// What a word that one of the entry's texts equals scores, the rest of the query
/// aside: the highest score there is, less the entry's penalty, and more for its
/// place.
pub proof fn law_exact_word_scores_most(
    entry: PaletteEntry,
    admission: Admission,
    word: Seq<char>,
    mru: MruView,
)
    requires
        word.len() > 0,
        admission.admits(entry),
        entry.search.deduction() >= 0,
    ensures
        entry.terms().contains(word) ==> palette_rank::entry_value(
            entry,
            admission,
            seq![word],
            mru,
        ) == Some(
            10_000 - entry.search.deduction() + (if entry.is_current_workspace {
                400int
            } else if entry.is_current_display {
                200
            } else {
                0
            }),
        ),
        !entry.terms().contains(word) ==> (palette_rank::entry_value(
            entry,
            admission,
            seq![word],
            mru,
        ) matches Some(value) ==> value < 9_400),
{
    fuzzy::law_equal_term_is_best(word, entry.terms());
    assert(seq![word].drop_last() =~= Seq::empty());
    assert(seq![word].last() == word);
    reveal_with_fuel(palette_rank::tokens_value, 2);
}

/// An entry that has the one word of the query for a text is above every entry
/// that has not, wherever those are.
pub proof fn law_exact_name_is_above(
    view: PaletteView,
    mru: MruView,
    word: Seq<char>,
    exact: int,
    other: int,
)
    requires
        view.shows_ranking(mru),
        text::tokens_of(view.normalized) == seq![word],
        word.len() > 0,
        0 <= exact < view.entries.len(),
        0 <= other < view.entries.len(),
        view.shows(exact),
        view.shows(other),
        view.entries[exact].terms().contains(word),
        !view.entries[other].terms().contains(word),
        view.entries[exact].search.deduction() == 0,
        view.entries[other].search.deduction() >= 0,
    ensures
        is_above(view, exact, other),
{
    let admission = view.scope.admission();
    command_palette::lemma_shows_what_scores(view, mru, exact);
    command_palette::lemma_shows_what_scores(view, mru, other);
    law_exact_word_scores_most(view.entries[exact], admission, word, mru);
    law_exact_word_scores_most(view.entries[other], admission, word, mru);
    let more = palette_rank::entry_value(view.entries[exact], admission, seq![word], mru)->0;
    let less = palette_rank::entry_value(view.entries[other], admission, seq![word], mru)->0;
    lemma_score_decides(view, mru, exact, other, more, less);
}

/// An entry on the current workspace scores four hundred more than it would
/// elsewhere, and one on the current display alone two hundred.
pub proof fn law_place_raises_score(
    entry: PaletteEntry,
    admission: Admission,
    tokens: Seq<Seq<char>>,
    mru: MruView,
)
    requires
        !entry.is_current_workspace,
        !entry.is_current_display,
        palette_rank::entry_value(entry, admission, tokens, mru) is Some,
        palette_rank::entry_value(entry, admission, tokens, mru)->0 <= i64::MAX - 400,
    ensures
        ({
            let score = palette_rank::entry_value(entry, admission, tokens, mru)->0;
            &&& palette_rank::entry_value(
                (PaletteEntry { is_current_workspace: true, ..entry }),
                admission,
                tokens,
                mru,
            ) == Some(score + 400)
            &&& palette_rank::entry_value(
                (PaletteEntry { is_current_workspace: true, is_current_display: true, ..entry }),
                admission,
                tokens,
                mru,
            ) == Some(score + 400)
            &&& palette_rank::entry_value(
                (PaletteEntry { is_current_display: true, ..entry }),
                admission,
                tokens,
                mru,
            ) == Some(score + 200)
        }),
{
}

/// A search deducts an entry's penalty from its score.
pub proof fn law_penalty_lowers_score(
    entry: PaletteEntry,
    other: PaletteEntry,
    admission: Admission,
    tokens: Seq<Seq<char>>,
    mru: MruView,
)
    requires
        other == (PaletteEntry { search: other.search, ..entry }),
        other.terms() == entry.terms(),
        tokens.len() > 0,
        palette_rank::entry_value(entry, admission, tokens, mru) is Some,
        i64::MIN + 400 < palette_rank::entry_value(entry, admission, tokens, mru)->0 < i64::MAX,
        palette_rank::entry_value(other, admission, tokens, mru) is Some ==> i64::MIN + 400
            < palette_rank::entry_value(other, admission, tokens, mru)->0 < i64::MAX,
    ensures
        palette_rank::entry_value(other, admission, tokens, mru) is Some,
        palette_rank::entry_value(other, admission, tokens, mru)->0 + other.search.deduction()
            == palette_rank::entry_value(entry, admission, tokens, mru)->0
            + entry.search.deduction(),
{
}

/// When the window or the application of an entry last had the focus, if ever.
pub open spec fn last_focus(id: PaletteEntryId, mru: MruView) -> Option<u64> {
    match id {
        PaletteEntryId::Window(window) if mru.windows.contains_key(window) => Some(
            mru.windows[window],
        ),
        PaletteEntryId::Application(pid) if mru.applications.contains_key(pid) => Some(
            mru.applications[pid],
        ),
        _ => None,
    }
}

/// Without a query what had the focus is above whatever never had it, wherever
/// that is, and of two that had it at places that count the same the later one
/// is above.
pub proof fn law_focus_decides_without_query(
    view: PaletteView,
    mru: MruView,
    upper: int,
    lower: int,
)
    requires
        view.shows_ranking(mru),
        text::tokens_of(view.normalized).len() == 0,
        0 <= upper < view.entries.len(),
        0 <= lower < view.entries.len(),
        view.shows(upper),
        view.shows(lower),
        last_focus(view.entries[upper].id, mru) is Some,
        last_focus(view.entries[upper].id, mru)->0 < i64::MAX - 1_400,
        last_focus(view.entries[lower].id, mru) matches Some(earlier) ==> {
            &&& earlier < last_focus(view.entries[upper].id, mru)->0
            &&& view.entries[upper].is_current_workspace == view.entries[lower].is_current_workspace
            &&& view.entries[upper].is_current_display == view.entries[lower].is_current_display
        },
    ensures
        is_above(view, upper, lower),
{
    let admission = view.scope.admission();
    let tokens = text::tokens_of(view.normalized);
    command_palette::lemma_shows_what_scores(view, mru, upper);
    command_palette::lemma_shows_what_scores(view, mru, lower);
    let more = palette_rank::entry_value(view.entries[upper], admission, tokens, mru)->0;
    let less = palette_rank::entry_value(view.entries[lower], admission, tokens, mru)->0;
    lemma_score_decides(view, mru, upper, lower, more, less);
}

/// Of two results with the same score, one directly above the other, commands
/// are in the order of the snapshot, and otherwise no label comes before the one
/// above it; with equal labels the snapshot decides.
pub proof fn law_label_breaks_ties(view: PaletteView, mru: MruView, i: int)
    requires
        view.shows_ranking(mru),
        0 <= i < view.results.len() - 1,
        view.results[i].score == view.results[i + 1].score,
    ensures
        ({
            let (upper, lower) = (view.result_entry(i), view.result_entry(i + 1));
            let both = upper.kind == PaletteEntryKind::Command && lower.kind
                == PaletteEntryKind::Command;
            &&& both ==> view.results[i].index < view.results[i + 1].index
            &&& !both ==> !text::text_before(lower.primary@, upper.primary@)
            &&& !both && lower.primary@ == upper.primary@ ==> view.results[i].index
                < view.results[i + 1].index
        }),
{
    let j = i + 1;
    assert(palette_rank::ranks_before(view.entries, view.results[i], view.results[j]));
    text::lemma_text_order_total(
        view.result_entry(i).primary@,
        view.result_entry(i + 1).primary@,
    );
}

/// Among results without commands labels come in order wherever scores are the
/// same.
pub proof fn law_labels_order_ties(view: PaletteView, mru: MruView, i: int, j: int)
    requires
        view.shows_ranking(mru),
        forall|k: int|
            0 <= k < view.results.len() ==> view.entries[(
            #[trigger] view.results[k]).index as int].kind != PaletteEntryKind::Command,
        0 <= i < j < view.results.len(),
        view.results[i].score == view.results[j].score,
    ensures
        !text::text_before(view.result_entry(j).primary@, view.result_entry(i).primary@),
        view.result_entry(j).primary@ == view.result_entry(i).primary@ ==> view.results[i].index
            < view.results[j].index,
{
    palette_rank::law_uniform_ties_agree(view.entries, view.results);
    palette_rank::law_results_fully_ordered(
        view.results,
        view.entries,
        view.scope.admission(),
        text::tokens_of(view.normalized),
        mru,
    );
    assert(palette_rank::ranks_before(view.entries, view.results[i], view.results[j]));
    text::lemma_text_order_total(view.result_entry(i).primary@, view.result_entry(j).primary@);
}

/// An application is activated through the window that had the focus last, if the
/// snapshot lists it, whatever the places and the order of its windows.
pub proof fn law_last_focused_window_is_preferred(
    entries: Seq<PaletteEntry>,
    pid: i32,
    mru: MruView,
    window: WindowId,
    at: int,
    action: Option<PaletteAction>,
)
    requires
        mru.is_history(),
        mru.sequence < u64::MAX,
        0 <= at < entries.len(),
        entries[at].id == PaletteEntryId::Window(window),
        entries[at].kind == PaletteEntryKind::Window,
        entries[at].app_pid == Some(pid),
        command_palette::is_preferred_action(entries, pid, mru.recorded(window), action),
    ensures
        action is Some,
        exists|i: int|
            0 <= i < entries.len() && (#[trigger] entries[i]).id == PaletteEntryId::Window(window)
                && entries[i].kind == PaletteEntryKind::Window && entries[i].app_pid == Some(pid)
                && entries[i].action == action->0,
{
    let after = mru.recorded(window);
    assert(command_palette::is_window_of(entries[at], pid));
    let chosen = choose|chosen: int|
        command_palette::is_preferred_window(entries, pid, after, chosen)
            && entries[chosen].action == action->0;
    assert(!command_palette::key_before(
        command_palette::preference_key(entries[chosen], after),
        command_palette::preference_key(entries[at], after),
    ));
    match entries[chosen].id {
        PaletteEntryId::Window(other) => {
            if other != window && mru.windows.contains_key(other) {
                assert(mru.windows[other] <= mru.sequence);
            }
        },
        _ => {},
    }
    assert(entries[chosen].id == PaletteEntryId::Window(window));
}

/// No window of the application had the focus after the preferred one. Where none
/// ever had it, one on the current workspace is preferred to all others, then
/// one on the current display, and then the last in the snapshot. An application
/// without windows has no preferred one.
pub proof fn law_preferred_window_is_the_latest(
    entries: Seq<PaletteEntry>,
    pid: i32,
    mru: MruView,
    action: Option<PaletteAction>,
)
    requires
        command_palette::is_preferred_action(entries, pid, mru, action),
        forall|i: int|
            0 <= i < entries.len() && (#[trigger] entries[i]).kind == PaletteEntryKind::Window
                ==> entries[i].id is Window,
    ensures
        action is None <==> forall|i: int|
            0 <= i < entries.len() ==> !((#[trigger] entries[i]).kind == PaletteEntryKind::Window
                && entries[i].app_pid == Some(pid)),
        action is Some ==> exists|at: int| {
            &&& 0 <= at < entries.len()
            &&& (#[trigger] entries[at]).action == action->0
            &&& entries[at].kind == PaletteEntryKind::Window
            &&& entries[at].app_pid == Some(pid)
            &&& forall|i: int|
                0 <= i < entries.len() && (#[trigger] entries[i]).kind == PaletteEntryKind::Window
                    && entries[i].app_pid == Some(pid) ==> is_no_better(
                    entries[i],
                    entries[at],
                    mru,
                    i > at,
                )
        },
{
    if action is Some {
        let at = choose|at: int|
            command_palette::is_preferred_window(entries, pid, mru, at) && entries[at].action
                == action->0;
        assert forall|i: int|
            0 <= i < entries.len() && (#[trigger] entries[i]).kind == PaletteEntryKind::Window
                && entries[i].app_pid == Some(pid) implies is_no_better(
            entries[i],
            entries[at],
            mru,
            i > at,
        ) by {
            assert(command_palette::is_window_of(entries[i], pid));
        }
        assert(entries[at].action == action->0);
    } else {
        assert forall|i: int| 0 <= i < entries.len() implies !((#[trigger] entries[i]).kind
            == PaletteEntryKind::Window && entries[i].app_pid == Some(pid)) by {
            assert(!command_palette::is_window_of(entries[i], pid));
        }
    }
}

/// Whether a window has no claim over another: an earlier focus, or the same with
/// a lesser place, or the same in all that without being later in the snapshot.
pub open spec fn is_no_better(
    entry: PaletteEntry,
    other: PaletteEntry,
    mru: MruView,
    later: bool,
) -> bool {
    match (last_focus(entry.id, mru), last_focus(other.id, mru)) {
        (Some(one), Some(two)) => one < two || (one == two && is_placed_no_better(
            entry,
            other,
            later,
        )),
        (None, Some(_)) => is_placed_no_better(entry, other, later) || last_focus(
            other.id,
            mru,
        )->0 > 0,
        (Some(one), None) => one == 0 && is_placed_no_better(entry, other, later),
        (None, None) => is_placed_no_better(entry, other, later),
    }
}

/// The same for places alone.
pub open spec fn is_placed_no_better(entry: PaletteEntry, other: PaletteEntry, later: bool) -> bool {
    if entry.is_current_workspace != other.is_current_workspace {
        other.is_current_workspace
    } else if entry.is_current_display != other.is_current_display {
        other.is_current_display
    } else {
        !later
    }
}

/// Moving the selection goes to the neighbour, from one end of the results to the
/// other, and steps add up. Nothing but the selection moves.
pub proof fn law_moving_goes_to_neighbours(view: PaletteView, first: int, second: int)
    requires
        view.is_consistent(),
        view.results.len() <= usize::MAX,
    ensures
        view.selection matches Some(at) ==> {
            let last = (view.results.len() - 1) as usize;
            &&& view.moved(1).selection == Some(
                if at == last {
                    0usize
                } else {
                    (at + 1) as usize
                },
            )
            &&& view.moved(-1).selection == Some(
                if at == 0 {
                    last
                } else {
                    (at - 1) as usize
                },
            )
        },
        view.moved(0) == view,
        view.moved(first).moved(second) == view.moved(first + second),
        view.moved(first).same_setting(view),
        view.moved(first).results == view.results,
        view.moved(first).is_consistent(),
{
    if let Some(at) = view.selection {
        let (at, len) = (at as int, view.results.len() as int);
        vstd::arithmetic::div_mod::lemma_small_mod(at as nat, len as nat);
        vstd::arithmetic::div_mod::lemma_add_mod_noop(at + first, second, len);
        vstd::arithmetic::div_mod::lemma_mod_bound(at + first, len);
        vstd::arithmetic::div_mod::lemma_add_mod_noop((at + first) % len, second, len);
        vstd::arithmetic::div_mod::lemma_mod_twice(at + first, len);
        if at + 1 < len {
            vstd::arithmetic::div_mod::lemma_small_mod((at + 1) as nat, len as nat);
        } else {
            vstd::arithmetic::div_mod::lemma_mod_self_0(len);
        }
        if at > 0 {
            vstd::arithmetic::div_mod::lemma_small_mod((at - 1) as nat, len as nat);
        } else {
            vstd::arithmetic::div_mod::lemma_small_mod((len - 1) as nat, len as nat);
            vstd::arithmetic::div_mod::lemma_mod_add_multiples_vanish(-1, len);
        }
    }
}

/// A result that is selected by its place is the selected one, and a place without
/// a result changes nothing.
pub proof fn law_selecting_takes_the_result(view: PaletteView, index: usize)
    requires
        view.is_consistent(),
    ensures
        index < view.results.len() ==> view.with_selection(index).selected() == Some(
            view.entries[view.results[index as int].index as int],
        ),
        index >= view.results.len() ==> view.with_selection(index) == view,
        view.with_selection(index).same_setting(view),
        view.with_selection(index).results == view.results,
        view.with_selection(index).is_consistent(),
{
}

/// An application can be expanded exactly if it is selected and its process is
/// known. Inside it the palette shows its windows, less those that are hidden
/// without a query, and the first of them is selected.
pub proof fn law_expanding_shows_the_windows(before: PaletteView, after: PaletteView, mru: MruView)
    requires
        before.is_consistent(),
    ensures
        before.expandable() is Some <==> before.selection is Some && {
            let entry = before.entries[before.results[before.selection->0 as int].index as int];
            entry.kind == PaletteEntryKind::Application && entry.app_pid is Some
        },
        before.expandable() is Some && after.is_expanded(before, mru) ==> {
            let pid = before.entries[
                before.results[before.selection->0 as int].index as int
            ].app_pid;
            &&& after.query.len() == 0
            &&& after.entries == before.entries
            &&& forall|at: int|
                0 <= at < after.entries.len() ==> (#[trigger] after.shows(at) <==> {
                    &&& after.entries[at].kind == PaletteEntryKind::Window
                    &&& after.entries[at].app_pid == pid
                    &&& after.entries[at].show_when_empty
                })
            &&& after.selection == (if after.results.len() == 0 {
                None
            } else {
                Some(0usize)
            })
        },
{
    if before.expandable() is Some && after.is_expanded(before, mru) {
        assert(text::tokens_of(after.normalized).len() == 0);
        assert forall|at: int| 0 <= at < after.entries.len() implies (#[trigger] after.shows(at)
            <==> {
            &&& after.entries[at].kind == PaletteEntryKind::Window
            &&& after.entries[at].app_pid == before.entries[
                before.results[before.selection->0 as int].index as int
            ].app_pid
            &&& after.entries[at].show_when_empty
        }) by {
            law_no_query_shows_what_is_not_hidden(after, mru, at);
        }
    }
}

/// A session for windows begins with everything that is not hidden without a
/// query, and one for commands with every command.
pub proof fn law_session_begins_with(
    view: PaletteView,
    snapshot: PaletteSnapshot,
    mru: MruView,
    mode: PaletteMode,
)
    requires
        view.is_begun(snapshot, mru, mode),
    ensures
        view.query.len() == 0,
        view.entries == snapshot.entries@,
        view.focus_origin == snapshot.focus_origin,
        view.target_display_id == snapshot.target_display_id,
        forall|at: int|
            0 <= at < snapshot.entries@.len() ==> (#[trigger] view.shows(at) <==> match mode {
                PaletteMode::Windows => snapshot.entries@[at].show_when_empty,
                PaletteMode::Commands => snapshot.entries@[at].kind == PaletteEntryKind::Command,
            }),
{
    assert(text::tokens_of(view.normalized).len() == 0);
    assert forall|at: int| 0 <= at < snapshot.entries@.len() implies (#[trigger] view.shows(at)
        <==> match mode {
        PaletteMode::Windows => snapshot.entries@[at].show_when_empty,
        PaletteMode::Commands => snapshot.entries@[at].kind == PaletteEntryKind::Command,
    }) by {
        law_no_query_shows_what_is_not_hidden(view, mru, at);
    }
}

/// A new snapshot leaves query and scope alone. If what was selected is no longer
/// shown, the first result is selected.
pub proof fn law_refresh_keeps_the_search(
    before: PaletteView,
    after: PaletteView,
    snapshot: PaletteSnapshot,
    mru: MruView,
)
    requires
        after.is_refreshed(before, snapshot, mru),
    ensures
        after.query == before.query,
        after.normalized == before.normalized,
        after.scope == before.scope,
        after.entries == snapshot.entries@,
        after.focus_origin == snapshot.focus_origin,
        after.target_display_id == snapshot.target_display_id,
        after.selection is None <==> after.results.len() == 0,
        after.results.len() > 0 && (forall|i: int|
            0 <= i < after.results.len() ==> (before.selected_id() matches Some(id)
                ==> !after.entries[(#[trigger] after.results[i]).index as int].id.same_as(id)))
            ==> after.selection == Some(0usize),
{
}

/// Two entries stand for the same thing exactly if they are the same window, the
/// same application or the command of the same name.
pub proof fn law_identity_of_entries(one: PaletteEntryId, other: PaletteEntryId)
    ensures
        one.same_as(other) <==> {
            ||| one matches PaletteEntryId::Window(window) && other == PaletteEntryId::Window(
                window,
            )
            ||| one matches PaletteEntryId::Application(pid) && other
                == PaletteEntryId::Application(pid)
            ||| one matches PaletteEntryId::Command(name) && (other matches PaletteEntryId::Command(
                another,
            ) && name@ == another@)
        },
{
}

/// A hidden entry is not shown without a query, except among commands, and is
/// found by the same queries as before, with the same score.
pub proof fn law_hidden_entry_waits_for_a_query(
    entry: PaletteEntry,
    admission: Admission,
    tokens: Seq<Seq<char>>,
    mru: MruView,
)
    ensures
        tokens.len() == 0 && admission != Admission::Commands ==> palette_rank::entry_value(
            entry.hidden(),
            admission,
            tokens,
            mru,
        ) is None,
        tokens.len() > 0 || admission == Admission::Commands ==> palette_rank::entry_value(
            entry.hidden(),
            admission,
            tokens,
            mru,
        ) == palette_rank::entry_value(entry, admission, tokens, mru),
{
}

/// An entry that is told to be on the current workspace scores four hundred more
/// than elsewhere, and one on the current display alone two hundred.
pub proof fn law_placed_entry_scores_more(
    entry: PaletteEntry,
    admission: Admission,
    tokens: Seq<Seq<char>>,
    mru: MruView,
    display: bool,
)
    requires
        palette_rank::entry_value(entry.placed(false, false), admission, tokens, mru) is Some,
        palette_rank::entry_value(entry.placed(false, false), admission, tokens, mru)->0
            <= i64::MAX - 400,
    ensures
        ({
            let score = palette_rank::entry_value(
                entry.placed(false, false),
                admission,
                tokens,
                mru,
            )->0;
            &&& palette_rank::entry_value(entry.placed(true, display), admission, tokens, mru)
                == Some(score + 400)
            &&& palette_rank::entry_value(entry.placed(false, true), admission, tokens, mru)
                == Some(score + 200)
        }),
{
}

/// A penalty lowers an entry's score in every search by as much, and a negative
/// one leaves it alone. Nothing changes without a query.
pub proof fn law_penalized_entry_scores_less(
    entry: PaletteEntry,
    penalized: PaletteEntry,
    penalty: i64,
    admission: Admission,
    tokens: Seq<Seq<char>>,
    mru: MruView,
)
    requires
        entry.search.deduction() == 0,
        penalized.is_penalized(entry, penalty),
        palette_rank::entry_value(entry, admission, tokens, mru) is Some,
        i64::MIN + 400 < palette_rank::entry_value(entry, admission, tokens, mru)->0 < i64::MAX,
        i64::MIN + 400 < palette_rank::entry_value(entry, admission, tokens, mru)->0 - penalty,
    ensures
        palette_rank::entry_value(penalized, admission, tokens, mru) == Some(
            palette_rank::entry_value(entry, admission, tokens, mru)->0 - (if tokens.len() == 0
                || penalty < 0 {
                0int
            } else {
                penalty as int
            }),
        ),
{
}

/// The sum of the scores of a query's words decides how well an entry matches:
/// one word more adds what it scores by itself.
pub proof fn law_words_add_up(tokens: Seq<Seq<char>>, word: Seq<char>, terms: Seq<Seq<char>>)
    ensures
        palette_rank::tokens_value(Seq::empty(), terms) == Some(0int),
        palette_rank::tokens_value(tokens.push(word), terms) == (match (
            palette_rank::tokens_value(tokens, terms),
            fuzzy::best_value(word, terms),
        ) {
            (Some(total), Some(score)) => Some(total + score),
            _ => None,
        }),
{
    assert(tokens.push(word).drop_last() =~= tokens);
}

/// A new entry stands for what it was made for. It is offered without a query, and
/// a query of one word that is the lowercase form of one of its labels or keywords
/// finds it with the highest score there is.
pub proof fn law_new_entry_is_found_by_its_name(
    entry: PaletteEntry,
    id: PaletteEntryId,
    kind: PaletteEntryKind,
    primary: String,
    secondary: String,
    keywords: Vec<String>,
    app_pid: Option<i32>,
    action: PaletteAction,
    word: Seq<char>,
    mru: MruView,
)
    requires
        entry.is_made_of(id, kind, primary, secondary, keywords, app_pid, action),
        word.len() > 0,
        word == text::lowercase(primary@) || word == text::lowercase(secondary@) || exists|i: int|
            0 <= i < keywords@.len() && text::lowercase((#[trigger] keywords@[i])@) == word,
    ensures
        entry.id == id && entry.kind == kind && entry.app_pid == app_pid && entry.action == action,
        entry.primary == primary && entry.secondary == secondary,
        palette_rank::entry_value(entry, Admission::All, Seq::empty(), mru) == Some(mru.score(id)),
        palette_rank::entry_value(entry, Admission::All, seq![word], mru) == Some(10_000int),
{
    palette_entry::law_entry_is_found_by(primary, secondary, keywords, word);
    law_exact_word_scores_most(entry, Admission::All, word, mru);
}

/// The score of an entry that is shown: what its words score together, less its
/// penalty, or without words what its last focus scores; and in either case more
/// for its place. Scores beyond the range of numbers aside, there is nothing else
/// to it.
pub proof fn law_score_is_the_sum_of_its_parts(
    entry: PaletteEntry,
    scope: ScopeView,
    tokens: Seq<Seq<char>>,
    mru: MruView,
)
    requires
        is_within(entry, scope),
        -0x4000_0000_0000_0000 < entry.search.deduction() < 0x4000_0000_0000_0000,
    ensures
        ({
            let value = palette_rank::entry_value(entry, scope.admission(), tokens, mru);
            let place = if entry.is_current_workspace {
                400int
            } else if entry.is_current_display {
                200
            } else {
                0
            };
            &&& tokens.len() == 0 && (entry.show_when_empty || scope is Commands) && mru.score(
                entry.id,
            ) <= i64::MAX - 400 ==> value == Some(mru.score(entry.id) + place)
            &&& tokens.len() > 0 ==> match palette_rank::tokens_value(tokens, entry.terms()) {
                None => value is None,
                Some(total) => -0x4000_0000_0000_0000 < total < 0x3fff_ffff_ffff_0000
                    ==> value == Some(total - entry.search.deduction() + place),
            }
        }),
{
}

} // verus!
