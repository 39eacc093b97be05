//! Which entries a query shows, and in which order.

use vstd::prelude::*;

use crate::model::fuzzy;
use crate::model::palette_entry::{PaletteEntry, PaletteEntryKind};
use crate::model::palette_mru::PaletteMru;
#[allow(unused_imports)]
use crate::model::palette_mru::MruView;
use crate::model::text;

verus! {

/// What an entry on the current workspace scores above others.
pub const CURRENT_WORKSPACE_BOOST: i64 = 400;

/// What an entry on the current display scores above others.
pub const CURRENT_DISPLAY_BOOST: i64 = 200;

/// Which entries are on offer.
#[derive(Debug, Clone, Copy, PartialEq, Eq, Structural)]
pub enum Admission {
    /// All of them.
    All,
    /// Commands, also those that an empty query would hide.
    Commands,
    /// The windows of one application.
    WindowsOf(i32),
}

impl Admission {
    pub open spec fn admits(self, entry: PaletteEntry) -> bool {
        match self {
            Admission::All => true,
            Admission::Commands => entry.kind == PaletteEntryKind::Command,
            Admission::WindowsOf(pid) => entry.kind == PaletteEntryKind::Window && entry.app_pid
                == Some(pid),
        }
    }

    fn allows(self, entry: &PaletteEntry) -> (result: bool)
        ensures
            result == self.admits(*entry),
    {
        match self {
            Admission::All => true,
            Admission::Commands => entry.kind == PaletteEntryKind::Command,
            Admission::WindowsOf(pid) => entry.kind == PaletteEntryKind::Window
                && match entry.app_pid {
                Some(owner) => owner == pid,
                None => false,
            },
        }
    }
}

/// An entry that a query shows, by its place in the snapshot, with its score.
#[derive(Debug, Clone, Copy, PartialEq, Eq, Structural)]
pub struct RankedEntry {
    pub index: usize,
    pub score: i64,
}

/// The sum of the best scores of all tokens, if each of them matches.
pub open spec fn tokens_value(tokens: Seq<Seq<char>>, terms: Seq<Seq<char>>) -> Option<int>
    decreases tokens.len(),
{
    if tokens.len() == 0 {
        Some(0int)
    } else {
        match (
            tokens_value(tokens.drop_last(), terms),
            fuzzy::best_value(tokens.last(), terms),
        ) {
            (Some(total), Some(score)) => Some(total + score),
            _ => None,
        }
    }
}

/// What the entry's place adds to its score.
pub open spec fn location_value(entry: PaletteEntry) -> int {
    if entry.is_current_workspace {
        CURRENT_WORKSPACE_BOOST as int
    } else if entry.is_current_display {
        CURRENT_DISPLAY_BOOST as int
    } else {
        0
    }
}

/// The score of an entry, or `None` if the query does not show it. Without
/// tokens the recency of its focus decides; with tokens all must match.
pub open spec fn entry_value(
    entry: PaletteEntry,
    admission: Admission,
    tokens: Seq<Seq<char>>,
    mru: MruView,
) -> Option<int> {
    let base = if tokens.len() == 0 {
        if entry.show_when_empty || admission == Admission::Commands {
            Some(mru.score(entry.id))
        } else {
            None
        }
    } else {
        match tokens_value(tokens, entry.terms()) {
            Some(total) => Some(fuzzy::clamp_score(total - entry.search.deduction())),
            None => None,
        }
    };
    match base {
        Some(base) if admission.admits(entry) => Some(
            fuzzy::clamp_score(base + location_value(entry)),
        ),
        _ => None,
    }
}

/// Whether `left` is shown above `right`: a higher score first, then commands
/// in the order of the snapshot, and anything else by its label and, with equal
/// labels, in the order of the snapshot.
pub open spec fn ranks_before(
    entries: Seq<PaletteEntry>,
    left: RankedEntry,
    right: RankedEntry,
) -> bool {
    let a = entries[left.index as int];
    let b = entries[right.index as int];
    if left.score != right.score {
        left.score > right.score
    } else if a.kind == PaletteEntryKind::Command && b.kind == PaletteEntryKind::Command {
        left.index < right.index
    } else {
        ||| text::text_before(a.primary@, b.primary@)
        ||| a.primary@ == b.primary@ && left.index < right.index
    }
}

/// Whether each item is shown above the next one.
pub open spec fn in_rank_order(entries: Seq<PaletteEntry>, items: Seq<RankedEntry>) -> bool {
    forall|i: int, j: int|
        0 <= i && j == i + 1 && j < items.len() ==> ranks_before(
            entries,
            #[trigger] items[i],
            #[trigger] items[j],
        )
}

/// Whether all items stand for entries.
pub open spec fn indices_valid(entries: Seq<PaletteEntry>, items: Seq<RankedEntry>) -> bool {
    forall|i: int| 0 <= i < items.len() ==> (#[trigger] items[i]).index < entries.len()
}

/// Whether the items come in the order of the snapshot.
pub open spec fn in_snapshot_order(items: Seq<RankedEntry>) -> bool {
    forall|i: int, j: int| 0 <= i < j < items.len() ==> items[i].index < items[j].index
}

/// The results of a query: exactly the entries that it shows, each once with its
/// score, and each above the next by rank.
pub open spec fn is_ranking(
    results: Seq<RankedEntry>,
    entries: Seq<PaletteEntry>,
    admission: Admission,
    tokens: Seq<Seq<char>>,
    mru: MruView,
) -> bool {
    &&& indices_valid(entries, results)
    &&& forall|i: int|
        0 <= i < results.len() ==> entry_value(
            entries[(#[trigger] results[i]).index as int],
            admission,
            tokens,
            mru,
        ) == Some(results[i].score as int)
    &&& forall|at: int|
        0 <= at < entries.len() && entry_value(#[trigger] entries[at], admission, tokens, mru)
            is Some ==> exists|i: int| 0 <= i < results.len() && (#[trigger] results[i]).index == at
    &&& forall|i: int, j: int|
        0 <= i < j < results.len() ==> results[i].index != results[j].index
    &&& in_rank_order(entries, results)
}

/// The nearest `i64`.
fn to_score(value: i128) -> (score: i64)
    ensures
        score == fuzzy::clamp_score(value as int),
{
    if value > i64::MAX as i128 {
        i64::MAX
    } else if value < i64::MIN as i128 {
        i64::MIN
    } else {
        value as i64
    }
}

/// If a token is not found, no longer query is.
proof fn lemma_tokens_none(tokens: Seq<Seq<char>>, terms: Seq<Seq<char>>, i: int)
    requires
        0 <= i <= tokens.len(),
        tokens_value(tokens.take(i), terms) is None,
    ensures
        tokens_value(tokens, terms) is None,
    decreases tokens.len() - i,
{
    if i < tokens.len() {
        assert(tokens.take(i + 1).drop_last() =~= tokens.take(i));
        lemma_tokens_none(tokens, terms, i + 1);
    } else {
        assert(tokens.take(i) =~= tokens);
    }
}

/// An optional sum of scores as a mathematical number.
pub open spec fn sum_of(result: Option<i128>) -> Option<int> {
    match result {
        None => None,
        Some(value) => Some(value as int),
    }
}

fn tokens_score(tokens: &Vec<Vec<char>>, entry: &PaletteEntry) -> (result: Option<i128>)
    ensures
        sum_of(result) == tokens_value(text::texts(tokens@), entry.terms()),
        result matches Some(sum) ==> -(u64::MAX * 0x8000_0000_0000_0000) <= sum <= u64::MAX
            * i64::MAX,
{
    let mut total: i128 = 0;
    let mut i: usize = 0;
    let count: usize = tokens.len();
    let ghost all = text::texts(tokens@);
    while i < count
        invariant
            i <= count == tokens@.len(),
            all == text::texts(tokens@),
            tokens_value(all.take(i as int), entry.terms()) == Some(total as int),
            -(i * 0x8000_0000_0000_0000) <= total <= i * i64::MAX,
        decreases tokens@.len() - i,
    {
        proof {
            assert(all.take(i + 1).drop_last() =~= all.take(i as int));
            assert(all.take(i + 1).last() == tokens@[i as int]@);
        }
        match entry.search.best_score(&tokens[i]) {
            None => {
                proof {
                    lemma_tokens_none(all, entry.terms(), i + 1);
                }
                return None;
            },
            Some(score) => {
                total = total + score as i128;
            },
        }
        i = i + 1;
    }
    assert(all.take(tokens@.len() as int) =~= all);
    Some(total)
}

/// The score of an entry, or `None` if the query does not show it.
pub fn entry_score(
    entry: &PaletteEntry,
    admission: Admission,
    tokens: &Vec<Vec<char>>,
    mru: &PaletteMru,
) -> (result: Option<i64>)
    ensures
        fuzzy::score_of(result) == entry_value(*entry, admission, text::texts(tokens@), mru@),
{
    if !admission.allows(entry) {
        return None;
    }
    let base: i64 = if tokens.len() == 0 {
        if !(entry.show_when_empty || admission == Admission::Commands) {
            return None;
        }
        mru.score(&entry.id)
    } else {
        match tokens_score(tokens, entry) {
            None => {
                return None;
            },
            Some(total) => to_score(total - entry.search.penalty() as i128),
        }
    };
    let location: i64 = if entry.is_current_workspace {
        CURRENT_WORKSPACE_BOOST
    } else if entry.is_current_display {
        CURRENT_DISPLAY_BOOST
    } else {
        0
    };
    Some(to_score(base as i128 + location as i128))
}

/// Whether the later item of the snapshot has to be shown above the earlier one.
fn overtakes(entries: &Vec<PaletteEntry>, later: RankedEntry, earlier: RankedEntry) -> (result:
    bool)
    requires
        later.index < entries@.len(),
        earlier.index < later.index,
    ensures
        result == ranks_before(entries@, later, earlier),
        !result ==> ranks_before(entries@, earlier, later),
{
    if later.score != earlier.score {
        return later.score > earlier.score;
    }
    let a: &PaletteEntry = &entries[later.index];
    let b: &PaletteEntry = &entries[earlier.index];
    if a.kind == PaletteEntryKind::Command && b.kind == PaletteEntryKind::Command {
        return false;
    }
    proof {
        text::lemma_text_order_total(a.primary@, b.primary@);
    }
    text::precedes(a.primary.as_str(), b.primary.as_str())
}

/// Two lists merged by rank. Where no rank decides, the first list comes first.
spec fn merged(
    entries: Seq<PaletteEntry>,
    left: Seq<RankedEntry>,
    right: Seq<RankedEntry>,
) -> Seq<RankedEntry>
    decreases left.len() + right.len(),
{
    if left.len() == 0 {
        right
    } else if right.len() == 0 {
        left
    } else if ranks_before(entries, right[0], left[0]) {
        seq![right[0]] + merged(entries, left, right.drop_first())
    } else {
        seq![left[0]] + merged(entries, left.drop_first(), right)
    }
}

/// A list, given in snapshot order, brought into rank order. Where the rules of
/// rank contradict each other, they leave more than one order open; which of them
/// it is depends on the entries and their scores alone.
pub closed spec fn arranged(entries: Seq<PaletteEntry>, items: Seq<RankedEntry>) -> Seq<RankedEntry>
    decreases items.len(),
{
    if items.len() <= 1 {
        items
    } else {
        let middle = items.len() as int / 2;
        merged(
            entries,
            arranged(entries, items.subrange(0, middle)),
            arranged(entries, items.subrange(middle, items.len() as int)),
        )
    }
}

/// The first `count` entries as far as a query shows them, in snapshot order.
pub open spec fn shown_among(
    entries: Seq<PaletteEntry>,
    admission: Admission,
    tokens: Seq<Seq<char>>,
    mru: MruView,
    count: nat,
) -> Seq<RankedEntry>
    decreases count,
{
    if count == 0 {
        Seq::empty()
    } else {
        let earlier = shown_among(entries, admission, tokens, mru, (count - 1) as nat);
        match entry_value(entries[count - 1], admission, tokens, mru) {
            None => earlier,
            Some(value) => earlier.push(
                RankedEntry { index: (count - 1) as usize, score: value as i64 },
            ),
        }
    }
}

/// The results of a query, which the query and what is on offer determine.
pub open spec fn ranking(
    entries: Seq<PaletteEntry>,
    admission: Admission,
    tokens: Seq<Seq<char>>,
    mru: MruView,
) -> Seq<RankedEntry> {
    arranged(entries, shown_among(entries, admission, tokens, mru, entries.len()))
}

/// Merges two lists in rank order, of which the first comes first in the
/// snapshot.
fn merge(entries: &Vec<PaletteEntry>, left: &Vec<RankedEntry>, right: &Vec<RankedEntry>) -> (result:
    Vec<RankedEntry>)
    requires
        indices_valid(entries@, left@),
        indices_valid(entries@, right@),
        in_rank_order(entries@, left@),
        in_rank_order(entries@, right@),
        forall|i: int, j: int|
            0 <= i < left@.len() && 0 <= j < right@.len() ==> left@[i].index < right@[j].index,
    ensures
        in_rank_order(entries@, result@),
        result@ == merged(entries@, left@, right@),
        result@.to_multiset() == left@.to_multiset().add(right@.to_multiset()),
{
    broadcast use vstd::seq_lib::group_to_multiset_ensures;

    let mut result: Vec<RankedEntry> = Vec::new();
    let mut i: usize = 0;
    let mut j: usize = 0;
    proof {
        assert(left@.take(0) =~= Seq::<RankedEntry>::empty());
        assert(right@.take(0) =~= Seq::<RankedEntry>::empty());
        assert(left@.skip(0) =~= left@);
        assert(right@.skip(0) =~= right@);
        assert(result@ + merged(entries@, left@, right@) =~= merged(entries@, left@, right@));
        assert(result@.to_multiset() =~= left@.take(0).to_multiset().add(
            right@.take(0).to_multiset(),
        ));
    }
    while i < left.len() || j < right.len()
        invariant
            i <= left@.len(),
            j <= right@.len(),
            indices_valid(entries@, left@),
            indices_valid(entries@, right@),
            in_rank_order(entries@, left@),
            in_rank_order(entries@, right@),
            forall|a: int, b: int|
                0 <= a < left@.len() && 0 <= b < right@.len() ==> left@[a].index < right@[b].index,
            in_rank_order(entries@, result@),
            result@.len() > 0 && i < left@.len() ==> ranks_before(
                entries@,
                result@.last(),
                left@[i as int],
            ),
            result@.len() > 0 && j < right@.len() ==> ranks_before(
                entries@,
                result@.last(),
                right@[j as int],
            ),
            result@.to_multiset() == left@.take(i as int).to_multiset().add(
                right@.take(j as int).to_multiset(),
            ),
            result@ + merged(entries@, left@.skip(i as int), right@.skip(j as int)) == merged(
                entries@,
                left@,
                right@,
            ),
        decreases left@.len() - i + right@.len() - j,
    {
        let take_right: bool = if i >= left.len() {
            true
        } else if j >= right.len() {
            false
        } else {
            overtakes(entries, right[j], left[i])
        };
        let ghost before = result@;
        if take_right {
            result.push(right[j]);
            proof {
                let (xs, ys) = (left@.skip(i as int), right@.skip(j as int));
                let later = merged(entries@, xs, ys.drop_first());
                assert(ys[0] == right@[j as int]);
                assert(merged(entries@, xs, ys) =~= seq![ys[0]] + later) by {
                    if xs.len() == 0 {
                        assert(later == ys.drop_first());
                    } else {
                        assert(xs[0] == left@[i as int]);
                    }
                }
                assert(right@.skip(j + 1) =~= ys.drop_first());
                assert(result@ + later =~= before + (seq![ys[0]] + later));
                assert(right@.take(j + 1) =~= right@.take(j as int).push(right@[j as int]));
                vstd::seq_lib::to_multiset_build(right@.take(j as int), right@[j as int]);
                vstd::seq_lib::to_multiset_build(before, right@[j as int]);
                assert(result@.to_multiset() =~= left@.take(i as int).to_multiset().add(
                    right@.take(j + 1).to_multiset(),
                ));
            }
            j = j + 1;
        } else {
            result.push(left[i]);
            proof {
                let (xs, ys) = (left@.skip(i as int), right@.skip(j as int));
                let later = merged(entries@, xs.drop_first(), ys);
                assert(xs[0] == left@[i as int]);
                assert(merged(entries@, xs, ys) =~= seq![xs[0]] + later) by {
                    if ys.len() == 0 {
                        assert(later =~= xs.drop_first());
                    } else {
                        assert(ys[0] == right@[j as int]);
                    }
                }
                assert(left@.skip(i + 1) =~= xs.drop_first());
                assert(result@ + later =~= before + (seq![xs[0]] + later));
                assert(left@.take(i + 1) =~= left@.take(i as int).push(left@[i as int]));
                vstd::seq_lib::to_multiset_build(left@.take(i as int), left@[i as int]);
                vstd::seq_lib::to_multiset_build(before, left@[i as int]);
                assert(result@.to_multiset() =~= left@.take(i + 1).to_multiset().add(
                    right@.take(j as int).to_multiset(),
                ));
            }
            i = i + 1;
        }
    }
    proof {
        assert(left@.take(left@.len() as int) =~= left@);
        assert(right@.take(right@.len() as int) =~= right@);
        assert(result@ + merged(entries@, left@.skip(i as int), right@.skip(j as int)) =~= result@);
    }
    result
}

/// The members of a sequence are those of any rearrangement of it.
proof fn lemma_same_members(left: Seq<RankedEntry>, right: Seq<RankedEntry>)
    requires
        left.to_multiset() == right.to_multiset(),
    ensures
        left.len() == right.len(),
        forall|item: RankedEntry| left.contains(item) == #[trigger] right.contains(item),
{
    left.to_multiset_ensures();
    right.to_multiset_ensures();
    assert forall|item: RankedEntry| left.contains(item) == #[trigger] right.contains(item) by {
        assert(left.contains(item) <==> left.to_multiset().count(item) > 0);
        assert(right.contains(item) <==> right.to_multiset().count(item) > 0);
    }
}

/// Brings a part of a list, given in snapshot order, into rank order.
fn sort_range(
    entries: &Vec<PaletteEntry>,
    items: &Vec<RankedEntry>,
    from: usize,
    to: usize,
) -> (result: Vec<RankedEntry>)
    requires
        from <= to <= items@.len(),
        indices_valid(entries@, items@),
        in_snapshot_order(items@),
    ensures
        in_rank_order(entries@, result@),
        result@ == arranged(entries@, items@.subrange(from as int, to as int)),
        result@.to_multiset() == items@.subrange(from as int, to as int).to_multiset(),
    decreases to - from,
{
    broadcast use vstd::seq_lib::group_to_multiset_ensures;

    if to - from <= 1 {
        let mut result: Vec<RankedEntry> = Vec::new();
        if from < to {
            result.push(items[from]);
        }
        assert(result@ =~= items@.subrange(from as int, to as int));
        return result;
    }
    let middle: usize = from + (to - from) / 2;
    let left: Vec<RankedEntry> = sort_range(entries, items, from, middle);
    let right: Vec<RankedEntry> = sort_range(entries, items, middle, to);
    let ghost left_part = items@.subrange(from as int, middle as int);
    let ghost right_part = items@.subrange(middle as int, to as int);
    proof {
        lemma_same_members(left@, left_part);
        lemma_same_members(right@, right_part);
        assert forall|i: int| 0 <= i < left@.len() implies exists|k: int|
            from <= k < middle && items@[k] == #[trigger] left@[i] by {
            assert(left_part.contains(left@[i]));
            let k = choose|k: int| 0 <= k < left_part.len() && left_part[k] == left@[i];
            assert(items@[from + k] == left@[i]);
        }
        assert forall|i: int| 0 <= i < right@.len() implies exists|k: int|
            middle <= k < to && items@[k] == #[trigger] right@[i] by {
            assert(right_part.contains(right@[i]));
            let k = choose|k: int| 0 <= k < right_part.len() && right_part[k] == right@[i];
            assert(items@[middle + k] == right@[i]);
        }
        let part = items@.subrange(from as int, to as int);
        assert(left_part + right_part =~= part);
        assert(part.subrange(0, part.len() as int / 2) =~= left_part);
        assert(part.subrange(part.len() as int / 2, part.len() as int) =~= right_part);
        vstd::seq_lib::lemma_multiset_commutative(left_part, right_part);
    }
    merge(entries, &left, &right)
}

/// Brings a list, given in snapshot order, into rank order.
fn sort_by_rank(entries: &Vec<PaletteEntry>, items: &Vec<RankedEntry>) -> (result: Vec<
    RankedEntry,
>)
    requires
        indices_valid(entries@, items@),
        in_snapshot_order(items@),
    ensures
        in_rank_order(entries@, result@),
        result@ == arranged(entries@, items@),
        result@.to_multiset() == items@.to_multiset(),
{
    assert(items@.subrange(0, items@.len() as int) =~= items@);
    sort_range(entries, items, 0, items.len())
}

/// The results of a query: the entries that it shows, in rank order.
pub fn rank(
    entries: &Vec<PaletteEntry>,
    admission: Admission,
    tokens: &Vec<Vec<char>>,
    mru: &PaletteMru,
) -> (results: Vec<RankedEntry>)
    ensures
        is_ranking(results@, entries@, admission, text::texts(tokens@), mru@),
        results@ == ranking(entries@, admission, text::texts(tokens@), mru@),
{
    let mut shown: Vec<RankedEntry> = Vec::new();
    let mut index: usize = 0;
    let ghost words = text::texts(tokens@);
    while index < entries.len()
        invariant
            index <= entries@.len(),
            words == text::texts(tokens@),
            in_snapshot_order(shown@),
            shown@ == shown_among(entries@, admission, words, mru@, index as nat),
            forall|i: int|
                0 <= i < shown@.len() ==> (#[trigger] shown@[i]).index < index && entry_value(
                    entries@[shown@[i].index as int],
                    admission,
                    words,
                    mru@,
                ) == Some(shown@[i].score as int),
            forall|at: int|
                0 <= at < index && entry_value(#[trigger] entries@[at], admission, words, mru@)
                    is Some ==> exists|i: int|
                    0 <= i < shown@.len() && (#[trigger] shown@[i]).index == at,
        decreases entries@.len() - index,
    {
        let ghost before = shown@;
        match entry_score(&entries[index], admission, tokens, mru) {
            None => {},
            Some(score) => {
                shown.push(RankedEntry { index, score });
            },
        }
        proof {
            assert forall|at: int|
                0 <= at < index + 1 && entry_value(
                    #[trigger] entries@[at],
                    admission,
                    words,
                    mru@,
                ) is Some implies exists|i: int|
                0 <= i < shown@.len() && (#[trigger] shown@[i]).index == at by {
                if at < index {
                    let i = choose|i: int|
                        0 <= i < before.len() && (#[trigger] before[i]).index == at;
                    assert(shown@[i] == before[i]);
                } else {
                    assert(shown@[before.len() as int].index == at);
                }
            }
        }
        index = index + 1;
    }
    let results: Vec<RankedEntry> = sort_by_rank(entries, &shown);
    proof {
        lemma_sorted_is_ranking(results@, shown@, entries@, admission, words, mru@);
    }
    results
}

/// Rearranged, the entries that a query shows are still those.
proof fn lemma_sorted_is_ranking(
    results: Seq<RankedEntry>,
    shown: Seq<RankedEntry>,
    entries: Seq<PaletteEntry>,
    admission: Admission,
    tokens: Seq<Seq<char>>,
    mru: MruView,
)
    requires
        results.to_multiset() == shown.to_multiset(),
        in_rank_order(entries, results),
        in_snapshot_order(shown),
        indices_valid(entries, shown),
        forall|i: int|
            0 <= i < shown.len() ==> entry_value(
                entries[(#[trigger] shown[i]).index as int],
                admission,
                tokens,
                mru,
            ) == Some(shown[i].score as int),
        forall|at: int|
            0 <= at < entries.len() && entry_value(#[trigger] entries[at], admission, tokens, mru)
                is Some ==> exists|i: int| 0 <= i < shown.len() && (#[trigger] shown[i]).index == at,
    ensures
        is_ranking(results, entries, admission, tokens, mru),
{
    lemma_same_members(results, shown);
    assert forall|i: int| 0 <= i < results.len() implies exists|k: int|
        0 <= k < shown.len() && shown[k] == #[trigger] results[i] by {
        assert(shown.contains(results[i]));
    }
    assert forall|at: int|
        0 <= at < entries.len() && entry_value(#[trigger] entries[at], admission, tokens, mru)
            is Some implies exists|i: int|
        0 <= i < results.len() && (#[trigger] results[i]).index == at by {
        let k = choose|k: int| 0 <= k < shown.len() && (#[trigger] shown[k]).index == at;
        assert(shown.contains(shown[k]));
        assert(results.contains(shown[k]));
    }
    assert(shown.no_duplicates());
    shown.lemma_multiset_has_no_duplicates();
    results.lemma_multiset_has_no_duplicates_conv();
    assert forall|i: int, j: int| 0 <= i < j < results.len() implies results[i].index
        != results[j].index by {
        let a = choose|k: int| 0 <= k < shown.len() && shown[k] == results[i];
        let b = choose|k: int| 0 <= k < shown.len() && shown[k] == results[j];
        assert(results[i] != results[j]);
        if a < b {
            assert(shown[a].index < shown[b].index);
        } else if b < a {
            assert(shown[b].index < shown[a].index);
        }
    }
}

/// Down the results, scores never rise.
pub proof fn law_scores_descend(
    results: Seq<RankedEntry>,
    entries: Seq<PaletteEntry>,
    admission: Admission,
    tokens: Seq<Seq<char>>,
    mru: MruView,
)
    requires
        is_ranking(results, entries, admission, tokens, mru),
    ensures
        forall|i: int, j: int| 0 <= i < j < results.len() ==> results[i].score >= results[j].score,
{
    assert forall|i: int, j: int| 0 <= i < j < results.len() implies results[i].score
        >= results[j].score by {
        lemma_scores_descend(entries, results, i, j);
    }
}

proof fn lemma_scores_descend(
    entries: Seq<PaletteEntry>,
    items: Seq<RankedEntry>,
    i: int,
    j: int,
)
    requires
        in_rank_order(entries, items),
        0 <= i < j < items.len(),
    ensures
        items[i].score >= items[j].score,
    decreases j - i,
{
    assert(ranks_before(entries, items[j - 1], items[j]));
    if i < j - 1 {
        lemma_scores_descend(entries, items, i, j - 1);
    }
}

/// Whether the rules of rank agree on the items: of three with the same score, if
/// the first is shown above the second and that above the third, the first is
/// shown above the third.
pub open spec fn ranks_agree(entries: Seq<PaletteEntry>, items: Seq<RankedEntry>) -> bool {
    forall|i: int, j: int, k: int|
        0 <= i < items.len() && 0 <= j < items.len() && 0 <= k < items.len() && items[i].score
            == items[j].score && items[j].score == items[k].score && #[trigger] ranks_before(
            entries,
            items[i],
            items[j],
        ) && #[trigger] ranks_before(entries, items[j], items[k]) ==> ranks_before(
            entries,
            items[i],
            items[k],
        )
}

/// Whether no command ties with a window or an application.
pub open spec fn ties_are_uniform(entries: Seq<PaletteEntry>, items: Seq<RankedEntry>) -> bool {
    forall|i: int, j: int|
        0 <= i < items.len() && 0 <= j < items.len() && items[i].score == items[j].score ==> (
        entries[(#[trigger] items[i]).index as int].kind == PaletteEntryKind::Command) == (
        entries[(#[trigger] items[j]).index as int].kind == PaletteEntryKind::Command)
}

/// The rules of rank agree wherever no command ties with anything else.
pub proof fn law_uniform_ties_agree(entries: Seq<PaletteEntry>, items: Seq<RankedEntry>)
    requires
        ties_are_uniform(entries, items),
    ensures
        ranks_agree(entries, items),
{
    assert forall|i: int, j: int, k: int|
        0 <= i < items.len() && 0 <= j < items.len() && 0 <= k < items.len() && items[i].score
            == items[j].score && items[j].score == items[k].score && #[trigger] ranks_before(
            entries,
            items[i],
            items[j],
        ) && #[trigger] ranks_before(entries, items[j], items[k]) implies ranks_before(
        entries,
        items[i],
        items[k],
    ) by {
        let (p, q, r) = (
            entries[items[i].index as int].primary@,
            entries[items[j].index as int].primary@,
            entries[items[k].index as int].primary@,
        );
        text::lemma_text_order_total(p, r);
        if text::text_before(p, q) && text::text_before(q, r) {
            text::lemma_text_order_transitive(p, q, r);
        }
    }
}

/// No two items rank before each other.
proof fn lemma_rank_asymmetric(entries: Seq<PaletteEntry>, a: RankedEntry, b: RankedEntry)
    requires
        ranks_before(entries, a, b),
    ensures
        !ranks_before(entries, b, a),
{
    text::lemma_text_order_total(
        entries[a.index as int].primary@,
        entries[b.index as int].primary@,
    );
}

proof fn lemma_fully_ordered(entries: Seq<PaletteEntry>, items: Seq<RankedEntry>, i: int, j: int)
    requires
        in_rank_order(entries, items),
        ranks_agree(entries, items),
        0 <= i < j < items.len(),
    ensures
        ranks_before(entries, items[i], items[j]),
    decreases j - i,
{
    assert(ranks_before(entries, items[j - 1], items[j]));
    if i < j - 1 {
        lemma_fully_ordered(entries, items, i, j - 1);
    }
}

/// Where the rules of rank agree on the results, every result is shown above
/// every later one by them.
pub proof fn law_results_fully_ordered(
    results: Seq<RankedEntry>,
    entries: Seq<PaletteEntry>,
    admission: Admission,
    tokens: Seq<Seq<char>>,
    mru: MruView,
)
    requires
        is_ranking(results, entries, admission, tokens, mru),
        ranks_agree(entries, results),
    ensures
        forall|i: int, j: int|
            0 <= i < j < results.len() ==> ranks_before(entries, results[i], results[j]),
{
    assert forall|i: int, j: int| 0 <= i < j < results.len() implies ranks_before(
        entries,
        results[i],
        results[j],
    ) by {
        lemma_fully_ordered(entries, results, i, j);
    }
}

/// Within commands alone, and within one application's windows, the rules of rank
/// agree on the results.
pub proof fn law_scopes_agree(
    results: Seq<RankedEntry>,
    entries: Seq<PaletteEntry>,
    admission: Admission,
    tokens: Seq<Seq<char>>,
    mru: MruView,
)
    requires
        is_ranking(results, entries, admission, tokens, mru),
        admission != Admission::All,
    ensures
        ranks_agree(entries, results),
{
    assert forall|i: int| 0 <= i < results.len() implies admission.admits(
        entries[(#[trigger] results[i]).index as int],
    ) by {}
    law_uniform_ties_agree(entries, results);
}

/// Two fully ordered sequences with the same members are equal.
proof fn lemma_order_unique(
    entries: Seq<PaletteEntry>,
    left: Seq<RankedEntry>,
    right: Seq<RankedEntry>,
)
    requires
        forall|i: int, j: int|
            0 <= i < j < left.len() ==> ranks_before(entries, left[i], left[j]),
        forall|i: int, j: int|
            0 <= i < j < right.len() ==> ranks_before(entries, right[i], right[j]),
        forall|item: RankedEntry| #[trigger] left.contains(item) <==> right.contains(item),
    ensures
        left == right,
    decreases left.len(),
{
    if left.len() == 0 {
        if right.len() > 0 {
            assert(right.contains(right[0]));
            assert(left.contains(right[0]));
        }
        assert(left =~= right);
    } else {
        assert(left.contains(left[0]));
        assert(right.contains(left[0]));
        let k = choose|k: int| 0 <= k < right.len() && right[k] == left[0];
        if k > 0 {
            assert(ranks_before(entries, right[0], right[k]));
            assert(right.contains(right[0]));
            assert(left.contains(right[0]));
            let m = choose|m: int| 0 <= m < left.len() && left[m] == right[0];
            lemma_rank_asymmetric(entries, right[0], left[0]);
            if m > 0 {
                assert(ranks_before(entries, left[0], left[m]));
            }
        }
        assert(left[0] == right[0]);
        let (l, r) = (left.drop_first(), right.drop_first());
        assert forall|item: RankedEntry| #[trigger] l.contains(item) <==> r.contains(item) by {
            if l.contains(item) {
                let i = choose|i: int| 0 <= i < l.len() && l[i] == item;
                assert(left[i + 1] == item);
                assert(left.contains(item));
                let j = choose|j: int| 0 <= j < right.len() && right[j] == item;
                if j == 0 {
                    assert(ranks_before(entries, left[0], left[i + 1]));
                    lemma_rank_asymmetric(entries, left[0], item);
                }
                assert(r[j - 1] == item);
            }
            if r.contains(item) {
                let i = choose|i: int| 0 <= i < r.len() && r[i] == item;
                assert(right[i + 1] == item);
                assert(right.contains(item));
                assert(left.contains(item));
                let j = choose|j: int| 0 <= j < left.len() && left[j] == item;
                if j == 0 {
                    assert(ranks_before(entries, right[0], right[i + 1]));
                    lemma_rank_asymmetric(entries, right[0], item);
                }
                assert(l[j - 1] == item);
            }
        }
        lemma_order_unique(entries, l, r);
        assert(left =~= seq![left[0]] + l);
        assert(right =~= seq![right[0]] + r);
    }
}

/// Where the rules of rank agree on the results, they leave one list of results
/// open.
pub proof fn law_ranking_is_unique(
    left: Seq<RankedEntry>,
    right: Seq<RankedEntry>,
    entries: Seq<PaletteEntry>,
    admission: Admission,
    tokens: Seq<Seq<char>>,
    mru: MruView,
)
    requires
        is_ranking(left, entries, admission, tokens, mru),
        is_ranking(right, entries, admission, tokens, mru),
        ranks_agree(entries, left),
    ensures
        left == right,
{
    assert forall|item: RankedEntry| #[trigger]
        left.contains(item) <==> right.contains(item) by {
        lemma_member_carries(left, right, entries, admission, tokens, mru, item);
        lemma_member_carries(right, left, entries, admission, tokens, mru, item);
    }
    assert forall|i: int, j: int, k: int|
        0 <= i < right.len() && 0 <= j < right.len() && 0 <= k < right.len() && right[i].score
            == right[j].score && right[j].score == right[k].score && #[trigger] ranks_before(
            entries,
            right[i],
            right[j],
        ) && #[trigger] ranks_before(entries, right[j], right[k]) implies ranks_before(
        entries,
        right[i],
        right[k],
    ) by {
        assert(right.contains(right[i]) && right.contains(right[j]) && right.contains(right[k]));
        assert(left.contains(right[i]) && left.contains(right[j]) && left.contains(right[k]));
        let a = choose|a: int| 0 <= a < left.len() && left[a] == right[i];
        let b = choose|b: int| 0 <= b < left.len() && left[b] == right[j];
        let c = choose|c: int| 0 <= c < left.len() && left[c] == right[k];
        assert(ranks_before(entries, left[a], left[b]) && ranks_before(entries, left[b], left[c]));
    }
    law_results_fully_ordered(left, entries, admission, tokens, mru);
    law_results_fully_ordered(right, entries, admission, tokens, mru);
    lemma_order_unique(entries, left, right);
}

proof fn lemma_member_carries(
    left: Seq<RankedEntry>,
    right: Seq<RankedEntry>,
    entries: Seq<PaletteEntry>,
    admission: Admission,
    tokens: Seq<Seq<char>>,
    mru: MruView,
    item: RankedEntry,
)
    requires
        is_ranking(left, entries, admission, tokens, mru),
        is_ranking(right, entries, admission, tokens, mru),
    ensures
        left.contains(item) ==> right.contains(item),
{
    if left.contains(item) {
        let i = choose|i: int| 0 <= i < left.len() && left[i] == item;
        assert(entry_value(entries[left[i].index as int], admission, tokens, mru) is Some);
        let j = choose|j: int| 0 <= j < right.len() && (#[trigger] right[j]).index == item.index;
        assert(right[j] == item);
    }
}

/// A query of two parts matches where both do, and its score is the sum of
/// theirs.
pub proof fn law_tokens_combine(
    first: Seq<Seq<char>>,
    second: Seq<Seq<char>>,
    terms: Seq<Seq<char>>,
)
    ensures
        tokens_value(first + second, terms) is Some <==> tokens_value(first, terms) is Some
            && tokens_value(second, terms) is Some,
        tokens_value(first + second, terms) is Some ==> tokens_value(first + second, terms)->0
            == tokens_value(first, terms)->0 + tokens_value(second, terms)->0,
    decreases second.len(),
{
    if second.len() == 0 {
        assert(first + second =~= first);
    } else {
        law_tokens_combine(first, second.drop_last(), terms);
        assert((first + second).drop_last() =~= first + second.drop_last());
    }
}

/// The order of a query's words plays no part in how well an entry matches.
pub proof fn law_token_order_is_free(
    tokens: Seq<Seq<char>>,
    other: Seq<Seq<char>>,
    terms: Seq<Seq<char>>,
)
    requires
        tokens.to_multiset() == other.to_multiset(),
    ensures
        tokens_value(tokens, terms) == tokens_value(other, terms),
    decreases tokens.len(),
{
    broadcast use vstd::seq_lib::group_to_multiset_ensures;

    tokens.to_multiset_ensures();
    other.to_multiset_ensures();
    if tokens.len() == 0 {
        assert(other.len() == 0);
    } else {
        let (rest, last) = (tokens.drop_last(), tokens.last());
        assert(tokens =~= rest.push(last));
        assert(tokens.contains(last)) by {
            assert(tokens[tokens.len() - 1] == last);
        }
        assert(other.to_multiset().count(last) > 0);
        assert(other.contains(last));
        let at = choose|at: int| 0 <= at < other.len() && other[at] == last;
        let (before, after) = (other.take(at), other.skip(at + 1));
        let one = seq![last];
        assert(other =~= before + one + after);
        assert(other.remove(at) =~= before + after);
        other.to_multiset_ensures();
        assert(rest.to_multiset() =~= (before + after).to_multiset()) by {
            vstd::seq_lib::to_multiset_build(rest, last);
            vstd::seq_lib::to_multiset_remove(other, at);
            assert(tokens.to_multiset() == rest.to_multiset().insert(last));
            assert((before + after).to_multiset() == other.to_multiset().remove(last));
            assert(rest.to_multiset().insert(last).remove(last) =~= rest.to_multiset());
        }
        law_token_order_is_free(rest, before + after, terms);
        law_tokens_combine(before, after, terms);
        law_tokens_combine(before, one, terms);
        law_tokens_combine(before + one, after, terms);
        assert(one.drop_last() =~= Seq::empty());
        reveal_with_fuel(tokens_value, 2);
    }
}

/// An entry is found by a query of two parts exactly where both parts find it,
/// and the order of the words and the history play no part in its score.
pub proof fn law_search_combines(
    entry: PaletteEntry,
    admission: Admission,
    first: Seq<Seq<char>>,
    second: Seq<Seq<char>>,
    mru: MruView,
    other: MruView,
)
    requires
        first.len() > 0,
        second.len() > 0,
    ensures
        entry_value(entry, admission, first + second, mru) is Some <==> entry_value(
            entry,
            admission,
            first,
            mru,
        ) is Some && entry_value(entry, admission, second, mru) is Some,
        entry_value(entry, admission, first + second, mru) == entry_value(
            entry,
            admission,
            second + first,
            mru,
        ),
        entry_value(entry, admission, first, mru) == entry_value(entry, admission, first, other),
{
    law_tokens_combine(first, second, entry.terms());
    law_tokens_combine(second, first, entry.terms());
}

/// Where every entry has the same score for two queries, both have the same
/// results in the same order.
pub proof fn law_scores_determine_results(
    entries: Seq<PaletteEntry>,
    admission: Admission,
    tokens: Seq<Seq<char>>,
    mru: MruView,
    other_tokens: Seq<Seq<char>>,
    other_mru: MruView,
)
    requires
        forall|at: int|
            0 <= at < entries.len() ==> entry_value(
                #[trigger] entries[at],
                admission,
                tokens,
                mru,
            ) == entry_value(entries[at], admission, other_tokens, other_mru),
    ensures
        ranking(entries, admission, tokens, mru) == ranking(
            entries,
            admission,
            other_tokens,
            other_mru,
        ),
{
    lemma_shown_alike(
        entries,
        admission,
        tokens,
        mru,
        other_tokens,
        other_mru,
        entries.len(),
    );
}

proof fn lemma_shown_alike(
    entries: Seq<PaletteEntry>,
    admission: Admission,
    tokens: Seq<Seq<char>>,
    mru: MruView,
    other_tokens: Seq<Seq<char>>,
    other_mru: MruView,
    count: nat,
)
    requires
        count <= entries.len(),
        forall|at: int|
            0 <= at < entries.len() ==> entry_value(
                #[trigger] entries[at],
                admission,
                tokens,
                mru,
            ) == entry_value(entries[at], admission, other_tokens, other_mru),
    ensures
        shown_among(entries, admission, tokens, mru, count) == shown_among(
            entries,
            admission,
            other_tokens,
            other_mru,
            count,
        ),
    decreases count,
{
    if count > 0 {
        lemma_shown_alike(
            entries,
            admission,
            tokens,
            mru,
            other_tokens,
            other_mru,
            (count - 1) as nat,
        );
        assert(entry_value(entries[count - 1], admission, tokens, mru) == entry_value(
            entries[count - 1],
            admission,
            other_tokens,
            other_mru,
        ));
    }
}

} // verus!
