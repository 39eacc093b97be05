//! How well a query matches a text.

use vstd::prelude::*;

use crate::model::text;

verus! {

/// The nearest score that an `i64` holds.
pub open spec fn clamp_score(value: int) -> int {
    if value < i64::MIN {
        i64::MIN as int
    } else if value > i64::MAX {
        i64::MAX as int
    } else {
        value
    }
}

/// Whether the pattern stands in the text at character `at`.
pub open spec fn occurs_at(text: Seq<char>, pattern: Seq<char>, at: int) -> bool {
    &&& 0 <= at
    &&& at + pattern.len() <= text.len()
    &&& text.subrange(at, at + pattern.len()) == pattern
}

pub open spec fn occurs(text: Seq<char>, pattern: Seq<char>) -> bool {
    exists|at: int| occurs_at(text, pattern, at)
}

pub open spec fn is_first_occurrence(text: Seq<char>, pattern: Seq<char>, at: int) -> bool {
    &&& occurs_at(text, pattern, at)
    &&& forall|earlier: int| 0 <= earlier < at ==> !occurs_at(text, pattern, earlier)
}

/// The first character at which the pattern stands in the text.
pub open spec fn first_occurrence(text: Seq<char>, pattern: Seq<char>) -> int {
    choose|at: int| is_first_occurrence(text, pattern, at)
}

/// The first position of `needle` in the text from `from` on.
pub open spec fn next_position(text: Seq<char>, needle: char, from: int) -> Option<int>
    decreases text.len() - from,
{
    if from >= text.len() {
        None
    } else if text[from] == needle {
        Some(from)
    } else {
        next_position(text, needle, from + 1)
    }
}

/// Where the search for one more character of the query goes on.
pub open spec fn resume_at(positions: Seq<int>) -> int {
    if positions.len() == 0 {
        0
    } else {
        positions.last() + 1
    }
}

/// The positions of the query's characters in the text, each taken as early as
/// the ones before it allow.
pub open spec fn scattered_positions(text: Seq<char>, query: Seq<char>) -> Option<Seq<int>>
    decreases query.len(),
{
    if query.len() == 0 {
        Some(Seq::empty())
    } else {
        match scattered_positions(text, query.drop_last()) {
            None => None,
            Some(positions) => match next_position(text, query.last(), resume_at(positions)) {
                None => None,
                Some(at) => Some(positions.push(at)),
            },
        }
    }
}

/// The bytes between two matched characters that follow one another, counted
/// from the second byte of the first.
pub open spec fn gap_between(text: Seq<char>, left: int, right: int) -> int {
    let distance = text::byte_len(text.take(right)) - text::byte_len(text.take(left)) - 1;
    if distance < 0 {
        0
    } else {
        distance
    }
}

/// All the gaps between matched characters.
pub open spec fn total_gap(text: Seq<char>, positions: Seq<int>) -> int
    decreases positions.len(),
{
    if positions.len() < 2 {
        0
    } else {
        let n = positions.len() as int;
        total_gap(text, positions.drop_last()) + gap_between(
            text,
            positions[n - 2],
            positions[n - 1],
        )
    }
}

/// The score of a candidate for a query, given the initials of the candidate's
/// words. An equal text is best, then a prefix, a prefix of the initials, a part
/// of the text, and last the query's characters scattered in order over the
/// text. Longer candidates and later matches score less, byte by byte.
pub open spec fn score_given_initials(
    query: Seq<char>,
    candidate: Seq<char>,
    initials: Seq<char>,
) -> Option<int> {
    if query.len() == 0 {
        Some(0int)
    } else if query == candidate {
        Some(10_000int)
    } else if query.is_prefix_of(candidate) {
        Some(9_000 - text::byte_len(candidate))
    } else if query.is_prefix_of(initials) {
        Some(8_000 - text::byte_len(candidate))
    } else if occurs(candidate, query) {
        Some(
            7_000 - text::byte_len(candidate.take(first_occurrence(candidate, query))) - text::byte_len(
                candidate,
            ),
        )
    } else {
        match scattered_positions(candidate, query) {
            None => None,
            Some(positions) => Some(
                5_000 - total_gap(candidate, positions) - text::byte_len(candidate),
            ),
        }
    }
}

/// The score of a candidate for a query.
pub open spec fn fuzzy_value(query: Seq<char>, candidate: Seq<char>) -> Option<int> {
    score_given_initials(query, candidate, text::acronym_of(candidate))
}

/// A score as it is computed, in an `i64`.
pub open spec fn clamped(value: Option<int>) -> Option<int> {
    match value {
        None => None,
        Some(value) => Some(clamp_score(value)),
    }
}

/// An optional score as a mathematical number.
pub open spec fn score_of(result: Option<i64>) -> Option<int> {
    match result {
        None => None,
        Some(value) => Some(value as int),
    }
}

/// `base` less `amount`, down to the least `i64`. No text in memory is long
/// enough to reach it.
fn deduct(base: i64, amount: u128) -> (result: i64)
    requires
        0 <= base <= 10_000,
    ensures
        result == clamp_score(base - amount),
{
    if amount <= 0x8000_0000_0000_0000 {
        ((base as i128) - (amount as i128)) as i64
    } else if amount - 0x8000_0000_0000_0000 <= (base as u128) {
        ((base as i128) - (amount as i128)) as i64
    } else {
        i64::MIN
    }
}

/// Whether the pattern stands in the text at `at`.
fn stands_at(text: &Vec<char>, pattern: &Vec<char>, at: usize) -> (result: bool)
    ensures
        result == occurs_at(text@, pattern@, at as int),
{
    if text.len() < pattern.len() || text.len() - pattern.len() < at {
        return false;
    }
    let mut i: usize = 0;
    while i < pattern.len()
        invariant
            i <= pattern@.len(),
            at + pattern@.len() <= text@.len() <= usize::MAX,
            forall|j: int| 0 <= j < i ==> text@[at + j] == #[trigger] pattern@[j],
        decreases pattern@.len() - i,
    {
        if text[at + i] != pattern[i] {
            assert(text@.subrange(at as int, at + pattern@.len())[i as int] != pattern@[i as int]);
            return false;
        }
        i = i + 1;
    }
    assert(text@.subrange(at as int, at + pattern@.len()) =~= pattern@);
    true
}

/// Whether the text starts with the prefix.
fn starts_with(text: &Vec<char>, prefix: &Vec<char>) -> (result: bool)
    ensures
        result == prefix@.is_prefix_of(text@),
{
    stands_at(text, prefix, 0)
}

/// The byte offset of the first occurrence of the pattern.
fn find(text: &Vec<char>, pattern: &Vec<char>) -> (result: Option<u128>)
    ensures
        match result {
            None => !occurs(text@, pattern@),
            Some(offset) => {
                &&& occurs(text@, pattern@)
                &&& offset == text::byte_len(text@.take(first_occurrence(text@, pattern@)))
                &&& offset <= text::byte_len(text@)
            },
        },
{
    let mut offset: u128 = 0;
    let mut at: usize = 0;
    assert(text@.take(0) =~= Seq::<char>::empty());
    while at < text.len()
        invariant
            at <= text@.len(),
            offset == text::byte_len(text@.take(at as int)),
            offset <= 4 * at,
            forall|earlier: int| 0 <= earlier < at ==> !occurs_at(text@, pattern@, earlier),
        decreases text@.len() - at,
    {
        if stands_at(text, pattern, at) {
            proof {
                lemma_first_occurrence(text@, pattern@, at as int);
                text::lemma_byte_len_monotonic(text@, at as int, text@.len() as int);
                assert(text@.take(text@.len() as int) =~= text@);
            }
            return Some(offset);
        }
        proof {
            text::lemma_byte_len_take(text@, at as int);
        }
        offset = offset + text::char_width(text[at]);
        at = at + 1;
    }
    if stands_at(text, pattern, at) {
        proof {
            lemma_first_occurrence(text@, pattern@, at as int);
            assert(text@.take(text@.len() as int) =~= text@);
        }
        return Some(offset);
    }
    None
}

/// There is one first occurrence.
proof fn lemma_first_occurrence(text: Seq<char>, pattern: Seq<char>, at: int)
    requires
        is_first_occurrence(text, pattern, at),
    ensures
        first_occurrence(text, pattern) == at,
        occurs(text, pattern),
{
    let chosen = first_occurrence(text, pattern);
    assert(is_first_occurrence(text, pattern, chosen));
    if chosen < at {
        assert(!occurs_at(text, pattern, chosen));
    } else if at < chosen {
        assert(!occurs_at(text, pattern, at));
    }
}

/// The search for a character finds the first position from `from` on.
proof fn lemma_next_position(text: Seq<char>, needle: char, from: int)
    requires
        0 <= from,
    ensures
        match next_position(text, needle, from) {
            None => forall|i: int| from <= i < text.len() ==> text[i] != needle,
            Some(at) => {
                &&& from <= at < text.len()
                &&& text[at] == needle
                &&& forall|i: int| from <= i < at ==> text[i] != needle
            },
        },
    decreases text.len() - from,
{
    if from < text.len() && text[from] != needle {
        lemma_next_position(text, needle, from + 1);
    }
}

/// A longer query matches only where its beginning does.
proof fn lemma_scattered_prefix(text: Seq<char>, query: Seq<char>, i: int)
    requires
        0 <= i <= query.len(),
        scattered_positions(text, query.take(i)) is None,
    ensures
        scattered_positions(text, query) is None,
    decreases query.len() - i,
{
    if i < query.len() {
        assert(query.take(i + 1).drop_last() =~= query.take(i));
        lemma_scattered_prefix(text, query, i + 1);
    } else {
        assert(query.take(i) =~= query);
    }
}

/// The gaps of a match with its characters scattered over the text, in bytes.
fn scattered_gap(text: &Vec<char>, query: &Vec<char>) -> (result: Option<u128>)
    ensures
        match result {
            None => scattered_positions(text@, query@) is None,
            Some(gap) => {
                &&& scattered_positions(text@, query@) is Some
                &&& gap == total_gap(text@, scattered_positions(text@, query@)->0)
                &&& gap <= text::byte_len(text@)
            },
        },
{
    let mut at: usize = 0;
    let mut offset: u128 = 0;
    let mut previous: u128 = 0;
    let mut gap: u128 = 0;
    let mut i: usize = 0;
    let ghost mut positions: Seq<int> = Seq::empty();
    assert(query@.take(0) =~= Seq::<char>::empty());
    assert(text@.take(0) =~= Seq::<char>::empty());
    while i < query.len()
        invariant
            i <= query@.len(),
            at <= text@.len(),
            offset == text::byte_len(text@.take(at as int)),
            offset <= 4 * at,
            scattered_positions(text@, query@.take(i as int)) == Some(positions),
            positions.len() == i,
            at == resume_at(positions),
            i > 0 ==> 0 <= positions.last() && previous == text::byte_len(
                text@.take(positions.last()),
            ),
            gap == total_gap(text@, positions),
            i > 0 ==> gap <= previous && previous < offset,
            i == 0 ==> gap == 0,
        decreases query@.len() - i,
    {
        let needle: char = query[i];
        let ghost from = at as int;
        proof {
            lemma_next_position(text@, needle, from);
            assert(query@.take(i + 1).drop_last() =~= query@.take(i as int));
            assert(query@.take(i + 1).last() == needle);
        }
        while at < text.len() && text[at] != needle
            invariant
                from <= at <= text@.len(),
                offset == text::byte_len(text@.take(at as int)),
                offset <= 4 * at,
                forall|j: int| from <= j < at ==> text@[j] != needle,
            decreases text@.len() - at,
        {
            proof {
                text::lemma_byte_len_take(text@, at as int);
            }
            offset = offset + text::char_width(text[at]);
            at = at + 1;
        }
        if at >= text.len() {
            proof {
                lemma_scattered_prefix(text@, query@, i + 1);
            }
            return None;
        }
        let ghost before = positions;
        proof {
            assert(next_position(text@, needle, from) == Some(at as int));
            positions = positions.push(at as int);
            assert(positions.drop_last() =~= before);
        }
        if i > 0 {
            proof {
                text::lemma_byte_len_monotonic(text@, before.last(), at as int);
            }
            gap = gap + (offset - previous - 1);
        }
        previous = offset;
        proof {
            text::lemma_byte_len_take(text@, at as int);
        }
        offset = offset + text::char_width(text[at]);
        at = at + 1;
        i = i + 1;
    }
    proof {
        assert(query@.take(query@.len() as int) =~= query@);
        text::lemma_byte_len_monotonic(text@, at as int, text@.len() as int);
        assert(text@.take(text@.len() as int) =~= text@);
    }
    Some(gap)
}

/// Scores a candidate for a query, given the initials of the candidate's words
/// and its length in bytes.
pub fn score_with_initials(
    query: &Vec<char>,
    candidate: &Vec<char>,
    initials: &Vec<char>,
    width: u128,
) -> (result: Option<i64>)
    requires
        width == text::byte_len(candidate@),
    ensures
        score_of(result) == clamped(score_given_initials(query@, candidate@, initials@)),
{
    if query.len() == 0 {
        return Some(0);
    }
    let length: usize = candidate.len();
    proof {
        text::lemma_byte_len_bound(candidate@);
        assert(width <= 4 * length);
    }
    if starts_with(candidate, query) {
        if length == query.len() {
            assert(query@ =~= candidate@);
            return Some(10_000);
        }
        return Some(deduct(9_000, width));
    }
    assert(query@ != candidate@) by {
        if query@ == candidate@ {
            assert(candidate@.subrange(0, candidate@.len() as int) =~= candidate@);
        }
    }
    if starts_with(initials, query) {
        return Some(deduct(8_000, width));
    }
    match find(candidate, query) {
        Some(offset) => {
            return Some(deduct(7_000, offset + width));
        },
        None => {},
    }
    match scattered_gap(candidate, query) {
        None => None,
        Some(gap) => Some(deduct(5_000, gap + width)),
    }
}

/// How well a candidate text matches a query, or `None` if it does not.
pub fn fuzzy_score(query: &str, candidate: &str) -> (result: Option<i64>)
    ensures
        score_of(result) == clamped(fuzzy_value(query@, candidate@)),
{
    let query: Vec<char> = text::characters(query);
    let candidate: Vec<char> = text::characters(candidate);
    let initials: Vec<char> = text::acronym(&candidate);
    let width: u128 = text::text_width(&candidate);
    score_with_initials(&query, &candidate, &initials, width)
}

/// A text prepared for searching: its characters, the initials of its words and
/// its length in bytes.
#[derive(Debug, PartialEq, Eq)]
pub struct SearchTerm {
    text: Vec<char>,
    initials: Vec<char>,
    width: u128,
}

impl View for SearchTerm {
    type V = Seq<char>;

    closed spec fn view(&self) -> Seq<char> {
        self.text@
    }
}

impl SearchTerm {
    #[verifier::type_invariant]
    spec fn well_formed(self) -> bool {
        &&& self.initials@ == text::acronym_of(self.text@)
        &&& self.width == text::byte_len(self.text@)
    }

    pub fn new(value: &str) -> (term: Self)
        ensures
            term@ == value@,
    {
        let characters: Vec<char> = text::characters(value);
        let initials: Vec<char> = text::acronym(&characters);
        let width: u128 = text::text_width(&characters);
        SearchTerm { text: characters, initials, width }
    }

    pub fn is_empty(&self) -> (result: bool)
        ensures
            result == (self@.len() == 0),
    {
        self.text.len() == 0
    }

    /// How well the term matches a query.
    pub fn score(&self, query: &Vec<char>) -> (result: Option<i64>)
        ensures
            score_of(result) == clamped(fuzzy_value(query@, self@)),
    {
        proof {
            use_type_invariant(self);
        }
        score_with_initials(query, &self.text, &self.initials, self.width)
    }
}

impl Clone for SearchTerm {
    fn clone(&self) -> (result: Self)
        ensures
            result@ == self@,
    {
        proof {
            use_type_invariant(self);
        }
        SearchTerm {
            text: copy_text(&self.text),
            initials: copy_text(&self.initials),
            width: self.width,
        }
    }
}

fn copy_text(text: &Vec<char>) -> (result: Vec<char>)
    ensures
        result@ == text@,
{
    let mut result: Vec<char> = Vec::new();
    let mut i: usize = 0;
    while i < text.len()
        invariant
            i <= text@.len(),
            result@ == text@.take(i as int),
        decreases text@.len() - i,
    {
        result.push(text[i]);
        assert(result@ =~= text@.take(i + 1));
        i = i + 1;
    }
    assert(result@ =~= text@);
    result
}

/// The texts of a list of terms.
pub open spec fn term_texts(terms: Seq<SearchTerm>) -> Seq<Seq<char>> {
    terms.map_values(|term: SearchTerm| term@)
}

/// The better of two scores; any score is better than none.
pub open spec fn better(left: Option<int>, right: Option<int>) -> Option<int> {
    match (left, right) {
        (None, _) => right,
        (_, None) => left,
        (Some(a), Some(b)) => if a >= b {
            left
        } else {
            right
        },
    }
}

/// The best score that one of the terms has for a query.
pub open spec fn best_value(query: Seq<char>, terms: Seq<Seq<char>>) -> Option<int>
    decreases terms.len(),
{
    if terms.len() == 0 {
        None
    } else {
        better(
            best_value(query, terms.drop_last()),
            clamped(fuzzy_value(query, terms.last())),
        )
    }
}

/// The best score that one of the terms has for a query.
pub fn best_term_score(query: &Vec<char>, terms: &Vec<SearchTerm>) -> (result: Option<i64>)
    ensures
        score_of(result) == best_value(query@, term_texts(terms@)),
{
    let mut best: Option<i64> = None;
    let mut i: usize = 0;
    while i < terms.len()
        invariant
            i <= terms@.len(),
            score_of(best) == best_value(query@, term_texts(terms@).take(i as int)),
        decreases terms@.len() - i,
    {
        let score: Option<i64> = terms[i].score(query);
        proof {
            let all = term_texts(terms@);
            assert(all.take(i + 1).drop_last() =~= all.take(i as int));
            assert(all.take(i + 1).last() == terms@[i as int]@);
        }
        best = match (best, score) {
            (None, _) => score,
            (_, None) => best,
            (Some(a), Some(b)) => if a >= b {
                best
            } else {
                score
            },
        };
        i = i + 1;
    }
    assert(term_texts(terms@).take(terms@.len() as int) =~= term_texts(terms@));
    best
}

/// Whether the characters of `query` occur in `text` in order, at the given
/// positions.
pub open spec fn embeds_at(text: Seq<char>, query: Seq<char>, positions: Seq<int>) -> bool {
    &&& positions.len() == query.len()
    &&& forall|i: int|
        0 <= i < positions.len() ==> 0 <= #[trigger] positions[i] < text.len() && text[positions[i]]
            == query[i]
    &&& forall|i: int, j: int| 0 <= i < j < positions.len() ==> positions[i] < positions[j]
}

/// Whether the characters of `query` occur in `text` in order.
pub open spec fn embeds(text: Seq<char>, query: Seq<char>) -> bool {
    exists|positions: Seq<int>| embeds_at(text, query, positions)
}

/// The scattered positions embed the query, and no embedding is further left.
proof fn lemma_scattered_embeds(text: Seq<char>, query: Seq<char>)
    ensures
        match scattered_positions(text, query) {
            Some(positions) => embeds_at(text, query, positions),
            None => true,
        },
    decreases query.len(),
{
    if query.len() > 0 {
        let shorter = query.drop_last();
        lemma_scattered_embeds(text, shorter);
        if let Some(positions) = scattered_positions(text, shorter) {
            if positions.len() > 0 {
                assert(0 <= positions.last());
            }
            lemma_next_position(text, query.last(), resume_at(positions));
        }
    }
}

/// Any embedding shows that the leftmost search succeeds, and lies to the right
/// of what it finds.
proof fn lemma_scattered_leftmost(text: Seq<char>, query: Seq<char>, other: Seq<int>)
    requires
        embeds_at(text, query, other),
    ensures
        scattered_positions(text, query) is Some,
        scattered_positions(text, query)->0.len() == query.len(),
        query.len() > 0 ==> 0 <= scattered_positions(text, query)->0.last() <= other.last(),
    decreases query.len(),
{
    if query.len() > 0 {
        let shorter = query.drop_last();
        lemma_scattered_leftmost(text, shorter, other.drop_last());
        let positions = scattered_positions(text, shorter)->0;
        lemma_scattered_embeds(text, shorter);
        let n = other.len() as int;
        if n > 1 {
            assert(other.drop_last().last() == other[n - 2]);
            assert(other[n - 2] < other[n - 1]);
        }
        assert(0 <= other[n - 1] < text.len() && text[other[n - 1]] == query[n - 1]);
        lemma_next_position(text, query.last(), resume_at(positions));
    }
}

/// The initials of a text embed in it.
proof fn lemma_initials_embed(candidate: Seq<char>, marks: Seq<bool>)
    ensures
        embeds(candidate, text::initials_of(candidate, marks)),
    decreases candidate.len(),
{
    let initials = text::initials_of(candidate, marks);
    if candidate.len() == 0 {
        assert(embeds_at(candidate, initials, Seq::<int>::empty()));
    } else {
        let shorter = candidate.drop_last();
        let earlier = text::initials_of(shorter, marks);
        lemma_initials_embed(shorter, marks);
        let positions = choose|positions: Seq<int>| embeds_at(shorter, earlier, positions);
        let n = candidate.len() as int;
        if initials == earlier {
            assert(embeds_at(candidate, initials, positions));
        } else {
            assert(embeds_at(candidate, initials, positions.push(n - 1)));
        }
    }
}

/// A prefix of an embedded text embeds.
proof fn lemma_prefix_embeds(text: Seq<char>, longer: Seq<char>, prefix: Seq<char>)
    requires
        embeds(text, longer),
        prefix.is_prefix_of(longer),
    ensures
        embeds(text, prefix),
{
    let positions = choose|positions: Seq<int>| embeds_at(text, longer, positions);
    let shorter = positions.take(prefix.len() as int);
    assert forall|i: int| 0 <= i < shorter.len() implies 0 <= #[trigger] shorter[i] < text.len()
        && text[shorter[i]] == prefix[i] by {
        assert(shorter[i] == positions[i]);
        assert(prefix[i] == longer[i]);
    }
    assert(embeds_at(text, prefix, shorter));
}

/// A part of a text embeds in it.
proof fn lemma_part_embeds(text: Seq<char>, part: Seq<char>, at: int)
    requires
        occurs_at(text, part, at),
    ensures
        embeds(text, part),
{
    let positions = Seq::new(part.len(), |i: int| at + i);
    assert forall|i: int| 0 <= i < positions.len() implies 0 <= #[trigger] positions[i]
        < text.len() && text[positions[i]] == part[i] by {
        assert(text.subrange(at, at + part.len())[i] == part[i]);
    }
    assert(embeds_at(text, part, positions));
}

/// A candidate matches a query exactly if the query's characters occur in it in
/// order.
pub proof fn law_match_is_subsequence(query: Seq<char>, candidate: Seq<char>)
    ensures
        fuzzy_value(query, candidate) is Some <==> embeds(candidate, query),
{
    let initials = text::acronym_of(candidate);
    if fuzzy_value(query, candidate) is Some {
        if query.len() == 0 {
            assert(embeds_at(candidate, query, Seq::<int>::empty()));
        } else if query == candidate || query.is_prefix_of(candidate) {
            assert(candidate.subrange(0, query.len() as int) =~= query);
            lemma_part_embeds(candidate, query, 0);
        } else if query.is_prefix_of(initials) {
            lemma_initials_embed(candidate, text::word_marks(candidate));
            lemma_prefix_embeds(candidate, initials, query);
        } else if occurs(candidate, query) {
            let at = choose|at: int| occurs_at(candidate, query, at);
            lemma_part_embeds(candidate, query, at);
        } else {
            lemma_scattered_embeds(candidate, query);
        }
    }
    if embeds(candidate, query) {
        let positions = choose|positions: Seq<int>| embeds_at(candidate, query, positions);
        lemma_scattered_leftmost(candidate, query, positions);
    }
}

/// Positions found by the search leave no negative gap.
proof fn lemma_total_gap_nonnegative(text: Seq<char>, positions: Seq<int>)
    ensures
        total_gap(text, positions) >= 0,
    decreases positions.len(),
{
    if positions.len() >= 2 {
        lemma_total_gap_nonnegative(text, positions.drop_last());
    }
}

/// An equal text has the highest of all scores, and nothing else has it.
pub proof fn law_equal_text_ranks_first(query: Seq<char>, candidate: Seq<char>)
    requires
        query.len() > 0,
    ensures
        query == candidate ==> fuzzy_value(query, candidate) == Some(10_000int),
        query != candidate ==> (fuzzy_value(query, candidate) matches Some(value) ==> value
            < 9_000),
{
    if query != candidate {
        text::lemma_byte_len_bound(candidate);
        if candidate.len() == 0 {
            assert(query.is_prefix_of(candidate) ==> query =~= candidate);
            assert(text::acronym_of(candidate).len() == 0);
        }
        match scattered_positions(candidate, query) {
            Some(positions) => lemma_total_gap_nonnegative(candidate, positions),
            None => {},
        }
    }
}

/// No text scores more than an equal one.
proof fn lemma_value_bound(query: Seq<char>, candidate: Seq<char>)
    ensures
        fuzzy_value(query, candidate) matches Some(value) ==> value <= 10_000,
{
    match scattered_positions(candidate, query) {
        Some(positions) => lemma_total_gap_nonnegative(candidate, positions),
        None => {},
    }
}

/// The best of several texts decides: no text scores more than all of them
/// together, one of them scores as much, and nothing matches only where none of
/// them does. A score below all numbers counts as the least of them.
pub proof fn law_best_term_decides(query: Seq<char>, terms: Seq<Seq<char>>)
    ensures
        best_value(query, terms) is None <==> forall|i: int|
            0 <= i < terms.len() ==> fuzzy_value(query, #[trigger] terms[i]) is None,
        best_value(query, terms) matches Some(best) ==> {
            &&& forall|i: int|
                0 <= i < terms.len() ==> (fuzzy_value(query, #[trigger] terms[i]) matches Some(
                    value,
                ) ==> best >= value)
            &&& exists|i: int|
                0 <= i < terms.len() && (fuzzy_value(query, #[trigger] terms[i]) matches Some(
                    value,
                ) && (best == value || (value < i64::MIN && best == i64::MIN)))
        },
    decreases terms.len(),
{
    if terms.len() > 0 {
        let (rest, last) = (terms.drop_last(), terms.last());
        law_best_term_decides(query, rest);
        lemma_value_bound(query, last);
        assert forall|i: int| 0 <= i < rest.len() implies #[trigger] rest[i] == terms[i] by {}
        assert(terms[terms.len() - 1] == last);
        if best_value(query, terms) is None {
            assert forall|i: int| 0 <= i < terms.len() implies fuzzy_value(
                query,
                #[trigger] terms[i],
            ) is None by {
                if i < rest.len() {
                    assert(rest[i] == terms[i]);
                }
            }
        } else {
            let best = best_value(query, terms)->0;
            assert forall|i: int| 0 <= i < terms.len() implies (fuzzy_value(
                query,
                #[trigger] terms[i],
            ) matches Some(value) ==> best >= value) by {
                if i < rest.len() {
                    assert(rest[i] == terms[i]);
                }
            }
            if clamped(fuzzy_value(query, last)) == Some(best) {
                assert(fuzzy_value(query, terms[terms.len() - 1]) is Some);
            } else {
                let i = choose|i: int|
                    0 <= i < rest.len() && (fuzzy_value(query, #[trigger] rest[i]) matches Some(
                        value,
                    ) && (best == value || (value < i64::MIN && best == i64::MIN)));
                assert(terms[i] == rest[i]);
            }
        }
    }
}

/// One text that equals the query gives the highest score there is, and without
/// one no score comes near it.
pub proof fn law_equal_term_is_best(query: Seq<char>, terms: Seq<Seq<char>>)
    requires
        query.len() > 0,
    ensures
        terms.contains(query) ==> best_value(query, terms) == Some(10_000int),
        !terms.contains(query) ==> (best_value(query, terms) matches Some(best) ==> best < 9_000),
{
    law_best_term_decides(query, terms);
    if terms.contains(query) {
        let at = choose|at: int| 0 <= at < terms.len() && terms[at] == query;
        law_equal_text_ranks_first(query, terms[at]);
    }
    if let Some(best) = best_value(query, terms) {
        let i = choose|i: int|
            0 <= i < terms.len() && (fuzzy_value(query, #[trigger] terms[i]) matches Some(value)
                && (best == value || (value < i64::MIN && best == i64::MIN)));
        law_equal_text_ranks_first(query, terms[i]);
        if query == terms[i] {
            assert(terms.contains(query));
        }
    }
}

/// In texts of less than a thousand bytes the kind of match decides before
/// anything else: an equal text, then one that begins with the query, one whose
/// initials do, one that contains it, and one with its characters in order.
pub proof fn law_kinds_of_match_rank(query: Seq<char>, candidate: Seq<char>)
    requires
        query.len() > 0,
        text::byte_len(candidate) < 1_000,
    ensures
        ({
            let value = fuzzy_value(query, candidate);
            let begins = query.is_prefix_of(candidate);
            let abbreviates = query.is_prefix_of(text::acronym_of(candidate));
            let contains = occurs(candidate, query);
            &&& value is Some <==> embeds(candidate, query)
            &&& value is Some ==> {
                &&& query == candidate ==> value->0 == 10_000
                &&& begins && query != candidate ==> 8_000 < value->0 < 9_000
                &&& abbreviates && !begins ==> 7_000 < value->0 < 8_000
                &&& contains && !begins && !abbreviates ==> 5_000 < value->0 < 7_000
                &&& !contains && !begins && !abbreviates ==> 3_000 < value->0 < 5_000
            }
        }),
{
    law_match_is_subsequence(query, candidate);
    text::lemma_byte_len_bound(candidate);
    if fuzzy_value(query, candidate) is Some {
        assert(candidate.len() > 0) by {
            let positions = choose|positions: Seq<int>| embeds_at(candidate, query, positions);
            assert(0 <= positions[0] < candidate.len());
        }
        if query == candidate || query.is_prefix_of(candidate) || query.is_prefix_of(
            text::acronym_of(candidate),
        ) {
            assert(query == candidate ==> query.is_prefix_of(candidate));
        } else if occurs(candidate, query) {
            lemma_part_before_end(candidate, query);
        } else {
            lemma_scatter_within(candidate, query);
        }
    }
}

/// What stands before an occurrence is no longer than the text.
proof fn lemma_part_before_end(candidate: Seq<char>, query: Seq<char>)
    requires
        occurs(candidate, query),
    ensures
        text::byte_len(candidate.take(first_occurrence(candidate, query))) <= text::byte_len(
            candidate,
        ),
{
    let some = choose|at: int| occurs_at(candidate, query, at);
    lemma_first_exists(candidate, query, some);
    let first = first_occurrence(candidate, query);
    text::lemma_byte_len_monotonic(candidate, first, candidate.len() as int);
    assert(candidate.take(candidate.len() as int) =~= candidate);
}

/// The gaps of a match are no longer than the text.
proof fn lemma_scatter_within(candidate: Seq<char>, query: Seq<char>)
    requires
        query.len() > 0,
        scattered_positions(candidate, query) is Some,
    ensures
        0 <= total_gap(candidate, scattered_positions(candidate, query)->0) <= text::byte_len(
            candidate,
        ),
{
    let positions = scattered_positions(candidate, query)->0;
    lemma_total_gap_nonnegative(candidate, positions);
    lemma_scattered_embeds(candidate, query);
    lemma_gap_telescopes(candidate, query, positions);
    assert(0 <= positions[positions.len() - 1] < candidate.len());
    text::lemma_byte_len_monotonic(candidate, positions.last(), candidate.len() as int);
    assert(candidate.take(candidate.len() as int) =~= candidate);
}

/// What occurs has a first occurrence.
proof fn lemma_first_exists(text: Seq<char>, pattern: Seq<char>, at: int)
    requires
        occurs_at(text, pattern, at),
    ensures
        is_first_occurrence(text, pattern, first_occurrence(text, pattern)),
        first_occurrence(text, pattern) <= at,
    decreases at,
{
    if exists|earlier: int| 0 <= earlier < at && occurs_at(text, pattern, earlier) {
        let earlier = choose|earlier: int| 0 <= earlier < at && occurs_at(text, pattern, earlier);
        lemma_first_exists(text, pattern, earlier);
    } else {
        lemma_first_occurrence(text, pattern, at);
    }
}

/// The gaps of an embedding are what lies between its ends.
proof fn lemma_gap_telescopes(text: Seq<char>, query: Seq<char>, positions: Seq<int>)
    requires
        query.len() > 0,
        embeds_at(text, query, positions),
    ensures
        total_gap(text, positions) == text::byte_len(text.take(positions.last()))
            - text::byte_len(text.take(positions[0])) - (positions.len() - 1),
    decreases query.len(),
{
    if query.len() > 1 {
        let shorter = positions.drop_last();
        let n = positions.len() as int;
        assert(embeds_at(text, query.drop_last(), shorter)) by {
            assert forall|i: int| 0 <= i < shorter.len() implies 0 <= #[trigger] shorter[i]
                < text.len() && text[shorter[i]] == query.drop_last()[i] by {
                assert(positions[i] == shorter[i]);
            }
        }
        lemma_gap_telescopes(text, query.drop_last(), shorter);
        assert(positions[n - 2] < positions[n - 1]);
        assert(0 <= positions[n - 2] < text.len());
        assert(0 <= positions[n - 1] < text.len());
        text::lemma_byte_len_monotonic(text, positions[n - 2], positions[n - 1]);
        assert(shorter.last() == positions[n - 2]);
    }
}

/// Every position that the search finds is the earliest that any embedding has.
proof fn lemma_scattered_earliest(text: Seq<char>, query: Seq<char>, other: Seq<int>, i: int)
    requires
        embeds_at(text, query, other),
        0 <= i < query.len(),
    ensures
        scattered_positions(text, query) is Some,
        scattered_positions(text, query)->0.len() == query.len(),
        scattered_positions(text, query)->0[i] <= other[i],
    decreases query.len(),
{
    lemma_scattered_leftmost(text, query, other);
    if i < query.len() - 1 {
        let shorter = other.drop_last();
        assert(embeds_at(text, query.drop_last(), shorter)) by {
            assert forall|k: int| 0 <= k < shorter.len() implies 0 <= #[trigger] shorter[k]
                < text.len() && text[shorter[k]] == query.drop_last()[k] by {
                assert(other[k] == shorter[k]);
            }
        }
        lemma_scattered_earliest(text, query.drop_last(), shorter, i);
    }
}

/// What a match loses: a text that begins with the query, or whose initials do,
/// one point for each of its bytes.
pub proof fn law_longer_texts_score_less(query: Seq<char>, candidate: Seq<char>)
    requires
        query.len() > 0,
        query != candidate,
    ensures
        query.is_prefix_of(candidate) ==> fuzzy_value(query, candidate) == Some(
            9_000 - text::byte_len(candidate),
        ),
        !query.is_prefix_of(candidate) && query.is_prefix_of(text::acronym_of(candidate))
            ==> fuzzy_value(query, candidate) == Some(8_000 - text::byte_len(candidate)),
{
}

/// A text that contains the query loses one point for each byte of it, and one
/// more for each byte before the query's first place.
pub proof fn law_later_parts_score_less(before: Seq<char>, query: Seq<char>, after: Seq<char>)
    requires
        query.len() > 0,
        forall|at: int|
            0 <= at < before.len() ==> #[trigger] (before + query + after).subrange(
                at,
                at + query.len(),
            ) != query,
        !query.is_prefix_of(before + query + after),
        !query.is_prefix_of(text::acronym_of(before + query + after)),
    ensures
        fuzzy_value(query, before + query + after) == Some(
            7_000 - 2 * text::byte_len(before) - text::byte_len(query) - text::byte_len(after),
        ),
{
    let candidate = before + query + after;
    let at = before.len() as int;
    assert(candidate.subrange(at, at + query.len()) =~= query);
    assert(is_first_occurrence(candidate, query, at));
    lemma_first_occurrence(candidate, query, at);
    assert(candidate.take(at) =~= before);
    text::lemma_encode_concat(before + query, after);
    text::lemma_encode_concat(before, query);
    if query == candidate {
        assert(query.is_prefix_of(candidate));
    }
}

/// Where the query's characters are merely scattered over the text, each as early
/// as it can be, the text loses one point for each of its bytes, and one for
/// each byte between the first and the last of them beyond one a step.
pub proof fn law_wider_scatter_scores_less(
    query: Seq<char>,
    candidate: Seq<char>,
    positions: Seq<int>,
)
    requires
        query.len() > 0,
        embeds_at(candidate, query, positions),
        forall|other: Seq<int>, i: int|
            #![trigger other[i], embeds_at(candidate, query, other)]
            embeds_at(candidate, query, other) && 0 <= i < query.len() ==> positions[i] <= other[i],
        !query.is_prefix_of(candidate),
        !query.is_prefix_of(text::acronym_of(candidate)),
        forall|at: int|
            0 <= at && at + query.len() <= candidate.len() ==> #[trigger] candidate.subrange(
                at,
                at + query.len(),
            ) != query,
    ensures
        fuzzy_value(query, candidate) == Some(
            5_000 - (text::byte_len(candidate.take(positions.last())) - text::byte_len(
                candidate.take(positions[0]),
            ) - (query.len() - 1)) - text::byte_len(candidate),
        ),
{
    if query == candidate {
        assert(query.is_prefix_of(candidate));
    }
    if occurs(candidate, query) {
        let at = choose|at: int| occurs_at(candidate, query, at);
        assert(candidate.subrange(at, at + query.len()) == query);
    }
    lemma_scattered_earliest(candidate, query, positions, 0);
    let found = scattered_positions(candidate, query)->0;
    lemma_scattered_embeds(candidate, query);
    assert(found =~= positions) by {
        assert forall|i: int| 0 <= i < query.len() implies found[i] == positions[i] by {
            lemma_scattered_earliest(candidate, query, positions, i);
            assert(embeds_at(candidate, query, found));
            assert(positions[i] <= found[i]);
        }
    }
    lemma_gap_telescopes(candidate, query, positions);
}

/// A query without characters matches everything and tells nothing apart.
pub proof fn law_empty_query_scores_nothing(query: Seq<char>, candidate: Seq<char>)
    requires
        query.len() == 0,
    ensures
        fuzzy_value(query, candidate) == Some(0int),
{
}

} // verus!
