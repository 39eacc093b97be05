//! Characters, words and the order of strings.

use vstd::prelude::*;

verus! {

broadcast use vstd::string::group_string_axioms;

/// The lowercase form of a text, as `str::to_lowercase` gives it.
pub uninterp spec fn lowercase(text: Seq<char>) -> Seq<char>;

/// Whether the character has the Unicode property `White_Space`: the controls
/// from tab to carriage return, the spaces, and the separators of lines and
/// paragraphs.
pub open spec fn is_white_space(c: char) -> bool {
    let code = c as int;
    ||| 0x09 <= code <= 0x0d
    ||| code == 0x20
    ||| code == 0x85
    ||| code == 0xa0
    ||| code == 0x1680
    ||| 0x2000 <= code <= 0x200a
    ||| code == 0x2028
    ||| code == 0x2029
    ||| code == 0x202f
    ||| code == 0x205f
    ||| code == 0x3000
}

/// Whether the character is a letter or a number of Unicode, as
/// `char::is_alphanumeric` tells.
pub uninterp spec fn is_letter_or_number(c: char) -> bool;

/// The character with an ASCII letter in lower case.
pub open spec fn ascii_lowercase_char(c: char) -> char {
    if 'A' <= c <= 'Z' {
        (c as int + 32) as char
    } else {
        c
    }
}

/// The text with its ASCII letters in lower case.
pub open spec fn ascii_lowercase(text: Seq<char>) -> Seq<char> {
    text.map_values(|c: char| ascii_lowercase_char(c))
}

/// Each word in its lowercase form.
pub open spec fn lowercase_words(words: Seq<Seq<char>>) -> Seq<Seq<char>> {
    words.map_values(|word: Seq<char>| lowercase(word))
}

/// `str::to_lowercase` maps a text to its lowercase form, which depends on the
/// text alone. The form follows the character mappings of Unicode, of which only
/// that of the capital sigma looks at other characters, namely whether it ends a
/// word. So white space stays as it is, each word between white space is
/// lowercased on its own, and it makes no difference whether an ASCII letter was
/// in upper or in lower case. A text of ASCII characters has its letters in lower
/// case and nothing else changed.
pub assume_specification[ str::to_lowercase ](s: &str) -> (result: String)
    ensures
        result@ == lowercase(s@),
        tokens_of(result@) == lowercase_words(tokens_of(s@)),
        result@ == lowercase(ascii_lowercase(s@)),
        vstd::utf8::is_ascii_chars(s@) ==> result@ == ascii_lowercase(s@),
;

/// `char::is_whitespace` tells whether the character has the Unicode property
/// `White_Space`.
pub assume_specification[ char::is_whitespace ](c: char) -> (result: bool)
    ensures
        result == is_white_space(c),
;

/// `char::is_alphanumeric` depends on the character alone.
pub assume_specification[ char::is_alphanumeric ](c: char) -> (result: bool)
    ensures
        result == is_letter_or_number(c),
;

/// The number of bytes of a text in UTF-8.
pub open spec fn byte_len(text: Seq<char>) -> nat {
    vstd::utf8::encode_utf8(text).len()
}

/// The number of bytes of one character in UTF-8.
pub open spec fn char_bytes(c: char) -> nat {
    vstd::utf8::encode_scalar(c as u32).len()
}

/// Encoding is done character by character.
pub proof fn lemma_encode_concat(left: Seq<char>, right: Seq<char>)
    ensures
        vstd::utf8::encode_utf8(left + right) == vstd::utf8::encode_utf8(left) + vstd::utf8::encode_utf8(right),
    decreases left.len(),
{
    if left.len() == 0 {
        assert(left + right =~= right);
    } else {
        lemma_encode_concat(left.drop_first(), right);
        assert((left + right).drop_first() =~= left.drop_first() + right);
        assert((left + right)[0] == left[0]);
        assert(vstd::utf8::encode_utf8(left + right) =~= vstd::utf8::encode_utf8(left) + vstd::utf8::encode_utf8(right));
    }
}

/// One more character adds its own bytes.
pub proof fn lemma_byte_len_take(text: Seq<char>, i: int)
    requires
        0 <= i < text.len(),
    ensures
        byte_len(text.take(i + 1)) == byte_len(text.take(i)) + char_bytes(text[i]),
        1 <= char_bytes(text[i]) <= 4,
{
    let one = seq![text[i]];
    assert(text.take(i + 1) =~= text.take(i) + one);
    lemma_encode_concat(text.take(i), one);
    assert(one.drop_first() =~= Seq::<char>::empty());
    assert(vstd::utf8::encode_utf8(one) =~= vstd::utf8::encode_scalar(one[0] as u32) + vstd::utf8::encode_utf8(one.drop_first()));
}

/// A text has at most four bytes for each character.
pub proof fn lemma_byte_len_bound(text: Seq<char>)
    ensures
        text.len() <= byte_len(text) <= 4 * text.len(),
    decreases text.len(),
{
    if text.len() > 0 {
        let n = text.len() as int;
        lemma_byte_len_bound(text.drop_last());
        lemma_byte_len_take(text, n - 1);
        assert(text.take(n) =~= text);
        assert(text.take(n - 1) =~= text.drop_last());
    }
}

/// Earlier positions have smaller byte offsets.
pub proof fn lemma_byte_len_monotonic(text: Seq<char>, i: int, j: int)
    requires
        0 <= i <= j <= text.len(),
    ensures
        byte_len(text.take(i)) + (j - i) <= byte_len(text.take(j)),
    decreases j - i,
{
    if i < j {
        lemma_byte_len_monotonic(text, i, j - 1);
        lemma_byte_len_take(text, j - 1);
    }
}

/// The bytes that one character takes.
pub fn char_width(c: char) -> (width: u128)
    ensures
        width == char_bytes(c),
{
    let code: u32 = c as u32;
    if code < 0x80 {
        1
    } else if code < 0x800 {
        2
    } else if code < 0x10000 {
        3
    } else {
        4
    }
}

/// The bytes that a text takes.
pub fn text_width(text: &Vec<char>) -> (width: u128)
    ensures
        width == byte_len(text@),
{
    let mut width: u128 = 0;
    let mut i: usize = 0;
    assert(text@.take(0) =~= Seq::<char>::empty());
    while i < text.len()
        invariant
            i <= text@.len(),
            width == byte_len(text@.take(i as int)),
            width <= 4 * i,
        decreases text@.len() - i,
    {
        proof {
            lemma_byte_len_take(text@, i as int);
        }
        width = width + char_width(text[i]);
        i = i + 1;
    }
    assert(text@.take(text@.len() as int) =~= text@);
    width
}

/// The characters of a text, in order.
pub fn characters(text: &str) -> (result: Vec<char>)
    ensures
        result@ == text@,
{
    let mut result: Vec<char> = Vec::new();
    for c in it: text.chars()
        invariant
            result@ == it.seq().take(it.index() as int),
            it.seq() == text@,
    {
        result.push(c);
    }
    result
}

/// The texts of a list of character vectors.
pub open spec fn texts(list: Seq<Vec<char>>) -> Seq<Seq<char>> {
    list.map_values(|text: Vec<char>| text@)
}

/// The first character of each word, where a word is a longest run of marked
/// characters.
pub open spec fn initials_of(text: Seq<char>, in_word: Seq<bool>) -> Seq<char>
    decreases text.len(),
{
    if text.len() == 0 {
        Seq::empty()
    } else {
        let n = text.len() as int;
        let earlier = initials_of(text.drop_last(), in_word);
        if in_word[n - 1] && (n == 1 || !in_word[n - 2]) {
            earlier.push(text[n - 1])
        } else {
            earlier
        }
    }
}

/// For each character, whether it is a letter or a number.
pub open spec fn word_marks(text: Seq<char>) -> Seq<bool> {
    text.map_values(|c: char| is_letter_or_number(c))
}

/// The initials of the words of a text, where anything but letters and numbers
/// separates words.
pub open spec fn acronym_of(text: Seq<char>) -> Seq<char> {
    initials_of(text, word_marks(text))
}

/// The words of a text: the longest runs of characters that are not blank.
pub open spec fn words_of(text: Seq<char>, blank: Seq<bool>) -> Seq<Seq<char>>
    decreases text.len(),
{
    if text.len() == 0 {
        Seq::empty()
    } else {
        let n = text.len() as int;
        let earlier = words_of(text.drop_last(), blank);
        if blank[n - 1] {
            earlier
        } else if n == 1 || blank[n - 2] {
            earlier.push(seq![text[n - 1]])
        } else {
            earlier.drop_last().push(earlier.last().push(text[n - 1]))
        }
    }
}

/// For each character, whether it is white space.
pub open spec fn blank_marks(text: Seq<char>) -> Seq<bool> {
    text.map_values(|c: char| is_white_space(c))
}

/// The words of a text between white space.
pub open spec fn tokens_of(text: Seq<char>) -> Seq<Seq<char>> {
    words_of(text, blank_marks(text))
}

/// Marks beyond the text play no part in its initials.
proof fn lemma_initials_prefix(text: Seq<char>, in_word: Seq<bool>, i: int)
    requires
        0 < i <= text.len(),
    ensures
        initials_of(text.take(i), in_word) == (if in_word[i - 1] && (i == 1 || !in_word[i - 2]) {
            initials_of(text.take(i - 1), in_word).push(text[i - 1])
        } else {
            initials_of(text.take(i - 1), in_word)
        }),
{
    assert(text.take(i).drop_last() =~= text.take(i - 1));
}

/// Collects the first character of each word.
pub fn initials(text: &Vec<char>, in_word: &Vec<bool>) -> (result: Vec<char>)
    requires
        in_word@.len() == text@.len(),
    ensures
        result@ == initials_of(text@, in_word@),
{
    let mut result: Vec<char> = Vec::new();
    let mut i: usize = 0;
    while i < text.len()
        invariant
            i <= text@.len(),
            in_word@.len() == text@.len(),
            result@ == initials_of(text@.take(i as int), in_word@),
        decreases text@.len() - i,
    {
        proof {
            lemma_initials_prefix(text@, in_word@, i + 1);
        }
        if in_word[i] && (i == 0 || !in_word[i - 1]) {
            result.push(text[i]);
        }
        i = i + 1;
    }
    assert(text@.take(text@.len() as int) =~= text@);
    result
}

/// The initials of the words of a text.
pub fn acronym(candidate: &Vec<char>) -> (result: Vec<char>)
    ensures
        result@ == acronym_of(candidate@),
{
    let mut marks: Vec<bool> = Vec::new();
    let mut i: usize = 0;
    while i < candidate.len()
        invariant
            i <= candidate@.len(),
            marks@ == word_marks(candidate@).take(i as int),
        decreases candidate@.len() - i,
    {
        marks.push(candidate[i].is_alphanumeric());
        assert(marks@ =~= word_marks(candidate@).take(i + 1));
        i = i + 1;
    }
    assert(marks@ =~= word_marks(candidate@));
    initials(candidate, &marks)
}

/// What one more character does to the words.
proof fn lemma_words_prefix(text: Seq<char>, blank: Seq<bool>, i: int)
    requires
        0 < i <= text.len(),
    ensures
        words_of(text.take(i), blank) == ({
            let earlier = words_of(text.take(i - 1), blank);
            if blank[i - 1] {
                earlier
            } else if i == 1 || blank[i - 2] {
                earlier.push(seq![text[i - 1]])
            } else {
                earlier.drop_last().push(earlier.last().push(text[i - 1]))
            }
        }),
{
    assert(text.take(i).drop_last() =~= text.take(i - 1));
}

/// After a character that is not blank there is a word.
proof fn lemma_words_nonempty(text: Seq<char>, blank: Seq<bool>, i: int)
    requires
        0 < i <= text.len(),
        !blank[i - 1],
    ensures
        words_of(text.take(i), blank).len() > 0,
{
    lemma_words_prefix(text, blank, i);
}

/// Marks beyond the text play no part in its words.
proof fn lemma_words_marks(text: Seq<char>, blank: Seq<bool>, other: Seq<bool>)
    requires
        forall|i: int| 0 <= i < text.len() ==> #[trigger] blank[i] == other[i],
    ensures
        words_of(text, blank) == words_of(text, other),
    decreases text.len(),
{
    if text.len() > 0 {
        let n = text.len() as int;
        assert(blank[n - 1] == other[n - 1]);
        if n > 1 {
            assert(blank[n - 2] == other[n - 2]);
        }
        lemma_words_marks(text.drop_last(), blank, other);
    }
}

/// What one more character does to the words between white space.
proof fn lemma_tokens_push(text: Seq<char>, c: char)
    ensures
        tokens_of(text.push(c)) == (if is_white_space(c) {
            tokens_of(text)
        } else if text.len() == 0 || is_white_space(text.last()) {
            tokens_of(text).push(seq![c])
        } else {
            tokens_of(text).drop_last().push(tokens_of(text).last().push(c))
        }),
        text.len() > 0 && !is_white_space(text.last()) ==> tokens_of(text).len() > 0,
{
    let longer = text.push(c);
    assert(longer.drop_last() =~= text);
    lemma_words_marks(text, blank_marks(longer), blank_marks(text));
    if text.len() > 0 {
        assert(blank_marks(longer)[text.len() - 1] == is_white_space(text.last()));
        if !is_white_space(text.last()) {
            assert(text.take(text.len() as int) =~= text);
            lemma_words_nonempty(text, blank_marks(text), text.len() as int);
        }
    }
}

/// The words of two texts with a space between them are the words of the first
/// and then those of the second.
pub proof fn law_space_separates_words(left: Seq<char>, right: Seq<char>)
    ensures
        tokens_of(left + seq![' '] + right) == tokens_of(left) + tokens_of(right),
{
    law_white_space_separates_words(left, ' ', right);
}

/// The words of two texts with white space between them are the words of the
/// first and then those of the second.
pub proof fn law_white_space_separates_words(left: Seq<char>, space: char, right: Seq<char>)
    requires
        is_white_space(space),
    ensures
        tokens_of(left + seq![space] + right) == tokens_of(left) + tokens_of(right),
    decreases right.len(),
{
    let joined = left + seq![space] + right;
    if right.len() == 0 {
        assert(joined =~= left.push(space));
        lemma_tokens_push(left, space);
        assert(tokens_of(right) =~= Seq::empty());
        assert(tokens_of(joined) =~= tokens_of(left) + tokens_of(right));
    } else {
        let (rest, c) = (right.drop_last(), right.last());
        let earlier = left + seq![space] + rest;
        law_white_space_separates_words(left, space, rest);
        assert(joined =~= earlier.push(c));
        assert(right =~= rest.push(c));
        lemma_tokens_push(earlier, c);
        lemma_tokens_push(rest, c);
        if rest.len() == 0 {
            assert(earlier.last() == space);
        } else {
            assert(earlier.last() == rest.last());
        }
        assert(tokens_of(joined) =~= tokens_of(left) + tokens_of(right));
    }
}

/// A text without white space is one word, and one of white space has none.
pub proof fn law_word_stands_alone(text: Seq<char>)
    ensures
        text.len() > 0 && (forall|i: int|
            0 <= i < text.len() ==> !is_white_space(#[trigger] text[i])) ==> tokens_of(text)
            == seq![text],
        (forall|i: int| 0 <= i < text.len() ==> is_white_space(#[trigger] text[i]))
            ==> tokens_of(text) == Seq::<Seq<char>>::empty(),
    decreases text.len(),
{
    if text.len() > 0 {
        let (rest, last) = (text.drop_last(), text.last());
        assert(text =~= rest.push(last));
        assert(text[text.len() - 1] == last);
        assert forall|i: int| 0 <= i < rest.len() implies #[trigger] rest[i] == text[i] by {}
        law_word_stands_alone(rest);
        lemma_tokens_push(rest, last);
        if rest.len() > 0 {
            assert(rest.last() == text[text.len() - 2]);
            assert(seq![rest].drop_last() =~= Seq::empty());
            assert(seq![rest].drop_last().push(rest.push(last)) =~= seq![text]);
        } else {
            assert(tokens_of(rest) =~= Seq::empty());
            assert(text =~= seq![last]);
            assert(Seq::<Seq<char>>::empty().push(seq![last]) =~= seq![text]);
        }
    } else {
        assert(tokens_of(text) =~= Seq::empty());
    }
}

/// Marks beyond the text play no part in its initials.
proof fn lemma_initials_marks(text: Seq<char>, in_word: Seq<bool>, other: Seq<bool>)
    requires
        forall|i: int| 0 <= i < text.len() ==> #[trigger] in_word[i] == other[i],
    ensures
        initials_of(text, in_word) == initials_of(text, other),
    decreases text.len(),
{
    if text.len() > 0 {
        let n = text.len() as int;
        assert(in_word[n - 1] == other[n - 1]);
        if n > 1 {
            assert(in_word[n - 2] == other[n - 2]);
        }
        lemma_initials_marks(text.drop_last(), in_word, other);
    }
}

/// What one more character does to the initials.
proof fn lemma_acronym_push(text: Seq<char>, c: char)
    ensures
        acronym_of(text.push(c)) == (if is_letter_or_number(c) && (text.len() == 0
            || !is_letter_or_number(text.last())) {
            acronym_of(text).push(c)
        } else {
            acronym_of(text)
        }),
{
    let longer = text.push(c);
    assert(longer.drop_last() =~= text);
    lemma_initials_marks(text, word_marks(longer), word_marks(text));
    if text.len() > 0 {
        assert(word_marks(longer)[text.len() - 1] == is_letter_or_number(text.last()));
    }
}

/// A word of letters and numbers has its first character as its initial, and
/// anything else between two texts separates their initials.
pub proof fn law_initials_of_words(left: Seq<char>, separator: char, right: Seq<char>)
    ensures
        left.len() > 0 && (forall|i: int|
            0 <= i < left.len() ==> is_letter_or_number(#[trigger] left[i])) ==> acronym_of(left)
            == seq![left[0]],
        !is_letter_or_number(separator) ==> acronym_of(left + seq![separator] + right)
            == acronym_of(left) + acronym_of(right),
        acronym_of(Seq::<char>::empty()) == Seq::<char>::empty(),
    decreases left.len() + right.len(),
{
    if left.len() > 0 {
        let (rest, last) = (left.drop_last(), left.last());
        assert(left =~= rest.push(last));
        assert forall|i: int| 0 <= i < rest.len() implies #[trigger] rest[i] == left[i] by {}
        lemma_acronym_push(rest, last);
        if rest.len() > 0 {
            law_initials_of_words(rest, separator, Seq::empty());
            assert(rest.last() == left[left.len() - 2]);
        } else {
            assert(acronym_of(rest) =~= Seq::empty());
            assert(seq![left[0]] =~= Seq::empty().push(last));
        }
        assert(left[left.len() - 1] == last);
    }
    if !is_letter_or_number(separator) {
        let joined = left + seq![separator] + right;
        if right.len() == 0 {
            assert(joined =~= left.push(separator));
            lemma_acronym_push(left, separator);
            assert(acronym_of(joined) =~= acronym_of(left) + acronym_of(right));
        } else {
            let (rest, c) = (right.drop_last(), right.last());
            let earlier = left + seq![separator] + rest;
            law_initials_of_words(left, separator, rest);
            assert(joined =~= earlier.push(c));
            assert(right =~= rest.push(c));
            lemma_acronym_push(earlier, c);
            lemma_acronym_push(rest, c);
            if rest.len() == 0 {
                assert(earlier.last() == separator);
            } else {
                assert(earlier.last() == rest.last());
            }
            assert(acronym_of(joined) =~= acronym_of(left) + acronym_of(right));
        }
    }
}

/// Splits a text into its words.
pub fn split_words(text: &Vec<char>, blank: &Vec<bool>) -> (result: Vec<Vec<char>>)
    requires
        blank@.len() == text@.len(),
    ensures
        texts(result@) == words_of(text@, blank@),
{
    let mut result: Vec<Vec<char>> = Vec::new();
    let mut i: usize = 0;
    assert(texts(result@) =~= words_of(text@.take(0), blank@));
    while i < text.len()
        invariant
            i <= text@.len(),
            blank@.len() == text@.len(),
            texts(result@) == words_of(text@.take(i as int), blank@),
        decreases text@.len() - i,
    {
        let ghost before = result@;
        proof {
            lemma_words_prefix(text@, blank@, i + 1);
        }
        if !blank[i] {
            if i == 0 || blank[i - 1] {
                let mut word: Vec<char> = Vec::new();
                word.push(text[i]);
                result.push(word);
                assert(word@ =~= seq![text@[i as int]]);
                assert(texts(result@) =~= texts(before).push(word@));
            } else {
                proof {
                    lemma_words_nonempty(text@, blank@, i as int);
                }
                let last = result.pop();
                let mut word = last.unwrap();
                let ghost old_word = word@;
                word.push(text[i]);
                result.push(word);
                assert(texts(before).last() == old_word);
                assert(texts(result@) =~= texts(before).drop_last().push(word@));
            }
        }
        i = i + 1;
    }
    assert(text@.take(text@.len() as int) =~= text@);
    result
}

/// The words of a text between white space.
pub fn tokens(text: &Vec<char>) -> (result: Vec<Vec<char>>)
    ensures
        texts(result@) == tokens_of(text@),
{
    let mut marks: Vec<bool> = Vec::new();
    let mut i: usize = 0;
    while i < text.len()
        invariant
            i <= text@.len(),
            marks@ == blank_marks(text@).take(i as int),
        decreases text@.len() - i,
    {
        marks.push(text[i].is_whitespace());
        assert(marks@ =~= blank_marks(text@).take(i + 1));
        i = i + 1;
    }
    assert(marks@ =~= blank_marks(text@));
    split_words(text, &marks)
}

/// Whether the text is the lowercase form of the other, whose words it has in
/// lower case, and in which the case of ASCII letters plays no part. That of an
/// ASCII text has the same letters.
pub open spec fn is_lowercase_form(form: Seq<char>, text: Seq<char>) -> bool {
    &&& form == lowercase(text)
    &&& tokens_of(form) == lowercase_words(tokens_of(text))
    &&& form == lowercase(ascii_lowercase(text))
    &&& vstd::utf8::is_ascii_chars(text) ==> form == ascii_lowercase(text)
}

/// Whether the text has a character that is not white space.
pub open spec fn has_word(text: Seq<char>) -> bool {
    exists|i: int| 0 <= i < text.len() && !is_white_space(#[trigger] text[i])
}

/// A text with a character that is not white space has a word.
pub proof fn lemma_has_word(text: Seq<char>)
    requires
        has_word(text),
    ensures
        tokens_of(text).len() > 0,
    decreases text.len(),
{
    let (rest, last) = (text.drop_last(), text.last());
    assert(text =~= rest.push(last));
    lemma_tokens_push(rest, last);
    if is_white_space(last) {
        let i = choose|i: int| 0 <= i < text.len() && !is_white_space(#[trigger] text[i]);
        assert(rest[i] == text[i]);
        lemma_has_word(rest);
    }
}

/// The lowercase form of a text, in which searches compare.
pub fn normalize(value: &str) -> (result: String)
    ensures
        is_lowercase_form(result@, value@),
        value@.len() == 0 ==> result@.len() == 0,
{
    value.to_lowercase()
}

/// Whether `left` comes before `right` in the order of strings: the first
/// character in which they differ decides, and a proper prefix comes first.
pub open spec fn text_before(left: Seq<char>, right: Seq<char>) -> bool
    decreases left.len(),
{
    if right.len() == 0 {
        false
    } else if left.len() == 0 {
        true
    } else if left[0] != right[0] {
        (left[0] as int) < (right[0] as int)
    } else {
        text_before(left.drop_first(), right.drop_first())
    }
}

/// Of two different texts exactly one comes before the other.
pub proof fn lemma_text_order_total(left: Seq<char>, right: Seq<char>)
    ensures
        left == right ==> !text_before(left, right),
        left != right ==> text_before(left, right) != text_before(right, left),
    decreases left.len(),
{
    if left.len() > 0 && right.len() > 0 && left[0] == right[0] {
        lemma_text_order_total(left.drop_first(), right.drop_first());
        if left.drop_first() == right.drop_first() {
            assert(left =~= seq![left[0]] + left.drop_first());
            assert(right =~= seq![right[0]] + right.drop_first());
        }
    } else if left.len() == 0 && right.len() == 0 {
        assert(left =~= right);
    }
}

/// The order of strings is transitive.
pub proof fn lemma_text_order_transitive(a: Seq<char>, b: Seq<char>, c: Seq<char>)
    requires
        text_before(a, b),
        text_before(b, c),
    ensures
        text_before(a, c),
    decreases a.len(),
{
    if a.len() > 0 && a[0] == b[0] && b[0] == c[0] {
        lemma_text_order_transitive(a.drop_first(), b.drop_first(), c.drop_first());
    }
}

/// The number of a character in Unicode.
pub fn code_point(c: char) -> (code: u32)
    ensures
        code as int == c as int,
{
    c as u32
}

/// Whether `left` comes before `right` in the order of strings.
pub fn precedes(left: &str, right: &str) -> (result: bool)
    ensures
        result == text_before(left@, right@),
{
    let mut xs = left.chars();
    let mut ys = right.chars();
    let ghost mut left_over: nat = left@.len();
    loop
        invariant
            text_before(left@, right@) == text_before(vstd::std_specs::iter::IteratorSpec::remaining(&xs), vstd::std_specs::iter::IteratorSpec::remaining(&ys)),
            left_over == vstd::std_specs::iter::IteratorSpec::remaining(&xs).len(),
        decreases left_over,
    {
        match (xs.next(), ys.next()) {
            (_, None) => {
                return false;
            },
            (None, Some(_)) => {
                return true;
            },
            (Some(x), Some(y)) => {
                if x != y {
                    return code_point(x) < code_point(y);
                }
                proof {
                    left_over = (left_over - 1) as nat;
                }
            },
        }
    }
}

/// The first character in which two texts differ decides which comes first, and
/// a text comes before every longer one that begins with it.
pub proof fn law_first_difference_decides(left: Seq<char>, right: Seq<char>, at: int)
    requires
        0 <= at <= left.len(),
        at < right.len(),
        left.take(at) == right.take(at),
        at < left.len() ==> (left[at] as int) < (right[at] as int),
    ensures
        text_before(left, right),
        !text_before(right, left),
    decreases at,
{
    if at > 0 {
        assert(left.take(at)[0] == left[0] && right.take(at)[0] == right[0]);
        assert(left.drop_first().take(at - 1) =~= left.take(at).drop_first());
        assert(right.drop_first().take(at - 1) =~= right.take(at).drop_first());
        law_first_difference_decides(left.drop_first(), right.drop_first(), at - 1);
    }
}

} // verus!
