//! Text as sequences of characters: words, trimming, prefixes and case.

use vstd::prelude::*;
use crate::util::{hex_digit, hex_digits};

verus! {

/// Whether `c` is white space in the sense of Unicode, as
/// `char::is_whitespace` decides it.
pub uninterp spec fn whitespace(c: char) -> bool;

/// `text` in upper case, as `str::to_uppercase` writes it.
pub uninterp spec fn uppercased(text: Seq<char>) -> Seq<char>;

/// `text` in lower case, as `str::to_lowercase` writes it.
pub uninterp spec fn lowercased(text: Seq<char>) -> Seq<char>;

/// `char::is_whitespace` of the standard library. The contract only names
/// its result: which characters are white space is a table of Unicode
/// that nothing here states or proves.
pub assume_specification[ char::is_whitespace ](c: char) -> (yes: bool)
    ensures
        yes == whitespace(c),
;

/// `str::to_uppercase` of the standard library. The contract only names
/// its result: the case mapping of Unicode, which may even change the
/// length of a text, is nothing that is stated or proved here.
#[verifier::external_body]
pub(crate) fn to_uppercase(text: &str) -> (upper: String)
    ensures
        upper@ == uppercased(text@),
{
    text.to_uppercase()
}

/// `str::to_lowercase` of the standard library. The contract only names
/// its result: the case mapping of Unicode is nothing that is stated or
/// proved here.
#[verifier::external_body]
pub(crate) fn to_lowercase(text: &str) -> (lower: String)
    ensures
        lower@ == lowercased(text@),
{
    text.to_lowercase()
}

/// The texts that the strings of `lines` hold.
pub open spec fn texts(lines: Seq<String>) -> Seq<Seq<char>> {
    lines.map_values(|line: String| line@)
}

/// The texts that the vectors of `words` hold.
pub open spec fn word_texts(words: Seq<Vec<char>>) -> Seq<Seq<char>> {
    words.map_values(|word: Vec<char>| word@)
}

/// Where the run of characters ends that starts at `from` and consists of
/// white space, if `space`, or of anything else, if not.
pub open spec fn span_end(text: Seq<char>, from: int, space: bool) -> int
    decreases text.len() - from,
{
    if from < 0 || from >= text.len() || whitespace(text[from]) != space {
        from
    } else {
        span_end(text, from + 1, space)
    }
}

/// The words of `text` from position `from` on.
pub open spec fn words_from(text: Seq<char>, from: int) -> Seq<Seq<char>>
    decreases text.len() - from,
{
    let start = span_end(text, from, true);
    let end = span_end(text, start, false);
    if from <= start < end <= text.len() {
        seq![text.subrange(start, end)] + words_from(text, end)
    } else {
        Seq::empty()
    }
}

/// The words of `text`: its longest runs of characters that are no white
/// space, in their order.
pub open spec fn words(text: Seq<char>) -> Seq<Seq<char>> {
    words_from(text, 0)
}

/// A run ends at or after its start and inside the text.
pub proof fn lemma_span_end_bounds(text: Seq<char>, from: int, space: bool)
    requires
        0 <= from <= text.len(),
    ensures
        from <= span_end(text, from, space) <= text.len(),
        forall|k: int| from <= k < span_end(text, from, space) ==> whitespace(text[k]) == space,
        span_end(text, from, space) < text.len() ==> whitespace(
            text[span_end(text, from, space)],
        ) != space,
    decreases text.len() - from,
{
    if from < text.len() && whitespace(text[from]) == space {
        lemma_span_end_bounds(text, from + 1, space);
    }
}

/// Finds the end of the run of white space, or of other characters, that
/// starts at `from`.
pub fn skip_span(text: &[char], from: usize, space: bool) -> (end: usize)
    requires
        from <= text@.len(),
    ensures
        end == span_end(text@, from as int, space),
        from <= end <= text@.len(),
{
    let mut i = from;
    while i < text.len() && text[i].is_whitespace() == space
        invariant
            from <= i <= text@.len(),
            span_end(text@, from as int, space) == span_end(text@, i as int, space),
        decreases text@.len() - i,
    {
        i += 1;
    }
    i
}

/// Copies the characters of `text` from `start` up to `end`.
pub fn copy_range(text: &[char], start: usize, end: usize) -> (part: Vec<char>)
    requires
        start <= end <= text@.len(),
    ensures
        part@ == text@.subrange(start as int, end as int),
{
    let mut part: Vec<char> = Vec::new();
    let mut i = start;
    while i < end
        invariant
            start <= i <= end <= text@.len(),
            part@ =~= text@.subrange(start as int, i as int),
        decreases end - i,
    {
        part.push(text[i]);
        i += 1;
    }
    part
}

/// Splits `text` into its words.
pub fn split_words(text: &[char]) -> (found: Vec<Vec<char>>)
    ensures
        word_texts(found@) == words(text@),
{
    let len = text.len();
    let mut found: Vec<Vec<char>> = Vec::new();
    let mut i: usize = 0;
    loop
        invariant
            len == text@.len(),
            i <= len,
            word_texts(found@) + words_from(text@, i as int) =~= words(text@),
        decreases len - i,
    {
        let start = skip_span(text, i, true);
        let end = skip_span(text, start, false);
        proof {
            lemma_span_end_bounds(text@, start as int, false);
        }
        if start >= end {
            assert(words_from(text@, i as int) =~= Seq::empty());
            assert(word_texts(found@) =~= words(text@));
            return found;
        }
        let word = copy_range(text, start, end);
        proof {
            assert(word_texts(found@.push(word)) =~= word_texts(found@).push(word@));
        }
        found.push(word);
        i = end;
    }
}

/// `text` without the white space at its start and at its end.
pub open spec fn trimmed(text: Seq<char>) -> Seq<char> {
    trimmed_end(text.subrange(span_end(text, 0, true), text.len() as int))
}

/// The length of `text` without the white space at its end.
pub open spec fn trimmed_len(text: Seq<char>) -> int
    decreases text.len(),
{
    if text.len() == 0 || !whitespace(text.last()) {
        text.len() as int
    } else {
        trimmed_len(text.drop_last())
    }
}

/// `text` without the white space at its end.
pub open spec fn trimmed_end(text: Seq<char>) -> Seq<char> {
    text.take(trimmed_len(text))
}

/// Copies `text` without the white space at its end.
pub fn trim_end(text: &[char]) -> (kept: Vec<char>)
    ensures
        kept@ == trimmed_end(text@),
{
    let mut end = text.len();
    proof {
        assert(text@.take(end as int) =~= text@);
    }
    while end > 0 && text[end - 1].is_whitespace()
        invariant
            end <= text@.len(),
            trimmed_len(text@) == trimmed_len(text@.take(end as int)),
        decreases end,
    {
        proof {
            assert(text@.take(end as int).drop_last() =~= text@.take(end - 1));
        }
        end -= 1;
    }
    proof {
        assert(text@.take(text@.len() as int) =~= text@);
        assert(text@.take(end as int) =~= text@.subrange(0, end as int));
    }
    copy_range(text, 0, end)
}

/// Copies `text` without the white space at its start and at its end.
pub fn trim(text: &[char]) -> (kept: Vec<char>)
    ensures
        kept@ == trimmed(text@),
{
    let start = skip_span(text, 0, true);
    let rest = copy_range(text, start, text.len());
    trim_end(rest.as_slice())
}

/// Whether `text` starts with the characters of `prefix`.
pub fn starts_with(text: &[char], prefix: &str) -> (yes: bool)
    ensures
        yes == prefix@.is_prefix_of(text@),
{
    let len = prefix.unicode_len();
    if text.len() < len {
        return false;
    }
    let mut i: usize = 0;
    while i < len
        invariant
            len == prefix@.len(),
            len <= text@.len(),
            i <= len,
            forall|k: int| 0 <= k < i ==> text@[k] == prefix@[k],
        decreases len - i,
    {
        if text[i] != prefix.get_char(i) {
            return false;
        }
        i += 1;
    }
    assert(prefix@ =~= text@.subrange(0, len as int));
    true
}

/// The position of the first `c` in `text` at or after `from`; the length
/// of `text` if there is none.
pub open spec fn position_from(text: Seq<char>, c: char, from: int) -> int
    decreases text.len() - from,
{
    if from < 0 || from >= text.len() || text[from] == c {
        from
    } else {
        position_from(text, c, from + 1)
    }
}

/// The part of `text` before its first `c`; all of it if there is none.
pub open spec fn before(text: Seq<char>, c: char) -> Seq<char> {
    text.take(position_from(text, c, 0))
}

/// Finds the first `c` in `text`; the length of `text` if there is none.
pub fn find_char(text: &[char], c: char) -> (at: usize)
    ensures
        at == position_from(text@, c, 0),
        at <= text@.len(),
{
    let mut i: usize = 0;
    while i < text.len() && text[i] != c
        invariant
            i <= text@.len(),
            position_from(text@, c, 0) == position_from(text@, c, i as int),
        decreases text@.len() - i,
    {
        i += 1;
    }
    i
}

/// The number of times that `c` stands in `text`.
pub open spec fn count_of(text: Seq<char>, c: char) -> int
    decreases text.len(),
{
    if text.len() == 0 {
        0
    } else {
        count_of(text.drop_last(), c) + if text.last() == c {
            1int
        } else {
            0int
        }
    }
}

/// Counts how often `c` stands in `text`.
pub fn count_char(text: &[char], c: char) -> (n: usize)
    ensures
        n == count_of(text@, c),
{
    let mut n: usize = 0;
    let mut i: usize = 0;
    while i < text.len()
        invariant
            i <= text@.len(),
            n <= i,
            n == count_of(text@.take(i as int), c),
        decreases text@.len() - i,
    {
        proof {
            assert(text@.take(i + 1).drop_last() =~= text@.take(i as int));
        }
        if text[i] == c {
            n += 1;
        }
        i += 1;
    }
    proof {
        assert(text@.take(text@.len() as int) =~= text@);
    }
    n
}

/// `byte` in hexadecimal capitals without a leading zero.
pub open spec fn short_hex(byte: u8) -> Seq<char> {
    if byte < 16 {
        seq![hex_digits()[byte as int]]
    } else {
        seq![hex_digits()[byte as int / 16], hex_digits()[byte as int % 16]]
    }
}

/// Appends `byte` to `text` in hexadecimal capitals without a leading
/// zero.
pub fn push_short_hex(text: &mut Vec<char>, byte: u8)
    ensures
        final(text)@ == old(text)@ + short_hex(byte),
{
    if byte >= 16 {
        text.push(hex_digit(byte / 16));
    }
    text.push(hex_digit(byte % 16));
    assert(text@ =~= old(text)@ + short_hex(byte));
}

/// Appends the characters of `more` to `text`.
pub fn push_chars(text: &mut Vec<char>, more: &[char])
    ensures
        final(text)@ == old(text)@ + more@,
{
    let mut i: usize = 0;
    while i < more.len()
        invariant
            i <= more@.len(),
            text@ =~= old(text)@ + more@.take(i as int),
        decreases more@.len() - i,
    {
        text.push(more[i]);
        i += 1;
    }
    assert(more@.take(more@.len() as int) =~= more@);
}

} // verus!
