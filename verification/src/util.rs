//! Bytes, words and digits.

use vstd::prelude::*;

pub mod lexer;

verus! {

/// The 16-bit word whose low byte is `lo` and whose high byte is `hi`.
pub open spec fn word_of(lo: u8, hi: u8) -> u16 {
    (hi as int * 256 + lo as int) as u16
}

/// The low byte of `word`.
pub open spec fn low_byte(word: u16) -> u8 {
    (word as int % 256) as u8
}

/// The high byte of `word`.
pub open spec fn high_byte(word: u16) -> u8 {
    (word as int / 256) as u8
}

/// The value of the ASCII digit `byte` in `base`, where `base` is 10 or 16.
/// Hexadecimal digits may be written in either case.
pub open spec fn digit_value(byte: u8, base: u8) -> Option<u8> {
    if base != 10 && base != 16 {
        None
    } else if 48 <= byte <= 57 {
        Some((byte - 48) as u8)
    } else if base == 16 && 97 <= byte <= 102 {
        Some((byte - 97 + 10) as u8)
    } else if base == 16 && 65 <= byte <= 70 {
        Some((byte - 65 + 10) as u8)
    } else {
        None
    }
}

/// The value of the two ASCII digits held in `word`, the first in the high
/// byte and the second in the low byte.
pub open spec fn two_digit_value(word: u16, base: u8) -> Option<u16> {
    match (digit_value(high_byte(word), base), digit_value(low_byte(word), base)) {
        (Some(hi), Some(lo)) => Some((hi as int * base as int + lo as int) as u16),
        _ => None,
    }
}

/// The low byte of `data`.
#[inline]
pub fn lower(data: u16) -> (byte: u8)
    ensures
        byte == low_byte(data),
{
    assert(data & 0xFF == data % 256) by (bit_vector);
    (data & 0xFF) as u8
}

/// The high byte of `data`.
#[inline]
pub fn upper(data: u16) -> (byte: u8)
    ensures
        byte == high_byte(data),
{
    assert(data >> 8 == data / 256) by (bit_vector);
    (data >> 8) as u8
}

/// Puts the word together whose high byte is `hi` and whose low byte is `lo`.
#[inline]
pub fn to_u16(hi: u8, lo: u8) -> (word: u16)
    ensures
        word == word_of(lo, hi),
        low_byte(word) == lo,
        high_byte(word) == hi,
{
    let hi = hi as u16;
    let lo = lo as u16;
    assert((hi << 8) | lo == hi * 256 + lo) by (bit_vector)
        requires
            hi < 256,
            lo < 256,
    ;
    (hi << 8) | lo
}

/// Whether `byte` is one of the ASCII digits `0` to `9`.
#[inline]
pub fn is_ascii_number(byte: u8) -> (yes: bool)
    ensures
        yes == (48 <= byte <= 57),
{
    byte >= 48 && byte <= 57
}

/// Whether `byte` is one of the ASCII letters `A` to `F`.
#[inline]
pub fn is_ascii_capital_alpha(byte: u8) -> (yes: bool)
    ensures
        yes == (65 <= byte <= 70),
{
    byte >= 65 && byte <= 70
}

/// Whether `byte` is one of the ASCII letters `a` to `f`.
#[inline]
pub fn is_ascii_alpha(byte: u8) -> (yes: bool)
    ensures
        yes == (97 <= byte <= 102),
{
    byte >= 97 && byte <= 102
}

/// Reads `byte` as one ASCII digit in `base`. Only the bases 10 and 16 have
/// digits; anything else gives `None`.
pub fn u8_to_number(byte: u8, base: u8) -> (value: Option<u8>)
    ensures
        value == digit_value(byte, base),
        value matches Some(v) ==> v < base,
{
    if base == 10 {
        if is_ascii_number(byte) {
            Some(byte - 48)
        } else {
            None
        }
    } else if base == 16 {
        if is_ascii_number(byte) {
            Some(byte - 48)
        } else if is_ascii_alpha(byte) {
            Some(byte - 97 + 10)
        } else if is_ascii_capital_alpha(byte) {
            Some(byte - 65 + 10)
        } else {
            None
        }
    } else {
        None
    }
}

/// Reads `word` as two ASCII digits in `base`, the first digit in the high
/// byte. `None` unless both bytes are digits of that base.
pub fn u16_to_number(word: u16, base: u8) -> (value: Option<u16>)
    ensures
        value == two_digit_value(word, base),
        value matches Some(v) ==> v < base * base,
{
    let lo = u8_to_number(lower(word), base);
    let hi = u8_to_number(upper(word), base);
    let base = base as u16;
    match (hi, lo) {
        (Some(hi_digit), Some(lo_digit)) => {
            assert(hi_digit * base + lo_digit < base * base) by (nonlinear_arith)
                requires
                    hi_digit < base,
                    lo_digit < base,
            ;
            assert(base * base <= 256) by (nonlinear_arith)
                requires
                    base <= 16,
            ;
            Some(hi_digit as u16 * base + lo_digit as u16)
        },
        _ => None,
    }
}

/// Whether `c` has the Unicode property Alphabetic, as `char::is_alphabetic`
/// decides it.
pub uninterp spec fn alphabetic(c: char) -> bool;

/// Whether `c` is alphabetic or numeric in the sense of Unicode, as
/// `char::is_alphanumeric` decides it.
pub uninterp spec fn alphanumeric(c: char) -> bool;

/// `char::is_alphabetic` of the standard library. The contract only names
/// its result: which characters are alphabetic is a table of Unicode that
/// nothing here states or proves.
pub assume_specification[ char::is_alphabetic ](c: char) -> (yes: bool)
    ensures
        yes == alphabetic(c),
;

/// `char::is_alphanumeric` of the standard library. The contract only
/// names its result: which characters are alphanumeric is a table of
/// Unicode that nothing here states or proves.
pub assume_specification[ char::is_alphanumeric ](c: char) -> (yes: bool)
    ensures
        yes == alphanumeric(c),
;

/// The lowest eight bits of the code point of `c`.
pub open spec fn byte_of(c: char) -> u8 {
    (c as u32 % 0x100) as u8
}

/// Whether `c` may stand inside a label.
pub open spec fn label_char(c: char) -> bool {
    alphanumeric(c) || c == '_'
}

/// Whether `c` may start a label.
pub open spec fn label_start(c: char) -> bool {
    alphabetic(c) || c == '_'
}

/// Whether `label` is accepted as a label. It must not be empty and must
/// start with a letter or an underscore; its last character must be a
/// label character or, where `decl` allows a declaration, a colon; the
/// characters between the first and the one before the last must be label
/// characters. The character before the last is not examined.
pub open spec fn valid_label(label: Seq<char>, decl: bool) -> bool {
    &&& label.len() > 0
    &&& label_start(label[0])
    &&& forall|i: int| 1 <= i < label.len() - 2 ==> label_char(#[trigger] label[i])
    &&& (label_char(label.last()) || (decl && label.last() == ':'))
}

/// The lowest eight bits of the code point of `c`.
pub fn char_byte(c: char) -> (byte: u8)
    ensures
        byte == byte_of(c),
{
    let code = c as u32;
    (code % 0x100) as u8
}

/// Where the text between the parentheses of an indirect operand ends,
/// looking from position `from`: at the first `)`, and at the last
/// character if there is none before it.
pub open spec fn target_end(chars: Seq<char>, from: int) -> int
    decreases chars.len() - from,
{
    if from >= chars.len() - 1 || chars[from] == ')' {
        from
    } else {
        target_end(chars, from + 1)
    }
}

/// What an indirect operand holds between its parentheses: the characters
/// after the first, up to the first `)` and never the last character.
pub open spec fn indirect_target(chars: Seq<char>) -> Seq<char> {
    if chars.len() < 2 {
        Seq::empty()
    } else {
        chars.subrange(1, target_end(chars, 1))
    }
}

/// Copies what an indirect operand holds between its parentheses: the
/// characters after the first, up to the first `)`; the last character is
/// never copied.
pub fn extract_indirect_target(chars: &[char]) -> (target: Vec<char>)
    ensures
        target@ == indirect_target(chars@),
        forall|i: int| 0 <= i < target@.len() ==> target@[i] != ')',
        chars@.len() >= 2 ==> 1 + target@.len() <= chars@.len() - 1,
{
    let size = chars.len();
    let mut target: Vec<char> = Vec::new();
    if size < 2 {
        return target;
    }
    let mut i: usize = 1;
    while i < size - 1
        invariant
            size == chars@.len(),
            size >= 2,
            1 <= i <= size - 1,
            target@.len() == i - 1,
            target@ =~= chars@.subrange(1, i as int),
            target_end(chars@, 1) == target_end(chars@, i as int),
            forall|k: int| 0 <= k < target@.len() ==> target@[k] != ')',
        decreases size - i,
    {
        if chars[i] != ')' {
            target.push(chars[i]);
        } else {
            return target;
        }
        i += 1;
    }
    target
}

/// The characters of `text`.
pub fn to_chars(text: &str) -> (chars: Vec<char>)
    ensures
        chars@ == text@,
{
    let len = text.unicode_len();
    let mut chars: Vec<char> = Vec::new();
    let mut i: usize = 0;
    while i < len
        invariant
            len == text@.len(),
            i <= len,
            chars@ =~= text@.take(i as int),
        decreases len - i,
    {
        chars.push(text.get_char(i));
        i += 1;
    }
    assert(text@.take(len as int) =~= text@);
    chars
}

/// `text` without its spaces.
pub open spec fn without_spaces(text: Seq<char>) -> Seq<char> {
    text.filter(|c: char| c != ' ')
}

/// The characters of `text` that are no spaces.
pub fn strip_spaces(text: &str) -> (chars: Vec<char>)
    ensures
        chars@ == without_spaces(text@),
{
    let all = to_chars(text);
    strip_space_chars(all.as_slice())
}

/// The characters of `text` that are no spaces.
pub fn strip_space_chars(text: &[char]) -> (chars: Vec<char>)
    ensures
        chars@ == without_spaces(text@),
{
    let len = text.len();
    let mut chars: Vec<char> = Vec::new();
    let mut i: usize = 0;
    proof {
        reveal(Seq::filter);
    }
    while i < len
        invariant
            len == text@.len(),
            i <= len,
            chars@ == without_spaces(text@.take(i as int)),
        decreases len - i,
    {
        let c = text[i];
        proof {
            reveal(Seq::filter);
            assert(text@.take(i + 1).drop_last() =~= text@.take(i as int));
        }
        if c != ' ' {
            chars.push(c);
        }
        i += 1;
    }
    assert(text@.take(len as int) =~= text@);
    chars
}

/// Whether `c` may stand inside a label: a letter, a digit or an
/// underscore.
pub fn is_valid_label_char(c: char) -> (yes: bool)
    ensures
        yes == label_char(c),
{
    c.is_alphanumeric() || c == '_'
}

/// Whether the characters `label` are accepted as a label; with `decl`,
/// a declaration may end in a colon.
pub fn is_valid_label_chars(label: &[char], decl: bool) -> (valid: bool)
    ensures
        valid == valid_label(label@, decl),
{
    let len = label.len();
    if len == 0 {
        return false;
    }
    let first = label[0];
    if !first.is_alphabetic() && first != '_' {
        return false;
    }
    let mut i: usize = 1;
    while len >= 2 && i < len - 2
        invariant
            len == label@.len(),
            1 <= i,
            forall|k: int| 1 <= k < i ==> label_char(#[trigger] label@[k]),
        decreases len - i,
    {
        if !is_valid_label_char(label[i]) {
            return false;
        }
        i += 1;
    }
    let last = label[len - 1];
    if decl {
        last == ':' || is_valid_label_char(last)
    } else {
        is_valid_label_char(last)
    }
}

/// Whether `label` is accepted as a label; with `decl`, a declaration may
/// end in a colon.
pub fn is_valid_label(label: &str, decl: bool) -> (valid: bool)
    ensures
        valid == valid_label(label@, decl),
{
    let chars = to_chars(label);
    is_valid_label_chars(chars.as_slice(), decl)
}

/// The sixteen hexadecimal digits, capitals for ten to fifteen.
pub open spec fn hex_digits() -> Seq<char> {
    seq!['0', '1', '2', '3', '4', '5', '6', '7', '8', '9', 'A', 'B', 'C', 'D', 'E', 'F']
}

/// `byte` as two hexadecimal digits.
pub open spec fn hex_u8(byte: u8) -> Seq<char> {
    seq![hex_digits()[byte as int / 16], hex_digits()[byte as int % 16]]
}

/// `word` as four hexadecimal digits.
pub open spec fn hex_u16(word: u16) -> Seq<char> {
    hex_u8(high_byte(word)) + hex_u8(low_byte(word))
}

/// The hexadecimal digit of `value`.
pub fn hex_digit(value: u8) -> (digit: char)
    requires
        value < 16,
    ensures
        digit == hex_digits()[value as int],
{
    match value {
        0 => '0',
        1 => '1',
        2 => '2',
        3 => '3',
        4 => '4',
        5 => '5',
        6 => '6',
        7 => '7',
        8 => '8',
        9 => '9',
        10 => 'A',
        11 => 'B',
        12 => 'C',
        13 => 'D',
        14 => 'E',
        _ => 'F',
    }
}

/// Appends `byte` to `text` as two hexadecimal digits.
pub fn push_hex_u8(text: &mut Vec<char>, byte: u8)
    ensures
        final(text)@ == old(text)@ + hex_u8(byte),
{
    text.push(hex_digit(byte / 16));
    text.push(hex_digit(byte % 16));
    assert(text@ =~= old(text)@ + hex_u8(byte));
}

/// Appends `word` to `text` as four hexadecimal digits.
pub fn push_hex_u16(text: &mut Vec<char>, word: u16)
    ensures
        final(text)@ == old(text)@ + hex_u16(word),
{
    push_hex_u8(text, upper(word));
    push_hex_u8(text, lower(word));
    assert(text@ =~= old(text)@ + hex_u16(word));
}

/// Appends the characters of `more` to `text`.
pub fn push_str(text: &mut Vec<char>, more: &str)
    ensures
        final(text)@ == old(text)@ + more@,
{
    let len = more.unicode_len();
    let mut i: usize = 0;
    while i < len
        invariant
            len == more@.len(),
            i <= len,
            text@ =~= old(text)@ + more@.take(i as int),
        decreases len - i,
    {
        text.push(more.get_char(i));
        i += 1;
    }
    assert(more@.take(len as int) =~= more@);
}

/// `String::push` of the standard library: it puts the character `c`
/// behind the text that the string holds.
pub assume_specification[ String::push ](text: &mut String, c: char)
    ensures
        final(text)@ == old(text)@.push(c),
;

/// The string that holds the characters of `chars` in their order.
pub fn string_of(chars: &Vec<char>) -> (text: String)
    ensures
        text@ == chars@,
{
    let mut text = String::new();
    let mut i: usize = 0;
    while i < chars.len()
        invariant
            i <= chars@.len(),
            text@ =~= chars@.take(i as int),
        decreases chars@.len() - i,
    {
        text.push(chars[i]);
        i += 1;
    }
    assert(chars@.take(chars@.len() as int) =~= chars@);
    text
}

/// The two bytes of a word put it together again.
pub proof fn lemma_word_of_bytes(word: u16)
    ensures
        word_of(low_byte(word), high_byte(word)) == word,
{
}

/// A word made of two bytes has those bytes.
pub proof fn lemma_bytes_of_word(lo: u8, hi: u8)
    ensures
        low_byte(word_of(lo, hi)) == lo,
        high_byte(word_of(lo, hi)) == hi,
{
}

} // verus!
