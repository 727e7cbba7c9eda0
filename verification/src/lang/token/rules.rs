//! The rules for words, names and numbers.

use vstd::prelude::*;
use crate::lang::token::{Token, TokenRule, TokenText};
use crate::text::texts;
use crate::util::lexer::{digit_of, is_digit_in, number_of, number_value};
use crate::util::{is_valid_label_char, is_valid_label_chars, label_char, to_chars, valid_label};

verus! {

/// The room that a rule gives to its text to start with.
pub const BUFFER_CAPACITY: usize = 20;

/// The number of bytes that `text` takes in UTF-8.
pub open spec fn byte_len(text: Seq<char>) -> int {
    text_bytes(text).len() as int
}

/// `text` in UTF-8.
pub open spec fn text_bytes(text: Seq<char>) -> Seq<u8> {
    vstd::utf8::encode_utf8(text)
}

/// Finds one word.
///
/// The rule takes a character if it is the one that its pattern holds at
/// the position that the number of bytes taken so far names. The pattern
/// starts as the word and grows by every character taken.
#[derive(Debug)]
pub struct Keyword {
    buffer: String,
    keyword: String,
    token: Token,
    chars: Vec<char>,
}

impl Keyword {
    /// What the rule has taken since it was cleared.
    pub closed spec fn taken(&self) -> Seq<char> {
        self.buffer@
    }

    /// The word that the rule looks for.
    pub closed spec fn word(&self) -> Seq<char> {
        self.keyword@
    }

    /// The token that the word stands for.
    pub closed spec fn meaning(&self) -> TokenText {
        self.token@
    }

    /// The characters against which the rule holds what it is offered.
    pub closed spec fn pattern(&self) -> Seq<char> {
        self.chars@
    }

    /// Whether the rule would take `c` now.
    pub open spec fn takes(&self, c: char) -> bool {
        byte_len(self.taken()) < self.pattern().len() && c == self.pattern()[byte_len(
            self.taken(),
        )]
    }

    /// A rule that finds the word `keyword` and gives `token` for it.
    pub fn build(keyword: &str, token: Token) -> (rule: Keyword)
        ensures
            rule.taken() == Seq::<char>::empty(),
            rule.word() == keyword@,
            rule.pattern() == keyword@,
            rule.meaning() == token@,
    {
        let chars = to_chars(keyword);
        Keyword { buffer: String::new(), keyword: String::from_str(keyword), token, chars }
    }

    /// The rule that `build` makes, as the lexer takes its rules: behind a
    /// pointer that hides which rule it is.
    pub fn new(keyword: &str, token: Token) -> Box<dyn TokenRule> {
        Box::new(Keyword::build(keyword, token))
    }
}

impl TokenRule for Keyword {
    open spec fn cleared(&self) -> bool {
        self.taken().len() == 0
    }

    open spec fn buffer(&self) -> Seq<char> {
        self.taken()
    }

    open spec fn memory(&self) -> Seq<char> {
        self.pattern()
    }

    open spec fn takes_at(&self, buffer: Seq<char>, memory: Seq<char>, c: char) -> bool {
        byte_len(buffer) < memory.len() && c == memory[byte_len(buffer)]
    }

    open spec fn memory_after(&self, buffer: Seq<char>, memory: Seq<char>, c: char) -> Seq<
        char,
    > {
        memory.push(c)
    }

    open spec fn holds_at(&self, buffer: Seq<char>, memory: Seq<char>) -> bool {
        buffer == self.word()
    }

    open spec fn token_at(&self, buffer: Seq<char>, memory: Seq<char>) -> Option<TokenText> {
        if buffer == self.word() && buffer.len() > 0 {
            Some(self.meaning())
        } else {
            None
        }
    }

    fn push_char(&mut self, c: char) -> (taken: bool)
        ensures
            taken == old(self).takes(c),
            final(self).word() == old(self).word(),
            final(self).meaning() == old(self).meaning(),
            final(self).taken() == if taken {
                old(self).taken().push(c)
            } else {
                old(self).taken()
            },
            final(self).pattern() == if taken {
                old(self).pattern().push(c)
            } else {
                old(self).pattern()
            },
    {
        let at = self.buffer.as_str().as_bytes().len();
        if at < self.chars.len() {
            if c == self.chars[at] {
                self.buffer.push(c);
                self.chars.push(c);
                true
            } else {
                false
            }
        } else {
            false
        }
    }

    fn valid(&self) -> (yes: bool)
        ensures
            yes == (self.taken() == self.word()),
    {
        self.buffer == self.keyword
    }

    fn get(&self) -> (token: Option<Token>)
        ensures
            match token {
                Some(found) => self.taken() == self.word() && self.taken().len() > 0 && found@
                    == self.meaning(),
                None => self.taken() != self.word() || self.taken().len() == 0,
            },
    {
        if self.valid() && self.buffer.as_str().unicode_len() > 0 {
            Some(self.token.copy())
        } else {
            None
        }
    }

    fn clear(&mut self)
        ensures
            final(self).taken() == Seq::<char>::empty(),
            final(self).word() == old(self).word(),
            final(self).meaning() == old(self).meaning(),
            final(self).pattern() == old(self).pattern(),
    {
        self.buffer = String::new();
    }
}

/// Finds a name: letters, digits and underscores that make a valid label
/// and are none of the words that the rule was told to leave alone.
#[derive(Debug)]
pub struct Identifier {
    buffer: String,
    blacklist: Vec<String>,
}

impl Identifier {
    /// What the rule has taken since it was cleared.
    pub closed spec fn taken(&self) -> Seq<char> {
        self.buffer@
    }

    /// The words that are no names.
    pub closed spec fn reserved(&self) -> Seq<Seq<char>> {
        texts(self.blacklist@)
    }

    /// Whether what the rule has taken is a name.
    pub open spec fn names(&self) -> bool {
        !self.reserved().contains(self.taken()) && valid_label(self.taken(), false)
    }

    /// A rule that finds names but none of `blacklist`.
    pub fn build(blacklist: Vec<String>) -> (rule: Identifier)
        ensures
            rule.taken() == Seq::<char>::empty(),
            rule.reserved() == texts(blacklist@),
    {
        Identifier { buffer: String::new(), blacklist }
    }

    /// The rule that `build` makes, as the lexer takes its rules: behind a
    /// pointer that hides which rule it is.
    pub fn new(blacklist: Vec<String>) -> Box<dyn TokenRule> {
        Box::new(Identifier::build(blacklist))
    }
}

impl TokenRule for Identifier {
    open spec fn cleared(&self) -> bool {
        self.taken().len() == 0
    }

    open spec fn buffer(&self) -> Seq<char> {
        self.taken()
    }

    open spec fn memory(&self) -> Seq<char> {
        Seq::empty()
    }

    open spec fn takes_at(&self, buffer: Seq<char>, memory: Seq<char>, c: char) -> bool {
        label_char(c)
    }

    open spec fn memory_after(&self, buffer: Seq<char>, memory: Seq<char>, c: char) -> Seq<
        char,
    > {
        memory
    }

    open spec fn holds_at(&self, buffer: Seq<char>, memory: Seq<char>) -> bool {
        !self.reserved().contains(buffer) && valid_label(buffer, false)
    }

    open spec fn token_at(&self, buffer: Seq<char>, memory: Seq<char>) -> Option<TokenText> {
        if self.holds_at(buffer, memory) {
            Some(TokenText::Identifier(buffer))
        } else {
            None
        }
    }

    fn push_char(&mut self, c: char) -> (taken: bool)
        ensures
            taken == label_char(c),
            final(self).reserved() == old(self).reserved(),
            final(self).taken() == if taken {
                old(self).taken().push(c)
            } else {
                old(self).taken()
            },
    {
        if is_valid_label_char(c) {
            self.buffer.push(c);
            true
        } else {
            false
        }
    }

    fn valid(&self) -> (yes: bool)
        ensures
            yes == self.names(),
    {
        let mut i: usize = 0;
        while i < self.blacklist.len()
            invariant
                i <= self.blacklist@.len(),
                forall|k: int| 0 <= k < i ==> texts(self.blacklist@)[k] != self.buffer@,
            decreases self.blacklist@.len() - i,
        {
            if self.blacklist[i] == self.buffer {
                assert(texts(self.blacklist@)[i as int] == self.buffer@);
                return false;
            }
            i += 1;
        }
        let chars = to_chars(self.buffer.as_str());
        is_valid_label_chars(chars.as_slice(), false)
    }

    fn get(&self) -> (token: Option<Token>)
        ensures
            match token {
                Some(found) => self.names() && found@ == TokenText::Identifier(self.taken()),
                None => !self.names(),
            },
    {
        if self.valid() {
            Some(Token::Identifier(self.buffer.clone()))
        } else {
            None
        }
    }

    fn clear(&mut self)
        ensures
            final(self).taken() == Seq::<char>::empty(),
            final(self).reserved() == old(self).reserved(),
    {
        self.buffer = String::new();
    }
}

/// Whether `text` is digits of the radix `radix`, and at least one.
pub open spec fn digits_in(text: Seq<char>, radix: int) -> bool {
    text.len() > 0 && forall|i: int| 0 <= i < text.len() ==> is_digit_in(text[i], radix)
}

/// The number that `text` writes in the radix `radix`, where it is digits
/// of a radix from 2 to 36 whose value 32 bits hold.
pub open spec fn number_in(text: Seq<char>, radix: int) -> Option<u32> {
    if digits_in(text, radix) && 2 <= radix <= 36 && number_value(text, radix) <= u32::MAX {
        Some(number_value(text, radix) as u32)
    } else {
        None
    }
}

/// Finds a number without a sign, written in the digits of a radix.
#[derive(Debug)]
pub struct UInt {
    buffer: String,
    radix: u32,
}

impl UInt {
    /// What the rule has taken since it was cleared.
    pub closed spec fn taken(&self) -> Seq<char> {
        self.buffer@
    }

    /// The radix of the numbers.
    pub closed spec fn base(&self) -> u32 {
        self.radix
    }

    /// Whether what the rule has taken is digits, and at least one.
    pub open spec fn digits(&self) -> bool {
        digits_in(self.taken(), self.base() as int)
    }

    /// The number that the rule has taken, where it has taken digits of a
    /// radix from 2 to 36 whose value 32 bits hold.
    pub open spec fn number(&self) -> Option<u32> {
        number_in(self.taken(), self.base() as int)
    }

    /// A rule that finds numbers in the radix `radix`.
    pub fn build(radix: u32) -> (rule: UInt)
        ensures
            rule.taken() == Seq::<char>::empty(),
            rule.base() == radix,
    {
        UInt { buffer: String::new(), radix }
    }

    /// The rule that `build` makes, as the lexer takes its rules: behind a
    /// pointer that hides which rule it is.
    pub fn new(radix: u32) -> Box<dyn TokenRule> {
        Box::new(UInt::build(radix))
    }

    /// Whether `c` is a digit of the radix.
    fn is_digit(&self, c: char) -> (yes: bool)
        ensures
            yes == is_digit_in(c, self.base() as int),
    {
        match digit_of(c) {
            Some(value) => value < self.radix,
            None => false,
        }
    }
}

impl TokenRule for UInt {
    open spec fn cleared(&self) -> bool {
        self.taken().len() == 0
    }

    open spec fn buffer(&self) -> Seq<char> {
        self.taken()
    }

    open spec fn memory(&self) -> Seq<char> {
        Seq::empty()
    }

    open spec fn takes_at(&self, buffer: Seq<char>, memory: Seq<char>, c: char) -> bool {
        is_digit_in(c, self.base() as int)
    }

    open spec fn memory_after(&self, buffer: Seq<char>, memory: Seq<char>, c: char) -> Seq<
        char,
    > {
        memory
    }

    open spec fn holds_at(&self, buffer: Seq<char>, memory: Seq<char>) -> bool {
        digits_in(buffer, self.base() as int)
    }

    open spec fn token_at(&self, buffer: Seq<char>, memory: Seq<char>) -> Option<TokenText> {
        match number_in(buffer, self.base() as int) {
            Some(value) => Some(TokenText::UInt(value)),
            None => None,
        }
    }

    fn push_char(&mut self, c: char) -> (taken: bool)
        ensures
            taken == is_digit_in(c, old(self).base() as int),
            final(self).base() == old(self).base(),
            final(self).taken() == if taken {
                old(self).taken().push(c)
            } else {
                old(self).taken()
            },
    {
        if self.is_digit(c) {
            self.buffer.push(c);
            true
        } else {
            false
        }
    }

    fn valid(&self) -> (yes: bool)
        ensures
            yes == self.digits(),
    {
        let chars = to_chars(self.buffer.as_str());
        if chars.len() == 0 {
            return false;
        }
        let mut i: usize = 0;
        while i < chars.len()
            invariant
                i <= chars@.len(),
                chars@ == self.buffer@,
                forall|k: int| 0 <= k < i ==> is_digit_in(chars@[k], self.radix as int),
            decreases chars@.len() - i,
        {
            if !self.is_digit(chars[i]) {
                return false;
            }
            i += 1;
        }
        true
    }

    fn get(&self) -> (token: Option<Token>)
        ensures
            match self.number() {
                Some(value) => token matches Some(found) && found@ == TokenText::UInt(value),
                None => token is None,
            },
    {
        if !self.valid() || self.radix < 2 || self.radix > 36 {
            return None;
        }
        let chars = to_chars(self.buffer.as_str());
        match number_of(chars.as_slice(), self.radix as u8) {
            Some(value) => Some(Token::UInt(value)),
            None => None,
        }
    }

    fn clear(&mut self)
        ensures
            final(self).taken() == Seq::<char>::empty(),
            final(self).base() == old(self).base(),
    {
        self.buffer = String::new();
    }
}

} // verus!
