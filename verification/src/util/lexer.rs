//! A small lexer: it takes from the front of a text what a rule accepts.

use vstd::prelude::*;
use crate::text::{lowercased, split_words, to_lowercase, word_texts, words};
use crate::util::{is_valid_label_char, label_char, string_of, to_chars, valid_label};

verus! {

/// What a piece of text is.
#[derive(Debug, PartialEq)]
pub enum Token {
    /// The word that starts a definition.
    Def,
    /// A name.
    Identifier(String),
    /// A number.
    Number(u32),
}

/// A token as plain values.
pub enum TokenText {
    /// The word that starts a definition.
    Def,
    /// A name.
    Identifier(Seq<char>),
    /// A number.
    Number(u32),
}

impl View for Token {
    type V = TokenText;

    open spec fn view(&self) -> TokenText {
        match *self {
            Token::Def => TokenText::Def,
            Token::Identifier(name) => TokenText::Identifier(name@),
            Token::Number(value) => TokenText::Number(value),
        }
    }
}

/// What kind of token to look for.
#[derive(Debug)]
pub enum TokenRule {
    /// The word `def`.
    Def,
    /// A name: letters, digits and underscores.
    Identifier,
    /// A number in the radix given here.
    Number(u8),
}

/// The value of `c` as a digit: `0` to `9` count 0 to 9, the letters `a`
/// to `z`, in either case, count 10 to 35.
pub open spec fn char_digit(c: char) -> Option<int> {
    if '0' <= c <= '9' {
        Some(c as int - '0' as int)
    } else if 'a' <= c <= 'z' {
        Some(c as int - 'a' as int + 10)
    } else if 'A' <= c <= 'Z' {
        Some(c as int - 'A' as int + 10)
    } else {
        None
    }
}

/// Whether `c` is a digit of the radix `radix`.
pub open spec fn is_digit_in(c: char, radix: int) -> bool {
    char_digit(c) matches Some(value) && value < radix
}

/// The number that the digits `digits` write in the radix `radix`.
pub open spec fn number_value(digits: Seq<char>, radix: int) -> int
    decreases digits.len(),
{
    if digits.len() == 0 {
        0
    } else {
        number_value(digits.drop_last(), radix) * radix + char_digit(digits.last()).unwrap()
    }
}

/// The words `words` with single spaces between them.
pub open spec fn joined(words: Seq<Seq<char>>) -> Seq<char>
    decreases words.len(),
{
    if words.len() == 0 {
        Seq::empty()
    } else if words.len() == 1 {
        words[0]
    } else {
        joined(words.drop_last()) + seq![' '] + words.last()
    }
}

/// The value of `c` as a digit.
pub fn digit_of(c: char) -> (digit: Option<u32>)
    ensures
        match char_digit(c) {
            Some(value) => digit == Some(value as u32) && value < 36,
            None => digit is None,
        },
{
    let code = c as u32;
    if '0' <= c && c <= '9' {
        Some(code - '0' as u32)
    } else if 'a' <= c && c <= 'z' {
        Some(code - 'a' as u32 + 10)
    } else if 'A' <= c && c <= 'Z' {
        Some(code - 'A' as u32 + 10)
    } else {
        None
    }
}

/// The number that the digits `digits` write in `radix`, if 32 bits
/// hold it.
pub fn number_of(digits: &[char], radix: u8) -> (number: Option<u32>)
    requires
        2 <= radix <= 36,
        forall|i: int| 0 <= i < digits@.len() ==> is_digit_in(digits@[i], radix as int),
    ensures
        number == if number_value(digits@, radix as int) <= u32::MAX {
            Some(number_value(digits@, radix as int) as u32)
        } else {
            None
        },
{
    let mut value: u64 = 0;
    let mut i: usize = 0;
    while i < digits.len()
        invariant
            i <= digits@.len(),
            2 <= radix <= 36,
            forall|k: int| 0 <= k < digits@.len() ==> is_digit_in(digits@[k], radix as int),
            value == number_value(digits@.take(i as int), radix as int),
            value <= u32::MAX,
        decreases digits@.len() - i,
    {
        proof {
            assert(digits@.take(i + 1).drop_last() =~= digits@.take(i as int));
        }
        let digit = match digit_of(digits[i]) {
            Some(digit) => digit,
            None => 0,
        };
        assert(value * radix + digit <= u32::MAX * 36 + 36) by (nonlinear_arith)
            requires
                value <= u32::MAX,
                radix <= 36,
                digit < 36,
        ;
        value = value * radix as u64 + digit as u64;
        if value > u32::MAX as u64 {
            proof {
                lemma_number_grows(digits@, radix as int, i + 1);
            }
            return None;
        }
        i += 1;
    }
    proof {
        assert(digits@.take(digits@.len() as int) =~= digits@);
    }
    Some(value as u32)
}

impl TokenRule {
    /// Whether `c` may stand in a token of this kind.
    pub open spec fn accepts(&self, c: char) -> bool {
        match *self {
            TokenRule::Def => c == 'd' || c == 'e' || c == 'f',
            TokenRule::Identifier => label_char(c),
            TokenRule::Number(radix) => is_digit_in(c, radix as int),
        }
    }

    /// Whether `text` is a token of this kind: the word `def` in any
    /// case, a valid label, or digits of the radix only.
    pub open spec fn accepts_text(&self, text: Seq<char>) -> bool {
        match *self {
            TokenRule::Def => lowercased(text) == "def"@,
            TokenRule::Identifier => valid_label(text, false),
            TokenRule::Number(_) => forall|i: int| 0 <= i < text.len() ==> self.accepts(text[i]),
        }
    }

    /// The token that `text` is by this rule, if it is one. A number must
    /// have a digit, a radix from 2 to 36 and a value that 32 bits hold.
    pub open spec fn parsed(&self, text: Seq<char>) -> Option<TokenText> {
        if !self.accepts_text(text) {
            None
        } else {
            match *self {
                TokenRule::Def => Some(TokenText::Def),
                TokenRule::Identifier => Some(TokenText::Identifier(text)),
                TokenRule::Number(radix) => if text.len() > 0 && 2 <= radix <= 36 && number_value(
                    text,
                    radix as int,
                ) <= u32::MAX {
                    Some(TokenText::Number(number_value(text, radix as int) as u32))
                } else {
                    None
                },
            }
        }
    }

    /// Whether `c` may stand in a token of this kind.
    pub fn is_valid_char(&self, c: char) -> (yes: bool)
        ensures
            yes == self.accepts(c),
    {
        match *self {
            TokenRule::Def => c == 'd' || c == 'e' || c == 'f',
            TokenRule::Identifier => is_valid_label_char(c),
            TokenRule::Number(radix) => match digit_of(c) {
                Some(value) => value < radix as u32,
                None => false,
            },
        }
    }

    /// Whether `string` is a token of this kind.
    pub fn is_valid_str(&self, string: &str) -> (yes: bool)
        ensures
            yes == self.accepts_text(string@),
    {
        match *self {
            TokenRule::Def => {
                let lower = to_lowercase(string);
                let chars = to_chars(lower.as_str());
                proof {
                    reveal_strlit("def");
                }
                let yes = chars.len() == 3 && chars[0] == 'd' && chars[1] == 'e' && chars[2]
                    == 'f';
                assert(yes == (chars@ =~= "def"@));
                yes
            },
            TokenRule::Identifier => crate::util::is_valid_label(string, false),
            TokenRule::Number(_) => {
                let chars = to_chars(string);
                let mut i: usize = 0;
                while i < chars.len()
                    invariant
                        i <= chars@.len(),
                        chars@ == string@,
                        *self is Number,
                        forall|k: int| 0 <= k < i ==> self.accepts(chars@[k]),
                    decreases chars@.len() - i,
                {
                    if !self.is_valid_char(chars[i]) {
                        return false;
                    }
                    i += 1;
                }
                true
            },
        }
    }

    /// The token that `token` is, which this rule has accepted.
    fn parse_validated(&self, token: &str) -> (parsed: Option<Token>)
        requires
            self.accepts_text(token@),
        ensures
            match self.parsed(token@) {
                Some(text) => parsed matches Some(found) && found@ == text,
                None => parsed is None,
            },
    {
        match *self {
            TokenRule::Number(radix) => {
                let digits = to_chars(token);
                if digits.len() == 0 || radix < 2 || radix > 36 {
                    return None;
                }
                match number_of(digits.as_slice(), radix) {
                    Some(value) => Some(Token::Number(value)),
                    None => None,
                }
            },
            TokenRule::Def => Some(Token::Def),
            TokenRule::Identifier => Some(Token::Identifier(String::from_str(token))),
        }
    }

    /// Reads `token` as a token of this kind.
    pub fn parse(&self, token: &str) -> (parsed: Option<Token>)
        ensures
            match self.parsed(token@) {
                Some(text) => parsed matches Some(found) && found@ == text,
                None => parsed is None,
            },
    {
        if self.is_valid_str(token) {
            self.parse_validated(token)
        } else {
            None
        }
    }
}

/// A number does not get smaller by further digits.
pub proof fn lemma_number_grows(digits: Seq<char>, radix: int, len: int)
    requires
        2 <= radix,
        0 <= len <= digits.len(),
        forall|i: int| 0 <= i < digits.len() ==> is_digit_in(digits[i], radix),
    ensures
        number_value(digits.take(len), radix) <= number_value(digits, radix),
        0 <= number_value(digits, radix),
    decreases digits.len() - len,
{
    lemma_number_not_negative(digits.take(len), radix);
    if len == digits.len() {
        assert(digits.take(len) =~= digits);
    } else {
        lemma_number_grows(digits, radix, len + 1);
        assert(digits.take(len + 1).drop_last() =~= digits.take(len));
        let shorter = number_value(digits.take(len), radix);
        assert(shorter <= shorter * radix) by (nonlinear_arith)
            requires
                0 <= shorter,
                2 <= radix,
        ;
    }
}

/// A number is not negative.
pub proof fn lemma_number_not_negative(digits: Seq<char>, radix: int)
    requires
        2 <= radix,
        forall|i: int| 0 <= i < digits.len() ==> is_digit_in(digits[i], radix),
    ensures
        0 <= number_value(digits, radix),
    decreases digits.len(),
{
    if digits.len() > 0 {
        lemma_number_not_negative(digits.drop_last(), radix);
        let shorter = number_value(digits.drop_last(), radix);
        assert(0 <= shorter * radix) by (nonlinear_arith)
            requires
                0 <= shorter,
                2 <= radix,
        ;
    }
}

/// Where the run of characters ends that starts at `from` and that `rule`
/// accepts.
pub open spec fn accepted_end(chars: Seq<char>, from: int, rule: TokenRule) -> int
    decreases chars.len() - from,
{
    if from < 0 || from >= chars.len() || !rule.accepts(chars[from]) {
        from
    } else {
        accepted_end(chars, from + 1, rule)
    }
}

/// The words of `data` with single spaces between them.
pub fn squeeze(data: &str) -> (chars: Vec<char>)
    ensures
        chars@ == joined(words(data@)),
{
    let all = to_chars(data);
    let parts = split_words(all.as_slice());
    let mut chars: Vec<char> = Vec::new();
    let mut i: usize = 0;
    while i < parts.len()
        invariant
            i <= parts@.len(),
            chars@ == joined(word_texts(parts@).take(i as int)),
        decreases parts@.len() - i,
    {
        proof {
            assert(word_texts(parts@).take(i + 1).drop_last() =~= word_texts(parts@).take(
                i as int,
            ));
            assert(word_texts(parts@)[i as int] == parts@[i as int]@);
        }
        let ghost so_far = chars@;
        if i > 0 {
            chars.push(' ');
        }
        let mut k: usize = 0;
        let part = &parts[i];
        let ghost base = chars@;
        while k < part.len()
            invariant
                k <= part@.len(),
                chars@ =~= base + part@.take(k as int),
            decreases part@.len() - k,
        {
            chars.push(part[k]);
            k += 1;
        }
        proof {
            assert(part@.take(part@.len() as int) =~= part@);
            if i == 0 {
                assert(word_texts(parts@).take(1)[0] == part@);
                assert(chars@ =~= part@);
            } else {
                assert(chars@ =~= so_far + seq![' '] + part@);
            }
        }
        i += 1;
    }
    proof {
        assert(word_texts(parts@).take(parts@.len() as int) =~= word_texts(parts@));
    }
    chars
}

/// A text and a position in it.
pub struct Lexer {
    /// The text that the lexer goes through.
    pub chars: Vec<char>,
    /// The position of the next character to look at.
    pub idx: usize,
}

impl Lexer {
    /// A lexer at the start of `data`, in which every run of white space
    /// counts as one space and white space at the ends does not count.
    pub fn new(data: &str) -> (lexer: Lexer)
        ensures
            lexer.chars@ == joined(words(data@)),
            lexer.idx == 0,
    {
        Lexer { chars: squeeze(data), idx: 0 }
    }

    /// The character at the position, if the position is inside the text.
    pub fn next_char(&mut self) -> (c: Option<char>)
        ensures
            *final(self) == *old(self),
            c == if old(self).idx < old(self).chars@.len() {
                Some(old(self).chars@[old(self).idx as int])
            } else {
                None
            },
    {
        if self.idx < self.chars.len() {
            Some(self.chars[self.idx])
        } else {
            None
        }
    }

    /// Moves the position on by `count` characters, round the largest
    /// position to 0.
    pub fn skip(&mut self, count: usize)
        ensures
            final(self).chars@ == old(self).chars@,
            final(self).idx == if old(self).idx + count > usize::MAX {
                old(self).idx + count - usize::MAX - 1
            } else {
                old(self).idx + count
            },
    {
        self.idx = self.idx.wrapping_add(count);
    }

    /// Moves the position on by one character if `func` says yes to the
    /// character there.
    pub fn skip_if<F: Fn(char) -> bool>(&mut self, func: &F)
        requires
            forall|c: char| call_requires(func, (c,)),
        ensures
            final(self).chars@ == old(self).chars@,
            old(self).idx >= old(self).chars@.len() ==> final(self).idx == old(self).idx,
            old(self).idx < old(self).chars@.len() ==> (call_ensures(
                func,
                (old(self).chars@[old(self).idx as int],),
                true,
            ) && final(self).idx == old(self).idx + 1) || (call_ensures(
                func,
                (old(self).chars@[old(self).idx as int],),
                false,
            ) && final(self).idx == old(self).idx),
    {
        if self.idx < self.chars.len() && func(self.chars[self.idx]) {
            self.idx = self.idx + 1;
        }
    }

    /// Moves the position on as long as `func` says yes to the character
    /// there.
    pub fn skip_while<F: Fn(char) -> bool>(&mut self, func: &F)
        requires
            forall|c: char| call_requires(func, (c,)),
        ensures
            final(self).chars@ == old(self).chars@,
            old(self).idx >= old(self).chars@.len() ==> final(self).idx == old(self).idx,
            old(self).idx < old(self).chars@.len() ==> {
                &&& old(self).idx <= final(self).idx <= old(self).chars@.len()
                &&& forall|k: int|
                    old(self).idx <= k < final(self).idx ==> call_ensures(
                        func,
                        (old(self).chars@[k],),
                        true,
                    )
                &&& final(self).idx < old(self).chars@.len() ==> call_ensures(
                    func,
                    (old(self).chars@[final(self).idx as int],),
                    false,
                )
            },
    {
        let mut going = true;
        while going && self.idx < self.chars.len()
            invariant
                self.chars == old(self).chars,
                old(self).idx <= self.idx,
                self.idx <= self.chars@.len() || self.idx == old(self).idx,
                forall|c: char| call_requires(func, (c,)),
                forall|k: int|
                    old(self).idx <= k < self.idx ==> call_ensures(func, (self.chars@[k],), true),
                !going ==> self.idx < self.chars@.len() && call_ensures(
                    func,
                    (self.chars@[self.idx as int],),
                    false,
                ),
            decreases self.chars@.len() - self.idx + if going { 1int } else { 0int },
        {
            if func(self.chars[self.idx]) {
                self.idx = self.idx + 1;
            } else {
                going = false;
            }
        }
    }

    /// Takes the characters from the position on that `rule` accepts.
    /// `None` if there is none.
    pub fn next_str(&mut self, rule: &TokenRule) -> (taken: Option<String>)
        ensures
            final(self).chars@ == old(self).chars@,
            old(self).idx >= old(self).chars@.len() ==> taken is None && final(self).idx == old(
                self,
            ).idx,
            old(self).idx < old(self).chars@.len() ==> {
                &&& final(self).idx == accepted_end(old(self).chars@, old(self).idx as int, *rule)
                &&& old(self).idx <= final(self).idx <= old(self).chars@.len()
                &&& match taken {
                    Some(found) => final(self).idx > old(self).idx && found@ == old(
                        self,
                    ).chars@.subrange(old(self).idx as int, final(self).idx as int),
                    None => final(self).idx == old(self).idx,
                }
            },
    {
        let mut res: Vec<char> = Vec::new();
        let start = self.idx;
        let mut going = true;
        while going && self.idx < self.chars.len()
            invariant
                self.chars == old(self).chars,
                start == old(self).idx,
                start <= self.idx,
                self.idx <= self.chars@.len() || self.idx == start,
                self.idx > start || res@.len() == 0,
                self.idx <= self.chars@.len() ==> res@ =~= self.chars@.subrange(
                    start as int,
                    self.idx as int,
                ),
                accepted_end(self.chars@, start as int, *rule) == accepted_end(
                    self.chars@,
                    self.idx as int,
                    *rule,
                ),
                !going ==> self.idx < self.chars@.len() && !rule.accepts(
                    self.chars@[self.idx as int],
                ),
            decreases self.chars@.len() - self.idx + if going { 1int } else { 0int },
        {
            let c = self.chars[self.idx];
            if rule.is_valid_char(c) {
                res.push(c);
                self.idx = self.idx + 1;
            } else {
                going = false;
            }
        }
        if res.len() > 0 {
            Some(string_of(&res))
        } else {
            None
        }
    }

    /// Takes the characters from the position on that `rule` accepts and
    /// reads them as a token.
    pub fn next_token(&mut self, rule: &TokenRule) -> (token: Option<Token>)
        ensures
            final(self).chars@ == old(self).chars@,
            old(self).idx >= old(self).chars@.len() ==> token is None && final(self).idx == old(
                self,
            ).idx,
            old(self).idx < old(self).chars@.len() ==> {
                &&& final(self).idx == accepted_end(old(self).chars@, old(self).idx as int, *rule)
                &&& old(self).idx <= final(self).idx <= old(self).chars@.len()
                &&& (if final(self).idx == old(self).idx {
                    token is None
                } else {
                    match rule.parsed(
                        old(self).chars@.subrange(old(self).idx as int, final(self).idx as int),
                    ) {
                        Some(text) => token matches Some(found) && found@ == text,
                        None => token is None,
                    }
                })
            },
    {
        match self.next_str(rule) {
            Some(token_str) => rule.parse(token_str.as_str()),
            None => None,
        }
    }
}

} // verus!
