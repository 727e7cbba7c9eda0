//! Tokens and the rules that find them.

use vstd::prelude::*;

pub mod rules;

verus! {

/// What a piece of program text is.
#[derive(Debug, PartialEq, Clone)]
pub enum Token {
    /// A dot.
    Dot,
    /// The word that ends a block.
    End,
    /// The word that starts a counted loop.
    For,
    /// The word that starts the declaration of a function.
    FnDecl,
    /// A name.
    Identifier(String),
    /// An opening parenthesis.
    LParen,
    /// The end of a line.
    NewLine,
    /// A plus sign.
    OpPlus,
    /// A closing parenthesis.
    RParen,
    /// The word that leaves a function.
    Return,
    /// The word that starts a loop with a condition.
    While,
    /// A number without a sign.
    UInt(u32),
}

/// A token as plain values.
pub enum TokenText {
    /// A dot.
    Dot,
    /// The word that ends a block.
    End,
    /// The word that starts a counted loop.
    For,
    /// The word that starts the declaration of a function.
    FnDecl,
    /// A name.
    Identifier(Seq<char>),
    /// An opening parenthesis.
    LParen,
    /// The end of a line.
    NewLine,
    /// A plus sign.
    OpPlus,
    /// A closing parenthesis.
    RParen,
    /// The word that leaves a function.
    Return,
    /// The word that starts a loop with a condition.
    While,
    /// A number without a sign.
    UInt(u32),
}

impl View for Token {
    type V = TokenText;

    open spec fn view(&self) -> TokenText {
        match *self {
            Token::Dot => TokenText::Dot,
            Token::End => TokenText::End,
            Token::For => TokenText::For,
            Token::FnDecl => TokenText::FnDecl,
            Token::Identifier(name) => TokenText::Identifier(name@),
            Token::LParen => TokenText::LParen,
            Token::NewLine => TokenText::NewLine,
            Token::OpPlus => TokenText::OpPlus,
            Token::RParen => TokenText::RParen,
            Token::Return => TokenText::Return,
            Token::While => TokenText::While,
            Token::UInt(value) => TokenText::UInt(value),
        }
    }
}

impl Token {
    /// A token equal to this one.
    pub fn copy(&self) -> (token: Token)
        ensures
            token@ == self@,
    {
        match self {
            Token::Dot => Token::Dot,
            Token::End => Token::End,
            Token::For => Token::For,
            Token::FnDecl => Token::FnDecl,
            Token::Identifier(name) => Token::Identifier(name.clone()),
            Token::LParen => Token::LParen,
            Token::NewLine => Token::NewLine,
            Token::OpPlus => Token::OpPlus,
            Token::RParen => Token::RParen,
            Token::Return => Token::Return,
            Token::While => Token::While,
            Token::UInt(value) => Token::UInt(*value),
        }
    }
}

/// The tokens that `tokens` hold, as plain values.
pub open spec fn token_texts(tokens: Seq<Token>) -> Seq<TokenText> {
    tokens.map_values(|token: Token| token@)
}

/// A rule that finds one kind of token. It is fed a text character by
/// character, takes the characters that may go on its token, and says
/// whether what it has taken is a token.
///
/// A rule is a machine of two parts. Its state is what it has taken since
/// it was cleared, the buffer, and whatever else it keeps, the memory. Its
/// behaviour says for every buffer and memory which character it takes,
/// what it keeps then, and which token the buffer is. Feeding and
/// clearing change the state and never the behaviour.
///
/// Whoever writes a rule owes the lexer this much more: a rule that was
/// cleared, and has taken nothing since, has no token.
pub trait TokenRule {
    /// Whether the rule has taken nothing since it was cleared.
    spec fn cleared(&self) -> bool;

    /// What the rule has taken since it was cleared.
    spec fn buffer(&self) -> Seq<char>;

    /// What else the rule keeps.
    spec fn memory(&self) -> Seq<char>;

    /// Whether the rule takes `c` when it has taken `buffer` and keeps
    /// `memory`.
    spec fn takes_at(&self, buffer: Seq<char>, memory: Seq<char>, c: char) -> bool;

    /// What the rule keeps once it has taken `c`.
    spec fn memory_after(&self, buffer: Seq<char>, memory: Seq<char>, c: char) -> Seq<char>;

    /// Whether `buffer` is a token to the rule.
    spec fn holds_at(&self, buffer: Seq<char>, memory: Seq<char>) -> bool;

    /// The token that the rule gives for `buffer`, if it gives one.
    spec fn token_at(&self, buffer: Seq<char>, memory: Seq<char>) -> Option<TokenText>;

    /// Offers the character `c` to the rule. Says whether the rule has
    /// taken it: then the character is behind the buffer. A rule that
    /// does not take the character stays as it is.
    fn push_char(&mut self, c: char) -> (taken: bool)
        ensures
            taken == old(self).takes_at(old(self).buffer(), old(self).memory(), c),
            final(self).buffer() == if taken {
                old(self).buffer().push(c)
            } else {
                old(self).buffer()
            },
            final(self).memory() == if taken {
                old(self).memory_after(old(self).buffer(), old(self).memory(), c)
            } else {
                old(self).memory()
            },
            !taken ==> final(self).cleared() == old(self).cleared(),
            forall|b: Seq<char>, m: Seq<char>, d: char| #[trigger]
                final(self).takes_at(b, m, d) == old(self).takes_at(b, m, d),
            forall|b: Seq<char>, m: Seq<char>, d: char| #[trigger]
                final(self).memory_after(b, m, d) == old(self).memory_after(b, m, d),
            forall|b: Seq<char>, m: Seq<char>| #[trigger]
                final(self).holds_at(b, m) == old(self).holds_at(b, m),
            forall|b: Seq<char>, m: Seq<char>| #[trigger]
                final(self).token_at(b, m) == old(self).token_at(b, m),
    ;

    /// Whether what the rule has taken is a token.
    fn valid(&self) -> (yes: bool)
        ensures
            yes == self.holds_at(self.buffer(), self.memory()),
    ;

    /// The token that the rule has taken, if it is one.
    fn get(&self) -> (token: Option<Token>)
        ensures
            self.cleared() ==> token is None,
            match self.token_at(self.buffer(), self.memory()) {
                Some(text) => token matches Some(found) && found@ == text,
                None => token is None,
            },
    ;

    /// Makes the rule forget what it has taken. What else it keeps, it
    /// keeps.
    fn clear(&mut self)
        ensures
            final(self).cleared(),
            final(self).buffer() == Seq::<char>::empty(),
            final(self).memory() == old(self).memory(),
            forall|b: Seq<char>, m: Seq<char>, d: char| #[trigger]
                final(self).takes_at(b, m, d) == old(self).takes_at(b, m, d),
            forall|b: Seq<char>, m: Seq<char>, d: char| #[trigger]
                final(self).memory_after(b, m, d) == old(self).memory_after(b, m, d),
            forall|b: Seq<char>, m: Seq<char>| #[trigger]
                final(self).holds_at(b, m) == old(self).holds_at(b, m),
            forall|b: Seq<char>, m: Seq<char>| #[trigger]
                final(self).token_at(b, m) == old(self).token_at(b, m),
    ;
}

} // verus!
