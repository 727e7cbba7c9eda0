//! The parser: it reads tokens one by one and asks its rules what they
//! make.

use std::collections::VecDeque;
use vstd::prelude::*;
use crate::lang::pattern::PatternRule;
use crate::lang::token::{token_texts, Token, TokenText};

verus! {

/// The tokens that wait to be read, and the rules that are asked.
pub struct Parser {
    /// The tokens that wait to be read.
    pub tokens: VecDeque<Token>,
    /// The rules, in the order in which they are asked.
    pub rules: Vec<Box<dyn PatternRule>>,
}

impl Parser {
    /// The tokens that wait to be read, as plain values.
    pub open spec fn waiting(&self) -> Seq<TokenText> {
        token_texts(self.tokens@)
    }

    /// A parser that has `tokens` to read and no rules yet.
    pub fn new(tokens: Vec<Token>) -> (parser: Box<Parser>)
        ensures
            parser.waiting() == token_texts(tokens@),
            parser.rules@.len() == 0,
    {
        let mut deque: VecDeque<Token> = VecDeque::new();
        let mut i: usize = 0;
        while i < tokens.len()
            invariant
                i <= tokens@.len(),
                token_texts(deque@) =~= token_texts(tokens@).take(i as int),
            decreases tokens@.len() - i,
        {
            let token = tokens[i].copy();
            proof {
                assert(token_texts(deque@.push(token)) =~= token_texts(deque@).push(token@));
            }
            deque.push_back(token);
            i += 1;
        }
        proof {
            assert(token_texts(tokens@).take(tokens@.len() as int) =~= token_texts(tokens@));
        }
        Box::new(Parser { tokens: deque, rules: Vec::new() })
    }

    /// Adds `rule` behind the rules that the parser has.
    pub fn add_rule(&mut self, rule: Box<dyn PatternRule>)
        ensures
            final(self).tokens == old(self).tokens,
            final(self).rules@ == old(self).rules@.push(rule),
    {
        self.rules.push(rule);
    }

    /// Reads the tokens one by one and shows the rules, each time, all
    /// that is read so far. Stops as soon as a rule finds its pattern and
    /// says how many tokens were read by then; `None` when the tokens
    /// have run out and no rule has found its pattern.
    pub fn parse(&mut self) -> (read: Option<usize>)
        ensures
            final(self).rules@.len() == old(self).rules@.len(),
            match read {
                Some(count) => 1 <= count <= old(self).waiting().len() && final(self).waiting()
                    == old(self).waiting().skip(count as int),
                None => final(self).waiting().len() == 0,
            },
    {
        let mut current: Vec<Token> = Vec::new();
        while self.tokens.len() > 0
            invariant
                self.rules@.len() == old(self).rules@.len(),
                current@.len() + self.tokens@.len() == old(self).tokens@.len(),
                token_texts(self.tokens@) =~= token_texts(old(self).tokens@).skip(
                    current@.len() as int,
                ),
            decreases self.tokens@.len(),
        {
            let ghost before = self.tokens@;
            let ghost read = current@.len() as int;
            match self.tokens.pop_front() {
                Some(token) => {
                    current.push(token);
                },
                None => {},
            }
            proof {
                assert(self.tokens@ =~= before.skip(1));
                assert(token_texts(self.tokens@) =~= token_texts(before).skip(1));
                assert(token_texts(old(self).tokens@).skip(read).skip(1) =~= token_texts(
                    old(self).tokens@,
                ).skip(read + 1));
            }
            let mut found = false;
            let mut j: usize = 0;
            while j < self.rules.len()
                invariant
                    j <= self.rules@.len(),
                    self.rules@.len() == old(self).rules@.len(),
                    self.tokens@ == before.skip(1),
                decreases self.rules@.len() - j,
            {
                if self.rules[j].parse(current.as_slice()) {
                    found = true;
                }
                j += 1;
            }
            if found {
                return Some(current.len());
            }
        }
        None
    }
}

} // verus!
