//! The rule for the statement that leaves a function.

use vstd::prelude::*;
use crate::lang::pattern::PatternRule;
use crate::lang::token::{token_texts, Token, TokenText};

verus! {

/// Whether `tokens` make a return statement: they start with the word
/// that leaves a function and end with the end of a line.
pub open spec fn is_return_statement(tokens: Seq<TokenText>) -> bool {
    tokens.len() > 0 && tokens[0] is Return && tokens.last() is NewLine
}

/// Finds the statement that leaves a function.
pub struct ReturnStatement;

impl ReturnStatement {
    /// The rule, as the parser takes its rules: behind a pointer that
    /// hides which rule it is.
    pub fn new() -> Box<dyn PatternRule> {
        Box::new(ReturnStatement {  })
    }
}

impl PatternRule for ReturnStatement {
    fn parse(&mut self, tokens: &[Token]) -> (found: bool)
        ensures
            found == is_return_statement(token_texts(tokens@)),
    {
        if tokens.len() == 0 {
            return false;
        }
        let starts = match &tokens[0] {
            Token::Return => true,
            _ => false,
        };
        let ends = match &tokens[tokens.len() - 1] {
            Token::NewLine => true,
            _ => false,
        };
        starts && ends
    }
}

} // verus!
