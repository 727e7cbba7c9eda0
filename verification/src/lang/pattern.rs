//! Patterns of tokens and the rules that find them.

use vstd::prelude::*;
use crate::lang::token::Token;

pub mod rules;

verus! {

/// A rule that looks for one pattern in the tokens read so far.
pub trait PatternRule {
    /// Looks at the tokens read so far. Says whether they make the
    /// pattern.
    fn parse(&mut self, tokens: &[Token]) -> bool;
}

} // verus!
