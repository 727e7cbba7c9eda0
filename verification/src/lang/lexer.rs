//! The lexer: it feeds a text to rules and gathers the tokens that they
//! find.

use vstd::prelude::*;
use crate::lang::token::{token_texts, Token, TokenRule, TokenText};
use crate::text::words;
use crate::util::lexer::{joined, squeeze};
use crate::util::to_chars;

verus! {

/// A text, a position in it, the rules that look for tokens and the
/// tokens found so far.
pub struct Lexer {
    /// The text.
    pub chars: Vec<char>,
    /// The rules, in the order in which they are asked.
    pub rules: Vec<Box<dyn TokenRule>>,
    /// The tokens found so far.
    pub tokens: Vec<Token>,
    /// The position of the next character to look at.
    pub idx: usize,
}

/// How far a text was fed to a rule, and the state of the rule then.
pub struct Fed {
    /// The position of the first character that the rule did not take.
    pub idx: int,
    /// What the rule has taken by then.
    pub buffer: Seq<char>,
    /// What else the rule keeps by then.
    pub memory: Seq<char>,
}

/// Feeding `chars` from position `idx` on to a rule whose state is
/// `buffer` and `memory`, which takes what `takes` says and keeps what
/// `keeps` says: the rule is given character after character until it
/// does not take one or the text ends.
pub open spec fn feeding_by(
    takes: spec_fn(Seq<char>, Seq<char>, char) -> bool,
    keeps: spec_fn(Seq<char>, Seq<char>, char) -> Seq<char>,
    chars: Seq<char>,
    buffer: Seq<char>,
    memory: Seq<char>,
    idx: int,
) -> Fed
    decreases chars.len() - idx,
{
    if 0 <= idx < chars.len() && takes(buffer, memory, chars[idx]) {
        feeding_by(
            takes,
            keeps,
            chars,
            buffer.push(chars[idx]),
            keeps(buffer, memory, chars[idx]),
            idx + 1,
        )
    } else {
        Fed { idx, buffer, memory }
    }
}

/// Whether rule `k` of `rules` does not take `c` and has a token.
pub open spec fn yields(rules: Seq<Box<dyn TokenRule>>, k: int, c: char) -> bool {
    !rules[k].takes_at(rules[k].buffer(), rules[k].memory(), c) && rules[k].token_at(
        rules[k].buffer(),
        rules[k].memory(),
    ) is Some
}

/// The position of the first rule from `from` on that does not take `c`
/// and has a token; the number of rules if there is none.
pub open spec fn first_yield(rules: Seq<Box<dyn TokenRule>>, c: char, from: int) -> int
    decreases rules.len() - from,
{
    if from < 0 || from >= rules.len() || yields(rules, from, c) {
        from
    } else {
        first_yield(rules, c, from + 1)
    }
}

/// Whether rule `k` of `after` behaves as rule `k` of `before`.
pub open spec fn same_behaviour(
    after: Seq<Box<dyn TokenRule>>,
    before: Seq<Box<dyn TokenRule>>,
    k: int,
) -> bool {
    &&& forall|b: Seq<char>, m: Seq<char>, d: char| #[trigger]
        after[k].takes_at(b, m, d) == before[k].takes_at(b, m, d)
    &&& forall|b: Seq<char>, m: Seq<char>, d: char| #[trigger]
        after[k].memory_after(b, m, d) == before[k].memory_after(b, m, d)
    &&& forall|b: Seq<char>, m: Seq<char>| #[trigger]
        after[k].holds_at(b, m) == before[k].holds_at(b, m)
    &&& forall|b: Seq<char>, m: Seq<char>| #[trigger]
        after[k].token_at(b, m) == before[k].token_at(b, m)
}

/// Whether rule `k` of `after` is in the state of rule `k` of `before`.
pub open spec fn same_state(
    after: Seq<Box<dyn TokenRule>>,
    before: Seq<Box<dyn TokenRule>>,
    k: int,
) -> bool {
    after[k].buffer() == before[k].buffer() && after[k].memory() == before[k].memory()
}

/// Whether rule `k` of `after` is rule `k` of `before` once it was
/// offered `c` and gave no token: it has taken `c`, or it did not take it
/// and was cleared.
pub open spec fn offered(
    after: Seq<Box<dyn TokenRule>>,
    before: Seq<Box<dyn TokenRule>>,
    k: int,
    c: char,
) -> bool {
    if before[k].takes_at(before[k].buffer(), before[k].memory(), c) {
        &&& after[k].buffer() == before[k].buffer().push(c)
        &&& after[k].memory() == before[k].memory_after(
            before[k].buffer(),
            before[k].memory(),
            c,
        )
    } else {
        &&& after[k].buffer() == Seq::<char>::empty()
        &&& after[k].memory() == before[k].memory()
    }
}

/// The token that rule `k` of `rules` has.
pub open spec fn held(rules: Seq<Box<dyn TokenRule>>, k: int) -> Option<TokenText> {
    rules[k].token_at(rules[k].buffer(), rules[k].memory())
}

/// Whether every rule of `rules` from position `from` on is cleared.
pub open spec fn all_cleared(rules: Seq<Box<dyn TokenRule>>, from: int) -> bool {
    forall|k: int| from <= k < rules.len() ==> (#[trigger] rules[k]).cleared()
}

impl Lexer {
    /// A lexer at the start of `data`, in which every run of white space
    /// counts as one space and white space at the ends does not count. It
    /// has no rules and no tokens.
    pub fn new(data: &str) -> (lexer: Lexer)
        ensures
            lexer.chars@ == joined(words(data@)),
            lexer.rules@.len() == 0,
            lexer.tokens@.len() == 0,
            lexer.idx == 0,
    {
        Lexer { chars: squeeze(data), rules: Vec::new(), tokens: Vec::new(), idx: 0 }
    }

    /// Adds `rule` behind the rules that the lexer has.
    pub fn add_rule(&mut self, rule: Box<dyn TokenRule>) -> (lexer: &mut Lexer)
        ensures
            lexer.rules@ == old(self).rules@.push(rule),
            lexer.chars == old(self).chars,
            lexer.tokens == old(self).tokens,
            lexer.idx == old(self).idx,
            *final(self) == *final(lexer),
    {
        self.rules.push(rule);
        self
    }

    /// Moves the rules of `rules` behind the rules that the lexer has.
    pub fn add_rules(&mut self, rules: &mut Vec<Box<dyn TokenRule>>)
        ensures
            final(self).rules@ == old(self).rules@ + old(rules)@,
            final(rules)@.len() == 0,
            final(self).chars == old(self).chars,
            final(self).tokens == old(self).tokens,
            final(self).idx == old(self).idx,
    {
        self.rules.append(rules);
    }

    /// Puts the characters of `string` behind the text, as they are.
    pub fn add_str(&mut self, string: &str)
        ensures
            final(self).chars@ == old(self).chars@ + string@,
            final(self).rules == old(self).rules,
            final(self).tokens == old(self).tokens,
            final(self).idx == old(self).idx,
    {
        let mut more = to_chars(string);
        self.chars.append(&mut more);
    }

    /// Clears every rule.
    fn clear_rules(&mut self)
        ensures
            final(self).rules@.len() == old(self).rules@.len(),
            all_cleared(final(self).rules@, 0),
            final(self).chars == old(self).chars,
            final(self).tokens == old(self).tokens,
            final(self).idx == old(self).idx,
    {
        let mut j: usize = 0;
        while j < self.rules.len()
            invariant
                j <= self.rules@.len(),
                self.rules@.len() == old(self).rules@.len(),
                self.chars == old(self).chars,
                self.tokens == old(self).tokens,
                self.idx == old(self).idx,
                forall|k: int| 0 <= k < j ==> (#[trigger] self.rules@[k]).cleared(),
            decreases self.rules@.len() - j,
        {
            self.rules[j].clear();
            j += 1;
        }
    }

    /// Offers the character `c` to the rules in turn, up to the first one
    /// that does not take it and has a token: that token is put behind
    /// the tokens found, and the rule and those behind it stay as they
    /// are. A rule before it has taken the character, or was cleared if
    /// it did not take it. Says whether a token was found.
    fn offer(&mut self, c: char, Ghost(fresh): Ghost<bool>) -> (found: bool)
        requires
            fresh ==> all_cleared(old(self).rules@, 0),
        ensures
            final(self).rules@.len() == old(self).rules@.len(),
            final(self).chars == old(self).chars,
            final(self).idx == old(self).idx,
            old(self).tokens@.is_prefix_of(final(self).tokens@),
            fresh ==> !found,
            found == (first_yield(old(self).rules@, c, 0) < old(self).rules@.len()),
            token_texts(final(self).tokens@) == if found {
                token_texts(old(self).tokens@).push(
                    held(old(self).rules@, first_yield(old(self).rules@, c, 0))->Some_0,
                )
            } else {
                token_texts(old(self).tokens@)
            },
            forall|k: int|
                0 <= k < old(self).rules@.len() ==> #[trigger] same_behaviour(
                    final(self).rules@,
                    old(self).rules@,
                    k,
                ),
            forall|k: int|
                0 <= k < first_yield(old(self).rules@, c, 0) ==> #[trigger] offered(
                    final(self).rules@,
                    old(self).rules@,
                    k,
                    c,
                ),
            forall|k: int|
                first_yield(old(self).rules@, c, 0) <= k < old(self).rules@.len()
                    ==> #[trigger] same_state(final(self).rules@, old(self).rules@, k),
    {
        let ghost first = old(self).rules@;
        let ghost stop = first_yield(first, c, 0);
        let mut found = false;
        let mut j: usize = 0;
        proof {
            assert(token_texts(self.tokens@) =~= token_texts(old(self).tokens@));
        }
        while j < self.rules.len() && !found
            invariant
                j <= self.rules@.len(),
                first == old(self).rules@,
                stop == first_yield(first, c, 0),
                self.rules@.len() == first.len(),
                self.chars == old(self).chars,
                self.idx == old(self).idx,
                old(self).tokens@.is_prefix_of(self.tokens@),
                fresh ==> !found,
                fresh ==> all_cleared(self.rules@, j as int),
                forall|k: int| 0 <= k < first.len() ==> #[trigger] same_behaviour(
                    self.rules@,
                    first,
                    k,
                ),
                forall|k: int| j <= k < first.len() ==> self.rules@[k] == first[k],
                !found ==> stop == first_yield(first, c, j as int),
                !found ==> token_texts(self.tokens@) == token_texts(old(self).tokens@),
                !found ==> forall|k: int| 0 <= k < j ==> #[trigger] offered(
                    self.rules@,
                    first,
                    k,
                    c,
                ),
                found ==> j >= 1 && stop == j - 1 && held(first, stop) is Some,
                found ==> token_texts(self.tokens@) == token_texts(old(self).tokens@).push(
                    held(first, stop)->Some_0,
                ),
                found ==> forall|k: int| 0 <= k < stop ==> #[trigger] offered(
                    self.rules@,
                    first,
                    k,
                    c,
                ),
                found ==> same_state(self.rules@, first, stop),
            decreases self.rules@.len() - j,
        {
            let ghost before = self.rules@;
            let ghost at = j as int;
            let ghost texts_before = token_texts(self.tokens@);
            proof {
                assert(same_behaviour(before, first, at));
                assert(before[at] == first[at]);
            }
            let mut cleared_it = false;
            let mut gave = false;
            if !self.rules[j].push_char(c) {
                match self.rules[j].get() {
                    Some(token) => {
                        found = true;
                        gave = true;
                        proof {
                            assert(token_texts(self.tokens@.push(token)) =~= texts_before.push(
                                token@,
                            ));
                        }
                        self.tokens.push(token);
                    },
                    None => {
                        self.rules[j].clear();
                        cleared_it = true;
                    },
                }
            }
            proof {
                let now = self.rules@;
                assert(now.len() == before.len());
                assert forall|k: int| 0 <= k < first.len() implies #[trigger] same_behaviour(
                    now,
                    first,
                    k,
                ) by {
                    assert(same_behaviour(before, first, k));
                    if k != at {
                        assert(now[k] == before[k]);
                    }
                }
                assert forall|k: int| at + 1 <= k < first.len() implies now[k] == first[k] by {
                    assert(now[k] == before[k]);
                }
                if gave {
                    assert(yields(first, at, c));
                    assert(first_yield(first, c, at) == at);
                    assert(same_state(now, first, at));
                    assert forall|k: int| 0 <= k < at implies #[trigger] offered(now, first, k, c) by {
                        assert(offered(before, first, k, c));
                        assert(now[k] == before[k]);
                    }
                } else {
                    assert(!yields(first, at, c));
                    assert(first_yield(first, c, at) == first_yield(first, c, at + 1));
                    assert(offered(now, first, at, c));
                    assert forall|k: int| 0 <= k < at + 1 implies #[trigger] offered(
                        now,
                        first,
                        k,
                        c,
                    ) by {
                        if k < at {
                            assert(offered(before, first, k, c));
                            assert(now[k] == before[k]);
                        }
                    }
                }
            }
            j += 1;
        }
        proof {
            if !found {
                assert(stop == first.len());
            }
            assert forall|k: int| stop <= k < first.len() implies #[trigger] same_state(
                self.rules@,
                first,
                k,
            ) by {
                if found && k == stop {
                } else {
                    assert(self.rules@[k] == first[k]);
                }
            }
        }
        found
    }

    /// Goes through the text from the position to its end and gathers the
    /// tokens that the rules find. Each character is offered to the rules
    /// in turn; when a rule that does not take it has a token, the token
    /// is gathered, every rule is cleared and the character is offered
    /// again. At the end each rule that holds a token gives it.
    pub fn tokenize(&mut self)
        ensures
            final(self).chars == old(self).chars,
            final(self).rules@.len() == old(self).rules@.len(),
            old(self).tokens@.is_prefix_of(final(self).tokens@),
            final(self).idx == if old(self).idx < old(self).chars@.len() {
                old(self).chars@.len() as usize
            } else {
                old(self).idx
            },
    {
        let len = self.chars.len();
        let ghost mut fresh = false;
        while self.idx < len
            invariant
                len == self.chars@.len(),
                self.chars == old(self).chars,
                self.rules@.len() == old(self).rules@.len(),
                old(self).tokens@.is_prefix_of(self.tokens@),
                old(self).idx <= self.idx,
                self.idx <= len || self.idx == old(self).idx,
                fresh ==> all_cleared(self.rules@, 0),
            decreases 2 * (len - self.idx) + if fresh { 0int } else { 1int },
        {
            let c = self.chars[self.idx];
            if self.offer(c, Ghost(fresh)) {
                self.clear_rules();
                proof {
                    fresh = true;
                }
            } else {
                self.idx = self.idx + 1;
                proof {
                    fresh = false;
                }
            }
        }
        let mut j: usize = 0;
        while j < self.rules.len()
            invariant
                j <= self.rules@.len(),
                self.chars == old(self).chars,
                self.rules@.len() == old(self).rules@.len(),
                old(self).tokens@.is_prefix_of(self.tokens@),
                self.idx == if old(self).idx < old(self).chars@.len() {
                    old(self).chars@.len() as usize
                } else {
                    old(self).idx
                },
            decreases self.rules@.len() - j,
        {
            if self.rules[j].valid() {
                match self.rules[j].get() {
                    Some(token) => {
                        self.tokens.push(token);
                    },
                    None => {},
                }
            }
            j += 1;
        }
    }

    /// The character at the position, if the position is inside the text.
    pub fn next_char(&mut self) -> (c: Option<char>)
        ensures
            *final(self) == *old(self),
            c == if old(self).idx < old(self).chars@.len() {
                Some(old(self).chars@[old(self).idx as int])
            } else {
                None
            },
    {
        if self.valid_idx() {
            Some(self.chars[self.idx])
        } else {
            None
        }
    }

    /// Whether the position is inside the text.
    fn valid_idx(&self) -> (yes: bool)
        ensures
            yes == (self.idx < self.chars@.len()),
            self.chars@.len() <= usize::MAX,
    {
        self.idx < self.chars.len()
    }

    /// Moves the position on by `count` characters, round the largest
    /// position to 0.
    pub fn skip(&mut self, count: usize)
        ensures
            final(self).chars == old(self).chars,
            final(self).rules == old(self).rules,
            final(self).tokens == old(self).tokens,
            final(self).idx == if old(self).idx + count > usize::MAX {
                old(self).idx + count - usize::MAX - 1
            } else {
                old(self).idx + count
            },
    {
        self.idx = self.idx.wrapping_add(count);
    }

    /// Moves the position on by one character if `func` says yes to the
    /// character there.
    pub fn skip_if<F: Fn(char) -> bool>(&mut self, func: &F)
        requires
            forall|c: char| call_requires(func, (c,)),
        ensures
            final(self).chars == old(self).chars,
            final(self).rules == old(self).rules,
            final(self).tokens == old(self).tokens,
            old(self).idx >= old(self).chars@.len() ==> final(self).idx == old(self).idx,
            old(self).idx < old(self).chars@.len() ==> (call_ensures(
                func,
                (old(self).chars@[old(self).idx as int],),
                true,
            ) && final(self).idx == old(self).idx + 1) || (call_ensures(
                func,
                (old(self).chars@[old(self).idx as int],),
                false,
            ) && final(self).idx == old(self).idx),
    {
        if self.valid_idx() && func(self.chars[self.idx]) {
            self.idx = self.idx + 1;
        }
    }

    /// Moves the position on as long as `func` says yes to the character
    /// there.
    pub fn skip_while<F: Fn(char) -> bool>(&mut self, func: &F)
        requires
            forall|c: char| call_requires(func, (c,)),
        ensures
            final(self).chars == old(self).chars,
            final(self).rules == old(self).rules,
            final(self).tokens == old(self).tokens,
            old(self).idx >= old(self).chars@.len() ==> final(self).idx == old(self).idx,
            old(self).idx < old(self).chars@.len() ==> {
                &&& old(self).idx <= final(self).idx <= old(self).chars@.len()
                &&& forall|k: int|
                    old(self).idx <= k < final(self).idx ==> call_ensures(
                        func,
                        (old(self).chars@[k],),
                        true,
                    )
                &&& final(self).idx < old(self).chars@.len() ==> call_ensures(
                    func,
                    (old(self).chars@[final(self).idx as int],),
                    false,
                )
            },
    {
        let mut going = true;
        while going && self.idx < self.chars.len()
            invariant
                self.chars == old(self).chars,
                self.rules == old(self).rules,
                self.tokens == old(self).tokens,
                old(self).idx <= self.idx,
                self.idx <= self.chars@.len() || self.idx == old(self).idx,
                forall|c: char| call_requires(func, (c,)),
                forall|k: int|
                    old(self).idx <= k < self.idx ==> call_ensures(func, (self.chars@[k],), true),
                !going ==> self.idx < self.chars@.len() && call_ensures(
                    func,
                    (self.chars@[self.idx as int],),
                    false,
                ),
            decreases self.chars@.len() - self.idx + if going { 1int } else { 0int },
        {
            if func(self.chars[self.idx]) {
                self.idx = self.idx + 1;
            } else {
                going = false;
            }
        }
    }

    /// What `func` says to the character at the position; no, if the
    /// position is behind the text.
    pub fn test<F: Fn(char) -> bool>(&self, func: &F) -> (yes: bool)
        requires
            forall|c: char| call_requires(func, (c,)),
        ensures
            self.idx >= self.chars@.len() ==> !yes,
            self.idx < self.chars@.len() ==> call_ensures(
                func,
                (self.chars@[self.idx as int],),
                yes,
            ),
    {
        if self.valid_idx() {
            func(self.chars[self.idx])
        } else {
            false
        }
    }

    /// Whether the character at the position is `c`.
    pub fn test_eq(&self, c: char) -> (yes: bool)
        ensures
            yes == (self.idx < self.chars@.len() && self.chars@[self.idx as int] == c),
    {
        if self.valid_idx() {
            self.chars[self.idx] == c
        } else {
            false
        }
    }

    /// The position `off` characters on, round the largest position to 0.
    pub open spec fn ahead(&self, off: usize) -> int {
        if self.idx + off > usize::MAX {
            self.idx + off - usize::MAX - 1
        } else {
            self.idx + off
        }
    }

    /// The character `off` characters on from the position, if the text
    /// reaches so far.
    pub fn peek(&self, off: usize) -> (c: Option<char>)
        ensures
            c == if self.ahead(off) < self.chars@.len() {
                Some(self.chars@[self.ahead(off)])
            } else {
                None
            },
    {
        let idx = self.idx.wrapping_add(off);
        if idx < self.chars.len() {
            Some(self.chars[idx])
        } else {
            None
        }
    }

    /// Feeds the text from the position on to `rule` for as long as the
    /// rule takes it. If what the rule has taken then is a token to it,
    /// the result is the token that the rule gives and the position stays
    /// behind what the rule took; if not, there is no token and the
    /// position goes back to where it was.
    pub fn next(&mut self, rule: Box<dyn TokenRule>) -> (token: Option<Token>)
        ensures
            final(self).chars == old(self).chars,
            final(self).rules == old(self).rules,
            final(self).tokens == old(self).tokens,
            ({
                let fed = feeding_by(
                    |b: Seq<char>, m: Seq<char>, c: char| rule.takes_at(b, m, c),
                    |b: Seq<char>, m: Seq<char>, c: char| rule.memory_after(b, m, c),
                    old(self).chars@,
                    rule.buffer(),
                    rule.memory(),
                    old(self).idx as int,
                );
                if rule.holds_at(fed.buffer, fed.memory) {
                    &&& final(self).idx == fed.idx
                    &&& match rule.token_at(fed.buffer, fed.memory) {
                        Some(text) => token matches Some(found) && found@ == text,
                        None => token is None,
                    }
                } else {
                    &&& final(self).idx == old(self).idx
                    &&& token is None
                }
            }),
            old(self).idx >= old(self).chars@.len() ==> final(self).idx == old(self).idx,
            old(self).idx < old(self).chars@.len() ==> old(self).idx <= final(self).idx <= old(
                self,
            ).chars@.len(),
    {
        let ghost takes = |b: Seq<char>, m: Seq<char>, c: char| rule.takes_at(b, m, c);
        let ghost keeps = |b: Seq<char>, m: Seq<char>, c: char| rule.memory_after(b, m, c);
        let ghost holds = |b: Seq<char>, m: Seq<char>| rule.holds_at(b, m);
        let ghost gives = |b: Seq<char>, m: Seq<char>| rule.token_at(b, m);
        let ghost first_buffer = rule.buffer();
        let ghost first_memory = rule.memory();
        let mut fed_rule = rule;
        let idx_bck = self.idx;
        let mut going = true;
        while going && self.idx < self.chars.len()
            invariant
                self.chars == old(self).chars,
                self.rules == old(self).rules,
                self.tokens == old(self).tokens,
                idx_bck == old(self).idx,
                idx_bck <= self.idx,
                self.idx <= self.chars@.len() || self.idx == idx_bck,
                forall|b: Seq<char>, m: Seq<char>, d: char| #[trigger]
                    fed_rule.takes_at(b, m, d) == takes(b, m, d),
                forall|b: Seq<char>, m: Seq<char>, d: char| #[trigger]
                    fed_rule.memory_after(b, m, d) == keeps(b, m, d),
                forall|b: Seq<char>, m: Seq<char>| #[trigger]
                    fed_rule.holds_at(b, m) == holds(b, m),
                forall|b: Seq<char>, m: Seq<char>| #[trigger]
                    fed_rule.token_at(b, m) == gives(b, m),
                feeding_by(
                    takes,
                    keeps,
                    self.chars@,
                    fed_rule.buffer(),
                    fed_rule.memory(),
                    self.idx as int,
                ) == feeding_by(
                    takes,
                    keeps,
                    self.chars@,
                    first_buffer,
                    first_memory,
                    idx_bck as int,
                ),
                !going ==> self.idx < self.chars@.len() && !takes(
                    fed_rule.buffer(),
                    fed_rule.memory(),
                    self.chars@[self.idx as int],
                ),
            decreases self.chars@.len() - self.idx + if going { 1int } else { 0int },
        {
            if fed_rule.push_char(self.chars[self.idx]) {
                self.idx = self.idx + 1;
            } else {
                going = false;
            }
        }
        if fed_rule.valid() {
            fed_rule.get()
        } else {
            self.idx = idx_bck;
            None
        }
    }
}

} // verus!
