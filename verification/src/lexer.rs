use crate::token::TokenKind;
use std::collections::VecDeque;
use std::ops::Range;
use vstd::prelude::*;

verus! {

/// One item of the token stream: a token, or `Err(())` where the tokenizer
/// could not read one, with the span of source text that it covers.
pub type Lexeme = (Result<TokenKind, ()>, Range<usize>);

/// That the item is the readable token `t`.
pub open spec fn holds(item: Lexeme, t: TokenKind) -> bool {
    item.0 == Ok::<TokenKind, ()>(t)
}

/// A token stream that is consumed from the front, one item at a time.
pub struct Lexer {
    items: VecDeque<Lexeme>,
}

impl Lexer {
    /// The items that have not been consumed yet, next one first.
    pub closed spec fn remaining(&self) -> Seq<Lexeme> {
        self.items@
    }

    /// A stream that will hand out `items` in order.
    pub fn new(items: Vec<Lexeme>) -> (lexer: Lexer)
        ensures
            lexer.remaining() == items@,
    {
        let mut items = items;
        let mut queue: VecDeque<Lexeme> = VecDeque::new();
        let ghost all = items@;
        while items.len() > 0
            invariant
                items@ + queue@ == all,
            decreases items.len(),
        {
            if let Some(item) = items.pop() {
                queue.push_front(item);
            }
        }
        Lexer { items: queue }
    }

    /// Consumes and returns the next item, or `None` at the end of input.
    pub fn next(&mut self) -> (item: Option<Lexeme>)
        ensures
            old(self).remaining().len() == 0 ==> item is None && final(self).remaining()
                == old(self).remaining(),
            old(self).remaining().len() > 0 ==> item == Some(old(self).remaining()[0])
                && final(self).remaining() == old(self).remaining().skip(1),
    {
        self.items.pop_front()
    }

    /// The stream never holds more items than a `usize` can count.
    pub proof fn lemma_remaining_bounded(&self)
        ensures
            self.remaining().len() <= usize::MAX,
    {
        vstd::std_specs::vecdeque::axiom_spec_len(&self.items);
    }

    /// The number of items that have not been consumed yet.
    pub fn len(&self) -> (n: usize)
        ensures
            n == self.remaining().len(),
    {
        self.items.len()
    }
}

} // verus!
