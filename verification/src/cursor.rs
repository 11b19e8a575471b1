//! The tokenizer as a state machine over its mathematical state.
use vstd::prelude::*;
use crate::grammar::{next_token, skip_comments};
use crate::token::{Token, TokenView};

verus! {

/// What a tokenizer is at any moment: the text, the index of the next
/// character to read, and the token in the pushback slot.
pub ghost struct Cursor {
    pub source: Seq<char>,
    pub offset: int,
    pub pending: Option<TokenView>,
}

impl Cursor {
    /// The state at the start of `source`.
    pub open spec fn start(source: Seq<char>) -> Cursor {
        Cursor { source, offset: 0, pending: None }
    }

    /// The state after `next`, and the token that `next` returns. A
    /// pending token comes first; otherwise the grammar's next token is
    /// read, and at the end of the input the comments left are passed over.
    pub open spec fn next(self) -> (Cursor, Option<TokenView>) {
        match self.pending {
            Some(token) => (Cursor { pending: None, ..self }, Some(token)),
            None => match next_token(self.source, self.offset) {
                Some((token, end)) => (Cursor { offset: end, ..self }, Some(token)),
                None => (
                    Cursor { offset: skip_comments(self.source, self.offset), ..self },
                    None,
                ),
            },
        }
    }

    /// The state after `peek`, and the token that `peek` returns: those
    /// of `next`, with the token kept as pending.
    pub open spec fn peek(self) -> (Cursor, Option<TokenView>) {
        let (after, token) = self.next();
        (Cursor { pending: token, ..after }, token)
    }

    /// The state after `push_back(token)`.
    pub open spec fn push_back(self, token: TokenView) -> Cursor {
        Cursor { pending: Some(token), ..self }
    }
}

/// The view of what `next` returns.
pub open spec fn returned(r: Result<Token, ()>) -> Option<TokenView> {
    match r {
        Ok(token) => Some(token@),
        Err(_) => None,
    }
}

/// The view of what `peek` returns.
pub open spec fn shown(r: Result<&Token, ()>) -> Option<TokenView> {
    match r {
        Ok(token) => Some(token@),
        Err(_) => None,
    }
}

} // verus!
