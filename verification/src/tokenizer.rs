//! The tokenizer: a cursor over the input with one slot of pushback.
use vstd::prelude::*;
use vstd::string::StringSliceAdditionalSpecFns;
use vstd::utf8::{decode_utf8, encode_utf8_decode_utf8, encode_utf8_valid_utf8};
use crate::classes::newline;
use crate::encoding::{char_index, decode_char, lemma_char_index, lemma_step, on_boundary};
use crate::bounds::lemma_next_token;
use crate::cursor::{Cursor, returned, shown};
use crate::grammar::{ascii_at, newline_at};
use crate::token::{Token, TokenView};

verus! {

/// A cursor over CSS source text that hands out tokens one by one.
pub struct Tokenizer<'a> {
    input: &'a str,
    /// Counted in bytes, not characters; always on a character boundary.
    position: usize,
    /// For `peek` and `push_back`.
    buffer: Option<Token>,
}

/// Looking `k` places ahead of a cursor at byte `p`, where the characters
/// passed over are ASCII as far as they exist: `p + k` is inside the bytes
/// exactly when the index `k` further on is inside the text, and is then a
/// boundary with that index.
proof fn lemma_ahead(bytes: Seq<u8>, p: int, k: int)
    requires
        on_boundary(bytes, p),
        0 <= k,
        forall|j: int|
            char_index(bytes, p) <= j < char_index(bytes, p) + k ==> #[trigger] ascii_at(
                decode_utf8(bytes),
                j,
            ),
    ensures
        p + k <= bytes.len() <==> char_index(bytes, p) + k <= decode_utf8(bytes).len(),
        p + k < bytes.len() <==> char_index(bytes, p) + k < decode_utf8(bytes).len(),
        p + k <= bytes.len() ==> on_boundary(bytes, p + k) && char_index(bytes, p + k)
            == char_index(bytes, p) + k,
    decreases k,
{
    lemma_char_index(bytes, p);
    if k > 0 {
        lemma_ahead(bytes, p, k - 1);
        if p + k - 1 < bytes.len() {
            lemma_step(bytes, p + k - 1);
            assert(ascii_at(decode_utf8(bytes), char_index(bytes, p) + k - 1));
            lemma_char_index(bytes, p + k);
        }
    }
}

impl<'a> View for Tokenizer<'a> {
    type V = Cursor;

    closed spec fn view(&self) -> Cursor {
        Cursor {
            source: self.input@,
            offset: char_index(self.input.spec_bytes(), self.position as int),
            pending: match self.buffer {
                Some(token) => Some(token@),
                None => None,
            },
        }
    }
}

impl<'a> Tokenizer<'a> {
    /// The text that is tokenized.
    pub open spec fn source(&self) -> Seq<char> {
        self@.source
    }

    /// The index into `source` of the next character to read.
    pub open spec fn offset(&self) -> int {
        self@.offset
    }

    /// The token that was peeked at or pushed back, if there is one.
    pub open spec fn pending(&self) -> Option<TokenView> {
        self@.pending
    }

    /// The cursor rests on a character boundary of the input.
    pub closed spec fn wf(&self) -> bool {
        on_boundary(self.input.spec_bytes(), self.position as int)
    }

    /// `self` is `before` with the cursor moved to index `to`.
    pub open spec fn moved(&self, before: &Self, to: int) -> bool {
        &&& self.wf()
        &&& self.source() == before.source()
        &&& self.pending() == before.pending()
        &&& self.offset() == to
    }

    /// The `n` characters from the cursor on are ASCII, as far as they exist.
    pub open spec fn ascii_ahead(&self, n: int) -> bool {
        forall|j: int|
            self.offset() <= j < self.offset() + n ==> #[trigger] ascii_at(self.source(), j)
    }

    /// The cursor of a well-formed tokenizer is inside its text, or at its
    /// end.
    pub proof fn lemma_offset(&self)
        requires
            self.wf(),
        ensures
            0 <= self.offset() <= self.source().len(),
    {
        self.lemma_source();
    }

    proof fn lemma_source(&self)
        ensures
            decode_utf8(self.input.spec_bytes()) == self.source(),
            self.wf() ==> 0 <= self.offset() <= self.source().len(),
    {
        encode_utf8_decode_utf8(self.input@);
        if self.wf() {
            lemma_char_index(self.input.spec_bytes(), self.position as int);
        }
    }

    /// A tokenizer at the start of `input`.
    pub fn new(input: &'a str) -> (tokenizer: Tokenizer<'a>)
        ensures
            tokenizer.wf(),
            tokenizer@ == Cursor::start(input@),
    {
        proof {
            encode_utf8_valid_utf8(input@);
            lemma_char_index(input.spec_bytes(), 0);
        }
        Tokenizer { input, position: 0, buffer: None }
    }

    /// The next token, or `Err(())` at the end of the input. A token that
    /// was peeked at or pushed back comes first; otherwise the token is read
    /// from the input as the grammar says. A token that is read ends
    /// further on than the cursor stood, and `Err(())` leaves the cursor at
    /// the end of the text.
    pub fn next(&mut self) -> (r: Result<Token, ()>)
        requires
            old(self).wf(),
        ensures
            final(self).wf(),
            final(self)@ == old(self)@.next().0,
            returned(r) == old(self)@.next().1,
            old(self).pending() is None && r is Ok ==> old(self).offset() < final(self).offset()
                <= old(self).source().len(),
            r is Err ==> final(self).offset() == old(self).source().len(),
    {
        proof {
            self.lemma_offset();
            lemma_next_token(self.source(), self.offset());
        }
        match self.buffer.take() {
            Some(token) => Ok(token),
            None => match crate::dispatch::next_token(self) {
                Some(token) => Ok(token),
                None => Err(()),
            },
        }
    }

    /// Like `next`, but the token stays in the tokenizer and comes again
    /// with the following call of `next` or `peek`.
    pub fn peek(&mut self) -> (r: Result<&Token, ()>)
        requires
            old(self).wf(),
        ensures
            final(self).wf(),
            final(self)@ == old(self)@.peek().0,
            shown(r) == old(self)@.peek().1,
    {
        if self.buffer.is_none() {
            self.buffer = crate::dispatch::next_token(self);
        }
        match &self.buffer {
            Some(token) => Ok(token),
            None => Err(()),
        }
    }

    /// Hands `token` back: the following call of `next` returns it. It
    /// may be called only when no token is pending, that is after `next`.
    pub fn push_back(&mut self, token: Token)
        requires
            old(self).pending() is None,
        ensures
            final(self)@ == old(self)@.push_back(token@),
            final(self).wf() == old(self).wf(),
    {
        self.buffer = Some(token);
    }

    /// Whether a token is pending, so that `push_back` may not be called.
    pub fn has_pending(&self) -> (r: bool)
        ensures
            r == self.pending() is Some,
    {
        self.buffer.is_some()
    }

    pub(crate) fn is_eof(&self) -> (r: bool)
        requires
            self.wf(),
        ensures
            r == !(self.offset() < self.source().len()),
            0 <= self.offset() <= self.source().len(),
    {
        proof {
            self.lemma_source();
            lemma_char_index(self.input.spec_bytes(), self.position as int);
        }
        self.position >= self.input.as_bytes().len()
    }

    /// Whether the input has a character `n` places after the cursor.
    pub(crate) fn has_at_least(&self, n: usize) -> (r: bool)
        requires
            self.wf(),
            self.ascii_ahead(n as int),
        ensures
            r == (self.offset() + n < self.source().len()),
    {
        proof {
            self.lemma_source();
            lemma_ahead(self.input.spec_bytes(), self.position as int, n as int);
        }
        n < self.input.as_bytes().len() - self.position
    }

    /// The character `k` places after the cursor.
    pub(crate) fn char_at(&self, k: usize) -> (c: char)
        requires
            self.wf(),
            self.ascii_ahead(k as int),
            self.offset() + k < self.source().len(),
        ensures
            c == self.source()[self.offset() + k],
    {
        proof {
            self.lemma_source();
            lemma_ahead(self.input.spec_bytes(), self.position as int, k as int);
        }
        let bytes = self.input.as_bytes();
        assert(self.position + k < bytes.len());
        decode_char(bytes, self.position + k).0
    }

    pub(crate) fn current_char(&self) -> (c: char)
        requires
            self.wf(),
            self.offset() < self.source().len(),
        ensures
            c == self.source()[self.offset()],
    {
        self.char_at(0)
    }

    pub(crate) fn has_newline_at(&self, k: usize) -> (r: bool)
        requires
            self.wf(),
            self.ascii_ahead(k as int),
        ensures
            r == newline_at(self.source(), self.offset() + k),
    {
        proof {
            self.lemma_source();
        }
        self.has_at_least(k) && newline(self.char_at(k))
    }

    /// Moves the cursor over `n` ASCII characters.
    pub(crate) fn advance(&mut self, n: usize)
        requires
            old(self).wf(),
            old(self).ascii_ahead(n as int),
            old(self).offset() + n <= old(self).source().len(),
        ensures
            final(self).moved(old(self), old(self).offset() + n),
    {
        proof {
            self.lemma_source();
            lemma_ahead(self.input.spec_bytes(), self.position as int, n as int);
        }
        let end: usize = self.input.as_bytes().len();
        assert(self.position + n <= end);
        self.position = self.position + n;
    }

    /// Reads the character at the cursor and moves past it.
    pub(crate) fn consume_char(&mut self) -> (c: char)
        requires
            old(self).wf(),
            old(self).offset() < old(self).source().len(),
        ensures
            c == old(self).source()[old(self).offset()],
            final(self).moved(old(self), old(self).offset() + 1),
    {
        proof {
            self.lemma_source();
            lemma_char_index(self.input.spec_bytes(), self.position as int);
        }
        let bytes = self.input.as_bytes();
        let (c, width) = decode_char(bytes, self.position);
        assert(self.position + width <= bytes.len());
        self.position = self.position + width;
        c
    }
}

} // verus!
