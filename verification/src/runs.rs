//! Skipping whitespace and comments.
use vstd::prelude::*;
use crate::classes::whitespace;
use crate::grammar::{ascii_at, at, comment_len, skip_comments, whitespace_end};
use crate::tokenizer::Tokenizer;

verus! {

/// Moves past the run of whitespace at the cursor.
pub(crate) fn consume_whitespace(tokenizer: &mut Tokenizer)
    requires
        old(tokenizer).wf(),
    ensures
        final(tokenizer).moved(
            old(tokenizer),
            whitespace_end(old(tokenizer).source(), old(tokenizer).offset()),
        ),
{
    let ghost s = tokenizer.source();
    let ghost start = tokenizer.offset();
    loop
        invariant
            tokenizer.wf(),
            tokenizer.source() == s,
            tokenizer.pending() == old(tokenizer).pending(),
            whitespace_end(s, tokenizer.offset()) == whitespace_end(s, start),
        ensures
            whitespace_end(s, tokenizer.offset()) == tokenizer.offset(),
        decreases s.len() - tokenizer.offset(),
    {
        if tokenizer.is_eof() {
            break ;
        }
        if !whitespace(tokenizer.current_char()) {
            break ;
        }
        assert(ascii_at(s, tokenizer.offset()));
        tokenizer.advance(1);
    }
}

/// Moves to the end of a comment whose `/*` has been read.
fn consume_comment_body(tokenizer: &mut Tokenizer)
    requires
        old(tokenizer).wf(),
    ensures
        final(tokenizer).moved(
            old(tokenizer),
            old(tokenizer).offset() + comment_len(
                old(tokenizer).source(),
                old(tokenizer).offset(),
            ),
        ),
{
    let ghost s = tokenizer.source();
    let ghost start = tokenizer.offset();
    loop
        invariant_except_break
            tokenizer.offset() + comment_len(s, tokenizer.offset()) == start + comment_len(
                s,
                start,
            ),
        invariant
            tokenizer.wf(),
            tokenizer.source() == s,
            tokenizer.pending() == old(tokenizer).pending(),
        ensures
            tokenizer.offset() == start + comment_len(s, start),
        decreases s.len() - tokenizer.offset(),
    {
        if tokenizer.is_eof() {
            break ;
        }
        if tokenizer.consume_char() == '*' && !tokenizer.is_eof() && tokenizer.current_char()
            == '/' {
            assert(ascii_at(s, tokenizer.offset()));
            tokenizer.advance(1);
            break ;
        }
    }
}

/// Moves past the comments at the cursor.
pub(crate) fn consume_comments(tokenizer: &mut Tokenizer)
    requires
        old(tokenizer).wf(),
    ensures
        final(tokenizer).moved(
            old(tokenizer),
            skip_comments(old(tokenizer).source(), old(tokenizer).offset()),
        ),
{
    let ghost s = tokenizer.source();
    let ghost start = tokenizer.offset();
    loop
        invariant
            tokenizer.wf(),
            tokenizer.source() == s,
            tokenizer.pending() == old(tokenizer).pending(),
            skip_comments(s, tokenizer.offset()) == skip_comments(s, start),
        ensures
            skip_comments(s, tokenizer.offset()) == tokenizer.offset(),
        decreases s.len() - tokenizer.offset(),
    {
        if tokenizer.is_eof() || tokenizer.current_char() != '/' {
            break ;
        }
        assert(ascii_at(s, tokenizer.offset()));
        if !tokenizer.has_at_least(1) || tokenizer.char_at(1) != '*' {
            break ;
        }
        assert(ascii_at(s, tokenizer.offset() + 1));
        tokenizer.advance(2);
        consume_comment_body(tokenizer);
        proof {
            tokenizer.lemma_offset();
        }
    }
}

} // verus!
