//! Scanning quoted strings.
use vstd::prelude::*;
use crate::classes::newline;
use crate::grammar::{REPLACEMENT_CHAR, ascii_at, at, quoted_string, string_rest};
use crate::names::consume_escape;
use crate::token::{Token, TokenView};
use crate::tokenizer::Tokenizer;

verus! {

/// Reads the quoted string whose opening quote is at the cursor and gives
/// its decoded text, or `Err(())` for an unescaped newline, which is left
/// unread.
pub(crate) fn consume_quoted_string(tokenizer: &mut Tokenizer, single_quote: bool) -> (r: Result<
    String,
    (),
>)
    requires
        old(tokenizer).wf(),
        at(
            old(tokenizer).source(),
            old(tokenizer).offset(),
            if single_quote {
                '\''
            } else {
                '"'
            },
        ),
    ensures
        final(tokenizer).moved(
            old(tokenizer),
            quoted_string(old(tokenizer).source(), old(tokenizer).offset()).1,
        ),
        match r {
            Ok(text) => quoted_string(old(tokenizer).source(), old(tokenizer).offset()).0 == Some(
                text@,
            ),
            Err(_) => quoted_string(old(tokenizer).source(), old(tokenizer).offset()).0 is None,
        },
{
    let ghost s = tokenizer.source();
    let ghost start = tokenizer.offset();
    let quote = if single_quote {
        '\''
    } else {
        '"'
    };
    assert(ascii_at(s, start));
    tokenizer.advance(1);  // Skip the initial quote
    let mut string = String::new();
    loop
        invariant_except_break
            string_rest(s, tokenizer.offset(), quote, string@) == quoted_string(s, start),
        invariant
            tokenizer.wf(),
            tokenizer.source() == s,
            tokenizer.pending() == old(tokenizer).pending(),
            s == old(tokenizer).source(),
            start == old(tokenizer).offset(),
            quote == '\'' || quote == '"',
        ensures
            quoted_string(s, start) == (Some(string@), tokenizer.offset()),
        decreases s.len() - tokenizer.offset(),
    {
        if tokenizer.is_eof() {
            break ;
        }
        let ghost here = tokenizer.offset();
        let c = tokenizer.current_char();
        if newline(c) {
            return Err(());
        }
        if c == quote {
            assert(ascii_at(s, here));
            tokenizer.advance(1);
            break ;
        } else if c == '\\' {
            assert(ascii_at(s, here));
            tokenizer.advance(1);
            if !tokenizer.is_eof() {
                let d = tokenizer.current_char();
                if d == '\n' || d == '\x0C' {
                    // Escaped newline
                    assert(ascii_at(s, here + 1));
                    tokenizer.advance(1);
                } else if d == '\r' {
                    assert(ascii_at(s, here + 1));
                    tokenizer.advance(1);
                    if !tokenizer.is_eof() && tokenizer.current_char() == '\n' {
                        assert(ascii_at(s, here + 2));
                        tokenizer.advance(1);
                    }
                } else {
                    let escaped = consume_escape(tokenizer);
                    string.push(escaped);
                }
            }
        } else if c == '\0' {
            assert(ascii_at(s, here));
            tokenizer.advance(1);
            string.push(REPLACEMENT_CHAR);
        } else {
            let c = tokenizer.consume_char();
            string.push(c);
        }
        proof {
            tokenizer.lemma_offset();
        }
    }
    Ok(string)
}

/// Reads the quoted string at the cursor as a token.
pub(crate) fn consume_string(tokenizer: &mut Tokenizer, single_quote: bool) -> (token: Token)
    requires
        old(tokenizer).wf(),
        at(
            old(tokenizer).source(),
            old(tokenizer).offset(),
            if single_quote {
                '\''
            } else {
                '"'
            },
        ),
    ensures
        final(tokenizer).moved(
            old(tokenizer),
            quoted_string(old(tokenizer).source(), old(tokenizer).offset()).1,
        ),
        token@ == match quoted_string(old(tokenizer).source(), old(tokenizer).offset()).0 {
            Some(text) => TokenView::QuotedString(text),
            None => TokenView::BadString,
        },
{
    match consume_quoted_string(tokenizer, single_quote) {
        Ok(value) => Token::QuotedString(value),
        Err(_) => Token::BadString,
    }
}

} // verus!
