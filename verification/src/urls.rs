//! Scanning URLs: what follows `url(`.
use vstd::prelude::*;
use crate::classes::{non_printable, whitespace};
use crate::grammar::{
    REPLACEMENT_CHAR, UrlStep, ascii_at, at, bad_url_end, quoted_string, unquoted_url, url_close,
    url_step, url_token,
};
use crate::names::consume_escape;
use crate::runs::consume_whitespace;
use crate::strings::consume_quoted_string;
use crate::token::{Token, TokenView};
use crate::tokenizer::Tokenizer;

verus! {

/// Reads a URL, where `url(` has been read.
pub(crate) fn consume_url(tokenizer: &mut Tokenizer) -> (token: Token)
    requires
        old(tokenizer).wf(),
    ensures
        token@ == url_token(old(tokenizer).source(), old(tokenizer).offset()).0,
        final(tokenizer).moved(
            old(tokenizer),
            url_token(old(tokenizer).source(), old(tokenizer).offset()).1,
        ),
{
    consume_whitespace(tokenizer);
    if tokenizer.is_eof() {
        return Token::Url(String::new());
    }
    let c = tokenizer.current_char();
    if c == ')' {
        assert(ascii_at(tokenizer.source(), tokenizer.offset()));
        tokenizer.advance(1);
        Token::Url(String::new())
    } else if c == '"' {
        consume_quoted_url(tokenizer, false)
    } else if c == '\'' {
        consume_quoted_url(tokenizer, true)
    } else {
        consume_unquoted_url(tokenizer)
    }
}

/// Reads a URL that is written as a quoted string, from its opening quote.
fn consume_quoted_url(tokenizer: &mut Tokenizer, single_quote: bool) -> (token: Token)
    requires
        old(tokenizer).wf(),
        at(
            old(tokenizer).source(),
            old(tokenizer).offset(),
            if single_quote {
                '\''
            } else {
                '"'
            },
        ),
    ensures
        ({
            let s = old(tokenizer).source();
            let (text, end) = quoted_string(s, old(tokenizer).offset());
            let expected = match text {
                Some(text) => url_close(s, end, text),
                None => (TokenView::BadUrl, bad_url_end(s, end)),
            };
            token@ == expected.0 && final(tokenizer).moved(old(tokenizer), expected.1)
        }),
{
    match consume_quoted_string(tokenizer, single_quote) {
        Ok(value) => consume_url_end(tokenizer, value),
        Err(_) => consume_bad_url(tokenizer),
    }
}

/// Reads a URL that is written without quotes.
fn consume_unquoted_url(tokenizer: &mut Tokenizer) -> (token: Token)
    requires
        old(tokenizer).wf(),
    ensures
        token@ == unquoted_url(old(tokenizer).source(), old(tokenizer).offset(), seq![]).0,
        final(tokenizer).moved(
            old(tokenizer),
            unquoted_url(old(tokenizer).source(), old(tokenizer).offset(), seq![]).1,
        ),
{
    let ghost s = tokenizer.source();
    let ghost start = tokenizer.offset();
    let mut string = String::new();
    loop
        invariant_except_break
            unquoted_url(s, tokenizer.offset(), string@) == unquoted_url(s, start, seq![]),
        invariant
            tokenizer.wf(),
            tokenizer.source() == s,
            tokenizer.pending() == old(tokenizer).pending(),
            s == old(tokenizer).source(),
            start == old(tokenizer).offset(),
        ensures
            unquoted_url(s, start, seq![]) == (TokenView::Url(string@), tokenizer.offset()),
        decreases s.len() - tokenizer.offset(),
    {
        if tokenizer.is_eof() {
            break ;
        }
        let ghost here = tokenizer.offset();
        let c = tokenizer.consume_char();
        let next_char = if whitespace(c) {
            return consume_url_end(tokenizer, string);
        } else if c == ')' {
            break ;
        } else if non_printable(c) || c == '"' || c == '\'' || c == '(' {
            return consume_bad_url(tokenizer);
        } else if c == '\\' {
            if tokenizer.has_newline_at(0) {
                return consume_bad_url(tokenizer);
            }
            consume_escape(tokenizer)
        } else if c == '\0' {
            REPLACEMENT_CHAR
        } else {
            c
        };
        string.push(next_char);
        proof {
            tokenizer.lemma_offset();
            assert(url_step(s, here) == UrlStep::Append(next_char, tokenizer.offset()));
        }
    }
    Token::Url(string)
}

/// Reads what may follow a URL's text: whitespace and `)`.
fn consume_url_end(tokenizer: &mut Tokenizer, string: String) -> (token: Token)
    requires
        old(tokenizer).wf(),
    ensures
        token@ == url_close(old(tokenizer).source(), old(tokenizer).offset(), string@).0,
        final(tokenizer).moved(
            old(tokenizer),
            url_close(old(tokenizer).source(), old(tokenizer).offset(), string@).1,
        ),
{
    consume_whitespace(tokenizer);
    if tokenizer.is_eof() {
        return Token::Url(string);
    }
    if tokenizer.consume_char() == ')' {
        Token::Url(string)
    } else {
        consume_bad_url(tokenizer)
    }
}

/// Recovers from a bad URL: reads up to and including the next `)`, where
/// a backslash hides the character after it.
fn consume_bad_url(tokenizer: &mut Tokenizer) -> (token: Token)
    requires
        old(tokenizer).wf(),
    ensures
        token@ == TokenView::BadUrl,
        final(tokenizer).moved(
            old(tokenizer),
            bad_url_end(old(tokenizer).source(), old(tokenizer).offset()),
        ),
{
    let ghost s = tokenizer.source();
    let ghost start = tokenizer.offset();
    loop
        invariant_except_break
            bad_url_end(s, tokenizer.offset()) == bad_url_end(s, start),
        invariant
            tokenizer.wf(),
            tokenizer.source() == s,
            tokenizer.pending() == old(tokenizer).pending(),
        ensures
            bad_url_end(s, start) == tokenizer.offset(),
        decreases s.len() - tokenizer.offset(),
    {
        if tokenizer.is_eof() {
            break ;
        }
        let c = tokenizer.consume_char();
        if c == ')' {
            break ;
        }
        if c == '\\' && !tokenizer.is_eof() {
            // Skip an escaped ')' or '\'
            tokenizer.consume_char();
        }
        proof {
            tokenizer.lemma_offset();
        }
    }
    Token::BadUrl
}

} // verus!
