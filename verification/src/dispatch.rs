//! Choosing the scanner for the token at the cursor.
use vstd::prelude::*;
use vstd::string::StrSliceExecFns;
use crate::classes::{digit, hex_digit, letter, non_ascii};
use crate::grammar;
use crate::grammar::{at, hash_token, ident_like_token, is_url_name, number_start, skip_comments};
use crate::names::{consume_name, is_ident_start};
use crate::numbers::consume_numeric;
use crate::ranges::consume_unicode_range;
use crate::runs::{consume_comments, consume_whitespace};
use crate::strings::consume_string;
use crate::token::{Token, TokenView};
use crate::tokenizer::Tokenizer;
use crate::urls::consume_url;

verus! {

/// Whether the character `k` places after the cursor is `c`.
fn next_is(tokenizer: &Tokenizer, k: usize, c: char) -> (r: bool)
    requires
        tokenizer.wf(),
        tokenizer.ascii_ahead(k as int),
    ensures
        r == at(tokenizer.source(), tokenizer.offset() + k, c),
{
    proof {
        tokenizer.lemma_offset();
    }
    tokenizer.has_at_least(k) && tokenizer.char_at(k) == c
}

/// Whether a digit stands `k` places after the cursor.
fn next_is_digit(tokenizer: &Tokenizer, k: usize) -> (r: bool)
    requires
        tokenizer.wf(),
        tokenizer.ascii_ahead(k as int),
    ensures
        r == grammar::digit_at(tokenizer.source(), tokenizer.offset() + k),
{
    proof {
        tokenizer.lemma_offset();
    }
    tokenizer.has_at_least(k) && digit(tokenizer.char_at(k))
}

/// Whether `name` is `url`, in any case.
fn is_url(name: &String) -> (r: bool)
    ensures
        r == is_url_name(name@),
{
    let text = name.as_str();
    if text.unicode_len() != 3 {
        return false;
    }
    let u = text.get_char(0);
    let r = text.get_char(1);
    let l = text.get_char(2);
    (u == 'u' || u == 'U') && (r == 'r' || r == 'R') && (l == 'l' || l == 'L')
}

/// Reads the identifier, function or URL at the cursor.
pub(crate) fn consume_ident_like(tokenizer: &mut Tokenizer) -> (token: Token)
    requires
        old(tokenizer).wf(),
    ensures
        token@ == ident_like_token(old(tokenizer).source(), old(tokenizer).offset()).0,
        final(tokenizer).moved(
            old(tokenizer),
            ident_like_token(old(tokenizer).source(), old(tokenizer).offset()).1,
        ),
{
    let value = consume_name(tokenizer);
    if !tokenizer.is_eof() && tokenizer.current_char() == '(' {
        tokenizer.advance(1);
        if is_url(&value) {
            consume_url(tokenizer)
        } else {
            Token::Function(value)
        }
    } else {
        Token::Ident(value)
    }
}

/// Reads the token that starts with the `#` at the cursor.
fn consume_hash(tokenizer: &mut Tokenizer) -> (token: Token)
    requires
        old(tokenizer).wf(),
        at(old(tokenizer).source(), old(tokenizer).offset(), '#'),
    ensures
        token@ == hash_token(old(tokenizer).source(), old(tokenizer).offset()).0,
        final(tokenizer).moved(
            old(tokenizer),
            hash_token(old(tokenizer).source(), old(tokenizer).offset()).1,
        ),
{
    tokenizer.advance(1);
    if is_ident_start(tokenizer) {
        Token::IDHash(consume_name(tokenizer))
    } else if !tokenizer.is_eof() && {
        let c = tokenizer.current_char();
        letter(c) || digit(c) || c == '-' || c == '_' || (c == '\\' && !tokenizer.has_newline_at(
            1,
        )) || non_ascii(c)
    } {
        Token::Hash(consume_name(tokenizer))
    } else {
        Token::Delim('#')
    }
}

/// Reads the token that starts with the ASCII character `c` at the
/// cursor: `c=` if `with_equals` is given and `=` follows, else `c` alone.
fn consume_operator(tokenizer: &mut Tokenizer, c: char, with_equals: Option<Token>) -> (token:
    Token)
    requires
        old(tokenizer).wf(),
        at(old(tokenizer).source(), old(tokenizer).offset(), c),
        c <= '\x7F',
    ensures
        token@ == (match with_equals {
            Some(t) if at(old(tokenizer).source(), old(tokenizer).offset() + 1, '=') => t@,
            _ => TokenView::Delim(c),
        }),
        final(tokenizer).moved(
            old(tokenizer),
            match with_equals {
                Some(t) if at(old(tokenizer).source(), old(tokenizer).offset() + 1, '=') =>
                    old(tokenizer).offset() + 2,
                _ => old(tokenizer).offset() + 1,
            },
        ),
{
    match with_equals {
        Some(t) => {
            if next_is(tokenizer, 1, '=') {
                tokenizer.advance(2);
                t
            } else {
                tokenizer.advance(1);
                Token::Delim(c)
            }
        },
        None => {
            tokenizer.advance(1);
            Token::Delim(c)
        },
    }
}

/// Whether a numeric literal starts at the cursor, where a sign stands.
fn sign_starts_number(tokenizer: &Tokenizer) -> (r: bool)
    requires
        tokenizer.wf(),
        grammar::sign_at(tokenizer.source(), tokenizer.offset()),
    ensures
        r == number_start(tokenizer.source(), tokenizer.offset()),
{
    next_is_digit(tokenizer, 1) || (next_is(tokenizer, 1, '.') && next_is_digit(tokenizer, 2))
}

/// Reads the next token, after any comments; `None` at the end of the
/// input.
pub(crate) fn next_token(tokenizer: &mut Tokenizer) -> (r: Option<Token>)
    requires
        old(tokenizer).wf(),
    ensures
        match grammar::next_token(old(tokenizer).source(), old(tokenizer).offset()) {
            Some((token, end)) => r matches Some(t) && t@ == token && final(tokenizer).moved(
                old(tokenizer),
                end,
            ),
            None => r is None && final(tokenizer).moved(
                old(tokenizer),
                skip_comments(old(tokenizer).source(), old(tokenizer).offset()),
            ),
        },
{
    consume_comments(tokenizer);
    if tokenizer.is_eof() {
        return None;
    }
    let c = tokenizer.current_char();
    let token = match c {
        '\t' | '\n' | ' ' | '\r' | '\x0C' => {
            consume_whitespace(tokenizer);
            Token::WhiteSpace
        },
        '"' => consume_string(tokenizer, false),
        '#' => consume_hash(tokenizer),
        '$' => consume_operator(tokenizer, c, Some(Token::SuffixMatch)),
        '\'' => consume_string(tokenizer, true),
        '(' => {
            tokenizer.advance(1);
            Token::ParenthesisBlock
        },
        ')' => {
            tokenizer.advance(1);
            Token::CloseParenthesis
        },
        '*' => consume_operator(tokenizer, c, Some(Token::SubstringMatch)),
        '+' => {
            if sign_starts_number(tokenizer) {
                consume_numeric(tokenizer)
            } else {
                consume_operator(tokenizer, c, None)
            }
        },
        ',' => {
            tokenizer.advance(1);
            Token::Comma
        },
        '-' => {
            if sign_starts_number(tokenizer) {
                consume_numeric(tokenizer)
            } else if next_is(tokenizer, 1, '-') && next_is(tokenizer, 2, '>') {
                tokenizer.advance(3);
                Token::CDC
            } else if is_ident_start(tokenizer) {
                consume_ident_like(tokenizer)
            } else {
                consume_operator(tokenizer, c, None)
            }
        },
        '.' => {
            if next_is_digit(tokenizer, 1) {
                consume_numeric(tokenizer)
            } else {
                consume_operator(tokenizer, c, None)
            }
        },
        ':' => {
            tokenizer.advance(1);
            Token::Colon
        },
        ';' => {
            tokenizer.advance(1);
            Token::Semicolon
        },
        '<' => {
            if next_is(tokenizer, 1, '!') && next_is(tokenizer, 2, '-') && next_is(
                tokenizer,
                3,
                '-',
            ) {
                tokenizer.advance(4);
                Token::CDO
            } else {
                consume_operator(tokenizer, c, None)
            }
        },
        '@' => {
            tokenizer.advance(1);
            if is_ident_start(tokenizer) {
                Token::AtKeyword(consume_name(tokenizer))
            } else {
                Token::Delim(c)
            }
        },
        'u' | 'U' => {
            if next_is(tokenizer, 1, '+') && tokenizer.has_at_least(2) && {
                let d = tokenizer.char_at(2);
                hex_digit(d) || d == '?'
            } {
                consume_unicode_range(tokenizer)
            } else {
                consume_ident_like(tokenizer)
            }
        },
        '[' => {
            tokenizer.advance(1);
            Token::SquareBracketBlock
        },
        '\\' => {
            if !tokenizer.has_newline_at(1) {
                consume_ident_like(tokenizer)
            } else {
                consume_operator(tokenizer, c, None)
            }
        },
        ']' => {
            tokenizer.advance(1);
            Token::CloseSquareBracket
        },
        '^' => consume_operator(tokenizer, c, Some(Token::PrefixMatch)),
        '{' => {
            tokenizer.advance(1);
            Token::CurlyBracketBlock
        },
        '|' => {
            if next_is(tokenizer, 1, '|') {
                tokenizer.advance(2);
                Token::Column
            } else {
                consume_operator(tokenizer, c, Some(Token::DashMatch))
            }
        },
        '}' => {
            tokenizer.advance(1);
            Token::CloseCurlyBracket
        },
        '~' => consume_operator(tokenizer, c, Some(Token::IncludeMatch)),
        _ => {
            if digit(c) {
                consume_numeric(tokenizer)
            } else if letter(c) || c == '_' || c == '\0' || non_ascii(c) {
                consume_ident_like(tokenizer)
            } else {
                consume_operator(tokenizer, c, None)
            }
        },
    };
    Some(token)
}

} // verus!
