//! Where the grammar's scans end: never before their start, never past
//! the end of the text, and past at least one character where a token needs
//! it.
use vstd::prelude::*;
use crate::grammar::{
    StringStep, UrlStep, at, bad_url_end, comment_len, digit_at, digits_end, escape_end,
    fraction_end, hex_len, hex_value, ident_like_token, ident_start, integer_end, is_digit,
    is_hex_digit, is_whitespace, name_end, name_step, next_token, number_end, number_start,
    numeric_token, pow16, quoted_string, skip_comments, string_rest, string_step, token_at,
    unicode_range_start, unicode_range_token, unquoted_url, unsigned_start, url_close, url_step,
    url_token, whitespace_end, wildcard_len,
};
use crate::token::TokenView;

verus! {

/// A run of whitespace ends inside the text, holds whitespace only, and
/// is not followed by more.
pub proof fn lemma_whitespace_end(s: Seq<char>, i: int)
    requires
        0 <= i <= s.len(),
    ensures
        i <= whitespace_end(s, i) <= s.len(),
        forall|j: int| i <= j < whitespace_end(s, i) ==> is_whitespace(#[trigger] s[j]),
        whitespace_end(s, i) < s.len() ==> !is_whitespace(s[whitespace_end(s, i)]),
    decreases s.len() - i,
{
    if i < s.len() && is_whitespace(s[i]) {
        lemma_whitespace_end(s, i + 1);
    }
}

/// A run of digits ends inside the text, holds digits only, and is not
/// followed by more.
pub proof fn lemma_digits_end(s: Seq<char>, i: int)
    requires
        0 <= i <= s.len(),
    ensures
        i <= digits_end(s, i) <= s.len(),
        forall|j: int| i <= j < digits_end(s, i) ==> is_digit(#[trigger] s[j]),
        !digit_at(s, digits_end(s, i)),
        digit_at(s, i) ==> i < digits_end(s, i),
    decreases s.len() - i,
{
    if i < s.len() && is_digit(s[i]) {
        lemma_digits_end(s, i + 1);
    }
}

/// The powers of 16 up to the sixth.
pub proof fn lemma_pow16()
    ensures
        pow16(0) == 1,
        pow16(1) == 0x10,
        pow16(2) == 0x100,
        pow16(3) == 0x1000,
        pow16(4) == 0x1_0000,
        pow16(5) == 0x10_0000,
        pow16(6) == 0x100_0000,
{
    reveal_with_fuel(pow16, 8);
}

/// Counted hex digits lie inside the text and are hex digits.
pub proof fn lemma_hex_len(s: Seq<char>, i: int, max: nat)
    requires
        0 <= i <= s.len(),
    ensures
        hex_len(s, i, max) <= max,
        i + hex_len(s, i, max) <= s.len(),
        forall|j: int| i <= j < i + hex_len(s, i, max) ==> is_hex_digit(#[trigger] s[j]),
        max > 0 && i < s.len() && is_hex_digit(s[i]) ==> hex_len(s, i, max) > 0,
    decreases max,
{
    if max > 0 && i < s.len() && is_hex_digit(s[i]) {
        lemma_hex_len(s, i + 1, (max - 1) as nat);
    }
}

/// `n` hex digits denote a number below 16 to the `n`.
pub proof fn lemma_hex_value(digits: Seq<char>)
    requires
        forall|j: int| 0 <= j < digits.len() ==> is_hex_digit(#[trigger] digits[j]),
    ensures
        0 <= hex_value(digits) < pow16(digits.len()),
    decreases digits.len(),
{
    if digits.len() > 0 {
        lemma_hex_value(digits.drop_last());
        assert(is_hex_digit(digits[digits.len() - 1]));
    }
}

/// Counted wildcards lie inside the text.
pub proof fn lemma_wildcard_len(s: Seq<char>, i: int, max: nat)
    requires
        0 <= i <= s.len(),
    ensures
        wildcard_len(s, i, max) <= max,
        i + wildcard_len(s, i, max) <= s.len(),
        max > 0 && at(s, i, '?') ==> wildcard_len(s, i, max) > 0,
    decreases max,
{
    if max > 0 && at(s, i, '?') {
        lemma_wildcard_len(s, i + 1, (max - 1) as nat);
    }
}

/// A comment ends inside the text.
pub proof fn lemma_comment_len(s: Seq<char>, i: int)
    requires
        0 <= i <= s.len(),
    ensures
        i + comment_len(s, i) <= s.len(),
    decreases s.len() - i,
{
    if i < s.len() && !(s[i] == '*' && at(s, i + 1, '/')) {
        lemma_comment_len(s, i + 1);
    }
}

/// Skipping comments ends inside the text, where no comment starts.
pub proof fn lemma_skip_comments(s: Seq<char>, i: int)
    requires
        0 <= i <= s.len(),
    ensures
        i <= skip_comments(s, i) <= s.len(),
        !(at(s, skip_comments(s, i), '/') && at(s, skip_comments(s, i) + 1, '*')),
        skip_comments(s, skip_comments(s, i)) == skip_comments(s, i),
    decreases s.len() - i,
{
    if at(s, i, '/') && at(s, i + 1, '*') {
        lemma_comment_len(s, i + 2);
        lemma_skip_comments(s, i + 2 + comment_len(s, i + 2));
    }
}

/// An escape ends inside the text, and past its first character if it has
/// one.
pub proof fn lemma_escape_end(s: Seq<char>, i: int)
    requires
        0 <= i <= s.len(),
    ensures
        i <= escape_end(s, i) <= s.len(),
        i < s.len() ==> i < escape_end(s, i),
{
    lemma_hex_len(s, i, 6);
}

/// A name ends inside the text, and past its start where a name character
/// stands there.
pub proof fn lemma_name_end(s: Seq<char>, i: int)
    requires
        0 <= i <= s.len(),
    ensures
        i <= name_end(s, i) <= s.len(),
        name_step(s, i) is Some ==> i < name_end(s, i),
        ident_start(s, i) ==> i < name_end(s, i),
    decreases s.len() - i,
{
    match name_step(s, i) {
        Some((_, next)) => {
            lemma_escape_end(s, i + 1);
            lemma_name_end(s, next);
        },
        None => {},
    }
}

/// The rest of a quoted string ends inside the text.
pub proof fn lemma_string_rest(s: Seq<char>, i: int, quote: char, text: Seq<char>)
    requires
        0 <= i <= s.len(),
    ensures
        i <= string_rest(s, i, quote, text).1 <= s.len(),
    decreases s.len() - i,
{
    match string_step(s, i, quote) {
        StringStep::Append(c, next) => {
            lemma_escape_end(s, i + 1);
            lemma_string_rest(s, next, quote, text.push(c));
        },
        StringStep::Skip(next) => {
            lemma_string_rest(s, next, quote, text);
        },
        _ => {},
    }
}

/// The recovery from a bad URL ends inside the text.
pub proof fn lemma_bad_url_end(s: Seq<char>, i: int)
    requires
        0 <= i <= s.len(),
    ensures
        i <= bad_url_end(s, i) <= s.len(),
    decreases s.len() - i,
{
    if i < s.len() && s[i] != ')' {
        if s[i] == '\\' && i + 1 < s.len() {
            lemma_bad_url_end(s, i + 2);
        } else {
            lemma_bad_url_end(s, i + 1);
        }
    }
}

/// A token is a URL or a bad URL.
pub open spec fn is_url_or_bad(token: TokenView) -> bool {
    token is Url || token is BadUrl
}

/// The close of a URL ends inside the text.
pub proof fn lemma_url_close(s: Seq<char>, i: int, text: Seq<char>)
    requires
        0 <= i <= s.len(),
    ensures
        i <= url_close(s, i, text).1 <= s.len(),
        is_url_or_bad(url_close(s, i, text).0),
{
    lemma_whitespace_end(s, i);
    let j = whitespace_end(s, i);
    if j < s.len() {
        lemma_bad_url_end(s, j + 1);
    }
}

/// An unquoted URL ends inside the text.
pub proof fn lemma_unquoted_url(s: Seq<char>, i: int, text: Seq<char>)
    requires
        0 <= i <= s.len(),
    ensures
        i <= unquoted_url(s, i, text).1 <= s.len(),
        is_url_or_bad(unquoted_url(s, i, text).0),
    decreases s.len() - i,
{
    match url_step(s, i) {
        UrlStep::Append(c, next) => {
            lemma_escape_end(s, i + 1);
            lemma_unquoted_url(s, next, text.push(c));
        },
        UrlStep::Space(next) => {
            lemma_url_close(s, next, text);
        },
        UrlStep::Bad(next) => {
            lemma_bad_url_end(s, next);
        },
        UrlStep::Close(_) => {},
    }
}

/// A URL ends inside the text.
pub proof fn lemma_url_token(s: Seq<char>, i: int)
    requires
        0 <= i <= s.len(),
    ensures
        i <= url_token(s, i).1 <= s.len(),
        is_url_or_bad(url_token(s, i).0),
{
    lemma_whitespace_end(s, i);
    let j = whitespace_end(s, i);
    if j < s.len() {
        if s[j] == ')' {
        } else if s[j] == '"' || s[j] == '\'' {
            lemma_string_rest(s, j + 1, s[j], seq![]);
            let (text, end) = quoted_string(s, j);
            match text {
                Some(text) => lemma_url_close(s, end, text),
                None => lemma_bad_url_end(s, end),
            }
        } else {
            lemma_unquoted_url(s, j, seq![]);
        }
    }
}

/// An identifier, function or URL ends inside the text, past its start.
pub proof fn lemma_ident_like_token(s: Seq<char>, i: int)
    requires
        0 <= i <= s.len(),
        ident_start(s, i),
    ensures
        i < ident_like_token(s, i).1 <= s.len(),
        ident_like_token(s, i).0 is Ident || ident_like_token(s, i).0 is Function
            || is_url_or_bad(ident_like_token(s, i).0),
{
    lemma_name_end(s, i);
    let end = name_end(s, i);
    if at(s, end, '(') {
        lemma_url_token(s, end + 1);
    }
}

/// A numeric literal ends inside the text, past its start, with its parts
/// in order.
pub proof fn lemma_number_end(s: Seq<char>, i: int)
    requires
        0 <= i <= s.len(),
        number_start(s, i),
    ensures
        i <= unsigned_start(s, i) <= integer_end(s, i) <= fraction_end(s, i) <= number_end(s, i)
            <= s.len(),
        i < number_end(s, i),
{
    lemma_digits_end(s, unsigned_start(s, i));
    let d = integer_end(s, i);
    if d + 2 <= s.len() {
        lemma_digits_end(s, d + 2);
    }
    let f = fraction_end(s, i);
    if f + 2 <= s.len() {
        lemma_digits_end(s, f + 2);
    }
}

/// A number, percentage or dimension ends inside the text, past its
/// start.
pub proof fn lemma_numeric_token(s: Seq<char>, i: int)
    requires
        0 <= i <= s.len(),
        number_start(s, i),
    ensures
        i < numeric_token(s, i).1 <= s.len(),
        numeric_token(s, i).0 is Number || numeric_token(s, i).0 is Percentage || numeric_token(
            s,
            i,
        ).0 is Dimension,
{
    lemma_number_end(s, i);
    lemma_name_end(s, number_end(s, i));
}

/// A Unicode range ends inside the text, past its start.
pub proof fn lemma_unicode_range_token(s: Seq<char>, i: int)
    requires
        0 <= i <= s.len(),
        unicode_range_start(s, i),
    ensures
        i < unicode_range_token(s, i).1 <= s.len(),
        unicode_range_token(s, i).0 is UnicodeRange,
{
    lemma_hex_len(s, i + 2, 6);
    let prefix_end = i + 2 + hex_len(s, i + 2, 6);
    lemma_wildcard_len(s, prefix_end, (6 - hex_len(s, i + 2, 6)) as nat);
    if prefix_end < s.len() {
        lemma_hex_len(s, prefix_end + 1, 6);
    }
}

/// A token ends inside the text, past its start.
pub proof fn lemma_token_at(s: Seq<char>, i: int)
    requires
        0 <= i < s.len(),
    ensures
        i < token_at(s, i).1 <= s.len(),
{
    let c = s[i];
    if is_whitespace(c) {
        lemma_whitespace_end(s, i + 1);
    } else if c == '"' || c == '\'' {
        lemma_string_rest(s, i + 1, c, seq![]);
    } else if number_start(s, i) {
        lemma_numeric_token(s, i);
    } else if unicode_range_start(s, i) {
        lemma_unicode_range_token(s, i);
    } else {
        lemma_name_end(s, i + 1);
        if ident_start(s, i) {
            lemma_ident_like_token(s, i);
        }
    }
}

/// The next token ends inside the text, past where the scan began; where
/// there is none, only comments were left.
pub proof fn lemma_next_token(s: Seq<char>, i: int)
    requires
        0 <= i <= s.len(),
    ensures
        match next_token(s, i) {
            Some((_, end)) => i <= skip_comments(s, i) < end <= s.len(),
            None => skip_comments(s, i) == s.len(),
        },
{
    lemma_skip_comments(s, i);
    if skip_comments(s, i) < s.len() {
        lemma_token_at(s, skip_comments(s, i));
    }
}

} // verus!
