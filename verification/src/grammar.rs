//! The grammar of CSS tokens, as spec functions over a sequence of
//! characters `s` and an index `i` into it.
//!
//! Functions whose name ends in `_end` give the index just past what they
//! describe; those ending in `_len` give a number of characters. The token
//! that starts at an index, and where it ends, is [`next_token`].
use vstd::prelude::*;
use vstd::utf8::is_scalar;
use crate::token::{NumericView, TokenView};

verus! {

/// U+FFFD, which stands in for NUL, for an escape at the end of the input
/// and for an escape that names no character.
pub const REPLACEMENT_CHAR: char = '\u{FFFD}';

pub open spec fn is_whitespace(c: char) -> bool {
    c == ' ' || c == '\t' || c == '\n' || c == '\r' || c == '\x0C'
}

pub open spec fn is_newline(c: char) -> bool {
    c == '\n' || c == '\r' || c == '\x0C'
}

pub open spec fn is_digit(c: char) -> bool {
    '0' <= c <= '9'
}

pub open spec fn is_hex_digit(c: char) -> bool {
    is_digit(c) || 'a' <= c <= 'f' || 'A' <= c <= 'F'
}

pub open spec fn is_letter(c: char) -> bool {
    'a' <= c <= 'z' || 'A' <= c <= 'Z'
}

pub open spec fn is_non_ascii(c: char) -> bool {
    c > '\x7F'
}

/// Control characters that may not appear in an unquoted URL.
pub open spec fn is_non_printable(c: char) -> bool {
    '\x01' <= c <= '\x08' || c == '\x0B' || '\x0E' <= c <= '\x1F' || c == '\x7F'
}

/// `[A-Za-z0-9_-]`
pub open spec fn is_name_char(c: char) -> bool {
    is_letter(c) || is_digit(c) || c == '_' || c == '-'
}

/// A single character that may begin an identifier.
pub open spec fn is_name_start_char(c: char) -> bool {
    is_letter(c) || c == '_' || c == '\0' || is_non_ascii(c)
}

/// `s` has the character `c` at index `i`.
pub open spec fn at(s: Seq<char>, i: int, c: char) -> bool {
    0 <= i < s.len() && s[i] == c
}

/// The character at `i`, if there is one, is ASCII.
pub open spec fn ascii_at(s: Seq<char>, i: int) -> bool {
    0 <= i < s.len() ==> !is_non_ascii(s[i])
}

pub open spec fn newline_at(s: Seq<char>, i: int) -> bool {
    0 <= i < s.len() && is_newline(s[i])
}

pub open spec fn digit_at(s: Seq<char>, i: int) -> bool {
    0 <= i < s.len() && is_digit(s[i])
}

/// A backslash that is not followed by a newline.
pub open spec fn valid_escape(s: Seq<char>, i: int) -> bool {
    at(s, i, '\\') && !newline_at(s, i + 1)
}

/// An identifier may start at `i`: with a name-start character, a valid
/// escape, or `-` followed by one of these or by another `-`.
pub open spec fn ident_start(s: Seq<char>, i: int) -> bool {
    0 <= i < s.len() && (is_name_start_char(s[i]) || valid_escape(s, i) || (s[i] == '-' && i + 1
        < s.len() && (is_name_start_char(s[i + 1]) || s[i + 1] == '-' || valid_escape(s, i + 1))))
}

/// Number of characters from `i` to the end; 0 where `i` is past the end.
pub open spec fn chars_left(s: Seq<char>, i: int) -> nat {
    if i <= s.len() {
        (s.len() - i) as nat
    } else {
        0
    }
}

/// End of the maximal run of whitespace that starts at `i`.
pub open spec fn whitespace_end(s: Seq<char>, i: int) -> int
    decreases s.len() - i,
{
    if 0 <= i < s.len() && is_whitespace(s[i]) {
        whitespace_end(s, i + 1)
    } else {
        i
    }
}

/// End of the maximal run of decimal digits that starts at `i`.
pub open spec fn digits_end(s: Seq<char>, i: int) -> int
    decreases s.len() - i,
{
    if 0 <= i < s.len() && is_digit(s[i]) {
        digits_end(s, i + 1)
    } else {
        i
    }
}

/// Number of hex digits at `i`, counting at most `max`.
pub open spec fn hex_len(s: Seq<char>, i: int, max: nat) -> nat
    decreases max,
{
    if max > 0 && 0 <= i < s.len() && is_hex_digit(s[i]) {
        1 + hex_len(s, i + 1, (max - 1) as nat)
    } else {
        0
    }
}

/// Number of `?` at `i`, counting at most `max`.
pub open spec fn wildcard_len(s: Seq<char>, i: int, max: nat) -> nat
    decreases max,
{
    if max > 0 && at(s, i, '?') {
        1 + wildcard_len(s, i + 1, (max - 1) as nat)
    } else {
        0
    }
}

pub open spec fn hex_digit_value(c: char) -> int {
    if is_digit(c) {
        c as int - '0' as int
    } else if 'a' <= c <= 'f' {
        c as int - 'a' as int + 10
    } else {
        c as int - 'A' as int + 10
    }
}

/// The number that a sequence of hex digits denotes; 0 for none.
pub open spec fn hex_value(digits: Seq<char>) -> int
    decreases digits.len(),
{
    if digits.len() == 0 {
        0
    } else {
        hex_value(digits.drop_last()) * 16 + hex_digit_value(digits.last())
    }
}

/// The number that a sequence of decimal digits denotes; 0 for none.
pub open spec fn decimal_value(digits: Seq<char>) -> int
    decreases digits.len(),
{
    if digits.len() == 0 {
        0
    } else {
        decimal_value(digits.drop_last()) * 10 + (digits.last() as int - '0' as int)
    }
}

pub open spec fn pow16(k: nat) -> int
    decreases k,
{
    if k == 0 {
        1
    } else {
        16 * pow16((k - 1) as nat)
    }
}

/// The nearest `i64` to `v`.
pub open spec fn clamp_i64(v: int) -> i64 {
    if v > i64::MAX {
        i64::MAX
    } else if v < i64::MIN {
        i64::MIN
    } else {
        v as i64
    }
}

// ---------------------------------------------------------------- comments

/// Length of a comment's body and terminator, where `i` is just past the
/// opening `/*`. A comment that is not closed runs to the end of the input.
pub open spec fn comment_len(s: Seq<char>, i: int) -> nat
    decreases s.len() - i,
{
    if !(0 <= i < s.len()) {
        0
    } else if s[i] == '*' && at(s, i + 1, '/') {
        2
    } else {
        1 + comment_len(s, i + 1)
    }
}

/// The index reached from `i` after any comments that follow one another
/// directly.
pub open spec fn skip_comments(s: Seq<char>, i: int) -> int
    decreases chars_left(s, i),
{
    if at(s, i, '/') && at(s, i + 1, '*') {
        skip_comments(s, i + 2 + comment_len(s, i + 2))
    } else {
        i
    }
}

// ----------------------------------------------------------------- escapes

/// Length of the whitespace that ends a hex escape, at `i`: one whitespace
/// character, where CR LF counts as one.
pub open spec fn escape_terminator_len(s: Seq<char>, i: int) -> nat {
    if at(s, i, '\r') {
        if at(s, i + 1, '\n') {
            2
        } else {
            1
        }
    } else if at(s, i, ' ') || at(s, i, '\t') || at(s, i, '\n') || at(s, i, '\x0C') {
        1
    } else {
        0
    }
}

/// Length of an escape, where `i` is just past the backslash.
pub open spec fn escape_len(s: Seq<char>, i: int) -> nat {
    if !(0 <= i < s.len()) {
        0
    } else if is_hex_digit(s[i]) {
        let h = hex_len(s, i, 6);
        h + escape_terminator_len(s, i + h)
    } else {
        1
    }
}

pub open spec fn escape_end(s: Seq<char>, i: int) -> int {
    i + escape_len(s, i)
}

/// The character with scalar value `v`, or U+FFFD where `v` is zero or no
/// scalar value.
pub open spec fn scalar_or_replacement(v: int) -> char {
    if 0 < v <= u32::MAX && is_scalar(v as u32) {
        v as char
    } else {
        REPLACEMENT_CHAR
    }
}

/// The character that an escape stands for, where `i` is just past the
/// backslash: U+FFFD at the end of the input, the character numbered by up
/// to six hex digits, or else the next character itself.
pub open spec fn escape_char(s: Seq<char>, i: int) -> char {
    if !(0 <= i < s.len()) {
        REPLACEMENT_CHAR
    } else if is_hex_digit(s[i]) {
        scalar_or_replacement(hex_value(s.subrange(i, i + hex_len(s, i, 6))))
    } else {
        s[i]
    }
}

// ------------------------------------------------------------------- names

/// One step of scanning a name at `i`: the character that the name gains
/// and the index to go on from, or `None` where the name ends.
pub open spec fn name_step(s: Seq<char>, i: int) -> Option<(char, int)> {
    if !(0 <= i < s.len()) {
        None
    } else if is_name_char(s[i]) || is_non_ascii(s[i]) {
        Some((s[i], i + 1))
    } else if s[i] == '\0' {
        Some((REPLACEMENT_CHAR, i + 1))
    } else if valid_escape(s, i) {
        Some((escape_char(s, i + 1), escape_end(s, i + 1)))
    } else {
        None
    }
}

/// End of the name that starts at `i`.
pub open spec fn name_end(s: Seq<char>, i: int) -> int
    decreases chars_left(s, i),
{
    match name_step(s, i) {
        Some((_, next)) => name_end(s, next),
        None => i,
    }
}

/// The decoded name that starts at `i`.
pub open spec fn name_text(s: Seq<char>, i: int) -> Seq<char>
    decreases chars_left(s, i),
{
    match name_step(s, i) {
        Some((c, next)) => seq![c] + name_text(s, next),
        None => seq![],
    }
}

// ----------------------------------------------------------------- strings

/// What one step inside a quoted string does.
pub ghost enum StringStep {
    /// The string gains a character; scanning goes on at the index.
    Append(char, int),
    /// An escaped newline: nothing is gained; scanning goes on at the index.
    Skip(int),
    /// The string is complete and ends at the index.
    Close(int),
    /// An unescaped newline at the index: the string is bad, and the
    /// newline is left in place.
    Bad(int),
}

pub open spec fn string_step(s: Seq<char>, i: int, quote: char) -> StringStep {
    if !(0 <= i < s.len()) {
        StringStep::Close(i)
    } else if is_newline(s[i]) {
        StringStep::Bad(i)
    } else if s[i] == quote {
        StringStep::Close(i + 1)
    } else if s[i] == '\\' {
        if !(i + 1 < s.len()) {
            StringStep::Close(i + 1)
        } else if s[i + 1] == '\n' || s[i + 1] == '\x0C' {
            StringStep::Skip(i + 2)
        } else if s[i + 1] == '\r' {
            StringStep::Skip(
                if at(s, i + 2, '\n') {
                    i + 3
                } else {
                    i + 2
                },
            )
        } else {
            StringStep::Append(escape_char(s, i + 1), escape_end(s, i + 1))
        }
    } else if s[i] == '\0' {
        StringStep::Append(REPLACEMENT_CHAR, i + 1)
    } else {
        StringStep::Append(s[i], i + 1)
    }
}

/// Scans the rest of a quoted string from `i`, with `text` read so far:
/// the complete text, or `None` for a bad string, and the index reached.
pub open spec fn string_rest(s: Seq<char>, i: int, quote: char, text: Seq<char>) -> (Option<
    Seq<char>,
>, int)
    decreases chars_left(s, i),
{
    match string_step(s, i, quote) {
        StringStep::Append(c, next) => string_rest(s, next, quote, text.push(c)),
        StringStep::Skip(next) => string_rest(s, next, quote, text),
        StringStep::Close(end) => (Some(text), end),
        StringStep::Bad(end) => (None, end),
    }
}

/// The quoted string whose opening quote is at `i`.
pub open spec fn quoted_string(s: Seq<char>, i: int) -> (Option<Seq<char>>, int) {
    string_rest(s, i + 1, s[i], seq![])
}

// -------------------------------------------------------------------- URLs

/// End of the recovery from a bad URL, from `i`: just past the next `)`
/// that no backslash precedes, or the end of the input.
pub open spec fn bad_url_end(s: Seq<char>, i: int) -> int
    decreases s.len() - i,
{
    if !(0 <= i < s.len()) {
        i
    } else if s[i] == ')' {
        i + 1
    } else if s[i] == '\\' && i + 1 < s.len() {
        bad_url_end(s, i + 2)
    } else {
        bad_url_end(s, i + 1)
    }
}

/// What may follow a URL's text at `i`: whitespace, then `)` or the end of
/// the input. Anything else makes the URL bad.
pub open spec fn url_close(s: Seq<char>, i: int, text: Seq<char>) -> (TokenView, int) {
    let j = whitespace_end(s, i);
    if !(0 <= j < s.len()) {
        (TokenView::Url(text), j)
    } else if s[j] == ')' {
        (TokenView::Url(text), j + 1)
    } else {
        (TokenView::BadUrl, bad_url_end(s, j + 1))
    }
}

/// What one step inside an unquoted URL does.
pub ghost enum UrlStep {
    /// The URL gains a character; scanning goes on at the index.
    Append(char, int),
    /// The URL is complete and ends at the index.
    Close(int),
    /// Whitespace ended the text; the URL must close from the index.
    Space(int),
    /// The URL is bad; recovery starts at the index.
    Bad(int),
}

pub open spec fn url_step(s: Seq<char>, i: int) -> UrlStep {
    if !(0 <= i < s.len()) {
        UrlStep::Close(i)
    } else if is_whitespace(s[i]) {
        UrlStep::Space(i + 1)
    } else if s[i] == ')' {
        UrlStep::Close(i + 1)
    } else if is_non_printable(s[i]) || s[i] == '"' || s[i] == '\'' || s[i] == '(' {
        UrlStep::Bad(i + 1)
    } else if s[i] == '\\' {
        if newline_at(s, i + 1) {
            UrlStep::Bad(i + 1)
        } else {
            UrlStep::Append(escape_char(s, i + 1), escape_end(s, i + 1))
        }
    } else if s[i] == '\0' {
        UrlStep::Append(REPLACEMENT_CHAR, i + 1)
    } else {
        UrlStep::Append(s[i], i + 1)
    }
}

/// Scans the rest of an unquoted URL from `i`, with `text` read so far.
pub open spec fn unquoted_url(s: Seq<char>, i: int, text: Seq<char>) -> (TokenView, int)
    decreases chars_left(s, i),
{
    match url_step(s, i) {
        UrlStep::Append(c, next) => unquoted_url(s, next, text.push(c)),
        UrlStep::Close(end) => (TokenView::Url(text), end),
        UrlStep::Space(next) => url_close(s, next, text),
        UrlStep::Bad(next) => (TokenView::BadUrl, bad_url_end(s, next)),
    }
}

/// The URL token whose `url(` ends just before `i`.
pub open spec fn url_token(s: Seq<char>, i: int) -> (TokenView, int) {
    let j = whitespace_end(s, i);
    if !(0 <= j < s.len()) {
        (TokenView::Url(seq![]), j)
    } else if s[j] == ')' {
        (TokenView::Url(seq![]), j + 1)
    } else if s[j] == '"' || s[j] == '\'' {
        let (text, end) = quoted_string(s, j);
        match text {
            Some(text) => url_close(s, end, text),
            None => (TokenView::BadUrl, bad_url_end(s, end)),
        }
    } else {
        unquoted_url(s, j, seq![])
    }
}

/// `url`, in any case.
pub open spec fn is_url_name(name: Seq<char>) -> bool {
    &&& name.len() == 3
    &&& (name[0] == 'u' || name[0] == 'U')
    &&& (name[1] == 'r' || name[1] == 'R')
    &&& (name[2] == 'l' || name[2] == 'L')
}

/// The identifier, function or URL token whose name starts at `i`.
pub open spec fn ident_like_token(s: Seq<char>, i: int) -> (TokenView, int) {
    let name = name_text(s, i);
    let end = name_end(s, i);
    if at(s, end, '(') {
        if is_url_name(name) {
            url_token(s, end + 1)
        } else {
            (TokenView::Function(name), end + 1)
        }
    } else {
        (TokenView::Ident(name), end)
    }
}

// ----------------------------------------------------------------- numbers

pub open spec fn sign_at(s: Seq<char>, i: int) -> bool {
    at(s, i, '+') || at(s, i, '-')
}

/// A numeric literal starts at `i`: a digit, or `.` and a digit, either
/// of them after an optional sign.
pub open spec fn number_start(s: Seq<char>, i: int) -> bool {
    ||| digit_at(s, i)
    ||| (at(s, i, '.') && digit_at(s, i + 1))
    ||| (sign_at(s, i) && (digit_at(s, i + 1) || (at(s, i + 1, '.') && digit_at(s, i + 2))))
}

/// Index of the literal's first digit or `.`, past its sign.
pub open spec fn unsigned_start(s: Seq<char>, i: int) -> int {
    if sign_at(s, i) {
        i + 1
    } else {
        i
    }
}

/// End of the literal's integer part.
pub open spec fn integer_end(s: Seq<char>, i: int) -> int {
    digits_end(s, unsigned_start(s, i))
}

/// A fraction starts at `d`: `.` and at least one digit.
pub open spec fn fraction_at(s: Seq<char>, d: int) -> bool {
    at(s, d, '.') && digit_at(s, d + 1)
}

/// An exponent starts at `f`: `e` or `E`, an optional sign, and at least
/// one digit.
pub open spec fn exponent_at(s: Seq<char>, f: int) -> bool {
    (at(s, f, 'e') || at(s, f, 'E')) && (digit_at(s, f + 1) || (sign_at(s, f + 1) && digit_at(
        s,
        f + 2,
    )))
}

/// The literal that starts at `i` has a fraction.
pub open spec fn has_fraction(s: Seq<char>, i: int) -> bool {
    fraction_at(s, integer_end(s, i))
}

/// End of the literal's fraction, if it has one.
pub open spec fn fraction_end(s: Seq<char>, i: int) -> int {
    if has_fraction(s, i) {
        digits_end(s, integer_end(s, i) + 2)
    } else {
        integer_end(s, i)
    }
}

/// The literal that starts at `i` has an exponent.
pub open spec fn has_exponent(s: Seq<char>, i: int) -> bool {
    exponent_at(s, fraction_end(s, i))
}

/// End of the numeric literal that starts at `i`.
pub open spec fn number_end(s: Seq<char>, i: int) -> int {
    if has_exponent(s, i) {
        digits_end(s, fraction_end(s, i) + 2)
    } else {
        fraction_end(s, i)
    }
}

/// The value of the literal's sign and integer part.
pub open spec fn integer_value(s: Seq<char>, i: int) -> int {
    let magnitude = decimal_value(s.subrange(unsigned_start(s, i), integer_end(s, i)));
    if at(s, i, '-') {
        -magnitude
    } else {
        magnitude
    }
}

/// The numeric literal that starts at `i`.
pub open spec fn number_value(s: Seq<char>, i: int) -> NumericView {
    NumericView {
        repr: s.subrange(
            if at(s, i, '+') {
                i + 1
            } else {
                i
            },
            number_end(s, i),
        ),
        int_value: if has_fraction(s, i) || has_exponent(s, i) {
            None
        } else {
            Some(clamp_i64(integer_value(s, i)))
        },
        signed: sign_at(s, i),
    }
}

/// The number, percentage or dimension token that starts at `i`.
pub open spec fn numeric_token(s: Seq<char>, i: int) -> (TokenView, int) {
    let end = number_end(s, i);
    let value = number_value(s, i);
    if at(s, end, '%') {
        (TokenView::Percentage(value), end + 1)
    } else if ident_start(s, end) {
        (TokenView::Dimension(value, name_text(s, end)), name_end(s, end))
    } else {
        (TokenView::Number(value), end)
    }
}

// ---------------------------------------------------------- unicode ranges

/// A Unicode range starts at `i`: `u` or `U`, then `+`, then a hex digit
/// or `?`.
pub open spec fn unicode_range_start(s: Seq<char>, i: int) -> bool {
    (at(s, i, 'u') || at(s, i, 'U')) && at(s, i + 1, '+') && i + 2 < s.len() && (is_hex_digit(
        s[i + 2],
    ) || s[i + 2] == '?')
}

/// The Unicode range token that starts at `i`. With `k` wildcards after
/// the hex prefix `first`, the range is that of all numbers which `first`
/// and `k` more hex digits can denote. Without wildcards it starts at
/// `first` and ends at the number after `-`, or at `first` if there is none.
pub open spec fn unicode_range_token(s: Seq<char>, i: int) -> (TokenView, int) {
    let digits = hex_len(s, i + 2, 6);
    let prefix_end = i + 2 + digits;
    let first = hex_value(s.subrange(i + 2, prefix_end));
    let k = wildcard_len(s, prefix_end, (6 - digits) as nat);
    if k > 0 {
        (
            TokenView::UnicodeRange(
                (first * pow16(k)) as u32,
                ((first + 1) * pow16(k) - 1) as u32,
            ),
            prefix_end + k,
        )
    } else if at(s, prefix_end, '-') {
        let last_digits = hex_len(s, prefix_end + 1, 6);
        let end = prefix_end + 1 + last_digits;
        (
            TokenView::UnicodeRange(
                first as u32,
                if last_digits > 0 {
                    hex_value(s.subrange(prefix_end + 1, end)) as u32
                } else {
                    first as u32
                },
            ),
            end,
        )
    } else {
        (TokenView::UnicodeRange(first as u32, first as u32), prefix_end)
    }
}

// ---------------------------------------------------------------- dispatch

/// The body of a hash may start at `i`: a name character, a valid escape
/// or a character outside ASCII.
pub open spec fn hash_body_start(s: Seq<char>, i: int) -> bool {
    0 <= i < s.len() && (is_name_char(s[i]) || valid_escape(s, i) || is_non_ascii(s[i]))
}

/// The token that `c` and a following `=` make, if any.
pub open spec fn match_token(c: char) -> Option<TokenView> {
    if c == '~' {
        Some(TokenView::IncludeMatch)
    } else if c == '|' {
        Some(TokenView::DashMatch)
    } else if c == '^' {
        Some(TokenView::PrefixMatch)
    } else if c == '$' {
        Some(TokenView::SuffixMatch)
    } else if c == '*' {
        Some(TokenView::SubstringMatch)
    } else {
        None
    }
}

/// The token that `c` makes alone.
pub open spec fn single_char_token(c: char) -> TokenView {
    if c == '(' {
        TokenView::ParenthesisBlock
    } else if c == ')' {
        TokenView::CloseParenthesis
    } else if c == '[' {
        TokenView::SquareBracketBlock
    } else if c == ']' {
        TokenView::CloseSquareBracket
    } else if c == '{' {
        TokenView::CurlyBracketBlock
    } else if c == '}' {
        TokenView::CloseCurlyBracket
    } else if c == ':' {
        TokenView::Colon
    } else if c == ';' {
        TokenView::Semicolon
    } else if c == ',' {
        TokenView::Comma
    } else {
        TokenView::Delim(c)
    }
}

/// The token after `#` at `i`.
pub open spec fn hash_token(s: Seq<char>, i: int) -> (TokenView, int) {
    if ident_start(s, i + 1) {
        (TokenView::IDHash(name_text(s, i + 1)), name_end(s, i + 1))
    } else if hash_body_start(s, i + 1) {
        (TokenView::Hash(name_text(s, i + 1)), name_end(s, i + 1))
    } else {
        (TokenView::Delim('#'), i + 1)
    }
}

/// The token that starts at `i`, where no comment starts, and its end.
pub open spec fn token_at(s: Seq<char>, i: int) -> (TokenView, int)
    recommends
        0 <= i < s.len(),
{
    let c = s[i];
    if is_whitespace(c) {
        (TokenView::WhiteSpace, whitespace_end(s, i))
    } else if c == '"' || c == '\'' {
        let (text, end) = quoted_string(s, i);
        match text {
            Some(text) => (TokenView::QuotedString(text), end),
            None => (TokenView::BadString, end),
        }
    } else if number_start(s, i) {
        numeric_token(s, i)
    } else if unicode_range_start(s, i) {
        unicode_range_token(s, i)
    } else if c == '-' && at(s, i + 1, '-') && at(s, i + 2, '>') {
        (TokenView::CDC, i + 3)
    } else if c == '<' && at(s, i + 1, '!') && at(s, i + 2, '-') && at(s, i + 3, '-') {
        (TokenView::CDO, i + 4)
    } else if c == '#' {
        hash_token(s, i)
    } else if c == '@' && ident_start(s, i + 1) {
        (TokenView::AtKeyword(name_text(s, i + 1)), name_end(s, i + 1))
    } else if match_token(c) is Some && at(s, i + 1, '=') {
        (match_token(c)->0, i + 2)
    } else if c == '|' && at(s, i + 1, '|') {
        (TokenView::Column, i + 2)
    } else if ident_start(s, i) {
        ident_like_token(s, i)
    } else {
        (single_char_token(c), i + 1)
    }
}

/// The next token from `i` on and the index just past it, after any
/// comments; `None` where only comments, or nothing, are left.
pub open spec fn next_token(s: Seq<char>, i: int) -> Option<(TokenView, int)> {
    let start = skip_comments(s, i);
    if 0 <= start < s.len() {
        Some(token_at(s, start))
    } else {
        None
    }
}

} // verus!
