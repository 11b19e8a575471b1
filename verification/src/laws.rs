//! What holds of the tokenizer on every input.
use vstd::prelude::*;
use crate::bounds::{
    lemma_digits_end, lemma_hex_len, lemma_hex_value, lemma_ident_like_token, lemma_next_token,
    lemma_number_end, lemma_numeric_token, lemma_pow16, lemma_skip_comments,
    lemma_unicode_range_token, lemma_whitespace_end, lemma_wildcard_len,
};
use crate::cursor::Cursor;
use crate::grammar::{
    at, chars_left, fraction_end, has_exponent, has_fraction, hash_body_start, hash_token,
    hex_len, hex_value, ident_start, integer_end, is_whitespace, next_token, number_start,
    number_value, pow16, skip_comments, token_at, unicode_range_start, unicode_range_token,
    unsigned_start, whitespace_end, wildcard_len,
};
use crate::token::TokenView;

verus! {

/// Progress: a call of `next` that reads from the input either returns a
/// token and leaves the cursor further on, or returns nothing and leaves
/// the cursor at the end of the text.
pub proof fn lemma_progress(c: Cursor)
    requires
        0 <= c.offset <= c.source.len(),
        c.pending is None,
    ensures
        c.next().1 is Some ==> c.offset < c.next().0.offset <= c.source.len(),
        c.next().1 is None ==> c.next().0.offset == c.source.len(),
{
    lemma_next_token(c.source, c.offset);
}

/// The text that successive calls of `next` pass over from `i` on, piece
/// by piece: for each token the comments before it and then its own span,
/// and after the last token the comments that are left.
pub open spec fn passed_over(s: Seq<char>, i: int) -> Seq<char>
    decreases chars_left(s, i),
{
    let start = skip_comments(s, i);
    match next_token(s, i) {
        Some((_, end)) => if i < end <= s.len() {
            s.subrange(i, start) + s.subrange(start, end) + passed_over(s, end)
        } else {
            seq![]
        },
        None => s.subrange(i, start),
    }
}

/// Total coverage: the comments and token spans that successive calls of
/// `next` pass over from `i` on make up the text from `i` to its end, with
/// no gap and no overlap.
pub proof fn lemma_total_coverage(s: Seq<char>, i: int)
    requires
        0 <= i <= s.len(),
    ensures
        passed_over(s, i) == s.subrange(i, s.len() as int),
        i == 0 ==> passed_over(s, i) == s,
    decreases s.len() - i,
{
    lemma_next_token(s, i);
    match next_token(s, i) {
        Some((_, end)) => {
            lemma_total_coverage(s, end);
            let start = skip_comments(s, i);
            assert(s.subrange(i, start) + s.subrange(start, end) + s.subrange(
                end,
                s.len() as int,
            ) =~= s.subrange(i, s.len() as int));
        },
        None => {},
    }
    assert(s.subrange(0, s.len() as int) =~= s);
}

/// The Unicode range at `i` is written with a last code point, after `-`,
/// that is lower than its first.
pub open spec fn descending_range(s: Seq<char>, i: int) -> bool {
    let digits = hex_len(s, i + 2, 6);
    let prefix_end = i + 2 + digits;
    let last_digits = hex_len(s, prefix_end + 1, 6);
    &&& wildcard_len(s, prefix_end, (6 - digits) as nat) == 0
    &&& at(s, prefix_end, '-')
    &&& last_digits > 0
    &&& hex_value(s.subrange(prefix_end + 1, prefix_end + 1 + last_digits)) < hex_value(
        s.subrange(i + 2, prefix_end),
    )
}

proof fn lemma_pow16_sum(a: nat, b: nat)
    ensures
        pow16(a + b) == pow16(a) * pow16(b),
        pow16(b) >= 1,
    decreases b,
{
    if b > 0 {
        lemma_pow16_sum(a, (b - 1) as nat);
        assert(pow16(a + b) == 16 * pow16((a + b - 1) as nat));
        assert(16 * (pow16(a) * pow16((b - 1) as nat)) == pow16(a) * (16 * pow16((b - 1) as nat)))
            by (nonlinear_arith);
    }
}

/// Unicode-range ordering: a Unicode range starts no higher than it
/// ends, unless it is written with a last code point below its first. Both
/// ends are below 16 to the 6th.
pub proof fn lemma_unicode_range_ordered(s: Seq<char>, i: int)
    requires
        0 <= i <= s.len(),
        unicode_range_start(s, i),
    ensures
        unicode_range_token(s, i).0 matches TokenView::UnicodeRange(first, last) && (first <= last
            <==> !descending_range(s, i)) && first < 0x100_0000 && last < 0x100_0000,
{
    let digits = hex_len(s, i + 2, 6);
    let prefix_end = i + 2 + digits;
    let first = hex_value(s.subrange(i + 2, prefix_end));
    let k = wildcard_len(s, prefix_end, (6 - digits) as nat);
    lemma_pow16();
    lemma_hex_len(s, i + 2, 6);
    lemma_hex_value(s.subrange(i + 2, prefix_end));
    lemma_wildcard_len(s, prefix_end, (6 - digits) as nat);
    assert(pow16(digits) <= 0x100_0000);
    if k > 0 {
        lemma_pow16_sum(digits, k);
        assert(pow16(digits + k) <= 0x100_0000);
        assert(0 <= first * pow16(k) <= (first + 1) * pow16(k) - 1 < pow16(digits) * pow16(k))
            by (nonlinear_arith)
            requires
                0 <= first < pow16(digits),
                pow16(k) >= 1,
        ;
    } else if at(s, prefix_end, '-') {
        let last_digits = hex_len(s, prefix_end + 1, 6);
        lemma_hex_len(s, prefix_end + 1, 6);
        lemma_hex_value(s.subrange(prefix_end + 1, prefix_end + 1 + last_digits));
        assert(pow16(last_digits) <= 0x100_0000);
    }
}

/// Integer exclusivity: a numeric literal has an integer value exactly
/// when it has neither a fraction nor an exponent, which is when its text
/// holds none of `.`, `e` and `E`.
pub proof fn lemma_integer_exclusivity(s: Seq<char>, i: int)
    requires
        0 <= i <= s.len(),
        number_start(s, i),
    ensures
        number_value(s, i).int_value is Some <==> !has_fraction(s, i) && !has_exponent(s, i),
        number_value(s, i).int_value is Some <==> !number_value(s, i).repr.contains('.')
            && !number_value(s, i).repr.contains('e') && !number_value(s, i).repr.contains('E'),
{
    let repr = number_value(s, i).repr;
    let from = if at(s, i, '+') {
        i + 1
    } else {
        i
    };
    lemma_number_end(s, i);
    lemma_digits_end(s, unsigned_start(s, i));
    if has_fraction(s, i) {
        lemma_digits_end(s, integer_end(s, i) + 2);
        assert(repr[integer_end(s, i) - from] == '.');
    } else if has_exponent(s, i) {
        lemma_digits_end(s, fraction_end(s, i) + 2);
        let e = repr[fraction_end(s, i) - from];
        assert(e == 'e' || e == 'E');
    } else {
        assert forall|j: int| 0 <= j < repr.len() implies repr[j] != '.' && repr[j] != 'e'
            && repr[j] != 'E' by {
            assert(repr[j] == s[from + j]);
        }
    }
}

/// Hash classification: after `#`, the token is an ID hash exactly when
/// an identifier could start there; otherwise it is a plain hash where a
/// name can go on, and the delimiter `#` where none can.
pub proof fn lemma_hash_classification(s: Seq<char>, i: int)
    requires
        at(s, i, '#'),
    ensures
        token_at(s, i) == hash_token(s, i),
        token_at(s, i).0 is IDHash <==> ident_start(s, i + 1),
        token_at(s, i).0 is Hash <==> !ident_start(s, i + 1) && hash_body_start(s, i + 1),
        token_at(s, i).0 == TokenView::Delim('#') <==> !ident_start(s, i + 1) && !hash_body_start(
            s,
            i + 1,
        ),
{
}

/// Pushback idempotence, first half: `peek` returns what `next` would
/// have returned, and `next` after `peek` returns it again and leaves the
/// state that `next` alone would have left.
pub proof fn lemma_peek_then_next(c: Cursor)
    ensures
        c.peek().1 == c.next().1,
        c.peek().1 is Some ==> c.peek().0.next() == c.next(),
        c.peek().0.peek() == c.peek(),
{
}

/// Pushback idempotence, second half: after `push_back(token)`, `next`
/// returns `token` and leaves the state as it was before.
pub proof fn lemma_push_back_then_next(c: Cursor, token: TokenView)
    requires
        c.pending is None,
    ensures
        c.push_back(token).next() == (c, Some(token)),
{
}

/// Whitespace collapse: the token after a whitespace token is no
/// whitespace token, unless a comment stands between the two runs.
pub proof fn lemma_whitespace_collapse(s: Seq<char>, i: int)
    requires
        0 <= i <= s.len(),
        next_token(s, i) matches Some((token, end)) && token == TokenView::WhiteSpace && !(at(
            s,
            end,
            '/',
        ) && at(s, end + 1, '*')),
    ensures
        next_token(s, i) matches Some((_, end)) && !(next_token(s, end) matches Some((after, _))
            && after == TokenView::WhiteSpace),
{
    lemma_skip_comments(s, i);
    let start = skip_comments(s, i);
    lemma_whitespace_token(s, start);
    lemma_whitespace_end(s, start);
    let end = whitespace_end(s, start);
    if end < s.len() {
        lemma_whitespace_token(s, end);
    }
}

/// Only a whitespace character starts a whitespace token.
pub proof fn lemma_whitespace_token(s: Seq<char>, i: int)
    requires
        0 <= i < s.len(),
    ensures
        token_at(s, i).0 == TokenView::WhiteSpace <==> is_whitespace(s[i]),
        is_whitespace(s[i]) ==> token_at(s, i).1 == whitespace_end(s, i),
{
    if number_start(s, i) {
        lemma_numeric_token(s, i);
    } else if unicode_range_start(s, i) {
        lemma_unicode_range_token(s, i);
    } else if ident_start(s, i) {
        lemma_ident_like_token(s, i);
    }
}

} // verus!
