//! Scanning Unicode ranges.
use vstd::prelude::*;
use crate::grammar::{at, pow16, unicode_range_start, unicode_range_token, wildcard_len};
use crate::bounds::lemma_pow16;
use crate::names::consume_hex;
use crate::token::Token;
use crate::tokenizer::Tokenizer;

verus! {

/// Reads the Unicode range at the cursor.
pub(crate) fn consume_unicode_range(tokenizer: &mut Tokenizer) -> (token: Token)
    requires
        old(tokenizer).wf(),
        unicode_range_start(old(tokenizer).source(), old(tokenizer).offset()),
    ensures
        token@ == unicode_range_token(old(tokenizer).source(), old(tokenizer).offset()).0,
        final(tokenizer).moved(
            old(tokenizer),
            unicode_range_token(old(tokenizer).source(), old(tokenizer).offset()).1,
        ),
{
    let ghost s = tokenizer.source();
    let ghost origin = tokenizer.offset();
    tokenizer.advance(2);  // Skip U+
    let (first, digits) = consume_hex(tokenizer, 6);
    let ghost prefix_end = origin + 2 + digits;
    let max_question_marks: usize = 6 - digits;
    let mut question_marks: usize = 0;
    let mut start: u32 = first;
    let mut end: u32 = first;
    proof {
        lemma_pow16();
    }
    loop
        invariant
            tokenizer.wf(),
            tokenizer.source() == s,
            tokenizer.pending() == old(tokenizer).pending(),
            tokenizer.offset() == prefix_end + question_marks,
            digits <= 6,
            max_question_marks == 6 - digits,
            question_marks <= max_question_marks,
            wildcard_len(s, prefix_end, max_question_marks as nat) == question_marks
                + wildcard_len(
                s,
                prefix_end + question_marks,
                (max_question_marks - question_marks) as nat,
            ),
            start == first * pow16(question_marks as nat),
            end == (first + 1) * pow16(question_marks as nat) - 1,
            start <= end < pow16((digits + question_marks) as nat),
        ensures
            question_marks == wildcard_len(s, prefix_end, max_question_marks as nat),
        decreases max_question_marks - question_marks,
    {
        if question_marks >= max_question_marks || tokenizer.is_eof() {
            break ;
        }
        if tokenizer.current_char() != '?' {
            break ;
        }
        proof {
            lemma_pow16();
            let p = pow16(question_marks as nat);
            assert(pow16((question_marks + 1) as nat) == 16 * p);
            assert(pow16((digits + question_marks + 1) as nat) == 16 * pow16(
                (digits + question_marks) as nat,
            ));
            assert(first * (16 * p) == (first * p) * 16) by (nonlinear_arith);
            assert((first + 1) * (16 * p) - 1 == ((first + 1) * p - 1) * 16 + 15)
                by (nonlinear_arith);
        }
        start = start * 16;
        end = end * 16 + 15;
        tokenizer.advance(1);
        question_marks = question_marks + 1;
    }
    if question_marks == 0 {
        if !tokenizer.is_eof() && tokenizer.current_char() == '-' {
            tokenizer.advance(1);
            let (last, last_digits) = consume_hex(tokenizer, 6);
            if last_digits > 0 {
                end = last;
            }
        }
    }
    Token::UnicodeRange(start, end)
}

} // verus!
