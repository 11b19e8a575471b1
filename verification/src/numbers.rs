//! Scanning numeric literals.
use vstd::prelude::*;
use crate::classes::digit;
use crate::grammar::{
    at, clamp_i64, decimal_value, digits_end, exponent_at, fraction_at, fraction_end,
    has_exponent, has_fraction, integer_end, number_end, number_start, number_value,
    numeric_token, unsigned_start,
};
use crate::names::{consume_name, is_ident_start};
use crate::token::{NumericValue, Token};
use crate::tokenizer::Tokenizer;

verus! {

/// 2^63, the magnitude of the least `i64`. Magnitudes are counted up to
/// here and no further.
pub const MAGNITUDE_CAP: u64 = 0x8000_0000_0000_0000;

/// `v`, or 2^63 if `v` is larger.
pub open spec fn capped(v: int) -> int {
    if v < MAGNITUDE_CAP {
        v
    } else {
        MAGNITUDE_CAP as int
    }
}

/// The `i64` nearest to the number with the given sign and magnitude,
/// where the magnitude was capped at 2^63.
pub fn saturate(negative: bool, magnitude: u64) -> (r: i64)
    requires
        magnitude <= MAGNITUDE_CAP,
    ensures
        forall|v: int|
            capped(v) == magnitude ==> r == clamp_i64(
                if negative {
                    -v
                } else {
                    v
                },
            ),
{
    if negative {
        if magnitude >= MAGNITUDE_CAP {
            i64::MIN
        } else {
            -(magnitude as i64)
        }
    } else {
        if magnitude >= MAGNITUDE_CAP {
            i64::MAX
        } else {
            magnitude as i64
        }
    }
}

/// Reads the run of digits at the cursor and appends it to `repr`. Gives
/// the number that the digits denote, capped at 2^63.
pub(crate) fn consume_digits(tokenizer: &mut Tokenizer, repr: &mut String) -> (magnitude: u64)
    requires
        old(tokenizer).wf(),
    ensures
        final(tokenizer).moved(
            old(tokenizer),
            digits_end(old(tokenizer).source(), old(tokenizer).offset()),
        ),
        old(tokenizer).offset() <= final(tokenizer).offset(),
        final(repr)@ == old(repr)@ + old(tokenizer).source().subrange(
            old(tokenizer).offset(),
            final(tokenizer).offset(),
        ),
        magnitude == capped(
            decimal_value(
                old(tokenizer).source().subrange(
                    old(tokenizer).offset(),
                    final(tokenizer).offset(),
                ),
            ),
        ),
{
    let ghost s = tokenizer.source();
    let ghost start = tokenizer.offset();
    let ghost prefix = repr@;
    let mut magnitude: u64 = 0;
    proof {
        tokenizer.lemma_offset();
        assert(s.subrange(start, start) =~= Seq::<char>::empty());
        assert(prefix + s.subrange(start, start) =~= prefix);
    }
    loop
        invariant
            tokenizer.wf(),
            tokenizer.source() == s,
            tokenizer.pending() == old(tokenizer).pending(),
            s == old(tokenizer).source(),
            start == old(tokenizer).offset(),
            prefix == old(repr)@,
            0 <= start <= tokenizer.offset() <= s.len(),
            digits_end(s, tokenizer.offset()) == digits_end(s, start),
            repr@ == prefix + s.subrange(start, tokenizer.offset()),
            decimal_value(s.subrange(start, tokenizer.offset())) >= 0,
            magnitude == capped(decimal_value(s.subrange(start, tokenizer.offset()))),
        ensures
            digits_end(s, tokenizer.offset()) == tokenizer.offset(),
        decreases s.len() - tokenizer.offset(),
    {
        if tokenizer.is_eof() {
            break ;
        }
        let c = tokenizer.current_char();
        if !digit(c) {
            break ;
        }
        let ghost here = tokenizer.offset();
        proof {
            let next = s.subrange(start, here + 1);
            assert(next.drop_last() =~= s.subrange(start, here));
            assert(next.last() == c);
            assert(prefix + next =~= (prefix + s.subrange(start, here)).push(c));
        }
        let d: u64 = c as u64 - '0' as u64;
        magnitude = if magnitude >= 922_337_203_685_477_581 {
            MAGNITUDE_CAP
        } else {
            let m: u64 = magnitude * 10 + d;
            if m > MAGNITUDE_CAP {
                MAGNITUDE_CAP
            } else {
                m
            }
        };
        repr.push(c);
        tokenizer.advance(1);
    }
    magnitude
}

/// Reads the fraction at the cursor, if there is one, and appends it to
/// `repr`. Says whether there was one.
fn consume_fraction(tokenizer: &mut Tokenizer, repr: &mut String) -> (found: bool)
    requires
        old(tokenizer).wf(),
    ensures
        found == fraction_at(old(tokenizer).source(), old(tokenizer).offset()),
        final(tokenizer).moved(
            old(tokenizer),
            if found {
                digits_end(old(tokenizer).source(), old(tokenizer).offset() + 2)
            } else {
                old(tokenizer).offset()
            },
        ),
        old(tokenizer).offset() <= final(tokenizer).offset() <= old(tokenizer).source().len(),
        final(repr)@ =~= old(repr)@ + old(tokenizer).source().subrange(
            old(tokenizer).offset(),
            final(tokenizer).offset(),
        ),
{
    let ghost s = tokenizer.source();
    let ghost here = tokenizer.offset();
    proof {
        tokenizer.lemma_offset();
    }
    if !tokenizer.is_eof() && tokenizer.current_char() == '.' && tokenizer.has_at_least(1)
        && digit(tokenizer.char_at(1)) {
        tokenizer.advance(1);
        repr.push('.');
        consume_digits(tokenizer, repr);
        proof {
            tokenizer.lemma_offset();
        }
        true
    } else {
        assert(s.subrange(here, here) =~= Seq::<char>::empty());
        false
    }
}

/// Reads the exponent at the cursor, if there is one, and appends it to
/// `repr`. Says whether there was one.
fn consume_exponent(tokenizer: &mut Tokenizer, repr: &mut String) -> (found: bool)
    requires
        old(tokenizer).wf(),
    ensures
        found == exponent_at(old(tokenizer).source(), old(tokenizer).offset()),
        final(tokenizer).moved(
            old(tokenizer),
            if found {
                digits_end(old(tokenizer).source(), old(tokenizer).offset() + 2)
            } else {
                old(tokenizer).offset()
            },
        ),
        old(tokenizer).offset() <= final(tokenizer).offset() <= old(tokenizer).source().len(),
        final(repr)@ =~= old(repr)@ + old(tokenizer).source().subrange(
            old(tokenizer).offset(),
            final(tokenizer).offset(),
        ),
{
    let ghost s = tokenizer.source();
    let ghost here = tokenizer.offset();
    let ghost prefix = repr@;
    proof {
        tokenizer.lemma_offset();
        assert(s.subrange(here, here) =~= Seq::<char>::empty());
    }
    if tokenizer.is_eof() {
        return false;
    }
    let e = tokenizer.current_char();
    if !(e == 'e' || e == 'E') || !tokenizer.has_at_least(1) {
        return false;
    }
    let next = tokenizer.char_at(1);
    if digit(next) {
        tokenizer.advance(1);
        repr.push(e);
        consume_digits(tokenizer, repr);
        proof {
            tokenizer.lemma_offset();
        }
        true
    } else if (next == '+' || next == '-') && tokenizer.has_at_least(2) && digit(
        tokenizer.char_at(2),
    ) {
        tokenizer.advance(2);
        repr.push(e);
        repr.push(next);
        consume_digits(tokenizer, repr);
        proof {
            tokenizer.lemma_offset();
            assert(prefix.push(e).push(next) =~= prefix + s.subrange(here, here + 2));
        }
        true
    } else {
        false
    }
}

/// Reads the numeric literal at the cursor.
fn consume_number(tokenizer: &mut Tokenizer) -> (value: NumericValue)
    requires
        old(tokenizer).wf(),
        number_start(old(tokenizer).source(), old(tokenizer).offset()),
    ensures
        value@ == number_value(old(tokenizer).source(), old(tokenizer).offset()),
        final(tokenizer).moved(
            old(tokenizer),
            number_end(old(tokenizer).source(), old(tokenizer).offset()),
        ),
{
    let ghost s = tokenizer.source();
    let ghost start = tokenizer.offset();
    let ghost repr_start = if at(s, start, '+') {
        start + 1
    } else {
        start
    };
    proof {
        tokenizer.lemma_offset();
    }
    let mut repr = String::new();
    let first = tokenizer.current_char();
    let signed = first == '-' || first == '+';
    if signed {
        tokenizer.advance(1);
        if first == '-' {
            repr.push(first);
        }
    }
    assert(repr@ =~= s.subrange(repr_start, unsigned_start(s, start)));
    let magnitude = consume_digits(tokenizer, &mut repr);
    proof {
        tokenizer.lemma_offset();
    }
    assert(repr@ =~= s.subrange(repr_start, integer_end(s, start)));
    let has_fraction = consume_fraction(tokenizer, &mut repr);
    assert(repr@ =~= s.subrange(repr_start, fraction_end(s, start)));
    let has_exponent = consume_exponent(tokenizer, &mut repr);
    assert(repr@ =~= s.subrange(repr_start, number_end(s, start)));
    let int_value = if has_fraction || has_exponent {
        None
    } else {
        Some(saturate(first == '-', magnitude))
    };
    NumericValue { repr, int_value, signed }
}

/// Reads the number, percentage or dimension at the cursor.
pub(crate) fn consume_numeric(tokenizer: &mut Tokenizer) -> (token: Token)
    requires
        old(tokenizer).wf(),
        number_start(old(tokenizer).source(), old(tokenizer).offset()),
    ensures
        token@ == numeric_token(old(tokenizer).source(), old(tokenizer).offset()).0,
        final(tokenizer).moved(
            old(tokenizer),
            numeric_token(old(tokenizer).source(), old(tokenizer).offset()).1,
        ),
{
    let value = consume_number(tokenizer);
    if !tokenizer.is_eof() && tokenizer.current_char() == '%' {
        tokenizer.advance(1);
        Token::Percentage(value)
    } else if is_ident_start(tokenizer) {
        let unit = consume_name(tokenizer);
        Token::Dimension(value, unit)
    } else {
        Token::Number(value)
    }
}

} // verus!
