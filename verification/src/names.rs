//! Scanning names and escapes.
use vstd::prelude::*;
use crate::classes::{hex_digit, hex_digit_number, name_char, name_start_char, non_ascii};
use crate::grammar::{
    REPLACEMENT_CHAR, ascii_at, at, escape_char, escape_end, hex_len, hex_value, ident_start,
    name_end, name_step, name_text, pow16,
};
use crate::bounds::lemma_pow16;
use crate::tokenizer::Tokenizer;

verus! {

/// Reads up to `max` hex digits and gives their value and their number.
pub(crate) fn consume_hex(tokenizer: &mut Tokenizer, max: usize) -> (r: (u32, usize))
    requires
        old(tokenizer).wf(),
        max <= 6,
    ensures
        r.1 == hex_len(old(tokenizer).source(), old(tokenizer).offset(), max as nat),
        r.1 <= max,
        r.0 == hex_value(
            old(tokenizer).source().subrange(
                old(tokenizer).offset(),
                old(tokenizer).offset() + r.1,
            ),
        ),
        r.0 < pow16(r.1 as nat),
        final(tokenizer).moved(old(tokenizer), old(tokenizer).offset() + r.1),
{
    let ghost s = tokenizer.source();
    let ghost start = tokenizer.offset();
    let mut value: u32 = 0;
    let mut count: usize = 0;
    proof {
        lemma_pow16();
        tokenizer.lemma_offset();
        assert(s.subrange(start, start) =~= Seq::<char>::empty());
    }
    loop
        invariant
            max <= 6,
            count <= max,
            tokenizer.moved(old(tokenizer), start + count),
            s == old(tokenizer).source(),
            start == old(tokenizer).offset(),
            0 <= start,
            start + count <= s.len(),
            hex_len(s, start, max as nat) == count + hex_len(
                s,
                start + count,
                (max - count) as nat,
            ),
            value == hex_value(s.subrange(start, start + count)),
            value < pow16(count as nat),
        ensures
            count == hex_len(s, start, max as nat),
        decreases max - count,
    {
        if count >= max || tokenizer.is_eof() {
            break ;
        }
        let c = tokenizer.current_char();
        if !hex_digit(c) {
            break ;
        }
        proof {
            lemma_pow16();
            let next = s.subrange(start, start + count + 1);
            assert(next.drop_last() =~= s.subrange(start, start + count));
            assert(next.last() == c);
            assert(ascii_at(s, start + count));
        }
        value = value * 16 + hex_digit_number(c);
        tokenizer.advance(1);
        count = count + 1;
    }
    (value, count)
}

/// Reads an escape, where the backslash has been read and no newline
/// follows, and gives the character it stands for.
pub(crate) fn consume_escape(tokenizer: &mut Tokenizer) -> (c: char)
    requires
        old(tokenizer).wf(),
    ensures
        c == escape_char(old(tokenizer).source(), old(tokenizer).offset()),
        final(tokenizer).moved(
            old(tokenizer),
            escape_end(old(tokenizer).source(), old(tokenizer).offset()),
        ),
{
    if tokenizer.is_eof() {
        return REPLACEMENT_CHAR;
    }
    let c = tokenizer.current_char();
    if !hex_digit(c) {
        return tokenizer.consume_char();
    }
    let (value, _) = consume_hex(tokenizer, 6);
    if !tokenizer.is_eof() {
        let c = tokenizer.current_char();
        if c == ' ' || c == '\t' || c == '\n' || c == '\x0C' {
            tokenizer.advance(1);
        } else if c == '\r' {
            tokenizer.advance(1);
            if !tokenizer.is_eof() && tokenizer.current_char() == '\n' {
                tokenizer.advance(1);
            }
        }
    }
    proof {
        lemma_pow16();
    }
    if value != 0 {
        char::from_u32(value).unwrap_or(REPLACEMENT_CHAR)
    } else {
        REPLACEMENT_CHAR
    }
}

/// Whether an identifier may start at the cursor.
pub(crate) fn is_ident_start(tokenizer: &Tokenizer) -> (r: bool)
    requires
        tokenizer.wf(),
    ensures
        r == ident_start(tokenizer.source(), tokenizer.offset()),
{
    if tokenizer.is_eof() {
        return false;
    }
    let c = tokenizer.current_char();
    if name_start_char(c) {
        true
    } else if c == '\\' {
        !tokenizer.has_newline_at(1)
    } else if c == '-' {
        if !tokenizer.has_at_least(1) {
            return false;
        }
        let d = tokenizer.char_at(1);
        if name_start_char(d) || d == '-' {
            true
        } else if d == '\\' {
            !tokenizer.has_newline_at(2)
        } else {
            false
        }
    } else {
        false
    }
}

/// Reads a name and gives its decoded text.
pub(crate) fn consume_name(tokenizer: &mut Tokenizer) -> (name: String)
    requires
        old(tokenizer).wf(),
    ensures
        name@ == name_text(old(tokenizer).source(), old(tokenizer).offset()),
        final(tokenizer).moved(
            old(tokenizer),
            name_end(old(tokenizer).source(), old(tokenizer).offset()),
        ),
{
    let ghost s = tokenizer.source();
    let ghost start = tokenizer.offset();
    let mut value = String::new();
    loop
        invariant
            tokenizer.wf(),
            tokenizer.source() == s,
            tokenizer.pending() == old(tokenizer).pending(),
            s == old(tokenizer).source(),
            start == old(tokenizer).offset(),
            value@ + name_text(s, tokenizer.offset()) == name_text(s, start),
            name_end(s, tokenizer.offset()) == name_end(s, start),
        ensures
            name_step(s, tokenizer.offset()) is None,
        decreases s.len() - tokenizer.offset(),
    {
        if tokenizer.is_eof() {
            break ;
        }
        let ghost here = tokenizer.offset();
        let ghost text = value@;
        let c = tokenizer.current_char();
        let next_char = if name_char(c) {
            tokenizer.advance(1);
            c
        } else if c == '\\' {
            if tokenizer.has_newline_at(1) {
                break ;
            }
            tokenizer.advance(1);
            consume_escape(tokenizer)
        } else if c == '\0' {
            tokenizer.advance(1);
            REPLACEMENT_CHAR
        } else if non_ascii(c) {
            tokenizer.consume_char()
        } else {
            break ;
        };
        value.push(next_char);
        proof {
            tokenizer.lemma_offset();
            assert(name_step(s, here) == Some((next_char, tokenizer.offset())));
            assert(text.push(next_char) + name_text(s, tokenizer.offset()) =~= text + name_text(
                s,
                here,
            ));
        }
    }
    value
}

} // verus!
