//! Byte positions in UTF-8 text and the characters they stand for.
//!
//! The tokenizer keeps a byte offset into its input, while its grammar is
//! written over characters. This module relates the two: a byte offset on a
//! character boundary corresponds to an index into the decoded text, and
//! stepping over one encoded character moves that index by one.
use vstd::prelude::*;
use vstd::utf8::*;

verus! {

/// `p` is a place in valid UTF-8 `bytes` where a character starts, or the end.
pub open spec fn on_boundary(bytes: Seq<u8>, p: int) -> bool {
    valid_utf8(bytes) && 0 <= p <= bytes.len() && is_char_boundary(bytes, p)
}

/// The characters encoded from byte `p` to the end.
pub open spec fn chars_from(bytes: Seq<u8>, p: int) -> Seq<char> {
    decode_utf8(bytes.subrange(p, bytes.len() as int))
}

/// The number of characters encoded before byte `p`.
pub open spec fn char_index(bytes: Seq<u8>, p: int) -> int {
    decode_utf8(bytes).len() - chars_from(bytes, p).len()
}

/// A boundary splits the decoded text at `char_index`, and is the end of the
/// bytes exactly when that index is the end of the text.
pub proof fn lemma_char_index(bytes: Seq<u8>, p: int)
    requires
        on_boundary(bytes, p),
    ensures
        0 <= char_index(bytes, p) <= decode_utf8(bytes).len(),
        chars_from(bytes, p) =~= decode_utf8(bytes).skip(char_index(bytes, p)),
        p == bytes.len() <==> char_index(bytes, p) == decode_utf8(bytes).len(),
        p == 0 ==> char_index(bytes, p) == 0,
{
    let rest = bytes.subrange(p, bytes.len() as int);
    decode_utf8_split(bytes, p);
    valid_utf8_split(bytes, p);
    if p < bytes.len() {
        assert(valid_first_scalar(rest));
    }
    if p == 0 {
        assert(rest =~= bytes);
    }
}

proof fn lemma_scalar_ranges(b0: u8, b1: u8, b2: u8)
    ensures
        b0 < 0x80 ==> codepoint_width_1(b0) == b0,
        codepoint_width_2(b0, b1) <= 0x7FF,
        codepoint_width_3(b0, b1, b2) <= 0xFFFF,
{
    assert(b0 < 0x80 ==> (b0 & 0x7F) as u32 == b0 as u32) by (bit_vector);
    assert((((b0 & 0x1F) as u32) << 6) | ((b1 & 0x3F) as u32) <= 0x7FF) by (bit_vector);
    assert((((b0 & 0x0F) as u32) << 12) | (((b1 & 0x3F) as u32) << 6) | ((b2 & 0x3F) as u32)
        <= 0xFFFF) by (bit_vector);
}

/// What stepping over the character at a boundary `p` does: the next
/// boundary is `p` plus the character's encoded width, the index into the
/// text grows by one, and the character is the one decoded at `p`. A byte
/// below 0x80 is its own character; any other leading byte starts a
/// character above U+007F.
pub proof fn lemma_step(bytes: Seq<u8>, p: int)
    requires
        on_boundary(bytes, p),
        p < bytes.len(),
    ensures
        ({
            let rest = bytes.subrange(p, bytes.len() as int);
            let w = length_of_first_scalar(rest);
            let i = char_index(bytes, p);
            let text = decode_utf8(bytes);
            &&& valid_first_scalar(rest)
            &&& is_scalar(decode_first_scalar(rest))
            &&& 1 <= w <= 4
            &&& p + w <= bytes.len()
            &&& on_boundary(bytes, p + w)
            &&& char_index(bytes, p + w) == i + 1
            &&& 0 <= i < text.len()
            &&& text[i] == decode_first_scalar(rest) as char
            &&& text[i] as u32 == decode_first_scalar(rest)
            &&& bytes[p] < 0x80 ==> w == 1 && text[i] as u32 == bytes[p] as u32
            &&& bytes[p] >= 0x80 ==> w >= 2 && text[i] as u32 >= 0x80
        }),
{
    let n = bytes.len() as int;
    let rest = bytes.subrange(p, n);
    let w = length_of_first_scalar(rest);
    lemma_char_index(bytes, p);
    valid_utf8_split(bytes, p);
    assert(valid_first_scalar(rest));
    assert(valid_utf8(pop_first_scalar(rest)));
    assert(rest[0] == bytes[p]);
    assert(pop_first_scalar(rest) =~= bytes.subrange(p + w, n));
    assert(chars_from(bytes, p) == seq![decode_first_scalar(rest) as char] + chars_from(
        bytes,
        p + w,
    ));
    let text = decode_utf8(bytes);
    let i = char_index(bytes, p);
    assert(chars_from(bytes, p)[0] == decode_first_scalar(rest) as char);
    assert(text.skip(i)[0] == text[i]);
    assert(text[i] == decode_first_scalar(rest) as char);
    if w >= 2 {
        assert(rest[1] == bytes[p + 1]);
    }
    if w >= 3 {
        assert(rest[2] == bytes[p + 2]);
    }
    lemma_scalar_ranges(rest[0], rest[1], rest[2]);
    if p + w < n {
        let tail = bytes.subrange(p + w, n);
        assert(valid_first_scalar(tail));
        assert(tail[0] == bytes[p + w]);
        is_char_boundary_iff_is_leading_byte(bytes, p + w);
    } else {
        is_char_boundary_start_end_of_seq(bytes);
    }
}

/// Decodes the character that starts at byte `p`, and gives its width in
/// bytes.
pub fn decode_char(bytes: &[u8], p: usize) -> (r: (char, usize))
    requires
        on_boundary(bytes@, p as int),
        p < bytes@.len(),
    ensures
        r.0 == decode_utf8(bytes@)[char_index(bytes@, p as int)],
        r.1 == length_of_first_scalar(bytes@.subrange(p as int, bytes@.len() as int)),
        1 <= r.1 <= 4,
        p + r.1 <= bytes@.len(),
        on_boundary(bytes@, p + r.1),
        char_index(bytes@, p + r.1) == char_index(bytes@, p as int) + 1,
{
    proof {
        lemma_step(bytes@, p as int);
    }
    let ghost rest = bytes@.subrange(p as int, bytes@.len() as int);
    let b0: u8 = bytes[p];
    assert(rest[0] == b0);
    if b0 < 0x80 {
        (b0 as char, 1)
    } else if b0 < 0xE0 {
        let b1: u8 = bytes[p + 1];
        assert(rest[1] == b1);
        let scalar: u32 = (((b0 & 0x1F) as u32) << 6) | ((b1 & 0x3F) as u32);
        (char::from_u32(scalar).unwrap(), 2)
    } else if b0 < 0xF0 {
        let b1: u8 = bytes[p + 1];
        let b2: u8 = bytes[p + 2];
        assert(rest[1] == b1 && rest[2] == b2);
        let scalar: u32 = (((b0 & 0x0F) as u32) << 12) | (((b1 & 0x3F) as u32) << 6) | ((b2
            & 0x3F) as u32);
        (char::from_u32(scalar).unwrap(), 3)
    } else {
        let b1: u8 = bytes[p + 1];
        let b2: u8 = bytes[p + 2];
        let b3: u8 = bytes[p + 3];
        assert(rest[1] == b1 && rest[2] == b2 && rest[3] == b3);
        let scalar: u32 = (((b0 & 0x07) as u32) << 18) | (((b1 & 0x3F) as u32) << 12) | (((b2
            & 0x3F) as u32) << 6) | ((b3 & 0x3F) as u32);
        (char::from_u32(scalar).unwrap(), 4)
    }
}

} // verus!
