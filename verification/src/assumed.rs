//! What this crate takes on trust about the standard library: the two
//! functions it calls that come without a verified specification.
use vstd::prelude::*;
use vstd::utf8::is_scalar;

verus! {

/// `char::from_u32` returns the character with the given scalar value,
/// and `None` exactly when the value is a surrogate or lies above U+10FFFF.
pub assume_specification[ char::from_u32 ](i: u32) -> (r: Option<char>)
    ensures
        r == if is_scalar(i) {
            Some(i as char)
        } else {
            None::<char>
        },
;

/// `String::push` appends the given character to the end of the string.
pub assume_specification[ String::push ](s: &mut String, ch: char)
    ensures
        final(s)@ == old(s)@.push(ch),
;

} // verus!
