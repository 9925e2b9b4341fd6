//! Four-character pixel format codes.

use vstd::prelude::*;

verus! {

/// The code is made of these four characters.
pub open spec fn is_code(repr: [u8; 4], a: char, b: char, c: char, d: char) -> bool {
    &&& repr@[0] as int == a as int
    &&& repr@[1] as int == b as int
    &&& repr@[2] as int == c as int
    &&& repr@[3] as int == d as int
}

/// Whether a code is made of these four characters.
pub fn code_is(repr: &[u8; 4], a: char, b: char, c: char, d: char) -> (r: bool)
    ensures
        r == is_code(*repr, a, b, c, d),
{
    repr[0] as u32 == a as u32 && repr[1] as u32 == b as u32 && repr[2] as u32 == c as u32
        && repr[3] as u32 == d as u32
}

/// The code consists of these four bytes.
pub open spec fn is_bytes(repr: [u8; 4], a: u8, b: u8, c: u8, d: u8) -> bool {
    repr@[0] == a && repr@[1] == b && repr@[2] == c && repr@[3] == d
}

/// The characters of a code are those of its bytes, one for one.
pub proof fn law_codes_are_bytes(repr: [u8; 4], a: char, b: char, c: char, d: char)
    requires
        a as u32 <= 127,
        b as u32 <= 127,
        c as u32 <= 127,
        d as u32 <= 127,
    ensures
        is_code(repr, a, b, c, d) <==> is_bytes(repr, a as u8, b as u8, c as u8, d as u8),
{
}

} // verus!
