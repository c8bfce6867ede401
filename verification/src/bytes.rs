//! Little-endian integers and single-byte text as they lie in a byte
//! sequence.

use vstd::prelude::*;

verus! {

/// The unsigned number whose little-endian form is the `width` bytes of
/// `bytes` that start at index `at`.
pub open spec fn le_value(bytes: Seq<u8>, at: int, width: nat) -> nat
    decreases width,
{
    if width == 0 {
        0
    } else {
        bytes[at] as nat + 256 * le_value(bytes, at + 1, (width - 1) as nat)
    }
}

/// `256^width`: the number of values that `width` bytes can take.
pub open spec fn radix(width: nat) -> nat
    decreases width,
{
    if width == 0 {
        1
    } else {
        256 * radix((width - 1) as nat)
    }
}

/// The signed number whose two's complement little-endian form is the
/// `width` bytes of `bytes` that start at index `at`.
pub open spec fn le_signed(bytes: Seq<u8>, at: int, width: nat) -> int {
    let unsigned = le_value(bytes, at, width);
    if 2 * unsigned < radix(width) {
        unsigned as int
    } else {
        unsigned - radix(width)
    }
}

/// The text of which each character is one byte of `bytes`, taken as its code
/// point.
pub open spec fn latin1(bytes: Seq<u8>) -> Seq<char> {
    Seq::new(bytes.len(), |i: int| bytes[i] as char)
}

} // verus!
