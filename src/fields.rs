use vstd::prelude::*;

use crate::semantics::{op_n, op_nn, op_nnn, op_x, op_y};

verus! {

/// The fields of an instruction word, as the interpreter extracts them.
pub proof fn lemma_fields(op: u16)
    ensures
        0 <= op_x(op) < 16,
        0 <= op_y(op) < 16,
        op_n(op) < 16,
        op_nnn(op) <= 0xFFF,
        op_nn(op) as u16 == op & 0x00FFu16,
{
    assert(((op & 0x0F00u16) >> 8u16) < 16) by (bit_vector);
    assert(((op & 0x00F0u16) >> 4u16) < 16) by (bit_vector);
    assert((op & 0x000Fu16) < 16) by (bit_vector);
    assert((op & 0x0FFFu16) <= 0xFFF) by (bit_vector);
    assert((op & 0x00FFu16) < 256) by (bit_vector);
}

/// A big-endian word assembled from two bytes.
pub proof fn lemma_word(hi: u16, lo: u16)
    requires
        hi < 256,
        lo < 256,
    ensures
        (hi << 8u16) | lo == hi * 256 + lo,
{
    assert((hi << 8u16) | lo == hi * 256 + lo) by (bit_vector)
        requires
            hi < 256,
            lo < 256,
    ;
}

} // verus!
