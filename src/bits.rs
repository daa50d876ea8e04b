use vstd::prelude::*;

verus! {

/// Bit `i` of `byte`, counting from the most significant bit (`i == 0`), as 0 or 1.
pub open spec fn bit_at(byte: u8, i: int) -> u8 {
    if byte & (0x80u8 >> (i as u8)) != 0 {
        1
    } else {
        0
    }
}

/// The eight bits of `byte`, most significant first.
pub open spec fn bits_of(byte: u8) -> Seq<u8> {
    Seq::new(8, |i: int| bit_at(byte, i))
}

/// Expands `byte` into eight entries of 0 or 1, most significant bit first.
pub fn make_bitvector(byte: u8) -> (bits: Vec<u8>)
    ensures
        bits@ == bits_of(byte),
{
    let mut bits: Vec<u8> = Vec::new();
    let mut i: u8 = 0;
    while i < 8
        invariant
            i <= 8,
            bits@ == bits_of(byte).take(i as int),
        decreases 8 - i,
    {
        let b: u8 = if byte & (0x80u8 >> i) != 0 { 1 } else { 0 };
        bits.push(b);
        proof {
            assert(bits_of(byte).take(i + 1) =~= bits_of(byte).take(i as int).push(b));
        }
        i = i + 1;
    }
    proof {
        assert(bits_of(byte).take(8) =~= bits_of(byte));
    }
    bits
}

} // verus!
