//! How numbers stand in bytes: the most significant byte first.

use vstd::prelude::*;

use crate::bytes;

verus! {

/// A number of 16 bits stands in two bytes, the more significant one first.
pub proof fn sixteen_bits_are_written_from_the_top(x: u16)
    ensures
        bytes::be16(x).len() == 2,
        x == bytes::be16(x)[0] * 0x100 + bytes::be16(x)[1],
{
    reveal(bytes::be16);
    assert(x == ((x >> 8) as u8) * 0x100 + ((x & 0xff) as u8)) by (bit_vector);
}

/// A number of 32 bits stands in four bytes, the most significant one first.
pub proof fn thirty_two_bits_are_written_from_the_top(x: u32)
    ensures
        bytes::be32(x).len() == 4,
        x == bytes::be32(x)[0] * 0x100_0000 + bytes::be32(x)[1] * 0x1_0000 + bytes::be32(x)[2]
            * 0x100 + bytes::be32(x)[3],
{
    reveal(bytes::be32);
    assert(x == ((x >> 24) as u8) * 0x100_0000 + (((x >> 16) & 0xff) as u8) * 0x1_0000 + (((x >> 8)
        & 0xff) as u8) * 0x100 + ((x & 0xff) as u8)) by (bit_vector);
}

/// A number of 64 bits stands in eight bytes, the most significant one first.
pub proof fn sixty_four_bits_are_written_from_the_top(x: u64)
    ensures
        bytes::be64(x).len() == 8,
        x == bytes::be64(x)[0] * 0x100_0000_0000_0000 + bytes::be64(x)[1] * 0x1_0000_0000_0000
            + bytes::be64(x)[2] * 0x100_0000_0000 + bytes::be64(x)[3] * 0x1_0000_0000
            + bytes::be64(x)[4] * 0x100_0000 + bytes::be64(x)[5] * 0x1_0000 + bytes::be64(x)[6]
            * 0x100 + bytes::be64(x)[7],
{
    reveal(bytes::be64);
    assert(x == ((x >> 56) as u8) * 0x100_0000_0000_0000 + (((x >> 48) & 0xff) as u8)
        * 0x1_0000_0000_0000 + (((x >> 40) & 0xff) as u8) * 0x100_0000_0000 + (((x >> 32)
        & 0xff) as u8) * 0x1_0000_0000 + (((x >> 24) & 0xff) as u8) * 0x100_0000 + (((x >> 16)
        & 0xff) as u8) * 0x1_0000 + (((x >> 8) & 0xff) as u8) * 0x100 + ((x & 0xff) as u8))
        by (bit_vector);
}

} // verus!
