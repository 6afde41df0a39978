//! Block option values, as they describe one chunk of a blockwise transfer:
//! a chunk number, a more-flag and a size exponent, packed in one integer.
use vstd::arithmetic::power2::{lemma2_to64, lemma_pow2_strictly_increases, pow2};
use vstd::bits::lemma_u64_shl_is_mul;
use vstd::prelude::*;

verus! {

/// The size exponent that no block option may carry.
pub const RESERVED_SZX: u32 = 7;

/// The size exponent: the three low bits.
pub open spec fn szx_of(b: u32) -> u32 {
    b & 7
}

/// The more-flag: set on every chunk but the last.
pub open spec fn more_of(b: u32) -> bool {
    b & 8 == 8
}

/// The chunk number: the bits above the more-flag.
pub open spec fn num_of(b: u32) -> u32 {
    b >> 4
}

/// The size of a chunk: two to the power of four plus the size exponent.
pub open spec fn size_of(b: u32) -> nat {
    pow2((4 + szx_of(b)) as nat)
}

/// Where the chunk starts in the whole body.
pub open spec fn offset_of(b: u32) -> nat {
    (num_of(b) as nat) * size_of(b)
}

/// The block option value that a write without one stands for: chunk zero,
/// the last one, of the smallest size.
pub open spec fn block_or_first(block1: Option<u32>) -> u32 {
    match block1 {
        Some(b) => b,
        None => 0,
    }
}

/// The fields of a block option value whose size exponent is not the reserved
/// one, as the reassembler uses them.
pub struct Block {
    pub more: bool,
    pub size: u64,
    pub offset: u64,
}

/// Decodes `b`; `None` where its size exponent is the reserved one.
pub fn decode_block(b: u32) -> (r: Option<Block>)
    ensures
        szx_of(b) == RESERVED_SZX <==> r is None,
        r matches Some(d) ==> d.more == more_of(b) && d.size == size_of(b) && d.offset
            == offset_of(b),
{
    let szx = b & 0x7;
    if szx == RESERVED_SZX {
        return None;
    }
    let shift: u64 = 4 + szx as u64;
    assert(szx < 7) by (bit_vector)
        requires
            szx == b & 7,
            szx != 7,
    ;
    let size: u64 = 1u64 << shift;
    let num: u32 = b >> 4;
    proof {
        lemma2_to64();
        if shift < 10 {
            lemma_pow2_strictly_increases(shift as nat, 10);
        }
        lemma_u64_shl_is_mul(1, shift);
        assert(num <= 0x0fff_ffff) by (bit_vector)
            requires
                num == b >> 4,
        ;
        assert(size <= 1024);
        assert(num as nat * size as nat <= 0x0fff_ffff * 1024) by (nonlinear_arith)
            requires
                num <= 0x0fff_ffff,
                size <= 1024,
        ;
    }
    let offset: u64 = num as u64 * size;
    Some(Block { more: b & 0x8 == 0x8, size, offset })
}

} // verus!
