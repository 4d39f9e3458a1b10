//! When two numbered blocks of a common parent prefix overlap.
use vstd::arithmetic::power2::{lemma_pow2_pos, pow2};
use vstd::bits::lemma_u64_shl_is_mul;
use vstd::prelude::*;

verus! {

/// How many blocks of the finer of two lengths make up one block of length `len`.
pub open spec fn block_scale(len: u8, other: u8) -> int {
    if len < other {
        pow2((other - len) as nat) as int
    } else {
        1
    }
}

/// Whether block `idx_a` of length `len_a` and block `idx_b` of length `len_b`
/// share a block of the finer length.
pub open spec fn blocks_meet(idx_a: u64, len_a: u8, idx_b: u64, len_b: u8) -> bool {
    let scale_a = block_scale(len_a, len_b);
    let scale_b = block_scale(len_b, len_a);
    &&& idx_a * scale_a < (idx_b + 1) * scale_b
    &&& idx_b * scale_b < (idx_a + 1) * scale_a
}

/// Whether both blocks end within 64-bit numbers, counted in the finer length.
pub open spec fn blocks_fit(idx_a: u64, len_a: u8, idx_b: u64, len_b: u8) -> bool {
    &&& len_a - len_b < 64
    &&& len_b - len_a < 64
    &&& (idx_a + 1) * block_scale(len_a, len_b) <= u64::MAX
    &&& (idx_b + 1) * block_scale(len_b, len_a) <= u64::MAX
}

fn block_scale_of(len: u8, other: u8) -> (r: u64)
    requires
        other - len < 64,
    ensures
        r == block_scale(len, other),
        r >= 1,
{
    if len < other {
        let d: u64 = (other - len) as u64;
        proof {
            lemma_pow2_pos(d as nat);
            lemma_pow2_below_64(d as nat);
            lemma_u64_shl_is_mul(1, d);
        }
        1u64 << d
    } else {
        1
    }
}

proof fn lemma_pow2_below_64(d: nat)
    requires
        d < 64,
    ensures
        pow2(d) <= u64::MAX,
{
    vstd::arithmetic::power2::lemma2_to64();
    vstd::arithmetic::power2::lemma_pow2_strictly_increases(d, 64);
}

/// Whether two blocks overlap.
pub fn blocks_overlap(
    _parent_prefix_len: u8,
    idx_a: u64,
    len_a: u8,
    idx_b: u64,
    len_b: u8,
) -> (r: bool)
    requires
        blocks_fit(idx_a, len_a, idx_b, len_b),
    ensures
        r == blocks_meet(idx_a, len_a, idx_b, len_b),
{
    let scale_a: u64 = block_scale_of(len_a, len_b);
    let scale_b: u64 = block_scale_of(len_b, len_a);
    proof {
        assert((idx_a + 1) * scale_a == idx_a * scale_a + scale_a) by (nonlinear_arith);
        assert((idx_b + 1) * scale_b == idx_b * scale_b + scale_b) by (nonlinear_arith);
    }
    let start_a: u64 = idx_a * scale_a;
    let end_a: u64 = start_a + scale_a;
    let start_b: u64 = idx_b * scale_b;
    let end_b: u64 = start_b + scale_b;
    start_a < end_b && start_b < end_a
}

/// Whether two ranges of indices, ends included, have one in common.
pub fn range_blocks_overlap(start_a: u64, end_a: u64, start_b: u64, end_b: u64) -> (r: bool)
    ensures
        r == (start_a <= end_b && start_b <= end_a),
{
    start_a <= end_b && start_b <= end_a
}

/// Overlap does not depend on the order of the two blocks.
pub proof fn law_overlap_symmetric(idx_a: u64, len_a: u8, idx_b: u64, len_b: u8)
    ensures
        blocks_meet(idx_a, len_a, idx_b, len_b) == blocks_meet(idx_b, len_b, idx_a, len_a),
        blocks_fit(idx_a, len_a, idx_b, len_b) == blocks_fit(idx_b, len_b, idx_a, len_a),
{
}

/// Blocks of one length overlap only where they are the same block.
pub proof fn law_same_length_overlap(idx_a: u64, idx_b: u64, len: u8)
    ensures
        blocks_meet(idx_a, len, idx_b, len) == (idx_a == idx_b),
{
}

/// Two blocks overlap if and only if some block of the finer length lies in both.
pub proof fn law_overlap_is_shared_block(idx_a: u64, len_a: u8, idx_b: u64, len_b: u8)
    ensures
        blocks_meet(idx_a, len_a, idx_b, len_b) <==> exists|x: int|
            #![trigger in_block(x, idx_a, len_a, len_b)]
            in_block(x, idx_a, len_a, len_b) && in_block(x, idx_b, len_b, len_a),
{
    let scale_a = block_scale(len_a, len_b);
    let scale_b = block_scale(len_b, len_a);
    if len_a < len_b {
        lemma_pow2_pos((len_b - len_a) as nat);
    }
    if len_b < len_a {
        lemma_pow2_pos((len_a - len_b) as nat);
    }
    assert((idx_a + 1) * scale_a == idx_a * scale_a + scale_a) by (nonlinear_arith);
    assert((idx_b + 1) * scale_b == idx_b * scale_b + scale_b) by (nonlinear_arith);
    if blocks_meet(idx_a, len_a, idx_b, len_b) {
        let x = if idx_a * scale_a < idx_b * scale_b {
            idx_b * scale_b
        } else {
            idx_a * scale_a
        };
        assert(in_block(x, idx_a, len_a, len_b));
        assert(in_block(x, idx_b, len_b, len_a));
    }
}

/// Whether the `x`-th block of the finer length lies in block `idx` of length `len`.
pub open spec fn in_block(x: int, idx: u64, len: u8, other: u8) -> bool {
    idx * block_scale(len, other) <= x < (idx + 1) * block_scale(len, other)
}

} // verus!
