//! A walking single-bit flip over a byte slice.
//!
//! The iteration counter selects which bit is flipped: counting from the least
//! significant bit of the first byte, bit `i mod (8 * len)` is inverted. The
//! `width` argument is reserved for flipping a run of bits; it has no effect, so
//! exactly one bit changes per call on a non-empty slice.
use vstd::arithmetic::div_mod::{
    lemma_fundamental_div_mod_converse, lemma_mod_add_multiples_vanish, lemma_mod_bound,
    lemma_mod_breakdown,
};
use vstd::prelude::*;

verus! {

/// Index, counted over the whole slice, of the bit that iteration `i` flips.
pub open spec fn bit_position(len: nat, i: int) -> int {
    i % (len * 8) as int
}

/// The single-bit mask for bit `bit` of a byte (least significant bit first).
pub open spec fn bit_mask(bit: int) -> u8 {
    (1u8 << (bit as u8)) as u8
}

/// `bytes` with bit `i mod (8 * len)` inverted; an empty sequence stays as it is.
pub open spec fn flip_bit(bytes: Seq<u8>, i: int) -> Seq<u8> {
    if bytes.len() == 0 {
        bytes
    } else {
        let k = bit_position(bytes.len(), i);
        bytes.update(k / 8, bytes[k / 8] ^ bit_mask(k % 8))
    }
}

/// The byte and bit that a flip touches, computed without forming `8 * len`.
proof fn lemma_split_position(len: nat, i: nat)
    requires
        len > 0,
    ensures
        bit_position(len, i as int) / 8 == (i / 8) % len,
        bit_position(len, i as int) % 8 == i % 8,
        0 <= (i / 8) % len < len,
{
    lemma_mod_breakdown(i as int, 8, len as int);
    assert(len * 8 == 8 * len) by (nonlinear_arith);
    let q = (i as int / 8) % (len as int);
    let r = i as int % 8;
    lemma_fundamental_div_mod_converse(8 * q + r, 8, q, r);
}

/// Flipping the same bit twice gives the byte back.
proof fn lemma_xor_mask_twice(b: u8, bit: int)
    requires
        0 <= bit < 8,
    ensures
        (b ^ bit_mask(bit)) ^ bit_mask(bit) == b,
{
    let m = bit_mask(bit);
    assert((b ^ m) ^ m == b) by (bit_vector);
}

/// Flipping a bit twice, that is two calls with the same iteration, gives the bytes back.
pub proof fn lemma_flip_twice(bytes: Seq<u8>, i: int)
    ensures
        flip_bit(flip_bit(bytes, i), i) == bytes,
{
    if bytes.len() > 0 {
        let k = bit_position(bytes.len(), i);
        lemma_mod_bound(i, (bytes.len() * 8) as int);
        assert(0 <= k % 8 < 8);
        lemma_xor_mask_twice(bytes[k / 8], k % 8);
        assert(flip_bit(flip_bit(bytes, i), i) =~= bytes);
    }
}

/// Iterations wrap around: iteration `8 * len + k` flips the same bit as iteration `k`.
pub proof fn lemma_flip_wraps(bytes: Seq<u8>, k: int)
    requires
        0 <= k,
    ensures
        flip_bit(bytes, bytes.len() * 8 + k) == flip_bit(bytes, k),
{
    if bytes.len() > 0 {
        lemma_mod_add_multiples_vanish(k, (bytes.len() * 8) as int);
    }
}

/// The walking single-bit flipper.
#[derive(Debug, Copy, Clone)]
pub struct BitFlipper {}

impl BitFlipper {
    /// Flips bit `i mod (8 * bytes.len())` of `bytes`. An empty slice is left unchanged.
    /// `_width` is reserved and does not change which bits are flipped.
    pub fn mutate(bytes: &mut [u8], i: usize, _width: u8)
        ensures
            final(bytes)@ == flip_bit(old(bytes)@, i as int),
    {
        let len = bytes.len();
        if len == 0 {
            return;
        }
        proof {
            lemma_split_position(len as nat, i as nat);
        }
        let byte: usize = (i / 8) % len;
        let bit: u8 = (i % 8) as u8;
        bytes[byte] = bytes[byte] ^ (1u8 << bit);
    }
}

} // verus!
