use vstd::prelude::*;
use vstd::arithmetic::div_mod::{
    lemma_fundamental_div_mod, lemma_mod_multiples_vanish, lemma_small_mod,
};
use vstd::arithmetic::power::{lemma_pow_positive, pow};
use vstd::arithmetic::power2::{
    is_pow2, is_pow2_equiv, lemma2_to64, lemma2_to64_rest, lemma_pow2_adds,
    lemma_pow2_strictly_increases, pow2,
};
use vstd::bits::{lemma_u64_low_bits_mask_is_mod, low_bits_mask};

verus! {

/// Largest alignment the device guarantees for the blocks it hands out.
pub const MAX_ALIGNMENT: usize = 512;

/// Row alignment required of pitched (two-dimensional) regions.
pub const PITCH_ALIGNMENT: usize = 32;

/// `a` is a power of two no larger than `MAX_ALIGNMENT`: the alignments that a
/// layout can ask for.
pub open spec fn is_valid_align(a: int) -> bool {
    a == 1 || a == 2 || a == 4 || a == 8 || a == 16 || a == 32 || a == 64 || a == 128
        || a == 256 || a == 512
}

/// Distance from `p` up to the next multiple of `a`.
pub open spec fn offset_to(p: int, a: int) -> int {
    (a - p % a) % a
}

/// Smallest multiple of `a` that is at least `p`.
pub open spec fn rounded_up(p: int, a: int) -> int {
    p + offset_to(p, a)
}

/// Rounding up by a positive `a` gives a multiple of `a`, less than `a` above
/// where it started.
pub proof fn lemma_rounded_up(p: int, a: int)
    requires
        a > 0,
    ensures
        rounded_up(p, a) % a == 0,
        p <= rounded_up(p, a) < p + a,
{
    lemma_fundamental_div_mod(p, a);
    lemma_mod_multiples_vanish(1, 0, a);
    lemma_small_mod(0, a as nat);
    if p % a == 0 {
        assert(offset_to(p, a) == 0);
    } else {
        lemma_small_mod((a - p % a) as nat, a as nat);
        assert(offset_to(p, a) == a - p % a);
        assert(rounded_up(p, a) == a * (p / a + 1)) by (nonlinear_arith)
            requires
                p == a * (p / a) + p % a,
                rounded_up(p, a) == p + (a - p % a),
        ;
        lemma_mod_multiples_vanish(p / a + 1, 0, a);
    }
}

/// Every alignment a layout can hold is a power of two.
pub proof fn lemma_valid_align_is_pow2(a: int)
    requires
        is_valid_align(a),
    ensures
        is_pow2(a),
{
    reveal_with_fuel(is_pow2, 11);
}

/// A power of two that fits in 64 bits is `2^k` for some `k < 64`, and it
/// divides `2^64`.
proof fn lemma_pow2_divides_word(a: int) -> (k: nat)
    requires
        is_pow2(a),
        a <= u64::MAX,
    ensures
        k < 64,
        a > 0,
        a == pow2(k),
        0x1_0000_0000_0000_0000 == a * pow2((64 - k) as nat),
{
    is_pow2_equiv(a);
    let k = choose|i: nat| pow(2, i) == a;
    lemma_pow_positive(2, k);
    assert(a == pow2(k));
    lemma2_to64();
    lemma2_to64_rest();
    if k >= 64 {
        if k > 64 {
            lemma_pow2_strictly_increases(64, k);
        }
        assert(false);
    }
    lemma_pow2_adds(k, (64 - k) as nat);
    k
}

proof fn lemma_negate_mask(p: u64, a: u64)
    requires
        is_pow2(a as int),
    ensures
        ((!p).wrapping_add(1) & ((a - 1) as u64)) == offset_to(p as int, a as int),
{
    let k = lemma_pow2_divides_word(a as int);
    let m = pow2((64 - k) as nat) as int;
    let x = (!p).wrapping_add(1);
    lemma_u64_low_bits_mask_is_mod(x, k);
    assert(low_bits_mask(k) == a - 1);
    assert(x & ((a - 1) as u64) == x % a);
    assert(!p == 0xFFFF_FFFF_FFFF_FFFFu64 - p) by (bit_vector);
    let (pi, ai) = (p as int, a as int);
    if p == 0 {
        assert(x == 0);
        lemma_mod_multiples_vanish(1, 0, a as int);
        assert(offset_to(0, a as int) == 0);
        assert(x % a == 0);
    } else {
        assert(x == 0x1_0000_0000_0000_0000 - pi);
        lemma_fundamental_div_mod(pi, ai);
        let (q, r) = (pi / ai, pi % ai);
        assert(x == ai * (m - q - 1) + (ai - r)) by (nonlinear_arith)
            requires
                x == 0x1_0000_0000_0000_0000 - pi,
                0x1_0000_0000_0000_0000 == ai * m,
                pi == ai * q + r,
        ;
        lemma_mod_multiples_vanish(m - q - 1, ai - r, ai);
        assert(x as int % ai == (ai - r) % ai);
        assert(offset_to(pi, ai) == (ai - r) % ai);
    }
}

/// Offset that rounds `ptr` up to a multiple of the power of two `align`,
/// computed as the two's-complement negation of `ptr` masked to `align`'s low
/// bits.
pub fn align_offset(ptr: u64, align: usize) -> (r: u64)
    requires
        is_pow2(align as int),
    ensures
        r == offset_to(ptr as int, align as int),
        r < align,
        (ptr + r) % (align as int) == 0,
{
    let align = align as u64;
    proof {
        lemma_pow2_divides_word(align as int);
        lemma_negate_mask(ptr, align);
        lemma_rounded_up(ptr as int, align as int);
    }
    (!ptr).wrapping_add(1) & (align - 1)
}

/// `ptr` rounded up to a multiple of the power of two `align`.
pub fn align_up(ptr: u64, align: usize) -> (r: u64)
    requires
        is_pow2(align as int),
        ptr + align - 1 <= u64::MAX,
    ensures
        r == rounded_up(ptr as int, align as int),
        (r as int) % (align as int) == 0,
        ptr <= r < ptr + align,
        rounded_up(r as int, align as int) == r,
        r + align - 1 <= u64::MAX,
{
    let off = align_offset(ptr, align);
    proof {
        let (ri, a) = (ptr + off, align as int);
        let k = lemma_pow2_divides_word(a);
        let m = pow2((64 - k) as nat) as int;
        lemma_fundamental_div_mod(ri, a);
        assert(ri + a - 1 <= u64::MAX) by (nonlinear_arith)
            requires
                ri == a * (ri / a),
                ri <= u64::MAX,
                0x1_0000_0000_0000_0000 == a * m,
                a > 0,
        ;
    }
    ptr + off
}

} // verus!
