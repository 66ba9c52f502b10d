use vstd::prelude::*;

verus! {

use vstd::arithmetic::power2::pow2;

/// The number formed by bits `hi` down to `lo` (inclusive) of `v`.
pub open spec fn field(v: u32, hi: nat, lo: nat) -> nat {
    (v as nat / pow2(lo)) % pow2((hi + 1 - lo) as nat)
}

/// The two's-complement value of the low `width` bits of `v`.
pub open spec fn sign_extend(v: nat, width: nat) -> int {
    let low = v % pow2(width);
    if low >= pow2((width - 1) as nat) {
        low - pow2(width)
    } else {
        low as int
    }
}

/// A field of `w` bits is less than `2^w`.
pub proof fn lemma_field_bound(v: u32, hi: nat, lo: nat)
    ensures
        field(v, hi, lo) < pow2((hi + 1 - lo) as nat),
{
    vstd::arithmetic::power2::lemma_pow2_pos((hi + 1 - lo) as nat);
}

/// A sign-extended `w`-bit value lies in `[-2^(w-1), 2^(w-1))`.
pub proof fn lemma_sign_extend_range(v: nat, w: nat)
    requires
        w >= 1,
    ensures
        -pow2((w - 1) as nat) <= sign_extend(v, w) < pow2((w - 1) as nat),
{
    vstd::arithmetic::power2::lemma_pow2_pos(w);
    vstd::arithmetic::power2::lemma_pow2_unfold(w);
}

/// Extracts bits `hi` down to `lo` of `val` as an unsigned number.
pub fn ubits(val: u32, hi: u32, lo: u32) -> (r: u32)
    requires
        lo <= hi < 32,
        hi - lo < 31,
    ensures
        r == field(val, hi as nat, lo as nat),
        r < pow2((hi + 1 - lo) as nat),
{
    proof {
        lemma_field_bound(val, hi as nat, lo as nat);
    }
    let w: u32 = hi - lo + 1;
    proof {
        vstd::bits::lemma_u32_shr_is_div(val, lo);
        vstd::bits::lemma_u32_pow2_no_overflow(w as nat);
        vstd::bits::lemma_u32_shl_is_mul(1, w);
        vstd::bits::lemma_u32_low_bits_mask_is_mod(val >> lo, w as nat);
    }
    (val >> lo) & ((1u32 << w) - 1)
}

proof fn lemma_sext_shift_high_bits(val: u32, low: u32, bits: u32, shift: u32)
    by (bit_vector)
    requires
        1 <= bits < 32,
        shift == 32 - bits,
        low == val & (((1u64 << bits) - 1) as u32),
    ensures
        ((val as i32) << shift) >> shift == ((low as i32) << shift) >> shift,
{
}

proof fn lemma_sext_shift_value(low: u32, bits: u32, shift: u32)
    by (bit_vector)
    requires
        1 <= bits <= 32,
        shift == 32 - bits,
        (low as u64) < (1u64 << bits),
    ensures
        ((((low as i32) << shift) >> shift) as i64) == if (low as u64) >= (1u64 << ((bits - 1) as u32)) {
            (low as i64 - (1u64 << bits) as i64) as i64
        } else {
            low as i64
        },
{
}

/// Sign-extends the low `bits` bits of `val` to an `i32`.
pub fn sext(val: u32, bits: u32) -> (r: i32)
    requires
        1 <= bits <= 32,
    ensures
        r == sign_extend(val as nat, bits as nat),
{
    let shift: u32 = 32 - bits;
    let r: i32 = ((val as i32) << shift) >> shift;
    proof {
        vstd::bits::lemma_u64_pow2_no_overflow(bits as nat);
        vstd::bits::lemma_u64_pow2_no_overflow((bits - 1) as nat);
        vstd::bits::lemma_u64_shl_is_mul(1, bits as u64);
        vstd::bits::lemma_u64_shl_is_mul(1, (bits - 1) as u64);
        assert((1u64 << bits) == pow2(bits as nat));
        assert((1u64 << ((bits - 1) as u32)) == pow2((bits - 1) as nat));
        if bits < 32 {
            vstd::bits::lemma_u32_pow2_no_overflow(bits as nat);
            let low: u32 = val & (((1u64 << bits) - 1) as u32);
            lemma_sext_shift_high_bits(val, low, bits, shift);
            vstd::bits::lemma_u32_low_bits_mask_is_mod(val, bits as nat);
            assert(low == val % (pow2(bits as nat) as u32));
            lemma_sext_shift_value(low, bits, shift);
        } else {
            vstd::arithmetic::power2::lemma2_to64();
            assert(val as nat % pow2(32) == val);
            lemma_sext_shift_value(val, bits, shift);
        }
    }
    r
}

/// Extracts bits `hi` down to `lo` of `val` and sign-extends them to an `i32`.
pub fn ibits(val: u32, hi: u32, lo: u32) -> (r: i32)
    requires
        lo <= hi < 32,
        hi - lo < 31,
    ensures
        r == sign_extend(field(val, hi as nat, lo as nat), (hi + 1 - lo) as nat),
{
    sext(ubits(val, hi, lo), hi - lo + 1)
}

} // verus!
