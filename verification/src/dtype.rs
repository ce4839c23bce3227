//! Deterministic dtype policy for backend adapters.
//!
//! Adapters may emulate the storage rounding of `f32`, `bf16` or `f16` CPU
//! backends. Rounding works on single-precision bit patterns.

use vstd::prelude::*;
use crate::error::{CfrError, Result};
use crate::text::str_eq;

verus! {

/// Storage dtype emulated by a backend adapter.
#[derive(Debug, Clone, Copy, PartialEq, Eq, Structural)]
pub enum StorageDType {
    /// Native `f32` values with no storage rounding.
    F32,
    /// Brain floating point 16, rounded to nearest even then expanded to `f32`.
    Bf16,
    /// IEEE-754 binary16, rounded to nearest even then expanded to `f32`.
    F16,
}

/// Accumulator dtype requested by a backend adapter.
#[derive(Debug, Clone, Copy, PartialEq, Eq, Structural)]
pub enum AccumulatorDType {
    /// Accumulate in `f32`.
    F32,
    /// Accumulate in `f64`.
    F64,
}

/// Deterministic dtype policy for K/V regeneration.
#[derive(Debug, Clone, Copy, PartialEq, Eq, Structural)]
pub struct DTypePolicy {
    storage: StorageDType,
    accumulator: AccumulatorDType,
}

/// `bf16` rounding of a single-precision bit pattern: round to nearest, ties
/// to even, keeping the upper 16 bits; infinities and NaNs are unchanged.
pub open spec fn bf16_round_spec(bits: u32) -> u32 {
    if bits & 0x7f80_0000u32 == 0x7f80_0000u32 {
        bits
    } else {
        ((bits + (0x7fffu32 + ((bits >> 16u32) & 1u32))) % 0x1_0000_0000) as u32 & 0xffff_0000u32
    }
}

impl DTypePolicy {
    /// Storage dtype.
    pub closed spec fn spec_storage(self) -> StorageDType {
        self.storage
    }

    /// Accumulator dtype.
    pub closed spec fn spec_accumulator(self) -> AccumulatorDType {
        self.accumulator
    }

    /// Creates a dtype policy.
    pub fn new(storage: StorageDType, accumulator: AccumulatorDType) -> (p: Self)
        ensures
            p.spec_storage() == storage,
            p.spec_accumulator() == accumulator,
    {
        Self { storage, accumulator }
    }

    /// Pure `f32` policy.
    pub fn float32() -> (p: Self)
        ensures
            p.spec_storage() == StorageDType::F32,
            p.spec_accumulator() == AccumulatorDType::F64,
    {
        Self::new(StorageDType::F32, AccumulatorDType::F64)
    }

    /// `bf16` storage-emulation policy.
    pub fn bf16() -> (p: Self)
        ensures
            p.spec_storage() == StorageDType::Bf16,
            p.spec_accumulator() == AccumulatorDType::F64,
    {
        Self::new(StorageDType::Bf16, AccumulatorDType::F64)
    }

    /// `f16` storage-emulation policy.
    pub fn float16() -> (p: Self)
        ensures
            p.spec_storage() == StorageDType::F16,
            p.spec_accumulator() == AccumulatorDType::F64,
    {
        Self::new(StorageDType::F16, AccumulatorDType::F64)
    }

    /// Storage dtype.
    pub fn storage(&self) -> (s: StorageDType)
        ensures
            s == self.spec_storage(),
    {
        self.storage
    }

    /// Accumulator dtype.
    pub fn accumulator(&self) -> (a: AccumulatorDType)
        ensures
            a == self.spec_accumulator(),
    {
        self.accumulator
    }

    /// Validates policy consistency; every combination is accepted.
    pub fn validate(&self) -> (res: Result<()>)
        ensures
            res is Ok,
    {
        Ok(())
    }

    /// Applies deterministic storage rounding to one single-precision bit
    /// pattern.
    pub fn round_bits(&self, bits: u32) -> (r: u32)
        ensures
            self.spec_storage() == StorageDType::F32 ==> r == bits,
            self.spec_storage() == StorageDType::Bf16 ==> r == bf16_round_spec(bits),
            self.spec_storage() == StorageDType::F16 ==> r == f16_round_spec(bits),
    {
        match self.storage {
            StorageDType::F32 => bits,
            StorageDType::Bf16 => round_to_bf16(bits),
            StorageDType::F16 => round_to_f16(bits),
        }
    }

    /// Applies deterministic storage rounding in place.
    pub fn round_slice_in_place(&self, values: &mut [u32])
        ensures
            final(values)@.len() == old(values)@.len(),
            forall|i: int|
                0 <= i < old(values)@.len() ==> #[trigger] final(values)@[i] == self.round_spec(
                    old(values)@[i],
                ),
    {
        let mut i: usize = 0;
        while i < values.len()
            invariant
                0 <= i <= values@.len(),
                values@.len() == old(values)@.len(),
                forall|j: int| 0 <= j < i ==> #[trigger] values@[j] == self.round_spec(old(values)@[j]),
                forall|j: int| i <= j < values@.len() ==> #[trigger] values@[j] == old(values)@[j],
            decreases values.len() - i,
        {
            let rounded = self.round_bits(values[i]);
            values[i] = rounded;
            i += 1;
        }
    }

    /// The rounding this policy applies.
    pub open spec fn round_spec(self, bits: u32) -> u32 {
        match self.spec_storage() {
            StorageDType::F32 => bits,
            StorageDType::Bf16 => bf16_round_spec(bits),
            StorageDType::F16 => f16_round_spec(bits),
        }
    }
}

impl Default for DTypePolicy {
    fn default() -> (p: Self)
        ensures
            p.spec_storage() == StorageDType::F32,
            p.spec_accumulator() == AccumulatorDType::F64,
    {
        Self::float32()
    }
}

fn round_to_bf16(bits: u32) -> (r: u32)
    ensures
        r == bf16_round_spec(bits),
{
    if bits & 0x7f80_0000 == 0x7f80_0000 {
        return bits;
    }
    let lsb = (bits >> 16) & 1;
    assert(lsb <= 1) by (bit_vector)
        requires
            lsb == (bits >> 16u32) & 1u32,
    ;
    bits.wrapping_add(0x7fff + lsb) & 0xffff_0000
}

/// `bf16` rounding is idempotent: a rounded value rounds to itself.
pub proof fn lemma_bf16_round_idempotent(bits: u32)
    ensures
        bf16_round_spec(bf16_round_spec(bits)) == bf16_round_spec(bits),
{
    let r = bf16_round_spec(bits);
    if bits & 0x7f80_0000u32 != 0x7f80_0000u32 {
        let lsb = (bits >> 16u32) & 1u32;
        assert(lsb <= 1) by (bit_vector)
            requires
                lsb == (bits >> 16u32) & 1u32,
        ;
        let sum = ((bits + (0x7fffu32 + lsb)) % 0x1_0000_0000) as u32;
        assert(r == sum & 0xffff_0000u32);
        assert(r & 0xffffu32 == 0) by (bit_vector)
            requires
                r == sum & 0xffff_0000u32,
        ;
        if r & 0x7f80_0000u32 != 0x7f80_0000u32 {
            let lsb2 = (r >> 16u32) & 1u32;
            assert(lsb2 <= 1) by (bit_vector)
                requires
                    lsb2 == (r >> 16u32) & 1u32,
            ;
            assert(((r + (0x7fffu32 + lsb2)) % 0x1_0000_0000) as u32 & 0xffff_0000u32 == r)
                by (bit_vector)
                requires
                    r & 0xffffu32 == 0,
                    lsb2 <= 1,
            ;
        }
    }
}

proof fn lemma_f16_reencode(h: u16)
    by (bit_vector)
    ensures
        f16_to_f32_spec(f32_to_f16_spec(f16_to_f32_spec(h))) == f16_to_f32_spec(h),
{
}

/// `f16` rounding is idempotent: a rounded value rounds to itself.
pub proof fn lemma_f16_round_idempotent(bits: u32)
    ensures
        f16_round_spec(f16_round_spec(bits)) == f16_round_spec(bits),
{
    lemma_f16_reencode(f32_to_f16_spec(bits));
}

/// `f16` storage rounding keeps the sign: the sign bit of the result is the
/// sign bit of the input, and a value rounds as its magnitude does, with the
/// sign put back.
pub proof fn lemma_f16_round_keeps_sign(bits: u32)
    by (bit_vector)
    ensures
        f16_round_spec(bits) & 0x8000_0000u32 == bits & 0x8000_0000u32,
        f16_round_spec(bits | 0x8000_0000u32) == f16_round_spec(bits & 0x7fff_ffffu32)
            | 0x8000_0000u32,
{
}

/// `bf16` storage rounding keeps the sign in the same way.
pub proof fn lemma_bf16_round_keeps_sign(bits: u32)
    by (bit_vector)
    ensures
        bf16_round_spec(bits) & 0x8000_0000u32 == bits & 0x8000_0000u32,
        bf16_round_spec(bits | 0x8000_0000u32) == bf16_round_spec(bits & 0x7fff_ffffu32)
            | 0x8000_0000u32,
{
}

/// Storage rounding keeps the sign for every policy: the result's sign bit is
/// the input's, and a negative value rounds to the negation of its
/// magnitude's rounding.
pub proof fn lemma_round_keeps_sign(policy: DTypePolicy, bits: u32)
    ensures
        policy.round_spec(bits) & 0x8000_0000u32 == bits & 0x8000_0000u32,
        policy.round_spec(bits | 0x8000_0000u32) == policy.round_spec(bits & 0x7fff_ffffu32)
            | 0x8000_0000u32,
{
    lemma_f16_round_keeps_sign(bits);
    lemma_bf16_round_keeps_sign(bits);
    assert((bits | 0x8000_0000u32) & 0x8000_0000u32 == 0x8000_0000u32) by (bit_vector);
    assert(bits | 0x8000_0000u32 == (bits & 0x7fff_ffffu32) | 0x8000_0000u32) by (bit_vector);
}

/// Storage rounding is deterministic and idempotent for every policy:
/// rounding a rounded value leaves it unchanged.
pub proof fn lemma_round_idempotent(policy: DTypePolicy, bits: u32)
    ensures
        policy.round_spec(policy.round_spec(bits)) == policy.round_spec(bits),
{
    lemma_bf16_round_idempotent(bits);
    lemma_f16_round_idempotent(bits);
}

/// Half-precision encoding of a single-precision bit pattern, rounding to
/// nearest with ties to even; overflow saturates to infinity and NaNs become
/// the quiet half NaN.
pub open spec fn f32_to_f16_spec(bits: u32) -> u16 {
    let sign = ((bits >> 16u32) & 0x8000u32) as u16;
    let exp = ((bits >> 23u32) & 0xffu32) as int;
    let mant = bits & 0x007f_ffffu32;
    if exp == 0xff {
        if mant == 0 { sign | 0x7c00u16 } else { sign | 0x7e00u16 }
    } else {
        let half_exp = exp - 127 + 15;
        if half_exp >= 0x1f {
            sign | 0x7c00u16
        } else if half_exp <= 0 {
            if half_exp < -10 {
                sign
            } else {
                let mantissa = mant | 0x0080_0000u32;
                let shift = (14 - half_exp) as u32;
                let half_mant = (mantissa >> shift) as u16;
                let round_bit = (mantissa >> ((shift - 1) as u32)) & 1u32;
                let sticky = mantissa & (((1u32 << ((shift - 1) as u32)) - 1) as u32);
                if round_bit != 0 && (sticky != 0 || (half_mant & 1u16) != 0) {
                    sign | ((half_mant + 1) as u16)
                } else {
                    sign | half_mant
                }
            }
        } else {
            let half = sign | (((half_exp as u16) << 10u16) as u16) | ((mant >> 13u32) as u16);
            let round = mant & 0x1fffu32;
            if round > 0x1000 || (round == 0x1000 && (half & 1u16) != 0) {
                if half == 0xffff { half } else { (half + 1) as u16 }
            } else {
                half
            }
        }
    }
}

/// Single-precision bit pattern of a half-precision value (exact).
pub open spec fn f16_to_f32_spec(h: u16) -> u32 {
    let sign = ((h & 0x8000u16) as u32) << 16u32;
    let exp = (h >> 10u16) & 0x1fu16;
    let mant = h & 0x03ffu16;
    if exp == 0 {
        if mant == 0 {
            sign
        } else {
            sign | subnormal_f16_magnitude(mant as u32)
        }
    } else if exp == 0x1f {
        if mant == 0 { sign | 0x7f80_0000u32 } else { sign | 0x7fc0_0000u32 }
    } else {
        sign | (((exp + 112) as u32) << 23u32) | ((mant as u32) << 13u32)
    }
}

/// Single-precision bit pattern of `mant * 2^-24` for `0 < mant < 1024`.
pub open spec fn subnormal_f16_magnitude(mant: u32) -> u32 {
    let lead = highest_bit(mant);
    (((lead + 103) as u32) << 23u32) | (((mant << ((23 - lead) as u32)) & 0x007f_ffffu32) as u32)
}

/// Index of the highest set bit of a non-zero value below `1024`.
pub open spec fn highest_bit(mant: u32) -> int {
    if mant >= 512 { 9 }
    else if mant >= 256 { 8 }
    else if mant >= 128 { 7 }
    else if mant >= 64 { 6 }
    else if mant >= 32 { 5 }
    else if mant >= 16 { 4 }
    else if mant >= 8 { 3 }
    else if mant >= 4 { 2 }
    else if mant >= 2 { 1 }
    else { 0 }
}

/// `f16` storage rounding of a single-precision bit pattern.
pub open spec fn f16_round_spec(bits: u32) -> u32 {
    f16_to_f32_spec(f32_to_f16_spec(bits))
}

fn round_to_f16(bits: u32) -> (r: u32)
    ensures
        r == f16_round_spec(bits),
{
    f16_bits_to_f32(f32_to_f16_bits(bits))
}

fn f32_to_f16_bits(bits: u32) -> (h: u16)
    ensures
        h == f32_to_f16_spec(bits),
{
    assert(((bits >> 16u32) & 0x8000u32) <= 0x8000) by (bit_vector);
    let sign = u16_from_u32_or((bits >> 16) & 0x8000, 0x8000);
    let exp_bits = (bits >> 23) & 0xff;
    let mant = bits & 0x007f_ffff;
    assert(exp_bits <= 0xff) by (bit_vector)
        requires
            exp_bits == (bits >> 23u32) & 0xffu32,
    ;
    let exp = i32_from_u32_or(exp_bits, 0xff);
    if exp == 0xff {
        return if mant == 0 {
            sign | 0x7c00
        } else {
            sign | 0x7e00
        };
    }
    let half_exp = exp - 127 + 15;
    if half_exp >= 0x1f {
        return sign | 0x7c00;
    }
    if half_exp <= 0 {
        if half_exp < -10 {
            return sign;
        }
        let mantissa = mant | 0x0080_0000;
        let shift = u32_from_i32_or(14 - half_exp, 0);
        assert(mantissa < 0x0100_0000) by (bit_vector)
            requires
                mantissa == (bits & 0x007f_ffffu32) | 0x0080_0000u32,
        ;
        assert(mantissa >> shift < 0x10000) by (bit_vector)
            requires
                mantissa < 0x0100_0000,
                14 <= shift <= 24,
        ;
        let half_mant = u16_from_u32_or(mantissa >> shift, u16::MAX);
        let round_bit = (mantissa >> (shift - 1)) & 1;
        let shift_less = shift - 1;
        assert((1u32 << shift_less) >= 1) by (bit_vector)
            requires
                13 <= shift_less <= 23,
        ;
        let sticky_mask = (1u32 << shift_less) - 1;
        let sticky = mantissa & sticky_mask;
        assert(half_mant < 0x0400) by (bit_vector)
            requires
                mantissa < 0x0100_0000,
                14 <= shift <= 24,
                half_mant == (mantissa >> shift) as u16,
        ;
        if round_bit != 0 && (sticky != 0 || (half_mant & 1) != 0) {
            return sign | (half_mant + 1);
        }
        return sign | half_mant;
    }
    assert((mant >> 13u32) < 0x0400) by (bit_vector)
        requires
            mant == bits & 0x007f_ffffu32,
    ;
    let half_exp_bits = u16_from_i32_or(half_exp, 0x1f);
    let mant_bits = u16_from_u32_or(mant >> 13, 0x03ff);
    let mut half = sign | (half_exp_bits << 10) | mant_bits;
    let round = mant & 0x1fff;
    if round > 0x1000 || (round == 0x1000 && (half & 1) != 0) {
        if half != 0xffff {
            half = half + 1;
        }
    }
    half
}

fn u16_from_u32_or(value: u32, fallback: u16) -> (r: u16)
    ensures
        value <= u16::MAX ==> r == value,
        value > u16::MAX ==> r == fallback,
{
    if value <= u16::MAX as u32 {
        value as u16
    } else {
        fallback
    }
}

fn u16_from_i32_or(value: i32, fallback: u16) -> (r: u16)
    ensures
        0 <= value <= u16::MAX ==> r == value,
        !(0 <= value <= u16::MAX) ==> r == fallback,
{
    if 0 <= value && value <= u16::MAX as i32 {
        value as u16
    } else {
        fallback
    }
}

fn i32_from_u32_or(value: u32, fallback: i32) -> (r: i32)
    ensures
        value <= i32::MAX ==> r == value,
        value > i32::MAX ==> r == fallback,
{
    if value <= i32::MAX as u32 {
        value as i32
    } else {
        fallback
    }
}

fn u32_from_i32_or(value: i32, fallback: u32) -> (r: u32)
    ensures
        value >= 0 ==> r == value,
        value < 0 ==> r == fallback,
{
    if value >= 0 {
        value as u32
    } else {
        fallback
    }
}

fn f16_bits_to_f32(h: u16) -> (bits: u32)
    ensures
        bits == f16_to_f32_spec(h),
{
    let sign = ((h & 0x8000) as u32) << 16;
    let exp = (h >> 10) & 0x1f;
    let mant = h & 0x03ff;
    assert(exp <= 0x1f) by (bit_vector)
        requires
            exp == (h >> 10u16) & 0x1fu16,
    ;
    assert(mant <= 0x3ff) by (bit_vector)
        requires
            mant == h & 0x03ffu16,
    ;
    if exp == 0 {
        if mant == 0 {
            sign
        } else {
            sign | subnormal_magnitude(mant as u32)
        }
    } else if exp == 0x1f {
        if mant == 0 {
            sign | 0x7f80_0000
        } else {
            sign | 0x7fc0_0000
        }
    } else {
        sign | (((exp + 112) as u32) << 23) | ((mant as u32) << 13)
    }
}

fn subnormal_magnitude(mant: u32) -> (bits: u32)
    requires
        0 < mant < 1024,
    ensures
        bits == subnormal_f16_magnitude(mant),
{
    let lead: u32 = if mant >= 512 { 9 }
    else if mant >= 256 { 8 }
    else if mant >= 128 { 7 }
    else if mant >= 64 { 6 }
    else if mant >= 32 { 5 }
    else if mant >= 16 { 4 }
    else if mant >= 8 { 3 }
    else if mant >= 4 { 2 }
    else if mant >= 2 { 1 }
    else { 0 };
    ((lead + 103) << 23) | ((mant << (23 - lead)) & 0x007f_ffff)
}

/// Parses an external dtype name.
pub fn parse_storage_dtype(name: &str) -> (res: Result<StorageDType>)
    ensures
        name@ == "f32"@ || name@ == "float32"@ ==> res == Ok::<StorageDType, CfrError>(StorageDType::F32),
        !(name@ == "f32"@ || name@ == "float32"@) && (name@ == "bf16"@ || name@ == "bfloat16"@)
            ==> res == Ok::<StorageDType, CfrError>(StorageDType::Bf16),
        !(name@ == "f32"@ || name@ == "float32"@) && !(name@ == "bf16"@ || name@ == "bfloat16"@)
            && (name@ == "f16"@ || name@ == "float16"@) ==> res == Ok::<StorageDType, CfrError>(
            StorageDType::F16,
        ),
        !(name@ == "f32"@ || name@ == "float32"@) && !(name@ == "bf16"@ || name@ == "bfloat16"@)
            && !(name@ == "f16"@ || name@ == "float16"@) ==> res == Err::<StorageDType, CfrError>(
            CfrError::InvalidConfig("unknown storage dtype"),
        ),
{
    if str_eq(name, "f32") || str_eq(name, "float32") {
        Ok(StorageDType::F32)
    } else if str_eq(name, "bf16") || str_eq(name, "bfloat16") {
        Ok(StorageDType::Bf16)
    } else if str_eq(name, "f16") || str_eq(name, "float16") {
        Ok(StorageDType::F16)
    } else {
        Err(CfrError::InvalidConfig("unknown storage dtype"))
    }
}

} // verus!
