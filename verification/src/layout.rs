//! Checked layout, capacity and buffer hygiene helpers.
//!
//! Shape math, byte accounting and finite-value checks are written once here
//! and reused by the cache, the tuner and the validation helpers. K/V values
//! are handled as IEEE-754 single-precision bit patterns (`u32`).

use vstd::prelude::*;
use std::ops::Range;
use crate::error::{CfrError, Result};

verus! {

/// Bytes occupied by one stored K or V element.
pub const ELEMENT_BYTES: usize = 4;

/// Exponent mask of an IEEE-754 single-precision bit pattern.
pub const F32_EXPONENT_MASK: u32 = 0x7f80_0000;

/// A single-precision bit pattern is finite when its exponent is not all ones.
pub open spec fn is_finite_bits(bits: u32) -> bool {
    bits & 0x7f80_0000u32 != 0x7f80_0000u32
}

/// Every element of a sequence of bit patterns is finite.
pub open spec fn all_finite_bits(values: Seq<u32>) -> bool {
    forall|i: int| 0 <= i < values.len() ==> #[trigger] is_finite_bits(values[i])
}

/// K and V bytes of a `tokens x head_dim` page: two `f32` matrices.
pub open spec fn kv_bytes_spec(tokens: int, head_dim: int) -> int {
    tokens * head_dim * 8
}

/// Validates a slice length.
pub fn expect_len(name: &'static str, expected: usize, got: usize) -> (res: Result<()>)
    ensures
        res is Ok <==> expected == got,
        res is Err ==> res == Err::<(), CfrError>(CfrError::Dimension { name, expected, got }),
{
    if expected == got {
        Ok(())
    } else {
        Err(CfrError::Dimension { name, expected, got })
    }
}

/// Checked `usize` addition with a stable error.
pub fn checked_add(name: &'static str, left: usize, right: usize) -> (res: Result<usize>)
    ensures
        left + right <= usize::MAX ==> res == Ok::<usize, CfrError>((left + right) as usize),
        left + right > usize::MAX ==> res == Err::<usize, CfrError>(
            CfrError::CapacityOverflow { name },
        ),
{
    match left.checked_add(right) {
        Some(sum) => Ok(sum),
        None => Err(CfrError::CapacityOverflow { name }),
    }
}

/// Checked `usize` multiplication with a stable error.
pub fn checked_mul(name: &'static str, left: usize, right: usize) -> (res: Result<usize>)
    ensures
        left * right <= usize::MAX ==> res == Ok::<usize, CfrError>((left * right) as usize),
        left * right > usize::MAX ==> res == Err::<usize, CfrError>(
            CfrError::CapacityOverflow { name },
        ),
{
    match left.checked_mul(right) {
        Some(product) => Ok(product),
        None => Err(CfrError::CapacityOverflow { name }),
    }
}

/// Checked length for a non-empty half-open range.
pub fn checked_range_len(name: &'static str, range: &Range<usize>) -> (res: Result<usize>)
    ensures
        range.start >= range.end ==> res == Err::<usize, CfrError>(CfrError::InvalidConfig(name)),
        range.start < range.end ==> res == Ok::<usize, CfrError>(
            (range.end - range.start) as usize,
        ),
{
    if range.start >= range.end {
        return Err(CfrError::InvalidConfig(name));
    }
    Ok(range.end - range.start)
}

/// Checked row-major matrix length: `rows * columns`.
pub fn checked_matrix_len(name: &'static str, rows: usize, columns: usize) -> (res: Result<
    usize,
>)
    ensures
        rows * columns <= usize::MAX ==> res == Ok::<usize, CfrError>((rows * columns) as usize),
        rows * columns > usize::MAX ==> res == Err::<usize, CfrError>(
            CfrError::CapacityOverflow { name },
        ),
{
    checked_mul(name, rows, columns)
}

/// Checked byte count for K and V `f32` pages together.
pub fn checked_kv_bytes(name: &'static str, tokens: usize, head_dim: usize) -> (res: Result<
    usize,
>)
    ensures
        kv_bytes_spec(tokens as int, head_dim as int) <= usize::MAX ==> res == Ok::<
            usize,
            CfrError,
        >(kv_bytes_spec(tokens as int, head_dim as int) as usize),
        kv_bytes_spec(tokens as int, head_dim as int) > usize::MAX ==> res == Err::<
            usize,
            CfrError,
        >(CfrError::CapacityOverflow { name }),
{
    let values = checked_matrix_len(name, tokens, head_dim)?;
    let one_matrix = checked_mul(name, values, ELEMENT_BYTES)?;
    let both = checked_mul(name, one_matrix, 2);
    proof {
        let th = tokens as int * head_dim as int;
        assert(th >= 0) by (nonlinear_arith)
            requires
                tokens >= 0,
                head_dim >= 0,
                th == tokens as int * head_dim as int,
        ;
        assert(kv_bytes_spec(tokens as int, head_dim as int) == th * 8) by (nonlinear_arith)
            requires
                th == tokens as int * head_dim as int,
        ;
    }
    both
}

/// Checked row range `[row * width, row * width + width)` inside a row-major
/// matrix of `total_len` elements.
pub fn checked_row_range(name: &'static str, row: usize, width: usize, total_len: usize) -> (res:
    Result<Range<usize>>)
    ensures
        row * width + width <= usize::MAX && row * width + width <= total_len ==> res == Ok::<
            Range<usize>,
            CfrError,
        >(Range { start: (row * width) as usize, end: (row * width + width) as usize }),
        row * width + width > usize::MAX ==> res == Err::<Range<usize>, CfrError>(
            CfrError::CapacityOverflow { name },
        ),
        row * width + width <= usize::MAX && row * width + width > total_len ==> res == Err::<
            Range<usize>,
            CfrError,
        >(CfrError::Dimension { name, expected: (row * width + width) as usize, got: total_len }),
{
    proof {
        assert(row * width >= 0) by (nonlinear_arith)
            requires
                row >= 0,
                width >= 0,
        ;
    }
    let start = checked_matrix_len(name, row, width)?;
    let end = checked_add(name, start, width)?;
    if end > total_len {
        return Err(CfrError::Dimension { name, expected: end, got: total_len });
    }
    Ok(start..end)
}

/// Converts `usize` to `u64`; every `usize` fits on the supported targets.
pub fn usize_to_u64_saturating(value: usize) -> (res: u64)
    ensures
        res == value,
{
    value as u64
}

/// Validates that every bit pattern in a slice encodes a finite `f32`.
pub fn expect_all_finite_bits(name: &'static str, values: &[u32]) -> (res: Result<()>)
    ensures
        res is Ok <==> all_finite_bits(values@),
        res is Err ==> res == Err::<(), CfrError>(CfrError::Numeric(name)),
{
    let mut i: usize = 0;
    while i < values.len()
        invariant
            0 <= i <= values.len(),
            forall|j: int| 0 <= j < i ==> #[trigger] is_finite_bits(values@[j]),
        decreases values.len() - i,
    {
        if values[i] & F32_EXPONENT_MASK == F32_EXPONENT_MASK {
            assert(!is_finite_bits(values@[i as int]));
            return Err(CfrError::Numeric(name));
        }
        i += 1;
    }
    Ok(())
}

/// Overwrites every element with zero, keeping the length.
pub fn wipe_words(values: &mut Vec<u32>)
    ensures
        final(values)@.len() == old(values)@.len(),
        forall|i: int| 0 <= i < final(values)@.len() ==> #[trigger] final(values)@[i] == 0,
{
    let mut i: usize = 0;
    while i < values.len()
        invariant
            0 <= i <= values.len(),
            values@.len() == old(values)@.len(),
            forall|j: int| 0 <= j < i ==> #[trigger] values@[j] == 0,
        decreases values.len() - i,
    {
        values.set(i, 0);
        i += 1;
    }
}

} // verus!
