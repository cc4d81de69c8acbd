//! Alignment, page size and range helpers.

use vstd::prelude::*;
use crate::errors::{MmapIoError, Result};

verus! {

/// Whether `x` is `2^k` for some `k`, as `u64::is_power_of_two` documents it.
pub open spec fn is_pow2(x: u64) -> bool {
    exists|k: u64| k < 64 && x == (1u64 << k)
}

/// `u64::is_power_of_two`: true if and only if the value is `2^k` for some `k`.
pub assume_specification[ u64::is_power_of_two ](x: u64) -> (r: bool)
    ensures
        r == is_pow2(x),
;

/// `u64::div_ceil`: the quotient rounded towards positive infinity; it
/// panics on a zero divisor.
pub assume_specification[ u64::div_ceil ](x: u64, rhs: u64) -> (r: u64)
    requires
        rhs != 0,
    ensures
        r == (x + rhs - 1) / (rhs as int),
;

/// `usize::div_ceil`: the quotient rounded towards positive infinity; it
/// panics on a zero divisor.
pub assume_specification[ usize::div_ceil ](x: usize, rhs: usize) -> (r: usize)
    requires
        rhs != 0,
    ensures
        r == (x + rhs - 1) / (rhs as int),
;

/// The least multiple of `alignment` that is at least `value` (`alignment > 0`).
pub open spec fn round_up(value: int, alignment: int) -> int {
    ((value + alignment - 1) / alignment) * alignment
}

/// The inputs on which [`align_up`] computes without overflowing `u64`.
pub open spec fn align_up_fits(value: u64, alignment: u64) -> bool {
    alignment == 0 || (if is_pow2(alignment) {
        value + alignment - 1 <= u64::MAX
    } else {
        round_up(value as int, alignment as int) <= u64::MAX
    })
}

/// What [`align_up`] returns.
pub open spec fn align_up_spec(value: u64, alignment: u64) -> int {
    if alignment == 0 {
        value as int
    } else {
        round_up(value as int, alignment as int)
    }
}

/// The system page size in bytes, as reported by the `page_size` crate
/// (which queries the platform once and caches the answer).
///
/// Nothing is stated of the value: it depends on the machine.
#[verifier::external_body]
pub fn page_size() -> usize {
    page_size::get()
}

proof fn lemma_pow2_mask(y: u64, a: u64, k: u64)
    requires
        k < 64,
        a == (1u64 << k),
    ensures
        (y & !((a - 1) as u64)) == y - y % a,
        a > 0,
{
    vstd::arithmetic::power2::lemma_pow2_pos(k as nat);
    vstd::bits::lemma_u64_pow2_no_overflow(k as nat);
    vstd::bits::lemma_u64_shl_is_mul(1, k);
    vstd::bits::lemma_u64_low_bits_mask_is_mod(y, k as nat);
    let m = (a - 1) as u64;
    assert(m == vstd::bits::low_bits_mask(k as nat) as u64);
    assert((y & !m) == y - (y & m)) by (bit_vector);
}

proof fn lemma_round_up_bounds(value: int, alignment: int)
    requires
        value >= 0,
        alignment > 0,
    ensures
        value <= round_up(value, alignment) < value + alignment,
        round_up(value, alignment) % alignment == 0,
        round_up(value, alignment) == (value + alignment - 1) - (value + alignment - 1) % alignment,
{
    let t = value + alignment - 1;
    assert(t == (t / alignment) * alignment + t % alignment) by (nonlinear_arith)
        requires
            alignment > 0,
    ;
    assert(0 <= t % alignment < alignment) by (nonlinear_arith)
        requires
            alignment > 0,
    ;
    assert(((t / alignment) * alignment) % alignment == 0) by (nonlinear_arith)
        requires
            alignment > 0,
    ;
}

/// Law: every value that leaves room for one alignment step can be
/// aligned up without overflow, and the result lies in
/// `[value, value + alignment)` on a multiple of `alignment`.
pub proof fn lemma_align_up_fits(value: u64, alignment: u64)
    requires
        alignment > 0,
        value + alignment - 1 <= u64::MAX,
    ensures
        align_up_fits(value, alignment),
        value <= align_up_spec(value, alignment) < value + alignment,
        align_up_spec(value, alignment) % (alignment as int) == 0,
{
    lemma_round_up_bounds(value as int, alignment as int);
}

/// Law: aligning up is idempotent: an aligned value stays where it is.
pub proof fn lemma_align_up_idempotent(value: u64, alignment: u64)
    requires
        alignment > 0,
        value + alignment - 1 <= u64::MAX,
    ensures
        round_up(align_up_spec(value, alignment), alignment as int) == align_up_spec(
            value,
            alignment,
        ),
{
    lemma_round_up_bounds(value as int, alignment as int);
    let r = align_up_spec(value, alignment);
    lemma_round_up_bounds(r, alignment as int);
    let t = r + alignment - 1;
    assert(t % (alignment as int) == alignment - 1) by (nonlinear_arith)
        requires
            r % (alignment as int) == 0,
            t == r + alignment - 1,
            alignment > 0,
            r >= 0,
    ;
}

/// Align a value up to the nearest multiple of `alignment`.
///
/// Returns the original value unchanged when `alignment == 0`.
pub fn align_up(value: u64, alignment: u64) -> (r: u64)
    requires
        align_up_fits(value, alignment),
    ensures
        r == align_up_spec(value, alignment),
{
    if alignment == 0 {
        return value;
    }
    if alignment.is_power_of_two() {
        let mask = alignment - 1;
        proof {
            let k = choose|k: u64| k < 64 && alignment == (1u64 << k);
            lemma_pow2_mask((value + mask) as u64, alignment, k);
            lemma_round_up_bounds(value as int, alignment as int);
        }
        (value + mask) & !mask
    } else {
        let q = value.div_ceil(alignment);
        proof {
            assert(q * alignment == round_up(value as int, alignment as int));
        }
        q * alignment
    }
}

/// Whether `[offset, offset + len)` lies within `[0, total)`: the end,
/// computed without overflow, is at most `total`.
pub open spec fn in_bounds(offset: u64, len: u64, total: u64) -> bool {
    offset + len <= total
}

/// Ensure the requested `[offset, offset+len)` range is within `[0, total)`.
/// Returns `Ok(())` if valid; otherwise an `OutOfBounds` error. A range
/// whose end does not fit in `u64` is out of bounds; nothing panics.
pub fn ensure_in_bounds(offset: u64, len: u64, total: u64) -> (r: Result<()>)
    ensures
        r is Ok <==> in_bounds(offset, len, total),
        r matches Err(e) ==> e == (MmapIoError::OutOfBounds { offset, len, total }),
{
    if offset > total {
        return Err(MmapIoError::OutOfBounds { offset, len, total });
    }
    match offset.checked_add(len) {
        Some(end) => {
            if end > total {
                return Err(MmapIoError::OutOfBounds { offset, len, total });
            }
            Ok(())
        },
        None => Err(MmapIoError::OutOfBounds { offset, len, total }),
    }
}

/// Compute a byte slice range for a given total length, returning
/// `(start, end)` as `usize` values.
///
/// The casts to `usize` truncate exactly as the `as` operator does; when
/// `total` fits in `usize` they are lossless.
pub fn slice_range(offset: u64, len: u64, total: u64) -> (r: Result<(usize, usize)>)
    ensures
        r is Ok <==> in_bounds(offset, len, total),
        r matches Err(e) ==> e == (MmapIoError::OutOfBounds { offset, len, total }),
        r matches Ok(p) ==> p == (offset as usize, (offset + len) as usize),
        r is Ok && total <= usize::MAX ==> r->Ok_0 == (offset as usize, (offset + len) as usize)
            && r->Ok_0.0 == offset && r->Ok_0.1 == offset + len,
{
    ensure_in_bounds(offset, len, total)?;
    let start = offset as usize;
    let end = (offset + len) as usize;
    Ok((start, end))
}

} // verus!
