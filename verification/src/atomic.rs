//! Placement checks for atomic views into a mapping.
//!
//! An atomic view reinterprets aligned bytes of the mapping as `AtomicU64`
//! or `AtomicU32` values. The checks below decide whether (and where) such
//! a view may be placed; forming the view from the mapping's base address
//! is left to the caller.

use vstd::prelude::*;
use crate::errors::{MmapIoError, Result};
use crate::mmap::MemoryMappedFile;

verus! {

/// `u64::saturating_mul`: the product, saturating at `u64::MAX` instead of
/// overflowing.
pub assume_specification[ u64::saturating_mul ](x: u64, y: u64) -> (r: u64)
    ensures
        r == (if x * y > u64::MAX {
            u64::MAX
        } else {
            (x * y) as u64
        }),
;

/// Alignment (and size) of `AtomicU64`.
pub const ATOMIC_U64_ALIGN: u64 = 8;

/// Alignment (and size) of `AtomicU32`.
pub const ATOMIC_U32_ALIGN: u64 = 4;

/// Bytes covered by `count` elements of `size` bytes, saturating at
/// `u64::MAX`.
pub open spec fn span_bytes(size: u64, count: u64) -> u64 {
    if size * count > u64::MAX {
        u64::MAX
    } else {
        (size * count) as u64
    }
}

/// The outcome of placing `count` elements of `size` bytes aligned to
/// `align` at `offset` in a mapping of `total` bytes: the byte offset of the
/// view, a `Misaligned` error for an unaligned offset, or an `OutOfBounds`
/// error when the elements do not all lie within the mapping.
pub open spec fn placement(offset: u64, align: u64, size: u64, count: u64, total: u64) -> Result<
    usize,
> {
    if offset % align != 0 {
        Err(MmapIoError::Misaligned { required: align, offset })
    } else if offset + span_bytes(size, count) > total {
        Err(MmapIoError::OutOfBounds { offset, len: span_bytes(size, count), total })
    } else {
        Ok(offset as usize)
    }
}

/// Check the placement of an atomic view (see [`placement`]).
pub fn check_placement(offset: u64, align: u64, size: u64, count: u64, total: u64) -> (r: Result<
    usize,
>)
    requires
        align > 0,
        total <= isize::MAX,
    ensures
        r == placement(offset, align, size, count, total),
        r matches Ok(o) ==> o == offset && offset + span_bytes(size, count) <= total,
{
    if offset % align != 0 {
        return Err(MmapIoError::Misaligned { required: align, offset });
    }
    let total_size = size.saturating_mul(count);
    if offset.saturating_add(total_size) > total {
        return Err(MmapIoError::OutOfBounds { offset, len: total_size, total });
    }
    Ok(offset as usize)
}

impl MemoryMappedFile {
    /// Where an atomic `u64` view at `offset` lies: the offset must be
    /// 8-byte aligned and the 8 bytes must lie within the mapping.
    pub fn atomic_u64(&self, offset: u64) -> (r: Result<usize>)
        requires
            self.wf(),
        ensures
            r == placement(offset, ATOMIC_U64_ALIGN, 8, 1, self@.len() as u64),
    {
        let total = self.len();
        check_placement(offset, ATOMIC_U64_ALIGN, 8, 1, total)
    }

    /// Where an atomic `u32` view at `offset` lies: the offset must be
    /// 4-byte aligned and the 4 bytes must lie within the mapping.
    pub fn atomic_u32(&self, offset: u64) -> (r: Result<usize>)
        requires
            self.wf(),
        ensures
            r == placement(offset, ATOMIC_U32_ALIGN, 4, 1, self@.len() as u64),
    {
        let total = self.len();
        check_placement(offset, ATOMIC_U32_ALIGN, 4, 1, total)
    }

    /// Where a view of `count` atomic `u64` values at `offset` lies.
    pub fn atomic_u64_slice(&self, offset: u64, count: usize) -> (r: Result<usize>)
        requires
            self.wf(),
        ensures
            r == placement(offset, ATOMIC_U64_ALIGN, 8, count as u64, self@.len() as u64),
    {
        let total = self.len();
        check_placement(offset, ATOMIC_U64_ALIGN, 8, count as u64, total)
    }

    /// Where a view of `count` atomic `u32` values at `offset` lies.
    pub fn atomic_u32_slice(&self, offset: u64, count: usize) -> (r: Result<usize>)
        requires
            self.wf(),
        ensures
            r == placement(offset, ATOMIC_U32_ALIGN, 4, count as u64, self@.len() as u64),
    {
        let total = self.len();
        check_placement(offset, ATOMIC_U32_ALIGN, 4, count as u64, total)
    }
}

/// Law: a placed view in a mapping (at most `isize::MAX` bytes) is
/// aligned for its element type and every element lies within the mapping;
/// element `i` starts at the view's offset plus `i` element sizes, so it is
/// aligned too.
pub proof fn lemma_placement_sound(offset: u64, align: u64, count: u64, total: u64, i: u64)
    requires
        align == ATOMIC_U64_ALIGN || align == ATOMIC_U32_ALIGN,
        total <= isize::MAX,
        placement(offset, align, align, count, total) is Ok,
        i < count,
    ensures
        offset % align == 0,
        (offset + i * align) % (align as int) == 0,
        offset + (i + 1) * align <= total,
{
    if align == 8 {
        assert(span_bytes(8, count) == 8 * count);
        assert((offset + i * 8) % 8 == 0) by (nonlinear_arith)
            requires
                offset % 8 == 0,
        ;
    } else {
        assert(span_bytes(4, count) == 4 * count);
        assert((offset + i * 4) % 4 == 0) by (nonlinear_arith)
            requires
                offset % 4 == 0,
        ;
    }
}

/// Law: a view is placed exactly when it is aligned and all its bytes lie
/// within the mapping. An aligned view of `count` elements of `size` bytes
/// whose end `offset + size * count` is at most `total` is accepted at
/// `offset` (a view ending exactly at the end of the mapping included); an
/// unaligned offset is `Misaligned`; an aligned view that runs past the end
/// is `OutOfBounds`. (A mapping never holds more than `isize::MAX`
/// bytes.)
pub proof fn lemma_placement_iff_fits(offset: u64, align: u64, size: u64, count: u64, total: u64)
    requires
        align > 0,
        total <= isize::MAX,
    ensures
        offset % align == 0 && offset + size * count <= total ==> placement(
            offset,
            align,
            size,
            count,
            total,
        ) == Ok::<usize, MmapIoError>(offset as usize),
        offset % align != 0 ==> placement(offset, align, size, count, total) == Err::<
            usize,
            MmapIoError,
        >(MmapIoError::Misaligned { required: align, offset }),
        offset % align == 0 && offset + size * count > total ==> (placement(
            offset,
            align,
            size,
            count,
            total,
        ) matches Err(MmapIoError::OutOfBounds { offset: o, len: _, total: t }) && o == offset
            && t == total),
        placement(offset, align, size, count, total) is Ok <==> (offset % align == 0 && offset
            + size * count <= total),
{
    if size * count > u64::MAX {
        assert(offset + span_bytes(size, count) >= u64::MAX);
    }
}

} // verus!
