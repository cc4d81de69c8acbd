//! Segment views: bookmarks of a region of a mapping, validated against the
//! mapping's current length at construction and again at every access.

use vstd::prelude::*;
use crate::errors::{MmapIoError, Result, is_invalid_mode, is_out_of_bounds};
use crate::flush::after_write;
use crate::mmap::{FlushAction, MemoryMappedFile, MmapMode, overwrite};
use crate::utils::{ensure_in_bounds, slice_range};

verus! {

/// Immutable view of `[offset, offset + len)` of a mapping.
///
/// The segment stores only its range; every access takes the mapping and
/// re-checks the range against its current length, because the mapping
/// can be resized between construction and use.
#[derive(Clone, Copy, Debug)]
pub struct Segment {
    offset: u64,
    len: u64,
}

/// Mutable view of `[offset, offset + len)` of a mapping; see [`Segment`].
#[derive(Clone, Copy, Debug)]
pub struct SegmentMut {
    offset: u64,
    len: u64,
}

impl Segment {
    /// The segment's offset in the file.
    pub closed spec fn spec_offset(&self) -> u64 {
        self.offset
    }

    /// The segment's length.
    pub closed spec fn spec_len(&self) -> u64 {
        self.len
    }

    /// Create a segment of `parent`; the range must lie within the
    /// parent's current length.
    pub fn new(parent: &MemoryMappedFile, offset: u64, len: u64) -> (r: Result<Self>)
        requires
            parent.wf(),
        ensures
            r is Ok <==> offset + len <= parent@.len(),
            r matches Ok(s) ==> s.spec_offset() == offset && s.spec_len() == len,
            r matches Err(e) ==> is_out_of_bounds(e, offset, len, parent@.len() as u64),
    {
        let total = parent.current_len()?;
        let _ = slice_range(offset, len, total)?;
        Ok(Segment { offset, len })
    }

    /// The segment's bytes in `parent`, re-validated against its current
    /// length.
    pub fn as_slice<'a>(&self, parent: &'a MemoryMappedFile) -> (r: Result<&'a [u8]>)
        requires
            parent.wf(),
        ensures
            r is Ok <==> self.spec_offset() + self.spec_len() <= parent@.len(),
            r matches Ok(s) ==> s@ == parent@.subrange(
                self.spec_offset() as int,
                self.spec_offset() + self.spec_len(),
            ),
            r matches Err(e) ==> is_out_of_bounds(
                e,
                self.spec_offset(),
                self.spec_len(),
                parent@.len() as u64,
            ),
    {
        parent.as_slice(self.offset, self.len)
    }

    /// Length of the segment.
    pub fn len(&self) -> (r: u64)
        ensures
            r == self.spec_len(),
    {
        self.len
    }

    /// Check if the segment is empty.
    pub fn is_empty(&self) -> (r: bool)
        ensures
            r == (self.spec_len() == 0),
    {
        self.len == 0
    }

    /// Offset of the segment in the file.
    pub fn offset(&self) -> (r: u64)
        ensures
            r == self.spec_offset(),
    {
        self.offset
    }

    /// Whether the segment's range lies within `parent`'s current length.
    pub fn is_valid(&self, parent: &MemoryMappedFile) -> (r: bool)
        requires
            parent.wf(),
        ensures
            r == (self.spec_offset() + self.spec_len() <= parent@.len()),
    {
        match parent.current_len() {
            Ok(total) => ensure_in_bounds(self.offset, self.len, total).is_ok(),
            Err(_) => false,
        }
    }
}

impl SegmentMut {
    /// The segment's offset in the file.
    pub closed spec fn spec_offset(&self) -> u64 {
        self.offset
    }

    /// The segment's length.
    pub closed spec fn spec_len(&self) -> u64 {
        self.len
    }

    /// Create a mutable segment of `parent`; the range must lie within the
    /// parent's current length.
    pub fn new(parent: &MemoryMappedFile, offset: u64, len: u64) -> (r: Result<Self>)
        requires
            parent.wf(),
        ensures
            r is Ok <==> offset + len <= parent@.len(),
            r matches Ok(s) ==> s.spec_offset() == offset && s.spec_len() == len,
            r matches Err(e) ==> is_out_of_bounds(e, offset, len, parent@.len() as u64),
    {
        let total = parent.current_len()?;
        let _ = slice_range(offset, len, total)?;
        Ok(SegmentMut { offset, len })
    }

    /// Mutable access to the segment's bytes in `parent` (read-write mode),
    /// re-validated against its current length.
    pub fn as_slice_mut<'a>(&self, parent: &'a mut MemoryMappedFile) -> (r: Result<&'a mut [u8]>)
        requires
            old(parent).wf(),
        ensures
            final(parent).wf(),
            r is Ok <==> self.spec_offset() + self.spec_len() <= old(parent)@.len() && old(parent).spec_mode() == MmapMode::ReadWrite,
            !(self.spec_offset() + self.spec_len() <= old(parent)@.len()) ==> (r matches Err(e)
                && is_out_of_bounds(
                e,
                self.spec_offset(),
                self.spec_len(),
                old(parent)@.len() as u64,
            )),
            self.spec_offset() + self.spec_len() <= old(parent)@.len() && old(parent).spec_mode()
                == MmapMode::ReadOnly ==> (r matches Err(e) && is_invalid_mode(
                e,
                "mutable access on read-only mapping"@,
            )),
            self.spec_offset() + self.spec_len() <= old(parent)@.len() && old(parent).spec_mode()
                == MmapMode::CopyOnWrite ==> (r matches Err(e) && is_invalid_mode(
                e,
                "mutable access on copy-on-write mapping (phase-1 read-only)"@,
            )),
            r is Err ==> *final(parent) == *old(parent),
            r matches Ok(w) ==> w@ == old(parent)@.subrange(
                self.spec_offset() as int,
                self.spec_offset() + self.spec_len(),
            ) && final(w)@.len() == self.spec_len() && final(parent)@ == old(parent)@.take(self.spec_offset() as int) + final(w)@
                + old(parent)@.skip(self.spec_offset() + self.spec_len()),
    {
        parent.as_slice_mut(self.offset, self.len)
    }

    /// Write `data` into the parent at the segment's offset. The write is
    /// checked against the parent's current length only (it may run past
    /// the segment's own length, as a partial-range write would).
    pub fn write(&self, parent: &mut MemoryMappedFile, data: &[u8]) -> (r: Result<FlushAction>)
        requires
            old(parent).wf(),
        ensures
            final(parent).wf(),
            r is Ok <==> data@.len() == 0 || (old(parent).spec_mode() == MmapMode::ReadWrite
                && self.spec_offset() + data@.len() <= old(parent)@.len()),
            r is Err ==> *final(parent) == *old(parent),
            data@.len() > 0 && old(parent).spec_mode() == MmapMode::ReadWrite && !(
            self.spec_offset() + data@.len() <= old(parent)@.len()) ==> (r matches Err(e)
                && is_out_of_bounds(
                e,
                self.spec_offset(),
                data@.len() as u64,
                old(parent)@.len() as u64,
            )),
            data@.len() > 0 && old(parent).spec_mode() != MmapMode::ReadWrite ==> (r matches Err(e)
                && is_invalid_mode(e, "Update region requires ReadWrite mode."@)),
            data@.len() == 0 ==> r == Ok::<FlushAction, MmapIoError>(FlushAction::Skip)
                && *final(parent) == *old(parent),
            r is Ok && data@.len() > 0 ==> final(parent)@ == overwrite(
                old(parent)@,
                self.spec_offset() as int,
                data@,
            ) && final(parent).spec_pending() == after_write(
                old(parent).spec_policy(),
                old(parent).spec_pending(),
                data@.len() as u64,
            ).0 && r == Ok::<FlushAction, MmapIoError>(
                if after_write(
                    old(parent).spec_policy(),
                    old(parent).spec_pending(),
                    data@.len() as u64,
                ).1 {
                    FlushAction::Full
                } else {
                    FlushAction::Skip
                },
            ),
    {
        parent.update_region(self.offset, data)
    }

    /// Length of the segment.
    pub fn len(&self) -> (r: u64)
        ensures
            r == self.spec_len(),
    {
        self.len
    }

    /// Check if the segment is empty.
    pub fn is_empty(&self) -> (r: bool)
        ensures
            r == (self.spec_len() == 0),
    {
        self.len == 0
    }

    /// Offset of the segment in the file.
    pub fn offset(&self) -> (r: u64)
        ensures
            r == self.spec_offset(),
    {
        self.offset
    }

    /// Whether the segment's range lies within `parent`'s current length.
    pub fn is_valid(&self, parent: &MemoryMappedFile) -> (r: bool)
        requires
            parent.wf(),
        ensures
            r == (self.spec_offset() + self.spec_len() <= parent@.len()),
    {
        match parent.current_len() {
            Ok(total) => ensure_in_bounds(self.offset, self.len, total).is_ok(),
            Err(_) => false,
        }
    }
}

impl Segment {
    /// Whether the segment's range lies within a mapping of `total` bytes.
    pub open spec fn fits(&self, total: nat) -> bool {
        self.spec_offset() + self.spec_len() <= total
    }
}

/// Law: validity follows the parent's current length. A segment that was
/// valid stays valid when the parent grows, and is invalid (its accesses
/// answer `OutOfBounds`) once the parent shrinks below the segment's end.
pub proof fn lemma_segment_validity_follows_resize(
    seg: Segment,
    before: MemoryMappedFile,
    after: MemoryMappedFile,
)
    requires
        before.wf(),
        after.wf(),
        seg.fits(before@.len()),
    ensures
        after@.len() >= before@.len() ==> seg.fits(after@.len()),
        after@.len() < seg.spec_offset() + seg.spec_len() ==> !seg.fits(after@.len()),
{
}

} // verus!
