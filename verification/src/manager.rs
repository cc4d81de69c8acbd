//! High-level convenience functions over a mapping.

use vstd::prelude::*;
use crate::errors::{MmapIoError, Result, is_invalid_mode, is_out_of_bounds};
use crate::flush::after_write;
use crate::mmap::{FlushAction, MemoryMappedFile, MmapMode, overwrite};

verus! {

/// Update a region in an existing mapping (read-write); see
/// [`MemoryMappedFile::update_region`].
pub fn update_region(mmap: &mut MemoryMappedFile, offset: u64, data: &[u8]) -> (r: Result<
    FlushAction,
>)
    requires
        old(mmap).wf(),
    ensures
        final(mmap).wf(),
        final(mmap).spec_mode() == old(mmap).spec_mode(),
        final(mmap).spec_policy() == old(mmap).spec_policy(),
        r is Ok <==> data@.len() == 0 || (old(mmap).spec_mode() == MmapMode::ReadWrite && offset
            + data@.len() <= old(mmap)@.len()),
        r is Err ==> *final(mmap) == *old(mmap),
        data@.len() == 0 ==> r == Ok::<FlushAction, MmapIoError>(FlushAction::Skip)
            && *final(mmap) == *old(mmap),
        data@.len() > 0 && old(mmap).spec_mode() != MmapMode::ReadWrite ==> (r matches Err(e)
            && is_invalid_mode(e, "Update region requires ReadWrite mode."@)),
        data@.len() > 0 && old(mmap).spec_mode() == MmapMode::ReadWrite && !(offset
            + data@.len() <= old(mmap)@.len()) ==> (r matches Err(e) && is_out_of_bounds(
            e,
            offset,
            data@.len() as u64,
            old(mmap)@.len() as u64,
        )),
        r is Ok && data@.len() > 0 ==> final(mmap)@ == overwrite(old(mmap)@, offset as int, data@)
            && final(mmap).spec_pending() == after_write(
            old(mmap).spec_policy(),
            old(mmap).spec_pending(),
            data@.len() as u64,
        ).0 && r == Ok::<FlushAction, MmapIoError>(
            if after_write(old(mmap).spec_policy(), old(mmap).spec_pending(), data@.len() as u64).1 {
                FlushAction::Full
            } else {
                FlushAction::Skip
            },
        ),
{
    mmap.update_region(offset, data)
}

/// What flushing an existing mapping asks for; see
/// [`MemoryMappedFile::flush`].
pub fn flush(mmap: &MemoryMappedFile) -> (r: FlushAction)
    requires
        mmap.wf(),
    ensures
        r == (if mmap.spec_mode() == MmapMode::ReadWrite && mmap.spec_needs_sync() {
            FlushAction::Full
        } else {
            FlushAction::Skip
        }),
{
    mmap.flush()
}

} // verus!
