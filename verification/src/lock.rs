//! Memory locking requests: which byte range of a mapping to lock in RAM or
//! to unlock.

use vstd::prelude::*;
use crate::advise::{MemoryRange, checked_range, request_range};
use crate::errors::{Result, is_out_of_bounds};
use crate::mmap::MemoryMappedFile;

verus! {

impl MemoryMappedFile {
    /// The range to lock for `[offset, offset + len)`: `None` for an empty
    /// range, `OutOfBounds` when the range exceeds the mapping.
    pub fn lock(&self, offset: u64, len: u64) -> (r: Result<Option<MemoryRange>>)
        requires
            self.wf(),
        ensures
            r is Ok <==> len == 0 || offset + len <= self@.len(),
            r matches Ok(x) ==> x == request_range(offset, len),
            r matches Ok(Some(m)) ==> m.start + m.len <= self@.len(),
            len > 0 && !(offset + len <= self@.len()) ==> (r matches Err(e) && is_out_of_bounds(
                e,
                offset,
                len,
                self@.len() as u64,
            )),
    {
        checked_range(self, offset, len)
    }

    /// The range to unlock for `[offset, offset + len)`: `None` for an empty
    /// range, `OutOfBounds` when the range exceeds the mapping.
    pub fn unlock(&self, offset: u64, len: u64) -> (r: Result<Option<MemoryRange>>)
        requires
            self.wf(),
        ensures
            r is Ok <==> len == 0 || offset + len <= self@.len(),
            r matches Ok(x) ==> x == request_range(offset, len),
            r matches Ok(Some(m)) ==> m.start + m.len <= self@.len(),
            len > 0 && !(offset + len <= self@.len()) ==> (r matches Err(e) && is_out_of_bounds(
                e,
                offset,
                len,
                self@.len() as u64,
            )),
    {
        checked_range(self, offset, len)
    }

    /// The range to lock for the whole mapping (`None` when it is empty).
    pub fn lock_all(&self) -> (r: Result<Option<MemoryRange>>)
        requires
            self.wf(),
        ensures
            r == Ok::<Option<MemoryRange>, crate::errors::MmapIoError>(
                request_range(0, self@.len() as u64),
            ),
    {
        let len = self.current_len()?;
        self.lock(0, len)
    }

    /// The range to unlock for the whole mapping (`None` when it is empty).
    pub fn unlock_all(&self) -> (r: Result<Option<MemoryRange>>)
        requires
            self.wf(),
        ensures
            r == Ok::<Option<MemoryRange>, crate::errors::MmapIoError>(
                request_range(0, self@.len() as u64),
            ),
    {
        let len = self.current_len()?;
        self.unlock(0, len)
    }
}

} // verus!
