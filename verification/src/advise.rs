//! Memory-advice requests: which byte range of a mapping an access-pattern
//! hint applies to.

use vstd::prelude::*;
use crate::errors::{Result, is_out_of_bounds};
use crate::mmap::MemoryMappedFile;
use crate::utils::slice_range;

verus! {

/// Memory access pattern advice for the OS.
#[derive(Debug, Clone, Copy, PartialEq, Eq, Structural)]
pub enum MmapAdvice {
    /// Normal access pattern (default).
    Normal,
    /// Random access pattern.
    Random,
    /// Sequential access pattern.
    Sequential,
    /// Will need this range soon.
    WillNeed,
    /// Won't need this range soon.
    DontNeed,
}

/// A byte range `[start, start + len)` of a mapping handed to a system call.
#[derive(Debug, Clone, Copy, PartialEq, Eq, Structural)]
pub struct MemoryRange {
    /// First byte of the range.
    pub start: usize,
    /// Number of bytes.
    pub len: usize,
}

/// An advice to give the OS for a range of a mapping.
#[derive(Debug, Clone, Copy, PartialEq, Eq, Structural)]
pub struct AdviceRequest {
    /// The range the advice applies to.
    pub range: MemoryRange,
    /// The advice.
    pub advice: MmapAdvice,
}

/// The range a request over `[offset, offset + len)` covers once it is
/// known to fit: nothing for an empty request, else the range itself.
pub open spec fn request_range(offset: u64, len: u64) -> Option<MemoryRange> {
    if len == 0 {
        None
    } else {
        Some(MemoryRange { start: offset as usize, len: len as usize })
    }
}

/// Check a range request against a mapping (see [`request_range`]).
pub fn checked_range(mmap: &MemoryMappedFile, offset: u64, len: u64) -> (r: Result<
    Option<MemoryRange>,
>)
    requires
        mmap.wf(),
    ensures
        r is Ok <==> len == 0 || offset + len <= mmap@.len(),
        r matches Ok(x) ==> x == request_range(offset, len),
        r matches Ok(Some(m)) ==> m.start == offset && m.len == len && m.start + m.len
            <= mmap@.len(),
        len > 0 && !(offset + len <= mmap@.len()) ==> (r matches Err(e) && is_out_of_bounds(
            e,
            offset,
            len,
            mmap@.len() as u64,
        )),
{
    if len == 0 {
        return Ok(None);
    }
    let total = mmap.current_len()?;
    let (start, end) = slice_range(offset, len, total)?;
    Ok(Some(MemoryRange { start, len: end - start }))
}

impl MemoryMappedFile {
    /// The advice request for `[offset, offset + len)`: `None` for an empty
    /// range (nothing to advise), `OutOfBounds` when the range exceeds the
    /// mapping.
    pub fn advise(&self, offset: u64, len: u64, advice: MmapAdvice) -> (r: Result<
        Option<AdviceRequest>,
    >)
        requires
            self.wf(),
        ensures
            r is Ok <==> len == 0 || offset + len <= self@.len(),
            r matches Ok(x) ==> x == (match request_range(offset, len) {
                Some(m) => Some(AdviceRequest { range: m, advice }),
                None => None,
            }),
            r matches Ok(Some(q)) ==> q.range.start + q.range.len <= self@.len(),
            len > 0 && !(offset + len <= self@.len()) ==> (r matches Err(e) && is_out_of_bounds(
                e,
                offset,
                len,
                self@.len() as u64,
            )),
    {
        match checked_range(self, offset, len)? {
            Some(range) => Ok(Some(AdviceRequest { range, advice })),
            None => Ok(None),
        }
    }
}

} // verus!
