//! The mapping: access mode, bytes, bounds-checked reads and writes, and the
//! decisions of flushing, resizing and page touching.

use vstd::prelude::*;
use memmap2::{Mmap, MmapMut};
use crate::errors::{
    MmapIoError, Result, decimal, is_invalid_mode, is_out_of_bounds, is_resize_failed,
    push_decimal,
};
use crate::flush::{FlushPolicy, after_write, apply_flush_policy};
use crate::utils::{
    align_up, align_up_spec, ensure_in_bounds, in_bounds, page_size, slice_range,
};

verus! {

#[verifier::external_type_specification]
#[verifier::external_body]
pub struct ExMmap(Mmap);

#[verifier::external_type_specification]
#[verifier::external_body]
pub struct ExMmapMut(MmapMut);

/// The bytes a read-only (or copy-on-write) map shows, in address order.
pub uninterp spec fn mmap_bytes(map: Mmap) -> Seq<u8>;

/// The bytes a writable map holds, in address order.
pub uninterp spec fn mmap_mut_bytes(map: MmapMut) -> Seq<u8>;

/// `<Mmap as Deref>::deref`: the mapped bytes as a slice. A Rust slice
/// never spans more than `isize::MAX` bytes.
///
/// The contract takes the bytes behind one map value to stay the same while
/// the value lives: no other process and no other mapping of the same file
/// writes them meanwhile (writes from outside the process are out of scope).
#[verifier::external_body]
fn ro_slice(map: &Mmap) -> (r: &[u8])
    ensures
        r@ == mmap_bytes(*map),
        r@.len() <= isize::MAX,
{
    &map[..]
}

/// `<MmapMut as Deref>::deref`: the mapped bytes as a slice (same
/// assumption as for read-only maps).
#[verifier::external_body]
fn rw_slice(map: &MmapMut) -> (r: &[u8])
    ensures
        r@ == mmap_mut_bytes(*map),
        r@.len() <= isize::MAX,
{
    &map[..]
}

/// `<MmapMut as DerefMut>::deref_mut`: the mapped bytes as a mutable slice;
/// what is written through it is what the map holds afterwards, and the
/// length of a map never changes.
#[verifier::external_body]
fn rw_slice_mut(map: &mut MmapMut) -> (r: &mut [u8])
    ensures
        r@ == mmap_mut_bytes(*old(map)),
        mmap_mut_bytes(*final(map)) == final(r)@,
        mmap_mut_bytes(*final(map)).len() == mmap_mut_bytes(*old(map)).len(),
{
    &mut map[..]
}

/// `core::hint::black_box`: keeps a read byte from being optimised away.
#[verifier::external_body]
fn keep_read(byte: u8) {
    core::hint::black_box(byte);
}

/// Hint for when to touch (prewarm) memory pages during mapping creation.
#[derive(Debug, Clone, Copy, PartialEq, Eq, Structural)]
pub enum TouchHint {
    /// Don't touch pages during creation (default).
    Never,
    /// Eagerly touch all pages during creation to prewarm page tables
    /// and improve first-access latency.
    Eager,
    /// Touch pages lazily on first access (same as Never for now).
    Lazy,
}

impl Default for TouchHint {
    fn default() -> (r: Self)
        ensures
            r == TouchHint::Never,
    {
        TouchHint::Never
    }
}

/// Access mode for a memory-mapped file.
#[derive(Debug, Clone, Copy, PartialEq, Eq, Structural)]
pub enum MmapMode {
    /// Read-only mapping.
    ReadOnly,
    /// Read-write mapping.
    ReadWrite,
    /// Copy-on-Write mapping (private). Writes affect this mapping only; the
    /// underlying file remains unchanged.
    CopyOnWrite,
}

/// The mapping itself: read-only, read-write, or private copy-on-write.
pub enum MapVariant {
    /// Read-only mapping.
    Ro(Mmap),
    /// Read-write mapping.
    Rw(MmapMut),
    /// Private, per-process copy-on-write mapping. Underlying file is not
    /// modified by writes.
    Cow(Mmap),
}

/// The bytes a mapping holds.
pub open spec fn content(map: MapVariant) -> Seq<u8> {
    match map {
        MapVariant::Ro(m) => mmap_bytes(m),
        MapVariant::Rw(m) => mmap_mut_bytes(m),
        MapVariant::Cow(m) => mmap_bytes(m),
    }
}

/// The mode a mapping variant is opened in.
pub open spec fn variant_mode(map: MapVariant) -> MmapMode {
    match map {
        MapVariant::Ro(_) => MmapMode::ReadOnly,
        MapVariant::Rw(_) => MmapMode::ReadWrite,
        MapVariant::Cow(_) => MmapMode::CopyOnWrite,
    }
}

fn map_bytes(map: &MapVariant) -> (r: &[u8])
    ensures
        r@ == content(*map),
        r@.len() <= isize::MAX,
{
    match map {
        MapVariant::Ro(m) => ro_slice(m),
        MapVariant::Rw(m) => rw_slice(m),
        MapVariant::Cow(m) => ro_slice(m),
    }
}

/// `s` with `data` written over it from `offset` on.
pub open spec fn overwrite(s: Seq<u8>, offset: int, data: Seq<u8>) -> Seq<u8> {
    s.take(offset) + data + s.skip(offset + data.len())
}

/// Law (read after write): after writing `data` at `offset`, the range
/// reads back exactly `data`, every other byte reads as before, and the
/// length is unchanged.
pub proof fn lemma_read_after_write(before: Seq<u8>, offset: int, data: Seq<u8>)
    requires
        0 <= offset,
        offset + data.len() <= before.len(),
    ensures
        overwrite(before, offset, data).len() == before.len(),
        overwrite(before, offset, data).subrange(offset, offset + data.len()) == data,
        forall|i: int|
            0 <= i < before.len() && !(offset <= i < offset + data.len()) ==> #[trigger] overwrite(
                before,
                offset,
                data,
            )[i] == before[i],
{
    assert(overwrite(before, offset, data).subrange(offset, offset + data.len()) =~= data);
}

/// Law (last write wins): writing the same range twice leaves what the
/// second write wrote.
pub proof fn lemma_last_write_wins(before: Seq<u8>, offset: int, first: Seq<u8>, second: Seq<u8>)
    requires
        0 <= offset,
        first.len() == second.len(),
        offset + first.len() <= before.len(),
    ensures
        overwrite(overwrite(before, offset, first), offset, second) == overwrite(
            before,
            offset,
            second,
        ),
{
    assert(overwrite(overwrite(before, offset, first), offset, second) =~= overwrite(
        before,
        offset,
        second,
    ));
}

/// Law (disjoint writes commute): two writes to non-overlapping ranges
/// give the same bytes in either order.
pub proof fn lemma_disjoint_writes_commute(
    before: Seq<u8>,
    o1: int,
    d1: Seq<u8>,
    o2: int,
    d2: Seq<u8>,
)
    requires
        0 <= o1,
        0 <= o2,
        o1 + d1.len() <= before.len(),
        o2 + d2.len() <= before.len(),
        o1 + d1.len() <= o2 || o2 + d2.len() <= o1,
    ensures
        overwrite(overwrite(before, o1, d1), o2, d2) == overwrite(overwrite(before, o2, d2), o1, d1),
{
    let a = overwrite(overwrite(before, o1, d1), o2, d2);
    let b = overwrite(overwrite(before, o2, d2), o1, d1);
    assert(a.len() == b.len());
    assert forall|i: int| 0 <= i < a.len() implies a[i] == b[i] by {
        if o1 <= i < o1 + d1.len() {
        } else if o2 <= i < o2 + d2.len() {
        } else {
        }
    }
    assert(a =~= b);
}

fn write_into(map: &mut MapVariant, offset: usize, data: &[u8])
    requires
        *old(map) is Rw,
        offset + data@.len() <= content(*old(map)).len(),
        content(*old(map)).len() <= isize::MAX,
    ensures
        *final(map) is Rw,
        content(*final(map)) == overwrite(content(*old(map)), offset as int, data@),
{
    match map {
        MapVariant::Rw(m) => {
            let s = rw_slice_mut(m);
            let ghost s0 = s@;
            let mut i: usize = 0;
            while i < data.len()
                invariant
                    i <= data@.len(),
                    offset + data@.len() <= s0.len(),
                    s0.len() <= isize::MAX,
                    s@.len() == s0.len(),
                    forall|k: int| 0 <= k < offset ==> s@[k] == s0[k],
                    forall|k: int| offset + i <= k < s0.len() ==> s@[k] == s0[k],
                    forall|k: int| 0 <= k < i ==> s@[offset + k] == data@[k],
                decreases data@.len() - i,
            {
                s[offset + i] = data[i];
                i = i + 1;
            }
            assert(s@ =~= overwrite(s0, offset as int, data@));
        },
        _ => {},
    }
}

fn window_mut(map: &mut MapVariant, start: usize, end: usize) -> (r: &mut [u8])
    requires
        *old(map) is Rw,
        start <= end <= content(*old(map)).len(),
    ensures
        r@ == content(*old(map)).subrange(start as int, end as int),
        *final(map) is Rw,
        content(*final(map)) == content(*old(map)).take(start as int) + final(r)@ + content(
            *old(map),
        ).skip(end as int),
        final(r)@.len() == end - start,
{
    match map {
        MapVariant::Rw(m) => {
            let all = rw_slice_mut(m);
            let (_head, tail) = all.split_at_mut(start);
            let (mid, _rest) = tail.split_at_mut(end - start);
            mid
        },
        _ => vstd::pervasive::unreached(),
    }
}

/// The window a range flush of `[start, end)` covers in a file of
/// `file_len` bytes with pages of `page_sz` bytes: a range shorter than a
/// page is widened to whole pages (cut at the end of the file), a longer
/// one is flushed as it is.
pub open spec fn flush_window_spec(start: usize, end: usize, file_len: usize, page_sz: usize) -> (usize, usize) {
    if end - start < page_sz {
        let aligned_start = (start / page_sz) * page_sz;
        let aligned_end = align_up_spec(end as u64, page_sz as u64) as usize;
        let bounded_end = if aligned_end < file_len {
            aligned_end
        } else {
            file_len
        };
        (
            aligned_start as usize,
            if bounded_end >= aligned_start {
                (bounded_end - aligned_start) as usize
            } else {
                0
            },
        )
    } else {
        (start, (end - start) as usize)
    }
}

/// Compute the window a range flush covers (see [`flush_window_spec`]).
/// When no value exceeds `usize` the window starts at or before `start`
/// on a page boundary, covers `[start, end)`, and stays within the file.
pub fn flush_window(start: usize, end: usize, file_len: usize, page_sz: usize) -> (r: (usize, usize))
    requires
        start <= end <= file_len,
        page_sz > 0,
        end + page_sz - 1 <= u64::MAX,
    ensures
        r == flush_window_spec(start, end, file_len, page_sz),
        end + page_sz - 1 <= usize::MAX ==> r.0 <= start && r.0 + r.1 >= end && r.0 + r.1
            <= file_len,
        end - start < page_sz ==> r.0 % page_sz == 0,
{
    let range_len = end - start;
    if range_len < page_sz {
        proof {
            assert((start / page_sz) * page_sz <= start) by (nonlinear_arith)
                requires
                    page_sz > 0,
            ;
        }
        let aligned_start = (start / page_sz) * page_sz;
        proof {
            assert(aligned_start <= start && start - aligned_start < page_sz) by (nonlinear_arith)
                requires
                    aligned_start == (start / page_sz) * page_sz,
                    page_sz > 0,
            ;
            assert(aligned_start % page_sz == 0) by (nonlinear_arith)
                requires
                    aligned_start == (start / page_sz) * page_sz,
                    page_sz > 0,
            ;
            lemma_round_up_ge(end as int, page_sz as int);
            crate::utils::lemma_align_up_fits(end as u64, page_sz as u64);
        }
        let aligned_end = align_up(end as u64, page_sz as u64) as usize;
        let bounded_end = if aligned_end < file_len {
            aligned_end
        } else {
            file_len
        };
        (aligned_start, bounded_end.saturating_sub(aligned_start))
    } else {
        (start, range_len)
    }
}

/// The window a range flush of `[start, end)` covers in a file of
/// `file_len` bytes with pages of `page_sz` bytes: [`flush_window_spec`]
/// when the page size is positive and aligning `end` up to it cannot
/// overflow, the range itself otherwise.
pub open spec fn range_window(start: usize, end: usize, file_len: usize, page_sz: usize) -> (
    usize,
    usize,
) {
    if page_sz > 0 && end + page_sz - 1 <= usize::MAX {
        flush_window_spec(start, end, file_len, page_sz)
    } else {
        (start, (end - start) as usize)
    }
}

/// Compute [`range_window`]; the window covers `[start, end)` and stays
/// within the file.
pub fn flush_range_window(start: usize, end: usize, file_len: usize, page_sz: usize) -> (r: (
    usize,
    usize,
))
    requires
        start <= end <= file_len,
    ensures
        r == range_window(start, end, file_len, page_sz),
        r.0 <= start && r.0 + r.1 >= end && r.0 + r.1 <= file_len,
{
    if page_sz > 0 && end <= usize::MAX - (page_sz - 1) {
        flush_window(start, end, file_len, page_sz)
    } else {
        (start, end - start)
    }
}

proof fn lemma_round_up_ge(value: int, alignment: int)
    requires
        value >= 0,
        alignment > 0,
    ensures
        value <= crate::utils::round_up(value, alignment) <= value + alignment - 1,
{
    let t = value + alignment - 1;
    assert(t == (t / alignment) * alignment + t % alignment && 0 <= t % alignment < alignment)
        by (nonlinear_arith)
        requires
            alignment > 0,
    ;
}

/// Largest size a mapping may be created or resized to on 64-bit targets:
/// 128 TiB.
pub const MAX_MMAP_SIZE_64: u64 = 140737488355328;

/// Largest size a mapping may be created or resized to on 32-bit targets:
/// 2 GiB.
pub const MAX_MMAP_SIZE_32: u64 = 2147483648;

/// The largest size a mapping may have on this target.
pub open spec fn max_mmap_size_spec() -> u64 {
    if usize::BITS == 64 {
        MAX_MMAP_SIZE_64
    } else {
        MAX_MMAP_SIZE_32
    }
}

/// The largest size a mapping may have on this target.
pub fn max_mmap_size() -> (r: u64)
    ensures
        r == max_mmap_size_spec(),
{
    if usize::BITS == 64 {
        MAX_MMAP_SIZE_64
    } else {
        MAX_MMAP_SIZE_32
    }
}

/// The text of the error for a size above [`max_mmap_size_spec`].
pub open spec fn too_large_message(prefix: Seq<char>, size: u64) -> Seq<char> {
    prefix + decimal(size as nat) + " exceeds maximum safe limit of "@ + decimal(
        max_mmap_size_spec() as nat,
    ) + " bytes"@
}

fn too_large_error(prefix: &str, size: u64) -> (e: MmapIoError)
    ensures
        is_resize_failed(e, too_large_message(prefix@, size)),
{
    let mut m = prefix.to_owned();
    push_decimal(&mut m, size);
    m.push_str(" exceeds maximum safe limit of ");
    push_decimal(&mut m, max_mmap_size());
    m.push_str(" bytes");
    MmapIoError::ResizeFailed(m)
}

/// Check a size requested for a new read-write mapping: it must be
/// positive and at most [`max_mmap_size_spec`].
pub fn check_new_size(size: u64) -> (r: Result<()>)
    ensures
        r is Ok <==> 0 < size <= max_mmap_size_spec(),
        size == 0 ==> (r matches Err(e) && is_resize_failed(e, "Size must be greater than zero"@)),
        size > max_mmap_size_spec() ==> (r matches Err(e) && is_resize_failed(
            e,
            too_large_message("Size "@, size),
        )),
{
    if size == 0 {
        return Err(MmapIoError::ResizeFailed("Size must be greater than zero".to_owned()));
    }
    if size > max_mmap_size() {
        return Err(too_large_error("Size ", size));
    }
    Ok(())
}

/// Check the length of an existing file that is to be mapped writable or
/// copy-on-write: a zero-length file cannot be mapped.
pub fn check_mapped_len(len: u64) -> (r: Result<()>)
    ensures
        r is Ok <==> len > 0,
        len == 0 ==> (r matches Err(e) && is_resize_failed(e, "Cannot map zero-length file"@)),
{
    if len == 0 {
        return Err(MmapIoError::ResizeFailed("Cannot map zero-length file".to_owned()));
    }
    Ok(())
}

/// The pending count after a range flush of `flushed` bytes: debited by
/// that much, never below zero.
pub open spec fn debit(pending: u64, flushed: nat) -> u64 {
    if pending >= flushed {
        (pending - flushed) as u64
    } else {
        0
    }
}

/// The pending count after handing out a mutable view of `len` bytes: a
/// non-empty view counts as a write of `len` bytes (it may be written
/// through), but never triggers an automatic flush.
pub open spec fn after_view(policy: FlushPolicy, acc: u64, len: u64) -> u64 {
    if len == 0 {
        acc
    } else {
        after_write(policy, acc, len).0
    }
}

/// Law: a range flush never forgets writes outside the range: the pending
/// count drops by at most the flushed length, never grows, and reaches zero
/// only when the flushed length covers everything pending.
pub proof fn lemma_range_flush_keeps_unflushed_writes(pending: u64, flushed: nat)
    ensures
        debit(pending, flushed) <= pending,
        debit(pending, flushed) >= pending - flushed,
        debit(pending, flushed) == 0 <==> flushed >= pending,
{
}

/// What the caller has to do to make writes durable.
#[derive(Debug, Clone, Copy, PartialEq, Eq, Structural)]
pub enum FlushAction {
    /// Nothing to flush.
    Skip,
    /// Flush the whole mapping.
    Full,
    /// Flush `len` bytes from `start`.
    Range { start: usize, len: usize },
}

/// Memory-mapped file with bounds-checked, zero-copy region access.
///
/// It holds the mapping, its mode, the length callers see, the flush
/// policy, the count of bytes (or writes) not yet flushed and whether
/// anything was written since the last full flush. The system
/// calls (opening, mapping, syncing, remapping) are made by the caller,
/// which hands the results in and follows the [`FlushAction`]s handed out.
pub struct MemoryMappedFile {
    mode: MmapMode,
    map: MapVariant,
    cached_len: u64,
    flush_policy: FlushPolicy,
    written_since_last_flush: u64,
    dirty: bool,
    huge_pages: bool,
}

impl View for MemoryMappedFile {
    type V = Seq<u8>;

    /// The bytes of the file as the mapping shows them.
    closed spec fn view(&self) -> Seq<u8> {
        content(self.map).take(self.cached_len as int)
    }
}

impl MemoryMappedFile {
    /// Well-formedness: the mode matches the kind of map, and the visible
    /// length lies within the map.
    pub closed spec fn wf(&self) -> bool {
        &&& self.mode == variant_mode(self.map)
        &&& self.cached_len <= content(self.map).len()
        &&& content(self.map).len() <= isize::MAX
    }

    /// The access mode.
    pub closed spec fn spec_mode(&self) -> MmapMode {
        self.mode
    }

    /// The flush policy.
    pub closed spec fn spec_policy(&self) -> FlushPolicy {
        self.flush_policy
    }

    /// Bytes (or, under `EveryWrites`, writes) since the last flush.
    pub closed spec fn spec_pending(&self) -> u64 {
        self.written_since_last_flush
    }

    /// Whether anything was written since the last full flush (a range
    /// flush does not clear it: writes outside the range may be unsynced).
    pub closed spec fn spec_dirty(&self) -> bool {
        self.dirty
    }

    /// Whether a flush has anything to sync: a pending count, or a write
    /// since the last full flush.
    pub open spec fn spec_needs_sync(&self) -> bool {
        self.spec_pending() != 0 || self.spec_dirty()
    }

    /// Whether huge pages were requested.
    pub closed spec fn spec_huge_pages(&self) -> bool {
        self.huge_pages
    }

    /// The underlying map.
    pub closed spec fn spec_map(&self) -> MapVariant {
        self.map
    }

    /// A mapping never shows more than `isize::MAX` bytes.
    pub proof fn lemma_len_bound(&self)
        requires
            self.wf(),
        ensures
            self@.len() <= isize::MAX,
    {
    }

    proof fn lemma_view(&self)
        requires
            self.wf(),
        ensures
            self@.len() == self.cached_len,
            self@.len() <= isize::MAX,
            forall|i: int| 0 <= i < self.cached_len ==> self@[i] == content(self.map)[i],
    {
    }

    /// A read-only mapping over `map`: nothing pending, policy `Never`.
    pub fn from_ro_map(map: Mmap) -> (r: Self)
        ensures
            r.wf(),
            r@ == mmap_bytes(map),
            r.spec_mode() == MmapMode::ReadOnly,
            r.spec_map() == MapVariant::Ro(map),
            r.spec_policy() == FlushPolicy::Never,
            r.spec_pending() == 0,
            !r.spec_dirty(),
            !r.spec_huge_pages(),
    {
        let len = ro_slice(&map).len() as u64;
        let r = MemoryMappedFile {
            mode: MmapMode::ReadOnly,
            map: MapVariant::Ro(map),
            cached_len: len,
            flush_policy: FlushPolicy::Never,
            written_since_last_flush: 0,
            dirty: false,
            huge_pages: false,
        };
        assert(r@ =~= mmap_bytes(map));
        r
    }

    /// A read-write mapping over `map` with the given flush policy and huge
    /// pages preference; nothing pending.
    pub fn from_rw_map(map: MmapMut, flush_policy: FlushPolicy, huge_pages: bool) -> (r: Self)
        ensures
            r.wf(),
            r@ == mmap_mut_bytes(map),
            r.spec_mode() == MmapMode::ReadWrite,
            r.spec_map() == MapVariant::Rw(map),
            r.spec_policy() == flush_policy,
            r.spec_pending() == 0,
            !r.spec_dirty(),
            r.spec_huge_pages() == huge_pages,
    {
        let len = rw_slice(&map).len() as u64;
        let r = MemoryMappedFile {
            mode: MmapMode::ReadWrite,
            map: MapVariant::Rw(map),
            cached_len: len,
            flush_policy,
            written_since_last_flush: 0,
            dirty: false,
            huge_pages,
        };
        assert(r@ =~= mmap_mut_bytes(map));
        r
    }

    /// A private copy-on-write mapping over `map`: read-only at this API,
    /// never flushed.
    pub fn from_cow_map(map: Mmap) -> (r: Self)
        ensures
            r.wf(),
            r@ == mmap_bytes(map),
            r.spec_mode() == MmapMode::CopyOnWrite,
            r.spec_map() == MapVariant::Cow(map),
            r.spec_policy() == FlushPolicy::Never,
            r.spec_pending() == 0,
            !r.spec_dirty(),
            !r.spec_huge_pages(),
    {
        let len = ro_slice(&map).len() as u64;
        let r = MemoryMappedFile {
            mode: MmapMode::CopyOnWrite,
            map: MapVariant::Cow(map),
            cached_len: len,
            flush_policy: FlushPolicy::Never,
            written_since_last_flush: 0,
            dirty: false,
            huge_pages: false,
        };
        assert(r@ =~= mmap_bytes(map));
        r
    }

    /// Return current mapping mode.
    pub fn mode(&self) -> (r: MmapMode)
        ensures
            r == self.spec_mode(),
    {
        self.mode
    }

    /// Total length of the mapped file in bytes (cached).
    pub fn len(&self) -> (r: u64)
        requires
            self.wf(),
        ensures
            r == self@.len(),
            self@.len() <= isize::MAX,
    {
        proof { self.lemma_view(); }
        self.cached_len
    }

    /// Whether the mapped file is empty.
    pub fn is_empty(&self) -> (r: bool)
        requires
            self.wf(),
        ensures
            r == (self@.len() == 0),
    {
        self.len() == 0
    }

    /// Return the up-to-date file length (cached); it never fails.
    pub fn current_len(&self) -> (r: Result<u64>)
        requires
            self.wf(),
        ensures
            r == Ok::<u64, MmapIoError>(self@.len() as u64),
            self@.len() <= isize::MAX,
    {
        Ok(self.len())
    }

    /// The flush policy this mapping was constructed with.
    pub fn flush_policy(&self) -> (r: FlushPolicy)
        ensures
            r == self.spec_policy(),
    {
        self.flush_policy
    }

    /// Bytes written since the last successful flush (writes, under
    /// `EveryWrites`).
    pub fn pending_bytes(&self) -> (r: u64)
        ensures
            r == self.spec_pending(),
    {
        self.written_since_last_flush
    }

    /// Whether huge pages were requested for this mapping.
    pub fn huge_pages(&self) -> (r: bool)
        ensures
            r == self.spec_huge_pages(),
    {
        self.huge_pages
    }

    /// The underlying map, for the system calls made on it.
    pub fn map(&self) -> (r: &MapVariant)
        ensures
            *r == self.spec_map(),
    {
        &self.map
    }

    /// Zero-copy read-only view of `[offset, offset + len)`; works in every
    /// mode.
    pub fn as_slice(&self, offset: u64, len: u64) -> (r: Result<&[u8]>)
        requires
            self.wf(),
        ensures
            r is Ok <==> offset + len <= self@.len(),
            r matches Ok(s) ==> s@ == self@.subrange(offset as int, offset + len),
            r matches Err(e) ==> is_out_of_bounds(e, offset, len, self@.len() as u64),
    {
        proof { self.lemma_view(); }
        let total = self.cached_len;
        let (start, end) = slice_range(offset, len, total)?;
        let all = map_bytes(&self.map);
        let s = vstd::slice::slice_subrange(all, start, end);
        assert(s@ =~= self@.subrange(offset as int, offset + len));
        Ok(s)
    }

    /// Zero-copy read-only view of `[offset, offset + len)` for read-only
    /// and copy-on-write mappings only; a read-write mapping answers
    /// `InvalidMode` and points to [`MemoryMappedFile::read_into`], which
    /// copies instead.
    pub fn as_slice_bytes(&self, offset: u64, len: u64) -> (r: Result<&[u8]>)
        requires
            self.wf(),
        ensures
            r is Ok <==> offset + len <= self@.len() && self.spec_mode() != MmapMode::ReadWrite,
            r matches Ok(s) ==> s@ == self@.subrange(offset as int, offset + len),
            !(offset + len <= self@.len()) ==> (r matches Err(e) && is_out_of_bounds(
                e,
                offset,
                len,
                self@.len() as u64,
            )),
            offset + len <= self@.len() && self.spec_mode() == MmapMode::ReadWrite ==> (r matches Err(
                e,
            ) && is_invalid_mode(e, "use read_into for RW mappings"@)),
    {
        proof { self.lemma_view(); }
        let total = self.cached_len;
        ensure_in_bounds(offset, len, total)?;
        match &self.map {
            MapVariant::Rw(_) => Err(MmapIoError::InvalidMode("use read_into for RW mappings")),
            _ => self.as_slice(offset, len),
        }
    }

    /// Copy `[offset, offset + buf.len())` of the mapping into `buf`. An
    /// empty buffer is accepted at any offset: nothing is read.
    pub fn read_into(&self, offset: u64, buf: &mut [u8]) -> (r: Result<()>)
        requires
            self.wf(),
        ensures
            r is Ok <==> old(buf)@.len() == 0 || offset + old(buf)@.len() <= self@.len(),
            old(buf)@.len() == 0 ==> r == Ok::<(), MmapIoError>(()),
            r is Ok && old(buf)@.len() > 0 ==> final(buf)@ == self@.subrange(
                offset as int,
                offset + old(buf)@.len(),
            ),
            r matches Err(e) ==> is_out_of_bounds(e, offset, old(buf)@.len() as u64, self@.len() as u64),
            r is Err || old(buf)@.len() == 0 ==> final(buf)@ == old(buf)@,
    {
        proof { self.lemma_view(); }
        if buf.len() == 0 {
            return Ok(());
        }
        let total = self.cached_len;
        let len = buf.len() as u64;
        let (start, end) = slice_range(offset, len, total)?;
        let all = map_bytes(&self.map);
        let n = buf.len();
        let mut i: usize = 0;
        while i < n
            invariant
                n == buf@.len(),
                n == old(buf)@.len(),
                start + n == end,
                end <= all@.len(),
                all@ == content(self.map),
                i <= n,
                forall|k: int| 0 <= k < i ==> buf@[k] == all@[start + k],
            decreases n - i,
        {
            buf[i] = all[start + i];
            i = i + 1;
        }
        assert(buf@ =~= self@.subrange(offset as int, offset + old(buf)@.len()));
        Ok(())
    }

    /// Copy `data` into the mapping at `offset` (read-write mode only).
    ///
    /// An empty `data` is accepted in every mode. After the write the flush
    /// policy is applied: the returned action says whether to flush now.
    pub fn update_region(&mut self, offset: u64, data: &[u8]) -> (r: Result<FlushAction>)
        requires
            old(self).wf(),
        ensures
            final(self).wf(),
            final(self).spec_mode() == old(self).spec_mode(),
            final(self).spec_policy() == old(self).spec_policy(),
            final(self).spec_huge_pages() == old(self).spec_huge_pages(),
            data@.len() == 0 ==> r == Ok::<FlushAction, MmapIoError>(FlushAction::Skip)
                && *final(self) == *old(self),
            data@.len() > 0 && old(self).spec_mode() != MmapMode::ReadWrite ==> (r matches Err(e)
                && is_invalid_mode(e, "Update region requires ReadWrite mode."@)
                && *final(self) == *old(self)),
            data@.len() > 0 && old(self).spec_mode() == MmapMode::ReadWrite && !(offset
                + data@.len() <= old(self)@.len()) ==> (r matches Err(e) && is_out_of_bounds(
                e,
                offset,
                data@.len() as u64,
                old(self)@.len() as u64,
            ) && *final(self) == *old(self)),
            r is Ok && data@.len() > 0 ==> final(self)@ == overwrite(old(self)@, offset as int, data@)
                && final(self).spec_dirty() && final(self).spec_pending() == after_write(
                old(self).spec_policy(),
                old(self).spec_pending(),
                data@.len() as u64,
            ).0 && r == Ok::<FlushAction, MmapIoError>(
                if after_write(old(self).spec_policy(), old(self).spec_pending(), data@.len() as u64).1 {
                    FlushAction::Full
                } else {
                    FlushAction::Skip
                },
            ),
            r is Ok <==> data@.len() == 0 || (old(self).spec_mode() == MmapMode::ReadWrite && offset
                + data@.len() <= old(self)@.len()),
    {
        proof { self.lemma_view(); }
        if data.len() == 0 {
            return Ok(FlushAction::Skip);
        }
        if self.mode != MmapMode::ReadWrite {
            return Err(MmapIoError::InvalidMode("Update region requires ReadWrite mode."));
        }
        let len = data.len() as u64;
        let (start, end) = slice_range(offset, len, self.cached_len)?;
        let ghost before = self@;
        write_into(&mut self.map, start, data);
        let (acc, flush_now) = apply_flush_policy(
            self.flush_policy,
            self.written_since_last_flush,
            len,
        );
        self.written_since_last_flush = acc;
        self.dirty = true;
        proof {
            self.lemma_view();
            assert(self@ =~= overwrite(before, offset as int, data@));
        }
        if flush_now {
            Ok(FlushAction::Full)
        } else {
            Ok(FlushAction::Skip)
        }
    }

    /// Count a possible write of `len` bytes as pending, without asking for
    /// an automatic flush (see [`after_view`]).
    pub(crate) fn mark_pending(&mut self, len: u64)
        requires
            old(self).wf(),
        ensures
            final(self).wf(),
            final(self)@ == old(self)@,
            final(self).spec_mode() == old(self).spec_mode(),
            final(self).spec_map() == old(self).spec_map(),
            final(self).spec_policy() == old(self).spec_policy(),
            final(self).spec_huge_pages() == old(self).spec_huge_pages(),
            final(self).spec_pending() == after_view(
                old(self).spec_policy(),
                old(self).spec_pending(),
                len,
            ),
            final(self).spec_dirty() == (old(self).spec_dirty() || len > 0),
    {
        if len > 0 {
            let (acc, _) = apply_flush_policy(self.flush_policy, self.written_since_last_flush, len);
            self.written_since_last_flush = acc;
            self.dirty = true;
        }
    }

    /// The mutable window `[start, end)` of a read-write mapping, with no
    /// accounting.
    pub(crate) fn window(&mut self, start: usize, end: usize) -> (w: &mut [u8])
        requires
            old(self).wf(),
            old(self).spec_mode() == MmapMode::ReadWrite,
            start <= end <= old(self)@.len(),
        ensures
            final(self).wf(),
            final(self).spec_mode() == old(self).spec_mode(),
            final(self).spec_policy() == old(self).spec_policy(),
            final(self).spec_pending() == old(self).spec_pending(),
            final(self).spec_dirty() == old(self).spec_dirty(),
            final(self).spec_huge_pages() == old(self).spec_huge_pages(),
            w@ == old(self)@.subrange(start as int, end as int),
            final(w)@.len() == end - start,
            final(self)@ == old(self)@.take(start as int) + final(w)@ + old(self)@.skip(end as int),
    {
        proof { self.lemma_view(); }
        let ghost before = self@;
        let w = window_mut(&mut self.map, start, end);
        proof {
            assert(w@ =~= before.subrange(start as int, end as int));
        }
        w
    }

    /// Zero-copy mutable view of `[offset, offset + len)` (read-write mode
    /// only). What is written through the view is what the mapping holds
    /// once the view is released. A non-empty view counts as a write of
    /// `len` bytes for the pending count (see [`after_view`]), so that a
    /// later flush syncs it.
    pub fn as_slice_mut(&mut self, offset: u64, len: u64) -> (r: Result<&mut [u8]>)
        requires
            old(self).wf(),
        ensures
            final(self).wf(),
            final(self).spec_mode() == old(self).spec_mode(),
            final(self).spec_policy() == old(self).spec_policy(),
            final(self).spec_huge_pages() == old(self).spec_huge_pages(),
            r is Ok <==> offset + len <= old(self)@.len() && old(self).spec_mode()
                == MmapMode::ReadWrite,
            !(offset + len <= old(self)@.len()) ==> (r matches Err(e) && is_out_of_bounds(
                e,
                offset,
                len,
                old(self)@.len() as u64,
            )),
            offset + len <= old(self)@.len() && old(self).spec_mode() == MmapMode::ReadOnly ==> (r matches Err(e) && is_invalid_mode(e, "mutable access on read-only mapping"@)),
            offset + len <= old(self)@.len() && old(self).spec_mode() == MmapMode::CopyOnWrite ==> (r matches Err(e) && is_invalid_mode(e, "mutable access on copy-on-write mapping (phase-1 read-only)"@)),
            r is Err ==> *final(self) == *old(self),
            r is Ok ==> final(self).spec_pending() == after_view(
                old(self).spec_policy(),
                old(self).spec_pending(),
                len,
            ) && final(self).spec_dirty() == (old(self).spec_dirty() || len > 0),
            r matches Ok(w) ==> w@ == old(self)@.subrange(offset as int, offset + len)
                && final(w)@.len() == len && final(self)@ == old(self)@.take(offset as int) + final(w)@ + old(self)@.skip(offset + len),
    {
        proof { self.lemma_view(); }
        let (start, end) = slice_range(offset, len, self.cached_len)?;
        match self.mode {
            MmapMode::ReadOnly => Err(MmapIoError::InvalidMode("mutable access on read-only mapping")),
            MmapMode::CopyOnWrite => Err(
                MmapIoError::InvalidMode(
                    "mutable access on copy-on-write mapping (phase-1 read-only)",
                ),
            ),
            MmapMode::ReadWrite => {
                self.mark_pending(len);
                Ok(self.window(start, end))
            },
        }
    }

    /// What flushing asks for: nothing for read-only and copy-on-write
    /// mappings or when nothing needs syncing (see
    /// [`MemoryMappedFile::spec_needs_sync`]), the whole mapping otherwise.
    /// After a successful flush the caller reports it with
    /// [`MemoryMappedFile::record_flush`].
    pub fn flush(&self) -> (r: FlushAction)
        requires
            self.wf(),
        ensures
            r == (if self.spec_mode() == MmapMode::ReadWrite && self.spec_needs_sync() {
                FlushAction::Full
            } else {
                FlushAction::Skip
            }),
    {
        match &self.map {
            MapVariant::Rw(_) => {
                if self.written_since_last_flush == 0 && !self.dirty {
                    FlushAction::Skip
                } else {
                    FlushAction::Full
                }
            },
            _ => FlushAction::Skip,
        }
    }

    /// Record a successful full flush: nothing is pending or unsynced any
    /// more.
    pub fn record_flush(&mut self)
        requires
            old(self).wf(),
        ensures
            final(self).wf(),
            final(self)@ == old(self)@,
            final(self).spec_mode() == old(self).spec_mode(),
            final(self).spec_map() == old(self).spec_map(),
            final(self).spec_policy() == old(self).spec_policy(),
            final(self).spec_huge_pages() == old(self).spec_huge_pages(),
            final(self).spec_pending() == 0,
            !final(self).spec_dirty(),
    {
        self.written_since_last_flush = 0;
        self.dirty = false;
    }

    /// Record a successful flush of `flushed` bytes of a range: the pending
    /// count is debited by that much, never below zero, so writes outside
    /// the range stay accounted for.
    pub fn record_range_flush(&mut self, flushed: usize)
        requires
            old(self).wf(),
        ensures
            final(self).wf(),
            final(self)@ == old(self)@,
            final(self).spec_mode() == old(self).spec_mode(),
            final(self).spec_map() == old(self).spec_map(),
            final(self).spec_policy() == old(self).spec_policy(),
            final(self).spec_huge_pages() == old(self).spec_huge_pages(),
            final(self).spec_pending() == debit(old(self).spec_pending(), flushed as nat),
            final(self).spec_dirty() == old(self).spec_dirty(),
    {
        self.written_since_last_flush = self.written_since_last_flush.saturating_sub(
            flushed as u64,
        );
    }

    /// What flushing `[offset, offset + len)` asks for when pages are
    /// `page_sz` bytes (see [`MemoryMappedFile::flush_range_plan`]).
    pub open spec fn flush_range_plan(&self, offset: u64, len: u64, page_sz: usize) -> Result<
        FlushAction,
    > {
        if len == 0 {
            Ok(FlushAction::Skip)
        } else if !(offset + len <= self@.len()) {
            Err(MmapIoError::OutOfBounds { offset, len, total: self@.len() as u64 })
        } else if self.spec_mode() != MmapMode::ReadWrite || !self.spec_needs_sync() {
            Ok(FlushAction::Skip)
        } else {
            let (start, wlen) = range_window(
                offset as usize,
                (offset + len) as usize,
                self@.len() as usize,
                page_sz,
            );
            Ok(FlushAction::Range { start, len: wlen })
        }
    }

    /// What flushing `[offset, offset + len)` asks for, with pages of
    /// `page_sz` bytes. An empty range, read-only and copy-on-write
    /// mappings and mappings with nothing to sync need nothing; a range
    /// past the end is `OutOfBounds`. Otherwise the window of
    /// [`range_window`] is flushed: a range shorter than a page is widened
    /// to whole pages, cut at the end of the file. The window always covers
    /// the range and stays within the file. After success the caller
    /// reports the flushed length with
    /// [`MemoryMappedFile::record_range_flush`].
    pub fn flush_range_with_page_size(&self, offset: u64, len: u64, page_sz: usize) -> (r: Result<
        FlushAction,
    >)
        requires
            self.wf(),
        ensures
            r == self.flush_range_plan(offset, len, page_sz),
            r matches Ok(FlushAction::Range { start, len: l }) ==> start <= offset && offset + len
                <= start + l <= self@.len(),
    {
        proof { self.lemma_view(); }
        if len == 0 {
            return Ok(FlushAction::Skip);
        }
        let total = self.cached_len;
        ensure_in_bounds(offset, len, total)?;
        match &self.map {
            MapVariant::Rw(_) => {},
            _ => {
                return Ok(FlushAction::Skip);
            },
        }
        if self.written_since_last_flush == 0 && !self.dirty {
            return Ok(FlushAction::Skip);
        }
        let (start, end) = slice_range(offset, len, total)?;
        let file_len = total as usize;
        let (s, l) = flush_range_window(start, end, file_len, page_sz);
        Ok(FlushAction::Range { start: s, len: l })
    }

    /// What flushing `[offset, offset + len)` asks for, with the page size
    /// of this machine: exactly [`MemoryMappedFile::flush_range_plan`] for
    /// that page size (see [`MemoryMappedFile::flush_range_with_page_size`]).
    pub fn flush_range(&self, offset: u64, len: u64) -> (r: Result<FlushAction>)
        requires
            self.wf(),
        ensures
            exists|page_sz: usize| r == self.flush_range_plan(offset, len, page_sz),
            r is Ok <==> len == 0 || offset + len <= self@.len(),
            len > 0 && !(offset + len <= self@.len()) ==> (r matches Err(e) && is_out_of_bounds(
                e,
                offset,
                len,
                self@.len() as u64,
            )),
            len > 0 && offset + len <= self@.len() && (self.spec_mode() != MmapMode::ReadWrite
                || !self.spec_needs_sync()) ==> r == Ok::<FlushAction, MmapIoError>(
                FlushAction::Skip,
            ),
            len > 0 && offset + len <= self@.len() && self.spec_mode() == MmapMode::ReadWrite
                && self.spec_needs_sync() ==> (r matches Ok(FlushAction::Range { start, len: l })
                && start <= offset && offset + len <= start + l <= self@.len()),
    {
        let ps = page_size();
        self.flush_range_with_page_size(offset, len, ps)
    }

    /// Check whether the mapping may be resized to `new_size` (read-write
    /// mode, positive, at most [`max_mmap_size_spec`]). The caller then
    /// resizes the file, maps it again and hands the new map to
    /// [`MemoryMappedFile::remapped`].
    pub fn resize(&self, new_size: u64) -> (r: Result<()>)
        ensures
            r is Ok <==> self.spec_mode() == MmapMode::ReadWrite && 0 < new_size
                <= max_mmap_size_spec(),
            self.spec_mode() != MmapMode::ReadWrite ==> (r matches Err(e) && is_invalid_mode(
                e,
                "Resize requires ReadWrite mode"@,
            )),
            self.spec_mode() == MmapMode::ReadWrite && new_size == 0 ==> (r matches Err(e)
                && is_resize_failed(e, "New size must be greater than zero"@)),
            self.spec_mode() == MmapMode::ReadWrite && new_size > max_mmap_size_spec() ==> (r matches Err(e) && is_resize_failed(e, too_large_message("New size "@, new_size))),
    {
        if self.mode != MmapMode::ReadWrite {
            return Err(MmapIoError::InvalidMode("Resize requires ReadWrite mode"));
        }
        if new_size == 0 {
            return Err(MmapIoError::ResizeFailed("New size must be greater than zero".to_owned()));
        }
        if new_size > max_mmap_size() {
            return Err(too_large_error("New size ", new_size));
        }
        Ok(())
    }

    /// Install the map made after the file was resized to `new_size`; the
    /// visible length becomes `new_size` (bounded by the new map's length).
    /// Pending writes stay accounted for.
    pub fn remapped(&mut self, map: MmapMut, new_size: u64) -> (r: Result<()>)
        requires
            old(self).wf(),
        ensures
            final(self).wf(),
            final(self).spec_mode() == old(self).spec_mode(),
            final(self).spec_policy() == old(self).spec_policy(),
            final(self).spec_pending() == old(self).spec_pending(),
            final(self).spec_dirty() == old(self).spec_dirty(),
            final(self).spec_huge_pages() == old(self).spec_huge_pages(),
            r is Ok <==> old(self).spec_mode() == MmapMode::ReadWrite,
            old(self).spec_mode() == MmapMode::ReadOnly ==> (r matches Err(e) && is_invalid_mode(
                e,
                "Cannot remap read-only mapping as read-write"@,
            )),
            old(self).spec_mode() == MmapMode::CopyOnWrite ==> (r matches Err(e) && is_invalid_mode(
                e,
                "resize not supported on copy-on-write mapping"@,
            )),
            r is Err ==> *final(self) == *old(self),
            r is Ok ==> final(self).spec_map() == MapVariant::Rw(map) && final(self)@ == mmap_mut_bytes(
                map,
            ).take(
                if new_size <= mmap_mut_bytes(map).len() {
                    new_size as int
                } else {
                    mmap_mut_bytes(map).len() as int
                },
            ),
    {
        match self.mode {
            MmapMode::ReadOnly => Err(
                MmapIoError::InvalidMode("Cannot remap read-only mapping as read-write"),
            ),
            MmapMode::CopyOnWrite => Err(
                MmapIoError::InvalidMode("resize not supported on copy-on-write mapping"),
            ),
            MmapMode::ReadWrite => {
                let map_len = rw_slice(&map).len() as u64;
                let visible = if new_size <= map_len {
                    new_size
                } else {
                    map_len
                };
                self.map = MapVariant::Rw(map);
                self.cached_len = visible;
                Ok(())
            },
        }
    }

    /// Shrink the visible length to `new_size` without remapping (used
    /// where a file with an active mapping cannot be truncated); a size
    /// that is not smaller is refused.
    pub fn shrink_view(&mut self, new_size: u64) -> (shrunk: bool)
        requires
            old(self).wf(),
        ensures
            final(self).wf(),
            final(self).spec_mode() == old(self).spec_mode(),
            final(self).spec_map() == old(self).spec_map(),
            final(self).spec_policy() == old(self).spec_policy(),
            final(self).spec_pending() == old(self).spec_pending(),
            final(self).spec_dirty() == old(self).spec_dirty(),
            final(self).spec_huge_pages() == old(self).spec_huge_pages(),
            shrunk <==> new_size <= old(self)@.len(),
            shrunk ==> final(self)@ == old(self)@.take(new_size as int),
            !shrunk ==> *final(self) == *old(self),
    {
        proof { self.lemma_view(); }
        if new_size <= self.cached_len {
            let ghost before = self@;
            self.cached_len = new_size;
            assert(self@ =~= before.take(new_size as int));
            true
        } else {
            false
        }
    }

    fn touch_from(&self, first: u64, stop: u64, step: u64)
        requires
            self.wf(),
            stop <= self@.len(),
            step > 0,
    {
        proof { self.lemma_view(); }
        let all = map_bytes(&self.map);
        let mut off = first;
        while off < stop
            invariant
                stop <= all@.len(),
                all@.len() <= isize::MAX,
                step > 0,
            decreases stop - off,
        {
            keep_read(all[off as usize]);
            if step >= stop - off {
                break;
            }
            off = off + step;
        }
    }

    /// Touch (prewarm) every page by reading its first byte. Never fails.
    pub fn touch_pages(&self) -> (r: Result<()>)
        requires
            self.wf(),
        ensures
            r is Ok,
    {
        proof { self.lemma_view(); }
        let total = self.cached_len;
        if total == 0 {
            return Ok(());
        }
        let ps = page_size();
        if ps == 0 {
            return Ok(());
        }
        self.touch_from(0, total, ps as u64);
        Ok(())
    }

    /// Touch (prewarm) the pages overlapping `[offset, offset + len)`.
    pub fn touch_pages_range(&self, offset: u64, len: u64) -> (r: Result<()>)
        requires
            self.wf(),
        ensures
            r is Ok <==> len == 0 || offset + len <= self@.len(),
            len > 0 && !(offset + len <= self@.len()) ==> (r matches Err(e) && is_out_of_bounds(
                e,
                offset,
                len,
                self@.len() as u64,
            )),
    {
        proof { self.lemma_view(); }
        if len == 0 {
            return Ok(());
        }
        let total = self.cached_len;
        ensure_in_bounds(offset, len, total)?;
        let ps = page_size();
        if ps == 0 {
            return Ok(());
        }
        let ps64 = ps as u64;
        proof {
            assert((offset / ps64) * ps64 <= offset) by (nonlinear_arith)
                requires
                    ps64 > 0,
            ;
        }
        let start_page = (offset / ps64) * ps64;
        let end_offset = offset + len;
        let end_page = if end_offset <= u64::MAX - (ps64 - 1) {
            proof {
                crate::utils::lemma_align_up_fits(end_offset, ps64);
            }
            align_up(end_offset, ps64)
        } else {
            total
        };
        let stop = if end_page < total {
            end_page
        } else {
            total
        };
        self.touch_from(start_page, stop, ps64);
        Ok(())
    }
}

/// Files at least this large are mapped with the huge-page optimisation
/// when huge pages are requested (2 MiB, the usual huge page size).
pub const HUGE_PAGE_SIZE: u64 = 2097152;

/// Whether a mapping of `len` bytes should first be tried with the
/// huge-page optimisation (huge pages requested and the file spans at least
/// one huge page).
pub fn wants_huge_mapping(huge_pages: bool, len: u64) -> (r: bool)
    ensures
        r == (huge_pages && len >= HUGE_PAGE_SIZE),
{
    huge_pages && len >= HUGE_PAGE_SIZE
}

/// How a mapping is to be opened: what the caller does to the file and
/// which settings the mapping gets.
#[derive(Debug, Clone, Copy, PartialEq, Eq, Structural)]
pub struct OpenPlan {
    /// The mode to map in.
    pub mode: MmapMode,
    /// `Some(n)`: create (or truncate) the file and set its length to `n`
    /// before mapping; `None`: open the existing file.
    pub create_size: Option<u64>,
    /// Whether a zero-length file must be refused (see [`check_mapped_len`]).
    pub reject_empty: bool,
    /// The flush policy of the new mapping.
    pub flush_policy: FlushPolicy,
    /// Whether huge pages are requested.
    pub huge_pages: bool,
    /// Whether to touch every page right after mapping.
    pub touch_pages: bool,
    /// `Some(ms)`: start an interval flusher every `ms` milliseconds.
    pub flusher_interval_ms: Option<u64>,
}

/// The plan for a read-only mapping of an existing file.
pub open spec fn read_only_plan() -> OpenPlan {
    OpenPlan {
        mode: MmapMode::ReadOnly,
        create_size: None,
        reject_empty: false,
        flush_policy: FlushPolicy::Never,
        huge_pages: false,
        touch_pages: false,
        flusher_interval_ms: None,
    }
}

/// The plan for a copy-on-write mapping of an existing, non-empty file.
pub open spec fn copy_on_write_plan() -> OpenPlan {
    OpenPlan {
        mode: MmapMode::CopyOnWrite,
        create_size: None,
        reject_empty: true,
        flush_policy: FlushPolicy::Never,
        huge_pages: false,
        touch_pages: false,
        flusher_interval_ms: None,
    }
}

/// The interval flusher a policy asks for at creation.
pub open spec fn flusher_for(policy: FlushPolicy) -> Option<u64> {
    match policy {
        FlushPolicy::EveryMillis(ms) => if ms > 0 {
            Some(ms)
        } else {
            None
        },
        _ => None,
    }
}

/// Builder for MemoryMappedFile construction with options.
pub struct MemoryMappedFileBuilder {
    path: String,
    size: Option<u64>,
    mode: Option<MmapMode>,
    flush_policy: FlushPolicy,
    touch_hint: TouchHint,
    huge_pages: bool,
}

impl MemoryMappedFileBuilder {
    /// The path of the file.
    pub closed spec fn spec_path(&self) -> Seq<char> {
        self.path@
    }

    /// The requested size.
    pub closed spec fn spec_size(&self) -> Option<u64> {
        self.size
    }

    /// The requested mode.
    pub closed spec fn spec_mode(&self) -> Option<MmapMode> {
        self.mode
    }

    /// The requested flush policy.
    pub closed spec fn spec_policy(&self) -> FlushPolicy {
        self.flush_policy
    }

    /// The requested touch hint.
    pub closed spec fn spec_touch(&self) -> TouchHint {
        self.touch_hint
    }

    /// Whether huge pages are requested.
    pub closed spec fn spec_huge_pages(&self) -> bool {
        self.huge_pages
    }

    /// The path of the file.
    pub fn path(&self) -> (r: &str)
        ensures
            r@ == self.spec_path(),
    {
        self.path.as_str()
    }

    /// Specify the size (required for create/ReadWrite new files).
    pub fn size(self, size: u64) -> (r: Self)
        ensures
            r.spec_size() == Some(size),
            r.spec_path() == self.spec_path(),
            r.spec_mode() == self.spec_mode(),
            r.spec_policy() == self.spec_policy(),
            r.spec_touch() == self.spec_touch(),
            r.spec_huge_pages() == self.spec_huge_pages(),
    {
        let mut b = self;
        b.size = Some(size);
        b
    }

    /// Specify the mode (ReadOnly, ReadWrite, CopyOnWrite).
    pub fn mode(self, mode: MmapMode) -> (r: Self)
        ensures
            r.spec_mode() == Some(mode),
            r.spec_path() == self.spec_path(),
            r.spec_size() == self.spec_size(),
            r.spec_policy() == self.spec_policy(),
            r.spec_touch() == self.spec_touch(),
            r.spec_huge_pages() == self.spec_huge_pages(),
    {
        let mut b = self;
        b.mode = Some(mode);
        b
    }

    /// Specify the flush policy.
    pub fn flush_policy(self, policy: FlushPolicy) -> (r: Self)
        ensures
            r.spec_policy() == policy,
            r.spec_path() == self.spec_path(),
            r.spec_size() == self.spec_size(),
            r.spec_mode() == self.spec_mode(),
            r.spec_touch() == self.spec_touch(),
            r.spec_huge_pages() == self.spec_huge_pages(),
    {
        let mut b = self;
        b.flush_policy = policy;
        b
    }

    /// Specify when to touch (prewarm) memory pages.
    pub fn touch_hint(self, hint: TouchHint) -> (r: Self)
        ensures
            r.spec_touch() == hint,
            r.spec_path() == self.spec_path(),
            r.spec_size() == self.spec_size(),
            r.spec_mode() == self.spec_mode(),
            r.spec_policy() == self.spec_policy(),
            r.spec_huge_pages() == self.spec_huge_pages(),
    {
        let mut b = self;
        b.touch_hint = hint;
        b
    }

    /// Request huge pages (effective on Linux; a no-op elsewhere).
    pub fn huge_pages(self, enable: bool) -> (r: Self)
        ensures
            r.spec_huge_pages() == enable,
            r.spec_path() == self.spec_path(),
            r.spec_size() == self.spec_size(),
            r.spec_mode() == self.spec_mode(),
            r.spec_policy() == self.spec_policy(),
            r.spec_touch() == self.spec_touch(),
    {
        let mut b = self;
        b.huge_pages = enable;
        b
    }

    /// How `create` proceeds: a read-write mapping (the default mode) needs
    /// a valid size and creates the file at that size with the builder's
    /// policy, huge pages and touch hint; read-only and copy-on-write
    /// mappings open the existing file with policy `Never`.
    pub fn create_plan(&self) -> (r: Result<OpenPlan>)
        ensures
            ({
                let mode = match self.spec_mode() {
                    Some(m) => m,
                    None => MmapMode::ReadWrite,
                };
                &&& mode == MmapMode::ReadOnly ==> r == Ok::<OpenPlan, MmapIoError>(read_only_plan())
                &&& mode == MmapMode::CopyOnWrite ==> r == Ok::<OpenPlan, MmapIoError>(copy_on_write_plan())
                &&& mode == MmapMode::ReadWrite && self.spec_size() is None ==> (r matches Err(e)
                    && is_resize_failed(e, "Size must be set for create() in ReadWrite mode"@))
                &&& (mode == MmapMode::ReadWrite && self.spec_size() is Some) ==> {
                    let n = self.spec_size()->Some_0;
                    &&& (r is Ok <==> 0 < n <= max_mmap_size_spec())
                    &&& n == 0 ==> (r matches Err(e) && is_resize_failed(e, "Size must be greater than zero"@))
                    &&& n > max_mmap_size_spec() ==> (r matches Err(e) && is_resize_failed(e, too_large_message("Size "@, n)))
                    &&& r is Ok ==> r == Ok::<OpenPlan, MmapIoError>(OpenPlan {
                        mode: MmapMode::ReadWrite,
                        create_size: Some(n),
                        reject_empty: false,
                        flush_policy: self.spec_policy(),
                        huge_pages: self.spec_huge_pages(),
                        touch_pages: self.spec_touch() == TouchHint::Eager,
                        flusher_interval_ms: flusher_for(self.spec_policy()),
                    })
                }
            }),
    {
        let mode = match self.mode {
            Some(m) => m,
            None => MmapMode::ReadWrite,
        };
        match mode {
            MmapMode::ReadWrite => {
                let size = match self.size {
                    Some(n) => n,
                    None => {
                        return Err(
                            MmapIoError::ResizeFailed(
                                "Size must be set for create() in ReadWrite mode".to_owned(),
                            ),
                        );
                    },
                };
                check_new_size(size)?;
                let flusher_interval_ms = match self.flush_policy {
                    FlushPolicy::EveryMillis(ms) => if ms > 0 {
                        Some(ms)
                    } else {
                        None
                    },
                    _ => None,
                };
                Ok(
                    OpenPlan {
                        mode: MmapMode::ReadWrite,
                        create_size: Some(size),
                        reject_empty: false,
                        flush_policy: self.flush_policy,
                        huge_pages: self.huge_pages,
                        touch_pages: self.touch_hint == TouchHint::Eager,
                        flusher_interval_ms,
                    },
                )
            },
            MmapMode::ReadOnly => Ok(
                OpenPlan {
                    mode: MmapMode::ReadOnly,
                    create_size: None,
                    reject_empty: false,
                    flush_policy: FlushPolicy::Never,
                    huge_pages: false,
                    touch_pages: false,
                    flusher_interval_ms: None,
                },
            ),
            MmapMode::CopyOnWrite => Ok(
                OpenPlan {
                    mode: MmapMode::CopyOnWrite,
                    create_size: None,
                    reject_empty: true,
                    flush_policy: FlushPolicy::Never,
                    huge_pages: false,
                    touch_pages: false,
                    flusher_interval_ms: None,
                },
            ),
        }
    }

    /// How `open` proceeds (the size is ignored): read-only is the default;
    /// a read-write mapping refuses an empty file and keeps the builder's
    /// policy and huge pages (no interval flusher, no touching).
    pub fn open_plan(&self) -> (r: OpenPlan)
        ensures
            ({
                let mode = match self.spec_mode() {
                    Some(m) => m,
                    None => MmapMode::ReadOnly,
                };
                &&& mode == MmapMode::ReadOnly ==> r == read_only_plan()
                &&& mode == MmapMode::CopyOnWrite ==> r == copy_on_write_plan()
                &&& mode == MmapMode::ReadWrite ==> r == (OpenPlan {
                    mode: MmapMode::ReadWrite,
                    create_size: None,
                    reject_empty: true,
                    flush_policy: self.spec_policy(),
                    huge_pages: self.spec_huge_pages(),
                    touch_pages: false,
                    flusher_interval_ms: None,
                })
            }),
    {
        let mode = match self.mode {
            Some(m) => m,
            None => MmapMode::ReadOnly,
        };
        match mode {
            MmapMode::ReadOnly => OpenPlan {
                mode: MmapMode::ReadOnly,
                create_size: None,
                reject_empty: false,
                flush_policy: FlushPolicy::Never,
                huge_pages: false,
                touch_pages: false,
                flusher_interval_ms: None,
            },
            MmapMode::ReadWrite => OpenPlan {
                mode: MmapMode::ReadWrite,
                create_size: None,
                reject_empty: true,
                flush_policy: self.flush_policy,
                huge_pages: self.huge_pages,
                touch_pages: false,
                flusher_interval_ms: None,
            },
            MmapMode::CopyOnWrite => OpenPlan {
                mode: MmapMode::CopyOnWrite,
                create_size: None,
                reject_empty: true,
                flush_policy: FlushPolicy::Never,
                huge_pages: false,
                touch_pages: false,
                flusher_interval_ms: None,
            },
        }
    }
}

impl MemoryMappedFile {
    /// Builder for constructing a mapping of the file at `path` with custom
    /// options: no size or mode yet, policy `Never`, touch hint `Never`, no
    /// huge pages.
    pub fn builder(path: String) -> (r: MemoryMappedFileBuilder)
        ensures
            r.spec_path() == path@,
            r.spec_size() is None,
            r.spec_mode() is None,
            r.spec_policy() == FlushPolicy::Never,
            r.spec_touch() == TouchHint::Never,
            !r.spec_huge_pages(),
    {
        MemoryMappedFileBuilder {
            path,
            size: None,
            mode: None,
            flush_policy: FlushPolicy::Never,
            touch_hint: TouchHint::Never,
            huge_pages: false,
        }
    }
}

/// Law: the size limit of a mapping is 128 TiB (2^47 bytes) on 64-bit
/// targets and 2 GiB (2^31 bytes) on 32-bit targets; every size from 1 up
/// to that limit passes [`check_new_size`] and, on a read-write mapping,
/// [`MemoryMappedFile::resize`].
pub proof fn lemma_size_limit(n: u64)
    ensures
        usize::BITS == 64 ==> max_mmap_size_spec() == 128 * 1024 * 1024 * 1024 * 1024,
        usize::BITS == 32 ==> max_mmap_size_spec() == 2 * 1024 * 1024 * 1024,
        usize::BITS == 64 && 0 < n <= 0x8000_0000_0000 ==> 0 < n <= max_mmap_size_spec(),
        usize::BITS == 32 && 0 < n <= 0x8000_0000 ==> 0 < n <= max_mmap_size_spec(),
{
}

/// Law: every positive interval under `EveryMillis` asks for an interval
/// flusher with exactly that interval; a zero interval and every other
/// policy ask for none.
pub proof fn lemma_flusher_for_every_positive_interval(policy: FlushPolicy)
    ensures
        flusher_for(policy) is Some <==> (policy matches FlushPolicy::EveryMillis(ms) && ms > 0),
        forall|ms: u64| ms > 0 ==> #[trigger] flusher_for(FlushPolicy::EveryMillis(ms)) == Some(ms),
        flusher_for(policy) matches Some(ms) ==> policy == FlushPolicy::EveryMillis(ms),
{
}

} // verus!
