//! Chunked access to a mapping: zero-copy chunk and page iteration, owned
//! copies, and a callback-driven mutable pass.

use vstd::prelude::*;
use crate::errors::{MmapIoError, Result, is_invalid_mode};
use crate::mmap::{MemoryMappedFile, MmapMode, after_view};
use crate::utils::page_size;

verus! {

/// `s` cut into consecutive pieces of `chunk` bytes, the last one possibly
/// shorter; nothing when `chunk` is zero or `s` is empty.
pub open spec fn chunks_of(s: Seq<u8>, chunk: nat) -> Seq<Seq<u8>>
    decreases s.len(),
{
    if chunk == 0 || s.len() == 0 {
        Seq::empty()
    } else if s.len() <= chunk {
        seq![s]
    } else {
        seq![s.take(chunk as int)] + chunks_of(s.skip(chunk as int), chunk)
    }
}

/// Law: cutting `s` into chunks of `chunk > 0` bytes yields
/// `ceil(len / chunk)` pieces that concatenate back to `s`; every piece but
/// the last is exactly `chunk` bytes and the last one is not empty.
pub proof fn lemma_chunks_partition(s: Seq<u8>, chunk: nat)
    requires
        chunk > 0,
    ensures
        chunks_of(s, chunk).len() == (s.len() + chunk - 1) / (chunk as int),
        chunks_of(s, chunk).flatten() == s,
        forall|i: int|
            0 <= i < chunks_of(s, chunk).len() - 1 ==> (#[trigger] chunks_of(s, chunk)[i]).len()
                == chunk,
        chunks_of(s, chunk).len() > 0 ==> 0 < chunks_of(s, chunk).last().len() <= chunk,
    decreases s.len(),
{
    let c = chunks_of(s, chunk);
    if s.len() == 0 {
        assert(c =~= Seq::<Seq<u8>>::empty());
        assert(c.flatten() =~= s);
        assert((chunk - 1) / (chunk as int) == 0) by (nonlinear_arith)
            requires
                chunk > 0,
        ;
    } else if s.len() <= chunk {
        assert((s.len() + chunk - 1) / (chunk as int) == 1) by (nonlinear_arith)
            requires
                0 < s.len() <= chunk,
        ;
        assert(c =~= seq![s]);
        seq![s].lemma_flatten_one_element();
    } else {
        let rest = s.skip(chunk as int);
        lemma_chunks_partition(rest, chunk);
        assert((s.len() + chunk - 1) / (chunk as int) == (rest.len() + chunk - 1) / (chunk as int)
            + 1) by (nonlinear_arith)
            requires
                rest.len() == s.len() - chunk,
                chunk > 0,
        ;
        let head = s.take(chunk as int);
        assert(c =~= seq![head] + chunks_of(rest, chunk));
        vstd::seq_lib::lemma_flatten_concat(seq![head], chunks_of(rest, chunk));
        seq![head].lemma_flatten_one_element();
        assert(head + rest =~= s);
        assert forall|i: int| 0 <= i < c.len() - 1 implies (#[trigger] c[i]).len() == chunk by {
            if i > 0 {
                assert(c[i] == chunks_of(rest, chunk)[i - 1]);
            }
        }
    }
}

/// The span `(start, len)` of the chunk that starts at `offset` in a
/// mapping of `total` bytes cut into chunks of `chunk_size` bytes, or `None`
/// when no chunk starts there (zero chunk size, or `offset` at or past the
/// end).
pub open spec fn chunk_span(total: usize, chunk_size: usize, offset: usize) -> Option<(usize, usize)> {
    if chunk_size == 0 || offset >= total {
        None
    } else if total - offset < chunk_size {
        Some((offset, (total - offset) as usize))
    } else {
        Some((offset, chunk_size))
    }
}

/// Compute [`chunk_span`].
pub fn next_chunk_span(total: usize, chunk_size: usize, offset: usize) -> (r: Option<(usize, usize)>)
    ensures
        r == chunk_span(total, chunk_size, offset),
        r matches Some(p) ==> p.0 == offset && 0 < p.1 <= chunk_size && offset + p.1 <= total,
{
    if chunk_size == 0 || offset >= total {
        return None;
    }
    let remaining = total - offset;
    if remaining < chunk_size {
        Some((offset, remaining))
    } else {
        Some((offset, chunk_size))
    }
}

/// The number of chunks of `chunk` bytes that `len` bytes are cut into
/// (none for a zero chunk size).
pub open spec fn chunk_count(len: nat, chunk: nat) -> nat {
    if chunk == 0 {
        0
    } else {
        ((len + chunk - 1) / (chunk as int)) as nat
    }
}

/// How many chunks of `chunk_size` bytes remain from `offset` in a mapping
/// of `total` bytes.
pub fn remaining_chunks(total: usize, chunk_size: usize, offset: usize) -> (r: usize)
    requires
        offset <= total,
    ensures
        r == chunk_count((total - offset) as nat, chunk_size as nat),
{
    if chunk_size == 0 {
        return 0;
    }
    let remaining = total - offset;
    proof {
        assert((remaining + chunk_size - 1) / (chunk_size as int) <= remaining) by (nonlinear_arith)
            requires
                chunk_size > 0,
        ;
    }
    remaining.div_ceil(chunk_size)
}

/// Iterator over fixed-size chunks of a mapping, yielding slices that
/// borrow from it (the last chunk may be shorter).
pub struct ChunkIterator<'a> {
    mmap: &'a MemoryMappedFile,
    total_len: usize,
    chunk_size: usize,
    current_offset: usize,
}

impl<'a> ChunkIterator<'a> {
    /// The iterator's invariant.
    pub closed spec fn wf(&self) -> bool {
        &&& self.mmap.wf()
        &&& self.total_len == self.mmap@.len()
        &&& self.current_offset <= self.total_len
    }

    /// The chunks still to come.
    pub closed spec fn remaining(&self) -> Seq<Seq<u8>> {
        chunks_of(self.mmap@.skip(self.current_offset as int), self.chunk_size as nat)
    }

    /// The chunk size.
    pub closed spec fn spec_chunk_size(&self) -> usize {
        self.chunk_size
    }

    /// The length of the mapping iterated over.
    pub closed spec fn spec_total(&self) -> usize {
        self.total_len
    }

    /// The bytes the chunks yielded so far cover.
    pub closed spec fn consumed(&self) -> usize {
        self.current_offset
    }

    /// Law: the chunks still to come are the chunks of the bytes not yet
    /// yielded: `ceil((total - consumed) / chunk_size)` of them (none for a
    /// zero chunk size).
    pub proof fn lemma_remaining_counts_unyielded(&self)
        requires
            self.wf(),
        ensures
            self.consumed() <= self.spec_total(),
            self.remaining().len() == chunk_count(
                (self.spec_total() - self.consumed()) as nat,
                self.spec_chunk_size() as nat,
            ),
    {
        if self.chunk_size == 0 {
            assert(self.remaining() =~= Seq::<Seq<u8>>::empty());
        } else {
            lemma_chunks_partition(
                self.mmap@.skip(self.current_offset as int),
                self.chunk_size as nat,
            );
        }
    }

    /// A chunk iterator over the whole of `mmap`, starting at offset zero.
    pub fn new(mmap: &'a MemoryMappedFile, chunk_size: usize) -> (r: Result<Self>)
        requires
            mmap.wf(),
        ensures
            r matches Ok(it) && it.wf() && it.spec_chunk_size() == chunk_size && it.remaining()
                == chunks_of(mmap@, chunk_size as nat) && it.consumed() == 0 && it.spec_total()
                == mmap@.len(),
    {
        let total = mmap.len();
        let it = ChunkIterator {
            mmap,
            total_len: total as usize,
            chunk_size,
            current_offset: 0,
        };
        assert(mmap@.skip(0) =~= mmap@);
        Ok(it)
    }

    /// The next chunk, or `None` when the mapping is exhausted (at once
    /// when the chunk size is zero).
    pub fn next(&mut self) -> (r: Option<&'a [u8]>)
        requires
            old(self).wf(),
        ensures
            final(self).wf(),
            final(self).spec_chunk_size() == old(self).spec_chunk_size(),
            r is None <==> old(self).remaining().len() == 0,
            final(self).spec_total() == old(self).spec_total(),
            r matches Some(s) ==> s@ == old(self).remaining()[0] && final(self).remaining()
                == old(self).remaining().drop_first() && final(self).consumed() == old(
                self,
            ).consumed() + s@.len(),
            r is None ==> final(self).remaining() == old(self).remaining()
                && final(self).consumed() == old(self).consumed(),
    {
        proof {
            self.mmap.lemma_len_bound();
        }
        let ghost rest0 = self.mmap@.skip(self.current_offset as int);
        let (start, chunk_len) = match next_chunk_span(
            self.total_len,
            self.chunk_size,
            self.current_offset,
        ) {
            Some(span) => span,
            None => {
                proof {
                    assert(rest0.len() == 0 || self.chunk_size == 0);
                }
                return None;
            },
        };
        let remaining = self.total_len - self.current_offset;
        let mmap: &'a MemoryMappedFile = self.mmap;
        let s = match mmap.as_slice(start as u64, chunk_len as u64) {
            Ok(s) => s,
            Err(_) => {
                return vstd::pervasive::unreached();
            },
        };
        self.current_offset = start + chunk_len;
        proof {
            let v = self.mmap@;
            let c = self.chunk_size as nat;
            assert(rest0.skip(chunk_len as int) =~= v.skip(self.current_offset as int));
            assert(s@ =~= rest0.take(chunk_len as int));
            if remaining <= self.chunk_size {
                assert(rest0.take(chunk_len as int) =~= rest0);
                assert(v.skip(self.current_offset as int) =~= Seq::<u8>::empty());
                assert(chunks_of(rest0, c) =~= seq![rest0]);
                assert(chunks_of(Seq::<u8>::empty(), c) =~= Seq::<Seq<u8>>::empty());
                assert(seq![rest0].drop_first() =~= Seq::<Seq<u8>>::empty());
            } else {
                assert(chunks_of(rest0, c) =~= seq![rest0.take(c as int)] + chunks_of(
                    rest0.skip(c as int),
                    c,
                ));
                assert((seq![rest0.take(c as int)] + chunks_of(rest0.skip(c as int), c)).drop_first()
                    =~= chunks_of(rest0.skip(c as int), c));
            }
        }
        Some(s)
    }

    /// The exact number of chunks still to come, as lower and upper bound.
    pub fn size_hint(&self) -> (r: (usize, Option<usize>))
        requires
            self.wf(),
        ensures
            r == (self.remaining().len() as usize, Some(self.remaining().len() as usize)),
            r.0 == chunk_count(
                (self.spec_total() - self.consumed()) as nat,
                self.spec_chunk_size() as nat,
            ),
    {
        proof {
            self.lemma_remaining_counts_unyielded();
        }
        let chunks = remaining_chunks(self.total_len, self.chunk_size, self.current_offset);
        (chunks, Some(chunks))
    }
}

/// Iterator over page-sized chunks of a mapping (the page size of the
/// machine), with the same zero-copy behaviour as [`ChunkIterator`].
pub struct PageIterator<'a> {
    inner: ChunkIterator<'a>,
}

impl<'a> PageIterator<'a> {
    /// The iterator's invariant.
    pub closed spec fn wf(&self) -> bool {
        self.inner.wf()
    }

    /// The pages still to come.
    pub closed spec fn remaining(&self) -> Seq<Seq<u8>> {
        self.inner.remaining()
    }

    /// The page size used.
    pub closed spec fn page_len(&self) -> usize {
        self.inner.spec_chunk_size()
    }

    /// A page iterator over the whole of `mmap`.
    pub fn new(mmap: &'a MemoryMappedFile) -> (r: Result<Self>)
        requires
            mmap.wf(),
        ensures
            r matches Ok(it) && it.wf() && it.remaining() == chunks_of(mmap@, it.page_len() as nat),
    {
        let ps = page_size();
        let inner = ChunkIterator::new(mmap, ps)?;
        Ok(PageIterator { inner })
    }

    /// The next page, or `None` when the mapping is exhausted.
    pub fn next(&mut self) -> (r: Option<&'a [u8]>)
        requires
            old(self).wf(),
        ensures
            final(self).wf(),
            final(self).page_len() == old(self).page_len(),
            r is None <==> old(self).remaining().len() == 0,
            r matches Some(s) ==> s@ == old(self).remaining()[0] && final(self).remaining()
                == old(self).remaining().drop_first(),
            r is None ==> final(self).remaining() == old(self).remaining(),
    {
        self.inner.next()
    }

    /// The exact number of pages still to come.
    pub fn size_hint(&self) -> (r: (usize, Option<usize>))
        requires
            self.wf(),
        ensures
            r == (self.remaining().len() as usize, Some(self.remaining().len() as usize)),
    {
        self.inner.size_hint()
    }
}

/// Chunk iterator yielding owned copies of the chunks.
pub struct ChunkIteratorOwned<'a> {
    inner: ChunkIterator<'a>,
}

impl<'a> ChunkIteratorOwned<'a> {
    /// The iterator's invariant.
    pub closed spec fn wf(&self) -> bool {
        self.inner.wf()
    }

    /// The chunks still to come.
    pub closed spec fn remaining(&self) -> Seq<Seq<u8>> {
        self.inner.remaining()
    }

    /// An owned-chunk iterator over the whole of `mmap`.
    pub fn new(mmap: &'a MemoryMappedFile, chunk_size: usize) -> (r: Result<Self>)
        requires
            mmap.wf(),
        ensures
            r matches Ok(it) && it.wf() && it.remaining() == chunks_of(mmap@, chunk_size as nat),
    {
        let inner = ChunkIterator::new(mmap, chunk_size)?;
        Ok(ChunkIteratorOwned { inner })
    }

    /// A copy of the next chunk, or `None` when the mapping is exhausted.
    pub fn next(&mut self) -> (r: Option<Result<Vec<u8>>>)
        requires
            old(self).wf(),
        ensures
            final(self).wf(),
            r is None <==> old(self).remaining().len() == 0,
            r matches Some(x) ==> x matches Ok(v) && v@ == old(self).remaining()[0] && final(self).remaining() == old(self).remaining().drop_first(),
            r is None ==> final(self).remaining() == old(self).remaining(),
    {
        match self.inner.next() {
            Some(s) => Some(Ok(vstd::slice::slice_to_vec(s))),
            None => None,
        }
    }

    /// The exact number of chunks still to come.
    pub fn size_hint(&self) -> (r: (usize, Option<usize>))
        requires
            self.wf(),
        ensures
            r == (self.remaining().len() as usize, Some(self.remaining().len() as usize)),
    {
        self.inner.size_hint()
    }
}

/// Page iterator yielding owned copies of the pages.
pub struct PageIteratorOwned<'a> {
    inner: PageIterator<'a>,
}

impl<'a> PageIteratorOwned<'a> {
    /// The iterator's invariant.
    pub closed spec fn wf(&self) -> bool {
        self.inner.wf()
    }

    /// The pages still to come.
    pub closed spec fn remaining(&self) -> Seq<Seq<u8>> {
        self.inner.remaining()
    }

    /// The page size used.
    pub closed spec fn page_len(&self) -> usize {
        self.inner.page_len()
    }

    /// An owned-page iterator over the whole of `mmap`.
    pub fn new(mmap: &'a MemoryMappedFile) -> (r: Result<Self>)
        requires
            mmap.wf(),
        ensures
            r matches Ok(it) && it.wf() && it.remaining() == chunks_of(mmap@, it.page_len() as nat),
    {
        let inner = PageIterator::new(mmap)?;
        Ok(PageIteratorOwned { inner })
    }

    /// A copy of the next page, or `None` when the mapping is exhausted.
    pub fn next(&mut self) -> (r: Option<Result<Vec<u8>>>)
        requires
            old(self).wf(),
        ensures
            final(self).wf(),
            r is None <==> old(self).remaining().len() == 0,
            r matches Some(x) ==> x matches Ok(v) && v@ == old(self).remaining()[0] && final(self).remaining() == old(self).remaining().drop_first(),
            r is None ==> final(self).remaining() == old(self).remaining(),
    {
        match self.inner.next() {
            Some(s) => Some(Ok(vstd::slice::slice_to_vec(s))),
            None => None,
        }
    }

    /// The exact number of pages still to come.
    pub fn size_hint(&self) -> (r: (usize, Option<usize>))
        requires
            self.wf(),
        ensures
            r == (self.remaining().len() as usize, Some(self.remaining().len() as usize)),
    {
        self.inner.size_hint()
    }
}

/// Callback-driven mutable pass over fixed-size chunks of a read-write
/// mapping: the closure receives each chunk's offset and bytes, in order.
pub struct ChunkIteratorMut<'a> {
    /// The mapping the pass writes to.
    pub mmap: &'a mut MemoryMappedFile,
    /// Bytes per chunk; the final chunk may be shorter.
    pub chunk_size: usize,
    /// The length of the mapping when the pass was set up.
    pub total_len: u64,
}

impl<'a> ChunkIteratorMut<'a> {
    /// The iterator's invariant.
    pub closed spec fn wf(&self) -> bool {
        &&& self.mmap.wf()
        &&& self.total_len == self.mmap@.len()
    }

    /// The mode of the mapping iterated over.
    pub closed spec fn spec_mode(&self) -> MmapMode {
        self.mmap.spec_mode()
    }

    /// The chunk size.
    pub closed spec fn spec_chunk_size(&self) -> usize {
        self.chunk_size
    }

    /// The length of the mapping iterated over.
    pub closed spec fn spec_total(&self) -> u64 {
        self.total_len
    }

    /// The mapping iterated over, as it is when the pass starts.
    pub closed spec fn spec_mmap(&self) -> MemoryMappedFile {
        *self.mmap
    }

    /// A mutable chunk pass over `mmap`.
    pub fn new(mmap: &'a mut MemoryMappedFile, chunk_size: usize) -> (r: Result<Self>)
        requires
            old(mmap).wf(),
        ensures
            r matches Ok(it) && it.wf() && it.spec_chunk_size() == chunk_size && it.spec_total()
                == old(mmap)@.len() && it.spec_mode() == old(mmap).spec_mode() && it.spec_mmap()
                == *old(mmap) && *final(mmap) == *final(it.mmap),
    {
        let total_len = mmap.len();
        Ok(ChunkIteratorMut { mmap, chunk_size, total_len })
    }

    /// Process each chunk under one exclusive borrow: the closure receives
    /// `(offset, chunk)` for each chunk in order; an `Err` from it stops the
    /// pass and is returned. Nothing happens for a zero chunk size or an
    /// empty mapping; other mappings must be read-write. A pass over a
    /// read-write mapping counts as a write of the whole mapping for the
    /// pending count (see [`after_view`]).
    pub fn for_each_mut<F>(self, f: F) -> (r: Result<()>)
        where
            F: FnMut(u64, &mut [u8]) -> Result<()>,
        requires
            self.wf(),
            forall|o: u64, c: &mut [u8]| f.requires((o, c)),
        ensures
            self.spec_chunk_size() == 0 || self.spec_total() == 0 ==> r is Ok,
            self.spec_chunk_size() > 0 && self.spec_total() > 0 && self.spec_mode()
                == MmapMode::ReadOnly ==> (r matches Err(e) && is_invalid_mode(
                e,
                "chunks_mut requires ReadWrite mode"@,
            )),
            self.spec_chunk_size() > 0 && self.spec_total() > 0 && self.spec_mode()
                == MmapMode::CopyOnWrite ==> (r matches Err(e) && is_invalid_mode(
                e,
                "chunks_mut on copy-on-write mapping is not supported (phase-1 read-only)"@,
            )),
            !(self.spec_chunk_size() > 0 && self.spec_total() > 0 && self.spec_mode()
                == MmapMode::ReadWrite) ==> *final(self.mmap) == self.spec_mmap(),
            self.spec_chunk_size() > 0 && self.spec_total() > 0 && self.spec_mode()
                == MmapMode::ReadWrite ==> ({
                    let before = self.spec_mmap()@;
                    let after = final(self.mmap)@;
                    let cs = self.spec_chunk_size() as nat;
                    exists|k: int|
                        #![trigger pass_len(before.len(), cs, k)]
                        {
                            &&& pass_len(before.len(), cs, k)
                            &&& forall|i: int|
                                #![trigger chunk_end(before.len(), cs, i)]
                                0 <= i < k ==> i * cs < chunk_end(before.len(), cs, i) <= before.len()
                                    && exists|o: u64, c: &mut [u8]|
                                    #[trigger] call_ensures(f, (o, c), call_result(i, k, r)) && o == i * cs
                                        && c@ == chunk_at(before, cs, i) && final(c)@ == after.subrange(
                                        i * cs,
                                        chunk_end(before.len(), cs, i),
                                    )
                            &&& after.skip(chunk_end(before.len(), cs, k - 1)) == before.skip(
                                chunk_end(before.len(), cs, k - 1),
                            )
                            &&& r is Ok ==> k == chunk_count(before.len(), cs)
                        }
                }) && final(self.mmap).spec_pending() == after_view(
                self.spec_mmap().spec_policy(),
                self.spec_mmap().spec_pending(),
                self.spec_total(),
            ) && final(self.mmap).spec_dirty(),
            final(self.mmap).wf(),
            final(self.mmap)@.len() == self.spec_mmap()@.len(),
            final(self.mmap).spec_mode() == self.spec_mmap().spec_mode(),
            final(self.mmap).spec_policy() == self.spec_mmap().spec_policy(),
    {
        let mmap = self.mmap;
        if self.chunk_size == 0 || self.total_len == 0 {
            return Ok(());
        }
        match mmap.mode() {
            MmapMode::ReadOnly => {
                return Err(MmapIoError::InvalidMode("chunks_mut requires ReadWrite mode"));
            },
            MmapMode::CopyOnWrite => {
                return Err(
                    MmapIoError::InvalidMode(
                        "chunks_mut on copy-on-write mapping is not supported (phase-1 read-only)",
                    ),
                );
            },
            MmapMode::ReadWrite => {},
        }
        run_pass(mmap, self.chunk_size, f)
    }

    /// The same pass with the closure's own error type: an error of the
    /// mapping comes back as the outer `Err`, the closure's first error as
    /// `Ok(Err(e))`, and a completed pass as `Ok(Ok(()))`.
    pub fn for_each_mut_legacy<F, E>(self, f: F) -> (r: Result<core::result::Result<(), E>>)
        where
            F: FnMut(u64, &mut [u8]) -> core::result::Result<(), E>,
        requires
            self.wf(),
            forall|o: u64, c: &mut [u8]| f.requires((o, c)),
        ensures
            self.spec_chunk_size() == 0 || self.spec_total() == 0 ==> (r matches Ok(x) && x is Ok),
            self.spec_chunk_size() > 0 && self.spec_total() > 0 && self.spec_mode()
                == MmapMode::ReadOnly ==> (r matches Err(e) && is_invalid_mode(
                e,
                "chunks_mut requires ReadWrite mode"@,
            )),
            self.spec_chunk_size() > 0 && self.spec_total() > 0 && self.spec_mode()
                == MmapMode::CopyOnWrite ==> (r matches Err(e) && is_invalid_mode(
                e,
                "chunks_mut on copy-on-write mapping is not supported (phase-1 read-only)"@,
            )),
            !(self.spec_chunk_size() > 0 && self.spec_total() > 0 && self.spec_mode()
                == MmapMode::ReadWrite) ==> *final(self.mmap) == self.spec_mmap(),
            self.spec_chunk_size() > 0 && self.spec_total() > 0 && self.spec_mode()
                == MmapMode::ReadWrite ==> (r matches Ok(x) && ({
                    let before = self.spec_mmap()@;
                    let after = final(self.mmap)@;
                    let cs = self.spec_chunk_size() as nat;
                    exists|k: int|
                        #![trigger pass_len(before.len(), cs, k)]
                        {
                            &&& pass_len(before.len(), cs, k)
                            &&& forall|i: int|
                                #![trigger chunk_end(before.len(), cs, i)]
                                0 <= i < k ==> i * cs < chunk_end(before.len(), cs, i) <= before.len()
                                    && exists|o: u64, c: &mut [u8]|
                                    #[trigger] call_ensures(f, (o, c), call_result(i, k, x)) && o == i * cs
                                        && c@ == chunk_at(before, cs, i) && final(c)@ == after.subrange(
                                        i * cs,
                                        chunk_end(before.len(), cs, i),
                                    )
                            &&& after.skip(chunk_end(before.len(), cs, k - 1)) == before.skip(
                                chunk_end(before.len(), cs, k - 1),
                            )
                            &&& x is Ok ==> k == chunk_count(before.len(), cs)
                        }
                })) && final(self.mmap).spec_pending() == after_view(
                self.spec_mmap().spec_policy(),
                self.spec_mmap().spec_pending(),
                self.spec_total(),
            ) && final(self.mmap).spec_dirty(),
            final(self.mmap).wf(),
            final(self.mmap)@.len() == self.spec_mmap()@.len(),
            final(self.mmap).spec_mode() == self.spec_mmap().spec_mode(),
            final(self.mmap).spec_policy() == self.spec_mmap().spec_policy(),
    {
        let mmap = self.mmap;
        if self.chunk_size == 0 || self.total_len == 0 {
            return Ok(Ok(()));
        }
        match mmap.mode() {
            MmapMode::ReadOnly => {
                return Err(MmapIoError::InvalidMode("chunks_mut requires ReadWrite mode"));
            },
            MmapMode::CopyOnWrite => {
                return Err(
                    MmapIoError::InvalidMode(
                        "chunks_mut on copy-on-write mapping is not supported (phase-1 read-only)",
                    ),
                );
            },
            MmapMode::ReadWrite => {},
        }
        Ok(run_pass(mmap, self.chunk_size, f))
    }
}

/// Where chunk `i` ends when `total` bytes are cut into chunks of `cs`
/// bytes: `min((i + 1) * cs, total)`.
pub open spec fn chunk_end(total: nat, cs: nat, i: int) -> int {
    if (i + 1) * cs <= total {
        (i + 1) * cs
    } else {
        total as int
    }
}

/// Chunk `i` of `s` cut into chunks of `cs` bytes: the bytes
/// `[i * cs, min((i + 1) * cs, s.len()))`.
pub open spec fn chunk_at(s: Seq<u8>, cs: nat, i: int) -> Seq<u8> {
    s.subrange(i * cs, chunk_end(s.len(), cs, i))
}

/// What call `i` of a pass of `k` calls that ended with `last` returned:
/// `Ok` for every call but the last, `last` for the last one.
pub open spec fn call_result<E>(i: int, k: int, last: core::result::Result<(), E>) -> core::result::Result<(), E> {
    if i + 1 < k {
        Ok(())
    } else {
        last
    }
}

/// Whether a pass of `k` calls fits `total` bytes in chunks of `cs` bytes:
/// at least one call, at most one per chunk.
pub open spec fn pass_len(total: nat, cs: nat, k: int) -> bool {
    1 <= k <= chunk_count(total, cs)
}

proof fn lemma_chunk_count_at(total: nat, cs: nat, i: int)
    requires
        cs > 0,
        i >= 1,
        (i - 1) * cs < total,
    ensures
        i * cs >= total ==> chunk_count(total, cs) == i,
        i * cs < total ==> i < chunk_count(total, cs),
        i <= chunk_count(total, cs),
{
    let n = (total + cs - 1) / (cs as int);
    assert(n * cs <= total + cs - 1 < n * cs + cs) by (nonlinear_arith)
        requires
            n == (total + cs - 1) / (cs as int),
            cs > 0,
            total >= 0,
    ;
    assert(i <= n) by (nonlinear_arith)
        requires
            (i - 1) * cs < total,
            total + cs - 1 < n * cs + cs,
            cs > 0,
    ;
    if i * cs >= total {
        assert(n <= i) by (nonlinear_arith)
            requires
                n * cs <= total + cs - 1,
                i * cs >= total,
                cs > 0,
        ;
    } else {
        assert(i < n) by (nonlinear_arith)
            requires
                n * cs <= total + cs - 1,
                i * cs < total,
                total + cs - 1 < n * cs + cs,
                cs > 0,
        ;
    }
}

/// The mutable chunk pass over a non-empty read-write mapping: marks the
/// whole mapping pending, then calls `f` on each chunk in order and stops
/// at its first error.
#[verifier::spinoff_prover]
fn run_pass<E, F>(mmap: &mut MemoryMappedFile, chunk_size: usize, f: F) -> (r: core::result::Result<(), E>)
    where
        F: FnMut(u64, &mut [u8]) -> core::result::Result<(), E>,
    requires
        old(mmap).wf(),
        old(mmap).spec_mode() == MmapMode::ReadWrite,
        old(mmap)@.len() > 0,
        chunk_size > 0,
        forall|o: u64, c: &mut [u8]| f.requires((o, c)),
    ensures
        final(mmap).wf(),
        final(mmap)@.len() == old(mmap)@.len(),
        final(mmap).spec_mode() == old(mmap).spec_mode(),
        final(mmap).spec_policy() == old(mmap).spec_policy(),
        final(mmap).spec_pending() == after_view(
            old(mmap).spec_policy(),
            old(mmap).spec_pending(),
            old(mmap)@.len() as u64,
        ),
        final(mmap).spec_dirty(),
        ({
            let before = old(mmap)@;
            let after = final(mmap)@;
            let cs = chunk_size as nat;
            exists|k: int|
                #![trigger pass_len(before.len(), cs, k)]
                {
                    &&& pass_len(before.len(), cs, k)
                    &&& forall|i: int|
                        #![trigger chunk_end(before.len(), cs, i)]
                        0 <= i < k ==> i * cs < chunk_end(before.len(), cs, i) <= before.len()
                            && exists|o: u64, c: &mut [u8]|
                            #[trigger] call_ensures(f, (o, c), call_result(i, k, r)) && o == i * cs
                                && c@ == chunk_at(before, cs, i) && final(c)@ == after.subrange(
                                i * cs,
                                chunk_end(before.len(), cs, i),
                            )
                    &&& after.skip(chunk_end(before.len(), cs, k - 1)) == before.skip(
                        chunk_end(before.len(), cs, k - 1),
                    )
                    &&& r is Ok ==> k == chunk_count(before.len(), cs)
                }
        }),
{
    let mut g = f;
    proof {
        mmap.lemma_len_bound();
    }
    let ghost v0 = mmap@;
    let total_len = mmap.len();
    mmap.mark_pending(total_len);
    let ghost pending = mmap.spec_pending();
    let total = total_len as usize;
    let ghost cs = chunk_size as nat;
    let mut offset: usize = 0;
    let ghost mut i: int = 0;
    while offset < total
        invariant
            mmap.wf(),
            mmap@.len() == total,
            total == v0.len(),
            v0 == old(mmap)@,
            old(mmap).spec_mode() == MmapMode::ReadWrite,
            total <= isize::MAX,
            total > 0,
            mmap.spec_mode() == MmapMode::ReadWrite,
            mmap.spec_policy() == old(mmap).spec_policy(),
            mmap.spec_pending() == pending,
            mmap.spec_dirty(),
            pending == after_view(old(mmap).spec_policy(), old(mmap).spec_pending(), total as u64),
            chunk_size > 0,
            cs == chunk_size,
            0 <= i,
            offset <= total,
            offset == (if i * cs <= total { i * cs } else { total as int }),
            i == 0 || (i - 1) * cs < total,
            mmap@.skip(offset as int) == v0.skip(offset as int),
            forall|j: int|
                #![trigger chunk_end(v0.len(), cs, j)]
                0 <= j < i ==> j * cs < chunk_end(v0.len(), cs, j) <= v0.len()
                    && exists|o: u64, c: &mut [u8]|
                    #[trigger] call_ensures(f, (o, c), Ok::<(), E>(())) && o == j * cs && c@
                        == chunk_at(v0, cs, j) && final(c)@ == mmap@.subrange(
                        j * cs,
                        chunk_end(v0.len(), cs, j),
                    ),
            g == f,
            forall|o: u64, c: &mut [u8]| f.requires((o, c)),
        decreases total - offset,
    {
        assert(offset == i * cs);
        let remaining = total - offset;
        let chunk_len = if remaining < chunk_size {
            remaining
        } else {
            chunk_size
        };
        let end = offset + chunk_len;
        proof {
            assert((i + 1) * cs == i * cs + cs) by (nonlinear_arith);
            assert(end == chunk_end(total as nat, cs, i));
            assert(mmap@.subrange(offset as int, end as int) =~= v0.skip(offset as int).subrange(
                0,
                chunk_len as int,
            ));
            assert(mmap@.subrange(offset as int, end as int) =~= chunk_at(v0, cs, i));
        }
        let ghost m0 = mmap@;
        let chunk = mmap.window(offset, end);
        let ghost c = chunk;
        let ghost g0 = g;
        let res = g(offset as u64, chunk);
        proof {
            broadcast use vstd::function::group_function_axioms;

            assert(g == g0);
            assert(mmap@ == m0.take(offset as int) + final(c)@ + m0.skip(end as int));
            assert(final(c)@.len() == chunk_len);
            assert(mmap@.len() == total);
            assert(mmap@.subrange(offset as int, end as int) =~= final(c)@);
            assert(exists|o: u64, r: &mut [u8]|
                #[trigger] call_ensures(f, (o, r), res) && o == i * cs && r@ == chunk_at(v0, cs, i)
                    && final(r)@ == mmap@.subrange(i * cs, chunk_end(v0.len(), cs, i))) by {
                assert(exists|r: &mut [u8]|
                    #[trigger] call_ensures(f, (offset as u64, r), res) && r@ == c@ && final(r)@
                        == final(c)@);
            }
            assert(mmap@.skip(end as int) =~= v0.skip(end as int)) by {
                assert(mmap@.skip(end as int) =~= m0.skip(end as int));
                assert(m0.skip(end as int) =~= m0.skip(offset as int).skip(chunk_len as int));
                assert(v0.skip(end as int) =~= v0.skip(offset as int).skip(chunk_len as int));
            }
            assert forall|j: int|
                #![trigger chunk_end(v0.len(), cs, j)]
                0 <= j < i implies j * cs < chunk_end(v0.len(), cs, j) <= v0.len()
                    && exists|o: u64, r: &mut [u8]|
                    #[trigger] call_ensures(f, (o, r), Ok::<(), E>(())) && o == j * cs && r@
                        == chunk_at(v0, cs, j) && final(r)@ == mmap@.subrange(
                        j * cs,
                        chunk_end(v0.len(), cs, j),
                    ) by {
                let e = chunk_end(v0.len(), cs, j);
                assert((j + 1) * cs <= i * cs) by (nonlinear_arith)
                    requires
                        j + 1 <= i,
                        cs > 0,
                ;
                assert(0 <= j * cs && (j + 1) * cs == j * cs + cs) by (nonlinear_arith)
                    requires
                        j >= 0,
                        cs > 0,
                ;
                assert(j * cs <= e <= offset);
                assert(mmap@.subrange(j * cs, e) =~= m0.subrange(j * cs, e));
            }
        }
        match res {
            Ok(()) => {
                proof {
                    assert(res is Ok);
                    assert(res == Ok::<(), E>(res->Ok_0));
                    assert(res == Ok::<(), E>(()));
                    i = i + 1;
                    assert forall|j: int|
                        #![trigger chunk_end(v0.len(), cs, j)]
                        0 <= j < i implies j * cs < chunk_end(v0.len(), cs, j) <= v0.len()
                            && exists|o: u64, c: &mut [u8]|
                            #[trigger] call_ensures(f, (o, c), Ok::<(), E>(())) && o == j * cs
                                && c@ == chunk_at(v0, cs, j) && final(c)@ == mmap@.subrange(
                                j * cs,
                                chunk_end(v0.len(), cs, j),
                            ) by {
                        assert(chunk_end(v0.len(), cs, j) <= total);
                    }
                }
            },
            Err(e) => {
                proof {
                    let k = i + 1;
                    lemma_chunk_count_at(total as nat, cs, k);
                    assert(chunk_end(v0.len(), cs, k - 1) == end);
                    assert forall|j: int|
                        #![trigger chunk_end(v0.len(), cs, j)]
                        0 <= j < k implies j * cs < chunk_end(v0.len(), cs, j) <= v0.len()
                            && exists|o: u64, r: &mut [u8]|
                            #[trigger] call_ensures(f, (o, r), call_result(j, k, Err::<(), E>(e)))
                                && o == j * cs && r@ == chunk_at(v0, cs, j) && final(r)@
                                == mmap@.subrange(j * cs, chunk_end(v0.len(), cs, j)) by {
                        assert(chunk_end(v0.len(), cs, j) <= total);
                        if j < i {
                            assert(call_result(j, k, Err::<(), E>(e)) == Ok::<(), E>(()));
                        } else {
                            assert(call_result(j, k, Err::<(), E>(e)) == res);
                        }
                    }
                    assert(pass_len(v0.len(), cs, k));
                    assert(mmap@.skip(chunk_end(v0.len(), cs, k - 1)) == v0.skip(
                        chunk_end(v0.len(), cs, k - 1),
                    ));
                    assert(v0 == old(mmap)@);
                    assert(*final(mmap) == *mmap);
                    assert(cs == chunk_size as nat);
                }
                return Err(e);
            },
        }
        offset = end;
    }
    proof {
        assert(i >= 1) by (nonlinear_arith)
            requires
                offset == (if i * cs <= total { i * cs } else { total as int }),
                offset == total,
                total > 0,
                i >= 0,
                cs > 0,
        ;
        lemma_chunk_count_at(total as nat, cs, i);
        assert(chunk_end(total as nat, cs, i - 1) == total);
        assert forall|j: int|
            #![trigger chunk_end(v0.len(), cs, j)]
            0 <= j < i implies j * cs < chunk_end(v0.len(), cs, j) <= v0.len()
                && exists|o: u64, r: &mut [u8]|
                #[trigger] call_ensures(f, (o, r), call_result(j, i, Ok::<(), E>(()))) && o == j
                    * cs && r@ == chunk_at(v0, cs, j) && final(r)@ == mmap@.subrange(
                    j * cs,
                    chunk_end(v0.len(), cs, j),
                ) by {
            assert(chunk_end(v0.len(), cs, j) <= total);
            assert(call_result(j, i, Ok::<(), E>(())) == Ok::<(), E>(()));
        }
        assert(pass_len(v0.len(), cs, i));
        assert(mmap@.skip(total as int) =~= v0.skip(total as int));
        assert(v0 == old(mmap)@);
        assert(*final(mmap) == *mmap);
        assert(cs == chunk_size as nat);
    }
    Ok(())
}

impl MemoryMappedFile {
    /// Zero-copy chunk iterator over the whole mapping.
    pub fn chunks(&self, chunk_size: usize) -> (r: ChunkIterator<'_>)
        requires
            self.wf(),
        ensures
            r.wf(),
            r.spec_chunk_size() == chunk_size,
            r.remaining() == chunks_of(self@, chunk_size as nat),
    {
        match ChunkIterator::new(self, chunk_size) {
            Ok(it) => it,
            Err(_) => vstd::pervasive::unreached(),
        }
    }

    /// Zero-copy page iterator over the whole mapping.
    pub fn pages(&self) -> (r: PageIterator<'_>)
        requires
            self.wf(),
        ensures
            r.wf(),
            r.remaining() == chunks_of(self@, r.page_len() as nat),
    {
        match PageIterator::new(self) {
            Ok(it) => it,
            Err(_) => vstd::pervasive::unreached(),
        }
    }

    /// Chunk iterator yielding owned copies.
    pub fn chunks_owned(&self, chunk_size: usize) -> (r: ChunkIteratorOwned<'_>)
        requires
            self.wf(),
        ensures
            r.wf(),
            r.remaining() == chunks_of(self@, chunk_size as nat),
    {
        match ChunkIteratorOwned::new(self, chunk_size) {
            Ok(it) => it,
            Err(_) => vstd::pervasive::unreached(),
        }
    }

    /// Callback-driven mutable chunk pass (see
    /// [`ChunkIteratorMut::for_each_mut`]).
    pub fn chunks_mut(&mut self, chunk_size: usize) -> (r: ChunkIteratorMut<'_>)
        requires
            old(self).wf(),
        ensures
            r.wf(),
            r.spec_chunk_size() == chunk_size,
            r.spec_total() == old(self)@.len(),
            r.spec_mmap() == *old(self),
            *final(self) == *final(r.mmap),
    {
        match ChunkIteratorMut::new(self, chunk_size) {
            Ok(it) => it,
            Err(_) => vstd::pervasive::unreached(),
        }
    }

    /// Page iterator yielding owned copies.
    pub fn pages_owned(&self) -> (r: PageIteratorOwned<'_>)
        requires
            self.wf(),
        ensures
            r.wf(),
            r.remaining() == chunks_of(self@, r.page_len() as nat),
    {
        match PageIteratorOwned::new(self) {
            Ok(it) => it,
            Err(_) => vstd::pervasive::unreached(),
        }
    }
}

} // verus!
