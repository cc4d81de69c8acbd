# mmap_io

Memory-mapped file I/O with a verified core.

- `src/` is the library, verified with Verus: bounds and mode checks,
  reads and writes of the mapped bytes, flush-policy accounting and flush
  windows, resize validation, builder plans, segments, chunk and page
  iteration, atomic-view placement, advise/lock ranges and watch-event
  classification. The bytes of a mapping are those of a `memmap2` map.
- `app/` is the unverified shell around it: opening files and mapping
  them, `msync`/`madvise`/`mlock`, the interval flusher thread, file
  watching, async wrappers and the file-level convenience functions. It
  asks the library what to do and carries out the answer.
- `tests/` exercises the library on anonymous maps.
