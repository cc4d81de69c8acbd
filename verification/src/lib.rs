//! Memory-mapped file I/O: the verified core.
//!
//! The crate keeps the decisions of a memory-mapped file library (bounds
//! checks, mode checks, flush-policy accounting, flush windows, segment
//! validity, chunking, atomic-view placement, builder plans, watch-event
//! classification) in verified code, and models the bytes of a mapping as
//! the contents of a `memmap2` map.

pub mod errors;
pub mod utils;
pub mod flush;
pub mod mmap;
pub mod segment;
pub mod iterator;
pub mod atomic;
pub mod advise;
pub mod lock;
pub mod watch;
pub mod manager;

pub use errors::MmapIoError;
pub use manager::{flush, update_region};
pub use mmap::{MemoryMappedFile, MmapMode, TouchHint};
pub use advise::MmapAdvice;
pub use iterator::{ChunkIterator, PageIterator};
pub use watch::{ChangeEvent, ChangeKind};
