use memmap2::MmapMut;
use mmap_io::errors::u64_to_decimal;
use mmap_io::flush::FlushPolicy;
use mmap_io::mmap::{check_mapped_len, check_new_size, flush_window, FlushAction};
use mmap_io::utils::{ensure_in_bounds, slice_range};
use mmap_io::{MemoryMappedFile, MmapIoError, MmapMode};

fn rw(len: usize) -> MemoryMappedFile {
    MemoryMappedFile::from_rw_map(MmapMut::map_anon(len).expect("anon map"), FlushPolicy::Never, false)
}

fn rw_with(len: usize, policy: FlushPolicy) -> MemoryMappedFile {
    MemoryMappedFile::from_rw_map(MmapMut::map_anon(len).expect("anon map"), policy, false)
}

fn ro_with(bytes: &[u8]) -> MemoryMappedFile {
    let mut m = MmapMut::map_anon(bytes.len()).expect("anon map");
    m.copy_from_slice(bytes);
    MemoryMappedFile::from_ro_map(m.make_read_only().expect("read only"))
}

fn cow_with(bytes: &[u8]) -> MemoryMappedFile {
    let mut m = MmapMut::map_anon(bytes.len()).expect("anon map");
    m.copy_from_slice(bytes);
    MemoryMappedFile::from_cow_map(m.make_read_only().expect("read only"))
}

#[test]
fn create_write_read_roundtrip() {
    let mut mmap = rw(4096);
    assert_eq!(mmap.len(), 4096);
    assert!(!mmap.is_empty());
    assert_eq!(mmap.mode(), MmapMode::ReadWrite);
    assert!(matches!(mmap.update_region(100, b"hello-mmap"), Ok(FlushAction::Skip)));
    assert_eq!(mmap.as_slice(100, 10).expect("slice"), b"hello-mmap");
    let mut buf = [0u8; 10];
    mmap.read_into(100, &mut buf).expect("read_into");
    assert_eq!(&buf, b"hello-mmap");
    // Bytes around the write are untouched.
    assert_eq!(mmap.as_slice(99, 1).expect("slice"), &[0u8]);
    assert_eq!(mmap.as_slice(110, 1).expect("slice"), &[0u8]);
}

#[test]
fn last_write_wins_and_disjoint_writes() {
    let mut mmap = rw(64);
    mmap.update_region(0, b"AAAA").expect("write");
    mmap.update_region(0, b"BBBB").expect("write");
    mmap.update_region(10, b"CC").expect("write");
    assert_eq!(mmap.as_slice(0, 4).expect("slice"), b"BBBB");
    assert_eq!(mmap.as_slice(10, 2).expect("slice"), b"CC");
}

#[test]
fn invalid_offset_access() {
    let mmap = rw(1024);
    let result = mmap.as_slice(2048, 10);
    assert!(result.is_err());
    if let Err(e) = result {
        assert_eq!(
            e.to_string(),
            "range out of bounds: offset=2048, len=10, total=1024"
        );
    }
}

#[test]
fn zero_length_file() {
    let result = check_new_size(0);
    assert!(result.is_err());
    if let Err(e) = result {
        assert_eq!(
            e.to_string(),
            "resize failed: Size must be greater than zero"
        );
    }
}

#[test]
fn size_above_limit_is_refused() {
    let e = check_new_size(u64::MAX).expect_err("too large");
    let text = e.to_string();
    assert!(text.starts_with("resize failed: Size 18446744073709551615 exceeds maximum safe limit of "));
    assert!(text.ends_with(" bytes"));
    assert!(check_new_size(1).is_ok());
    let e = check_mapped_len(0).expect_err("empty");
    assert_eq!(e.to_string(), "resize failed: Cannot map zero-length file");
    assert!(check_mapped_len(1).is_ok());
}

#[test]
fn error_texts_for_every_variant() {
    assert_eq!(MmapIoError::Io("boom".to_string()).to_string(), "I/O error: boom");
    assert_eq!(MmapIoError::InvalidMode("x").to_string(), "invalid mode: x");
    assert_eq!(MmapIoError::FlushFailed("f".to_string()).to_string(), "flush failed: f");
    assert_eq!(MmapIoError::ResizeFailed("r".to_string()).to_string(), "resize failed: r");
    assert_eq!(MmapIoError::AdviceFailed("a".to_string()).to_string(), "advice failed: a");
    assert_eq!(MmapIoError::LockFailed("l".to_string()).to_string(), "lock failed: l");
    assert_eq!(MmapIoError::UnlockFailed("u".to_string()).to_string(), "unlock failed: u");
    assert_eq!(MmapIoError::WatchFailed("w".to_string()).to_string(), "watch failed: w");
    assert_eq!(
        MmapIoError::Misaligned { required: 8, offset: 3 }.to_string(),
        "misaligned access: offset 3 is not aligned to 8 bytes"
    );
}

#[test]
fn decimal_rendering() {
    assert_eq!(u64_to_decimal(0), "0");
    assert_eq!(u64_to_decimal(7), "7");
    assert_eq!(u64_to_decimal(10), "10");
    assert_eq!(u64_to_decimal(1024), "1024");
    assert_eq!(u64_to_decimal(u64::MAX), "18446744073709551615");
}

#[test]
fn test_readonly_write_fails() {
    let mut ro_mmap = ro_with(&[1u8; 1024]);
    assert_eq!(ro_mmap.mode(), MmapMode::ReadOnly);
    assert!(matches!(ro_mmap.update_region(0, b"fail"), Err(MmapIoError::InvalidMode(_))));
    assert!(ro_mmap.as_slice_mut(0, 10).is_err());
    assert!(ro_mmap.resize(2048).is_err());
    assert!(ro_mmap.as_slice(0, 10).is_ok());
}

#[test]
fn copy_on_write_is_read_only_here() {
    let mut cow = cow_with(b"original data here");
    assert_eq!(cow.mode(), MmapMode::CopyOnWrite);
    assert_eq!(cow.as_slice(0, 13).expect("read"), b"original data");
    assert!(matches!(cow.update_region(0, b"x"), Err(MmapIoError::InvalidMode(_))));
    match cow.as_slice_mut(0, 1) {
        Err(MmapIoError::InvalidMode(m)) => {
            assert_eq!(m, "mutable access on copy-on-write mapping (phase-1 read-only)")
        }
        _ => panic!("expected InvalidMode"),
    }
    assert_eq!(cow.flush(), FlushAction::Skip);
    assert!(matches!(cow.resize(64), Err(MmapIoError::InvalidMode(_))));
}

#[test]
fn test_empty_operations() {
    let mut mmap = rw(1024);
    assert!(mmap.update_region(0, b"").is_ok());
    assert!(mmap.flush_range(0, 0).is_ok());
    let mut buf = [];
    assert!(mmap.read_into(0, &mut buf).is_ok());
    // An empty write is accepted in every mode and past the end.
    let mut ro = ro_with(&[0u8; 16]);
    assert!(matches!(ro.update_region(999, b""), Ok(FlushAction::Skip)));
}

#[test]
fn update_region_out_of_bounds() {
    let mut mmap = rw(16);
    match mmap.update_region(10, b"0123456789") {
        Err(MmapIoError::OutOfBounds { offset, len, total }) => {
            assert_eq!((offset, len, total), (10, 10, 16));
        }
        _ => panic!("expected OutOfBounds"),
    }
    // Nothing was written.
    assert_eq!(mmap.as_slice(10, 6).expect("slice"), &[0u8; 6]);
}

#[test]
fn read_into_out_of_bounds_leaves_buffer() {
    let mmap = ro_with(b"abcd");
    let mut buf = [9u8; 5];
    assert!(matches!(
        mmap.read_into(0, &mut buf),
        Err(MmapIoError::OutOfBounds { offset: 0, len: 5, total: 4 })
    ));
    assert_eq!(buf, [9u8; 5]);
}

#[test]
fn as_slice_mut_writes_are_visible() {
    let mut mmap = rw(32);
    {
        let s = mmap.as_slice_mut(4, 6).expect("slice_mut");
        s.copy_from_slice(b"ABCDEF");
    }
    assert_eq!(mmap.as_slice(4, 6).expect("slice"), b"ABCDEF");
    assert!(matches!(
        mmap.as_slice_mut(30, 4),
        Err(MmapIoError::OutOfBounds { offset: 30, len: 4, total: 32 })
    ));
}

#[test]
fn as_slice_bytes_works_on_read_only() {
    let ro = ro_with(b"compat-shim-ro");
    let s: &[u8] = ro.as_slice_bytes(0, 14).expect("as_slice_bytes");
    assert_eq!(s, b"compat-shim-ro");
}

#[test]
fn as_slice_bytes_errors_on_read_write_like_0_9_6() {
    let mmap = rw(32);
    let err = mmap
        .as_slice_bytes(0, 8)
        .expect_err("RW must error to match 0.9.6 behavior");
    assert!(matches!(err, MmapIoError::InvalidMode(_)));
}

#[test]
fn as_slice_bytes_out_of_bounds_errors() {
    let ro = ro_with(&[0u8; 16]);
    let err = ro.as_slice_bytes(0, 999).expect_err("OOB must error");
    assert!(matches!(err, MmapIoError::OutOfBounds { .. }));
}

#[test]
fn flush_actions_follow_pending_writes() {
    let mut mmap = rw(1024);
    assert_eq!(mmap.flush(), FlushAction::Skip);
    mmap.update_region(0, b"abc").expect("write");
    assert_eq!(mmap.pending_bytes(), 3); // every policy counts what is written
    assert_eq!(mmap.flush(), FlushAction::Full);
    mmap.record_flush();
    assert_eq!(mmap.flush(), FlushAction::Skip);
    let mut counted = rw_with(1024, FlushPolicy::EveryMillis(50));
    counted.update_region(0, b"abc").expect("write");
    assert_eq!(counted.pending_bytes(), 3);
    assert_eq!(counted.flush(), FlushAction::Full);
    counted.record_flush();
    assert_eq!(counted.pending_bytes(), 0);
    assert_eq!(counted.flush(), FlushAction::Skip);
}

#[test]
fn flush_policy_always_flushes_every_write() {
    let mut mmap = rw_with(64, FlushPolicy::Always);
    assert_eq!(mmap.update_region(0, b"x").expect("write"), FlushAction::Full);
    assert_eq!(mmap.pending_bytes(), 1);
    mmap.record_flush();
    assert_eq!(mmap.pending_bytes(), 0);
}

#[test]
fn flush_policy_threshold_triggers() {
    let mut mmap = rw_with(4096, FlushPolicy::EveryBytes(8));
    assert_eq!(mmap.update_region(0, b"ABCD").expect("write"), FlushAction::Skip);
    assert_eq!(mmap.update_region(4, b"EFGH").expect("write"), FlushAction::Full);
    assert_eq!(mmap.flush_policy(), FlushPolicy::EveryBytes(8));
}

#[test]
fn flush_policy_every_writes_counts_calls() {
    let mut mmap = rw_with(4096, FlushPolicy::EveryWrites(3));
    assert_eq!(mmap.update_region(0, b"a").expect("write"), FlushAction::Skip);
    assert_eq!(mmap.update_region(1, b"bb").expect("write"), FlushAction::Skip);
    assert_eq!(mmap.update_region(3, b"ccc").expect("write"), FlushAction::Full);
    assert_eq!(mmap.pending_bytes(), 3);
}

#[test]
fn flush_range_preserves_accumulator_for_unflushed_writes() {
    let threshold: usize = 1024 * 1024;
    let mut mmap = rw_with(8 * 1024 * 1024, FlushPolicy::EveryBytes(threshold));
    let pre_threshold = threshold - 16 * 1024;
    let payload = vec![0xAAu8; pre_threshold];
    assert_eq!(mmap.update_region(0, &payload).expect("write 1"), FlushAction::Skip);
    let flushed = match mmap.flush_range(0, 4096).expect("flush_range") {
        FlushAction::Range { start, len } => {
            assert_eq!(start, 0);
            assert!(len >= 4096);
            len
        }
        other => panic!("expected a range flush, got {other:?}"),
    };
    mmap.record_range_flush(flushed);
    assert_eq!(mmap.pending_bytes(), (pre_threshold - flushed) as u64);
    let topup = vec![0xBBu8; 32 * 1024];
    assert_eq!(
        mmap.update_region(pre_threshold as u64, &topup).expect("write 2"),
        FlushAction::Full
    );
}

#[test]
fn flush_range_does_not_double_count() {
    let threshold: usize = 64 * 1024;
    let mut mmap = rw_with(1024 * 1024, FlushPolicy::EveryBytes(threshold));
    mmap.update_region(0, &[1u8; 64]).expect("write small");
    if let FlushAction::Range { len, .. } = mmap.flush_range(0, 64).expect("flush_range small") {
        mmap.record_range_flush(len);
    }
    assert_eq!(mmap.pending_bytes(), 0);
    let big = vec![2u8; threshold];
    assert_eq!(mmap.update_region(2048, &big).expect("write big"), FlushAction::Full);
}

#[test]
fn flush_range_errors_and_skips() {
    let mut mmap = rw_with(4096, FlushPolicy::EveryBytes(1 << 20));
    assert!(matches!(
        mmap.flush_range(4000, 200),
        Err(MmapIoError::OutOfBounds { offset: 4000, len: 200, total: 4096 })
    ));
    // Nothing pending: nothing to do.
    assert_eq!(mmap.flush_range(0, 100).expect("flush"), FlushAction::Skip);
    mmap.update_region(4000, b"end").expect("write");
    match mmap.flush_range(4000, 96).expect("flush") {
        FlushAction::Range { start, len } => {
            assert!(start <= 4000);
            assert!(start + len >= 4096);
            assert!(start + len <= 4096);
        }
        other => panic!("expected a range flush, got {other:?}"),
    }
    let ro = ro_with(&[0u8; 64]);
    assert_eq!(ro.flush_range(0, 10).expect("ro flush"), FlushAction::Skip);
}

#[test]
fn flush_window_widens_small_ranges_to_pages() {
    // A microflush is widened to whole pages and cut at the end of the file.
    assert_eq!(flush_window(100, 200, 10000, 4096), (0, 4096));
    assert_eq!(flush_window(4100, 4200, 5000, 4096), (4096, 904));
    // A range of at least a page is flushed as it is.
    assert_eq!(flush_window(10, 5000, 10000, 4096), (10, 4990));
}

#[test]
fn resize_checks_and_remap() {
    let mut mmap = rw(1024);
    mmap.update_region(0, b"before resize").expect("write");
    assert!(mmap.resize(2048).is_ok());
    match mmap.resize(0) {
        Err(e) => assert_eq!(e.to_string(), "resize failed: New size must be greater than zero"),
        Ok(_) => panic!("zero size must be refused"),
    }
    let e = mmap.resize(u64::MAX).expect_err("too large");
    assert!(e.to_string().starts_with("resize failed: New size 18446744073709551615 exceeds"));
    mmap.remapped(MmapMut::map_anon(2048).expect("anon"), 2048).expect("remap");
    assert_eq!(mmap.len(), 2048);
    // The new map is bounded by its own length.
    mmap.remapped(MmapMut::map_anon(512).expect("anon"), 4096).expect("remap");
    assert_eq!(mmap.len(), 512);
    assert!(mmap.shrink_view(100));
    assert_eq!(mmap.len(), 100);
    assert!(!mmap.shrink_view(200));
    assert_eq!(mmap.len(), 100);
}

#[test]
fn remap_refused_for_read_only() {
    let mut ro = ro_with(&[0u8; 8]);
    match ro.remapped(MmapMut::map_anon(16).expect("anon"), 16) {
        Err(MmapIoError::InvalidMode(m)) => {
            assert_eq!(m, "Cannot remap read-only mapping as read-write")
        }
        _ => panic!("expected InvalidMode"),
    }
    assert_eq!(ro.len(), 8);
}

#[test]
fn touch_pages_never_fails() {
    let mmap = rw(3 * 4096 + 17);
    assert!(mmap.touch_pages().is_ok());
    assert!(mmap.touch_pages_range(100, 5000).is_ok());
    assert!(mmap.touch_pages_range(0, 0).is_ok());
    assert!(matches!(
        mmap.touch_pages_range(12000, 1000),
        Err(MmapIoError::OutOfBounds { .. })
    ));
    let empty = rw_with(1, FlushPolicy::Never);
    assert!(empty.touch_pages().is_ok());
}

#[test]
fn bounds_reject_an_end_past_u64_max() {
    assert!(matches!(
        ensure_in_bounds(u64::MAX, 1, u64::MAX),
        Err(MmapIoError::OutOfBounds { offset: u64::MAX, len: 1, total: u64::MAX })
    ));
    assert!(matches!(
        slice_range(u64::MAX, 1, u64::MAX),
        Err(MmapIoError::OutOfBounds { offset: u64::MAX, len: 1, total: u64::MAX })
    ));
    assert!(matches!(slice_range(1, u64::MAX, u64::MAX), Err(MmapIoError::OutOfBounds { .. })));
    assert!(ensure_in_bounds(u64::MAX, 0, u64::MAX).is_ok());
    assert!(ensure_in_bounds(10, u64::MAX - 10, u64::MAX).is_ok());
}

#[test]
fn mutable_view_is_flushed_under_manual_policy() {
    let mut mmap = rw_with(1024, FlushPolicy::Manual);
    mmap.as_slice_mut(10, 4).expect("view").copy_from_slice(b"data");
    assert_eq!(mmap.pending_bytes(), 4);
    assert_eq!(mmap.flush(), FlushAction::Full);
    let _ = mmap.as_slice_mut(0, 0).expect("empty view");
    assert_eq!(mmap.pending_bytes(), 4);
}

#[test]
fn flush_range_window_for_a_given_page_size() {
    let mut mmap = rw_with(16384, FlushPolicy::Manual);
    mmap.update_region(100, &[1u8; 10]).expect("write");
    assert_eq!(
        mmap.flush_range_with_page_size(100, 10, 4096).expect("small"),
        FlushAction::Range { start: 0, len: 4096 }
    );
    assert_eq!(
        mmap.flush_range_with_page_size(5000, 5000, 4096).expect("large"),
        FlushAction::Range { start: 5000, len: 5000 }
    );
    assert_eq!(
        mmap.flush_range_with_page_size(16380, 4, 4096).expect("tail"),
        FlushAction::Range { start: 12288, len: 4096 }
    );
    assert_eq!(
        mmap.flush_range_with_page_size(100, 10, 0).expect("no page size"),
        FlushAction::Range { start: 100, len: 10 }
    );
    mmap.record_range_flush(4096);
    assert_eq!(mmap.pending_bytes(), 0);
}

#[test]
fn every_writes_policy_flushes_every_nth_write() {
    let mut mmap = rw_with(4096, FlushPolicy::EveryWrites(3));
    let mut flushed_at = Vec::new();
    for k in 1..=7u64 {
        if mmap.update_region(k * 8, b"x").expect("write") == FlushAction::Full {
            flushed_at.push(k);
            mmap.record_flush();
        }
    }
    assert_eq!(flushed_at, vec![3, 6]);
    assert_eq!(mmap.pending_bytes(), 1);
}

#[test]
fn read_into_accepts_an_empty_buffer_anywhere() {
    let mut mmap = rw(64);
    let mut empty: [u8; 0] = [];
    assert!(mmap.read_into(1000, &mut empty).is_ok());
    assert!(mmap.read_into(u64::MAX, &mut empty).is_ok());
    // An empty write past the end is accepted, and so is reading it back.
    assert_eq!(mmap.update_region(1000, &[]).expect("empty write"), FlushAction::Skip);
    assert!(mmap.read_into(1000, &mut empty).is_ok());
    // A non-empty buffer past the end is still refused, and left untouched.
    let mut buf = [0xCDu8; 2];
    assert!(matches!(
        mmap.read_into(63, &mut buf),
        Err(MmapIoError::OutOfBounds { offset: 63, len: 2, total: 64 })
    ));
    assert_eq!(buf, [0xCD, 0xCD]);
}

#[test]
fn range_flush_leaves_other_writes_to_the_next_flush() {
    let mut mmap = rw_with(16384, FlushPolicy::Manual);
    mmap.update_region(0, b"a").expect("write low");
    mmap.update_region(12000, b"b").expect("write high");
    assert_eq!(mmap.pending_bytes(), 2);
    // A range flush of the first page debits a whole page: the count drops
    // to zero, but the write at 12000 was not synced.
    match mmap.flush_range_with_page_size(0, 1, 4096).expect("range") {
        FlushAction::Range { start, len } => {
            assert_eq!((start, len), (0, 4096));
            mmap.record_range_flush(len);
        }
        other => panic!("expected a range flush, got {other:?}"),
    }
    assert_eq!(mmap.pending_bytes(), 0);
    assert_eq!(mmap.flush(), FlushAction::Full);
    mmap.record_flush();
    assert_eq!(mmap.flush(), FlushAction::Skip);
    assert_eq!(mmap.flush_range(0, 10).expect("clean"), FlushAction::Skip);
}
