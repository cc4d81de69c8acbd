use memmap2::MmapMut;
use mmap_io::advise::{AdviceRequest, MemoryRange};
use mmap_io::atomic::check_placement;
use mmap_io::flush::{apply_flush_policy, FlushPolicy, FlushTimer};
use mmap_io::iterator::{ChunkIteratorOwned, PageIteratorOwned};
use mmap_io::mmap::{wants_huge_mapping, FlushAction, OpenPlan};
use mmap_io::segment::{Segment, SegmentMut};
use mmap_io::utils::page_size;
use mmap_io::watch::{dispatch, map_notify_kind, NotifyKind, WatchStep};
use mmap_io::{ChangeEvent, ChangeKind, MemoryMappedFile, MmapAdvice, MmapIoError, MmapMode, TouchHint};

fn rw(len: usize) -> MemoryMappedFile {
    MemoryMappedFile::from_rw_map(MmapMut::map_anon(len).expect("anon map"), FlushPolicy::Never, false)
}

fn ro_with(bytes: &[u8]) -> MemoryMappedFile {
    let mut m = MmapMut::map_anon(bytes.len()).expect("anon map");
    m.copy_from_slice(bytes);
    MemoryMappedFile::from_ro_map(m.make_read_only().expect("read only"))
}

#[test]
fn test_segment_operations() {
    let mut mmap = rw(1024);
    let seg1 = Segment::new(&mmap, 0, 100).expect("segment 1");
    let seg2 = Segment::new(&mmap, 100, 200).expect("segment 2");
    assert_eq!(seg1.len(), 100);
    assert_eq!(seg1.offset(), 0);
    assert!(!seg1.is_empty());
    assert_eq!(seg2.len(), 200);
    assert_eq!(seg2.offset(), 100);
    let seg_mut = SegmentMut::new(&mmap, 500, 100).expect("mutable segment");
    seg_mut.write(&mut mmap, b"segment data").expect("write to segment");
    let mut buf = [0u8; 12];
    mmap.read_into(500, &mut buf).expect("read");
    assert_eq!(&buf, b"segment data");
    assert_eq!(seg_mut.as_slice_mut(&mut mmap).expect("slice").len(), 100);
}

#[test]
fn test_segment_bounds_checking() {
    let mmap = rw(1024);
    assert!(Segment::new(&mmap, 0, 1024).is_ok());
    assert!(Segment::new(&mmap, 1024, 1).is_err());
    assert!(Segment::new(&mmap, 0, 1025).is_err());
    assert!(Segment::new(&mmap, 500, 600).is_err());
}

#[test]
fn segment_remains_valid_when_parent_grows() {
    let mut mmap = rw(1024);
    let seg = Segment::new(&mmap, 512, 512).expect("segment");
    assert!(seg.is_valid(&mmap));
    mmap.remapped(MmapMut::map_anon(4096).expect("anon"), 4096).expect("grow");
    assert!(seg.is_valid(&mmap));
    let s = seg.as_slice(&mmap).expect("RW as_slice should succeed");
    assert_eq!(s.len() as u64, seg.len());
}

#[test]
fn segment_returns_oob_after_parent_shrinks_past_range() {
    let mut mmap = rw(1024);
    let seg = Segment::new(&mmap, 900, 124).expect("segment");
    assert!(seg.is_valid(&mmap));
    mmap.remapped(MmapMut::map_anon(500).expect("anon"), 500).expect("shrink");
    assert!(!seg.is_valid(&mmap), "segment must report invalid after shrink past its range");
    match seg.as_slice(&mmap) {
        Err(MmapIoError::OutOfBounds { .. }) => {}
        Err(e) => panic!("expected OutOfBounds, got {}", e.to_string()),
        Ok(_) => panic!("expected OutOfBounds, got Ok"),
    }
}

#[test]
fn segment_mut_returns_oob_after_parent_shrinks_past_range() {
    let mut mmap = rw(1024);
    let seg = SegmentMut::new(&mmap, 900, 124).expect("segment");
    assert!(seg.is_valid(&mmap));
    mmap.remapped(MmapMut::map_anon(500).expect("anon"), 500).expect("shrink");
    assert!(!seg.is_valid(&mmap));
    match seg.write(&mut mmap, b"should fail") {
        Err(MmapIoError::OutOfBounds { .. }) => {}
        _ => panic!("expected OutOfBounds"),
    }
    match seg.as_slice_mut(&mut mmap) {
        Err(MmapIoError::OutOfBounds { .. }) => {}
        _ => panic!("expected OutOfBounds"),
    }
}

#[test]
fn segment_mut_write_succeeds_when_parent_still_covers_range() {
    let mut mmap = rw(4096);
    let seg = SegmentMut::new(&mmap, 100, 50).expect("segment");
    mmap.remapped(MmapMut::map_anon(2048).expect("anon"), 2048).expect("partial shrink");
    assert!(seg.is_valid(&mmap));
    seg.write(&mut mmap, b"data").expect("write after partial shrink");
}

#[test]
fn test_chunk_iterator_zero_copy() {
    let mut mmap = rw(10240);
    for i in 0..10u64 {
        let data = vec![i as u8; 1024];
        mmap.update_region(i * 1024, &data).expect("write");
    }
    let mut chunks: Vec<Vec<u8>> = Vec::new();
    let mut it = mmap.chunks(1024);
    while let Some(s) = it.next() {
        chunks.push(s.to_vec());
    }
    assert_eq!(chunks.len(), 10);
    for (i, chunk) in chunks.iter().enumerate() {
        assert_eq!(chunk.len(), 1024);
        assert!(chunk.iter().all(|&b| b == i as u8));
    }
    let mut lens = Vec::new();
    let mut it = mmap.chunks(3000);
    while let Some(s) = it.next() {
        lens.push(s.len());
    }
    assert_eq!(lens, vec![3000, 3000, 3000, 1240]);
}

#[test]
fn test_page_iterator_zero_copy() {
    let ps = page_size();
    let mmap = rw(ps * 3 + 100);
    let mut it = mmap.pages();
    let mut pages = Vec::new();
    while let Some(p) = it.next() {
        pages.push(p.len());
    }
    assert_eq!(pages, vec![ps, ps, ps, 100]);
}

#[test]
fn test_chunks_owned_compat() {
    let mut mmap = rw(4096);
    mmap.update_region(0, &vec![0x11u8; 4096]).expect("write");
    let mut it = mmap.chunks_owned(1024);
    let mut owned = Vec::new();
    while let Some(c) = it.next() {
        owned.push(c.expect("chunk"));
    }
    assert_eq!(owned.len(), 4);
    for v in &owned {
        assert_eq!(v.len(), 1024);
        assert!(v.iter().all(|&b| b == 0x11));
    }
    let mut pages = PageIteratorOwned::new(&mmap).expect("pages");
    assert!(pages.next().is_some());
    let mut chunks = ChunkIteratorOwned::new(&mmap, 5000).expect("chunks");
    assert_eq!(chunks.size_hint(), (1, Some(1)));
}

#[test]
fn test_iterator_size_hint() {
    let mmap = rw(10000);
    assert_eq!(mmap.chunks(1000).size_hint(), (10, Some(10)));
    assert_eq!(mmap.chunks(3000).size_hint(), (4, Some(4)));
    let mut it = mmap.chunks(3000);
    it.next();
    assert_eq!(it.size_hint(), (3, Some(3)));
}

#[test]
fn test_iterator_zero_chunk_size_yields_nothing() {
    let mmap = rw(4096);
    let mut it = mmap.chunks(0);
    assert!(it.next().is_none());
    assert_eq!(it.size_hint(), (0, Some(0)));
}

#[test]
fn test_one_byte_file_iteration() {
    let mmap = rw(1);
    let mut it = mmap.chunks(1024);
    assert_eq!(it.next().map(|s| s.len()), Some(1));
    assert!(it.next().is_none());
}

#[test]
fn test_mutable_chunk_iterator_single_guard() {
    let mut mmap = rw(4096);
    mmap.chunks_mut(1024)
        .for_each_mut(|offset, chunk| {
            let value = (offset / 1024) as u8;
            chunk.fill(value);
            Ok(())
        })
        .expect("for_each_mut");
    let mut buf = [0u8; 1024];
    for i in 0..4u64 {
        mmap.read_into(i * 1024, &mut buf).expect("read");
        assert!(buf.iter().all(|&b| b == i as u8));
    }
}

#[test]
fn chunks_mut_refused_on_read_only() {
    let mut ro = ro_with(&[0u8; 64]);
    match ro.chunks_mut(16).for_each_mut(|_, _| Ok(())) {
        Err(MmapIoError::InvalidMode(m)) => assert_eq!(m, "chunks_mut requires ReadWrite mode"),
        _ => panic!("expected InvalidMode"),
    }
    assert!(ro.chunks_mut(0).for_each_mut(|_, _| Ok(())).is_ok());
}

#[test]
fn for_each_mut_stops_at_first_error() {
    let mut mmap = rw(4096);
    let mut seen = Vec::new();
    let r = mmap.chunks_mut(1024).for_each_mut(|offset, _| {
        seen.push(offset);
        if offset == 2048 {
            Err(MmapIoError::InvalidMode("stop"))
        } else {
            Ok(())
        }
    });
    assert!(matches!(r, Err(MmapIoError::InvalidMode("stop"))));
    assert_eq!(seen, vec![0, 1024, 2048]);
}

#[test]
fn for_each_mut_legacy_clean_iteration_returns_ok_ok() {
    let mut mmap = rw(4096);
    let outer = mmap
        .chunks_mut(1024)
        .for_each_mut_legacy(|_off, chunk| -> Result<(), std::io::Error> {
            chunk.fill(0xAB);
            Ok(())
        })
        .expect("outer mmap-side Result");
    outer.expect("inner closure-side Result");
}

#[test]
fn for_each_mut_legacy_propagates_closure_error_as_inner_err() {
    let mut mmap = rw(4096);
    let mut seen = Vec::new();
    let outer = mmap
        .chunks_mut(1024)
        .for_each_mut_legacy(|off, chunk| -> Result<(), &'static str> {
            seen.push(off);
            if off >= 2048 {
                Err("bail at chunk 2")
            } else {
                chunk.fill(0xAB);
                Ok(())
            }
        });
    let inner = outer.expect("outer Result must be Ok");
    assert_eq!(inner, Err("bail at chunk 2"));
    assert_eq!(seen, vec![0, 1024, 2048]);
    assert!(mmap.as_slice(0, 2048).expect("head").iter().all(|&b| b == 0xAB));
    assert!(mmap.as_slice(2048, 2048).expect("tail").iter().all(|&b| b == 0));
}

#[test]
fn for_each_mut_passes_each_chunk_in_order() {
    let mut mmap = rw(2500);
    mmap.update_region(0, &[7u8; 2500]).expect("fill");
    let mut calls = Vec::new();
    mmap.chunks_mut(1000)
        .for_each_mut(|offset, chunk| {
            calls.push((offset, chunk.len(), chunk.iter().all(|&b| b == 7)));
            chunk[0] = 1;
            Ok(())
        })
        .expect("pass");
    assert_eq!(calls, vec![(0, 1000, true), (1000, 1000, true), (2000, 500, true)]);
    assert_eq!(mmap.as_slice(0, 1).expect("b0"), &[1u8]);
    assert_eq!(mmap.as_slice(1000, 1).expect("b1"), &[1u8]);
    assert_eq!(mmap.as_slice(2000, 1).expect("b2"), &[1u8]);
    assert_eq!(mmap.as_slice(2001, 1).expect("b3"), &[7u8]);
}

#[test]
fn for_each_mut_marks_the_mapping_pending() {
    let mut mmap = rw(4096);
    assert_eq!(mmap.pending_bytes(), 0);
    mmap.chunks_mut(1024).for_each_mut(|_, _| Ok(())).expect("pass");
    assert_eq!(mmap.pending_bytes(), 4096);
    assert_eq!(mmap.flush(), FlushAction::Full);
}

#[test]
fn chunk_iterator_size_hint_counts_unyielded_bytes() {
    let mmap = rw(10000);
    let mut it = mmap.chunks(3000);
    assert_eq!(it.size_hint(), (4, Some(4)));
    assert_eq!(it.next().map(|s| s.len()), Some(3000));
    assert_eq!(it.size_hint(), (3, Some(3)));
    assert_eq!(it.next().map(|s| s.len()), Some(3000));
    assert_eq!(it.next().map(|s| s.len()), Some(3000));
    assert_eq!(it.size_hint(), (1, Some(1)));
    assert_eq!(it.next().map(|s| s.len()), Some(1000));
    assert_eq!(it.size_hint(), (0, Some(0)));
}

#[test]
fn test_atomic_u64_operations() {
    let mmap = rw(64);
    assert_eq!(mmap.atomic_u64(0).expect("atomic at 0"), 0);
    assert_eq!(mmap.atomic_u64(8).expect("atomic at 8"), 8);
    assert!(matches!(
        mmap.atomic_u64(1),
        Err(MmapIoError::Misaligned { required: 8, offset: 1 })
    ));
    assert!(matches!(
        mmap.atomic_u64(7),
        Err(MmapIoError::Misaligned { required: 8, offset: 7 })
    ));
    assert!(mmap.atomic_u64(64).is_err());
    assert!(mmap.atomic_u64(57).is_err());
}

#[test]
fn test_atomic_u32_operations() {
    let mmap = rw(32);
    assert_eq!(mmap.atomic_u32(0).expect("atomic at 0"), 0);
    assert_eq!(mmap.atomic_u32(4).expect("atomic at 4"), 4);
    assert!(matches!(
        mmap.atomic_u32(1),
        Err(MmapIoError::Misaligned { required: 4, offset: 1 })
    ));
    assert!(matches!(
        mmap.atomic_u32(3),
        Err(MmapIoError::Misaligned { required: 4, offset: 3 })
    ));
    assert!(mmap.atomic_u32(32).is_err());
    assert!(mmap.atomic_u32(29).is_err());
}

#[test]
fn test_atomic_slices() {
    let mmap = rw(128);
    assert_eq!(mmap.atomic_u64_slice(0, 4).expect("u64 slice"), 0);
    assert_eq!(mmap.atomic_u32_slice(64, 8).expect("u32 slice"), 64);
    assert!(mmap.atomic_u64_slice(1, 2).is_err());
    assert!(mmap.atomic_u32_slice(2, 2).is_err());
    assert!(matches!(
        mmap.atomic_u64_slice(120, 2),
        Err(MmapIoError::OutOfBounds { offset: 120, len: 16, total: 128 })
    ));
    assert!(mmap.atomic_u32_slice(124, 2).is_err());
    // A count whose byte size overflows saturates and is refused.
    assert!(matches!(
        check_placement(0, 8, 8, u64::MAX, 128),
        Err(MmapIoError::OutOfBounds { len: u64::MAX, .. })
    ));
}

#[test]
fn advise_and_lock_ranges() {
    let mmap = rw(8192);
    assert_eq!(
        mmap.advise(0, 4096, MmapAdvice::Sequential).expect("advise"),
        Some(AdviceRequest { range: MemoryRange { start: 0, len: 4096 }, advice: MmapAdvice::Sequential })
    );
    assert_eq!(mmap.advise(0, 0, MmapAdvice::Random).expect("empty"), None);
    assert!(mmap.advise(8000, 500, MmapAdvice::WillNeed).is_err());
    assert_eq!(mmap.lock(0, 4096).expect("lock"), Some(MemoryRange { start: 0, len: 4096 }));
    assert_eq!(mmap.lock(0, 0).expect("empty lock"), None);
    assert_eq!(mmap.unlock(0, 0).expect("empty unlock"), None);
    assert!(mmap.lock(8192, 1).is_err());
    assert!(mmap.unlock(8192, 1).is_err());
    assert_eq!(mmap.lock_all().expect("all"), Some(MemoryRange { start: 0, len: 8192 }));
    assert_eq!(mmap.unlock_all().expect("all"), Some(MemoryRange { start: 0, len: 8192 }));
}

#[test]
fn notify_kinds_map_to_changes() {
    assert_eq!(map_notify_kind(&NotifyKind::Create), Some(ChangeKind::Modified));
    assert_eq!(map_notify_kind(&NotifyKind::ModifyData), Some(ChangeKind::Modified));
    assert_eq!(map_notify_kind(&NotifyKind::ModifyMetadata), Some(ChangeKind::Metadata));
    assert_eq!(map_notify_kind(&NotifyKind::ModifyName), Some(ChangeKind::Removed));
    assert_eq!(map_notify_kind(&NotifyKind::Remove), Some(ChangeKind::Removed));
    assert_eq!(map_notify_kind(&NotifyKind::Access), None);
    assert_eq!(map_notify_kind(&NotifyKind::Other), Some(ChangeKind::Modified));
    let modified = ChangeEvent { offset: None, len: None, kind: ChangeKind::Modified };
    assert_eq!(dispatch(None), WatchStep { event: Some(modified), stop: false });
    assert_eq!(dispatch(Some(NotifyKind::Access)), WatchStep { event: None, stop: false });
    let removed = ChangeEvent { offset: None, len: None, kind: ChangeKind::Removed };
    assert_eq!(dispatch(Some(NotifyKind::Remove)), WatchStep { event: Some(removed), stop: true });
}

#[test]
fn builder_plans() {
    let plan = MemoryMappedFile::builder("file.bin".to_string())
        .mode(MmapMode::ReadWrite)
        .size(1_000_000)
        .flush_policy(FlushPolicy::EveryMillis(100))
        .touch_hint(TouchHint::Eager)
        .huge_pages(true)
        .create_plan()
        .expect("plan");
    assert_eq!(
        plan,
        OpenPlan {
            mode: MmapMode::ReadWrite,
            create_size: Some(1_000_000),
            reject_empty: false,
            flush_policy: FlushPolicy::EveryMillis(100),
            huge_pages: true,
            touch_pages: true,
            flusher_interval_ms: Some(100),
        }
    );
    match MemoryMappedFile::builder("f".to_string()).create_plan() {
        Err(e) => assert_eq!(
            e.to_string(),
            "resize failed: Size must be set for create() in ReadWrite mode"
        ),
        Ok(_) => panic!("size is required"),
    }
    assert!(MemoryMappedFile::builder("f".to_string()).size(0).create_plan().is_err());
    let open = MemoryMappedFile::builder("f".to_string()).open_plan();
    assert_eq!(open.mode, MmapMode::ReadOnly);
    assert_eq!(open.flush_policy, FlushPolicy::Never);
    let open_rw = MemoryMappedFile::builder("f".to_string())
        .mode(MmapMode::ReadWrite)
        .flush_policy(FlushPolicy::EveryBytes(10))
        .open_plan();
    assert!(open_rw.reject_empty);
    assert_eq!(open_rw.flush_policy, FlushPolicy::EveryBytes(10));
    assert_eq!(open_rw.flusher_interval_ms, None);
    let b = MemoryMappedFile::builder("data.bin".to_string());
    assert_eq!(b.path(), "data.bin");
    assert!(wants_huge_mapping(true, 4 << 20));
    assert!(!wants_huge_mapping(true, 1024));
    assert!(!wants_huge_mapping(false, 4 << 20));
}

#[test]
fn flush_policy_accounting() {
    assert_eq!(apply_flush_policy(FlushPolicy::Never, 5, 10), (15, false));
    assert_eq!(apply_flush_policy(FlushPolicy::Manual, 5, 10), (15, false));
    assert_eq!(apply_flush_policy(FlushPolicy::Always, 5, 10), (15, true));
    assert_eq!(apply_flush_policy(FlushPolicy::EveryBytes(16), 5, 10), (15, false));
    assert_eq!(apply_flush_policy(FlushPolicy::EveryBytes(15), 5, 10), (15, true));
    assert_eq!(apply_flush_policy(FlushPolicy::EveryBytes(0), 5, 10), (15, false));
    assert_eq!(apply_flush_policy(FlushPolicy::EveryWrites(0), 5, 10), (6, false));
    assert_eq!(apply_flush_policy(FlushPolicy::EveryMillis(0), 5, 10), (15, false));
    assert_eq!(apply_flush_policy(FlushPolicy::EveryWrites(2), 1, 10), (2, true));
    assert_eq!(apply_flush_policy(FlushPolicy::EveryMillis(10), 1, 10), (11, false));
    assert_eq!(apply_flush_policy(FlushPolicy::Always, u64::MAX, 10), (u64::MAX, true));
    assert_eq!(FlushPolicy::default(), FlushPolicy::Never);
    assert_eq!(TouchHint::default(), TouchHint::Never);
}

#[test]
fn flush_timer_fires_once_per_interval() {
    assert!(FlushTimer::new(0).is_none());
    let mut t = FlushTimer::new(120).expect("timer");
    let mut slept = 0;
    let mut fired_at = Vec::new();
    for _ in 0..7 {
        let s = t.next_sleep();
        assert!(s > 0 && s <= 50);
        slept += s;
        if t.after_sleep(s) {
            fired_at.push(slept);
        }
    }
    assert_eq!(fired_at, vec![120, 240]);
    let mut short = FlushTimer::new(10).expect("timer");
    assert_eq!(short.next_sleep(), 10);
    assert!(short.after_sleep(10));
}

#[test]
fn manager_forwards() {
    let mut mmap = rw(64);
    assert_eq!(mmap_io::update_region(&mut mmap, 0, b"hi").expect("write"), FlushAction::Skip);
    assert_eq!(mmap_io::flush(&mmap), FlushAction::Full);
    assert_eq!(mmap.as_slice(0, 2).expect("read"), b"hi");
}
