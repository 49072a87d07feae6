use std::collections::HashMap;

use kernel_mm::bitset::BitSet;
use kernel_mm::cow::{copy_on_write, try_copy_on_write};
use kernel_mm::directory::{FreeablePageDir, PageDirectory};
use kernel_mm::frame::{Errno, PageFrame, PagingError, PAGE_SIZE};
use kernel_mm::manager::PageManager;
use kernel_mm::pagedir::PageDir;
use kernel_mm::refcount::{free_page, free_page_dir, PageRefCounter, SharedRegions};
use kernel_mm::region::{find_hole, validate_region};
use kernel_mm::transient::{begin_map_memory, cow_pages, end_map_memory, source_frames};

struct NoSharedRegions;

impl SharedRegions for NoSharedRegions {
    fn free_shared_reference(&mut self, _phys: u64) -> bool {
        false
    }
}

struct AllShared {
    released: Vec<u64>,
}

impl SharedRegions for AllShared {
    fn free_shared_reference(&mut self, phys: u64) -> bool {
        self.released.push(phys);
        true
    }
}

const BUFFER: usize = 0xe100_0000;

fn frame(addr: u64) -> PageFrame {
    PageFrame {
        addr,
        present: true,
        user_mode: true,
        writable: true,
        copy_on_write: false,
        executable: true,
        referenced: false,
        shared: false,
    }
}

fn cow_frame(addr: u64) -> PageFrame {
    PageFrame { writable: false, copy_on_write: true, referenced: true, ..frame(addr) }
}

fn directory() -> PageDir {
    PageDir::new(0x1000, vec![0x0010_0000, 0x0010_1000, 0x0010_2000, 0x0010_3000])
}

fn manager(frames: usize) -> PageManager {
    PageManager::new(BitSet::new(frames), PAGE_SIZE)
}

#[test]
fn alloc_free_round_trip() {
    let mut m = manager(64);
    let a = m.alloc_frame().unwrap();
    let b = m.alloc_frame().unwrap();
    let c = m.alloc_frame().unwrap();
    assert_eq!((a, b, c), (0, 0x1000, 0x2000));
    assert!(a != b && b != c && a != c);
    m.set_frame_free(b);
    assert_eq!(m.alloc_frame().unwrap(), b);
    assert_eq!(m.alloc_frame().unwrap(), 0x3000);
}

#[test]
fn alloc_frame_exhausted() {
    let mut m = manager(2);
    m.alloc_frame().unwrap();
    m.alloc_frame().unwrap();
    assert!(matches!(m.alloc_frame(), Err(PagingError::NoAvailableFrames)));
    assert_eq!(m.first_available_frame(), None);
}

#[test]
fn first_available_frame_skips_used() {
    let mut m = manager(16);
    m.set_frame_used(0);
    m.set_frame_used(0x1000);
    assert_eq!(m.first_available_frame(), Some(0x2000));
    m.set_frame_free(0);
    assert_eq!(m.first_available_frame(), Some(0));
}

#[test]
fn cow_fork_with_one_writer() {
    let mut parent = directory();
    let mut child = directory();
    parent.set_page(0x1000, Some(cow_frame(0x40000))).unwrap();
    child.set_page(0x1000, Some(cow_frame(0x40000))).unwrap();
    parent.set_page(BUFFER, Some(frame(0x50000))).unwrap();
    let mut refs = PageRefCounter::new();
    refs.add_references(0x40000, 2);
    let mut m = manager(256);
    m.set_frame_used(0x40000);
    m.set_frame_used(0x50000);
    let mut shared = NoSharedRegions;

    let copied = try_copy_on_write(&mut parent, &mut refs, &mut m, &mut shared, 0x1000, BUFFER).unwrap();
    assert!(copied);

    let mine = parent.get_page(0x1000).unwrap();
    assert!(mine.addr != 0x40000);
    assert_eq!(mine.addr, 0x50000);
    assert!(mine.writable && !mine.copy_on_write);
    let theirs = child.get_page(0x1000).unwrap();
    assert_eq!(theirs.addr, 0x40000);
    assert!(!theirs.writable);
    assert_eq!(refs.get_references_for(0x40000), 1);
    // the buffer now has a frame of its own, the lowest free one
    assert_eq!(parent.get_page(BUFFER).unwrap().addr, 0);
}

#[test]
fn cow_with_single_owner() {
    let mut parent = directory();
    parent.set_page(0x1000, Some(cow_frame(0x40000))).unwrap();
    parent.set_page(BUFFER, Some(frame(0x50000))).unwrap();
    let mut refs = PageRefCounter::new();
    refs.add_reference(0x40000);
    let mut m = manager(256);
    m.set_frame_used(0x40000);
    let before = m.first_available_frame();
    let mut shared = NoSharedRegions;

    assert_eq!(try_copy_on_write(&mut parent, &mut refs, &mut m, &mut shared, 0x1234, BUFFER), Ok(true));

    let page = parent.get_page(0x1000).unwrap();
    assert_eq!(page.addr, 0x40000);
    assert!(page.writable && !page.copy_on_write);
    assert_eq!(m.first_available_frame(), before);
    assert_eq!(parent.get_page(BUFFER).unwrap().addr, 0x50000);
    assert_eq!(refs.get_references_for(0x40000), 0);
}

#[test]
fn cow_decrements_reference_count() {
    let mut d = directory();
    d.set_page(0x7000, Some(cow_frame(0x9000))).unwrap();
    d.set_page(BUFFER, Some(frame(0xa000))).unwrap();
    let mut refs = PageRefCounter::new();
    refs.add_references(0x9000, 3);
    let mut m = manager(64);
    m.set_frame_used(0x9000);
    m.set_frame_used(0xa000);
    let page = d.get_page(0x7000).unwrap();
    let r = copy_on_write(&mut d, &mut refs, &mut m, &mut NoSharedRegions, 0x7000, page, BUFFER).unwrap();
    assert_eq!(r.addr, 0xa000);
    assert_eq!(refs.get_references_for(0x9000), 2);
    assert_eq!(d.get_page(0x7000).unwrap().addr, 0xa000);
}

#[test]
fn cow_without_buffer_mapping_fails() {
    let mut d = directory();
    d.set_page(0x7000, Some(cow_frame(0x9000))).unwrap();
    let mut refs = PageRefCounter::new();
    refs.add_references(0x9000, 2);
    let mut m = manager(64);
    let page = d.get_page(0x7000).unwrap();
    let r = copy_on_write(&mut d, &mut refs, &mut m, &mut NoSharedRegions, 0x7000, page, BUFFER);
    assert_eq!(r, Err(PagingError::BadAddress));
    assert_eq!(d.get_page(0x7000), Some(page));
    assert_eq!(refs.get_references_for(0x9000), 2);
}

#[test]
fn cow_out_of_frames_restores_mapping() {
    let mut d = directory();
    d.set_page(0x7000, Some(cow_frame(0x1000))).unwrap();
    d.set_page(BUFFER, Some(frame(0x0))).unwrap();
    let mut refs = PageRefCounter::new();
    refs.add_references(0x1000, 2);
    let mut m = manager(2);
    m.set_frame_used(0);
    m.set_frame_used(0x1000);
    let page = d.get_page(0x7000).unwrap();
    let r = copy_on_write(&mut d, &mut refs, &mut m, &mut NoSharedRegions, 0x7000, page, BUFFER);
    assert_eq!(r, Err(PagingError::NoAvailableFrames));
    assert_eq!(d.get_page(0x7000), Some(page));
    assert_eq!(refs.get_references_for(0x1000), 2);
}

#[test]
fn try_cow_on_plain_and_missing_pages() {
    let mut d = directory();
    d.set_page(0x3000, Some(frame(0x3000))).unwrap();
    let mut refs = PageRefCounter::new();
    let mut m = manager(16);
    assert_eq!(try_copy_on_write(&mut d, &mut refs, &mut m, &mut NoSharedRegions, 0x3000, BUFFER), Ok(false));
    assert_eq!(try_copy_on_write(&mut d, &mut refs, &mut m, &mut NoSharedRegions, 0x5000, BUFFER), Err(Errno::BadAddress));
}

#[test]
fn transient_map_of_foreign_memory() {
    let mut foreign = directory();
    foreign.set_page(0x80000, Some(frame(0xaa000))).unwrap();
    let mut kernel = directory();
    kernel.set_page(BUFFER, Some(frame(0x60000))).unwrap();
    let mut memory: HashMap<u64, Vec<u8>> = HashMap::new();

    let span = source_frames(&foreign, 0x80000, 0xfff).unwrap();
    assert_eq!(span.offset, 0);
    let addresses: Vec<u64> = span.frames.iter().map(|f| f.addr).collect();
    assert_eq!(addresses, vec![0xaa000]);
    let saved = begin_map_memory(&mut kernel, &addresses, BUFFER).unwrap();
    assert_eq!(saved, vec![0x60000]);

    // the closure writes through the buffer
    let phys = kernel.virt_to_phys(BUFFER + span.offset).unwrap();
    memory.entry(phys & !0xfff).or_insert_with(|| vec![0; PAGE_SIZE])[(phys & 0xfff) as usize] = 0x42;

    end_map_memory(&mut kernel, BUFFER, &saved);

    let back = foreign.virt_to_phys(0x80000).unwrap();
    assert_eq!(memory[&back][0], 0x42);
    assert_eq!(kernel.get_page(BUFFER).unwrap().addr, 0x60000);
}

#[test]
fn transient_map_restores_every_page() {
    let mut kernel = directory();
    for i in 0..3 {
        kernel.set_page(BUFFER + i * PAGE_SIZE, Some(frame(0x60000 + (i * PAGE_SIZE) as u64))).unwrap();
    }
    kernel.set_page(0x2000, Some(frame(0x7000))).unwrap();
    let before: Vec<Option<PageFrame>> = (0..3).map(|i| kernel.get_page(BUFFER + i * PAGE_SIZE)).collect();
    let saved = begin_map_memory(&mut kernel, &vec![0x90000, 0x91000, 0x92000], BUFFER).unwrap();
    assert_eq!(kernel.get_page(BUFFER + PAGE_SIZE).unwrap().addr, 0x91000);
    end_map_memory(&mut kernel, BUFFER, &saved);
    for i in 0..3 {
        assert_eq!(kernel.get_page(BUFFER + i * PAGE_SIZE).unwrap().addr, before[i].unwrap().addr);
    }
    assert_eq!(kernel.get_page(0x2000).unwrap().addr, 0x7000);
    assert!(kernel.is_unused(BUFFER + 3 * PAGE_SIZE));
}

#[test]
fn transient_map_refuses_own_frames_and_holes() {
    let mut kernel = directory();
    kernel.set_page(BUFFER, Some(frame(0x60000))).unwrap();
    assert_eq!(begin_map_memory(&mut kernel, &vec![0x60000], BUFFER), Err(PagingError::FrameInUse));
    assert_eq!(begin_map_memory(&mut kernel, &vec![0x1000, 0x2000], BUFFER), Err(PagingError::BadAddress));
    assert_eq!(kernel.get_page(BUFFER).unwrap().addr, 0x60000);
}

#[test]
fn source_frames_spans_pages_and_detects_holes() {
    let mut d = directory();
    d.set_page(0x10000, Some(frame(0x20000))).unwrap();
    d.set_page(0x11000, Some(frame(0x21000))).unwrap();
    let span = source_frames(&d, 0x10ff0, 0x20).unwrap();
    assert_eq!(span.offset, 0xff0);
    assert_eq!(span.frames.len(), 2);
    assert_eq!(span.frames[1].addr, 0x21000);
    assert!(matches!(source_frames(&d, 0x11000, 0x1001), Err(PagingError::BadAddress)));
}

#[test]
fn find_hole_scenario() {
    let mut d = directory();
    for a in [0x1000usize, 0x2000, 0x4000] {
        d.set_page(a, Some(frame(a as u64))).unwrap();
    }
    assert_eq!(find_hole(&d, 0, 0x10000, 0x2000), Some(0x5000));
    assert_eq!(find_hole(&d, 0, 0x10000, 0x1000), Some(0));
    assert_eq!(find_hole(&d, 0x1000, 0x10000, 0x1000), Some(0x3000));
    assert_eq!(find_hole(&d, 0, 0x6000, 0x2000), None);
    assert_eq!(find_hole(&d, 0, 0x7000, 0x1001), Some(0x5000));
}

#[test]
fn validate_region_checks_every_page() {
    let mut d = directory();
    d.set_page(0x1000, Some(frame(0x1000))).unwrap();
    d.set_page(0x2000, Some(frame(0x2000))).unwrap();
    assert!(validate_region(&d, 0x1000, 0x2000));
    assert!(validate_region(&d, 0x1800, 0x1000));
    assert!(!validate_region(&d, 0x1800, 0x2000));
    assert!(!validate_region(&d, 0x0, 0x10));
    assert!(validate_region(&d, 0x2fff, 1));
}

#[test]
fn unmap_after_map_leaves_page_unused() {
    let mut d = directory();
    d.set_page(0x5000, Some(frame(0x8000))).unwrap();
    assert!(!d.is_unused(0x5000));
    d.set_page(0x5000, None).unwrap();
    assert_eq!(d.get_page(0x5000), None);
    assert!(d.is_unused(0x5000));
}

#[test]
fn virt_to_phys_adds_offset() {
    let mut d = directory();
    d.set_page(0x5000, Some(frame(0x8000))).unwrap();
    assert_eq!(d.virt_to_phys(0x5abc), Some(0x8abc));
    assert_eq!(d.get_page(0x5abc & !(PAGE_SIZE - 1)).unwrap().addr, 0x8000);
    assert_eq!(d.virt_to_phys(0x6000), None);
}

#[test]
fn set_page_errors() {
    let mut d = PageDir::new(0x1000, vec![0x0010_0000]);
    assert_eq!(d.set_page(0x5000, Some(frame(0x1_0000_0000))), Err(PagingError::BadFrame));
    d.set_page(0x5000, Some(frame(0x8000))).unwrap();
    // the only spare table frame is taken: another region cannot get a table
    assert_eq!(d.set_page(0x0040_0000, Some(frame(0x9000))), Err(PagingError::AllocError));
    assert_eq!(d.set_page(0x0040_0000, None), Ok(()));
    d.add_table_frame(0x0020_0000);
    assert_eq!(d.set_page(0x0040_0000, Some(frame(0x9000))), Ok(()));
    assert!(d.has_page_table(0x0040_0000));
}

#[test]
fn kernel_half_entries_are_global() {
    let mut d = directory();
    d.set_page(BUFFER, Some(frame(0x60000))).unwrap();
    let v = BUFFER / PAGE_SIZE;
    let table = d.tables[v / 1024].as_ref().unwrap();
    assert!(table.table.entries[v % 1024].get_flags() & 0x100 != 0);
    d.set_page(0x1000, Some(frame(0x60000))).unwrap();
    let table = d.tables[0].as_ref().unwrap();
    assert_eq!(table.table.entries[1].get_flags() & 0x100, 0);
}

#[test]
fn alloc_frame_at_and_free_frame() {
    let mut d = directory();
    let mut m = manager(64);
    assert_eq!(m.alloc_frame_at(&mut d, 0x3000, 0x5000, true, true, false), Ok(()));
    assert_eq!(m.first_available_frame(), Some(0));
    m.set_frame_used(0);
    let page = d.get_page(0x3000).unwrap();
    assert_eq!(page.addr, 0x5000);
    assert!(page.present && page.user_mode && page.writable);
    assert_eq!(m.alloc_frame_at(&mut d, 0x3000, 0x6000, true, true, false), Err(PagingError::FrameInUse));
    assert_eq!(m.free_frame(&mut d, 0x3000), Ok(0x5000));
    assert!(d.is_unused(0x3000));
    assert_eq!(m.free_frame(&mut d, 0x3000), Err(PagingError::FrameUnused));
    m.set_frame_used(0x1000);
    m.set_frame_used(0x2000);
    m.set_frame_used(0x3000);
    m.set_frame_used(0x4000);
    assert_eq!(m.first_available_frame(), Some(0x5000));
}

#[test]
fn sync_from_dir_marks_mapped_frames() {
    let mut d = directory();
    d.set_page(0x1000, Some(frame(0x3000))).unwrap();
    d.set_page(BUFFER, Some(frame(0x5000))).unwrap();
    d.set_page(0x2000, Some(frame(0x100_0000))).unwrap();
    let mut m = manager(8);
    m.sync_from_dir(&d);
    let usage = m.print_free();
    assert_eq!((usage.used, usage.size, usage.percent), (2, 8, 25));
    assert!(m.frame_set.test(3) && m.frame_set.test(5));
    assert!(!m.frame_set.test(0) && !m.frame_set.test(1));
}

#[test]
fn reference_counter_operations() {
    let mut refs = PageRefCounter::new();
    let mut m = manager(16);
    m.set_frame_used(0x2000);
    m.set_frame_used(0x3000);
    refs.add_reference(0x2000);
    refs.add_references(0x2000, 2);
    assert_eq!(refs.get_references_for(0x2000), 3);
    refs.remove_reference_no_free(0x2000);
    assert_eq!(refs.get_references_for(0x2000), 2);
    refs.remove_reference(0x2000, &mut m);
    assert_eq!(refs.get_references_for(0x2000), 1);
    assert!(m.frame_set.test(2));
    refs.remove_reference_no_free(0x2000);
    assert_eq!(refs.get_references_for(0x2000), 0);
    assert!(m.frame_set.test(2));
    refs.remove_reference_no_free(0x2000);
    assert_eq!(refs.get_references_for(0x2000), 0);
    assert!(m.frame_set.test(2));
    // no longer counted: one owner, released at once
    refs.remove_reference(0x2000, &mut m);
    assert_eq!(refs.get_references_for(0x2000), 0);
    assert!(!m.frame_set.test(2));
    // a frame that is not counted has one owner and is released at once
    refs.remove_reference(0x3000, &mut m);
    assert!(!m.frame_set.test(3));
    refs.add_references(0x4000, 5);
    refs.remove_all_references(0x4000);
    assert_eq!(refs.get_references_for(0x4000), 0);
}

#[test]
fn free_page_by_flags() {
    let mut refs = PageRefCounter::new();
    let mut m = manager(16);
    for i in 0..6u64 {
        m.set_frame_used(i * 0x1000);
    }
    let _ = free_page(frame(0x1000), &mut refs, &mut m, &mut NoSharedRegions);
    assert!(!m.frame_set.test(1));
    refs.add_references(0x2000, 2);
    let _ = free_page(cow_frame(0x2000), &mut refs, &mut m, &mut NoSharedRegions);
    assert_eq!(refs.get_references_for(0x2000), 1);
    assert!(m.frame_set.test(2));
    let mut shared = AllShared { released: Vec::new() };
    let _ = free_page(PageFrame { shared: true, ..frame(0x3000) }, &mut refs, &mut m, &mut shared);
    assert_eq!(shared.released, vec![0x3000]);
    assert!(m.frame_set.test(3));
    let _ = free_page(PageFrame { shared: true, ..frame(0x4000) }, &mut refs, &mut m, &mut NoSharedRegions);
    assert!(!m.frame_set.test(4));
}

#[test]
fn free_page_dir_releases_user_half() {
    let mut d = directory();
    d.set_page(0x1000, Some(frame(0x1000))).unwrap();
    d.set_page(0x2000, Some(frame(0x2000))).unwrap();
    d.set_page(BUFFER, Some(frame(0x3000))).unwrap();
    let mut refs = PageRefCounter::new();
    let mut m = manager(8);
    m.sync_from_dir(&d);
    let freeable = FreeablePageDir::new(d);
    free_page_dir(&freeable, &mut refs, &mut m, &mut NoSharedRegions);
    assert!(!m.frame_set.test(1) && !m.frame_set.test(2));
    assert!(m.frame_set.test(3));
    let d = freeable.into_inner();
    assert_eq!(d.get_page(0x1000).unwrap().addr, 0x1000);
}

#[test]
fn shared_frames_counted_twice_stay_mapped() {
    // two sharers: the counter says two, and both map the frame copy-on-write
    let mut parent = directory();
    let mut child = directory();
    parent.set_page(0x1000, Some(cow_frame(0x40000))).unwrap();
    child.set_page(0x1000, Some(cow_frame(0x40000))).unwrap();
    let mut refs = PageRefCounter::new();
    refs.add_references(0x40000, 2);
    assert!(refs.get_references_for(0x40000) >= 2);
    for d in [&parent, &child] {
        let p = d.get_page(0x1000).unwrap();
        assert!(p.copy_on_write && p.addr == 0x40000);
    }
}

#[test]
fn paging_error_codes() {
    assert_eq!(PagingError::BadAddress.to_errno(), Errno::BadAddress);
    assert_eq!(PagingError::NoAvailableFrames.to_errno(), Errno::OutOfMemory);
    assert_eq!(PagingError::FrameInUse.to_errno(), Errno::OutOfMemory);
    assert_eq!(PagingError::AllocError.message(), "error allocating memory");
}

#[test]
fn teardown_empties_every_slot() {
    let mut d = directory();
    d.set_page(0x1000, Some(frame(0x1000))).unwrap();
    d.set_page(BUFFER, Some(frame(0x2000))).unwrap();
    assert!(d.has_page_table(0x1000) && d.has_page_table(BUFFER as u32));
    d.remove_all_page_tables();
    assert!(!d.has_page_table(0x1000) && !d.has_page_table(BUFFER as u32));
    assert!(d.is_unused(0x1000) && d.is_unused(BUFFER));
    assert!(d.tables_physical.iter().all(|e| e.is_unused()));
}

#[test]
fn alloc_frame_at_reports_directory_errors() {
    let mut d = PageDir::new(0x1000, vec![0x0010_0000]);
    let mut m = manager(16);
    d.set_page(0x1000, Some(frame(0x1000))).unwrap();
    // a mapped page fails before the frame is looked at, even beyond the bitset
    assert_eq!(m.alloc_frame_at(&mut d, 0x1000, 0x10_0000, false, true, false), Err(PagingError::FrameInUse));
    assert_eq!(m.first_available_frame(), Some(0));
    // no page table can be had for a new region
    assert_eq!(m.alloc_frame_at(&mut d, 0x0040_0000, 0x2000, false, true, false), Err(PagingError::AllocError));
    assert!(!m.frame_set.test(2));
    let mut big = PageManager::new(BitSet::new(0x10_0001), PAGE_SIZE);
    assert_eq!(big.alloc_frame_at(&mut d, 0x2000, 0x1_0000_0000, false, true, false), Err(PagingError::BadFrame));
    assert!(!big.frame_set.test(0x10_0000));
}

#[test]
fn page_table_entries_carry_flags() {
    let mut d = PageDir::from_allocated(0x5000);
    d.add_page_table(0x0040_0000, kernel_mm::pagedir::PageTable::new(), 0x0020_0123, false);
    assert_eq!(d.tables_physical[1].0, 0x0020_0007);
    d.add_page_table(0xe040_0000, kernel_mm::pagedir::PageTable::new(), 0x0030_0000, true);
    assert_eq!(d.tables_physical[0x381].0, 0x0030_0107);
    assert!(d.tables_physical[2].is_unused());
    assert!(!d.tables[1].as_ref().unwrap().can_free);
    d.remove_page_table(0x0040_0000);
    assert!(d.tables_physical[1].is_unused());
}

#[test]
fn free_page_reports_shared_layer() {
    let mut refs = PageRefCounter::new();
    let mut m = manager(16);
    m.set_frame_used(0x3000);
    let mut shared = AllShared { released: Vec::new() };
    assert!(free_page(PageFrame { shared: true, ..frame(0x3000) }, &mut refs, &mut m, &mut shared));
    assert!(m.frame_set.test(3));
    assert!(!free_page(PageFrame { shared: true, ..frame(0x3000) }, &mut refs, &mut m, &mut NoSharedRegions));
    assert!(!m.frame_set.test(3));
    m.set_frame_used(0x4000);
    assert!(!free_page(frame(0x4000), &mut refs, &mut m, &mut shared));
    assert!(!m.frame_set.test(4));
}

#[test]
fn free_page_dir_drops_references() {
    let mut d = directory();
    d.set_page(0x1000, Some(cow_frame(0x4000))).unwrap();
    d.set_page(0x2000, Some(cow_frame(0x5000))).unwrap();
    d.set_page(BUFFER, Some(frame(0x6000))).unwrap();
    let mut refs = PageRefCounter::new();
    refs.add_references(0x4000, 3);
    refs.add_reference(0x5000);
    let mut m = manager(8);
    m.sync_from_dir(&d);
    free_page_dir(&d, &mut refs, &mut m, &mut NoSharedRegions);
    assert_eq!(refs.get_references_for(0x4000), 2);
    assert!(m.frame_set.test(4));
    assert_eq!(refs.get_references_for(0x5000), 0);
    assert!(!m.frame_set.test(5));
    assert!(m.frame_set.test(6));
}

#[test]
fn copy_on_write_pages_are_picked() {
    let frames = vec![frame(0x1000), cow_frame(0x2000), PageFrame { writable: true, ..cow_frame(0x3000) }];
    assert_eq!(cow_pages(&frames), vec![false, true, false]);
}
