//! Copy-on-write: giving a writer its own copy of a shared frame.
use vstd::prelude::*;
use crate::directory::{PageDirectory, stored_page};
use crate::bitset::BitSet;
use crate::frame::{Errno, PageFrame, PagingError, vpn, NUM_PAGES, PAGE_SIZE};
use crate::manager::PageManager;
use crate::refcount::{PageRefCounter, PageReference, SharedRegions, free_page, releasable};

verus! {

/// Whether a page is mapped copy-on-write.
pub open spec fn maps_cow(p: Option<PageFrame>) -> bool {
    p is Some && p->0.copy_on_write
}

/// The mapping a sole owner keeps: the same frame, now writable.
pub open spec fn cow_owned(page: PageFrame) -> PageFrame {
    PageFrame { writable: true, copy_on_write: false, referenced: false, ..page }
}

/// The mapping a writer gets: the frame at `phys`, which holds the copy,
/// writable and exclusively its own.
pub open spec fn cow_copied(page: PageFrame, phys: u64) -> PageFrame {
    PageFrame { addr: phys, writable: true, copy_on_write: false, referenced: false, ..page }
}

/// What holds of the arguments of `copy_on_write`: `page` is the
/// copy-on-write mapping at the aligned address `addr` of `dir`, and
/// `buffer` is the page-aligned address of another page that holds a copy
/// of its bytes.
pub open spec fn cow_args<D: PageDirectory>(
    dir: &D,
    refs: &PageRefCounter,
    manager: &PageManager,
    addr: usize,
    page: PageFrame,
    buffer: usize,
) -> bool {
    &&& dir.inv()
    &&& refs.wf()
    &&& manager.wf()
    &&& manager.page_size == PAGE_SIZE
    &&& manager.frame_set.size <= NUM_PAGES
    &&& addr % PAGE_SIZE == 0
    &&& vpn(addr) < NUM_PAGES
    &&& buffer % PAGE_SIZE == 0
    &&& vpn(buffer) < NUM_PAGES
    &&& vpn(buffer) != vpn(addr)
    &&& dir.page(vpn(addr)) == Some(page)
    &&& page.spec_is_cow()
    &&& releasable(manager, page)
}

/// Makes the copy-on-write page at `addr` writable for `dir`.
///
/// When no other reference to its frame is counted, the page keeps its
/// frame, becomes writable, and the frame leaves the reference counter.
/// Otherwise the page is remapped to the frame behind `buffer` (a kernel
/// page holding a copy of its bytes), `buffer` is given a newly allocated
/// frame, and the old frame loses a reference. Returns the mapping now at
/// `addr`. On failure the mapping at `addr` is restored.
pub fn copy_on_write<D: PageDirectory, S: SharedRegions>(
    page_dir: &mut D,
    refs: &mut PageRefCounter,
    manager: &mut PageManager,
    shared: &mut S,
    addr: usize,
    page: PageFrame,
    buffer: usize,
) -> (r: Result<PageFrame, PagingError>)
    requires
        cow_args(old(page_dir), old(refs), old(manager), addr, page, buffer),
    ensures
        final(page_dir).inv(),
        final(refs).wf(),
        final(manager).wf(),
        final(manager).page_size == old(manager).page_size,
        final(manager).frame_set.size == old(manager).frame_set.size,
        forall|v: nat| v != vpn(addr) && v != vpn(buffer) ==> final(page_dir).page(v) == old(page_dir).page(v),
        // a sole owner keeps its frame
        old(refs).count(page.addr) <= 1 ==> {
            &&& r == Ok::<PageFrame, PagingError>(cow_owned(page))
            &&& final(page_dir).page(vpn(addr)) == stored_page(Some(cow_owned(page)), vpn(addr))
            &&& final(page_dir).page(vpn(buffer)) == old(page_dir).page(vpn(buffer))
            &&& final(refs)@ == old(refs)@.remove(page.addr)
            &&& final(manager).frame_set@ == old(manager).frame_set@
        },
        // otherwise the writer gets the copy
        old(refs).count(page.addr) > 1 ==> match old(page_dir).page(vpn(buffer)) {
            None => {
                &&& r == Err::<PageFrame, PagingError>(PagingError::BadAddress)
                &&& final(page_dir).page(vpn(addr)) == old(page_dir).page(vpn(addr))
                &&& final(page_dir).page(vpn(buffer)) == old(page_dir).page(vpn(buffer))
                &&& final(refs)@ == old(refs)@
                &&& final(manager).frame_set@ == old(manager).frame_set@
            },
            Some(b) => match BitSet::spec_first_unset(old(manager).frame_set@) {
                None => {
                    &&& r == Err::<PageFrame, PagingError>(PagingError::NoAvailableFrames)
                    &&& final(page_dir).page(vpn(addr)) == stored_page(Some(page), vpn(addr))
                    &&& final(page_dir).page(vpn(buffer)) == old(page_dir).page(vpn(buffer))
                    &&& final(refs)@ == old(refs)@
                    &&& final(manager).frame_set@ == old(manager).frame_set@
                },
                Some(i) => {
                    &&& r == Ok::<PageFrame, PagingError>(cow_copied(page, b.addr))
                    &&& final(page_dir).page(vpn(addr)) == stored_page(Some(cow_copied(page, b.addr)), vpn(addr))
                    &&& final(page_dir).page(vpn(buffer)) == stored_page(
                        Some(PageFrame::spec_present_writable((i * PAGE_SIZE) as u64)),
                        vpn(buffer),
                    )
                    &&& !page.shared ==> final(refs)@ == old(refs)@.insert(page.addr, PageReference {
                        references: (old(refs).count(page.addr) - 1) as usize,
                        phys: page.addr,
                    })
                    &&& !page.shared ==> final(manager).frame_set@ == old(manager).frame_set@.update(i as int, true)
                },
            },
        },
        // the frame loses one reference
        r is Ok && !page.shared && old(refs).count(page.addr) >= 1 ==> final(refs).count(page.addr) == old(refs).count(page.addr) - 1,
        // no count grows, and no copy-on-write mapping appears
        forall|p: u64| #[trigger] final(refs).count(p) <= old(refs).count(p),
        r is Ok ==> !maps_cow(final(page_dir).page(vpn(addr))),
        r is Ok ==> !maps_cow(final(page_dir).page(vpn(buffer)))
            || final(page_dir).page(vpn(buffer)) == old(page_dir).page(vpn(buffer)),
        // a failure keeps the counts, the buffer, and the shared mapping
        r is Err ==> final(refs)@ == old(refs)@,
        r is Err ==> final(page_dir).page(vpn(buffer)) == old(page_dir).page(vpn(buffer)),
        r is Err ==> maps_cow(final(page_dir).page(vpn(addr))) && final(page_dir).page(vpn(addr))->0.addr == page.addr,
{
    proof {
        page_dir.lemma_mapped_can_map(vpn(addr));
    }
    if refs.get_references_for(page.addr) > 1 {
        let original_page = page;
        let copy_phys = match page_dir.virt_to_phys(buffer) {
            Some(p) => p,
            None => { return Err(PagingError::BadAddress); },
        };
        proof {
            page_dir.lemma_mapped_can_map(vpn(buffer));
            assert(buffer % PAGE_SIZE == 0);
        }
        let copied = PageFrame { addr: copy_phys, writable: true, copy_on_write: false, referenced: false, ..page };
        let ghost d0 = *page_dir;
        if let Err(err) = page_dir.set_page(addr, Some(copied)) {
            return Err(err);
        }
        let phys_addr = match manager.alloc_frame() {
            Ok(a) => a,
            Err(err) => {
                let _ = page_dir.set_page(addr, Some(original_page));
                proof {
                    crate::directory::lemma_stored_keeps_cow(original_page, vpn(addr));
                }
                return Err(err);
            },
        };
        proof {
            assert(d0.page(vpn(buffer)) is Some);
            page_dir.lemma_mapped_can_map(vpn(buffer));
            let i = BitSet::spec_first_unset(old(manager).frame_set@)->0;
            assert(i < old(manager).frame_set.size);
            assert(phys_addr == i * 4096);
            assert(phys_addr <= u32::MAX) by (nonlinear_arith)
                requires phys_addr == i * 4096, i < NUM_PAGES;
        }
        let new_page = PageFrame::present_writable(phys_addr);
        let _ = page_dir.set_page(buffer, Some(new_page));
        proof {
            crate::entry::lemma_entry_round_trip(copied, crate::directory::in_kernel_half(vpn(addr)));
            crate::entry::lemma_entry_round_trip(new_page, crate::directory::in_kernel_half(vpn(buffer)));
        }
        proof {
            assert(releasable(manager, page));
        }
        let _ = free_page(original_page, refs, manager, shared);
        Ok(copied)
    } else {
        let owned = PageFrame { writable: true, copy_on_write: false, referenced: false, ..page };
        let _ = page_dir.set_page(addr, Some(owned));
        proof {
            crate::entry::lemma_entry_round_trip(owned, crate::directory::in_kernel_half(vpn(addr)));
        }
        refs.remove_all_references(page.addr);
        Ok(owned)
    }
}

/// The fault-handler entry: when the page that holds `addr` in `dir` is a
/// copy-on-write mapping, performs the copy and returns `true`; returns
/// `false` for any other mapped page and `BadAddress` for an unmapped one.
pub fn try_copy_on_write<D: PageDirectory, S: SharedRegions>(
    page_dir: &mut D,
    refs: &mut PageRefCounter,
    manager: &mut PageManager,
    shared: &mut S,
    addr: usize,
    buffer: usize,
) -> (r: Result<bool, Errno>)
    requires
        old(page_dir).inv(),
        old(refs).wf(),
        old(manager).wf(),
        old(manager).page_size == PAGE_SIZE,
        old(manager).frame_set.size <= NUM_PAGES,
        vpn(addr) < NUM_PAGES,
        buffer % PAGE_SIZE == 0,
        vpn(buffer) < NUM_PAGES,
        vpn(buffer) != vpn(addr),
        old(page_dir).page(vpn(addr)) is Some && old(page_dir).page(vpn(addr))->0.spec_is_cow()
            ==> releasable(old(manager), old(page_dir).page(vpn(addr))->0),
    ensures
        final(page_dir).inv(),
        final(refs).wf(),
        final(manager).wf(),
        final(manager).frame_set.size == old(manager).frame_set.size,
        final(manager).page_size == old(manager).page_size,
        match old(page_dir).page(vpn(addr)) {
            None => {
                &&& r == Err::<bool, Errno>(Errno::BadAddress)
                &&& *final(page_dir) == *old(page_dir)
                &&& final(refs)@ == old(refs)@
                &&& final(manager).frame_set@ == old(manager).frame_set@
            },
            Some(f) => if !f.spec_is_cow() {
                &&& r == Ok::<bool, Errno>(false)
                &&& *final(page_dir) == *old(page_dir)
                &&& final(refs)@ == old(refs)@
                &&& final(manager).frame_set@ == old(manager).frame_set@
            } else {
                &&& r is Ok ==> r == Ok::<bool, Errno>(true)
                &&& old(refs).count(f.addr) <= 1 ==> r == Ok::<bool, Errno>(true)
                &&& old(refs).count(f.addr) <= 1 ==> final(page_dir).page(vpn(addr)) == stored_page(Some(cow_owned(f)), vpn(addr))
                &&& old(refs).count(f.addr) > 1 && old(page_dir).page(vpn(buffer)) is None ==> r == Err::<bool, Errno>(Errno::BadAddress)
                &&& old(refs).count(f.addr) > 1 && old(page_dir).page(vpn(buffer)) is Some
                    ==> (r is Ok <==> BitSet::spec_first_unset(old(manager).frame_set@) is Some)
                &&& r is Err ==> final(page_dir).page(vpn(addr)) == stored_page(Some(f), vpn(addr)) || final(page_dir).page(vpn(addr)) == old(page_dir).page(vpn(addr))
                &&& r matches Err(e) ==> e == Errno::BadAddress || e == Errno::OutOfMemory
                &&& old(refs).count(f.addr) <= 1 ==> final(refs)@ == old(refs)@.remove(f.addr)
                &&& old(refs).count(f.addr) <= 1 ==> final(manager).frame_set@ == old(manager).frame_set@
                &&& r is Err ==> final(refs)@ == old(refs)@ && final(manager).frame_set@ == old(manager).frame_set@
                &&& old(refs).count(f.addr) > 1 && r is Ok && !f.shared ==> final(refs)@ == old(refs)@.insert(f.addr, PageReference {
                    references: (old(refs).count(f.addr) - 1) as usize,
                    phys: f.addr,
                })
                &&& old(refs).count(f.addr) > 1 && r is Ok && !f.shared ==> final(manager).frame_set@
                    == old(manager).frame_set@.update(BitSet::spec_first_unset(old(manager).frame_set@)->0 as int, true)
                &&& old(refs).count(f.addr) > 1 && r is Ok ==> final(page_dir).page(vpn(buffer)) == stored_page(
                    Some(PageFrame::spec_present_writable((BitSet::spec_first_unset(old(manager).frame_set@)->0 * PAGE_SIZE) as u64)),
                    vpn(buffer),
                )
                &&& old(refs).count(f.addr) > 1 && r is Ok && old(page_dir).page(vpn(buffer)) is Some
                    ==> final(page_dir).page(vpn(addr)) == stored_page(
                        Some(cow_copied(f, old(page_dir).page(vpn(buffer))->0.addr)),
                        vpn(addr),
                    )
            },
        },
{
    let page = match page_dir.get_page(addr) {
        Some(p) => p,
        None => { return Err(Errno::BadAddress); },
    };
    let aligned = (addr / PAGE_SIZE) * PAGE_SIZE;
    assert(vpn(aligned) == vpn(addr) && aligned % PAGE_SIZE == 0) by (nonlinear_arith)
        requires aligned == (addr / 4096) * 4096;
    if page.is_cow() {
        match copy_on_write(page_dir, refs, manager, shared, aligned, page, buffer) {
            Ok(_) => Ok(true),
            Err(e) => Err(e.to_errno()),
        }
    } else {
        Ok(false)
    }
}

} // verus!
