//! The architecture-independent view of a page directory.
use vstd::prelude::*;
use crate::entry::{entry_of_frame, frame_of_entry};
use crate::frame::{PageFrame, PagingError, vpn, NUM_PAGES, PAGE_SIZE, KERNEL_PAGE_DIR_SPLIT};

verus! {

/// Whether virtual page `v` lies in the kernel half.
pub open spec fn in_kernel_half(v: nat) -> bool {
    v * (PAGE_SIZE as nat) >= KERNEL_PAGE_DIR_SPLIT as nat
}

/// What a directory reports at page `v` after `page` was written there:
/// the frame's flags with its address rounded down to a page and the page
/// executable; nothing when the entry encodes to zero.
pub open spec fn stored_page(page: Option<PageFrame>, v: nat) -> Option<PageFrame> {
    match page {
        None => None,
        Some(f) => {
            let e = entry_of_frame(f, in_kernel_half(v));
            if e == 0 {
                None
            } else {
                Some(frame_of_entry(e))
            }
        },
    }
}

/// A present page as `stored_page` reports it keeps its flags and its
/// page-aligned address.
pub proof fn lemma_stored_present(f: PageFrame, v: nat)
    requires
        f.addr <= u32::MAX,
        f.present,
        f.addr % (PAGE_SIZE as u64) == 0,
    ensures
        stored_page(Some(f), v) == Some(PageFrame { executable: true, ..f }),
{
    crate::entry::lemma_entry_round_trip(f, in_kernel_half(v));
    let a = f.addr as u32;
    assert(a % 4096 == 0 ==> a & 0xffff_f000u32 == a) by (bit_vector);
}

/// What `set_page(addr, page)` does to a directory, as its contract
/// states: it fails only with
/// `BadFrame` for a frame beyond 32 bits or `AllocError` when a page table
/// is needed and cannot be had, and otherwise makes page `vpn(addr)` report
/// `stored_page(page)`; no other page changes.
pub open spec fn set_page_effect<D: PageDirectory>(before: D, after: D, addr: usize, page: Option<PageFrame>, r: Result<(), PagingError>) -> bool {
    &&& r is Ok <==> (page is None || (page->0.addr <= u32::MAX && before.can_map(vpn(addr))))
    &&& r == Err::<(), PagingError>(PagingError::BadFrame) <==> (page is Some && page->0.addr > u32::MAX)
    &&& r is Err ==> r == Err::<(), PagingError>(PagingError::BadFrame) || r == Err::<(), PagingError>(PagingError::AllocError)
    &&& r is Ok ==> after.page(vpn(addr)) == stored_page(page, vpn(addr))
    &&& r is Ok && page is Some ==> after.can_map(vpn(addr))
    &&& forall|v: nat| v != vpn(addr) ==> #[trigger] after.page(v) == before.page(v)
    &&& r is Err ==> after.page(vpn(addr)) == before.page(vpn(addr))
}

/// The physical address that `virt` translates to in `d`, as the contract
/// of `virt_to_phys` states: the frame of its page plus the offset in the
/// page.
pub open spec fn spec_virt_to_phys<D: PageDirectory>(d: D, virt: usize) -> Option<u64> {
    match d.page(vpn(virt)) {
        Some(f) => Some((f.addr + (virt % PAGE_SIZE) as u64) as u64),
        None => None,
    }
}

/// Unmapping a page right after mapping it leaves it unmapped, whatever
/// the mapping did.
pub proof fn lemma_unmap_after_map<D: PageDirectory>(
    d0: D,
    d1: D,
    d2: D,
    addr: usize,
    f: PageFrame,
    r1: Result<(), PagingError>,
    r2: Result<(), PagingError>,
)
    requires
        d0.inv(),
        vpn(addr) < NUM_PAGES,
        set_page_effect(d0, d1, addr, Some(f), r1),
        d1.inv(),
        set_page_effect(d1, d2, addr, None, r2),
    ensures
        r2 is Ok,
        d2.page(vpn(addr)) is None,
{
}

/// Translating an address gives the frame of the page at the address
/// rounded down to a page, plus the offset in the page.
pub proof fn lemma_virt_to_phys_page<D: PageDirectory>(d: D, virt: usize)
    requires
        d.inv(),
        vpn(virt) < NUM_PAGES,
    ensures
        vpn(virt & !0xfffusize) == vpn(virt),
        (virt & !0xfffusize) % PAGE_SIZE == 0,
        spec_virt_to_phys(d, virt) is Some <==> d.page(vpn(virt & !0xfffusize)) is Some,
        spec_virt_to_phys(d, virt) is Some ==> spec_virt_to_phys(d, virt)->0 == d.page(vpn(virt & !0xfffusize))->0.addr
            + virt % PAGE_SIZE,
{
    assert((virt & !0xfffusize) / 4096 == virt / 4096 && (virt & !0xfffusize) % 4096 == 0) by (bit_vector);
    if d.page(vpn(virt)) is Some {
        d.lemma_mapped_can_map(vpn(virt));
        assert(virt % 4096 < 4096);
    }
}

/// A copy-on-write page as `stored_page` reports it keeps its frame and its
/// copy-on-write flag.
pub proof fn lemma_stored_keeps_cow(f: PageFrame, v: nat)
    requires
        f.addr <= u32::MAX,
        f.copy_on_write,
        f.addr % (PAGE_SIZE as u64) == 0,
    ensures
        stored_page(Some(f), v) is Some,
        stored_page(Some(f), v)->0.addr == f.addr,
        stored_page(Some(f), v)->0.copy_on_write,
{
    crate::entry::lemma_entry_round_trip(f, in_kernel_half(v));
    let a = f.addr as u32;
    assert(a % 4096 == 0 ==> a & 0xffff_f000u32 == a) by (bit_vector);
}

/// A virtual address space: a partial map from virtual pages to frames.
pub trait PageDirectory: Sized {
    /// Whether the directory's internal structures are consistent.
    spec fn inv(&self) -> bool;

    /// The frame mapped at virtual page `v`.
    spec fn page(&self, v: nat) -> Option<PageFrame>;

    /// Whether a frame can be written at virtual page `v` without an
    /// allocation that might fail.
    spec fn can_map(&self, v: nat) -> bool;

    /// A mapped page can always be remapped, and its frame address is
    /// page-aligned and fits in 32 bits.
    proof fn lemma_mapped_can_map(&self, v: nat)
        requires
            self.inv(),
            v < NUM_PAGES,
            self.page(v) is Some,
        ensures
            self.can_map(v),
            self.page(v)->0.addr <= u32::MAX,
            self.page(v)->0.addr % (PAGE_SIZE as u64) == 0,
    ;

    /// The frame mapped at the page that holds `addr`.
    fn get_page(&self, addr: usize) -> (r: Option<PageFrame>)
        requires
            self.inv(),
            vpn(addr) < NUM_PAGES,
        ensures
            r == self.page(vpn(addr)),
    ;

    /// Maps the page that holds `addr` to `page`, or unmaps it for `None`.
    fn set_page(&mut self, addr: usize, page: Option<PageFrame>) -> (r: Result<(), PagingError>)
        requires
            old(self).inv(),
            vpn(addr) < NUM_PAGES,
        ensures
            final(self).inv(),
            r is Ok <==> (page is None || (page->0.addr <= u32::MAX && old(self).can_map(vpn(addr)))),
            r == Err::<(), PagingError>(PagingError::BadFrame) <==> (page is Some && page->0.addr > u32::MAX),
            r is Err ==> r == Err::<(), PagingError>(PagingError::BadFrame) || r == Err::<(), PagingError>(PagingError::AllocError),
            r is Ok ==> final(self).page(vpn(addr)) == stored_page(page, vpn(addr)),
            r is Ok && page is Some ==> final(self).can_map(vpn(addr)),
            forall|v: nat| v != vpn(addr) ==> #[trigger] final(self).page(v) == old(self).page(v),
            r is Err ==> final(self).page(vpn(addr)) == old(self).page(vpn(addr)),
    ;

    /// Whether the page that holds `addr` is unmapped.
    fn is_unused(&self, addr: usize) -> (r: bool)
        requires
            self.inv(),
            vpn(addr) < NUM_PAGES,
        ensures
            r == (self.page(vpn(addr)) is None),
    ;

    /// The physical address that `virt` translates to.
    fn virt_to_phys(&self, virt: usize) -> (r: Option<u64>)
        requires
            self.inv(),
            vpn(virt) < NUM_PAGES,
        ensures
            r == match self.page(vpn(virt)) {
                Some(f) => Some((f.addr + (virt % PAGE_SIZE) as u64) as u64),
                None => None::<u64>,
            },
    ;
}

/// A directory whose user-half frames are released when it is dropped.
pub struct FreeablePageDir<D: PageDirectory>(pub D);

impl<D: PageDirectory> FreeablePageDir<D> {
    /// Takes charge of `dir`.
    pub fn new(dir: D) -> (r: FreeablePageDir<D>)
        ensures
            r.0 == dir,
    {
        FreeablePageDir(dir)
    }

    /// Gives the directory back without releasing anything.
    pub fn into_inner(self) -> (r: D)
        ensures
            r == self.0,
    {
        self.0
    }
}

impl<D: PageDirectory> PageDirectory for FreeablePageDir<D> {
    open spec fn inv(&self) -> bool {
        self.0.inv()
    }

    open spec fn page(&self, v: nat) -> Option<PageFrame> {
        self.0.page(v)
    }

    open spec fn can_map(&self, v: nat) -> bool {
        self.0.can_map(v)
    }

    proof fn lemma_mapped_can_map(&self, v: nat) {
        self.0.lemma_mapped_can_map(v);
    }

    fn get_page(&self, addr: usize) -> (r: Option<PageFrame>) {
        self.0.get_page(addr)
    }

    fn set_page(&mut self, addr: usize, page: Option<PageFrame>) -> (r: Result<(), PagingError>) {
        self.0.set_page(addr, page)
    }

    fn is_unused(&self, addr: usize) -> (r: bool) {
        self.0.is_unused(addr)
    }

    fn virt_to_phys(&self, virt: usize) -> (r: Option<u64>) {
        self.0.virt_to_phys(virt)
    }
}

} // verus!
