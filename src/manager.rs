//! The physical frame allocator.
use vstd::prelude::*;
use crate::bitset::{BitSet, count_set};
use crate::directory::{PageDirectory, stored_page};
use crate::frame::{PageFrame, PagingError, vpn, NUM_PAGES, PAGE_SIZE};

verus! {

/// Allocates physical frames, lowest address first, from a bitset in which
/// bit `i` stands for the frame at `i * page_size`.
pub struct PageManager {
    /// Which frames are in use.
    pub frame_set: BitSet,
    /// Size of a frame in bytes.
    pub page_size: usize,
}

/// Frame usage figures: frames in use, frames in all, and the share in use
/// in percent (rounded down).
#[derive(PartialEq, Eq, Structural, Clone, Copy, Debug)]
pub struct FrameUsage {
    pub used: usize,
    pub size: usize,
    pub percent: usize,
}

/// Whether page `v` of `dir` maps the frame with index `i`.
pub open spec fn maps_frame_index<T: PageDirectory>(dir: &T, v: nat, i: int) -> bool {
    match dir.page(v) {
        Some(f) => (f.addr / (PAGE_SIZE as u64)) as int == i,
        None => false,
    }
}

/// Every frame that `dir` maps and the bitset covers is marked used in
/// `m`: a frame whose bit is clear is mapped at no page of `dir`.
pub open spec fn frames_accounted<T: PageDirectory>(m: &PageManager, dir: &T) -> bool {
    forall|v: nat| #![trigger dir.page(v)] v < NUM_PAGES && dir.page(v) is Some
        && m.index_of(dir.page(v)->0.addr) < m.frame_set.size ==> m.frame_set@[m.index_of(dir.page(v)->0.addr)]
}

/// Marking more frames used keeps every directory's frames accounted for.
pub proof fn lemma_accounting_monotone<T: PageDirectory>(m0: &PageManager, m1: &PageManager, dir: &T)
    requires
        frames_accounted(m0, dir),
        m0.wf(),
        m1.page_size == m0.page_size,
        m1.frame_set.size == m0.frame_set.size,
        forall|i: int| 0 <= i < m0.frame_set.size && #[trigger] m0.frame_set@[i] ==> m1.frame_set@[i],
    ensures
        frames_accounted(m1, dir),
{
    assert forall|v: nat| #![trigger dir.page(v)] v < NUM_PAGES && dir.page(v) is Some
        && m1.index_of(dir.page(v)->0.addr) < m1.frame_set.size implies m1.frame_set@[m1.index_of(dir.page(v)->0.addr)] by {
        let i = m0.index_of(dir.page(v)->0.addr);
        assert(i == m1.index_of(dir.page(v)->0.addr));
        assert(0 <= i);
        assert(m0.frame_set@[i]);
        assert(m1.frame_set@[i]);
    }
}

/// Marking free a frame that no page of `dir` maps keeps the frames of
/// `dir` accounted for.
pub proof fn lemma_free_unmapped_keeps_accounting<T: PageDirectory>(m0: &PageManager, m1: &PageManager, dir: &T, addr: u64)
    requires
        frames_accounted(m0, dir),
        m0.wf(),
        m1.page_size == m0.page_size,
        m1.frame_set.size == m0.frame_set.size,
        m0.index_of(addr) < m0.frame_set.size,
        m1.frame_set@ == m0.frame_set@.update(m0.index_of(addr), false),
        forall|v: nat| v < NUM_PAGES && #[trigger] dir.page(v) is Some ==> m0.index_of(dir.page(v)->0.addr) != m0.index_of(addr),
    ensures
        frames_accounted(m1, dir),
{
    assert forall|v: nat| #![trigger dir.page(v)] v < NUM_PAGES && dir.page(v) is Some
        && m1.index_of(dir.page(v)->0.addr) < m1.frame_set.size implies m1.frame_set@[m1.index_of(dir.page(v)->0.addr)] by {
        let i = m0.index_of(dir.page(v)->0.addr);
        assert(0 <= i);
        assert(i == m1.index_of(dir.page(v)->0.addr));
        assert(i != m0.index_of(addr));
        assert(i < m0.frame_set@.len());
        assert(m0.frame_set@[i]);
        assert(m1.frame_set@[i] == m0.frame_set@[i]);
    }
}

impl PageManager {
    pub open spec fn wf(&self) -> bool {
        &&& self.frame_set.wf()
        &&& self.page_size > 0
        &&& self.frame_set.size * self.page_size <= u64::MAX
    }

    /// Whether the frame that holds physical address `phys` is in use.
    pub open spec fn used(&self, phys: u64) -> bool {
        let i = phys / (self.page_size as u64);
        i < self.frame_set.size && self.frame_set@[i as int]
    }

    /// Index of the frame that holds `phys`.
    pub open spec fn index_of(&self, phys: u64) -> int {
        (phys / (self.page_size as u64)) as int
    }

    /// A manager over `frame_set` with frames of `page_size` bytes.
    pub fn new(frame_set: BitSet, page_size: usize) -> (r: PageManager)
        requires
            frame_set.wf(),
            page_size > 0,
            frame_set.size * page_size <= u64::MAX,
        ensures
            r.wf(),
            r.frame_set == frame_set,
            r.page_size == page_size,
    {
        PageManager { frame_set, page_size }
    }

    /// Takes the lowest free frame and returns its physical address.
    pub fn alloc_frame(&mut self) -> (r: Result<u64, PagingError>)
        requires
            old(self).wf(),
        ensures
            final(self).wf(),
            final(self).page_size == old(self).page_size,
            final(self).frame_set.size == old(self).frame_set.size,
            match BitSet::spec_first_unset(old(self).frame_set@) {
                Some(i) => {
                    &&& i < old(self).frame_set.size
                    &&& r == Ok::<u64, PagingError>((i * old(self).page_size) as u64)
                    &&& final(self).frame_set@ == old(self).frame_set@.update(i as int, true)
                },
                None => {
                    &&& r == Err::<u64, PagingError>(PagingError::NoAvailableFrames)
                    &&& final(self).frame_set@ == old(self).frame_set@
                },
            },
    {
        match self.frame_set.first_unset() {
            Some(idx) => {
                self.frame_set.set(idx);
                proof {
                    vstd::arithmetic::mul::lemma_mul_inequality(idx as int, self.frame_set.size as int, self.page_size as int);
                }
                Ok(idx as u64 * self.page_size as u64)
            },
            None => Err(PagingError::NoAvailableFrames),
        }
    }

    /// The physical address of the lowest free frame.
    pub fn first_available_frame(&self) -> (r: Option<u64>)
        requires
            self.wf(),
        ensures
            r == match BitSet::spec_first_unset(self.frame_set@) {
                Some(i) => Some((i * self.page_size) as u64),
                None => None::<u64>,
            },
    {
        match self.frame_set.first_unset() {
            Some(i) => {
                proof {
                    vstd::arithmetic::mul::lemma_mul_inequality(i as int, self.frame_set.size as int, self.page_size as int);
                }
                Some(i as u64 * self.page_size as u64)
            },
            None => None,
        }
    }

    /// Maps the page at `addr` in `dir` to the frame at `phys` and marks the
    /// frame used; `FrameInUse` when `addr` is already mapped.
    pub fn alloc_frame_at<T: PageDirectory>(
        &mut self,
        dir: &mut T,
        addr: usize,
        phys: u64,
        user_mode: bool,
        writable: bool,
        executable: bool,
    ) -> (r: Result<(), PagingError>)
        requires
            old(self).wf(),
            old(dir).inv(),
            old(self).page_size == PAGE_SIZE,
            addr % PAGE_SIZE == 0,
            phys % (PAGE_SIZE as u64) == 0,
            vpn(addr) < NUM_PAGES,
            old(dir).page(vpn(addr)) is None ==> phys / (PAGE_SIZE as u64) < old(self).frame_set.size,
        ensures
            final(self).wf(),
            final(dir).inv(),
            final(self).page_size == old(self).page_size,
            final(self).frame_set.size == old(self).frame_set.size,
            (r == Err::<(), PagingError>(PagingError::FrameInUse)) <==> old(dir).page(vpn(addr)) is Some,
            old(dir).page(vpn(addr)) is Some ==> *final(dir) == *old(dir),
            old(dir).page(vpn(addr)) is None ==> (r is Ok <==> (phys <= u32::MAX && old(dir).can_map(vpn(addr)))),
            old(dir).page(vpn(addr)) is None ==> (r == Err::<(), PagingError>(PagingError::BadFrame) <==> phys > u32::MAX),
            old(dir).page(vpn(addr)) is None ==> (r == Err::<(), PagingError>(PagingError::AllocError)
                <==> (phys <= u32::MAX && !old(dir).can_map(vpn(addr)))),
            r is Err ==> r == Err::<(), PagingError>(PagingError::FrameInUse) || r == Err::<(), PagingError>(PagingError::BadFrame) || r == Err::<(), PagingError>(PagingError::AllocError),
            r is Ok ==> final(self).frame_set@ == old(self).frame_set@.update(old(self).index_of(phys), true),
            r is Ok ==> final(dir).page(vpn(addr)) == stored_page(Some(PageFrame {
                addr: phys,
                present: true,
                user_mode,
                writable,
                copy_on_write: false,
                executable,
                referenced: false,
                shared: false,
            }), vpn(addr)),
            r is Err ==> final(self).frame_set@ == old(self).frame_set@,
            r is Err ==> final(dir).page(vpn(addr)) == old(dir).page(vpn(addr)),
            forall|v: nat| v != vpn(addr) ==> final(dir).page(v) == old(dir).page(v),
            frames_accounted(old(self), old(dir)) ==> frames_accounted(final(self), final(dir)),
    {
        let ghost d0 = *dir;
        if dir.is_unused(addr) {
            let frame = PageFrame {
                addr: phys,
                present: true,
                user_mode,
                writable,
                copy_on_write: false,
                executable,
                referenced: false,
                shared: false,
            };
            match dir.set_page(addr, Some(frame)) {
                Ok(()) => {
                    self.frame_set.set((phys / self.page_size as u64) as usize);
                    proof {
                        crate::directory::lemma_stored_present(frame, vpn(addr));
                        if frames_accounted(old(self), &d0) {
                            assert forall|v: nat| #![trigger dir.page(v)] v < NUM_PAGES && dir.page(v) is Some
                                && self.index_of(dir.page(v)->0.addr) < self.frame_set.size
                                implies self.frame_set@[self.index_of(dir.page(v)->0.addr)] by {
                                if v != vpn(addr) {
                                    assert(d0.page(v) == dir.page(v));
                                }
                            }
                        }
                    }
                    Ok(())
                },
                Err(e) => Err(e),
            }
        } else {
            Err(PagingError::FrameInUse)
        }
    }

    /// Marks the frame at `addr` used.
    pub fn set_frame_used(&mut self, addr: u64)
        requires
            old(self).wf(),
            addr % (old(self).page_size as u64) == 0,
            old(self).index_of(addr) < old(self).frame_set.size,
        ensures
            final(self).wf(),
            final(self).page_size == old(self).page_size,
            final(self).frame_set.size == old(self).frame_set.size,
            final(self).frame_set@ == old(self).frame_set@.update(old(self).index_of(addr), true),
    {
        self.frame_set.set((addr / self.page_size as u64) as usize);
    }

    /// Marks the frame at `addr` free.
    pub fn set_frame_free(&mut self, addr: u64)
        requires
            old(self).wf(),
            addr % (old(self).page_size as u64) == 0,
            old(self).index_of(addr) < old(self).frame_set.size,
        ensures
            final(self).wf(),
            final(self).page_size == old(self).page_size,
            final(self).frame_set.size == old(self).frame_set.size,
            final(self).frame_set@ == old(self).frame_set@.update(old(self).index_of(addr), false),
    {
        self.frame_set.clear((addr / self.page_size as u64) as usize);
    }

    /// Unmaps the page at `addr` in `dir`, marks its frame free, and returns
    /// the frame's address; `FrameUnused` when nothing is mapped there. A
    /// frame beyond the end of the bitset is not tracked and stays so.
    pub fn free_frame<T: PageDirectory>(&mut self, dir: &mut T, addr: usize) -> (r: Result<u64, PagingError>)
        requires
            old(self).wf(),
            old(dir).inv(),
            old(self).page_size == PAGE_SIZE,
            addr % PAGE_SIZE == 0,
            vpn(addr) < NUM_PAGES,
        ensures
            final(self).wf(),
            final(dir).inv(),
            final(self).page_size == old(self).page_size,
            final(self).frame_set.size == old(self).frame_set.size,
            match old(dir).page(vpn(addr)) {
                None => {
                    &&& r == Err::<u64, PagingError>(PagingError::FrameUnused)
                    &&& final(self).frame_set@ == old(self).frame_set@
                    &&& final(dir).page(vpn(addr)) is None
                },
                Some(f) => {
                    &&& r == Ok::<u64, PagingError>(f.addr)
                    &&& final(dir).page(vpn(addr)) is None
                    &&& final(self).frame_set@ == (if old(self).index_of(f.addr) < old(self).frame_set.size {
                        old(self).frame_set@.update(old(self).index_of(f.addr), false)
                    } else {
                        old(self).frame_set@
                    })
                },
            },
            forall|v: nat| v != vpn(addr) ==> final(dir).page(v) == old(dir).page(v),
            frames_accounted(old(self), old(dir)) && (forall|v: nat| v != vpn(addr) && #[trigger] old(dir).page(v) is Some
                ==> old(dir).page(v)->0.addr != old(dir).page(vpn(addr))->0.addr)
                ==> frames_accounted(final(self), final(dir)),
    {
        let ghost d0 = *dir;
        match dir.get_page(addr) {
            Some(page) => {
                let idx = page.addr / self.page_size as u64;
                if idx < self.frame_set.size as u64 {
                    self.frame_set.clear(idx as usize);
                }
                let _ = dir.set_page(addr, None);
                proof {
                    if frames_accounted(old(self), &d0) && (forall|v: nat| v != vpn(addr) && #[trigger] d0.page(v) is Some
                        ==> d0.page(v)->0.addr != d0.page(vpn(addr))->0.addr) {
                        assert forall|v: nat| #![trigger dir.page(v)] v < NUM_PAGES && dir.page(v) is Some
                            && self.index_of(dir.page(v)->0.addr) < self.frame_set.size
                            implies self.frame_set@[self.index_of(dir.page(v)->0.addr)] by {
                            assert(v != vpn(addr));
                            assert(d0.page(v) == dir.page(v));
                            assert(d0.page(v)->0.addr != page.addr);
                            if self.index_of(dir.page(v)->0.addr) == self.index_of(page.addr) {
                                // distinct aligned frames have distinct indices
                                d0.lemma_mapped_can_map(v);
                                d0.lemma_mapped_can_map(vpn(addr));
                                let a = d0.page(v)->0.addr;
                                let b = page.addr;
                                assert(a == b) by (nonlinear_arith)
                                    requires a % 4096 == 0, b % 4096 == 0, a / 4096 == b / 4096;
                            }
                        }
                    }
                }
                Ok(page.addr)
            },
            None => Err(PagingError::FrameUnused),
        }
    }

    /// The figures of the frame-usage report.
    pub fn print_free(&self) -> (r: FrameUsage)
        requires
            self.wf(),
            self.frame_set.size > 0,
        ensures
            r.used == count_set(self.frame_set@),
            r.size == self.frame_set.size,
            r.percent as int == (r.used as int * 100) / (r.size as int),
    {
        let used = self.frame_set.bits_used;
        let size = self.frame_set.size;
        proof {
            crate::bitset::lemma_count_bound(self.frame_set@);
        }
        let scaled: u128 = used as u128 * 100;
        let percent: u128 = scaled / size as u128;
        assert(percent <= 100) by (nonlinear_arith)
            requires percent as int == (scaled as int) / (size as int), scaled as int == used as int * 100, used <= size, size > 0;
        FrameUsage { used, size, percent: percent as usize }
    }

    /// Marks used every frame that `dir` maps and the bitset covers.
    pub fn sync_from_dir<T: PageDirectory>(&mut self, dir: &T)
        requires
            old(self).wf(),
            dir.inv(),
            old(self).page_size == PAGE_SIZE,
        ensures
            final(self).wf(),
            final(self).page_size == old(self).page_size,
            final(self).frame_set.size == old(self).frame_set.size,
            forall|i: int| 0 <= i < final(self).frame_set.size ==> (#[trigger] final(self).frame_set@[i] <==> (
                old(self).frame_set@[i] || exists|v: nat| v < NUM_PAGES && #[trigger] maps_frame_index(dir, v, i)
            )),
    {
        let mut v: usize = 0;
        while v < NUM_PAGES
            invariant
                self.wf(),
                dir.inv(),
                self.page_size == PAGE_SIZE,
                self.frame_set.size == old(self).frame_set.size,
                v <= NUM_PAGES,
                forall|i: int| 0 <= i < self.frame_set.size ==> (#[trigger] self.frame_set@[i] <==> (
                    old(self).frame_set@[i] || exists|w: nat| w < v && #[trigger] maps_frame_index(dir, w, i)
                )),
            decreases NUM_PAGES - v,
        {
            let addr = v * PAGE_SIZE;
            assert(vpn(addr) == v) by (nonlinear_arith) requires addr == v * 4096;
            if let Some(page) = dir.get_page(addr) {
                let idx = page.addr / PAGE_SIZE as u64;
                if idx < self.frame_set.size as u64 {
                    let ghost before = self.frame_set@;
                    self.frame_set.set(idx as usize);
                    proof {
                        assert forall|i: int| 0 <= i < self.frame_set.size implies (#[trigger] self.frame_set@[i] <==> (
                            old(self).frame_set@[i] || exists|w: nat| w < v + 1 && #[trigger] maps_frame_index(dir, w, i)
                        )) by {
                            if i == idx {
                                assert(maps_frame_index(dir, v as nat, i));
                            } else {
                                assert(self.frame_set@[i] == before[i]);
                                if exists|w: nat| w < v + 1 && #[trigger] maps_frame_index(dir, w, i) {
                                    let w = choose|w: nat| w < v + 1 && #[trigger] maps_frame_index(dir, w, i);
                                    assert(w != v);
                                }
                            }
                        }
                    }
                } else {
                    proof {
                        assert forall|i: int| 0 <= i < self.frame_set.size implies (#[trigger] self.frame_set@[i] <==> (
                            old(self).frame_set@[i] || exists|w: nat| w < v + 1 && #[trigger] maps_frame_index(dir, w, i)
                        )) by {
                            if exists|w: nat| w < v + 1 && #[trigger] maps_frame_index(dir, w, i) {
                                let w = choose|w: nat| w < v + 1 && #[trigger] maps_frame_index(dir, w, i);
                                assert(w != v);
                            }
                        }
                    }
                }
            } else {
                proof {
                    assert forall|i: int| 0 <= i < self.frame_set.size implies (#[trigger] self.frame_set@[i] <==> (
                        old(self).frame_set@[i] || exists|w: nat| w < v + 1 && #[trigger] maps_frame_index(dir, w, i)
                    )) by {
                        if exists|w: nat| w < v + 1 && #[trigger] maps_frame_index(dir, w, i) {
                            let w = choose|w: nat| w < v + 1 && #[trigger] maps_frame_index(dir, w, i);
                            assert(w != v);
                        }
                    }
                }
            }
            v = v + 1;
        }
        proof {
            assert forall|w: nat| #![trigger dir.page(w)] w < NUM_PAGES && dir.page(w) is Some
                && self.index_of(dir.page(w)->0.addr) < self.frame_set.size
                implies self.frame_set@[self.index_of(dir.page(w)->0.addr)] by {
                assert(maps_frame_index(dir, w, self.index_of(dir.page(w)->0.addr)));
            }
        }
    }
}

} // verus!
