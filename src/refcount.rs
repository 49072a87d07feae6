//! Reference counts of frames shared by copy-on-write or shared memory, and
//! the release of frames.
use vstd::prelude::*;
use std::collections::BTreeMap;
use crate::directory::PageDirectory;
use crate::frame::{PageFrame, vpn, NUM_PAGES, PAGE_SIZE, KERNEL_PAGE_DIR_SPLIT};
use crate::manager::PageManager;

verus! {

broadcast use {vstd::std_specs::btree::group_btree_axioms, vstd::laws_cmp::group_laws_cmp};

/// How many references to a frame exist.
#[derive(PartialEq, Eq, Structural, Clone, Copy, Debug)]
pub struct PageReference {
    pub references: usize,
    pub phys: u64,
}

/// The shared-memory layer, which releases frames that it shares between
/// processes.
pub trait SharedRegions {
    /// Drops one reference to the shared frame at `phys`; `false` when the
    /// frame belongs to no shared region.
    fn free_shared_reference(&mut self, phys: u64) -> bool;
}

/// Reference counts of frames, by physical address. A frame that is not
/// counted has a single owner.
pub struct PageRefCounter {
    pub references: BTreeMap<u64, PageReference>,
}

impl PageRefCounter {
    pub open spec fn view(&self) -> Map<u64, PageReference> {
        self.references@
    }

    pub open spec fn wf(&self) -> bool {
        forall|p: u64| #[trigger] self@.contains_key(p) ==> self@[p].phys == p
    }

    /// The reference count of the frame at `phys`, zero when not counted.
    pub open spec fn count(&self, phys: u64) -> nat {
        if self@.contains_key(phys) {
            self@[phys].references as nat
        } else {
            0
        }
    }

    /// A counter with no frame.
    pub fn new() -> (r: PageRefCounter)
        ensures
            r.wf(),
            r@ == Map::<u64, PageReference>::empty(),
    {
        PageRefCounter { references: BTreeMap::new() }
    }

    /// Adds one reference to the frame at `phys`.
    pub fn add_reference(&mut self, phys: u64)
        requires
            old(self).wf(),
            old(self).count(phys) < usize::MAX,
        ensures
            final(self).wf(),
            final(self)@ == old(self)@.insert(phys, PageReference { references: (old(self).count(phys) + 1) as usize, phys }),
    {
        self.add_references(phys, 1);
    }

    /// Adds `num` references to the frame at `phys`.
    pub fn add_references(&mut self, phys: u64, num: usize)
        requires
            old(self).wf(),
            old(self).count(phys) + num <= usize::MAX,
        ensures
            final(self).wf(),
            final(self)@ == old(self)@.insert(phys, PageReference { references: (old(self).count(phys) + num) as usize, phys }),
    {
        let current = match self.references.get(&phys) {
            Some(reference) => reference.references,
            None => 0,
        };
        self.references.insert(phys, PageReference { references: current + num, phys });
    }

    /// Drops one reference to the frame at `phys` without ever releasing the
    /// frame; the last reference takes the frame out of the counter.
    pub fn remove_reference_no_free(&mut self, phys: u64)
        requires
            old(self).wf(),
        ensures
            final(self).wf(),
            final(self)@ == (if old(self).count(phys) > 1 {
                old(self)@.insert(phys, PageReference { references: (old(self).count(phys) - 1) as usize, phys })
            } else if old(self).count(phys) == 1 {
                old(self)@.remove(phys)
            } else {
                old(self)@
            }),
            final(self).count(phys) == (if old(self).count(phys) >= 1 { old(self).count(phys) - 1 } else { 0 }),
            forall|p: u64| p != phys ==> #[trigger] final(self).count(p) == old(self).count(p),
    {
        let current = match self.references.get(&phys) {
            Some(reference) => reference.references,
            None => 0,
        };
        if current > 1 {
            self.references.insert(phys, PageReference { references: current - 1, phys });
        } else if current == 1 {
            self.references.remove(&phys);
            assert forall|p: u64| #[trigger] self@.contains_key(p) implies self@[p].phys == p by {
                assert(old(self)@.contains_key(p));
            }
        }
    }

    /// Drops one reference to the frame at `phys`; when none is left, or the
    /// frame was not counted, the frame is released in `manager`.
    pub fn remove_reference(&mut self, phys: u64, manager: &mut PageManager)
        requires
            old(self).wf(),
            old(manager).wf(),
            phys % (old(manager).page_size as u64) == 0,
            old(manager).index_of(phys) < old(manager).frame_set.size,
        ensures
            final(self).wf(),
            final(manager).wf(),
            final(manager).page_size == old(manager).page_size,
            final(manager).frame_set.size == old(manager).frame_set.size,
            old(self).count(phys) > 1 ==> {
                &&& final(self)@ == old(self)@.insert(phys, PageReference { references: (old(self).count(phys) - 1) as usize, phys })
                &&& final(manager).frame_set@ == old(manager).frame_set@
            },
            old(self).count(phys) <= 1 ==> {
                &&& final(self)@ == old(self)@.remove(phys)
                &&& final(manager).frame_set@ == old(manager).frame_set@.update(old(manager).index_of(phys), false)
            },
    {
        let current = match self.references.get(&phys) {
            Some(reference) => reference.references,
            None => 0,
        };
        if current > 1 {
            self.references.insert(phys, PageReference { references: current - 1, phys });
        } else {
            self.references.remove(&phys);
            manager.set_frame_free(phys);
            proof {
                assert(old(self)@.remove(phys) =~= self@) by {
                    if !old(self)@.contains_key(phys) {
                        assert(old(self)@.remove(phys) =~= old(self)@);
                    }
                }
            }
        }
    }

    /// Forgets the frame at `phys` without releasing it.
    pub fn remove_all_references(&mut self, phys: u64)
        requires
            old(self).wf(),
        ensures
            final(self).wf(),
            final(self)@ == old(self)@.remove(phys),
    {
        if self.references.contains_key(&phys) {
            self.references.remove(&phys);
            assert forall|p: u64| #[trigger] self@.contains_key(p) implies self@[p].phys == p by {
                assert(old(self)@.contains_key(p));
            }
        } else {
            assert(old(self)@.remove(phys) =~= old(self)@);
        }
    }

    /// The reference count of the frame at `phys`, zero when not counted.
    pub fn get_references_for(&self, phys: u64) -> (r: usize)
        ensures
            r == self.count(phys),
    {
        match self.references.get(&phys) {
            Some(reference) => reference.references,
            None => 0,
        }
    }
}

/// Whether releasing `page` through `manager` is well defined: its frame
/// is aligned and tracked by the bitset.
pub open spec fn releasable(manager: &PageManager, page: PageFrame) -> bool {
    &&& page.addr % (manager.page_size as u64) == 0
    &&& manager.index_of(page.addr) < manager.frame_set.size
}

/// The effect of `remove_reference(phys)`: one reference less, or, for the
/// last one or an uncounted frame, the frame leaves the counter and is
/// marked free.
pub open spec fn reference_removed(refs0: PageRefCounter, refs1: PageRefCounter, m0: PageManager, m1: PageManager, phys: u64) -> bool {
    &&& refs0.count(phys) > 1 ==> refs1@ == refs0@.insert(phys, PageReference { references: (refs0.count(phys) - 1) as usize, phys })
    &&& refs0.count(phys) > 1 ==> m1.frame_set@ == m0.frame_set@
    &&& refs0.count(phys) <= 1 ==> refs1@ == refs0@.remove(phys)
    &&& refs0.count(phys) <= 1 ==> m1.frame_set@ == m0.frame_set@.update(m0.index_of(phys), false)
}

/// Releases the frame of `page` the way its flags ask: a shared frame
/// through the shared-memory layer, falling back to the reference counter
/// when the layer does not know it; a referenced frame through the
/// reference counter; any other directly. Returns whether the shared-memory
/// layer took the frame.
pub fn free_page<S: SharedRegions>(page: PageFrame, refs: &mut PageRefCounter, manager: &mut PageManager, shared: &mut S) -> (r: bool)
    requires
        old(refs).wf(),
        old(manager).wf(),
        releasable(old(manager), page),
    ensures
        final(refs).wf(),
        final(manager).wf(),
        final(manager).page_size == old(manager).page_size,
        final(manager).frame_set.size == old(manager).frame_set.size,
        !page.shared ==> !r,
        !page.shared && !page.referenced ==> {
            &&& final(manager).frame_set@ == old(manager).frame_set@.update(old(manager).index_of(page.addr), false)
            &&& final(refs)@ == old(refs)@
        },
        !page.shared && page.referenced ==> reference_removed(*old(refs), *final(refs), *old(manager), *final(manager), page.addr),
        page.shared && r ==> final(refs)@ == old(refs)@ && final(manager).frame_set@ == old(manager).frame_set@,
        page.shared && !r ==> reference_removed(*old(refs), *final(refs), *old(manager), *final(manager), page.addr),
        forall|i: int| 0 <= i < final(manager).frame_set.size && #[trigger] final(manager).frame_set@[i] ==> old(manager).frame_set@[i],
        forall|p: u64| #[trigger] final(refs).count(p) <= old(refs).count(p),
        forall|p: u64| p != page.addr ==> #[trigger] final(refs).count(p) == old(refs).count(p),
        forall|i: int| 0 <= i < final(manager).frame_set.size && i != old(manager).index_of(page.addr)
            ==> #[trigger] final(manager).frame_set@[i] == old(manager).frame_set@[i],
{
    if page.shared {
        if shared.free_shared_reference(page.addr) {
            true
        } else {
            refs.remove_reference(page.addr, manager);
            false
        }
    } else if page.referenced {
        refs.remove_reference(page.addr, manager);
        false
    } else {
        manager.set_frame_free(page.addr);
        false
    }
}

/// Number of pages in the user half of the address space.
pub const USER_PAGES: usize = 0xe0000;

/// Whether a page below `n` of `dir` maps the frame at `p`.
pub open spec fn maps_below<D: PageDirectory>(dir: &D, n: nat, p: u64) -> bool {
    exists|w: nat| w < n && #[trigger] dir.page(w) is Some && dir.page(w)->0.addr == p
}

/// Whether a page below `n` of `dir` maps a frame with index `i` in `m`.
pub open spec fn maps_index_below<D: PageDirectory>(dir: &D, m: PageManager, n: nat, i: int) -> bool {
    exists|w: nat| w < n && #[trigger] dir.page(w) is Some && m.index_of(dir.page(w)->0.addr) == i
}

/// Whether page `w` of `dir` maps a referenced frame outside shared memory.
pub open spec fn maps_counted<D: PageDirectory>(dir: &D, w: nat) -> bool {
    dir.page(w) is Some && dir.page(w)->0.referenced && !dir.page(w)->0.shared
}

/// Releases every frame mapped in the user half of `dir` through
/// `free_page`. Plain frames are marked free; each referenced frame loses a
/// reference, and is marked free if it had at most one; frames that only
/// the kernel half maps keep their bits and counts.
pub fn free_page_dir<D: PageDirectory, S: SharedRegions>(dir: &D, refs: &mut PageRefCounter, manager: &mut PageManager, shared: &mut S)
    requires
        dir.inv(),
        old(refs).wf(),
        old(manager).wf(),
        forall|v: nat| v < USER_PAGES && #[trigger] dir.page(v) is Some ==> releasable(old(manager), dir.page(v)->0),
    ensures
        final(refs).wf(),
        final(manager).wf(),
        final(manager).page_size == old(manager).page_size,
        final(manager).frame_set.size == old(manager).frame_set.size,
        forall|v: nat| v < USER_PAGES && #[trigger] dir.page(v) is Some && !dir.page(v)->0.shared && !dir.page(v)->0.referenced
            ==> !final(manager).frame_set@[old(manager).index_of(dir.page(v)->0.addr)],
        forall|v: nat| v < USER_PAGES && #[trigger] maps_counted(dir, v) ==> {
            let p = dir.page(v)->0.addr;
            &&& old(refs).count(p) >= 1 ==> final(refs).count(p) < old(refs).count(p)
            &&& old(refs).count(p) <= 1 ==> !final(manager).frame_set@[old(manager).index_of(p)]
        },
        forall|i: int| 0 <= i < final(manager).frame_set.size && #[trigger] final(manager).frame_set@[i] ==> old(manager).frame_set@[i],
        forall|i: int| 0 <= i < final(manager).frame_set.size && #[trigger] old(manager).frame_set@[i] && !final(manager).frame_set@[i]
            ==> maps_index_below(dir, *old(manager), USER_PAGES as nat, i),
        forall|p: u64| #[trigger] final(refs).count(p) <= old(refs).count(p),
        forall|p: u64| #[trigger] final(refs).count(p) != old(refs).count(p) ==> maps_below(dir, USER_PAGES as nat, p),
{
    let mut v: usize = 0;
    assert(USER_PAGES * PAGE_SIZE == KERNEL_PAGE_DIR_SPLIT);
    while v < USER_PAGES
        invariant
            dir.inv(),
            refs.wf(),
            manager.wf(),
            v <= USER_PAGES,
            manager.page_size == old(manager).page_size,
            manager.frame_set.size == old(manager).frame_set.size,
            forall|w: nat| w < USER_PAGES && #[trigger] dir.page(w) is Some ==> releasable(old(manager), dir.page(w)->0),
            forall|w: nat| w < v && #[trigger] dir.page(w) is Some && !dir.page(w)->0.shared && !dir.page(w)->0.referenced
                ==> !manager.frame_set@[old(manager).index_of(dir.page(w)->0.addr)],
            forall|w: nat| w < v && #[trigger] maps_counted(dir, w) ==> {
                let p = dir.page(w)->0.addr;
                &&& old(refs).count(p) >= 1 ==> refs.count(p) < old(refs).count(p)
                &&& old(refs).count(p) <= 1 ==> !manager.frame_set@[old(manager).index_of(p)]
            },
            forall|i: int| 0 <= i < manager.frame_set.size && #[trigger] manager.frame_set@[i] ==> old(manager).frame_set@[i],
            forall|i: int| 0 <= i < manager.frame_set.size && #[trigger] old(manager).frame_set@[i] && !manager.frame_set@[i]
                ==> maps_index_below(dir, *old(manager), v as nat, i),
            forall|p: u64| #[trigger] refs.count(p) <= old(refs).count(p),
            forall|p: u64| #[trigger] refs.count(p) != old(refs).count(p) ==> maps_below(dir, v as nat, p),
        decreases USER_PAGES - v,
    {
        let addr = v * PAGE_SIZE;
        assert(vpn(addr) == v) by (nonlinear_arith) requires addr == v * 4096;
        if let Some(page) = dir.get_page(addr) {
            let ghost m0 = *manager;
            let ghost r0 = *refs;
            let _ = free_page(page, refs, manager, shared);
            proof {
                let vn = v as nat;
                assert(dir.page(vn) == Some(page));
                assert forall|p: u64| #[trigger] refs.count(p) <= old(refs).count(p) by {
                    assert(refs.count(p) <= r0.count(p));
                }
                assert forall|p: u64| #[trigger] refs.count(p) != old(refs).count(p) implies maps_below(dir, (v + 1) as nat, p) by {
                    if p == page.addr {
                        assert(dir.page(vn) is Some && dir.page(vn)->0.addr == p);
                    } else {
                        assert(refs.count(p) == r0.count(p));
                        let w = choose|w: nat| w < v && #[trigger] dir.page(w) is Some && dir.page(w)->0.addr == p;
                        assert(w < v + 1 && dir.page(w) is Some && dir.page(w)->0.addr == p);
                    }
                }
                assert forall|i: int| 0 <= i < manager.frame_set.size && #[trigger] manager.frame_set@[i] implies old(manager).frame_set@[i] by {
                    assert(m0.frame_set@[i]);
                }
                assert forall|i: int| 0 <= i < manager.frame_set.size && #[trigger] old(manager).frame_set@[i] && !manager.frame_set@[i]
                    implies maps_index_below(dir, *old(manager), (v + 1) as nat, i) by {
                    if i == m0.index_of(page.addr) {
                        assert(dir.page(vn) is Some && old(manager).index_of(dir.page(vn)->0.addr) == i);
                    } else {
                        assert(manager.frame_set@[i] == m0.frame_set@[i]);
                        let w = choose|w: nat| w < v && #[trigger] dir.page(w) is Some && old(manager).index_of(dir.page(w)->0.addr) == i;
                        assert(w < v + 1 && dir.page(w) is Some && old(manager).index_of(dir.page(w)->0.addr) == i);
                    }
                }
                assert forall|w: nat| w < v + 1 && #[trigger] dir.page(w) is Some && !dir.page(w)->0.shared && !dir.page(w)->0.referenced
                    implies !manager.frame_set@[old(manager).index_of(dir.page(w)->0.addr)] by {
                    if w < v {
                        assert(!m0.frame_set@[old(manager).index_of(dir.page(w)->0.addr)]);
                    }
                }
                assert forall|w: nat| w < v + 1 && #[trigger] maps_counted(dir, w) implies {
                    let p = dir.page(w)->0.addr;
                    &&& old(refs).count(p) >= 1 ==> refs.count(p) < old(refs).count(p)
                    &&& old(refs).count(p) <= 1 ==> !manager.frame_set@[old(manager).index_of(p)]
                } by {
                    let p = dir.page(w)->0.addr;
                    assert(releasable(old(manager), dir.page(w)->0));
                    if w < v {
                        assert(refs.count(p) <= r0.count(p));
                        if old(refs).count(p) <= 1 {
                            assert(!m0.frame_set@[old(manager).index_of(p)]);
                        }
                    } else {
                        assert(r0.count(p) <= old(refs).count(p));
                    }
                }
            }
        }
        v = v + 1;
    }
}

} // verus!
