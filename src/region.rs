//! Searches over ranges of virtual pages.
use vstd::prelude::*;
use crate::directory::PageDirectory;
use crate::frame::{vpn, NUM_PAGES, PAGE_SIZE};

verus! {

/// Number of pages a hole of `size` bytes takes: `size` rounded up to
/// whole pages, and at least one.
pub open spec fn hole_pages(size: usize) -> nat {
    let n = (size as int + PAGE_SIZE as int - 1) / PAGE_SIZE as int;
    if n < 1 { 1 } else { n as nat }
}

/// Whether the `n` pages from page `h` are all unmapped in `dir`.
pub open spec fn is_hole<D: PageDirectory>(dir: &D, h: nat, n: nat) -> bool {
    forall|k: nat| k < n ==> #[trigger] dir.page(h + k) is None
}

/// Finds the lowest page-aligned address in `[start, end)` where `size`
/// bytes of unmapped pages begin and fit before `end`.
pub fn find_hole<D: PageDirectory>(page_dir: &D, start: usize, end: usize, size: usize) -> (r: Option<usize>)
    requires
        page_dir.inv(),
        start % PAGE_SIZE == 0,
        end % PAGE_SIZE == 0,
        vpn(end) <= NUM_PAGES,
    ensures
        match r {
            Some(a) => {
                &&& a % PAGE_SIZE == 0
                &&& start <= a
                &&& vpn(a) + hole_pages(size) <= vpn(end)
                &&& is_hole(page_dir, vpn(a), hole_pages(size))
                &&& forall|h: nat| vpn(start) <= h < vpn(a) ==> !is_hole(page_dir, h, hole_pages(size))
            },
            None => forall|h: nat| vpn(start) <= h && h + hole_pages(size) <= vpn(end) ==> !is_hole(page_dir, h, hole_pages(size)),
        },
{
    let n: usize = if size / PAGE_SIZE + (if size % PAGE_SIZE != 0 { 1usize } else { 0usize }) == 0 {
        1
    } else {
        size / PAGE_SIZE + (if size % PAGE_SIZE != 0 { 1usize } else { 0usize })
    };
    assert(n == hole_pages(size)) by (nonlinear_arith)
        requires
            n == (if size / 4096 + (if size % 4096 != 0 { 1int } else { 0int }) == 0 { 1int } else { size / 4096 + (if size % 4096 != 0 { 1int } else { 0int }) }),
            hole_pages(size) == (if (size as int + 4095) / 4096 < 1 { 1int } else { (size as int + 4095) / 4096 });
    let first = start / PAGE_SIZE;
    let last = end / PAGE_SIZE;
    let mut run_start = first;
    let mut v = first;
    while v < last
        invariant
            page_dir.inv(),
            n == hole_pages(size),
            n >= 1,
            start % PAGE_SIZE == 0,
            first == vpn(start),
            last == vpn(end),
            last <= NUM_PAGES,
            first <= run_start <= v,
            v <= last || v == first,
            v - run_start < n,
            forall|k: nat| run_start <= k < v ==> #[trigger] page_dir.page(k) is None,
            run_start > first ==> page_dir.page((run_start - 1) as nat) is Some,
            forall|h: nat| first <= h && h + n <= v ==> !is_hole(page_dir, h, n as nat),
        decreases last - v,
    {
        let va = v * PAGE_SIZE;
        assert(vpn(va) == v) by (nonlinear_arith) requires va == v * 4096;
        if page_dir.is_unused(va) {
            if v + 1 - run_start == n {
                let a = run_start * PAGE_SIZE;
                assert(vpn(a) == run_start && a % PAGE_SIZE == 0 && start <= a) by (nonlinear_arith)
                    requires a == run_start * 4096, run_start >= first, first == start / 4096, start % 4096 == 0;
                proof {
                    assert forall|k: nat| k < n implies #[trigger] page_dir.page(run_start as nat + k) is None by {
                        assert(page_dir.page((run_start + k) as nat) is None);
                    }
                    assert forall|h: nat| first <= h < run_start implies !is_hole(page_dir, h, n as nat) by {
                        if h + n > v {
                            let k: nat = (run_start - 1 - h) as nat;
                            assert(page_dir.page(h + k) is Some);
                        }
                    }
                }
                return Some(a);
            }
            proof {
                assert forall|h: nat| first <= h && h + n <= v + 1 implies !is_hole(page_dir, h, n as nat) by {
                    if h + n == v + 1 {
                        let k: nat = (run_start - 1 - h) as nat;
                        assert(page_dir.page(h + k) is Some);
                    }
                }
            }
        } else {
            proof {
                assert forall|h: nat| first <= h && h + n <= v + 1 implies !is_hole(page_dir, h, n as nat) by {
                    if h + n == v + 1 {
                        let k: nat = (v - h) as nat;
                        assert(page_dir.page(h + k) is Some);
                    }
                }
            }
            run_start = v + 1;
        }
        v = v + 1;
    }
    None
}

/// The pages that the byte range `[start, start + len)` overlaps: from the
/// page of `start` up to `start + len` rounded up to a page.
pub open spec fn region_pages(start: usize, len: usize) -> (nat, nat) {
    let first = start as int / PAGE_SIZE as int;
    let end = (start as int + len as int + PAGE_SIZE as int - 1) / PAGE_SIZE as int;
    (first as nat, end as nat)
}

/// Whether every page that `[start, start + len)` overlaps is mapped in
/// `page_dir`.
pub fn validate_region<D: PageDirectory>(page_dir: &D, start: usize, len: usize) -> (r: bool)
    requires
        page_dir.inv(),
        start + len <= NUM_PAGES * PAGE_SIZE,
    ensures
        r == forall|v: nat| region_pages(start, len).0 <= v < region_pages(start, len).1 ==> #[trigger] page_dir.page(v) is Some,
{
    let first = start / PAGE_SIZE;
    let end = if len == 0 {
        if start % PAGE_SIZE == 0 { first } else { first + 1 }
    } else {
        (start + (len - 1)) / PAGE_SIZE + 1
    };
    assert(first == region_pages(start, len).0 && end == region_pages(start, len).1 && end <= NUM_PAGES) by (nonlinear_arith)
        requires
            first == start / 4096,
            len == 0 ==> end as int == (if start % 4096 == 0 { first as int } else { first + 1 }),
            len > 0 ==> end == (start + len - 1) / 4096 + 1,
            start + len <= 0x10_0000 * 4096,
            region_pages(start, len).0 == start as int / 4096,
            region_pages(start, len).1 == (start as int + len as int + 4095) / 4096;
    let mut v = first;
    while v < end
        invariant
            page_dir.inv(),
            first == region_pages(start, len).0,
            end == region_pages(start, len).1,
            end <= NUM_PAGES,
            first <= v,
            v <= end || v == first,
            forall|w: nat| first <= w < v ==> #[trigger] page_dir.page(w) is Some,
        decreases end - v,
    {
        let va = v * PAGE_SIZE;
        assert(vpn(va) == v) by (nonlinear_arith) requires va == v * 4096;
        if page_dir.get_page(va).is_none() {
            return false;
        }
        v = v + 1;
    }
    true
}

} // verus!
