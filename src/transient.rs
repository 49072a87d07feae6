//! Transient mappings: foreign frames spliced into the current address
//! space over a kernel buffer, then the buffer's own frames put back.
use vstd::prelude::*;
use crate::directory::{PageDirectory, stored_page};
use crate::frame::{PageFrame, PagingError, vpn, NUM_PAGES, PAGE_SIZE};

verus! {

/// The pages that the byte span `[addr, addr + len)` touches: the first
/// page number and how many.
pub open spec fn span_pages(addr: usize, len: usize) -> (nat, nat) {
    let first = addr as int / PAGE_SIZE as int;
    let end = (addr as int + len as int + PAGE_SIZE as int - 1) / PAGE_SIZE as int;
    (first as nat, (end - first) as nat)
}

/// Whether the span `[addr, addr + len)` is non-empty and lies in the
/// address space.
pub open spec fn span_ok(addr: usize, len: usize) -> bool {
    &&& len > 0
    &&& addr + len <= NUM_PAGES * PAGE_SIZE
}

/// The mappings of the pages of a span, collected from a directory, with
/// the offset of the span's first byte in its first page.
pub struct SourceSpan {
    pub offset: usize,
    pub frames: Vec<PageFrame>,
}

/// Collects the mappings of every page of `[addr, addr + len)` in `from`;
/// `BadAddress` when one of them is unmapped.
pub fn source_frames<D: PageDirectory>(from: &D, addr: usize, len: usize) -> (r: Result<SourceSpan, PagingError>)
    requires
        from.inv(),
        span_ok(addr, len),
    ensures
        ({
            let (first, n) = span_pages(addr, len);
            match r {
                Ok(s) => {
                    &&& s.offset == addr % PAGE_SIZE
                    &&& s.frames@.len() == n
                    &&& forall|i: int| 0 <= i < n ==> from.page(span_pages(addr, len).0 + i as nat) == Some(#[trigger] s.frames@[i])
                },
                Err(e) => {
                    &&& e == PagingError::BadAddress
                    &&& exists|i: int| 0 <= i < n && #[trigger] from.page(span_pages(addr, len).0 + i as nat) is None
                },
            }
        }),
{
    let first = addr / PAGE_SIZE;
    let last = addr + (len - 1);
    let end = last / PAGE_SIZE + 1;
    let ghost n = span_pages(addr, len).1;
    assert(end <= NUM_PAGES && first < end && end == (addr + len + 4095) / 4096) by (nonlinear_arith)
        requires
            first == addr / 4096,
            end == last / 4096 + 1,
            last == addr + len - 1,
            len > 0,
            addr + len <= 0x10_0000 * 4096;
    let mut frames: Vec<PageFrame> = Vec::new();
    let mut v = first;
    while v < end
        invariant
            from.inv(),
            first <= v <= end,
            end <= NUM_PAGES,
            first == span_pages(addr, len).0,
            end - first == n,
            n == span_pages(addr, len).1,
            frames@.len() == v - first,
            forall|i: int| 0 <= i < v - first ==> from.page(span_pages(addr, len).0 + i as nat) == Some(#[trigger] frames@[i]),
        decreases end - v,
    {
        let va = v * PAGE_SIZE;
        assert(vpn(va) == v) by (nonlinear_arith) requires va == v * 4096;
        match from.get_page(va) {
            Some(f) => { frames.push(f); },
            None => {
                let ghost i: int = v - first;
                assert(from.page(span_pages(addr, len).0 + i as nat) is None);
                assert(0 <= i < n);
                assert(exists|i: int| 0 <= i < span_pages(addr, len).1 && #[trigger] from.page(span_pages(addr, len).0 + i as nat) is None);
                return Err(PagingError::BadAddress);
            },
        }
        v = v + 1;
    }
    Ok(SourceSpan { offset: addr % PAGE_SIZE, frames })
}

/// Whether `a` is among `list`.
fn contains(list: &Vec<u64>, a: u64) -> (r: bool)
    ensures
        r == list@.contains(a),
{
    let mut k: usize = 0;
    while k < list.len()
        invariant
            k <= list@.len(),
            forall|j: int| 0 <= j < k ==> list@[j] != a,
        decreases list@.len() - k,
    {
        if list[k] == a {
            return true;
        }
        k = k + 1;
    }
    false
}

/// Which of `frames` must be copied before they are mapped elsewhere: the
/// copy-on-write ones.
pub fn cow_pages(frames: &Vec<PageFrame>) -> (r: Vec<bool>)
    ensures
        r@.len() == frames@.len(),
        forall|i: int| 0 <= i < frames@.len() ==> #[trigger] r@[i] == frames@[i].spec_is_cow(),
{
    let mut r: Vec<bool> = Vec::new();
    let mut i: usize = 0;
    while i < frames.len()
        invariant
            i <= frames@.len(),
            r@.len() == i,
            forall|k: int| 0 <= k < i ==> #[trigger] r@[k] == frames@[k].spec_is_cow(),
        decreases frames@.len() - i,
    {
        r.push(frames[i].is_cow());
        i = i + 1;
    }
    r
}

/// Whether `buffer` is a page-aligned span of `n` pages in the address
/// space.
pub open spec fn buffer_ok(buffer: usize, n: nat) -> bool {
    &&& buffer % PAGE_SIZE == 0
    &&& vpn(buffer) + n <= NUM_PAGES
}

/// The state after the buffer at `buffer` was given the frames
/// `addresses`: each page `i` of the buffer maps `addresses[i]`, present and
/// writable, `saved[i]` is the frame the page mapped before, and no other
/// page changed.
pub open spec fn map_memory_begun<D: PageDirectory>(before: D, after: D, buffer: usize, addresses: Seq<u64>, saved: Seq<u64>) -> bool {
    let first = vpn(buffer);
    &&& saved.len() == addresses.len()
    &&& forall|i: int| 0 <= i < addresses.len() ==> (#[trigger] before.page(vpn(buffer) + i as nat)) == Some(
        PageFrame { addr: saved[i], ..before.page(vpn(buffer) + i as nat)->0 },
    )
    &&& forall|i: int| 0 <= i < addresses.len() ==> #[trigger] after.page(vpn(buffer) + i as nat) == stored_page(
        Some(PageFrame::spec_present_writable(addresses[i])),
        vpn(buffer) + i as nat,
    )
    &&& forall|v: nat| (v < first || v >= first + addresses.len()) ==> #[trigger] after.page(v) == before.page(v)
}

/// The state after the buffer's pages were given back the frames `saved`.
pub open spec fn map_memory_ended<D: PageDirectory>(before: D, after: D, buffer: usize, saved: Seq<u64>) -> bool {
    let first = vpn(buffer);
    &&& forall|i: int| 0 <= i < saved.len() ==> #[trigger] after.page(vpn(buffer) + i as nat) == stored_page(
        Some(PageFrame::spec_present_writable(saved[i])),
        vpn(buffer) + i as nat,
    )
    &&& forall|v: nat| (v < first || v >= first + saved.len()) ==> #[trigger] after.page(v) == before.page(v)
}

/// Whether the `n` pages of the buffer at `buffer` are all mapped in `d`.
pub open spec fn buffer_mapped<D: PageDirectory>(d: D, buffer: usize, n: nat) -> bool {
    forall|k: int| 0 <= k < n ==> #[trigger] d.page(vpn(buffer) + k as nat) is Some
}

/// Whether one of `addresses` is the frame of a page of the buffer at
/// `buffer` in `d`.
pub open spec fn buffer_overlaps<D: PageDirectory>(d: D, buffer: usize, addresses: Seq<u64>) -> bool {
    exists|i: int, k: int| 0 <= i < addresses.len() && 0 <= k < addresses.len()
        && #[trigger] addresses[i] == #[trigger] d.page(vpn(buffer) + k as nat)->0.addr
}

/// Maps the frames `addresses`, in order, over the pages of the kernel
/// buffer at `buffer` in `map_into`, and returns the frames those pages
/// mapped before. `BadAddress` when a page of the buffer is unmapped, and
/// `FrameInUse` when one of the buffer's own frames is among `addresses`;
/// neither changes anything.
pub fn begin_map_memory<D: PageDirectory>(map_into: &mut D, addresses: &Vec<u64>, buffer: usize) -> (r: Result<Vec<u64>, PagingError>)
    requires
        old(map_into).inv(),
        buffer_ok(buffer, addresses@.len()),
        forall|i: int| 0 <= i < addresses@.len() ==> #[trigger] addresses@[i] <= u32::MAX,
    ensures
        final(map_into).inv(),
        r is Ok <==> (buffer_mapped(*old(map_into), buffer, addresses@.len())
            && !buffer_overlaps(*old(map_into), buffer, addresses@)),
        match r {
            Ok(saved) => map_memory_begun(*old(map_into), *final(map_into), buffer, addresses@, saved@),
            Err(e) => {
                &&& *final(map_into) == *old(map_into)
                &&& (e == PagingError::BadAddress <==> exists|i: int| 0 <= i < addresses@.len()
                    && #[trigger] old(map_into).page(vpn(buffer) + i as nat) is None)
                &&& e == PagingError::BadAddress || e == PagingError::FrameInUse
            },
        },
{
    let first = buffer / PAGE_SIZE;
    let n = addresses.len();
    let mut existing: Vec<u64> = Vec::new();
    let mut i: usize = 0;
    while i < n
        invariant
            map_into.inv(),
            *map_into == *old(map_into),
            first == vpn(buffer),
            first + n <= NUM_PAGES,
            n == addresses@.len(),
            i <= n,
            existing@.len() == i,
            forall|k: int| 0 <= k < i ==> (#[trigger] map_into.page(vpn(buffer) + k as nat)) == Some(
                PageFrame { addr: existing@[k], ..map_into.page(vpn(buffer) + k as nat)->0 },
            ),
        decreases n - i,
    {
        let va = (first + i) * PAGE_SIZE;
        assert(vpn(va) == first + i && va % PAGE_SIZE == 0) by (nonlinear_arith) requires va == (first + i) * 4096;
        match map_into.virt_to_phys(va) {
            Some(a) => { existing.push(a); },
            None => {
                let ghost k: int = i as int;
                assert(old(map_into).page(vpn(buffer) + k as nat) is None);
                return Err(PagingError::BadAddress);
            },
        }
        i = i + 1;
    }
    let mut i: usize = 0;
    while i < n
        invariant
            map_into.inv(),
            *map_into == *old(map_into),
            i <= n,
            n == addresses@.len(),
            existing@.len() == n,
            forall|j: int| 0 <= j < i ==> forall|k: int| 0 <= k < n ==> existing@[k] != #[trigger] addresses@[j],
            forall|k: int| 0 <= k < n ==> (#[trigger] map_into.page(vpn(buffer) + k as nat)) == Some(
                PageFrame { addr: existing@[k], ..map_into.page(vpn(buffer) + k as nat)->0 },
            ),
        decreases n - i,
    {
        if contains(&existing, addresses[i]) {
            proof {
                let k = choose|k: int| 0 <= k < n && existing@[k] == addresses@[i as int];
                assert(map_into.page(vpn(buffer) + k as nat) == Some(
                    PageFrame { addr: existing@[k], ..map_into.page(vpn(buffer) + k as nat)->0 },
                ));
                assert(addresses@[i as int] == old(map_into).page(vpn(buffer) + k as nat)->0.addr);
                assert forall|j: int| 0 <= j < n implies #[trigger] old(map_into).page(vpn(buffer) + j as nat) is Some by {
                    assert(map_into.page(vpn(buffer) + j as nat) == Some(
                        PageFrame { addr: existing@[j], ..map_into.page(vpn(buffer) + j as nat)->0 },
                    ));
                }
            }
            return Err(PagingError::FrameInUse);
        }
        i = i + 1;
    }
    proof {
        assert forall|j: int, k: int| 0 <= j < n && 0 <= k < n implies
            #[trigger] addresses@[j] != #[trigger] old(map_into).page(vpn(buffer) + k as nat)->0.addr by {
            assert(map_into.page(vpn(buffer) + k as nat) == Some(
                PageFrame { addr: existing@[k], ..map_into.page(vpn(buffer) + k as nat)->0 },
            ));
            assert(existing@[k] != addresses@[j]);
        }
        assert forall|k: int| 0 <= k < n implies #[trigger] old(map_into).page(vpn(buffer) + k as nat) is Some by {
            assert(map_into.page(vpn(buffer) + k as nat) == Some(
                PageFrame { addr: existing@[k], ..map_into.page(vpn(buffer) + k as nat)->0 },
            ));
        }
    }
    let mut i: usize = 0;
    while i < n
        invariant
            !buffer_overlaps(*old(map_into), buffer, addresses@),
            buffer_mapped(*old(map_into), buffer, addresses@.len()),
            map_into.inv(),
            first == vpn(buffer),
            first + n <= NUM_PAGES,
            n == addresses@.len(),
            i <= n,
            existing@.len() == n,
            forall|k: int| 0 <= k < n ==> #[trigger] addresses@[k] <= u32::MAX,
            forall|k: int| 0 <= k < n ==> (#[trigger] old(map_into).page(vpn(buffer) + k as nat)) == Some(
                PageFrame { addr: existing@[k], ..old(map_into).page(vpn(buffer) + k as nat)->0 },
            ),
            forall|k: int| 0 <= k < i ==> #[trigger] map_into.page(vpn(buffer) + k as nat) == stored_page(
                Some(PageFrame::spec_present_writable(addresses@[k])),
                vpn(buffer) + k as nat,
            ),
            forall|k: int| i <= k < n ==> #[trigger] map_into.page(vpn(buffer) + k as nat) == old(map_into).page(vpn(buffer) + k as nat),
            forall|v: nat| (v < first || v >= first + n) ==> #[trigger] map_into.page(v) == old(map_into).page(v),
        decreases n - i,
    {
        let va = (first + i) * PAGE_SIZE;
        assert(vpn(va) == first + i) by (nonlinear_arith) requires va == (first + i) * 4096;
        proof {
            let k: int = i as int;
            assert(map_into.page(vpn(buffer) + k as nat) == old(map_into).page(vpn(buffer) + k as nat));
            assert(old(map_into).page(vpn(buffer) + k as nat) is Some);
            map_into.lemma_mapped_can_map(vpn(buffer) + k as nat);
        }
        let ghost mid = *map_into;
        let _ = map_into.set_page(va, Some(PageFrame::present_writable(addresses[i])));
        proof {
            assert forall|k: int| 0 <= k < i + 1 implies #[trigger] map_into.page(vpn(buffer) + k as nat) == stored_page(
                Some(PageFrame::spec_present_writable(addresses@[k])),
                vpn(buffer) + k as nat,
            ) by {
                if k < i {
                    assert(mid.page(vpn(buffer) + k as nat) == map_into.page(vpn(buffer) + k as nat));
                }
            }
            assert forall|k: int| i + 1 <= k < n implies #[trigger] map_into.page(vpn(buffer) + k as nat) == old(map_into).page(vpn(buffer) + k as nat) by {
                assert(mid.page(vpn(buffer) + k as nat) == map_into.page(vpn(buffer) + k as nat));
            }
        }
        i = i + 1;
    }
    Ok(existing)
}

/// Gives each page `i` of the buffer at `buffer` back its frame
/// `saved[i]`, present and writable.
pub fn end_map_memory<D: PageDirectory>(map_into: &mut D, buffer: usize, saved: &Vec<u64>)
    requires
        old(map_into).inv(),
        buffer_ok(buffer, saved@.len()),
        forall|i: int| 0 <= i < saved@.len() ==> #[trigger] saved@[i] <= u32::MAX,
        forall|i: int| 0 <= i < saved@.len() ==> #[trigger] old(map_into).page(vpn(buffer) + i as nat) is Some,
    ensures
        final(map_into).inv(),
        map_memory_ended(*old(map_into), *final(map_into), buffer, saved@),
{
    let first = buffer / PAGE_SIZE;
    let n = saved.len();
    let mut i: usize = 0;
    while i < n
        invariant
            map_into.inv(),
            first == vpn(buffer),
            first + n <= NUM_PAGES,
            n == saved@.len(),
            i <= n,
            forall|k: int| 0 <= k < n ==> #[trigger] saved@[k] <= u32::MAX,
            forall|k: int| 0 <= k < n ==> #[trigger] old(map_into).page(vpn(buffer) + k as nat) is Some,
            forall|k: int| 0 <= k < i ==> #[trigger] map_into.page(vpn(buffer) + k as nat) == stored_page(
                Some(PageFrame::spec_present_writable(saved@[k])),
                vpn(buffer) + k as nat,
            ),
            forall|k: int| i <= k < n ==> #[trigger] map_into.page(vpn(buffer) + k as nat) == old(map_into).page(vpn(buffer) + k as nat),
            forall|v: nat| (v < first || v >= first + n) ==> #[trigger] map_into.page(v) == old(map_into).page(v),
        decreases n - i,
    {
        let va = (first + i) * PAGE_SIZE;
        assert(vpn(va) == first + i) by (nonlinear_arith) requires va == (first + i) * 4096;
        proof {
            let k: int = i as int;
            assert(map_into.page(vpn(buffer) + k as nat) == old(map_into).page(vpn(buffer) + k as nat));
            assert(old(map_into).page(vpn(buffer) + k as nat) is Some);
            map_into.lemma_mapped_can_map(vpn(buffer) + k as nat);
        }
        let ghost mid = *map_into;
        let _ = map_into.set_page(va, Some(PageFrame::present_writable(saved[i])));
        proof {
            assert forall|k: int| 0 <= k < i + 1 implies #[trigger] map_into.page(vpn(buffer) + k as nat) == stored_page(
                Some(PageFrame::spec_present_writable(saved@[k])),
                vpn(buffer) + k as nat,
            ) by {
                if k < i {
                    assert(mid.page(vpn(buffer) + k as nat) == map_into.page(vpn(buffer) + k as nat));
                }
            }
            assert forall|k: int| i + 1 <= k < n implies #[trigger] map_into.page(vpn(buffer) + k as nat) == old(map_into).page(vpn(buffer) + k as nat) by {
                assert(mid.page(vpn(buffer) + k as nat) == map_into.page(vpn(buffer) + k as nat));
            }
        }
        i = i + 1;
    }
}

/// Splicing frames over a buffer and then giving the buffer its saved
/// frames back leaves every page outside the buffer as it was, and each page
/// of the buffer backed by the same physical frame as before.
pub proof fn lemma_transient_map_restores<D: PageDirectory>(
    before: D,
    during: D,
    after: D,
    buffer: usize,
    addresses: Seq<u64>,
    saved: Seq<u64>,
)
    requires
        before.inv(),
        buffer_ok(buffer, addresses.len()),
        map_memory_begun(before, during, buffer, addresses, saved),
        map_memory_ended(during, after, buffer, saved),
    ensures
        forall|v: nat| (v < vpn(buffer) || v >= vpn(buffer) + addresses.len()) ==> #[trigger] after.page(v) == before.page(v),
        forall|i: int| 0 <= i < addresses.len() ==> (#[trigger] after.page(vpn(buffer) + i as nat)) is Some
            && after.page(vpn(buffer) + i as nat)->0.addr == before.page(vpn(buffer) + i as nat)->0.addr,
{
    assert forall|i: int| 0 <= i < addresses.len() implies (#[trigger] after.page(vpn(buffer) + i as nat)) is Some
        && after.page(vpn(buffer) + i as nat)->0.addr == before.page(vpn(buffer) + i as nat)->0.addr by {
        let v = vpn(buffer) + i as nat;
        assert(before.page(v) == Some(PageFrame { addr: saved[i], ..before.page(v)->0 }));
        before.lemma_mapped_can_map(v);
        crate::directory::lemma_stored_present(PageFrame::spec_present_writable(saved[i]), v);
    }
}

} // verus!
