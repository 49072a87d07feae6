//! The relation between reference counts and the copy-on-write mappings
//! that live directories hold.
use vstd::prelude::*;
use crate::cow::maps_cow;
use crate::directory::PageDirectory;
use crate::frame::{PageFrame, vpn, NUM_PAGES};
use crate::refcount::PageRefCounter;

verus! {

/// Whether page `v` of `d` maps `phys` copy-on-write.
pub open spec fn cow_maps<D: PageDirectory>(d: D, v: nat, phys: u64) -> bool {
    maps_cow(d.page(v)) && d.page(v)->0.addr == phys
}

/// Whether slot `k` of `dirs` maps `phys` copy-on-write; slot `k` is page
/// `k % NUM_PAGES` of directory `k / NUM_PAGES`.
pub open spec fn slot_maps<D: PageDirectory>(dirs: Seq<D>, phys: u64, k: nat) -> bool {
    cow_maps(dirs[(k / NUM_PAGES as nat) as int], k % NUM_PAGES as nat, phys)
}

/// Number of the first `n` slots of `dirs` that map `phys` copy-on-write.
pub open spec fn cow_count<D: PageDirectory>(dirs: Seq<D>, phys: u64, n: nat) -> nat
    decreases n,
{
    if n == 0 {
        0
    } else {
        cow_count(dirs, phys, (n - 1) as nat) + if slot_maps(dirs, phys, (n - 1) as nat) { 1nat } else { 0nat }
    }
}

/// Number of copy-on-write mappings of `phys` in `dirs`.
pub open spec fn cow_mappings<D: PageDirectory>(dirs: Seq<D>, phys: u64) -> nat {
    cow_count(dirs, phys, dirs.len() * NUM_PAGES as nat)
}

/// Every frame counted two or more times has at least as many
/// copy-on-write mappings in `dirs` as its count.
pub open spec fn shares_backed<D: PageDirectory>(refs: PageRefCounter, dirs: Seq<D>) -> bool {
    forall|phys: u64| #[trigger] refs.count(phys) >= 2 ==> refs.count(phys) <= cow_mappings(dirs, phys)
}

proof fn lemma_count_one<D: PageDirectory>(dirs: Seq<D>, phys: u64, n: nat)
    requires
        cow_count(dirs, phys, n) >= 1,
    ensures
        exists|k: nat| k < n && slot_maps(dirs, phys, k),
    decreases n,
{
    if !slot_maps(dirs, phys, (n - 1) as nat) {
        lemma_count_one(dirs, phys, (n - 1) as nat);
    }
}

proof fn lemma_count_two<D: PageDirectory>(dirs: Seq<D>, phys: u64, n: nat)
    requires
        cow_count(dirs, phys, n) >= 2,
    ensures
        exists|k1: nat, k2: nat| k1 < k2 < n && slot_maps(dirs, phys, k1) && slot_maps(dirs, phys, k2),
    decreases n,
{
    if slot_maps(dirs, phys, (n - 1) as nat) {
        lemma_count_one(dirs, phys, (n - 1) as nat);
        let k1 = choose|k: nat| k < n - 1 && slot_maps(dirs, phys, k);
        assert(k1 < (n - 1) as nat && slot_maps(dirs, phys, k1) && slot_maps(dirs, phys, (n - 1) as nat));
    } else {
        lemma_count_two(dirs, phys, (n - 1) as nat);
        let (k1, k2) = choose|k1: nat, k2: nat| k1 < k2 < n - 1 && slot_maps(dirs, phys, k1) && slot_maps(dirs, phys, k2);
        assert(k1 < k2 < n && slot_maps(dirs, phys, k1) && slot_maps(dirs, phys, k2));
    }
}

/// A frame counted two or more times is mapped copy-on-write at two
/// distinct places of the live directories, when their copy-on-write
/// mappings back the counts.
pub proof fn lemma_shared_frame_mapped_twice<D: PageDirectory>(refs: PageRefCounter, dirs: Seq<D>, phys: u64)
    requires
        shares_backed(refs, dirs),
        refs.count(phys) >= 2,
    ensures
        exists|i1: int, v1: nat, i2: int, v2: nat| 0 <= i1 < dirs.len() && 0 <= i2 < dirs.len()
            && v1 < NUM_PAGES && v2 < NUM_PAGES && (i1, v1) != (i2, v2)
            && cow_maps(dirs[i1], v1, phys) && cow_maps(dirs[i2], v2, phys),
{
    let n = dirs.len() * NUM_PAGES as nat;
    lemma_count_two(dirs, phys, n);
    let (k1, k2) = choose|k1: nat, k2: nat| k1 < k2 < n && slot_maps(dirs, phys, k1) && slot_maps(dirs, phys, k2);
    let np = NUM_PAGES as nat;
    let i1 = (k1 / np) as int;
    let i2 = (k2 / np) as int;
    let v1 = k1 % np;
    let v2 = k2 % np;
    assert(0 <= i1 < dirs.len() && 0 <= i2 < dirs.len() && v1 < np && v2 < np && (i1, v1) != (i2, v2)) by (nonlinear_arith)
        requires
            k1 < k2, k2 < n, n == dirs.len() * np, np > 0,
            i1 == k1 / np, i2 == k2 / np, v1 == k1 % np, v2 == k2 % np;
    assert(cow_maps(dirs[i1], v1, phys) && cow_maps(dirs[i2], v2, phys));
}

/// Counting after a change at two slots: the count moves by what those two
/// slots gained and lost.
proof fn lemma_count_change<D: PageDirectory>(a: Seq<D>, b: Seq<D>, phys: u64, n: nat, ka: nat, kb: nat)
    requires
        ka != kb,
        forall|k: nat| k < n && k != ka && k != kb ==> (slot_maps(a, phys, k) <==> slot_maps(b, phys, k)),
    ensures
        cow_count(b, phys, n) + (if ka < n && slot_maps(a, phys, ka) { 1nat } else { 0nat })
            + (if kb < n && slot_maps(a, phys, kb) { 1nat } else { 0nat })
        == cow_count(a, phys, n) + (if ka < n && slot_maps(b, phys, ka) { 1nat } else { 0nat })
            + (if kb < n && slot_maps(b, phys, kb) { 1nat } else { 0nat }),
    decreases n,
{
    if n > 0 {
        lemma_count_change(a, b, phys, (n - 1) as nat, ka, kb);
    }
}

/// A successful copy-on-write in directory `j` keeps the copy-on-write
/// mappings backing the reference counts: it removes one mapping of the
/// copied frame, adds none, and drops one reference to that frame.
pub proof fn lemma_cow_keeps_shares_backed<D: PageDirectory>(
    dirs: Seq<D>,
    j: int,
    after: D,
    refs0: PageRefCounter,
    refs1: PageRefCounter,
    addr: usize,
    page: PageFrame,
    buffer: usize,
)
    requires
        shares_backed(refs0, dirs),
        0 <= j < dirs.len(),
        vpn(addr) < NUM_PAGES,
        vpn(buffer) < NUM_PAGES,
        vpn(addr) != vpn(buffer),
        dirs[j].page(vpn(addr)) == Some(page),
        page.copy_on_write,
        !maps_cow(dirs[j].page(vpn(buffer))),
        // what a successful `copy_on_write` of `page` at `addr` guarantees
        forall|v: nat| v != vpn(addr) && v != vpn(buffer) ==> #[trigger] after.page(v) == dirs[j].page(v),
        !maps_cow(after.page(vpn(addr))),
        !maps_cow(after.page(vpn(buffer))) || after.page(vpn(buffer)) == dirs[j].page(vpn(buffer)),
        refs0.count(page.addr) >= 1 ==> refs1.count(page.addr) == refs0.count(page.addr) - 1,
        forall|p: u64| #[trigger] refs1.count(p) <= refs0.count(p),
    ensures
        shares_backed(refs1, dirs.update(j, after)),
{
    let b = dirs.update(j, after);
    let np = NUM_PAGES as nat;
    let ka = (j * np + vpn(addr)) as nat;
    let kb = (j * np + vpn(buffer)) as nat;
    let n = dirs.len() * np;
    assert(ka < n && kb < n && ka != kb && ka / np == j && ka % np == vpn(addr) && kb / np == j && kb % np == vpn(buffer))
        by (nonlinear_arith)
        requires
            ka == j * np + vpn(addr), kb == j * np + vpn(buffer), 0 <= j < dirs.len(), n == dirs.len() * np,
            vpn(addr) < np, vpn(buffer) < np, vpn(addr) != vpn(buffer), np > 0;
    assert forall|phys: u64| #[trigger] refs1.count(phys) >= 2 implies refs1.count(phys) <= cow_mappings(b, phys) by {
        assert forall|k: nat| k < n && k != ka && k != kb implies (slot_maps(dirs, phys, k) <==> slot_maps(b, phys, k)) by {
            let i = (k / np) as int;
            let v = k % np;
            if i == j {
                assert(v != vpn(addr) && v != vpn(buffer)) by (nonlinear_arith)
                    requires k != ka, k != kb, ka == j * np + vpn(addr), kb == j * np + vpn(buffer), i == k / np, v == k % np, i == j, np > 0;
                assert(after.page(v) == dirs[j].page(v));
            }
        }
        lemma_count_change(dirs, b, phys, n, ka, kb);
        assert(b[j] == after);
        assert(!slot_maps(b, phys, ka));
        assert(!slot_maps(dirs, phys, kb));
        assert(!slot_maps(b, phys, kb));
        assert(refs0.count(phys) >= 2);
    }
}

/// A failed copy-on-write in directory `j` keeps the copy-on-write
/// mappings backing the reference counts: the counts stay, and the page
/// still maps its frame copy-on-write.
pub proof fn lemma_cow_failure_keeps_shares_backed<D: PageDirectory>(
    dirs: Seq<D>,
    j: int,
    after: D,
    refs0: PageRefCounter,
    refs1: PageRefCounter,
    addr: usize,
    page: PageFrame,
    buffer: usize,
)
    requires
        shares_backed(refs0, dirs),
        0 <= j < dirs.len(),
        vpn(addr) < NUM_PAGES,
        vpn(buffer) < NUM_PAGES,
        vpn(addr) != vpn(buffer),
        dirs[j].page(vpn(addr)) == Some(page),
        page.copy_on_write,
        // what a failed `copy_on_write` of `page` at `addr` guarantees
        forall|v: nat| v != vpn(addr) && v != vpn(buffer) ==> #[trigger] after.page(v) == dirs[j].page(v),
        after.page(vpn(buffer)) == dirs[j].page(vpn(buffer)),
        maps_cow(after.page(vpn(addr))) && after.page(vpn(addr))->0.addr == page.addr,
        refs1@ == refs0@,
    ensures
        shares_backed(refs1, dirs.update(j, after)),
{
    let b = dirs.update(j, after);
    let np = NUM_PAGES as nat;
    let ka = (j * np + vpn(addr)) as nat;
    let kb = (j * np + vpn(buffer)) as nat;
    let n = dirs.len() * np;
    assert(ka < n && kb < n && ka != kb && ka / np == j && ka % np == vpn(addr) && kb / np == j && kb % np == vpn(buffer))
        by (nonlinear_arith)
        requires
            ka == j * np + vpn(addr), kb == j * np + vpn(buffer), 0 <= j < dirs.len(), n == dirs.len() * np,
            vpn(addr) < np, vpn(buffer) < np, vpn(addr) != vpn(buffer), np > 0;
    assert forall|phys: u64| #[trigger] refs1.count(phys) >= 2 implies refs1.count(phys) <= cow_mappings(b, phys) by {
        assert forall|k: nat| k < n && k != ka && k != kb implies (slot_maps(dirs, phys, k) <==> slot_maps(b, phys, k)) by {
            let i = (k / np) as int;
            let v = k % np;
            if i == j {
                assert(v != vpn(addr) && v != vpn(buffer)) by (nonlinear_arith)
                    requires k != ka, k != kb, ka == j * np + vpn(addr), kb == j * np + vpn(buffer), i == k / np, v == k % np, i == j, np > 0;
                assert(after.page(v) == dirs[j].page(v));
            }
        }
        lemma_count_change(dirs, b, phys, n, ka, kb);
        assert(b[j] == after);
        assert(slot_maps(b, phys, ka) == slot_maps(dirs, phys, ka));
        assert(slot_maps(b, phys, kb) == slot_maps(dirs, phys, kb));
        assert(refs1.count(phys) == refs0.count(phys));
    }
}

} // verus!
