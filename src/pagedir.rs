//! The x86 non-PAE two-level page directory.
use vstd::prelude::*;
use crate::directory::{PageDirectory, in_kernel_half, stored_page};
use crate::entry::{
    PageDirEntry, PageDirFlags, PageTableEntry, PageTableFlags, frame_of_entry, entry_of_frame,
    ADDR_MASK, PD_PRESENT, PD_READ_WRITE, PD_USER_SUPERVISOR, PD_GLOBAL, PT_GLOBAL,
};
use crate::frame::{PageFrame, PagingError, vpn, ENTRIES, NUM_PAGES, PAGE_SIZE, KERNEL_PAGE_DIR_SPLIT};

verus! {

/// A page table: 1024 entries, one per page of a 4 MiB region.
pub struct PageTable {
    pub entries: Vec<PageTableEntry>,
}

impl PageTable {
    /// A table of unused entries.
    pub fn new() -> (r: PageTable)
        ensures
            r.entries@.len() == ENTRIES,
            forall|i: int| 0 <= i < ENTRIES ==> #[trigger] r.entries@[i].0 == 0,
    {
        let mut entries: Vec<PageTableEntry> = Vec::new();
        let mut i: usize = 0;
        while i < ENTRIES
            invariant
                i <= ENTRIES,
                entries@.len() == i,
                forall|k: int| 0 <= k < i ==> #[trigger] entries@[k].0 == 0,
            decreases ENTRIES - i,
        {
            entries.push(PageTableEntry::new_unused());
            i = i + 1;
        }
        PageTable { entries }
    }
}

/// A page table held by a directory, with whether the directory allocated
/// it (and so releases it).
pub struct TableRef {
    pub table: PageTable,
    pub can_free: bool,
}

/// A two-level directory: a slot per 4 MiB region, each empty or holding a
/// page table, and beside it the array of hardware directory entries.
pub struct PageDir {
    /// The page tables, one slot per directory entry.
    pub tables: Vec<Option<TableRef>>,
    /// The hardware directory entries.
    pub tables_physical: Vec<PageDirEntry>,
    /// Physical address of the hardware directory entries.
    pub tables_physical_addr: u32,
    /// Whether the top-level arrays were allocated for this directory.
    pub can_free: bool,
    /// Physical addresses of page-sized frames reserved for page tables
    /// that the directory allocates on demand.
    pub table_frames: Vec<u32>,
}

/// Index of the first directory slot of the kernel half.
pub const KERNEL_TABLES: usize = 896;

/// Whether every entry in use of `table` carries the global bit, as the
/// tables of the kernel half must.
pub open spec fn kernel_table(table: PageTable) -> bool {
    forall|i: int| 0 <= i < table.entries@.len() && #[trigger] table.entries@[i].0 != 0 ==> table.entries@[i].0 & 0x100 != 0
}

/// The frame an entry value describes, if the entry is in use.
pub open spec fn entry_page(e: u32) -> Option<PageFrame> {
    if e == 0 {
        None
    } else {
        Some(frame_of_entry(e))
    }
}

impl PageDir {
    /// A directory with no page table and the given hardware entry array
    /// address, allocating page tables from `table_frames`.
    pub fn new(tables_physical_addr: u32, table_frames: Vec<u32>) -> (r: PageDir)
        ensures
            r.inv(),
            forall|v: nat| #[trigger] r.page(v) == None::<PageFrame>,
            r.tables_physical_addr == tables_physical_addr,
            r.can_free,
            r.table_frames@ == table_frames@,
    {
        let r0 = PageDir::from_allocated(tables_physical_addr);
        let r = PageDir { can_free: true, table_frames, ..r0 };
        proof {
            lemma_inv_same_tables(r0, r);
        }
        r
    }

    /// A directory with no page table over an existing hardware entry
    /// array, which it does not own.
    pub fn from_allocated(tables_physical_addr: u32) -> (r: PageDir)
        ensures
            r.inv(),
            forall|v: nat| #[trigger] r.page(v) == None::<PageFrame>,
            r.tables_physical_addr == tables_physical_addr,
            !r.can_free,
            r.table_frames@.len() == 0,
    {
        let mut tables: Vec<Option<TableRef>> = Vec::new();
        let mut tables_physical: Vec<PageDirEntry> = Vec::new();
        let mut i: usize = 0;
        while i < ENTRIES
            invariant
                i <= ENTRIES,
                tables@.len() == i,
                tables_physical@.len() == i,
                forall|k: int| 0 <= k < i ==> #[trigger] tables@[k] is None,
                forall|k: int| 0 <= k < i ==> #[trigger] tables_physical@[k].0 == 0,
            decreases ENTRIES - i,
        {
            tables.push(None);
            tables_physical.push(PageDirEntry::new_unused());
            i = i + 1;
        }
        let r = PageDir { tables, tables_physical, tables_physical_addr, can_free: false, table_frames: Vec::new() };
        proof {
            assert(0u32 & 1 == 0) by (bit_vector);
            assert forall|t: int| 0 <= t < ENTRIES implies r.slot_ok(t) by {
                assert(r.tables@[t] is None && r.tables_physical@[t].0 == 0);
            }
            assert forall|v: nat| #[trigger] r.page(v) == None::<PageFrame> by {
                if v < NUM_PAGES {
                    assert(r.tables@[(v / 1024) as int] is None);
                }
            }
        }
        r
    }

    /// Reserves the frame at `phys` for a page table allocated on demand.
    pub fn add_table_frame(&mut self, phys: u32)
        requires
            old(self).inv(),
        ensures
            final(self).inv(),
            forall|v: nat| #[trigger] final(self).page(v) == old(self).page(v),
            final(self).table_frames@ == old(self).table_frames@.push(phys),
            final(self).tables@ == old(self).tables@,
    {
        self.table_frames.push(phys);
        proof {
            lemma_inv_same_tables(*old(self), *self);
        }
    }

    /// Whether directory slot `t` holds a consistent page table.
    pub open spec fn slot_ok(&self, t: int) -> bool {
        &&& (self.tables@[t] is Some <==> self.tables_physical@[t].0 & 1 != 0)
        &&& (self.tables@[t] matches Some(tr) ==> tr.table.entries@.len() == ENTRIES)
        &&& (self.tables@[t] matches Some(tr) ==> t >= KERNEL_TABLES ==> kernel_table(tr.table))
    }

    /// In the kernel half, every entry in use carries the global bit.
    pub proof fn lemma_kernel_entries_global(&self, v: nat)
        requires
            self.inv(),
            v < NUM_PAGES,
            in_kernel_half(v),
            self.entry_at(v) != 0,
        ensures
            self.entry_at(v) & 0x100 != 0,
    {
        assert(v / 1024 >= KERNEL_TABLES) by (nonlinear_arith)
            requires v * 4096 >= 0xe000_0000;
        assert(self.slot_ok((v / 1024) as int));
    }

    /// The entry value at virtual page `v`, zero when it has no table.
    pub open spec fn entry_at(&self, v: nat) -> u32 {
        match self.tables@[(v / 1024) as int] {
            Some(tr) => tr.table.entries@[(v % 1024) as int].0,
            None => 0,
        }
    }

    /// Adds the page table `table`, at physical `physical_addr`, for the
    /// 4 MiB region that holds `addr`, replacing any table there.
    pub fn add_page_table(&mut self, addr: u32, table: PageTable, physical_addr: u32, can_free: bool)
        requires
            old(self).inv(),
            table.entries@.len() == ENTRIES,
            (addr >> 22) >= KERNEL_TABLES ==> kernel_table(table),
        ensures
            final(self).inv(),
            final(self).tables@ == old(self).tables@.update((addr >> 22) as int, Some(TableRef { table, can_free })),
            final(self).tables_physical@ == old(self).tables_physical@.update((addr >> 22) as int, PageDirEntry(
                crate::entry::compose(physical_addr, if (addr >> 22) >= KERNEL_TABLES {
                    PD_PRESENT | PD_READ_WRITE | PD_USER_SUPERVISOR | PD_GLOBAL
                } else {
                    PD_PRESENT | PD_READ_WRITE | PD_USER_SUPERVISOR
                }),
            )),
            final(self).tables_physical@[(addr >> 22) as int].0 & ADDR_MASK == physical_addr & ADDR_MASK,
            final(self).table_frames@ == old(self).table_frames@,
    {
        let idx = (addr >> 22u32) as usize;
        assert(addr >> 22u32 < 1024) by (bit_vector);
        let fb: u16 = if idx >= KERNEL_TABLES {
            PD_PRESENT | PD_READ_WRITE | PD_USER_SUPERVISOR | PD_GLOBAL
        } else {
            PD_PRESENT | PD_READ_WRITE | PD_USER_SUPERVISOR
        };
        assert((1u16 | 2u16 | 4u16 | 256u16) & 1 == 1 && (1u16 | 2u16 | 4u16) & 1 == 1) by (bit_vector);
        let e = PageDirEntry::new(physical_addr, PageDirFlags::from_bits(fb));
        assert(((physical_addr & 0xffff_f000u32) | ((fb & 0x0fffu16) as u32)) & 1 != 0) by (bit_vector)
            requires fb & 1 == 1;
        assert(((physical_addr & 0xffff_f000u32) | ((fb & 0x0fffu16) as u32)) & 0xffff_f000u32
            == physical_addr & 0xffff_f000u32) by (bit_vector);
        self.tables_physical.set(idx, e);
        self.tables.set(idx, Some(TableRef { table, can_free }));
        proof {
            assert forall|t: int| 0 <= t < ENTRIES implies self.slot_ok(t) by {
                if t != idx {
                    assert(old(self).slot_ok(t));
                }
            }
        }
    }

    /// Empties the slot of the 4 MiB region that holds `addr`; a table
    /// the directory allocated is released.
    pub fn remove_page_table(&mut self, addr: u32)
        requires
            old(self).inv(),
        ensures
            final(self).inv(),
            final(self).tables@ == old(self).tables@.update((addr >> 22) as int, None),
            final(self).table_frames@ == old(self).table_frames@,
    {
        let idx = (addr >> 22u32) as usize;
        assert(addr >> 22u32 < 1024) by (bit_vector);
        self.tables.set(idx, None);
        self.tables_physical.set(idx, PageDirEntry::new_unused());
        proof {
            assert(0u32 & 1 == 0) by (bit_vector);
            assert forall|t: int| 0 <= t < ENTRIES implies self.slot_ok(t) by {
                if t != idx {
                    assert(old(self).slot_ok(t));
                }
            }
        }
    }

    /// Empties every slot, as when the directory is torn down; the tables
    /// the directory allocated are released.
    pub fn remove_all_page_tables(&mut self)
        requires
            old(self).inv(),
        ensures
            final(self).inv(),
            forall|t: int| 0 <= t < ENTRIES ==> #[trigger] final(self).tables@[t] is None,
            forall|v: nat| #[trigger] final(self).page(v) == None::<PageFrame>,
    {
        let mut i: u32 = 0;
        while i < 1024
            invariant
                self.inv(),
                i <= 1024,
                forall|t: int| 0 <= t < i ==> #[trigger] self.tables@[t] is None,
            decreases 1024 - i,
        {
            let addr: u32 = i << 22u32;
            assert((i << 22u32) >> 22u32 == i) by (bit_vector)
                requires i < 1024;
            self.remove_page_table(addr);
            i = i + 1;
        }
        proof {
            assert forall|v: nat| #[trigger] self.page(v) == None::<PageFrame> by {
                if v < NUM_PAGES {
                    assert(self.tables@[(v / 1024) as int] is None);
                }
            }
        }
    }

    /// Whether the region that holds `addr` has a page table.
    pub fn has_page_table(&self, addr: u32) -> (r: bool)
        requires
            self.inv(),
        ensures
            r == self.tables@[(addr >> 22) as int] is Some,
    {
        let idx = (addr >> 22u32) as usize;
        assert(addr >> 22u32 < 1024) by (bit_vector);
        self.tables[idx].is_some()
    }

    /// The entry value at the page that holds `addr`.
    fn entry_value(&self, addr: usize) -> (r: u32)
        requires
            self.inv(),
            vpn(addr) < NUM_PAGES,
        ensures
            r == self.entry_at(vpn(addr)),
    {
        let v = addr / PAGE_SIZE;
        let t = v / ENTRIES;
        assert(self.slot_ok(t as int));
        match &self.tables[t] {
            Some(tr) => tr.table.entries[v % ENTRIES].0,
            None => 0,
        }
    }
}

impl PageDirectory for PageDir {
    open spec fn inv(&self) -> bool {
        &&& self.tables@.len() == ENTRIES
        &&& self.tables_physical@.len() == ENTRIES
        &&& forall|t: int| 0 <= t < ENTRIES ==> #[trigger] self.slot_ok(t)
    }

    open spec fn page(&self, v: nat) -> Option<PageFrame> {
        if v < NUM_PAGES {
            entry_page(self.entry_at(v))
        } else {
            None
        }
    }

    open spec fn can_map(&self, v: nat) -> bool {
        self.tables@[(v / 1024) as int] is Some || self.table_frames@.len() > 0
    }

    proof fn lemma_mapped_can_map(&self, v: nat) {
        let e = self.entry_at(v);
        assert((e & 0xffff_f000u32) % 4096 == 0) by (bit_vector);
    }

    fn get_page(&self, addr: usize) -> (r: Option<PageFrame>) {
        let e = PageTableEntry(self.entry_value(addr));
        if e.is_unused() {
            None
        } else {
            Some(e.to_frame())
        }
    }

    fn is_unused(&self, addr: usize) -> (r: bool) {
        self.entry_value(addr) == 0
    }

    fn virt_to_phys(&self, virt: usize) -> (r: Option<u64>) {
        let e = PageTableEntry(self.entry_value(virt));
        if e.is_unused() {
            None
        } else {
            let a = e.get_address();
            assert(a & 0xffff_f000u32 <= 0xffff_f000u32) by (bit_vector);
            Some(a as u64 + (virt % PAGE_SIZE) as u64)
        }
    }

    fn set_page(&mut self, addr: usize, page: Option<PageFrame>) -> (r: Result<(), PagingError>) {
        let v = addr / PAGE_SIZE;
        let t = v / ENTRIES;
        let i = v % ENTRIES;
        let global = v * PAGE_SIZE >= KERNEL_PAGE_DIR_SPLIT;
        let entry = match page {
            None => PageTableEntry::new_unused(),
            Some(f) => {
                if f.addr > 0xffff_ffff {
                    return Err(PagingError::BadFrame);
                }
                proof {
                    crate::entry::lemma_entry_round_trip(f, global);
                }
                let mut e = match PageTableEntry::try_from_frame(f) {
                    Ok(e) => e,
                    Err(_) => { return Err(PagingError::BadFrame); },
                };
                if global {
                    let bits = e.get_flags() | PT_GLOBAL;
                    e.set_flags(PageTableFlags::from_bits(bits));
                    proof {
                        lemma_add_global(f);
                    }
                }
                e
            },
        };
        assert(entry.0 == match page { None => 0u32, Some(f) => entry_of_frame(f, global) });
        if self.tables[t].is_none() {
            if page.is_none() {
                // nothing is mapped in the region, so nothing to clear
                return Ok(());
            }
            let popped = self.table_frames.pop();
            proof {
                lemma_inv_same_tables(*old(self), *self);
            }
            match popped {
                None => { return Err(PagingError::AllocError); },
                Some(phys) => {
                    let table = PageTable::new();
                    let t32 = t as u32;
                    let region: u32 = t32 << 22u32;
                    assert((t32 << 22u32) >> 22u32 == t32) by (bit_vector)
                        requires t32 < 1024;
                    self.add_page_table(region, table, phys, true);
                },
            }
        }
        let ghost before = *self;
        assert(before.slot_ok(t as int));
        let mut slot: Option<TableRef> = None;
        std::mem::swap(&mut slot, &mut self.tables[t]);
        match slot {
            Some(mut tr) => {
                tr.table.entries.set(i, entry);
                self.tables.set(t, Some(tr));
            },
            None => {},
        }
        proof {
            assert forall|k: int| 0 <= k < ENTRIES implies self.slot_ok(k) by {
                assert(before.slot_ok(k));
            }
            assert forall|w: nat| w != vpn(addr) implies self.page(w) == old(self).page(w) by {
                if w < NUM_PAGES && w / 1024 == t {
                    assert(w % 1024 != i);
                }
            }
        }
        Ok(())
    }
}

/// The invariant depends on the page tables and the hardware entries alone.
proof fn lemma_inv_same_tables(a: PageDir, b: PageDir)
    requires
        a.inv(),
        a.tables@ == b.tables@,
        a.tables_physical@ == b.tables_physical@,
    ensures
        b.inv(),
        forall|v: nat| #[trigger] b.page(v) == a.page(v),
{
    assert forall|t: int| 0 <= t < ENTRIES implies b.slot_ok(t) by {
        assert(a.slot_ok(t));
    }
}

/// Adding the global bit to an encoded frame gives the encoding with the
/// global bit.
proof fn lemma_add_global(f: PageFrame)
    ensures
        crate::entry::compose(
            entry_of_frame(f, false),
            (((entry_of_frame(f, false) & 0xfff) as u16) | PT_GLOBAL),
        ) == entry_of_frame(f, true),
{
    let a = f.addr as u32;
    let p = crate::entry::bit(f.present);
    let w = crate::entry::bit(f.writable);
    let u = crate::entry::bit(f.user_mode);
    let c = crate::entry::bit(f.copy_on_write);
    let rf = crate::entry::bit(f.referenced);
    let s = crate::entry::bit(f.shared);
    assert(((a & 0xffff_f000u32) | (((p | (w << 1u16) | (u << 2u16) | (0u16 << 8u16) | (c << 9u16) | (rf << 10u16) | (s << 11u16)) & 0x0fffu16) as u32))
        & 0xffff_f000u32 | ((((((a & 0xffff_f000u32) | (((p | (w << 1u16) | (u << 2u16) | (0u16 << 8u16) | (c << 9u16) | (rf << 10u16) | (s << 11u16)) & 0x0fffu16) as u32)) & 0xfffu32) as u16 | 256u16) & 0x0fffu16) as u32)
        == (a & 0xffff_f000u32) | (((p | (w << 1u16) | (u << 2u16) | (1u16 << 8u16) | (c << 9u16) | (rf << 10u16) | (s << 11u16)) & 0x0fffu16) as u32)) by (bit_vector)
        requires p <= 1, w <= 1, u <= 1, c <= 1, rf <= 1, s <= 1;
}

} // verus!
