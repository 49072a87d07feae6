//! Page-table and page-directory entries of x86 non-PAE paging, and their
//! flag sets.
use vstd::prelude::*;
use crate::frame::PageFrame;

verus! {

/// Mask of the physical-address part of an entry.
pub const ADDR_MASK: u32 = 0xffff_f000;

/// Mask of the flag part of an entry.
pub const FLAGS_MASK: u16 = 0x0fff;

/// The page is present and can be accessed.
pub const PT_PRESENT: u16 = 1;
/// The page can be written to.
pub const PT_READ_WRITE: u16 = 2;
/// The page is accessible in user mode.
pub const PT_USER_SUPERVISOR: u16 = 4;
/// Write-through caching.
pub const PT_WRITE_THRU: u16 = 8;
/// Caching disabled.
pub const PT_CACHE_DISABLE: u16 = 16;
/// Set by the MMU when the page is accessed.
pub const PT_ACCESSED: u16 = 32;
/// Set by the MMU when the page is written.
pub const PT_DIRTY: u16 = 64;
/// Page attribute table.
pub const PT_ATTRIBUTE_TABLE: u16 = 128;
/// Not flushed from the TLB when the directory base register is reloaded.
pub const PT_GLOBAL: u16 = 256;
/// Software bit: the page is copied when written.
pub const PT_COPY_ON_WRITE: u16 = 512;
/// Software bit: the frame is governed by the reference counter.
pub const PT_REFERENCED: u16 = 1024;
/// Software bit: the frame was shared from another process.
pub const PT_SHARED: u16 = 2048;

/// Directory entry flag: the table is present.
pub const PD_PRESENT: u16 = 1;
/// Directory entry flag: pages of the table may be writable.
pub const PD_READ_WRITE: u16 = 2;
/// Directory entry flag: pages of the table may be user-accessible.
pub const PD_USER_SUPERVISOR: u16 = 4;
/// Directory entry flag: write-through caching.
pub const PD_WRITE_THRU: u16 = 8;
/// Directory entry flag: caching disabled.
pub const PD_CACHE_DISABLE: u16 = 16;
/// Directory entry flag: accessed.
pub const PD_ACCESSED: u16 = 32;
/// Directory entry flag: dirty (large pages only).
pub const PD_DIRTY: u16 = 64;
/// Directory entry flag: large pages.
pub const PD_PAGE_SIZE: u16 = 128;
/// Directory entry flag: global.
pub const PD_GLOBAL: u16 = 256;

/// Flags of a page-table entry, one bit each (see the `PT_` constants).
#[derive(PartialEq, Eq, Structural, Clone, Copy, Debug)]
pub struct PageTableFlags {
    pub bits: u16,
}

/// Flags of a page-directory entry, one bit each (see the `PD_` constants).
#[derive(PartialEq, Eq, Structural, Clone, Copy, Debug)]
pub struct PageDirFlags {
    pub bits: u16,
}

impl PageTableFlags {
    /// The flag set holding exactly `bits`.
    pub fn from_bits(bits: u16) -> (r: PageTableFlags)
        ensures
            r.bits == bits,
    {
        PageTableFlags { bits }
    }

    /// Whether every bit of `flag` is set.
    pub fn contains(&self, flag: u16) -> (r: bool)
        ensures
            r == (self.bits & flag == flag),
    {
        self.bits & flag == flag
    }
}

impl PageDirFlags {
    /// The flag set holding exactly `bits`.
    pub fn from_bits(bits: u16) -> (r: PageDirFlags)
        ensures
            r.bits == bits,
    {
        PageDirFlags { bits }
    }

    /// Whether every bit of `flag` is set.
    pub fn contains(&self, flag: u16) -> (r: bool)
        ensures
            r == (self.bits & flag == flag),
    {
        self.bits & flag == flag
    }
}

/// The value of an entry made of an address and a flag set.
pub open spec fn compose(addr: u32, flags: u16) -> u32 {
    (addr & ADDR_MASK) | ((flags & FLAGS_MASK) as u32)
}

/// An entry of a page table: a 20-bit frame address and 12 flag bits.
#[derive(PartialEq, Eq, Structural, Clone, Copy, Debug)]
pub struct PageTableEntry(pub u32);

impl PageTableEntry {
    /// An entry for the frame at `addr` with `flags`.
    pub fn new(addr: u32, flags: PageTableFlags) -> (r: PageTableEntry)
        ensures
            r.0 == compose(addr, flags.bits),
    {
        PageTableEntry((addr & ADDR_MASK) | ((flags.bits & FLAGS_MASK) as u32))
    }

    /// An unused entry.
    pub fn new_unused() -> (r: PageTableEntry)
        ensures
            r.0 == 0,
    {
        PageTableEntry(0)
    }

    /// Replaces the address and keeps the flags.
    pub fn set_address(&mut self, addr: u32)
        ensures
            final(self).0 == (old(self).0 & 0xfff) | (addr & ADDR_MASK),
    {
        self.0 = (self.0 & 0x0000_0fff) | (addr & ADDR_MASK);
    }

    /// Replaces the flags and keeps the address.
    pub fn set_flags(&mut self, flags: PageTableFlags)
        ensures
            final(self).0 == compose(old(self).0, flags.bits),
    {
        self.0 = (self.0 & ADDR_MASK) | ((flags.bits & FLAGS_MASK) as u32);
    }

    /// Whether the entry is unused (all zero).
    pub fn is_unused(&self) -> (r: bool)
        ensures
            r == (self.0 == 0),
    {
        self.0 == 0
    }

    /// Clears the entry.
    pub fn set_unused(&mut self)
        ensures
            final(self).0 == 0,
    {
        self.0 = 0;
    }

    /// The frame address held by the entry.
    pub fn get_address(&self) -> (r: u32)
        ensures
            r == self.0 & ADDR_MASK,
    {
        self.0 & ADDR_MASK
    }

    /// The flag bits held by the entry.
    pub fn get_flags(&self) -> (r: u16)
        ensures
            r == (self.0 & 0xfff) as u16,
    {
        (self.0 & 0x0000_0fff) as u16
    }

    /// The hardware-agnostic frame this entry describes.
    pub fn to_frame(&self) -> (r: PageFrame)
        ensures
            r == frame_of_entry(self.0),
    {
        let flags = self.get_flags();
        proof {
            lemma_flags_of_entry(self.0);
        }
        PageFrame {
            addr: self.get_address() as u64,
            present: flags & PT_PRESENT > 0,
            user_mode: flags & PT_USER_SUPERVISOR > 0,
            writable: flags & PT_READ_WRITE > 0,
            copy_on_write: flags & PT_COPY_ON_WRITE > 0,
            executable: true,
            referenced: flags & PT_REFERENCED > 0,
            shared: flags & PT_SHARED > 0,
        }
    }

    /// The entry describing `frame`, or `Err` when its address does not fit
    /// in 32 bits.
    pub fn try_from_frame(frame: PageFrame) -> (r: Result<PageTableEntry, ()>)
        ensures
            frame.addr <= u32::MAX ==> r == Ok::<PageTableEntry, ()>(
                PageTableEntry(entry_of_frame(frame, false)),
            ),
            frame.addr > u32::MAX ==> r is Err,
    {
        if frame.addr > 0xffff_ffff {
            return Err(());
        }
        let flags = PageTableFlags::from_bits(frame_flag_bits(frame, false));
        Ok(PageTableEntry::new(frame.addr as u32, flags))
    }
}

/// 1 for a set flag, 0 otherwise.
pub open spec fn bit(b: bool) -> u16 {
    if b { 1 } else { 0 }
}

/// The flag bits that encode the attributes of `f`, with the global bit
/// when `global` holds.
pub open spec fn spec_flag_bits(f: PageFrame, global: bool) -> u16 {
    bit(f.present) | (bit(f.writable) << 1u16) | (bit(f.user_mode) << 2u16) | (bit(global) << 8u16)
        | (bit(f.copy_on_write) << 9u16) | (bit(f.referenced) << 10u16) | (bit(f.shared) << 11u16)
}

/// The value of the entry that maps `f` (whose address fits in 32 bits).
pub open spec fn entry_of_frame(f: PageFrame, global: bool) -> u32 {
    compose(f.addr as u32, spec_flag_bits(f, global))
}

/// The frame that an entry value describes.
pub open spec fn frame_of_entry(e: u32) -> PageFrame {
    PageFrame {
        addr: (e & ADDR_MASK) as u64,
        present: e & 1 != 0,
        user_mode: e & 4 != 0,
        writable: e & 2 != 0,
        copy_on_write: e & 0x200 != 0,
        executable: true,
        referenced: e & 0x400 != 0,
        shared: e & 0x800 != 0,
    }
}

/// The flag bits that encode the attributes of `f`.
pub fn frame_flag_bits(f: PageFrame, global: bool) -> (r: u16)
    ensures
        r == spec_flag_bits(f, global),
{
    let p: u16 = if f.present { 1 } else { 0 };
    let w: u16 = if f.writable { 1 } else { 0 };
    let u: u16 = if f.user_mode { 1 } else { 0 };
    let g: u16 = if global { 1 } else { 0 };
    let c: u16 = if f.copy_on_write { 1 } else { 0 };
    let rf: u16 = if f.referenced { 1 } else { 0 };
    let s: u16 = if f.shared { 1 } else { 0 };
    p | (w << 1u16) | (u << 2u16) | (g << 8u16) | (c << 9u16) | (rf << 10u16) | (s << 11u16)
}

proof fn lemma_flags_of_entry(e: u32)
    ensures
        ((e & 0xfff) as u16 & PT_PRESENT > 0) == (e & 1 != 0),
        ((e & 0xfff) as u16 & PT_READ_WRITE > 0) == (e & 2 != 0),
        ((e & 0xfff) as u16 & PT_USER_SUPERVISOR > 0) == (e & 4 != 0),
        ((e & 0xfff) as u16 & PT_COPY_ON_WRITE > 0) == (e & 0x200 != 0),
        ((e & 0xfff) as u16 & PT_REFERENCED > 0) == (e & 0x400 != 0),
        ((e & 0xfff) as u16 & PT_SHARED > 0) == (e & 0x800 != 0),
{
    assert(((e & 0xfff) as u16 & 1u16 > 0) == (e & 1 != 0)) by (bit_vector);
    assert(((e & 0xfff) as u16 & 2u16 > 0) == (e & 2 != 0)) by (bit_vector);
    assert(((e & 0xfff) as u16 & 4u16 > 0) == (e & 4 != 0)) by (bit_vector);
    assert(((e & 0xfff) as u16 & 512u16 > 0) == (e & 0x200 != 0)) by (bit_vector);
    assert(((e & 0xfff) as u16 & 1024u16 > 0) == (e & 0x400 != 0)) by (bit_vector);
    assert(((e & 0xfff) as u16 & 2048u16 > 0) == (e & 0x800 != 0)) by (bit_vector);
}

proof fn lemma_compose_bits(a: u32, p: u16, w: u16, u: u16, g: u16, c: u16, r: u16, s: u16)
    requires
        p <= 1, w <= 1, u <= 1, g <= 1, c <= 1, r <= 1, s <= 1,
    ensures
        ({
            let e = compose(a, p | (w << 1u16) | (u << 2u16) | (g << 8u16) | (c << 9u16) | (r << 10u16) | (s << 11u16));
            &&& e & ADDR_MASK == a & ADDR_MASK
            &&& (e & 1 != 0) == (p == 1)
            &&& (e & 2 != 0) == (w == 1)
            &&& (e & 4 != 0) == (u == 1)
            &&& (e & 0x100 != 0) == (g == 1)
            &&& (e & 0x200 != 0) == (c == 1)
            &&& (e & 0x400 != 0) == (r == 1)
            &&& (e & 0x800 != 0) == (s == 1)
            &&& (e == 0) == (a & ADDR_MASK == 0 && p == 0 && w == 0 && u == 0 && g == 0 && c == 0 && r == 0 && s == 0)
        }),
{
    let f = p | (w << 1u16) | (u << 2u16) | (g << 8u16) | (c << 9u16) | (r << 10u16) | (s << 11u16);
    let e = (a & 0xffff_f000u32) | ((f & 0x0fffu16) as u32);
    assert(e & 0xffff_f000u32 == a & 0xffff_f000u32) by (bit_vector)
        requires e == (a & 0xffff_f000u32) | ((f & 0x0fffu16) as u32);
    assert((e & 1 != 0) == (p == 1)
        && (e & 2 != 0) == (w == 1)
        && (e & 4 != 0) == (u == 1)
        && (e & 0x100 != 0) == (g == 1)
        && (e & 0x200 != 0) == (c == 1)
        && (e & 0x400 != 0) == (r == 1)
        && (e & 0x800 != 0) == (s == 1)
        && (e == 0) == ((a & 0xffff_f000u32) == 0 && p == 0 && w == 0 && u == 0 && g == 0 && c == 0 && r == 0 && s == 0)) by (bit_vector)
        requires
            p <= 1, w <= 1, u <= 1, g <= 1, c <= 1, r <= 1, s <= 1,
            f == p | (w << 1u16) | (u << 2u16) | (g << 8u16) | (c << 9u16) | (r << 10u16) | (s << 11u16),
            e == (a & 0xffff_f000u32) | ((f & 0x0fffu16) as u32);
}

/// Reading back the entry that encodes a frame gives the frame's flags, its
/// address rounded down to a page, and an executable mapping; the entry is
/// all zero only for an all-clear frame at a frame address of zero.
pub proof fn lemma_entry_round_trip(f: PageFrame, global: bool)
    requires
        f.addr <= u32::MAX,
    ensures
        frame_of_entry(entry_of_frame(f, global)) == (PageFrame {
            addr: ((f.addr as u32) & ADDR_MASK) as u64,
            executable: true,
            ..f
        }),
        entry_of_frame(f, global) & 0x100 != 0 <==> global,
        (entry_of_frame(f, global) == 0) == ((f.addr as u32) & ADDR_MASK == 0 && !f.present
            && !f.writable && !f.user_mode && !global && !f.copy_on_write && !f.referenced
            && !f.shared),
{
    lemma_compose_bits(f.addr as u32, bit(f.present), bit(f.writable), bit(f.user_mode),
        bit(global), bit(f.copy_on_write), bit(f.referenced), bit(f.shared));
}

/// An entry of a page directory: a 20-bit page-table address and 12 flag bits.
#[derive(PartialEq, Eq, Structural, Clone, Copy, Debug)]
pub struct PageDirEntry(pub u32);

impl PageDirEntry {
    /// An entry for the page table at `addr` with `flags`.
    pub fn new(addr: u32, flags: PageDirFlags) -> (r: PageDirEntry)
        ensures
            r.0 == compose(addr, flags.bits),
    {
        PageDirEntry((addr & ADDR_MASK) | ((flags.bits & FLAGS_MASK) as u32))
    }

    /// An unused entry.
    pub fn new_unused() -> (r: PageDirEntry)
        ensures
            r.0 == 0,
    {
        PageDirEntry(0)
    }

    /// Replaces the address and keeps the flags.
    pub fn set_address(&mut self, addr: u32)
        ensures
            final(self).0 == (old(self).0 & 0xfff) | (addr & ADDR_MASK),
    {
        self.0 = (self.0 & 0x0000_0fff) | (addr & ADDR_MASK);
    }

    /// Replaces the flags and keeps the address.
    pub fn set_flags(&mut self, flags: PageDirFlags)
        ensures
            final(self).0 == compose(old(self).0, flags.bits),
    {
        self.0 = (self.0 & ADDR_MASK) | ((flags.bits & FLAGS_MASK) as u32);
    }

    /// Whether the entry is unused (all zero).
    pub fn is_unused(&self) -> (r: bool)
        ensures
            r == (self.0 == 0),
    {
        self.0 == 0
    }

    /// Clears the entry.
    pub fn set_unused(&mut self)
        ensures
            final(self).0 == 0,
    {
        self.0 = 0;
    }

    /// The page-table address held by the entry.
    pub fn get_address(&self) -> (r: u32)
        ensures
            r == self.0 & ADDR_MASK,
    {
        self.0 & ADDR_MASK
    }

    /// The flag bits held by the entry.
    pub fn get_flags(&self) -> (r: u16)
        ensures
            r == (self.0 & 0xfff) as u16,
    {
        (self.0 & 0x0000_0fff) as u16
    }
}

} // verus!
