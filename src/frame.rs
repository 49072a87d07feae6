//! Hardware-agnostic page frames, the page geometry, and the error type.
use vstd::prelude::*;

verus! {

/// Size of a page and of a physical frame, in bytes.
pub const PAGE_SIZE: usize = 4096;

/// First virtual address of the kernel half, mapped identically everywhere.
pub const KERNEL_PAGE_DIR_SPLIT: usize = 0xe000_0000;

/// Number of pages in the virtual address space.
pub const NUM_PAGES: usize = 0x10_0000;

/// Number of entries in a page table or a page directory.
pub const ENTRIES: usize = 1024;

/// Errors of the paging layer.
#[derive(PartialEq, Eq, Structural, Clone, Copy, Debug)]
pub enum PagingError {
    NoAvailableFrames,
    FrameUnused,
    FrameInUse,
    AllocError,
    BadFrame,
    BadAddress,
}

/// The system-call error codes that paging errors surface as.
#[derive(PartialEq, Eq, Structural, Clone, Copy, Debug)]
pub enum Errno {
    OutOfMemory,
    BadAddress,
    NoSuchProcess,
    Exists,
}

impl PagingError {
    /// The error code a system call reports for this error.
    pub fn to_errno(self) -> (r: Errno)
        ensures
            r == (if self == PagingError::BadAddress { Errno::BadAddress } else { Errno::OutOfMemory }),
    {
        match self {
            PagingError::BadAddress => Errno::BadAddress,
            _ => Errno::OutOfMemory,
        }
    }

    /// A short description of the error.
    pub fn message(self) -> (r: &'static str) {
        match self {
            PagingError::NoAvailableFrames => "no available frames (out of memory)",
            PagingError::FrameUnused => "frame is unused",
            PagingError::FrameInUse => "frame already in use",
            PagingError::AllocError => "error allocating memory",
            PagingError::BadFrame => "bad frame",
            PagingError::BadAddress => "address not mapped",
        }
    }
}

/// Hardware-agnostic form of a mapping from a virtual page to a physical frame.
#[derive(PartialEq, Eq, Structural, Clone, Copy, Debug)]
pub struct PageFrame {
    /// Physical address of the frame.
    pub addr: u64,
    /// The page can be accessed.
    pub present: bool,
    /// The page can be accessed in user mode.
    pub user_mode: bool,
    /// The page can be written to.
    pub writable: bool,
    /// A write must first copy the page.
    pub copy_on_write: bool,
    /// Code can be executed from the page.
    pub executable: bool,
    /// The frame's lifetime is governed by the reference counter.
    pub referenced: bool,
    /// The frame was shared from another process.
    pub shared: bool,
}

impl PageFrame {
    /// A present, writable, kernel-only mapping of `addr` with no other flag.
    pub fn present_writable(addr: u64) -> (r: PageFrame)
        ensures
            r == PageFrame::spec_present_writable(addr),
    {
        PageFrame {
            addr,
            present: true,
            user_mode: false,
            writable: true,
            copy_on_write: false,
            executable: false,
            referenced: false,
            shared: false,
        }
    }

    pub open spec fn spec_present_writable(addr: u64) -> PageFrame {
        PageFrame {
            addr,
            present: true,
            user_mode: false,
            writable: true,
            copy_on_write: false,
            executable: false,
            referenced: false,
            shared: false,
        }
    }

    /// A mapping that must be copied before it is written.
    pub open spec fn spec_is_cow(self) -> bool {
        !self.writable && self.copy_on_write && self.referenced
    }

    /// Whether a write to this mapping must first copy the page.
    pub fn is_cow(&self) -> (r: bool)
        ensures
            r == self.spec_is_cow(),
    {
        !self.writable && self.copy_on_write && self.referenced
    }
}

/// Virtual page number of an address.
pub open spec fn vpn(addr: usize) -> nat {
    (addr / PAGE_SIZE) as nat
}

/// Whether an address is a multiple of the page size.
pub open spec fn page_aligned(addr: int) -> bool {
    addr % (PAGE_SIZE as int) == 0
}

} // verus!
