//! Virtual memory for a 32-bit x86 (non-PAE) kernel: physical frame
//! allocation, two-level page directories, page reference counting,
//! copy-on-write, transient mappings of foreign memory, and the per-thread
//! urgent message queues that keep TLBs coherent.
pub mod frame;
pub mod entry;
pub mod bitset;
pub mod directory;
pub mod pagedir;
pub mod manager;
pub mod refcount;
pub mod cow;
pub mod transient;
pub mod region;
pub mod task;
pub mod message;
pub mod cpu;
pub mod shares;
