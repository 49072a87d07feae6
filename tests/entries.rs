use kernel_mm::bitset::BitSet;
use kernel_mm::entry::{
    PageDirEntry, PageDirFlags, PageTableEntry, PageTableFlags, PD_PRESENT, PD_READ_WRITE, PT_COPY_ON_WRITE,
    PT_PRESENT, PT_READ_WRITE, PT_REFERENCED, PT_SHARED, PT_USER_SUPERVISOR,
};
use kernel_mm::frame::PageFrame;

#[test]
fn table_entry_fields() {
    let mut e = PageTableEntry::new(0x1234_5678, PageTableFlags::from_bits(PT_PRESENT | PT_READ_WRITE));
    assert_eq!(e.0, 0x1234_5003);
    assert_eq!(e.get_address(), 0x1234_5000);
    assert_eq!(e.get_flags(), 3);
    e.set_address(0xabcd_e000);
    assert_eq!(e.0, 0xabcd_e003);
    e.set_flags(PageTableFlags::from_bits(0xf004));
    assert_eq!(e.0, 0xabcd_e004);
    assert!(!e.is_unused());
    e.set_unused();
    assert!(e.is_unused());
    assert!(PageTableEntry::new_unused().is_unused());
}

#[test]
fn dir_entry_fields() {
    let mut e = PageDirEntry::new(0x0040_0fff, PageDirFlags::from_bits(PD_PRESENT | PD_READ_WRITE));
    assert_eq!(e.0, 0x0040_0003);
    assert_eq!(e.get_address(), 0x0040_0000);
    assert_eq!(e.get_flags(), 3);
    e.set_address(0x1000);
    assert_eq!(e.get_address(), 0x1000);
    e.set_flags(PageDirFlags::from_bits(0));
    assert_eq!(e.0, 0x1000);
    e.set_unused();
    assert!(e.is_unused());
    assert!(PageDirEntry::new_unused().is_unused());
    assert!(PageDirFlags::from_bits(7).contains(PD_READ_WRITE));
}

#[test]
fn frame_entry_round_trip() {
    let f = PageFrame {
        addr: 0x0012_3000,
        present: true,
        user_mode: true,
        writable: false,
        copy_on_write: true,
        executable: false,
        referenced: true,
        shared: true,
    };
    let e = PageTableEntry::try_from_frame(f).unwrap();
    let flags = PageTableFlags::from_bits(e.get_flags());
    assert!(flags.contains(PT_PRESENT | PT_USER_SUPERVISOR | PT_COPY_ON_WRITE | PT_REFERENCED | PT_SHARED));
    assert!(!flags.contains(PT_READ_WRITE));
    let back = e.to_frame();
    assert_eq!(back, PageFrame { executable: true, ..f });
    assert!(PageTableEntry::try_from_frame(PageFrame { addr: 0x1_0000_0000, ..f }).is_err());
}

#[test]
fn bitset_first_unset_and_counts() {
    let mut b = BitSet::new(5);
    assert_eq!(b.first_unset(), Some(0));
    b.set(0);
    b.set(1);
    b.set(1);
    assert_eq!(b.bits_used, 2);
    assert_eq!(b.first_unset(), Some(2));
    b.clear(0);
    assert_eq!(b.first_unset(), Some(0));
    assert_eq!(b.bits_used, 1);
    for i in 0..5 {
        b.set(i);
    }
    assert_eq!(b.first_unset(), None);
    assert_eq!(b.bits_used, 5);
    assert!(b.test(4));
}
