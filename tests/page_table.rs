use paintbrush::global_types::{PhysAddr, VirtAddr};
use paintbrush::page_table::{
    CanMap, CanTranslate, CanUpdatePerms, Entry, EntryBuilder, Error, PageSize, PageTable,
    Permissions,
};
use paintbrush::phys_mem::{MemoryWindow, PhysMem};

fn window() -> MemoryWindow {
    MemoryWindow::new(0x10_0000, 512 * 16).unwrap()
}

fn leaf(addr: u64, size: PageSize) -> Entry {
    EntryBuilder::default()
        .address(PhysAddr(addr))
        .present(true)
        .writable(true)
        .user_permitted(true)
        .page_size(size)
        .finish()
}

#[test]
fn map_then_translate_4k() {
    let mut mem = window();
    let root = mem.alloc_page_zeroed().unwrap();
    let table = PageTable::from_phys_addr(root);
    table
        .map_raw_4k(leaf(0xDEAD_B000, PageSize::Size4K), VirtAddr(0xFFFF_8000_1234_5000), &mut mem)
        .unwrap();
    let t = table.translate(VirtAddr(0xFFFF_8000_1234_5678), &mem);
    assert_eq!(t.phys_addr(), Some(PhysAddr(0xDEAD_B678)));
    assert_eq!(t.size(), Some(PageSize::Size4K));
    assert_eq!(t.virt_addr(), VirtAddr(0xFFFF_8000_1234_5678));
    assert_eq!(
        t.perms(),
        Permissions { readable: true, writable: true, executable: true }
    );
    assert!(t.entries().iter().all(|e| e.is_some()));
}

#[test]
fn map_then_translate_2m() {
    let mut mem = window();
    let root = mem.alloc_page_zeroed().unwrap();
    let table = PageTable::from_phys_addr(root);
    let entry = EntryBuilder::default()
        .address(PhysAddr(0x4000_0000))
        .present(true)
        .execute_disable(true)
        .page_size(PageSize::Size2M)
        .finish();
    table.map_raw_2m(entry, VirtAddr(0x20_0000), &mut mem).unwrap();
    let t = table.translate(VirtAddr(0x21_2345), &mem);
    assert_eq!(t.phys_addr(), Some(PhysAddr(0x4001_2345)));
    assert_eq!(t.size(), Some(PageSize::Size2M));
    assert_eq!(
        t.perms(),
        Permissions { readable: true, writable: false, executable: false }
    );
    assert!(t.entries()[3].is_none());
}

#[test]
fn unmapped_address_reports_root_slot() {
    let mut mem = window();
    let root = mem.alloc_page_zeroed().unwrap();
    let table = PageTable::from_phys_addr(root);
    let v = VirtAddr(0x0000_7f12_3456_7000);
    let t = table.translate(v, &mem);
    assert_eq!(t.phys_addr(), None);
    assert_eq!(t.size(), None);
    let index = v.table_indexes()[0] as u64;
    assert_eq!(t.entries()[0], Some(PhysAddr(root.0 + 8 * index)));
    assert_eq!(t.entries()[1], None);
    assert_eq!(table.entry_address(index as usize), PhysAddr(root.0 + 8 * index));
}

#[test]
fn mapping_twice_is_refused() {
    let mut mem = window();
    let root = mem.alloc_page_zeroed().unwrap();
    let table = PageTable::from_phys_addr(root);
    let v = VirtAddr(0x40_0000);
    table.map_raw_4k(leaf(0x9000, PageSize::Size4K), v, &mut mem).unwrap();
    assert_eq!(
        table.map_raw_4k(leaf(0xa000, PageSize::Size4K), v, &mut mem),
        Err(Error::VirtAddrAlreadyMapped)
    );
}

#[test]
fn neighbours_share_intermediate_tables() {
    let mut mem = window();
    let root = mem.alloc_page_zeroed().unwrap();
    let table = PageTable::from_phys_addr(root);
    table.map_raw_4k(leaf(0x9000, PageSize::Size4K), VirtAddr(0x40_0000), &mut mem).unwrap();
    table.map_raw_4k(leaf(0xa000, PageSize::Size4K), VirtAddr(0x40_1000), &mut mem).unwrap();
    let a = table.translate(VirtAddr(0x40_0010), &mem);
    let b = table.translate(VirtAddr(0x40_1010), &mem);
    assert_eq!(a.phys_addr(), Some(PhysAddr(0x9010)));
    assert_eq!(b.phys_addr(), Some(PhysAddr(0xa010)));
    assert_eq!(a.entries()[2], b.entries()[2]);
    assert_ne!(a.entries()[3], b.entries()[3]);
}

#[test]
fn running_out_of_frames_is_reported() {
    let mut mem = MemoryWindow::new(0x10_0000, 512 * 2).unwrap();
    let root = mem.alloc_page_zeroed().unwrap();
    let table = PageTable::from_phys_addr(root);
    let r = table.map_raw_4k(leaf(0x9000, PageSize::Size4K), VirtAddr(0x40_0000), &mut mem);
    assert!(matches!(r, Err(Error::Allocation(_))));
}

#[test]
fn update_perms_raises_rights() {
    let mut mem = window();
    let root = mem.alloc_page_zeroed().unwrap();
    let table = PageTable::from_phys_addr(root);
    let entry = EntryBuilder::default()
        .address(PhysAddr(0x9000))
        .present(true)
        .execute_disable(true)
        .page_size(PageSize::Size4K)
        .finish();
    table.map_raw_4k(entry, VirtAddr(0x40_0000), &mut mem).unwrap();
    let before = table.translate(VirtAddr(0x40_0000), &mem);
    assert_eq!(before.perms(), Permissions { readable: true, writable: false, executable: false });
    table.set_writable_executable(VirtAddr(0x40_0000), &mut mem);
    let after = table.translate(VirtAddr(0x40_0000), &mem);
    assert_eq!(after.perms(), Permissions { readable: true, writable: true, executable: true });
}

#[test]
fn entry_builder_layout() {
    let e = EntryBuilder::default()
        .address(PhysAddr(0x1234_5000))
        .present(true)
        .writable(true)
        .user_permitted(true)
        .write_through(true)
        .cache_disable(true)
        .accessed(true)
        .dirty(true)
        .global(true)
        .execute_disable(true)
        .protection_key(0xa)
        .page_size(PageSize::Size2M)
        .finish();
    assert_eq!(e.0, 0x1234_5000 | 0x1ff | (1u64 << 63) | (0xau64 << 59));
    let f = e.flags();
    assert!(f.present() && f.page_size());
    assert_eq!(f.protection_key, 0xa);
    assert!(f.execute_disable);
    assert_eq!(e.address(), PhysAddr(0x1234_5000));
    let small = EntryBuilder::default().address(PhysAddr(0x2000)).page_size(PageSize::Size4K).finish();
    assert_eq!(small.0, 0x2000);
}

#[test]
fn entry_setters() {
    let mut e = Entry::new();
    assert_eq!(e.0, 0);
    e.set_address(0xabc_d123);
    assert_eq!(e.0, 0xabc_d000);
    e.set_writable();
    assert_eq!(e.0, 0xabc_d002);
    e.0 |= 1u64 << 63;
    e.set_executable();
    assert_eq!(e.0, 0xabc_d002);
    assert!(e.flags().writable);
}

#[test]
fn addresses_and_indexes() {
    assert_eq!(PhysAddr(0x1000).offset(0x10), PhysAddr(0x1010));
    assert!(PhysAddr(0x3000).is_page_aligned());
    assert!(!PhysAddr(0x3001).is_page_aligned());
    assert_eq!(VirtAddr(0x10).offset(0x10), VirtAddr(0x20));
    let v = VirtAddr((3u64 << 39) | (5u64 << 30) | (7u64 << 21) | (9u64 << 12) | 0x123);
    assert_eq!(v.table_indexes(), [3, 5, 7, 9]);
    let t = PageTable::from_phys_addr(PhysAddr(0x5000));
    assert_eq!(t.start_address(), PhysAddr(0x5000));
}

#[test]
fn window_hands_out_distinct_frames() {
    let mut mem = MemoryWindow::new(0x10_0000, 512 * 4).unwrap();
    let a = mem.alloc_page().unwrap();
    let b = mem.alloc_page_aligned(0x2000).unwrap();
    assert_eq!(a, PhysAddr(0x10_0000));
    assert_eq!(b, PhysAddr(0x10_1000));
    mem.write_u64(PhysAddr(0x10_0008), 7);
    assert_eq!(mem.read_u64(PhysAddr(0x10_0008)), 7);
    assert!(mem.alloc_page_zeroed().is_ok());
    assert!(mem.alloc_page().is_err());
    assert!(mem.alloc_phys(8, 3).is_err());
}
