use paintbrush::boot::{
    Error, MemoryDescriptor, MemoryType, alive_cores, available_memory, kernel_mappings,
    prepare_core, CORE_MEMORY_SIZE,
};
use paintbrush::core_arg::CoreArg;
use paintbrush::errchain::NumericalError;
use paintbrush::global_types::VirtAddr;
use paintbrush::pe::{ParsedSection, Parsed, SectionPermissions};
use paintbrush::rangeset::{InclusiveRange, RangeSet, RangeSetError};

fn desc(type_: MemoryType, start: u64, pages: u64) -> MemoryDescriptor {
    MemoryDescriptor {
        type_,
        physical_start: start,
        virtual_start: 0,
        number_of_pages: pages,
        attribute: 0,
        reserved: 0,
    }
}

#[test]
fn memory_map_keeps_free_regions_until_unknown() {
    let map = [
        desc(MemoryType::ConventionalMemory, 0x1000, 2),
        desc(MemoryType::BootServicesData, 0x3000, 1),
        desc(MemoryType::PersistentMemory, 0x10_0000, 16),
        desc(MemoryType::ConventionalMemory, 0x3000, 1),
        desc(MemoryType::Unknown, 0, 0),
        desc(MemoryType::ConventionalMemory, 0x100_0000, 4),
    ];
    let set = available_memory(&map).unwrap();
    let mut ranges = set.ranges();
    ranges.sort_by_key(|r| r.start);
    assert_eq!(
        ranges,
        vec![
            InclusiveRange { start: 0x1000, end: 0x3fff },
            InclusiveRange { start: 0x10_0000, end: 0x10_ffff },
        ]
    );
    let bad = [desc(MemoryType::ConventionalMemory, 0x1000, 0)];
    assert!(matches!(available_memory(&bad), Err(RangeSetError::InvalidRange)));
    assert_eq!(MemoryType::from_raw(7), MemoryType::ConventionalMemory);
    assert_eq!(MemoryType::from_raw(99), MemoryType::Unknown);
    assert!(MemoryType::PersistentMemory.is_available());
    assert!(!MemoryType::LoaderData.is_available());
    assert!(MemoryType::BootServicesCode._is_available_after_exit_boot_services());
}

fn section(rva: u32, readable: bool, writable: bool, executable: bool) -> Option<ParsedSection> {
    Some(ParsedSection {
        data_start: 0,
        data_end: 0,
        virt_rva: rva,
        perms: SectionPermissions { executable, readable, writable },
    })
}

#[test]
fn only_code_sections_are_mapped() {
    let parsed = Parsed {
        sections: [
            section(0x1000, true, false, true),
            section(0x2000, true, true, false),
            section(0x3000, true, false, true),
            None,
            None,
            None,
        ],
        image_base: 0x1_4000_0000,
        entry_point: 0x1_4000_1000,
    };
    let plan = kernel_mappings(&parsed, 0x20_0000).unwrap();
    assert_eq!(plan.len(), 2);
    assert_eq!(plan[0].virt, VirtAddr(0x1_4000_1000));
    assert_eq!(plan[0].entry.0, 0x20_1000 | 0b111);
    assert_eq!(plan[1].virt, VirtAddr(0x1_4000_3000));
    assert_eq!(plan[1].entry.0, 0x20_3000 | 0b111);
    let unaligned = Parsed { sections: [section(0x1234, true, false, true), None, None, None, None, None], ..parsed };
    assert_eq!(kernel_mappings(&unaligned, 0x20_0000), Err(Error::CannotMapNonPageAligned));
    assert_eq!(
        kernel_mappings(&parsed, u64::MAX - 0xfff),
        Err(Error::Numerical(NumericalError::AddOverflow))
    );
}

#[test]
fn cores_get_private_memory() {
    let mut available = RangeSet::new();
    available.insert(InclusiveRange { start: 0x1000, end: 0x2_0000_0fff }).unwrap();
    let mut arg = CoreArg::new();
    let start = prepare_core(&mut arg, &mut available, 1, 0x8001, CORE_MEMORY_SIZE).unwrap();
    assert_eq!(start, 0x1000);
    assert_eq!(arg.core, Some(1));
    assert_eq!(arg.alive_address, Some(0x8001));
    assert_eq!(arg.memory.ranges(), vec![InclusiveRange { start: 0x1000, end: 0x4000_0fff }]);
    assert_eq!(available.ranges(), vec![InclusiveRange { start: 0x4000_1000, end: 0x2_0000_0fff }]);
    let mut other = CoreArg::new();
    let r = prepare_core(&mut other, &mut available, 2, 0x8002, 0x10_0000_0000);
    assert_eq!(r, Err(Error::RangeSet(RangeSetError::OutOfMemory)));
}

#[test]
fn alive_cores_are_listed_in_order() {
    assert_eq!(alive_cores(&[false, true, false, true, true]), vec![1, 3, 4]);
    assert!(alive_cores(&[false; 4]).is_empty());
}
