//! Decisions of the boot sequence: which firmware memory is free, which kernel
//! sections are mapped and where, how each application processor's block and
//! memory are prepared, and which processors are still running.
use vstd::prelude::*;

use crate::core_arg::{CoreArg, CoreArgError};
use crate::errchain::NumericalError;
use crate::global_types::{PhysAddr, VirtAddr};
use crate::page_table::{Entry, EntryBuilder, PageSize, encode};
use crate::pe::{ParsedSection, Parsed};
use crate::rangeset::{
    InclusiveRange, MAX_MEMORY_RANGES, RangeSet, RangeSetError, best_fit, block, covered, fits,
    fitted_block, is_pow2, ranges_wf,
};

verus! {

/// Most logical processors the boot sequence prepares blocks for.
pub const NUM_CPUS: usize = 36;

/// Bytes of private memory each application processor receives.
pub const CORE_MEMORY_SIZE: u64 = 0x4000_0000;

/// Errors raised by the boot decisions.
#[derive(Debug, Copy, Clone, PartialEq, Eq, Structural)]
pub enum Error {
    /// An address computation overflowed.
    Numerical(NumericalError),
    /// A range-set operation failed.
    RangeSet(RangeSetError),
    /// A kernel section's frame is not 4 KiB aligned.
    CannotMapNonPageAligned,
    /// A kernel section's frame lies at or above 2^52, past what an entry holds.
    AddressOutOfRange,
}

/// Kind of a region of the firmware memory map.
#[derive(Debug, Copy, Clone, PartialEq, Eq, Structural)]
pub enum MemoryType {
    ReservedMemory,
    LoaderCode,
    LoaderData,
    BootServicesCode,
    BootServicesData,
    RuntimeServicesCode,
    RuntimeServicesData,
    ConventionalMemory,
    UnusableMemory,
    AcpiReclaimMemory,
    AcpiMemoryNvs,
    MemoryMappedIo,
    MemoryMappedIoPortSpace,
    PalCode,
    PersistentMemory,
    Unknown,
}

impl MemoryType {
    /// The region is free now: conventional or persistent memory.
    pub open spec fn spec_is_available(self) -> bool {
        self == MemoryType::ConventionalMemory || self == MemoryType::PersistentMemory
    }

    /// Whether the region is free now.
    pub fn is_available(self) -> (r: bool)
        ensures
            r == self.spec_is_available(),
    {
        match self {
            MemoryType::ConventionalMemory | MemoryType::PersistentMemory => true,
            _ => false,
        }
    }

    /// Whether the region becomes free once boot services have exited.
    pub fn _is_available_after_exit_boot_services(self) -> (r: bool)
        ensures
            r == (self == MemoryType::BootServicesCode || self == MemoryType::BootServicesData),
    {
        match self {
            MemoryType::BootServicesCode | MemoryType::BootServicesData => true,
            _ => false,
        }
    }

    /// The type with firmware code `raw`; codes past the known ones are `Unknown`.
    pub fn from_raw(raw: u32) -> (r: MemoryType)
        ensures
            raw > 14 <==> r == MemoryType::Unknown,
            raw == 7 <==> r == MemoryType::ConventionalMemory,
            raw == 14 <==> r == MemoryType::PersistentMemory,
    {
        match raw {
            0 => MemoryType::ReservedMemory,
            1 => MemoryType::LoaderCode,
            2 => MemoryType::LoaderData,
            3 => MemoryType::BootServicesCode,
            4 => MemoryType::BootServicesData,
            5 => MemoryType::RuntimeServicesCode,
            6 => MemoryType::RuntimeServicesData,
            7 => MemoryType::ConventionalMemory,
            8 => MemoryType::UnusableMemory,
            9 => MemoryType::AcpiReclaimMemory,
            10 => MemoryType::AcpiMemoryNvs,
            11 => MemoryType::MemoryMappedIo,
            12 => MemoryType::MemoryMappedIoPortSpace,
            13 => MemoryType::PalCode,
            14 => MemoryType::PersistentMemory,
            _ => MemoryType::Unknown,
        }
    }
}

impl Default for MemoryType {
    fn default() -> (r: MemoryType)
        ensures
            r == MemoryType::Unknown,
    {
        MemoryType::Unknown
    }
}

/// One region of the firmware memory map.
#[derive(Debug, Copy, Clone, PartialEq, Eq, Structural)]
pub struct MemoryDescriptor {
    /// Kind of region.
    pub type_: MemoryType,
    /// Physical address of the first byte.
    pub physical_start: u64,
    /// Virtual address of the first byte.
    pub virtual_start: u64,
    /// Number of 4 KiB pages.
    pub number_of_pages: u64,
    /// Capabilities of the region.
    pub attribute: u64,
    /// Padding.
    pub reserved: u64,
}

/// Last address of the region `d`, when it holds at least one page.
pub open spec fn region_end(d: MemoryDescriptor) -> int {
    d.physical_start + d.number_of_pages * 0x1000 - 1
}

/// The region `d` is non-empty and ends below 2^64.
pub open spec fn region_valid(d: MemoryDescriptor) -> bool {
    d.number_of_pages > 0 && region_end(d) <= u64::MAX
}

/// The addresses of the region `d` as a range.
pub open spec fn region_range(d: MemoryDescriptor) -> InclusiveRange {
    InclusiveRange { start: d.physical_start, end: region_end(d) as u64 }
}

/// Index of the first `Unknown` descriptor at or after `i`, or the length.
pub open spec fn first_unknown(ds: Seq<MemoryDescriptor>, i: int) -> int
    decreases ds.len() - i,
{
    if i >= ds.len() {
        ds.len() as int
    } else if ds[i].type_ == MemoryType::Unknown {
        i
    } else {
        first_unknown(ds, i + 1)
    }
}

/// Addresses of the free regions among the first `n` descriptors.
pub open spec fn free_addresses(ds: Seq<MemoryDescriptor>, n: int) -> Set<int> {
    Set::new(
        |a: int|
            exists|i: int|
                0 <= i < n && (#[trigger] ds[i]).type_.spec_is_available() && ds[i].physical_start
                    <= a <= region_end(ds[i]),
    )
}

proof fn lemma_first_unknown(ds: Seq<MemoryDescriptor>, i: int)
    requires
        0 <= i <= ds.len(),
    ensures
        i <= first_unknown(ds, i) <= ds.len(),
        forall|k: int| i <= k < first_unknown(ds, i) ==> ds[k].type_ != MemoryType::Unknown,
        first_unknown(ds, i) < ds.len() ==> ds[first_unknown(ds, i)].type_ == MemoryType::Unknown,
    decreases ds.len() - i,
{
    if i < ds.len() && ds[i].type_ != MemoryType::Unknown {
        lemma_first_unknown(ds, i + 1);
    }
}

/// The free memory that the firmware map `descriptors` lists before its first
/// `Unknown` entry, as a range set. A free region with no pages or one that runs
/// past 2^64 is refused with `InvalidRange`; `Full` comes only once the free
/// memory of the regions read so far fills every slot of the set and the next
/// free region touches none of them.
#[verifier::rlimit(30)]
pub fn available_memory(descriptors: &[MemoryDescriptor]) -> (r: Result<RangeSet, RangeSetError>)
    ensures
        ({
            let ds = descriptors@;
            let n = first_unknown(ds, 0);
            match r {
                Ok(s) => s.wf() && s.addresses() == free_addresses(ds, n),
                Err(e) => {
                    ||| (e == RangeSetError::InvalidRange && exists|i: int|
                        0 <= i < n && (#[trigger] ds[i]).type_.spec_is_available()
                            && !region_valid(ds[i]))
                    ||| (e == RangeSetError::Full && exists|i: int, s: Seq<InclusiveRange>|
                        #![trigger free_addresses(ds, i), covered(s)]
                        0 <= i < n && ranges_wf(s) && s.len() == MAX_MEMORY_RANGES && covered(s)
                            == free_addresses(ds, i) && ds[i].type_.spec_is_available()
                            && region_valid(ds[i]) && forall|j: int|
                            0 <= j < s.len() ==> !(#[trigger] s[j]).touches(region_range(ds[i])))
                },
            }
        }),
{
    let ghost ds = descriptors@;
    proof {
        lemma_first_unknown(ds, 0);
    }
    let ghost n = first_unknown(ds, 0);
    let mut listed: usize = 0;
    while listed < descriptors.len() && descriptors[listed].type_ != MemoryType::Unknown
        invariant
            ds == descriptors@,
            n == first_unknown(ds, 0),
            forall|k: int| 0 <= k < n ==> ds[k].type_ != MemoryType::Unknown,
            n < ds.len() ==> ds[n].type_ == MemoryType::Unknown,
            listed <= n,
        decreases descriptors.len() - listed,
    {
        listed += 1;
    }
    let mut available = RangeSet::new();
    let mut i: usize = 0;
    while i < listed
        invariant
            ds == descriptors@,
            n == first_unknown(ds, 0),
            listed == n,
            0 <= n <= ds.len(),
            forall|k: int| 0 <= k < n ==> ds[k].type_ != MemoryType::Unknown,
            i <= n,
            available.wf(),
            available.addresses() == free_addresses(ds, i as int),
        decreases listed - i,
    {
        let d = descriptors[i];
        let ghost before = available.addresses();
        if d.type_.is_available() {
            if d.number_of_pages == 0 {
                return Err(RangeSetError::InvalidRange);
            }
            let span = match (d.number_of_pages - 1).checked_mul(0x1000) {
                Some(s) => s,
                None => {
                    return Err(RangeSetError::InvalidRange);
                },
            };
            let last = match span.checked_add(0xfff) {
                Some(s) => s,
                None => {
                    return Err(RangeSetError::InvalidRange);
                },
            };
            let end = match d.physical_start.checked_add(last) {
                Some(e) => e,
                None => {
                    return Err(RangeSetError::InvalidRange);
                },
            };
            assert(end == region_end(ds[i as int]));
            match available.insert(InclusiveRange::new(d.physical_start, end)) {
                Ok(()) => {},
                Err(e) => {
                    assert(covered(available@) == free_addresses(ds, i as int));
                    return Err(e);
                },
            }
            assert(available.addresses() =~= free_addresses(ds, i as int + 1)) by {
                assert forall|a: int| free_addresses(ds, i as int + 1).contains(a) implies #[trigger] available.addresses().contains(a) by {
                    let k = choose|k: int| 0 <= k < i + 1 && (#[trigger] ds[k]).type_.spec_is_available() && ds[k].physical_start <= a <= region_end(ds[k]);
                    if k < i {
                        assert(before.contains(a));
                    }
                }
                assert forall|a: int| available.addresses().contains(a) implies #[trigger] free_addresses(ds, i as int + 1).contains(a) by {
                    if before.contains(a) {
                        let k = choose|k: int| 0 <= k < i && (#[trigger] ds[k]).type_.spec_is_available() && ds[k].physical_start <= a <= region_end(ds[k]);
                    } else {
                        assert(ds[i as int].physical_start <= a <= region_end(ds[i as int]));
                    }
                }
            }
        } else {
            assert(available.addresses() =~= free_addresses(ds, i as int + 1)) by {
                assert forall|a: int| free_addresses(ds, i as int + 1).contains(a) implies #[trigger] available.addresses().contains(a) by {
                    let k = choose|k: int| 0 <= k < i + 1 && (#[trigger] ds[k]).type_.spec_is_available() && ds[k].physical_start <= a <= region_end(ds[k]);
                }
            }
        }
        i += 1;
    }
    Ok(available)
}

/// A kernel page to map: the leaf `entry` at the virtual address `virt`.
#[derive(Debug, Copy, Clone, PartialEq, Eq, Structural)]
pub struct SectionMapping {
    /// Where the page appears.
    pub virt: VirtAddr,
    /// The leaf entry that maps it.
    pub entry: Entry,
}

/// The section is mapped for the kernel: readable and executable, not writable.
pub open spec fn maps_section(s: ParsedSection) -> bool {
    s.perms.readable && s.perms.executable && !s.perms.writable
}

/// The leaf builder for a kernel page at physical address `phys`: present, user,
/// writable and executable, 4 KiB.
pub open spec fn kernel_leaf(phys: u64) -> EntryBuilder {
    EntryBuilder {
        present: true,
        writable: true,
        user_permitted: true,
        write_through: false,
        cache_disable: false,
        accessed: false,
        dirty: false,
        page_size: Some(PageSize::Size4K),
        global: false,
        execute_disable: false,
        protection_key: 0,
        address: phys,
    }
}

/// The mappings for the first `n` section slots of an image loaded at `buffer`
/// whose base is `image_base`.
pub open spec fn kernel_plan(
    sections: Seq<Option<ParsedSection>>,
    image_base: u64,
    buffer: u64,
    n: int,
) -> Seq<SectionMapping>
    decreases n,
{
    if n <= 0 {
        Seq::empty()
    } else {
        let rest = kernel_plan(sections, image_base, buffer, n - 1);
        match sections[n - 1] {
            Some(s) => if maps_section(s) {
                rest.push(
                    SectionMapping {
                        virt: VirtAddr((image_base + s.virt_rva) as u64),
                        entry: Entry(encode(kernel_leaf((buffer + s.virt_rva) as u64))),
                    },
                )
            } else {
                rest
            },
            None => rest,
        }
    }
}

/// A mapped section whose addresses do not fit, or whose frame is not aligned,
/// among the first `n` slots.
pub open spec fn plan_fault(
    sections: Seq<Option<ParsedSection>>,
    image_base: u64,
    buffer: u64,
    n: int,
) -> bool {
    exists|i: int| 0 <= i < n && #[trigger] section_fault(sections[i], image_base, buffer)
}

/// The slot holds a mapped section whose addresses do not fit or whose frame is
/// not aligned.
pub open spec fn section_fault(slot: Option<ParsedSection>, image_base: u64, buffer: u64) -> bool {
    match slot {
        Some(s) => maps_section(s) && (buffer + s.virt_rva > u64::MAX || image_base + s.virt_rva
            > u64::MAX || (((buffer + s.virt_rva) as u64) & 0xfff) != 0 || buffer + s.virt_rva
            >= 0x10_0000_0000_0000),
        None => false,
    }
}

/// The pages to map for the kernel image `parsed`, whose bytes were loaded at the
/// physical address `buffer`: one 4 KiB page for each readable, executable and
/// not writable section, at `image_base + rva`, backed by `buffer + rva`.
#[verifier::rlimit(30)]
pub fn kernel_mappings(parsed: &Parsed, buffer: u64) -> (r: Result<Vec<SectionMapping>, Error>)
    ensures
        match r {
            Ok(v) => !plan_fault(parsed.sections@, parsed.image_base, buffer, 6) && v@
                == kernel_plan(parsed.sections@, parsed.image_base, buffer, 6),
            Err(e) => plan_fault(parsed.sections@, parsed.image_base, buffer, 6),
        },
{
    let mut out: Vec<SectionMapping> = Vec::new();
    let mut i: usize = 0;
    while i < 6
        invariant
            i <= 6,
            !plan_fault(parsed.sections@, parsed.image_base, buffer, i as int),
            out@ == kernel_plan(parsed.sections@, parsed.image_base, buffer, i as int),
        decreases 6 - i,
    {
        if let Some(section) = parsed.sections[i] {
            if section.perms.readable && section.perms.executable && !section.perms.writable {
                let rva = section.virt_rva as u64;
                let phys = match buffer.checked_add(rva) {
                    Some(p) => p,
                    None => {
                        assert(parsed.sections@[i as int] == Some(section));
                        assert(section_fault(parsed.sections@[i as int], parsed.image_base, buffer));
                        return Err(Error::Numerical(NumericalError::AddOverflow));
                    },
                };
                let virt = match parsed.image_base.checked_add(rva) {
                    Some(v) => v,
                    None => {
                        assert(parsed.sections@[i as int] == Some(section));
                        assert(section_fault(parsed.sections@[i as int], parsed.image_base, buffer));
                        return Err(Error::Numerical(NumericalError::AddOverflow));
                    },
                };
                if phys & 0xfff != 0 {
                    assert(parsed.sections@[i as int] == Some(section));
                    assert(section_fault(parsed.sections@[i as int], parsed.image_base, buffer));
                    return Err(Error::CannotMapNonPageAligned);
                }
                if phys >= 0x10_0000_0000_0000 {
                    assert(parsed.sections@[i as int] == Some(section));
                    assert(section_fault(parsed.sections@[i as int], parsed.image_base, buffer));
                    return Err(Error::AddressOutOfRange);
                }
                let entry = EntryBuilder::default().address(PhysAddr(phys)).page_size(
                    PageSize::Size4K,
                ).present(true).user_permitted(true).writable(true).execute_disable(false).finish();
                assert(entry.0 == encode(kernel_leaf(phys)));
                out.push(SectionMapping { virt: VirtAddr(virt), entry });
            }
        }
        proof {
            assert forall|k: int| 0 <= k < i + 1 implies !#[trigger] section_fault(
                parsed.sections@[k],
                parsed.image_base,
                buffer,
            ) by {
                if k < i {
                    assert(!plan_fault(parsed.sections@, parsed.image_base, buffer, i as int));
                }
            }
        }
        i += 1;
    }
    Ok(out)
}

/// Prepare the block of application processor `core_id`: clear it, record its ID
/// and the address of its alive flag, and give it `memory_size` bytes, 4 KiB
/// aligned, taken out of `available`. Returns the first address of that memory.
pub fn prepare_core(
    arg: &mut CoreArg,
    available: &mut RangeSet,
    core_id: usize,
    alive_address: u64,
    memory_size: u64,
) -> (r: Result<u64, Error>)
    requires
        old(available).wf(),
        old(arg).memory.wf(),
    ensures
        final(available).wf(),
        final(arg).memory.wf(),
        final(arg).core == Some(core_id),
        final(arg).alive_address == Some(alive_address),
        final(arg).page_table == old(arg).page_table,
        match r {
            Ok(start) => {
                &&& start & 0xfff == 0
                &&& memory_size > 0
                &&& block(start as int, start + memory_size - 1).subset_of(old(available).addresses())
                &&& final(available).addresses() == old(available).addresses().difference(
                    block(start as int, start + memory_size - 1),
                )
                &&& final(arg).memory.addresses() == block(start as int, start + memory_size - 1)
            },
            Err(Error::RangeSet(e)) => {
                &&& *final(available) == *old(available)
                &&& final(arg).memory.addresses() == Set::<int>::empty()
                &&& if memory_size == 0 {
                    e == RangeSetError::ZeroSizedAllocation
                } else if forall|j: int|
                    0 <= j < old(available)@.len() ==> !#[trigger] fits(
                        old(available)@[j],
                        memory_size,
                        0x1000,
                    ) {
                    e == RangeSetError::OutOfMemory
                } else {
                    &&& e == RangeSetError::Full
                    &&& old(available).length == MAX_MEMORY_RANGES
                    &&& exists|i: int|
                        #[trigger] best_fit(old(available)@, memory_size, 0x1000, i) && old(
                            available,
                        )@[i].strictly_holds(fitted_block(old(available)@[i], memory_size, 0x1000))
                }
            },
            Err(_) => false,
        },
{
    arg.reset();
    arg.set_core(core_id);
    arg.set_alive_address(alive_address);
    assert(is_pow2(0x1000)) by {
        assert(0x1000u64 & 0xfffu64 == 0) by (bit_vector);
    }
    let start = match available.allocate(memory_size, 0x1000) {
        Ok(s) => s,
        Err(e) => {
            return Err(Error::RangeSet(e));
        },
    };
    match arg.insert_memory(start, memory_size) {
        Ok(()) => {
            assert(arg.memory.addresses() =~= block(start as int, start + memory_size - 1));
            Ok(start)
        },
        Err(CoreArgError::Numerical(e)) => Err(Error::Numerical(e)),
        Err(CoreArgError::RangeSet(e)) => Err(Error::RangeSet(e)),
    }
}

/// The processors whose alive flag is set, in increasing order.
pub fn alive_cores(alive: &[bool]) -> (r: Vec<usize>)
    ensures
        forall|k: int| 0 <= k < alive@.len() ==> (alive@[k] <==> r@.contains(k as usize)),
        forall|j: int| 0 <= j < r@.len() ==> r@[j] < alive@.len(),
        forall|a: int, b: int| 0 <= a < b < r@.len() ==> r@[a] < r@[b],
{
    let mut out: Vec<usize> = Vec::new();
    let mut i: usize = 0;
    while i < alive.len()
        invariant
            i <= alive@.len(),
            forall|k: int| 0 <= k < i ==> (alive@[k] <==> out@.contains(k as usize)),
            forall|j: int| 0 <= j < out@.len() ==> out@[j] < i,
            forall|a: int, b: int| 0 <= a < b < out@.len() ==> out@[a] < out@[b],
        decreases alive@.len() - i,
    {
        let ghost before = out@;
        if alive[i] {
            out.push(i);
            assert forall|k: int| 0 <= k < i + 1 implies (alive@[k] <==> out@.contains(k as usize)) by {
                if k < i {
                    if before.contains(k as usize) {
                        let j = choose|j: int| 0 <= j < before.len() && before[j] == k as usize;
                        assert(out@[j] == k as usize);
                    }
                    if out@.contains(k as usize) {
                        let j = choose|j: int| 0 <= j < out@.len() && out@[j] == k as usize;
                        assert(j < before.len());
                        assert(before[j] == k as usize);
                    }
                } else {
                    assert(out@[before.len() as int] == i);
                }
            }
        } else {
            assert forall|k: int| 0 <= k < i + 1 implies (alive@[k] <==> out@.contains(k as usize)) by {
                if k == i {
                    if out@.contains(k as usize) {
                        let j = choose|j: int| 0 <= j < out@.len() && out@[j] == k as usize;
                    }
                }
            }
        }
        i += 1;
    }
    out
}

} // verus!
