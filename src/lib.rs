//! Verified core of a multi-core x86-64 UEFI bootloader: the physical-memory
//! range set, four-level page tables over a physical-memory capability, the
//! local APIC's register and interrupt-command logic, PE and ACPI table readers,
//! and the decisions of the boot sequence that hands each application processor
//! its own block, memory and page table.

pub mod acpi;
pub mod apic;
pub mod boot;
pub mod core_arg;
pub mod cpu;
pub mod errchain;
pub mod global_types;
pub mod page_table;
pub mod pe;
pub mod phys_mem;
pub mod rangeset;
pub mod stackvec;
pub mod uefi;
