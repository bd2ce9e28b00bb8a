use paintbrush::acpi::{
    DescriptionTable, Error, GicCpuInterfaceFlags, LocalApic, Madt, Rsdp, TableSignature, checksum,
    xsdt_entries,
};
use paintbrush::cpu::{Feature, IoPort, Msr, Permission, X86Cpu};
use paintbrush::stackvec::StackVecError;

fn seal(d: &mut [u8], at: usize) {
    d[at] = 0;
    let sum = d.iter().fold(0u8, |a, b| a.wrapping_add(*b));
    d[at] = 0u8.wrapping_sub(sum);
}

#[test]
fn table_signatures() {
    assert_eq!(TableSignature::from_bytes(*b"APIC"), TableSignature::Madt);
    assert_eq!(TableSignature::from_bytes(*b"XSDT"), TableSignature::Xsdt);
    assert_eq!(TableSignature::from_bytes(*b"ABCD"), TableSignature::Unknown(*b"ABCD"));
    assert_eq!(TableSignature::from(*b"SPCR"), TableSignature::Spcr);
}

#[test]
fn checksums() {
    assert_eq!(checksum(&[1, 2, 253], 3), Ok(()));
    assert_eq!(checksum(&[1, 2, 254], 3), Err(Error::InvalidChecksum));
    assert_eq!(checksum(&[1, 2, 254], 0), Ok(()));
}

#[test]
fn description_table_header() {
    let mut d = vec![0u8; 44];
    d[..4].copy_from_slice(b"XSDT");
    d[4..8].copy_from_slice(&44u32.to_le_bytes());
    d[36..44].copy_from_slice(&0x1234_5678u64.to_le_bytes());
    seal(&mut d, 9);
    let (table, start, len) = DescriptionTable::from_bytes(&d).unwrap();
    assert_eq!(table.signature(), TableSignature::Xsdt);
    assert_eq!((start, len), (36, 8));
    assert_eq!(xsdt_entries(&d[start..start + len]), Ok(vec![0x1234_5678]));
    assert_eq!(xsdt_entries(&d[36..43]), Err(Error::MisalignedData));
    d[20] ^= 1;
    assert_eq!(DescriptionTable::from_bytes(&d), Err(Error::InvalidChecksum));
    assert_eq!(DescriptionTable::from_bytes(&d[..30]), Err(Error::Truncated));
}

#[test]
fn root_pointer() {
    let mut d = vec![0u8; 36];
    d[..8].copy_from_slice(b"RSD PTR ");
    d[15] = 2;
    d[20..24].copy_from_slice(&36u32.to_le_bytes());
    d[24..32].copy_from_slice(&0xdead_0000u64.to_le_bytes());
    seal(&mut d, 8);
    let p = Rsdp::from_bytes(&d).unwrap();
    assert_eq!(p.xsdt_address, 0xdead_0000);
    let mut old = d.clone();
    old[15] = 1;
    assert_eq!(Rsdp::from_bytes(&old), Err(Error::InvalidRsdpRevision));
    let mut long = d.clone();
    long[20] = 40;
    assert_eq!(Rsdp::from_bytes(&long), Err(Error::InvalidRsdpLength));
    let mut broken = d.clone();
    broken[30] = 1;
    assert_eq!(Rsdp::from_bytes(&broken), Err(Error::InvalidChecksum));
    assert_eq!(Rsdp::from_bytes(&d[..20]), Err(Error::Truncated));
    let mut unsigned = d.clone();
    unsigned[0] = b'X';
    assert_eq!(Rsdp::from_bytes(&unsigned), Err(Error::InvalidRsdpSignature));
}

fn local_apic(id: u8, flags: u32) -> Vec<u8> {
    let mut e = vec![0, 8, id, id];
    e.extend_from_slice(&flags.to_le_bytes());
    e
}

#[test]
fn madt_lists_enabled_apics() {
    let mut payload = vec![0u8; 8];
    payload.extend(local_apic(0, 1));
    payload.extend(local_apic(1, 0));
    payload.extend([1, 12, 0, 0, 0, 0, 0, 0, 0, 0, 0, 0]);
    payload.extend(local_apic(4, 1));
    let ids = Madt::apic_ids(&payload).unwrap();
    assert_eq!(ids.data(), vec![Some(0), Some(4)]);
    let mut many = vec![0u8; 8];
    for i in 0..49u8 {
        many.extend(local_apic(i, 1));
    }
    assert!(matches!(Madt::apic_ids(&many), Err(StackVecError::Full)));
    assert!(LocalApic { acpi_processor_uid: 0, apic_id: 0, flags: 1 }.enabled());
    assert!(!GicCpuInterfaceFlags(2)._enabled());
}

#[test]
fn cpu_facts() {
    assert!(X86Cpu::has_feature(1u64 << 53, Feature::X2Apic));
    assert!(!X86Cpu::has_feature(1u64 << 9, Feature::X2Apic));
    assert!(X86Cpu::has_feature(1u64 << 9, Feature::APIC));
    assert_eq!(IoPort::SecondaryPicInterruptMask.port(), 0xa1);
    assert_eq!(Msr::from_number(0x1b), Some(Msr::ApicBase));
    assert_eq!(Msr::from_number(0x1c), None);
    assert_eq!(Msr::X2apicIcr.number(), 0x830);
    assert_eq!(Msr::X2apicEoi.permissions(), Permission::WriteOnly);
    assert_eq!(Msr::X2apicIsr3.permissions(), Permission::ReadOnly);
    assert_eq!(Msr::Efer.permissions(), Permission::ReadWrite);
}
