use paintbrush::pe::{Error, Section, SectionPermissions, parse};

const PE_OFFSET: usize = 0x80;
const OPT_SIZE: usize = 0xf0;

fn put_u16(d: &mut [u8], off: usize, v: u16) {
    d[off..off + 2].copy_from_slice(&v.to_le_bytes());
}

fn put_u32(d: &mut [u8], off: usize, v: u32) {
    d[off..off + 4].copy_from_slice(&v.to_le_bytes());
}

fn put_u64(d: &mut [u8], off: usize, v: u64) {
    d[off..off + 8].copy_from_slice(&v.to_le_bytes());
}

/// An image with `count` section headers; `sections` gives (rva, file offset,
/// size, characteristics) for the first of them.
fn image(count: u16, image_base: u64, entry_rva: u32, sections: &[(u32, u32, u32, u32)]) -> Vec<u8> {
    let mut d = vec![0u8; 0x1000];
    d[0] = b'M';
    d[1] = b'Z';
    put_u32(&mut d, 0x3c, PE_OFFSET as u32);
    d[PE_OFFSET..PE_OFFSET + 4].copy_from_slice(b"PE\0\0");
    put_u16(&mut d, PE_OFFSET + 4, 0x8664);
    put_u16(&mut d, PE_OFFSET + 6, count);
    put_u16(&mut d, PE_OFFSET + 20, OPT_SIZE as u16);
    put_u16(&mut d, PE_OFFSET + 24, 0x20b);
    put_u32(&mut d, PE_OFFSET + 40, entry_rva);
    put_u64(&mut d, PE_OFFSET + 48, image_base);
    let table = PE_OFFSET + 0x18 + OPT_SIZE;
    for (i, &(rva, ptr, size, ch)) in sections.iter().enumerate() {
        let h = table + 40 * i;
        d[h..h + 5].copy_from_slice(b".sect");
        put_u32(&mut d, h + 8, size);
        put_u32(&mut d, h + 12, rva);
        put_u32(&mut d, h + 16, size);
        put_u32(&mut d, h + 20, ptr);
        put_u32(&mut d, h + 36, ch);
    }
    d
}

#[test]
fn missing_mz_is_refused() {
    let mut d = image(1, 0x1_4000_0000, 0x1000, &[]);
    d[0] = b'X';
    assert!(matches!(parse(&d), Err(Error::InvalidMZHeader)));
    assert!(matches!(parse(&[b'M']), Err(Error::InvalidMZHeader)));
}

#[test]
fn seven_sections_are_too_many() {
    let d = image(7, 0x1_4000_0000, 0x1000, &[]);
    assert!(matches!(parse(&d), Err(Error::TooManySections)));
}

#[test]
fn two_sections_with_permissions() {
    let text = (0x1000, 0x400, 0x200, 0x6000_0020);
    let data = (0x2000, 0x600, 0x100, 0xC000_0040);
    let d = image(2, 0x1_4000_0000, 0x1000, &[text, data]);
    let p = parse(&d).unwrap();
    let s0 = p.sections[0].unwrap();
    let s1 = p.sections[1].unwrap();
    assert!(p.sections[2..].iter().all(|s| s.is_none()));
    assert_eq!(s0.virt_rva, 0x1000);
    assert_eq!((s0.data_start, s0.data_end), (0x400, 0x600));
    assert_eq!(s0.perms, SectionPermissions { executable: true, readable: true, writable: false });
    assert_eq!(s1.virt_rva, 0x2000);
    assert_eq!((s1.data_start, s1.data_end), (0x600, 0x700));
    assert_eq!(s1.perms, SectionPermissions { executable: false, readable: true, writable: true });
}

#[test]
fn entry_point_is_base_plus_rva() {
    let d = image(0, 0x1_4000_0000, 0x1000, &[]);
    let p = parse(&d).unwrap();
    assert_eq!(p.image_base, 0x1_4000_0000);
    assert_eq!(p.entry_point, 0x1_4000_1000);
}

#[test]
fn bad_pe_signature_and_truncation() {
    let mut d = image(1, 0, 0, &[(0x1000, 0x400, 0x10, 0x20)]);
    d[PE_OFFSET + 1] = b'X';
    assert!(matches!(parse(&d), Err(Error::InvalidPEHeader)));
    let mut short = image(1, 0, 0, &[]);
    short.truncate(0x42);
    short[0x3c..0x40].copy_from_slice(&0x40u32.to_le_bytes());
    short[0x40] = b'X';
    short[0x41] = b'E';
    assert!(matches!(parse(&short), Err(Error::InvalidPEHeader)));
    short[0x40] = b'P';
    assert!(matches!(parse(&short), Err(Error::Truncated)));
    let d = image(1, 0, 0, &[(0x1000, 0xff0, 0x100, 0x20)]);
    assert!(matches!(parse(&d), Err(Error::Truncated)));
    let d = image(1, 0, 0, &[]);
    assert!(matches!(parse(&d[..0x90]), Err(Error::Truncated)));
}

#[test]
fn section_flags() {
    let s = Section { virt_size: 0, virt_addr: 0, raw_data_size: 0, raw_data_ptr: 0, characteristics: 0xA000_0020 };
    assert!(s.is_executable());
    assert!(!s.is_readable());
    assert!(s.is_writable());
    assert_eq!(s.permissions(), SectionPermissions { executable: true, readable: false, writable: true });
}
