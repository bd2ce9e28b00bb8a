//! A minimal reader for PE images: the image base, the entry point and the
//! section table with each section's bytes, address and permissions.
use vstd::prelude::*;

verus! {

/// Number of sections a [`Parsed`] image can hold.
pub const NUM_SECTIONS: usize = 6;

/// Errors raised while reading an image.
#[derive(Copy, Clone, Debug, PartialEq, Eq, Structural)]
pub enum Error {
    /// The image does not start with `MZ`.
    InvalidMZHeader,
    /// The header named by the `MZ` header does not start with `PE\0\0`.
    InvalidPEHeader,
    /// The image has more sections than a [`Parsed`] can hold.
    TooManySections,
    /// A header or a section's bytes run past the end of the image.
    Truncated,
}

/// Target architecture of an image.
#[derive(Copy, Clone, Debug, PartialEq, Eq, Structural)]
pub enum Machine {
    I386,
    Ia4,
    Amd64,
}

impl Machine {
    /// The machine's code in the PE header.
    pub fn code(self) -> (r: u16)
        ensures
            r == match self {
                Machine::I386 => 0x014cu16,
                Machine::Ia4 => 0x0200u16,
                Machine::Amd64 => 0x8664u16,
            },
    {
        match self {
            Machine::I386 => 0x014c,
            Machine::Ia4 => 0x0200,
            Machine::Amd64 => 0x8664,
        }
    }
}

/// Kind of optional header.
#[derive(Copy, Clone, Debug, PartialEq, Eq, Structural)]
pub enum Magic {
    Hdr32,
    Hdr64,
    RomHdr,
}

impl Magic {
    /// The magic number in the optional header.
    pub fn code(self) -> (r: u16)
        ensures
            r == match self {
                Magic::Hdr32 => 0x10bu16,
                Magic::Hdr64 => 0x20bu16,
                Magic::RomHdr => 0x107u16,
            },
    {
        match self {
            Magic::Hdr32 => 0x10b,
            Magic::Hdr64 => 0x20b,
            Magic::RomHdr => 0x107,
        }
    }
}

/// Section characteristics this reader uses.
#[derive(Copy, Clone, Debug, PartialEq, Eq, Structural)]
pub enum Characteristics {
    /// The section holds code.
    Code,
    /// The section can be read.
    MemRead,
    /// The section can be written.
    MemWrite,
}

impl Characteristics {
    /// The flag's bit.
    pub open spec fn spec_bit(self) -> u32 {
        match self {
            Characteristics::Code => 0x20,
            Characteristics::MemRead => 0x4000_0000,
            Characteristics::MemWrite => 0x8000_0000,
        }
    }

    /// The flag's bit.
    pub fn bit(self) -> (r: u32)
        ensures
            r == self.spec_bit(),
    {
        match self {
            Characteristics::Code => 0x20,
            Characteristics::MemRead => 0x4000_0000,
            Characteristics::MemWrite => 0x8000_0000,
        }
    }
}

/// Permissions of a section.
#[derive(Debug, Copy, Clone, PartialEq, Eq, Structural)]
pub struct SectionPermissions {
    /// The section holds code.
    pub executable: bool,
    /// The section can be read.
    pub readable: bool,
    /// The section can be written.
    pub writable: bool,
}

/// Permissions carried by the characteristics word `ch`.
pub open spec fn permissions_of(ch: u32) -> SectionPermissions {
    SectionPermissions {
        executable: ch & 0x20 != 0,
        readable: ch & 0x4000_0000 != 0,
        writable: ch & 0x8000_0000 != 0,
    }
}

/// Little-endian 16-bit value at `off`.
pub open spec fn le_u16(d: Seq<u8>, off: int) -> int {
    d[off] + d[off + 1] * 0x100
}

/// Little-endian 32-bit value at `off`.
pub open spec fn le_u32(d: Seq<u8>, off: int) -> int {
    le_u16(d, off) + le_u16(d, off + 2) * 0x1_0000
}

/// Little-endian 64-bit value at `off`.
pub open spec fn le_u64(d: Seq<u8>, off: int) -> int {
    le_u32(d, off) + le_u32(d, off + 4) * 0x1_0000_0000
}

pub(crate) fn read_u16(d: &[u8], off: usize) -> (r: u16)
    requires
        off + 2 <= d@.len(),
    ensures
        r == le_u16(d@, off as int),
{
    let _n = d.len();
    d[off] as u16 + (d[off + 1] as u16) * 0x100
}

pub(crate) fn read_u32(d: &[u8], off: usize) -> (r: u32)
    requires
        off + 4 <= d@.len(),
    ensures
        r == le_u32(d@, off as int),
{
    let _n = d.len();
    read_u16(d, off) as u32 + (read_u16(d, off + 2) as u32) * 0x1_0000
}

pub(crate) fn read_u64(d: &[u8], off: usize) -> (r: u64)
    requires
        off + 8 <= d@.len(),
    ensures
        r == le_u64(d@, off as int),
{
    let _n = d.len();
    read_u32(d, off) as u64 + (read_u32(d, off + 4) as u64) * 0x1_0000_0000
}

/// One entry of the section table.
#[derive(Debug, Copy, Clone, PartialEq, Eq, Structural)]
pub struct Section {
    /// Size of the section once loaded.
    pub virt_size: u32,
    /// Address of the section relative to the image base.
    pub virt_addr: u32,
    /// Size of the section's bytes in the file.
    pub raw_data_size: u32,
    /// Offset of the section's bytes in the file.
    pub raw_data_ptr: u32,
    /// Characteristics flags.
    pub characteristics: u32,
}

/// The section header at `off`.
pub open spec fn section_at(d: Seq<u8>, off: int) -> Section {
    Section {
        virt_size: le_u32(d, off + 8) as u32,
        virt_addr: le_u32(d, off + 12) as u32,
        raw_data_size: le_u32(d, off + 16) as u32,
        raw_data_ptr: le_u32(d, off + 20) as u32,
        characteristics: le_u32(d, off + 36) as u32,
    }
}

impl Section {
    /// Read the 40-byte section header at `off`.
    pub fn from_bytes(d: &[u8], off: usize) -> (r: Section)
        requires
            off + 40 <= d@.len(),
        ensures
            r == section_at(d@, off as int),
    {
        let _n = d.len();
        Section {
            virt_size: read_u32(d, off + 8),
            virt_addr: read_u32(d, off + 12),
            raw_data_size: read_u32(d, off + 16),
            raw_data_ptr: read_u32(d, off + 20),
            characteristics: read_u32(d, off + 36),
        }
    }

    /// Whether the section holds code.
    pub fn is_executable(&self) -> (r: bool)
        ensures
            r == (self.characteristics & 0x20 != 0),
    {
        self.characteristics & Characteristics::Code.bit() != 0
    }

    /// Whether the section can be read.
    pub fn is_readable(&self) -> (r: bool)
        ensures
            r == (self.characteristics & 0x4000_0000 != 0),
    {
        self.characteristics & Characteristics::MemRead.bit() != 0
    }

    /// Whether the section can be written.
    pub fn is_writable(&self) -> (r: bool)
        ensures
            r == (self.characteristics & 0x8000_0000 != 0),
    {
        self.characteristics & Characteristics::MemWrite.bit() != 0
    }

    /// The section's permissions.
    pub fn permissions(&self) -> (r: SectionPermissions)
        ensures
            r == permissions_of(self.characteristics),
    {
        SectionPermissions {
            executable: self.is_executable(),
            readable: self.is_readable(),
            writable: self.is_writable(),
        }
    }
}

/// A section of a parsed image: its bytes are `image[data_start..data_end]`.
#[derive(Debug, Copy, Clone, PartialEq, Eq, Structural)]
pub struct ParsedSection {
    /// Offset of the first byte in the image.
    pub data_start: usize,
    /// Offset one past the last byte in the image.
    pub data_end: usize,
    /// Address of the section relative to the image base.
    pub virt_rva: u32,
    /// Permissions of the section.
    pub perms: SectionPermissions,
}

/// What parsing an image yields.
#[derive(Debug, Copy, Clone)]
pub struct Parsed {
    /// The sections in table order; slots past the section count are empty.
    pub sections: [Option<ParsedSection>; 6],
    /// Address the image asks to be loaded at.
    pub image_base: u64,
    /// Address of the entry point.
    pub entry_point: u64,
}

/// Offset of the PE header.
pub open spec fn pe_offset(d: Seq<u8>) -> int {
    le_u32(d, 0x3c)
}

/// Number of sections.
pub open spec fn section_count(d: Seq<u8>) -> int {
    le_u16(d, pe_offset(d) + 6)
}

/// Offset of the section header `i`.
pub open spec fn section_header(d: Seq<u8>, i: int) -> int {
    pe_offset(d) + 0x18 + le_u16(d, pe_offset(d) + 20) + 40 * i
}

/// A byte of `PE\0\0` that lies inside `d` at offset `pe` differs.
pub open spec fn pe_signature_differs(d: Seq<u8>, pe: int) -> bool {
    ||| (pe < d.len() && d[pe] != 0x50)
    ||| (pe + 1 < d.len() && d[pe + 1] != 0x45)
    ||| (pe + 2 < d.len() && d[pe + 2] != 0)
    ||| (pe + 3 < d.len() && d[pe + 3] != 0)
}

/// The first error that the headers of `d` hold, if any: the signature bytes that
/// are present are checked before the header's length is.
pub open spec fn header_error(d: Seq<u8>) -> Option<Error> {
    let pe = pe_offset(d);
    if d.len() < 2 || d[0] != 0x4d || d[1] != 0x5a {
        Some(Error::InvalidMZHeader)
    } else if d.len() < 0x40 {
        Some(Error::Truncated)
    } else if pe_signature_differs(d, pe) {
        Some(Error::InvalidPEHeader)
    } else if pe + 56 > d.len() {
        Some(Error::Truncated)
    } else if section_count(d) > 6 {
        Some(Error::TooManySections)
    } else if section_header(d, section_count(d)) > d.len() {
        Some(Error::Truncated)
    } else {
        None
    }
}

/// The bytes of section `i` run past the end of `d`.
pub open spec fn section_out_of_bounds(d: Seq<u8>, i: int) -> bool {
    le_u32(d, section_header(d, i) + 20) + le_u32(d, section_header(d, i) + 16) > d.len()
}

/// The error that reading `d` meets first, if any.
pub open spec fn parse_error(d: Seq<u8>) -> Option<Error> {
    if header_error(d) is Some {
        header_error(d)
    } else if exists|i: int| 0 <= i < section_count(d) && #[trigger] section_out_of_bounds(d, i) {
        Some(Error::Truncated)
    } else {
        None
    }
}

/// Check the headers of `data` and return the offset of the PE header, the number
/// of sections and the offset of the section table.
#[verifier::rlimit(30)]
fn read_header(data: &[u8]) -> (r: Result<(usize, usize, usize), Error>)
    ensures
        match r {
            Ok((pe, count, start)) => {
                &&& header_error(data@) is None
                &&& pe == pe_offset(data@)
                &&& pe + 56 <= data@.len()
                &&& count == section_count(data@)
                &&& count <= 6
                &&& start == section_header(data@, 0)
                &&& section_header(data@, count as int) <= data@.len()
            },
            Err(e) => header_error(data@) == Some(e),
        },
{
    let len = data.len();
    if len < 2 || data[0] != 0x4d || data[1] != 0x5a {
        return Err(Error::InvalidMZHeader);
    }
    if len < 0x40 {
        return Err(Error::Truncated);
    }
    let pe = read_u32(data, 0x3c) as usize;
    let signature: [u8; 4] = [0x50, 0x45, 0, 0];
    let mut k: usize = 0;
    while k < 4
        invariant
            k <= 4,
            len == data@.len(),
            len >= 0x40,
            data@[0] == 0x4d && data@[1] == 0x5a,
            pe == pe_offset(data@),
            signature@ == seq![0x50u8, 0x45u8, 0u8, 0u8],
            forall|j: int| 0 <= j < k && pe + j < len ==> data@[pe + j] == signature@[j],
        decreases 4 - k,
    {
        if pe < len && k < len - pe && data[pe + k] != signature[k] {
            proof {
                let d = data@;
                let p = pe as int;
                if k == 0 {
                    assert(p < d.len() && d[p] != 0x50);
                } else if k == 1 {
                    assert(p + 1 < d.len() && d[p + 1] != 0x45);
                } else if k == 2 {
                    assert(p + 2 < d.len() && d[p + 2] != 0);
                } else {
                    assert(p + 3 < d.len() && d[p + 3] != 0);
                }
                assert(pe_signature_differs(d, p));
                assert(d.len() >= 0x40);
                assert(header_error(d) == Some(Error::InvalidPEHeader));
            }
            return Err(Error::InvalidPEHeader);
        }
        k += 1;
    }
    assert(!pe_signature_differs(data@, pe as int)) by {
        assert(signature@[0] == 0x50 && signature@[1] == 0x45 && signature@[2] == 0 && signature@[3] == 0);
    }
    if pe > len || len - pe < 56 {
        return Err(Error::Truncated);
    }
    let number_of_sections = read_u16(data, pe + 6) as usize;
    if number_of_sections > NUM_SECTIONS {
        return Err(Error::TooManySections);
    }
    let opt_header_size = read_u16(data, pe + 20) as usize;
    if opt_header_size + 0x18 > len - pe {
        return Err(Error::Truncated);
    }
    let section_start = pe + 0x18 + opt_header_size;
    if len - section_start < 40 * number_of_sections {
        return Err(Error::Truncated);
    }
    Ok((pe, number_of_sections, section_start))
}

/// Read the image `data`: check the `MZ` and `PE\0\0` signatures, read the image
/// base and the entry point, and list each section's bytes, relative address and
/// permissions.
#[verifier::rlimit(30)]
pub fn parse(data: &[u8]) -> (r: Result<Parsed, Error>)
    ensures
        match r {
            Err(e) => parse_error(data@) == Some(e),
            Ok(p) => {
                let d = data@;
                let pe = pe_offset(d);
                let n = section_count(d);
                &&& parse_error(d) is None
                &&& p.image_base == le_u64(d, pe + 48)
                &&& p.entry_point == (le_u64(d, pe + 48) + le_u32(d, pe + 40)) % 0x1_0000_0000_0000_0000
                &&& forall|i: int|
                    0 <= i < 6 ==> #[trigger] p.sections@[i] == if i < n {
                        let s = section_at(d, section_header(d, i));
                        Some(
                            ParsedSection {
                                data_start: s.raw_data_ptr as usize,
                                data_end: (s.raw_data_ptr + s.raw_data_size) as usize,
                                virt_rva: s.virt_addr,
                                perms: permissions_of(s.characteristics),
                            },
                        )
                    } else {
                        None
                    }
            },
        },
{
    let len = data.len();
    let (pe, number_of_sections, section_start) = match read_header(data) {
        Ok(h) => h,
        Err(e) => {
            return Err(e);
        },
    };
    let entry_rva = read_u32(data, pe + 40);
    let image_base = read_u64(data, pe + 48);
    let mut sections: [Option<ParsedSection>; 6] = [None, None, None, None, None, None];
    let mut i: usize = 0;
    while i < number_of_sections
        invariant
            i <= number_of_sections,
            number_of_sections == section_count(data@),
            number_of_sections <= 6,
            section_start == section_header(data@, 0),
            section_header(data@, number_of_sections as int) <= len,
            len == data@.len(),
            header_error(data@) is None,
            forall|k: int| 0 <= k < i ==> !#[trigger] section_out_of_bounds(data@, k),
            forall|k: int|
                0 <= k < 6 ==> #[trigger] sections@[k] == if k < i {
                    let s = section_at(data@, section_header(data@, k));
                    Some(
                        ParsedSection {
                            data_start: s.raw_data_ptr as usize,
                            data_end: (s.raw_data_ptr + s.raw_data_size) as usize,
                            virt_rva: s.virt_addr,
                            perms: permissions_of(s.characteristics),
                        },
                    )
                } else {
                    None
                },
        decreases number_of_sections - i,
    {
        let section = Section::from_bytes(data, section_start + 40 * i);
        let start = section.raw_data_ptr as usize;
        let size = section.raw_data_size as usize;
        if start > len || len - start < size {
            assert(section_out_of_bounds(data@, i as int));
            return Err(Error::Truncated);
        }
        sections[i] = Some(
            ParsedSection {
                data_start: start,
                data_end: start + size,
                virt_rva: section.virt_addr,
                perms: section.permissions(),
            },
        );
        i += 1;
    }
    Ok(Parsed { sections, image_base, entry_point: image_base.wrapping_add(entry_rva as u64) })
}

} // verus!
