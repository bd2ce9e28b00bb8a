//! Readers for the ACPI tables that enumerate the processors: the root pointer,
//! the extended system description table and the multiple APIC description
//! table, each read from its bytes.
use vstd::prelude::*;

use crate::pe::{le_u32, le_u64, read_u32, read_u64};
use crate::stackvec::{StackVec, StackVecError};

verus! {

/// Most processors the APIC enumeration records.
pub const MAX_NUM_CPUS: usize = 48;

/// Size of the header shared by every description table.
pub const DESCRIPTION_TABLE_SIZE: usize = 36;

/// Size of the root system description pointer.
pub const RSDP_SIZE: usize = 36;

/// Errors raised while reading ACPI tables.
#[derive(Debug, Copy, Clone, PartialEq, Eq, Structural)]
pub enum Error {
    /// The bytes of a table do not add up to zero.
    InvalidChecksum,
    /// The root pointer does not start with `RSD PTR `.
    InvalidRsdpSignature,
    /// The root pointer's revision is below 2.
    InvalidRsdpRevision,
    /// The root pointer's length is not 36.
    InvalidRsdpLength,
    /// The extended table does not carry the `XSDT` signature.
    InvalidXsdtSignature,
    /// The extended table's payload is not a whole number of 64-bit entries.
    MisalignedData,
    /// A table runs past the bytes given.
    Truncated,
}

/// Signatures of the description tables.
#[derive(Debug, Copy, Clone, PartialEq, Eq)]
pub enum TableSignature {
    Rsdp,
    Xsdt,
    Facp,
    Madt,
    Hpet,
    Bgrt,
    Dbg2,
    Gtdt,
    Mcfg,
    Spcr,
    Ssdt,
    Pptt,
    /// Any other signature, kept as its four bytes.
    Unknown([u8; 4]),
}

/// The four bytes spell `a b c d`.
pub open spec fn spells(s: Seq<u8>, a: u8, b: u8, c: u8, d: u8) -> bool {
    s[0] == a && s[1] == b && s[2] == c && s[3] == d
}

/// The table named by the four signature bytes `s`.
pub open spec fn signature_of(s: Seq<u8>) -> Option<TableSignature> {
    if spells(s, 0x58, 0x53, 0x44, 0x54) {
        Some(TableSignature::Xsdt)
    } else if spells(s, 0x46, 0x41, 0x43, 0x50) {
        Some(TableSignature::Facp)
    } else if spells(s, 0x41, 0x50, 0x49, 0x43) {
        Some(TableSignature::Madt)
    } else if spells(s, 0x48, 0x50, 0x45, 0x54) {
        Some(TableSignature::Hpet)
    } else if spells(s, 0x42, 0x47, 0x52, 0x54) {
        Some(TableSignature::Bgrt)
    } else if spells(s, 0x44, 0x42, 0x47, 0x32) {
        Some(TableSignature::Dbg2)
    } else if spells(s, 0x47, 0x54, 0x44, 0x54) {
        Some(TableSignature::Gtdt)
    } else if spells(s, 0x4d, 0x43, 0x46, 0x47) {
        Some(TableSignature::Mcfg)
    } else if spells(s, 0x53, 0x50, 0x43, 0x52) {
        Some(TableSignature::Spcr)
    } else if spells(s, 0x53, 0x53, 0x44, 0x54) {
        Some(TableSignature::Ssdt)
    } else if spells(s, 0x50, 0x50, 0x54, 0x54) {
        Some(TableSignature::Pptt)
    } else {
        None
    }
}

fn is(s: &[u8; 4], a: u8, b: u8, c: u8, d: u8) -> (r: bool)
    ensures
        r == spells(s@, a, b, c, d),
{
    s[0] == a && s[1] == b && s[2] == c && s[3] == d
}

impl TableSignature {
    /// The table named by the signature bytes `sig`.
    pub fn from_bytes(sig: [u8; 4]) -> (r: TableSignature)
        ensures
            r == match signature_of(sig@) {
                Some(t) => t,
                None => TableSignature::Unknown(sig),
            },
    {
        if is(&sig, 0x58, 0x53, 0x44, 0x54) {
            TableSignature::Xsdt
        } else if is(&sig, 0x46, 0x41, 0x43, 0x50) {
            TableSignature::Facp
        } else if is(&sig, 0x41, 0x50, 0x49, 0x43) {
            TableSignature::Madt
        } else if is(&sig, 0x48, 0x50, 0x45, 0x54) {
            TableSignature::Hpet
        } else if is(&sig, 0x42, 0x47, 0x52, 0x54) {
            TableSignature::Bgrt
        } else if is(&sig, 0x44, 0x42, 0x47, 0x32) {
            TableSignature::Dbg2
        } else if is(&sig, 0x47, 0x54, 0x44, 0x54) {
            TableSignature::Gtdt
        } else if is(&sig, 0x4d, 0x43, 0x46, 0x47) {
            TableSignature::Mcfg
        } else if is(&sig, 0x53, 0x50, 0x43, 0x52) {
            TableSignature::Spcr
        } else if is(&sig, 0x53, 0x53, 0x44, 0x54) {
            TableSignature::Ssdt
        } else if is(&sig, 0x50, 0x50, 0x54, 0x54) {
            TableSignature::Pptt
        } else {
            TableSignature::Unknown(sig)
        }
    }
}

impl From<[u8; 4]> for TableSignature {
    fn from(sig: [u8; 4]) -> (r: TableSignature) {
        TableSignature::from_bytes(sig)
    }
}

impl vstd::std_specs::convert::FromSpecImpl<[u8; 4]> for TableSignature {
    open spec fn obeys_from_spec() -> bool {
        true
    }

    open spec fn from_spec(sig: [u8; 4]) -> TableSignature {
        match signature_of(sig@) {
            Some(t) => t,
            None => TableSignature::Unknown(sig),
        }
    }
}

/// Sum of the first `n` bytes of `d`.
pub open spec fn byte_sum(d: Seq<u8>, n: int) -> int
    decreases n,
{
    if n <= 0 {
        0
    } else {
        byte_sum(d, n - 1) + d[n - 1]
    }
}

/// Check that the first `length` bytes of `data` add up to zero modulo 256.
pub fn checksum(data: &[u8], length: usize) -> (r: Result<(), Error>)
    requires
        length <= data@.len(),
    ensures
        r is Ok <==> byte_sum(data@, length as int) % 256 == 0,
        r is Err ==> r == Err::<(), Error>(Error::InvalidChecksum),
{
    let mut acc: u8 = 0;
    let mut i: usize = 0;
    while i < length
        invariant
            i <= length,
            length <= data@.len(),
            acc == byte_sum(data@, i as int) % 256,
        decreases length - i,
    {
        acc = acc.wrapping_add(data[i]);
        i += 1;
    }
    if acc == 0 {
        Ok(())
    } else {
        Err(Error::InvalidChecksum)
    }
}

/// The header shared by every description table.
#[derive(Debug, Copy, Clone, PartialEq, Eq)]
pub struct DescriptionTable {
    /// Four-byte signature naming the table.
    pub signature: [u8; 4],
    /// Length of the whole table, header included.
    pub length: u32,
    /// Revision of the table's layout.
    pub revision: u8,
    /// Byte that makes the table add up to zero.
    pub checksum: u8,
    /// Revision of the table given by its maker.
    pub oem_revision: u32,
    /// Vendor of the tool that built the table.
    pub creator_id: u32,
    /// Revision of that tool.
    pub creator_revision: u32,
}

impl DescriptionTable {
    /// Read the table at the start of `data`: its header, and the offset and
    /// length of the payload that follows the header.
    pub fn from_bytes(data: &[u8]) -> (r: Result<(DescriptionTable, usize, usize), Error>)
        ensures
            match r {
                Ok((t, start, len)) => {
                    &&& data@.len() >= 36
                    &&& t.signature@ == data@.subrange(0, 4)
                    &&& t.length == le_u32(data@, 4)
                    &&& 36 <= t.length <= data@.len()
                    &&& byte_sum(data@, t.length as int) % 256 == 0
                    &&& start == 36
                    &&& len == t.length - 36
                },
                Err(e) => if data@.len() < 36 || le_u32(data@, 4) < 36 || le_u32(data@, 4)
                    > data@.len() {
                    e == Error::Truncated
                } else {
                    e == Error::InvalidChecksum && byte_sum(data@, le_u32(data@, 4)) % 256 != 0
                },
            },
    {
        let n = data.len();
        if n < DESCRIPTION_TABLE_SIZE {
            return Err(Error::Truncated);
        }
        let length = read_u32(data, 4);
        if (length as usize) < DESCRIPTION_TABLE_SIZE || length as usize > n {
            return Err(Error::Truncated);
        }
        match checksum(data, length as usize) {
            Ok(()) => {},
            Err(e) => {
                return Err(e);
            },
        }
        let signature = [data[0], data[1], data[2], data[3]];
        assert(signature@ =~= data@.subrange(0, 4));
        let table = DescriptionTable {
            signature,
            length,
            revision: data[8],
            checksum: data[9],
            oem_revision: read_u32(data, 24),
            creator_id: read_u32(data, 28),
            creator_revision: read_u32(data, 32),
        };
        Ok((table, DESCRIPTION_TABLE_SIZE, length as usize - DESCRIPTION_TABLE_SIZE))
    }

    /// The table named by the header's signature.
    pub fn signature(&self) -> (r: TableSignature)
        ensures
            r == match signature_of(self.signature@) {
                Some(t) => t,
                None => TableSignature::Unknown(self.signature),
            },
    {
        TableSignature::from_bytes(self.signature)
    }
}

/// The root system description pointer.
#[derive(Debug, Copy, Clone, PartialEq, Eq, Structural)]
pub struct Rsdp {
    /// Revision of the structure.
    pub revision: u8,
    /// Physical address of the root description table.
    pub rsdt_address: u32,
    /// Length of the structure.
    pub length: u32,
    /// Physical address of the extended description table.
    pub xsdt_address: u64,
}

/// The first eight bytes spell `RSD PTR `.
pub open spec fn rsdp_signed(d: Seq<u8>) -> bool {
    d[0] == 0x52 && d[1] == 0x53 && d[2] == 0x44 && d[3] == 0x20 && d[4] == 0x50 && d[5] == 0x54
        && d[6] == 0x52 && d[7] == 0x20
}

impl Rsdp {
    /// Read and check the root pointer at the start of `data`.
    pub fn from_bytes(data: &[u8]) -> (r: Result<Rsdp, Error>)
        ensures
            match r {
                Ok(p) => {
                    &&& data@.len() >= 36
                    &&& rsdp_signed(data@)
                    &&& p.revision == data@[15] && p.revision >= 2
                    &&& p.length == 36 && le_u32(data@, 20) == 36
                    &&& byte_sum(data@, 36) % 256 == 0
                    &&& p.rsdt_address == le_u32(data@, 16)
                    &&& p.xsdt_address == le_u64(data@, 24)
                },
                Err(e) => if data@.len() < 36 {
                    e == Error::Truncated
                } else if !rsdp_signed(data@) {
                    e == Error::InvalidRsdpSignature
                } else if data@[15] < 2 {
                    e == Error::InvalidRsdpRevision
                } else if le_u32(data@, 20) != 36 {
                    e == Error::InvalidRsdpLength
                } else {
                    e == Error::InvalidChecksum
                },
            },
    {
        if data.len() < RSDP_SIZE {
            return Err(Error::Truncated);
        }
        if !(data[0] == 0x52 && data[1] == 0x53 && data[2] == 0x44 && data[3] == 0x20 && data[4]
            == 0x50 && data[5] == 0x54 && data[6] == 0x52 && data[7] == 0x20) {
            return Err(Error::InvalidRsdpSignature);
        }
        let revision = data[15];
        if revision < 2 {
            return Err(Error::InvalidRsdpRevision);
        }
        let length = read_u32(data, 20);
        if length != 36 {
            return Err(Error::InvalidRsdpLength);
        }
        match checksum(data, RSDP_SIZE) {
            Ok(()) => {},
            Err(e) => {
                return Err(e);
            },
        }
        Ok(
            Rsdp {
                revision,
                rsdt_address: read_u32(data, 16),
                length,
                xsdt_address: read_u64(data, 24),
            },
        )
    }
}

/// The physical addresses listed by the payload of the extended description
/// table: little-endian 64-bit entries.
pub fn xsdt_entries(payload: &[u8]) -> (r: Result<Vec<u64>, Error>)
    ensures
        match r {
            Ok(v) => payload@.len() % 8 == 0 && v@.len() == payload@.len() / 8 && forall|k: int|
                0 <= k < v@.len() ==> #[trigger] v@[k] == le_u64(payload@, 8 * k),
            Err(e) => e == Error::MisalignedData && payload@.len() % 8 != 0,
        },
{
    let n = payload.len();
    if n % 8 != 0 {
        return Err(Error::MisalignedData);
    }
    let count = n / 8;
    let mut out: Vec<u64> = Vec::new();
    let mut k: usize = 0;
    while k < count
        invariant
            k <= count,
            count == n / 8,
            n == payload@.len(),
            out@.len() == k,
            forall|j: int| 0 <= j < k ==> #[trigger] out@[j] == le_u64(payload@, 8 * j),
        decreases count - k,
    {
        out.push(read_u64(payload, 8 * k));
        k += 1;
    }
    Ok(out)
}

/// A processor's local APIC entry of the MADT.
#[derive(Debug, Copy, Clone, PartialEq, Eq, Structural)]
pub struct LocalApic {
    /// Processor ID used by ACPI.
    pub acpi_processor_uid: u8,
    /// The processor's local APIC ID.
    pub apic_id: u8,
    /// Bit 0: the processor is enabled.
    pub flags: u32,
}

impl LocalApic {
    /// Whether the processor is enabled.
    pub fn enabled(&self) -> (r: bool)
        ensures
            r == (self.flags & 1 == 1),
    {
        self.flags & 1 == 1
    }
}

/// Flags of a GIC CPU interface entry.
#[derive(Debug, Copy, Clone, PartialEq, Eq, Structural)]
pub struct GicCpuInterfaceFlags(pub u32);

impl GicCpuInterfaceFlags {
    /// Whether the interface is enabled.
    pub fn _enabled(self) -> (r: bool)
        ensures
            r == (self.0 & 1 == 1),
    {
        self.0 & 1 == 1
    }
}

/// The APIC IDs of the enabled processors listed by MADT entries from offset
/// `off` of the payload `d`. Each entry starts with its type and its length; the
/// walk stops at an entry of length zero or one that runs past the payload.
pub open spec fn madt_ids(d: Seq<u8>, off: int) -> Seq<u32>
    decreases d.len() - off,
{
    if off < 0 || off + 2 > d.len() || d[off + 1] == 0 || off + d[off + 1] > d.len() {
        Seq::empty()
    } else {
        let here = if d[off] == 0 && d[off + 1] == 8 && le_u32(d, off + 4) % 2 == 1 {
            seq![d[off + 3] as u32]
        } else {
            Seq::empty()
        };
        here + madt_ids(d, off + d[off + 1])
    }
}

/// The MADT, read from its payload.
pub struct Madt;

impl Madt {
    /// The APIC IDs of the enabled processors that the MADT payload `payload`
    /// lists, in order; `Full` when there are more than [`MAX_NUM_CPUS`].
    #[verifier::rlimit(30)]
    pub fn apic_ids(payload: &[u8]) -> (r: Result<StackVec<u32, 48>, StackVecError>)
        ensures
            match r {
                Ok(v) => v.wf() && v.values() == madt_ids(payload@, 8),
                Err(e) => madt_ids(payload@, 8).len() > MAX_NUM_CPUS,
            },
    {
        let n = payload.len();
        let mut apics: StackVec<u32, 48> = StackVec::new();
        let mut off: usize = 8;
        while off < n && n - off >= 2 && payload[off + 1] != 0 && (payload[off + 1] as usize) <= n
            - off
            invariant
                n == payload@.len(),
                apics.wf(),
                apics.values() + madt_ids(payload@, off as int) == madt_ids(payload@, 8),
            decreases n - off,
        {
            let kind = payload[off];
            let length = payload[off + 1];
            let ghost rest = madt_ids(payload@, off + length);
            if kind == 0 && length == 8 {
                let flags = read_u32(payload, off + 4);
                assert(flags & 1 == 1 <==> flags % 2 == 1) by (bit_vector);
                let entry = LocalApic {
                    acpi_processor_uid: payload[off + 2],
                    apic_id: payload[off + 3],
                    flags,
                };
                if entry.enabled() {
                    let ghost before = apics.values();
                    match apics.push(entry.apic_id as u32) {
                        Ok(()) => {
                            assert(apics.values() + rest =~= before + madt_ids(payload@, off as int));
                        },
                        Err(e) => {
                            return Err(e);
                        },
                    }
                } else {
                    assert(apics.values() + rest =~= apics.values() + madt_ids(payload@, off as int));
                }
            } else {
                assert(apics.values() + rest =~= apics.values() + madt_ids(payload@, off as int));
            }
            off = off + length as usize;
        }
        assert(madt_ids(payload@, off as int) =~= Seq::<u32>::empty());
        assert(apics.values() =~= madt_ids(payload@, 8));
        Ok(apics)
    }
}

} // verus!
