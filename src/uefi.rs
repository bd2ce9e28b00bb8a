//! Plain data exchanged with the platform firmware: failures of its services,
//! processor counts and processor information.
use vstd::prelude::*;

verus! {

/// A firmware service that failed, one kind per call site.
#[derive(Debug, Copy, Clone, PartialEq, Eq, Structural)]
pub enum Error {
    /// The firmware system table has not been recorded yet.
    SystemTableNotFound,
    /// The memory map could not be read.
    GetMemoryMapFailed,
    /// The firmware's memory descriptors have another size than [`crate::boot::MemoryDescriptor`].
    MemoryDescriptorSizeMismatch,
    /// Leaving the boot services failed.
    ExitBootServicesFailed,
    /// A protocol could not be located.
    LocateProtocolFailed,
    /// A protocol was located at the null address.
    LocateProtocolNullAddress,
    /// The processors could not be counted.
    GetNumberOfProcessorsFailed,
    /// An application processor could not be started.
    StartupThisApFailed,
    /// The application processors could not be started together.
    StartupAllAPsFailed,
    /// A processor could not be disabled.
    DisableCoreFailed,
    /// A processor's information could not be read.
    GetProcessorInfoFailed,
    /// Writing to the serial port failed.
    SerialWriteFailed,
    /// The TFTP client could not be configured.
    TftpConfigureFailed,
    /// The kernel image could not be fetched.
    TftpReadFileFailed,
}

/// Number of logical processors.
#[derive(Debug, Copy, Clone, PartialEq, Eq, Structural)]
pub struct ProcessorCount {
    /// All logical processors.
    pub total: usize,
    /// The enabled ones.
    pub enabled: usize,
}

/// Where a processor sits.
#[derive(Debug, Copy, Clone, PartialEq, Eq, Structural)]
pub struct CpuPhysicalLocation {
    /// Package number.
    pub package: u32,
    /// Core number inside the package.
    pub core: u32,
    /// Thread number inside the core.
    pub thread: u32,
}

/// What the firmware reports about one processor.
#[derive(Debug, Copy, Clone, PartialEq, Eq, Structural)]
pub struct ProcessorInformation {
    /// The processor's APIC ID.
    pub proc_id: u64,
    /// Bit 0: bootstrap processor; bit 1: enabled; bit 2: healthy.
    pub status_flag: u32,
    /// Where the processor sits.
    pub location: CpuPhysicalLocation,
}

impl ProcessorInformation {
    /// Whether this is the bootstrap processor.
    pub fn _is_bsp(&self) -> (r: bool)
        ensures
            r == (self.status_flag & 1 != 0),
    {
        self.status_flag & 1 != 0
    }

    /// Whether the processor is enabled.
    pub fn _is_enabled(&self) -> (r: bool)
        ensures
            r == (self.status_flag & 2 != 0),
    {
        self.status_flag & 2 != 0
    }

    /// Whether the processor passed its self test.
    pub fn _is_healthy(&self) -> (r: bool)
        ensures
            r == (self.status_flag & 4 != 0),
    {
        self.status_flag & 4 != 0
    }
}

/// A 128-bit GUID naming a firmware protocol or table.
#[derive(Debug, Copy, Clone, PartialEq, Eq)]
pub struct Guid(pub u32, pub u16, pub u16, pub [u8; 8]);

/// Code units sent to the console in one call, before the terminating zero.
pub const OUTPUT_BUF_SIZE: usize = 128;

/// `units` with a carriage return put before each line feed.
pub open spec fn with_cr(units: Seq<u16>) -> Seq<u16>
    decreases units.len(),
{
    if units.len() == 0 {
        Seq::empty()
    } else {
        with_cr(units.drop_last()) + if units.last() == 10 {
            seq![13u16, 10u16]
        } else {
            seq![units.last()]
        }
    }
}

/// The chunks without their terminating zero.
pub open spec fn chunk_bodies(chunks: Seq<Vec<u16>>) -> Seq<Seq<u16>> {
    Seq::new(chunks.len(), |j: int| chunks[j]@.drop_last())
}

/// The UTF-16 text `units` as the firmware console takes it: a carriage return
/// before each line feed, cut into zero-terminated chunks. A chunk is cut once it
/// holds at least [`OUTPUT_BUF_SIZE`] units, so every chunk but the last holds 128
/// or 129 units (a carriage return and its line feed stay together), and the
/// last holds at least one.
pub fn console_chunks(units: &[u16]) -> (r: Vec<Vec<u16>>)
    ensures
        chunk_bodies(r@).flatten() == with_cr(units@),
        forall|j: int|
            0 <= j < r@.len() ==> 2 <= (#[trigger] r@[j])@.len() <= 130 && r@[j]@.last() == 0,
        forall|j: int| 0 <= j < r@.len() - 1 ==> (#[trigger] r@[j])@.len() >= 129,
{
    let mut out: Vec<Vec<u16>> = Vec::new();
    let mut cur: Vec<u16> = Vec::new();
    let ghost mut bodies: Seq<Seq<u16>> = Seq::empty();
    let mut i: usize = 0;
    while i < units.len()
        invariant
            i <= units@.len(),
            out@.len() == bodies.len(),
            forall|j: int| 0 <= j < out@.len() ==> (#[trigger] out@[j])@ == bodies[j].push(0),
            forall|j: int| 0 <= j < bodies.len() ==> 128 <= (#[trigger] bodies[j]).len() <= 129,
            cur@.len() < 128,
            bodies.flatten() + cur@ == with_cr(units@.subrange(0, i as int)),
        decreases units@.len() - i,
    {
        let unit = units[i];
        let ghost before = cur@;
        if unit == 10 {
            cur.push(13);
        }
        cur.push(unit);
        assert(units@.subrange(0, i + 1).drop_last() =~= units@.subrange(0, i as int));
        assert(cur@ =~= before + if unit == 10 {
            seq![13u16, 10u16]
        } else {
            seq![unit]
        });
        if cur.len() >= OUTPUT_BUF_SIZE {
            let ghost body = cur@;
            cur.push(0);
            proof {
                Seq::lemma_flatten_push(bodies, body);
                bodies = bodies.push(body);
            }
            out.push(cur);
            cur = Vec::new();
            assert(bodies.flatten() + cur@ =~= bodies.flatten());
        }
        i += 1;
    }
    if cur.len() > 0 {
        let ghost body = cur@;
        cur.push(0);
        proof {
            Seq::lemma_flatten_push(bodies, body);
            bodies = bodies.push(body);
        }
        out.push(cur);
    } else {
        assert(bodies.flatten() + cur@ =~= bodies.flatten());
    }
    assert(units@.subrange(0, units@.len() as int) =~= units@);
    assert(chunk_bodies(out@) =~= bodies) by {
        assert forall|j: int| 0 <= j < bodies.len() implies chunk_bodies(out@)[j] == bodies[j] by {
            assert(out@[j]@.drop_last() =~= bodies[j]);
        }
    }
    out
}

} // verus!
