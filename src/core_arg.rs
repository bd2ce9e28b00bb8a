//! The block handed to each application processor when it starts.
use vstd::prelude::*;

use crate::errchain::NumericalError;
use crate::global_types::PhysAddr;
use crate::rangeset::{InclusiveRange, RangeSet, RangeSetError, block};

verus! {

/// Counters an application processor records.
#[derive(Copy, Clone, Debug, PartialEq, Eq, Structural)]
pub struct Stats {
    /// Time counter value stamped when the processor entered the kernel.
    pub start_time: usize,
}

impl Stats {
    /// Zeroed counters.
    pub fn new() -> (r: Self)
        ensures
            r.start_time == 0,
    {
        Self { start_time: 0 }
    }
}

/// Errors raised while filling a [`CoreArg`].
#[derive(Copy, Clone, Debug, PartialEq, Eq, Structural)]
pub enum CoreArgError {
    /// The memory bounds do not fit in 64 bits.
    Numerical(NumericalError),
    /// The memory could not be recorded.
    RangeSet(RangeSetError),
}

/// What one application processor receives: its ID, its private memory, where
/// its alive flag lives, its page table and its counters.
#[derive(Clone, Copy)]
pub struct CoreArg {
    /// ID of the processor.
    pub core: Option<usize>,
    /// Physical memory the processor owns.
    pub memory: RangeSet,
    /// Physical address of the processor's alive flag.
    pub alive_address: Option<u64>,
    /// Physical address of the processor's page-table root.
    pub page_table: PhysAddr,
    /// The processor's counters.
    pub stats: Stats,
}

impl CoreArg {
    /// An empty block.
    pub fn new() -> (r: Self)
        ensures
            r.core is None,
            r.memory.wf(),
            r.memory.addresses() == Set::<int>::empty(),
            r.alive_address is None,
            r.page_table == PhysAddr(0),
            r.stats.start_time == 0,
    {
        CoreArg {
            core: None,
            memory: RangeSet::new(),
            alive_address: None,
            page_table: PhysAddr(0),
            stats: Stats::new(),
        }
    }

    /// Forget the processor ID and its memory.
    pub fn reset(&mut self)
        ensures
            final(self).core is None,
            final(self).memory.wf(),
            final(self).memory.length == 0,
            final(self).memory.addresses() == Set::<int>::empty(),
            final(self).alive_address == old(self).alive_address,
            final(self).page_table == old(self).page_table,
            final(self).stats == old(self).stats,
    {
        self.core = None;
        self.memory.clear();
    }

    /// Record the processor ID.
    pub fn set_core(&mut self, core: usize)
        ensures
            *final(self) == (CoreArg { core: Some(core), ..*old(self) }),
    {
        self.core = Some(core);
    }

    /// Record where the alive flag lives.
    pub fn set_alive_address(&mut self, addr: u64)
        ensures
            *final(self) == (CoreArg { alive_address: Some(addr), ..*old(self) }),
    {
        self.alive_address = Some(addr);
    }

    /// Give the processor the `memory_size` bytes starting at `memory_start`.
    pub fn insert_memory(&mut self, memory_start: u64, memory_size: u64) -> (r: Result<
        (),
        CoreArgError,
    >)
        requires
            old(self).memory.wf(),
        ensures
            final(self).memory.wf(),
            final(self).core == old(self).core,
            final(self).alive_address == old(self).alive_address,
            final(self).page_table == old(self).page_table,
            final(self).stats == old(self).stats,
            match r {
                Ok(()) => memory_size > 0 && memory_start + memory_size - 1 <= u64::MAX
                    && (old(self).memory.length < crate::rangeset::MAX_MEMORY_RANGES || exists|i: int|
                    0 <= i < old(self).memory@.len() && (#[trigger] old(self).memory@[i]).touches(
                        InclusiveRange {
                            start: memory_start,
                            end: (memory_start + memory_size - 1) as u64,
                        },
                    )) && final(self).memory.addresses() == old(self).memory.addresses().union(
                    block(memory_start as int, memory_start + memory_size - 1),
                ),
                Err(CoreArgError::Numerical(e)) => final(self).memory == old(self).memory && if memory_size
                    == 0 {
                    e == NumericalError::SubUnderflow
                } else {
                    e == NumericalError::AddOverflow && memory_start + memory_size - 1 > u64::MAX
                },
                Err(CoreArgError::RangeSet(e)) => memory_size > 0 && memory_start + memory_size - 1
                    <= u64::MAX && final(self).memory == old(self).memory && e == RangeSetError::Full
                    && old(self).memory.length == crate::rangeset::MAX_MEMORY_RANGES && forall|i: int|
                    0 <= i < old(self).memory@.len() ==> !(#[trigger] old(self).memory@[i]).touches(
                        InclusiveRange {
                            start: memory_start,
                            end: (memory_start + memory_size - 1) as u64,
                        },
                    ),
            },
    {
        if memory_size == 0 {
            return Err(CoreArgError::Numerical(NumericalError::SubUnderflow));
        }
        let memory_end = match memory_start.checked_add(memory_size - 1) {
            Some(e) => e,
            None => {
                return Err(CoreArgError::Numerical(NumericalError::AddOverflow));
            },
        };
        let range = InclusiveRange::new(memory_start, memory_end);
        assert(range.span() =~= block(memory_start as int, memory_end as int));
        match self.memory.insert(range) {
            Ok(()) => Ok(()),
            Err(e) => Err(CoreArgError::RangeSet(e)),
        }
    }
}

} // verus!
