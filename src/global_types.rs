//! Address types shared by the memory manager and the page tables.
use vstd::prelude::*;

verus! {

/// Shift that selects the table index used at `depth` (0 is the root) of a
/// four-level walk.
pub open spec fn level_shift(depth: int) -> u64 {
    (39 - 9 * depth) as u64
}

/// Table index that `virt` selects at `depth` of a four-level walk.
pub open spec fn table_index(virt: u64, depth: int) -> u64 {
    (virt >> level_shift(depth)) & 0x1ff
}

proof fn lemma_index_bound(x: u64)
    by (bit_vector)
    ensures
        x & 0x1ff <= 0x1ff,
{
}

/// A physical address.
#[derive(Clone, Copy, Debug, PartialEq, Eq, Structural)]
pub struct PhysAddr(pub u64);

impl PhysAddr {
    /// The address `offset` bytes further on.
    pub fn offset(&self, offset: u64) -> (r: PhysAddr)
        requires
            self.0 + offset <= u64::MAX,
        ensures
            r.0 == self.0 + offset,
    {
        PhysAddr(self.0 + offset)
    }

    /// Whether the address is a multiple of 4 KiB.
    pub fn is_page_aligned(&self) -> (r: bool)
        ensures
            r == (self.0 & 0xfff == 0),
    {
        self.0 & 0xfff == 0
    }
}

/// A virtual address.
#[derive(Clone, Copy, Debug, PartialEq, Eq, Structural)]
pub struct VirtAddr(pub u64);

impl VirtAddr {
    /// The address `offset` bytes further on.
    pub fn offset(&self, offset: u64) -> (r: VirtAddr)
        requires
            self.0 + offset <= u64::MAX,
        ensures
            r.0 == self.0 + offset,
    {
        VirtAddr(self.0 + offset)
    }

    /// The four table indexes, root first, that a four-level walk of this address
    /// uses.
    pub fn table_indexes(&self) -> (r: [usize; 4])
        ensures
            forall|d: int| 0 <= d < 4 ==> r@[d] == table_index(self.0, d),
    {
        let v = self.0;
        proof {
            lemma_index_bound(v >> 39u64);
            lemma_index_bound(v >> 30u64);
            lemma_index_bound(v >> 21u64);
            lemma_index_bound(v >> 12u64);
        }
        let r = [
            ((v >> 39u64) & 0x1ff) as usize,
            ((v >> 30u64) & 0x1ff) as usize,
            ((v >> 21u64) & 0x1ff) as usize,
            ((v >> 12u64) & 0x1ff) as usize,
        ];
        assert(level_shift(0) == 39 && level_shift(1) == 30 && level_shift(2) == 21
            && level_shift(3) == 12);
        r
    }
}

/// The value of the page-table base register.
#[derive(Clone, Copy, Debug, PartialEq, Eq, Structural)]
pub struct Cr3(pub u64);

} // verus!
