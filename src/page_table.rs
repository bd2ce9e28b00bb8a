//! Four-level x86-64 page tables: entries, the entry builder, translation and
//! mapping over a physical-memory capability.
use vstd::prelude::*;

use crate::global_types::{PhysAddr, VirtAddr, table_index};
use crate::phys_mem::{PhysMem, frame};
use crate::rangeset::RangeSetError;

verus! {

/// Bits of an entry that hold the physical address.
pub const ADDRESS_MASK: u64 = 0x000f_ffff_ffff_f000;

/// Errors raised while mapping.
#[derive(Debug, Copy, Clone, PartialEq, Eq, Structural)]
pub enum Error {
    /// The leaf entry's physical address is not 4 KiB aligned.
    CannotMapNonPageAligned,
    /// The virtual address already translates to a physical address.
    VirtAddrAlreadyMapped,
    /// A frame for an intermediate table could not be allocated.
    Allocation(RangeSetError),
}

/// Bit 0: the entry is present.
pub open spec fn present_bit(e: u64) -> bool {
    e & 1 != 0
}

/// Bit 1: writes are allowed.
pub open spec fn writable_bit(e: u64) -> bool {
    e & 2 != 0
}

/// Bit 7: the entry maps a large page.
pub open spec fn page_size_bit(e: u64) -> bool {
    e & 0x80 != 0
}

/// Bit 63: instruction fetches are not allowed.
pub open spec fn execute_disable_bit(e: u64) -> bool {
    e & 0x8000_0000_0000_0000 != 0
}

/// The physical address held by an entry.
pub open spec fn address_of(e: u64) -> u64 {
    e & ADDRESS_MASK
}

/// Size of a page that a translation ends in.
#[derive(Debug, Copy, Clone, PartialEq, Eq, Structural)]
pub enum PageSize {
    /// Terminal at depth 1.
    Size512G,
    /// Terminal at depth 2.
    Size2M,
    /// Terminal at depth 3.
    Size4K,
}

impl PageSize {
    /// Number of bytes in a page of this size.
    pub open spec fn bytes(self) -> int {
        match self {
            PageSize::Size512G => 0x80_0000_0000,
            PageSize::Size2M => 0x20_0000,
            PageSize::Size4K => 0x1000,
        }
    }

    /// Depth of the walk at which a page of this size is terminal.
    pub open spec fn leaf_depth(self) -> int {
        match self {
            PageSize::Size512G => 1,
            PageSize::Size2M => 2,
            PageSize::Size4K => 3,
        }
    }
}

/// Access rights of a translation.
#[derive(Debug, Copy, Clone, PartialEq, Eq, Structural)]
pub struct Permissions {
    /// The page can be read.
    pub readable: bool,
    /// The page can be written.
    pub writable: bool,
    /// The page can be executed.
    pub executable: bool,
}

/// The decoded flags of an [`Entry`].
#[derive(Debug, Copy, Clone, PartialEq, Eq, Structural)]
pub struct EntryFlags {
    /// Bit 0.
    pub present: bool,
    /// Bit 1.
    pub writable: bool,
    /// Bit 2.
    pub user_permitted: bool,
    /// Bit 3.
    pub write_through: bool,
    /// Bit 4.
    pub cache_disable: bool,
    /// Bit 5.
    pub accessed: bool,
    /// Bit 6.
    pub dirty: bool,
    /// Bit 7.
    pub page_size: bool,
    /// Bit 8.
    pub global: bool,
    /// Bit 9, free for software.
    pub bit_9: bool,
    /// Bit 10, free for software.
    pub bit_10: bool,
    /// Bit 11, free for software.
    pub bit_11: bool,
    /// Bits 59 to 62.
    pub protection_key: u8,
    /// Bit 63.
    pub execute_disable: bool,
}

impl EntryFlags {
    /// Whether the entry is present.
    pub fn present(&self) -> (r: bool)
        ensures
            r == self.present,
    {
        self.present
    }

    /// Whether the entry maps a large page.
    pub fn page_size(&self) -> (r: bool)
        ensures
            r == self.page_size,
    {
        self.page_size
    }
}

/// One 64-bit page-table entry.
#[derive(Debug, Copy, Clone, PartialEq, Eq, Structural)]
pub struct Entry(pub u64);

proof fn lemma_key_bound(x: u64)
    by (bit_vector)
    ensures
        (x >> 59u64) & 0xf <= 0xf,
{
}

impl Entry {
    /// An entry with every bit clear.
    pub fn new() -> (r: Entry)
        ensures
            r.0 == 0,
    {
        Entry(0)
    }

    /// The decoded flags of the entry.
    pub fn flags(self) -> (r: EntryFlags)
        ensures
            r.present == present_bit(self.0),
            r.writable == writable_bit(self.0),
            r.user_permitted == (self.0 & 4 != 0),
            r.write_through == (self.0 & 8 != 0),
            r.cache_disable == (self.0 & 0x10 != 0),
            r.accessed == (self.0 & 0x20 != 0),
            r.dirty == (self.0 & 0x40 != 0),
            r.page_size == page_size_bit(self.0),
            r.global == (self.0 & 0x100 != 0),
            r.bit_9 == (self.0 & 0x200 != 0),
            r.bit_10 == (self.0 & 0x400 != 0),
            r.bit_11 == (self.0 & 0x800 != 0),
            r.protection_key == (self.0 >> 59u64) & 0xf,
            r.execute_disable == execute_disable_bit(self.0),
    {
        let e = self.0;
        proof {
            lemma_key_bound(e);
        }
        EntryFlags {
            present: e & 1 != 0,
            writable: e & 2 != 0,
            user_permitted: e & 4 != 0,
            write_through: e & 8 != 0,
            cache_disable: e & 0x10 != 0,
            accessed: e & 0x20 != 0,
            dirty: e & 0x40 != 0,
            page_size: e & 0x80 != 0,
            global: e & 0x100 != 0,
            bit_9: e & 0x200 != 0,
            bit_10: e & 0x400 != 0,
            bit_11: e & 0x800 != 0,
            protection_key: ((e >> 59u64) & 0xf) as u8,
            execute_disable: e & 0x8000_0000_0000_0000 != 0,
        }
    }

    /// The physical address held by the entry.
    pub fn address(self) -> (r: PhysAddr)
        ensures
            r.0 == address_of(self.0),
    {
        PhysAddr(self.0 & ADDRESS_MASK)
    }

    /// Replace the address bits by `addr` with its low 12 bits cleared.
    pub fn set_address(&mut self, addr: u64)
        ensures
            final(self).0 == (old(self).0 & !ADDRESS_MASK) | (addr & !0xfffu64),
    {
        let addr = addr & !0xfffu64;
        self.0 = self.0 & !ADDRESS_MASK;
        self.0 = self.0 | addr;
    }

    /// Allow writes through this entry.
    pub fn set_writable(&mut self)
        ensures
            final(self).0 == old(self).0 | 2,
    {
        self.0 = self.0 | 2;
    }

    /// Allow instruction fetches through this entry.
    pub fn set_executable(&mut self)
        ensures
            final(self).0 == old(self).0 & !0x8000_0000_0000_0000u64,
    {
        self.0 = self.0 & !0x8000_0000_0000_0000u64;
    }
}

/// Builds an [`Entry`] flag by flag.
#[derive(Debug, Copy, Clone, PartialEq, Eq, Structural)]
pub struct EntryBuilder {
    /// Bit 0.
    pub present: bool,
    /// Bit 1.
    pub writable: bool,
    /// Bit 2.
    pub user_permitted: bool,
    /// Bit 3.
    pub write_through: bool,
    /// Bit 4.
    pub cache_disable: bool,
    /// Bit 5.
    pub accessed: bool,
    /// Bit 6.
    pub dirty: bool,
    /// Size of the mapped page; bit 7 is set for every size but 4 KiB.
    pub page_size: Option<PageSize>,
    /// Bit 8.
    pub global: bool,
    /// Bit 63.
    pub execute_disable: bool,
    /// Bits 59 to 62, from the key's low four bits.
    pub protection_key: u8,
    /// Physical address, 4 KiB aligned.
    pub address: u64,
}

/// `value` when `flag` is set, else zero.
pub open spec fn bit_if(flag: bool, value: u64) -> u64 {
    if flag {
        value
    } else {
        0
    }
}

/// The entry word that a builder produces.
pub open spec fn encode(b: EntryBuilder) -> u64 {
    b.address | bit_if(b.present, 1) | bit_if(b.writable, 2) | bit_if(b.user_permitted, 4)
        | bit_if(b.write_through, 8) | bit_if(b.cache_disable, 0x10) | bit_if(b.accessed, 0x20)
        | bit_if(b.dirty, 0x40) | bit_if(b.page_size != Some(PageSize::Size4K), 0x80) | bit_if(
        b.global,
        0x100,
    ) | bit_if(b.execute_disable, 0x8000_0000_0000_0000) | (((b.protection_key & 0xf) as u64)
        << 59u64)
}

impl Default for EntryBuilder {
    fn default() -> (r: EntryBuilder)
        ensures
            r == (EntryBuilder {
                present: false,
                writable: false,
                user_permitted: false,
                write_through: false,
                cache_disable: false,
                accessed: false,
                dirty: false,
                page_size: None,
                global: false,
                execute_disable: false,
                protection_key: 0,
                address: 0,
            }),
    {
        EntryBuilder {
            present: false,
            writable: false,
            user_permitted: false,
            write_through: false,
            cache_disable: false,
            accessed: false,
            dirty: false,
            page_size: None,
            global: false,
            execute_disable: false,
            protection_key: 0,
            address: 0,
        }
    }
}

impl EntryBuilder {
    /// Set the present flag.
    pub fn present(self, flag: bool) -> (r: Self)
        ensures
            r == (Self { present: flag, ..self }),
    {
        Self { present: flag, ..self }
    }

    /// Set the writable flag.
    pub fn writable(self, flag: bool) -> (r: Self)
        ensures
            r == (Self { writable: flag, ..self }),
    {
        Self { writable: flag, ..self }
    }

    /// Set the user-permitted flag.
    pub fn user_permitted(self, flag: bool) -> (r: Self)
        ensures
            r == (Self { user_permitted: flag, ..self }),
    {
        Self { user_permitted: flag, ..self }
    }

    /// Set the write-through flag.
    pub fn write_through(self, flag: bool) -> (r: Self)
        ensures
            r == (Self { write_through: flag, ..self }),
    {
        Self { write_through: flag, ..self }
    }

    /// Set the cache-disable flag.
    pub fn cache_disable(self, flag: bool) -> (r: Self)
        ensures
            r == (Self { cache_disable: flag, ..self }),
    {
        Self { cache_disable: flag, ..self }
    }

    /// Set the accessed flag.
    pub fn accessed(self, flag: bool) -> (r: Self)
        ensures
            r == (Self { accessed: flag, ..self }),
    {
        Self { accessed: flag, ..self }
    }

    /// Set the dirty flag.
    pub fn dirty(self, flag: bool) -> (r: Self)
        ensures
            r == (Self { dirty: flag, ..self }),
    {
        Self { dirty: flag, ..self }
    }

    /// Set the size of the page the entry maps.
    pub fn page_size(self, page_size: PageSize) -> (r: Self)
        ensures
            r == (Self { page_size: Some(page_size), ..self }),
    {
        Self { page_size: Some(page_size), ..self }
    }

    /// Set the global flag.
    pub fn global(self, flag: bool) -> (r: Self)
        ensures
            r == (Self { global: flag, ..self }),
    {
        Self { global: flag, ..self }
    }

    /// Set the execute-disable flag.
    pub fn execute_disable(self, flag: bool) -> (r: Self)
        ensures
            r == (Self { execute_disable: flag, ..self }),
    {
        Self { execute_disable: flag, ..self }
    }

    /// Set the protection key; only its low four bits reach the entry.
    pub fn protection_key(self, key: u8) -> (r: Self)
        ensures
            r == (Self { protection_key: key, ..self }),
    {
        Self { protection_key: key, ..self }
    }

    /// Set the physical address, which must be 4 KiB aligned and below 2^52, the
    /// widest physical address an entry holds.
    pub fn address(self, address: PhysAddr) -> (r: Self)
        requires
            address.0 & 0xfff == 0,
            address.0 < 0x10_0000_0000_0000,
        ensures
            r == (Self { address: address.0, ..self }),
    {
        Self { address: address.0, ..self }
    }

    /// The entry word. A page size must have been set.
    pub fn finish(self) -> (r: Entry)
        requires
            self.page_size is Some,
        ensures
            r.0 == encode(self),
    {
        let large = match self.page_size {
            Some(PageSize::Size4K) => false,
            _ => true,
        };
        let entry = self.address | if self.present { 1u64 } else { 0u64 } | if self.writable {
            2u64
        } else {
            0u64
        } | if self.user_permitted { 4u64 } else { 0u64 } | if self.write_through {
            8u64
        } else {
            0u64
        } | if self.cache_disable { 0x10u64 } else { 0u64 } | if self.accessed {
            0x20u64
        } else {
            0u64
        } | if self.dirty { 0x40u64 } else { 0u64 } | if large { 0x80u64 } else { 0u64 }
            | if self.global { 0x100u64 } else { 0u64 } | if self.execute_disable {
            0x8000_0000_0000_0000u64
        } else {
            0u64
        } | (((self.protection_key & 0xf) as u64) << 59u64);
        Entry(entry)
    }
}

/// What a walk of the page table found for one virtual address.
#[derive(Debug, Copy, Clone)]
pub struct Translated {
    /// The physical address the virtual address maps to, if any.
    pub phys_addr: Option<PhysAddr>,
    /// The virtual address that was walked.
    pub virt_addr: VirtAddr,
    /// The size of the page the walk ended in, if any.
    pub size: Option<PageSize>,
    /// Physical address of the slot read at each depth.
    pub entries: [Option<PhysAddr>; 4],
    /// Access rights accumulated over the walk.
    pub perms: Permissions,
}

impl Translated {
    /// A translation that reached a page.
    pub fn new(
        virt_addr: VirtAddr,
        phys_addr: PhysAddr,
        size: PageSize,
        entries: [Option<PhysAddr>; 4],
        perms: Permissions,
    ) -> (r: Self)
        ensures
            r == (Self { virt_addr, phys_addr: Some(phys_addr), size: Some(size), entries, perms }),
    {
        Self { virt_addr, phys_addr: Some(phys_addr), size: Some(size), entries, perms }
    }

    /// A translation that met a non-present entry.
    pub fn new_not_present(virt_addr: VirtAddr, entries: [Option<PhysAddr>; 4]) -> (r: Self)
        ensures
            r == (Self {
                virt_addr,
                phys_addr: None,
                size: None,
                entries,
                perms: Permissions { readable: false, writable: false, executable: false },
            }),
    {
        Self {
            virt_addr,
            phys_addr: None,
            size: None,
            entries,
            perms: Permissions { readable: false, writable: false, executable: false },
        }
    }

    /// The physical address, if the walk reached a page.
    pub fn phys_addr(&self) -> (r: Option<PhysAddr>)
        ensures
            r == self.phys_addr,
    {
        self.phys_addr
    }

    /// The virtual address that was walked.
    pub fn virt_addr(&self) -> (r: VirtAddr)
        ensures
            r == self.virt_addr,
    {
        self.virt_addr
    }

    /// The page size, if the walk reached a page.
    pub fn size(&self) -> (r: Option<PageSize>)
        ensures
            r == self.size,
    {
        self.size
    }

    /// The slot addresses read at each depth.
    pub fn entries(&self) -> (r: [Option<PhysAddr>; 4])
        ensures
            r == self.entries,
    {
        self.entries
    }

    /// The accumulated access rights.
    pub fn perms(&self) -> (r: Permissions)
        ensures
            r == self.perms,
    {
        self.perms
    }
}

/// Address of the slot that `virt` selects at `depth` in the table at `table`.
pub open spec fn slot_of(table: u64, virt: u64, depth: int) -> int {
    table + 8 * table_index(virt, depth)
}

/// The walk stops at `depth` on the present entry `e`: always at depth 3, and at
/// depths 1 and 2 when the entry maps a large page.
pub open spec fn terminal_at(e: u64, depth: int) -> bool {
    depth == 3 || ((depth == 1 || depth == 2) && page_size_bit(e))
}

/// Size of the page a walk ending at `depth` reaches.
pub open spec fn size_at(depth: int) -> PageSize {
    if depth == 1 {
        PageSize::Size512G
    } else if depth == 2 {
        PageSize::Size2M
    } else {
        PageSize::Size4K
    }
}

/// Offset of `virt` inside the page reached at `depth`.
pub open spec fn offset_at(virt: u64, depth: int) -> u64 {
    virt & ((size_at(depth).bytes() - 1) as u64)
}

/// Result of walking from the table at `table`, entered at `depth` with the rights
/// `w` and `x` accumulated so far: the physical address reached, the page size,
/// the slots read, and the accumulated write and execute rights.
pub open spec fn walk(mem: Map<int, u64>, table: u64, virt: u64, depth: int, w: bool, x: bool) -> (
    Option<int>,
    Option<PageSize>,
    Seq<int>,
    bool,
    bool,
)
    decreases 4 - depth,
{
    if depth < 0 || depth >= 4 {
        (None, None, Seq::empty(), false, false)
    } else {
        let slot = slot_of(table, virt, depth);
        let e = mem[slot];
        if !present_bit(e) {
            (None, None, seq![slot], false, false)
        } else {
            let w2 = w && writable_bit(e);
            let x2 = x && !execute_disable_bit(e);
            if terminal_at(e, depth) {
                (
                    Some(address_of(e) + offset_at(virt, depth)),
                    Some(size_at(depth)),
                    seq![slot],
                    w2,
                    x2,
                )
            } else {
                let r = walk(mem, address_of(e), virt, depth + 1, w2, x2);
                (r.0, r.1, seq![slot] + r.2, r.3, r.4)
            }
        }
    }
}

/// Every slot that the walk from `table` at `depth` reads is in `held` and in
/// `mem`, and addressable.
pub open spec fn walk_held(
    mem: Map<int, u64>,
    held: Set<int>,
    table: u64,
    virt: u64,
    depth: int,
) -> bool
    decreases 4 - depth,
{
    0 <= depth < 4 && {
        let slot = slot_of(table, virt, depth);
        let e = mem[slot];
        &&& slot <= u64::MAX
        &&& mem.contains_key(slot)
        &&& held.contains(slot)
        &&& (present_bit(e) && !terminal_at(e, depth)) ==> walk_held(
            mem,
            held,
            address_of(e),
            virt,
            depth + 1,
        )
    }
}

/// The full walk of `virt` from the root table at `root`.
pub open spec fn translation(mem: Map<int, u64>, root: u64, virt: u64) -> (
    Option<int>,
    Option<PageSize>,
    Seq<int>,
    bool,
    bool,
) {
    walk(mem, root, virt, 0, true, true)
}

/// `t` reports the walk `w` of `virt`.
pub open spec fn reports(
    t: Translated,
    virt: u64,
    w: (Option<int>, Option<PageSize>, Seq<int>, bool, bool),
) -> bool {
    &&& t.virt_addr == VirtAddr(virt)
    &&& (t.phys_addr is Some <==> w.0 is Some)
    &&& t.phys_addr is Some ==> (t.phys_addr->0).0 == w.0->0
    &&& t.size == w.1
    &&& forall|d: int|
        0 <= d < 4 ==> #[trigger] t.entries@[d] == if d < w.2.len() {
            Some(PhysAddr(w.2[d] as u64))
        } else {
            None
        }
    &&& t.perms == if w.0 is Some {
        Permissions { readable: true, writable: w.3, executable: w.4 }
    } else {
        Permissions { readable: false, writable: false, executable: false }
    }
}

proof fn lemma_mask_bound(x: u64, m: u64)
    by (bit_vector)
    ensures
        x & m <= m,
{
}

/// Following `virt` down from the root at `root` for `n` levels: the slot read at
/// depth `n`, whether every entry above it is present, readable, addressable and
/// not terminal, and the write and execute rights those entries grant.
pub open spec fn descend(mem: Map<int, u64>, root: u64, virt: u64, n: nat) -> (int, bool, bool, bool)
    decreases n,
{
    if n == 0 {
        (slot_of(root, virt, 0), true, true, true)
    } else {
        let r = descend(mem, root, virt, (n - 1) as nat);
        let e = mem[r.0];
        (
            slot_of(address_of(e), virt, n as int),
            r.1 && mem.contains_key(r.0) && r.0 <= u64::MAX && present_bit(e) && !terminal_at(
                e,
                n - 1,
            ),
            r.2 && writable_bit(e),
            r.3 && !execute_disable_bit(e),
        )
    }
}

/// The table that the walk of `virt` reads at depth `n`.
pub open spec fn table_at(mem: Map<int, u64>, root: u64, virt: u64, n: nat) -> u64 {
    if n == 0 {
        root
    } else {
        address_of(mem[descend(mem, root, virt, (n - 1) as nat).0])
    }
}

/// The slots read above depth `n`.
pub open spec fn slots_above(mem: Map<int, u64>, root: u64, virt: u64, n: nat) -> Seq<int> {
    Seq::new(n, |j: int| descend(mem, root, virt, j as nat).0)
}

/// Intermediate entry that points at a fresh table frame at `page`.
pub open spec fn table_entry(page: u64) -> u64 {
    page | 7
}

/// `e` is a present leaf for a page of `size`.
pub open spec fn leaf_for(e: u64, size: PageSize) -> bool {
    present_bit(e) && terminal_at(e, size.leaf_depth())
}

proof fn lemma_slot_at(mem: Map<int, u64>, root: u64, virt: u64, n: nat)
    ensures
        descend(mem, root, virt, n).0 == slot_of(table_at(mem, root, virt, n), virt, n as int),
{
}

/// When the path is linked down to depth `n`, the whole walk is the slots above
/// `n` followed by the walk that starts there.
proof fn lemma_walk_split(mem: Map<int, u64>, root: u64, virt: u64, n: nat)
    requires
        n <= 3,
        descend(mem, root, virt, n).1,
    ensures
        ({
            let d = descend(mem, root, virt, n);
            let r = walk(mem, table_at(mem, root, virt, n), virt, n as int, d.2, d.3);
            let w = translation(mem, root, virt);
            &&& w.0 == r.0
            &&& w.1 == r.1
            &&& w.2 == slots_above(mem, root, virt, n) + r.2
            &&& w.3 == r.3
            &&& w.4 == r.4
        }),
    decreases n,
{
    if n == 0 {
        assert(slots_above(mem, root, virt, 0) + walk(mem, root, virt, 0, true, true).2 =~= walk(
            mem,
            root,
            virt,
            0,
            true,
            true,
        ).2);
    } else {
        let m = (n - 1) as nat;
        lemma_walk_split(mem, root, virt, m);
        let d = descend(mem, root, virt, m);
        let t = table_at(mem, root, virt, m);
        lemma_slot_at(mem, root, virt, m);
        let e = mem[d.0];
        let inner = walk(mem, address_of(e), virt, n as int, d.2 && writable_bit(e), d.3 && !execute_disable_bit(e));
        assert(walk(mem, t, virt, m as int, d.2, d.3).2 == seq![d.0] + inner.2);
        assert(slots_above(mem, root, virt, m) + (seq![d.0] + inner.2) =~= slots_above(mem, root, virt, n) + inner.2);
    }
}

proof fn lemma_walk_len(mem: Map<int, u64>, table: u64, virt: u64, depth: int, w: bool, x: bool)
    requires
        0 <= depth < 4,
    ensures
        1 <= walk(mem, table, virt, depth, w, x).2.len() <= 4 - depth,
    decreases 4 - depth,
{
    let e = mem[slot_of(table, virt, depth)];
    if present_bit(e) && !terminal_at(e, depth) {
        lemma_walk_len(
            mem,
            address_of(e),
            virt,
            depth + 1,
            w && writable_bit(e),
            x && !execute_disable_bit(e),
        );
    }
}

/// The walk of `virt` reads, at each depth it reaches, the slot that `descend`
/// names, and the path above that depth is linked.
#[verifier::rlimit(30)]
proof fn lemma_walk_prefix(mem: Map<int, u64>, held: Set<int>, root: u64, virt: u64, n: nat)
    requires
        walk_held(mem, held, root, virt, 0),
        n < translation(mem, root, virt).2.len(),
    ensures
        descend(mem, root, virt, n).1,
        translation(mem, root, virt).2[n as int] == descend(mem, root, virt, n).0,
        walk_held(mem, held, table_at(mem, root, virt, n), virt, n as int),
        held.contains(descend(mem, root, virt, n).0),
        mem.contains_key(descend(mem, root, virt, n).0),
        descend(mem, root, virt, n).0 <= u64::MAX,
        n + 1 == translation(mem, root, virt).2.len() && translation(mem, root, virt).0 is None
            ==> !present_bit(mem[descend(mem, root, virt, n).0]),
        n + 1 < translation(mem, root, virt).2.len() ==> present_bit(
            mem[descend(mem, root, virt, n).0],
        ) && !terminal_at(mem[descend(mem, root, virt, n).0], n as int),
    decreases n,
{
    let w = translation(mem, root, virt);
    lemma_walk_len(mem, root, virt, 0, true, true);
    if n > 0 {
        let m = (n - 1) as nat;
        lemma_walk_prefix(mem, held, root, virt, m);
        lemma_slot_at(mem, root, virt, m);
        assert(walk_held(mem, held, table_at(mem, root, virt, n), virt, n as int));
    }
    lemma_slot_at(mem, root, virt, n);
    assert(held.contains(slot_of(table_at(mem, root, virt, n), virt, n as int)));
    lemma_walk_split(mem, root, virt, n);
    lemma_slot_at(mem, root, virt, n);
    let d = descend(mem, root, virt, n);
    let t = table_at(mem, root, virt, n);
    let r = walk(mem, t, virt, n as int, d.2, d.3);
    assert(w.2[n as int] == r.2[0]);
    let e = mem[d.0];
    if present_bit(e) && !terminal_at(e, n as int) {
        lemma_walk_len(
            mem,
            address_of(e),
            virt,
            n + 1 as int,
            d.2 && writable_bit(e),
            d.3 && !execute_disable_bit(e),
        );
    }
    if n + 1 < w.2.len() {
        assert(r.2.len() > 1);
        assert(present_bit(e) && !terminal_at(e, n as int));
    }
}

/// `descend` down to `n` reads only the slots above `n`, so memories that agree
/// there agree on it.
proof fn lemma_descend_frame(a: Map<int, u64>, b: Map<int, u64>, root: u64, virt: u64, n: nat)
    requires
        forall|j: nat| j < n ==> (#[trigger] a.contains_key(descend(a, root, virt, j).0)
            <==> b.contains_key(descend(a, root, virt, j).0)) && a[descend(a, root, virt, j).0]
            == b[descend(a, root, virt, j).0],
    ensures
        descend(a, root, virt, n) == descend(b, root, virt, n),
    decreases n,
{
    if n > 0 {
        let m = (n - 1) as nat;
        assert forall|j: nat| j < m implies (#[trigger] a.contains_key(descend(a, root, virt, j).0)
            <==> b.contains_key(descend(a, root, virt, j).0)) && a[descend(a, root, virt, j).0]
            == b[descend(a, root, virt, j).0] by {
        }
        lemma_descend_frame(a, b, root, virt, m);
        assert(a.contains_key(descend(a, root, virt, m).0) <==> b.contains_key(descend(a, root, virt, m).0));
    }
}

/// Linked paths are made of present entries down to the depth they are linked.
proof fn lemma_linked_present(mem: Map<int, u64>, root: u64, virt: u64, n: nat, j: nat)
    requires
        descend(mem, root, virt, n).1,
        j < n,
    ensures
        descend(mem, root, virt, j + 1).1,
        present_bit(mem[descend(mem, root, virt, j).0]),
        mem.contains_key(descend(mem, root, virt, j).0),
    decreases n,
{
    if j + 1 < n {
        lemma_linked_present(mem, root, virt, (n - 1) as nat, j);
    }
}

/// A linked path that ends on a present leaf for `size` translates to that leaf.
pub proof fn lemma_leaf_translation(mem: Map<int, u64>, root: u64, virt: u64, size: PageSize)
    requires
        descend(mem, root, virt, size.leaf_depth() as nat).1,
        mem.contains_key(descend(mem, root, virt, size.leaf_depth() as nat).0),
        leaf_for(mem[descend(mem, root, virt, size.leaf_depth() as nat).0], size),
    ensures
        ({
            let n = size.leaf_depth() as nat;
            let d = descend(mem, root, virt, n);
            let e = mem[d.0];
            let w = translation(mem, root, virt);
            &&& w.0 == Some(address_of(e) + offset_at(virt, n as int))
            &&& w.1 == Some(size)
            &&& w.3 == (d.2 && writable_bit(e))
            &&& w.4 == (d.3 && !execute_disable_bit(e))
            &&& size_at(n as int) == size
        }),
{
    let n = size.leaf_depth() as nat;
    lemma_walk_split(mem, root, virt, n);
    lemma_slot_at(mem, root, virt, n);
}

proof fn lemma_held_dom(mem: Map<int, u64>, held: Set<int>, table: u64, virt: u64, depth: int)
    requires
        walk_held(mem, held, table, virt, depth),
    ensures
        walk_held(mem, mem.dom(), table, virt, depth),
    decreases 4 - depth,
{
    let e = mem[slot_of(table, virt, depth)];
    if present_bit(e) && !terminal_at(e, depth) {
        lemma_held_dom(mem, held, address_of(e), virt, depth + 1);
    }
}

proof fn lemma_table_entry(page: u64)
    by (bit_vector)
    requires
        page & 0xfff == 0,
        page <= 0x000f_ffff_ffff_f000,
    ensures
        (page | 7) & 0x000f_ffff_ffff_f000 == page,
        (page | 7) & 1 != 0,
        (page | 7) & 2 != 0,
        (page | 7) & 0x80 == 0,
        (page | 7) & 0x8000_0000_0000_0000 == 0,
{
}

proof fn lemma_address_aligned(e: u64)
    by (bit_vector)
    ensures
        (e & 0x000f_ffff_ffff_f000) & 0xfff == 0,
{
}

proof fn lemma_zero_not_present()
    by (bit_vector)
    ensures
        0u64 & 1 == 0,
{
}

/// The slots on the walk of `virt` are pairwise distinct, as in a tree of
/// tables where no table is reached twice.
pub open spec fn path_distinct(mem: Map<int, u64>, root: u64, virt: u64) -> bool {
    let w = translation(mem, root, virt);
    forall|i: int, j: int| 0 <= i < j < w.2.len() ==> #[trigger] w.2[i] != #[trigger] w.2[j]
}

/// The slot read at depth `j` and its entry are the same in `m0` and `m1`.
pub open spec fn unchanged_level(m0: Map<int, u64>, m1: Map<int, u64>, root: u64, virt: u64, j: int) -> bool {
    &&& descend(m1, root, virt, j as nat).0 == descend(m0, root, virt, j as nat).0
    &&& m1[descend(m1, root, virt, j as nat).0] == m0[descend(m0, root, virt, j as nat).0]
}

/// The entry read at depth `j` points at a table in a frame that `u0` did not
/// hold, and is the intermediate entry for that frame.
pub open spec fn fresh_table(m: Map<int, u64>, u0: Set<int>, root: u64, virt: u64, j: int) -> bool {
    let t = table_at(m, root, virt, (j + 1) as nat);
    &&& m[descend(m, root, virt, j as nat).0] == table_entry(t)
    &&& t & 0xfff == 0
    &&& t + 0x1000 <= 0x10_0000_0000_0000
    &&& forall|a: int| #[trigger] frame(t as int).contains(a) ==> !u0.contains(a)
    &&& forall|i: int|
        0 <= i < 512 && frame_word(t, i) != descend(m, root, virt, (j + 1) as nat).0
            ==> m.contains_key(#[trigger] frame_word(t, i)) && m[frame_word(t, i)] == 0
}

/// Address of word `i` of the frame at `t`.
pub open spec fn frame_word(t: u64, i: int) -> int {
    t + 8 * i
}

proof fn lemma_slot_in_frame(m: Map<int, u64>, root: u64, virt: u64, j: nat)
    ensures
        frame(table_at(m, root, virt, j) as int).contains(descend(m, root, virt, j).0),
{
    lemma_slot_at(m, root, virt, j);
    lemma_mask_bound(virt >> crate::global_types::level_shift(j as int), 0x1ff);
}

/// The frames of the tables read at depths `from + 1` to `to`.
pub open spec fn new_frames(m: Map<int, u64>, root: u64, virt: u64, from: int, to: int) -> Set<int> {
    Set::new(
        |a: int|
            exists|j: int|
                from <= j < to && #[trigger] frame(table_at(m, root, virt, (j + 1) as nat) as int).contains(a),
    )
}

/// What a call of `map_raw` promises, from the memory before (`m0`, `u0`) and
/// after (`m1`, `u1`) and its result `r`. On success, with `k` the depth at which
/// the old walk stopped and `n` the leaf depth: the levels above `k` are
/// untouched, each level from `k` to `n - 1` holds an intermediate entry for a
/// fresh frame, the leaf slot holds `entry`, the only frames newly in use are
/// those tables, and no other word changed but the slots on the walk.
pub open spec fn map_outcome(
    m0: Map<int, u64>,
    m1: Map<int, u64>,
    u0: Set<int>,
    u1: Set<int>,
    root: u64,
    entry: Entry,
    virt: u64,
    size: PageSize,
    r: Result<(), Error>,
) -> bool {
    &&& u0.subset_of(u1)
    &&& match r {
        Ok(()) => {
            let before = translation(m0, root, virt);
            let n = size.leaf_depth();
            let k = before.2.len() - 1;
            let d = descend(m1, root, virt, n as nat);
            &&& before.0 is None
            &&& d.1
            &&& m1.contains_key(d.0)
            &&& u1.contains(d.0)
            &&& m1[d.0] == entry.0
            &&& forall|j: int| 0 <= j < n && j < k ==> #[trigger] unchanged_level(m0, m1, root, virt, j)
            &&& forall|j: int| k <= j < n ==> #[trigger] fresh_table(m1, u0, root, virt, j)
            &&& u1 == u0.union(new_frames(m1, root, virt, k, n))
            &&& forall|a: int|
                #[trigger] m0.contains_key(a) && !new_frames(m1, root, virt, k, n).contains(a)
                    ==> m1.contains_key(a) && (m1[a] == m0[a] || exists|j: int|
                    0 <= j <= n && a == #[trigger] descend(m1, root, virt, j as nat).0)
            &&& leaf_for(entry.0, size) ==> {
                let w = translation(m1, root, virt);
                &&& walk_held(m1, u1, root, virt, 0)
                &&& w.0 == Some(address_of(entry.0) + offset_at(virt, n))
                &&& w.1 == Some(size)
                &&& w.3 == (d.2 && writable_bit(entry.0))
                &&& w.4 == (d.3 && !execute_disable_bit(entry.0))
            }
        },
        Err(Error::VirtAddrAlreadyMapped) => {
            &&& translation(m0, root, virt).0 is Some
            &&& m1 == m0
            &&& u1 == u0
        },
        Err(Error::Allocation(_)) => {
            &&& translation(m0, root, virt).0 is None
            &&& translation(m0, root, virt).2.len() <= size.leaf_depth()
            &&& forall|a: int|
                #[trigger] m0.contains_key(a) && !(u1.contains(a) && !u0.contains(a))
                    ==> m1.contains_key(a) && (m1[a] == m0[a] || exists|j: int|
                    0 <= j <= size.leaf_depth() && a == #[trigger] descend(m1, root, virt, j as nat).0)
        },
        Err(Error::CannotMapNonPageAligned) => false,
    }
}

proof fn lemma_held_from(mem: Map<int, u64>, held: Set<int>, root: u64, virt: u64, n: nat, k: nat)
    requires
        k <= n <= 3,
        descend(mem, root, virt, n).1,
        forall|j: nat|
            j <= n ==> held.contains(#[trigger] descend(mem, root, virt, j).0) && mem.contains_key(
                descend(mem, root, virt, j).0,
            ) && descend(mem, root, virt, j).0 <= u64::MAX,
        present_bit(mem[descend(mem, root, virt, n).0]),
        terminal_at(mem[descend(mem, root, virt, n).0], n as int),
    ensures
        walk_held(mem, held, table_at(mem, root, virt, k), virt, k as int),
    decreases n - k,
{
    lemma_slot_at(mem, root, virt, k);
    assert(held.contains(descend(mem, root, virt, k).0));
    if k < n {
        lemma_held_from(mem, held, root, virt, n, k + 1);
        lemma_linked_present(mem, root, virt, n, k);
    }
}

/// The entry `e` after raising the rights that `perms` asks for.
pub open spec fn raised(e: u64, perms: Permissions) -> u64 {
    let a = if perms.writable {
        e | 2
    } else {
        e
    };
    if perms.executable {
        a & !0x8000_0000_0000_0000u64
    } else {
        a
    }
}

proof fn lemma_raise_twice(e: u64)
    by (bit_vector)
    ensures
        (e | 2) | 2 == e | 2,
        (e & !0x8000_0000_0000_0000u64) & !0x8000_0000_0000_0000u64 == e
            & !0x8000_0000_0000_0000u64,
        (((e | 2) & !0x8000_0000_0000_0000u64) | 2) & !0x8000_0000_0000_0000u64 == (e | 2)
            & !0x8000_0000_0000_0000u64,
{
}

/// Mapping `virt` through a present leaf for a page of `size` makes the walk of `virt` reach the leaf's
/// frame at `virt`'s offset in the page, report `size`, and grant exactly the
/// leaf's write and execute rights when the entries above it grant theirs.
pub proof fn lemma_map_then_translate(
    m0: Map<int, u64>,
    m1: Map<int, u64>,
    u0: Set<int>,
    u1: Set<int>,
    root: u64,
    entry: Entry,
    virt: u64,
    size: PageSize,
)
    requires
        map_outcome(m0, m1, u0, u1, root, entry, virt, size, Ok(())),
        leaf_for(entry.0, size),
    ensures
        translation(m1, root, virt).0 == Some(address_of(entry.0) + (virt & ((size.bytes() - 1) as u64))),
        translation(m1, root, virt).1 == Some(size),
        ({
            let d = descend(m1, root, virt, size.leaf_depth() as nat);
            d.2 && d.3 ==> translation(m1, root, virt).3 == writable_bit(entry.0) && translation(
                m1,
                root,
                virt,
            ).4 == !execute_disable_bit(entry.0)
        }),
{
    assert(size_at(size.leaf_depth()) == size);
}

/// A walk that finds the same words in two memories gives the same result.
proof fn lemma_walk_frame(a: Map<int, u64>, b: Map<int, u64>, table: u64, virt: u64, depth: int, w: bool, x: bool)
    requires
        forall|i: int|
            0 <= i < walk(a, table, virt, depth, w, x).2.len() ==> #[trigger] b[walk(a, table, virt, depth, w, x).2[i]] == a[walk(a, table, virt, depth, w, x).2[i]],
    ensures
        walk(b, table, virt, depth, w, x) == walk(a, table, virt, depth, w, x),
    decreases 4 - depth,
{
    if 0 <= depth < 4 {
        let r = walk(a, table, virt, depth, w, x);
        let slot = slot_of(table, virt, depth);
        assert(r.2[0] == slot);
        assert(b[slot] == a[slot]);
        let e = a[slot];
        if present_bit(e) && !terminal_at(e, depth) {
            let w2 = w && writable_bit(e);
            let x2 = x && !execute_disable_bit(e);
            let inner = walk(a, address_of(e), virt, depth + 1, w2, x2);
            assert forall|i: int| 0 <= i < inner.2.len() implies #[trigger] b[inner.2[i]] == a[inner.2[i]] by {
                assert(r.2[i + 1] == inner.2[i]);
            }
            lemma_walk_frame(a, b, address_of(e), virt, depth + 1, w2, x2);
        }
    }
}

/// Mapping `virt` leaves the translation of any address `other` unchanged when
/// the old walk of `other` reads neither a slot of the new walk of `virt` nor a
/// word of a frame the mapping took.
pub proof fn lemma_map_keeps_other_walks(
    m0: Map<int, u64>,
    m1: Map<int, u64>,
    u0: Set<int>,
    u1: Set<int>,
    root: u64,
    entry: Entry,
    virt: u64,
    size: PageSize,
    other: u64,
)
    requires
        map_outcome(m0, m1, u0, u1, root, entry, virt, size, Ok(())),
        walk_held(m0, m0.dom(), root, other, 0),
        forall|i: int|
            0 <= i < translation(m0, root, other).2.len() ==> {
                let s = #[trigger] translation(m0, root, other).2[i];
                &&& !new_frames(m1, root, virt, translation(m0, root, virt).2.len() - 1, size.leaf_depth()).contains(s)
                &&& forall|j: int| 0 <= j <= size.leaf_depth() ==> s != #[trigger] descend(m1, root, virt, j as nat).0
            },
    ensures
        translation(m1, root, other) == translation(m0, root, other),
{
    let w = translation(m0, root, other);
    assert forall|i: int| 0 <= i < w.2.len() implies #[trigger] m1[w.2[i]] == m0[w.2[i]] by {
        lemma_walk_len(m0, root, other, 0, true, true);
        lemma_walk_prefix(m0, m0.dom(), root, other, i as nat);
        let s = w.2[i];
        assert(m0.contains_key(s));
        if m1[s] != m0[s] {
            let j = choose|j: int| 0 <= j <= size.leaf_depth() && s == #[trigger] descend(m1, root, virt, j as nat).0;
            assert(false);
        }
    }
    lemma_walk_frame(m0, m1, root, other, 0, true, true);
}

/// A page table, named by the physical address of its root frame.
#[derive(Debug, Copy, Clone, PartialEq, Eq, Structural)]
pub struct PageTable {
    /// Physical address of the root table.
    pub root: PhysAddr,
}

impl PageTable {
    /// The page table whose root frame is at `address`.
    pub fn from_phys_addr(address: PhysAddr) -> (r: PageTable)
        ensures
            r.root == address,
    {
        PageTable { root: address }
    }

    /// Physical address of the root table.
    pub fn start_address(&self) -> (r: PhysAddr)
        ensures
            r == self.root,
    {
        self.root
    }

    /// Physical address of slot `index` of the root table.
    pub fn entry_address(&self, index: usize) -> (r: PhysAddr)
        requires
            index < 512,
            self.root.0 + 8 * index <= u64::MAX,
        ensures
            r.0 == self.root.0 + 8 * index,
    {
        self.root.offset(8 * index as u64)
    }

}

/// Translation of virtual addresses through a page table held in physical
/// memory.
pub trait CanTranslate {
    /// Physical address of the root table.
    spec fn root_address(&self) -> u64;

    /// Walk the four levels for `virt_addr` and report what was found, including
    /// the slot read at each depth.
    fn translate<M: PhysMem>(&self, virt_addr: VirtAddr, mem: &M) -> (r: Translated)
        requires
            mem.inv(),
            walk_held(mem.words(), mem.words().dom(), self.root_address(), virt_addr.0, 0),
        ensures
            reports(r, virt_addr.0, translation(mem.words(), self.root_address(), virt_addr.0)),
            r.entries@[0] == Some(PhysAddr(slot_of(self.root_address(), virt_addr.0, 0) as u64)),
    ;
}

impl CanTranslate for PageTable {
    open spec fn root_address(&self) -> u64 {
        self.root.0
    }

    #[verifier::rlimit(30)]
    fn translate<M: PhysMem>(&self, virt_addr: VirtAddr, mem: &M) -> (r: Translated)
    {
        let ghost m = mem.words();
        let ghost full = translation(m, self.root.0, virt_addr.0);
        let indexes = virt_addr.table_indexes();
        let mut table: u64 = self.root.0;
        let mut entries: [Option<PhysAddr>; 4] = [None, None, None, None];
        let mut writable = true;
        let mut executable = true;
        let mut depth: usize = 0;
        let ghost mut seen: Seq<int> = Seq::empty();
        while depth < 4
            invariant
                depth <= 3,
                m == mem.words(),
                full == translation(m, self.root.0, virt_addr.0),
                mem.inv(),
                walk_held(m, m.dom(), table, virt_addr.0, depth as int),
                seen.len() == depth,
                forall|d: int| 0 <= d < depth ==> 0 <= #[trigger] seen[d] <= u64::MAX,
                ({
                    let rest = walk(m, table, virt_addr.0, depth as int, writable, executable);
                    &&& full.0 == rest.0
                    &&& full.1 == rest.1
                    &&& full.2 == seen + rest.2
                    &&& full.3 == rest.3
                    &&& full.4 == rest.4
                }),
                forall|d: int|
                    0 <= d < 4 ==> #[trigger] entries@[d] == if d < depth {
                        Some(PhysAddr(seen[d] as u64))
                    } else {
                        None
                    },
                forall|d: int| 0 <= d < 4 ==> indexes@[d] == table_index(virt_addr.0, d),
            decreases 4 - depth,
        {
            let index = indexes[depth];
            let slot = PhysAddr(table).offset(8 * index as u64);
            entries[depth] = Some(slot);
            let entry = Entry(mem.read_u64(slot));
            let flags = entry.flags();
            let ghost rest = walk(m, table, virt_addr.0, depth as int, writable, executable);
            let ghost new_seen = seen.push(slot.0 as int);
            assert forall|d: int| 0 <= d < 4 implies #[trigger] entries@[d] == if d < depth + 1 {
                Some(PhysAddr(new_seen[d] as u64))
            } else {
                None
            } by {
                if d < depth {
                    assert(new_seen[d] == seen[d]);
                }
            }
            if !flags.present() {
                assert(full.2 =~= new_seen);
                return Translated::new_not_present(virt_addr, entries);
            }
            writable = writable && flags.writable;
            executable = executable && !flags.execute_disable;
            let next = entry.address();
            if depth == 3 || ((depth == 1 || depth == 2) && flags.page_size()) {
                let offset = if depth == 1 {
                    virt_addr.0 & 0x7f_ffff_ffff
                } else if depth == 2 {
                    virt_addr.0 & 0x1f_ffff
                } else {
                    virt_addr.0 & 0xfff
                };
                let size = if depth == 1 {
                    PageSize::Size512G
                } else if depth == 2 {
                    PageSize::Size2M
                } else {
                    PageSize::Size4K
                };
                proof {
                    lemma_mask_bound(entry.0, ADDRESS_MASK);
                    lemma_mask_bound(virt_addr.0, 0x7f_ffff_ffff);
                    lemma_mask_bound(virt_addr.0, 0x1f_ffff);
                    lemma_mask_bound(virt_addr.0, 0xfff);
                }
                assert(full.2 =~= new_seen);
                let perms = Permissions { readable: true, writable, executable };
                return Translated::new(virt_addr, next.offset(offset), size, entries, perms);
            }
            proof {
                assert(full.2 =~= new_seen + walk(m, next.0, virt_addr.0, depth + 1, writable, executable).2);
                seen = new_seen;
            }
            table = next.0;
            depth += 1;
        }
        Translated::new_not_present(virt_addr, entries)
    }

}

/// Mapping of virtual addresses, with intermediate tables built from frames of
/// a physical-memory capability.
pub trait CanMap: CanTranslate {
    /// Map `virt_addr` through the leaf `entry` for a page of `entry_size`, first
    /// building every missing intermediate table from zeroed frames of `mem`.
    /// Intermediate entries are present, writable, user-accessible and executable.
    /// The slots on the walk must be distinct, as in a tree of tables; a frame is
    /// asked for only when the walk stops above the leaf's depth.
    fn map_raw<M: PhysMem>(
        &self,
        entry: Entry,
        virt_addr: VirtAddr,
        entry_size: PageSize,
        mem: &mut M,
    ) -> (r: Result<(), Error>)
        requires
            old(mem).inv(),
            walk_held(old(mem).words(), old(mem).in_use(), self.root_address(), virt_addr.0, 0),
            path_distinct(old(mem).words(), self.root_address(), virt_addr.0),
        ensures
            final(mem).inv(),
            map_outcome(
                old(mem).words(),
                final(mem).words(),
                old(mem).in_use(),
                final(mem).in_use(),
                self.root_address(),
                entry,
                virt_addr.0,
                entry_size,
                r,
            ),
    ;

    /// Map `virt_addr` through the leaf `entry` for a 4 KiB page.
    fn map_raw_4k<M: PhysMem>(&self, entry: Entry, virt_addr: VirtAddr, mem: &mut M) -> (r:
        Result<(), Error>)
        requires
            old(mem).inv(),
            walk_held(old(mem).words(), old(mem).in_use(), self.root_address(), virt_addr.0, 0),
            path_distinct(old(mem).words(), self.root_address(), virt_addr.0),
        ensures
            final(mem).inv(),
            map_outcome(
                old(mem).words(),
                final(mem).words(),
                old(mem).in_use(),
                final(mem).in_use(),
                self.root_address(),
                entry,
                virt_addr.0,
                PageSize::Size4K,
                r,
            ),
    ;

    /// Map `virt_addr` through the leaf `entry` for a 2 MiB page.
    fn map_raw_2m<M: PhysMem>(&self, entry: Entry, virt_addr: VirtAddr, mem: &mut M) -> (r:
        Result<(), Error>)
        requires
            old(mem).inv(),
            walk_held(old(mem).words(), old(mem).in_use(), self.root_address(), virt_addr.0, 0),
            path_distinct(old(mem).words(), self.root_address(), virt_addr.0),
        ensures
            final(mem).inv(),
            map_outcome(
                old(mem).words(),
                final(mem).words(),
                old(mem).in_use(),
                final(mem).in_use(),
                self.root_address(),
                entry,
                virt_addr.0,
                PageSize::Size2M,
                r,
            ),
    ;
}

impl CanMap for PageTable {
    #[verifier::rlimit(80)]
    fn map_raw<M: PhysMem>(
        &self,
        entry: Entry,
        virt_addr: VirtAddr,
        entry_size: PageSize,
        mem: &mut M,
    ) -> (r: Result<(), Error>)
    {
        let ghost m0 = mem.words();
        let ghost r0 = mem.in_use();
        let ghost root = self.root.0;
        let ghost v = virt_addr.0;
        let ghost w0 = translation(m0, root, v);
        proof {
            lemma_held_dom(m0, r0, root, v, 0);
            lemma_address_aligned(entry.0);
        }
        if !entry.address().is_page_aligned() {
            return Err(Error::CannotMapNonPageAligned);
        }
        let found = self.translate(virt_addr, &*mem);
        if found.phys_addr.is_some() {
            return Err(Error::VirtAddrAlreadyMapped);
        }
        let leaf_depth: usize = match entry_size {
            PageSize::Size512G => 1,
            PageSize::Size2M => 2,
            PageSize::Size4K => 3,
        };
        let indexes = virt_addr.table_indexes();
        let mut entries = found.entries;
        proof {
            lemma_walk_len(m0, root, v, 0, true, true);
            lemma_walk_prefix(m0, r0, root, v, 0);
            assert(new_frames(m0, root, v, w0.2.len() - 1, 0) =~= Set::<int>::empty());
            assert(r0 =~= r0.union(new_frames(m0, root, v, w0.2.len() - 1, 0)));
        }
        let mut depth: usize = 1;
        while depth <= leaf_depth
            invariant
                1 <= depth <= leaf_depth + 1,
                leaf_depth == entry_size.leaf_depth(),
                mem.inv(),
                r0.subset_of(mem.in_use()),
                w0 == translation(m0, root, v),
                m0 == old(mem).words(),
                r0 == old(mem).in_use(),
                w0.0 is None,
                1 <= w0.2.len() <= 4,
                walk_held(m0, r0, root, v, 0),
                root == self.root.0,
                v == virt_addr.0,
                forall|d: int| 0 <= d < 4 ==> indexes@[d] == table_index(v, d),
                forall|j: int|
                    depth <= j < 4 ==> #[trigger] entries@[j] == if j < w0.2.len() {
                        Some(PhysAddr(w0.2[j] as u64))
                    } else {
                        None
                    },
                descend(mem.words(), root, v, (depth - 1) as nat).1,
                forall|j: nat|
                    j < depth ==> {
                        let s = #[trigger] descend(mem.words(), root, v, j).0;
                        &&& entries@[j as int] == Some(PhysAddr(s as u64))
                        &&& mem.in_use().contains(s)
                        &&& mem.words().contains_key(s)
                        &&& s <= u64::MAX
                    },
                depth < w0.2.len() ==> mem.words() == m0 && mem.in_use() == r0,
                depth >= w0.2.len() ==> !present_bit(
                    mem.words()[descend(mem.words(), root, v, (depth - 1) as nat).0],
                ),
                path_distinct(m0, root, v),
                forall|j: int|
                    0 <= j < depth - 1 && j < w0.2.len() - 1 ==> #[trigger] unchanged_level(
                        m0,
                        mem.words(),
                        root,
                        v,
                        j,
                    ),
                forall|j: int|
                    w0.2.len() - 1 <= j < depth - 1 ==> #[trigger] fresh_table(
                        mem.words(),
                        r0,
                        root,
                        v,
                        j,
                    ),
                mem.in_use() == r0.union(
                    new_frames(mem.words(), root, v, w0.2.len() - 1, depth - 1),
                ),
                forall|j1: int, j2: int|
                    w0.2.len() - 1 <= j1 < depth - 1 && w0.2.len() - 1 <= j2 < depth - 1 && j1 != j2
                        ==> #[trigger] frame(table_at(mem.words(), root, v, (j1 + 1) as nat) as int).disjoint(
                    #[trigger] frame(table_at(mem.words(), root, v, (j2 + 1) as nat) as int)),
                forall|a: int|
                    #[trigger] m0.contains_key(a) && !new_frames(
                        mem.words(),
                        root,
                        v,
                        w0.2.len() - 1,
                        depth - 1,
                    ).contains(a) ==> mem.words().contains_key(a) && (mem.words()[a] == m0[a]
                        || exists|j: int|
                        0 <= j < depth && a == #[trigger] descend(mem.words(), root, v, j as nat).0),
            decreases leaf_depth + 1 - depth,
        {
            let ghost m1 = mem.words();
            let ghost old_in_use = mem.in_use();
            let ghost prev_slot = descend(m1, root, v, (depth - 1) as nat).0;
            proof {
                if depth < w0.2.len() {
                    assert(entries@[depth as int] is Some);
                } else {
                    assert(entries@[depth as int] is None);
                }
            }
            if entries[depth].is_some() {
                proof {
                    lemma_walk_prefix(m0, r0, root, v, depth as nat);
                    assert(new_frames(m1, root, v, w0.2.len() - 1, depth as int) =~= new_frames(
                        m1,
                        root,
                        v,
                        w0.2.len() - 1,
                        depth - 1,
                    ));
                }
                depth += 1;
            } else {
                let page = match mem.alloc_page_zeroed() {
                    Ok(p) => p,
                    Err(e) => {
                        assert(w0.2.len() <= leaf_depth);
                        proof {
                            let k = w0.2.len() - 1;
                            let nf = new_frames(m1, root, v, k, depth - 1);
                            assert forall|a: int|
                                #[trigger] m0.contains_key(a) && !(mem.in_use().contains(a) && !r0.contains(a))
                                    implies mem.words().contains_key(a) && (mem.words()[a] == m0[a] || exists|j: int|
                                    0 <= j <= leaf_depth && a == #[trigger] descend(mem.words(), root, v, j as nat).0) by {
                                if nf.contains(a) {
                                    let j = choose|j: int| k <= j < depth - 1 && #[trigger] frame(table_at(m1, root, v, (j + 1) as nat) as int).contains(a);
                                    assert(fresh_table(m1, r0, root, v, j));
                                    assert(old_in_use.contains(a));
                                }
                                if m1[a] != m0[a] {
                                    let j = choose|j: int| 0 <= j < depth && a == #[trigger] descend(m1, root, v, j as nat).0;
                                }
                            }
                        }
                        return Err(Error::Allocation(e));
                    },
                };
                let ghost m2 = mem.words();
                proof {
                    assert forall|a: int| m1.contains_key(a) && !frame(page.0 as int).contains(a) implies #[trigger] m2.contains_key(a) && m2[a] == m1[a] by {}
                    assert forall|a: int| #[trigger] frame(page.0 as int).contains(a) implies !old_in_use.contains(a) by {}
                    lemma_table_entry(page.0);
                    assert forall|j: nat| j < depth implies (#[trigger] m1.contains_key(
                        descend(m1, root, v, j).0,
                    ) <==> m2.contains_key(descend(m1, root, v, j).0)) && m1[descend(
                        m1,
                        root,
                        v,
                        j,
                    ).0] == m2[descend(m1, root, v, j).0] by {
                        let s = descend(m1, root, v, j).0;
                        assert(!frame(page.0 as int).contains(s));
                    }
                    lemma_descend_frame(m1, m2, root, v, (depth - 1) as nat);
                    assert forall|j: nat| j < depth implies descend(m1, root, v, j) == descend(
                        m2,
                        root,
                        v,
                        j,
                    ) by {
                        lemma_descend_frame(m1, m2, root, v, j);
                    }
                }
                let builder = EntryBuilder::default().address(page).present(true).user_permitted(
                    true,
                ).writable(true).execute_disable(false).page_size(PageSize::Size4K);
                let new_entry = builder.finish();
                assert(new_entry.0 == table_entry(page.0)) by {
                    let pa = page.0;
                    assert(encode(builder) == pa | 1u64 | 2u64 | 4u64 | 0u64 | 0u64 | 0u64 | 0u64
                        | 0u64 | 0u64 | 0u64 | (((0u8 & 0xf) as u64) << 59u64));
                    assert((pa | 1u64 | 2u64 | 4u64 | 0u64 | 0u64 | 0u64 | 0u64 | 0u64 | 0u64 | 0u64
                        | (((0u8 & 0xf) as u64) << 59u64)) == pa | 7) by (bit_vector);
                }
                let prev = match entries[depth - 1] {
                    Some(p) => p,
                    None => {
                        assert(false);
                        return Err(Error::VirtAddrAlreadyMapped);
                    },
                };
                assert(prev.0 as int == prev_slot);
                mem.write_u64(prev, new_entry.0);
                let ghost m3 = mem.words();
                proof {
                    assert forall|j: nat| j < depth - 1 implies (#[trigger] m2.contains_key(
                        descend(m2, root, v, j).0,
                    ) <==> m3.contains_key(descend(m2, root, v, j).0)) && m2[descend(
                        m2,
                        root,
                        v,
                        j,
                    ).0] == m3[descend(m2, root, v, j).0] by {
                        lemma_linked_present(m2, root, v, (depth - 1) as nat, j);
                    }
                    assert forall|j: nat| j < depth implies descend(m2, root, v, j) == descend(
                        m3,
                        root,
                        v,
                        j,
                    ) by {
                        assert forall|i: nat| i < j implies (#[trigger] m2.contains_key(
                            descend(m2, root, v, i).0,
                        ) <==> m3.contains_key(descend(m2, root, v, i).0)) && m2[descend(
                            m2,
                            root,
                            v,
                            i,
                        ).0] == m3[descend(m2, root, v, i).0] by {
                            lemma_linked_present(m2, root, v, (depth - 1) as nat, i);
                        }
                        lemma_descend_frame(m2, m3, root, v, j);
                    }
                }
                let index = indexes[depth];
                proof {
                    lemma_mask_bound(v >> crate::global_types::level_shift(depth as int), 0x1ff);
                    assert(index == table_index(v, depth as int));
                    assert(index <= 0x1ff);
                    assert(page.0 + 0x1000 <= 0x10_0000_0000_0000);
                }
                let slot = page.offset(8 * index as u64);
                entries[depth] = Some(slot);
                proof {
                    let nd = descend(m3, root, v, depth as nat);
                    assert(nd.0 == slot.0 as int);
                    assert(frame(page.0 as int).contains(slot.0 as int));
                    assert(m3[slot.0 as int] == 0) by {
                        assert(m2[page.0 + 8 * index] == 0);
                    }
                    lemma_zero_not_present();
                    let k = w0.2.len() - 1;
                    let d = depth as int;
                    assert forall|j: int| 0 <= j < d - 1 implies table_at(m3, root, v, (j + 1) as nat)
                        == table_at(m1, root, v, (j + 1) as nat) && #[trigger] m3[descend(
                        m3,
                        root,
                        v,
                        j as nat,
                    ).0] == m1[descend(m1, root, v, j as nat).0] && descend(m3, root, v, j as nat)
                        == descend(m1, root, v, j as nat) by {
                        assert(m1.contains_key(descend(m1, root, v, j as nat).0));
                        assert(m2.contains_key(descend(m2, root, v, j as nat).0));
                    }
                    assert(descend(m3, root, v, (d - 1) as nat) == descend(m1, root, v, (d - 1) as nat));
                    assert(m3[prev_slot] == table_entry(page.0));
                    assert(table_at(m3, root, v, d as nat) == page.0);
                    assert forall|j: int| 0 <= j < d && j < k implies #[trigger] unchanged_level(
                        m0,
                        m3,
                        root,
                        v,
                        j,
                    ) by {
                        assert(unchanged_level(m0, m1, root, v, j));
                        assert(m3[descend(m3, root, v, j as nat).0] == m1[descend(m1, root, v, j as nat).0]);
                    }
                    assert(old_in_use.contains(prev_slot));
                    assert(!frame(page.0 as int).contains(prev_slot));
                    assert forall|j: int| k <= j < d - 1 implies #[trigger] frame(table_at(m1, root, v, (j + 1) as nat) as int).subset_of(old_in_use) by {
                        assert forall|a: int| frame(table_at(m1, root, v, (j + 1) as nat) as int).contains(a) implies old_in_use.contains(a) by {
                            assert(new_frames(m1, root, v, k, d - 1).contains(a));
                        }
                    }
                    assert forall|j: int| k <= j < d implies #[trigger] fresh_table(m3, r0, root, v, j) by {
                        if j < d - 1 {
                            let t = table_at(m1, root, v, (j + 1) as nat);
                            assert(fresh_table(m1, r0, root, v, j));
                            assert(m3[descend(m3, root, v, j as nat).0] == m1[descend(m1, root, v, j as nat).0]);
                            assert(descend(m3, root, v, (j + 1) as nat) == descend(m1, root, v, (j + 1) as nat));
                            if j + 1 < d - 1 {
                                lemma_slot_in_frame(m1, root, v, (d - 1) as nat);
                                assert(frame(table_at(m1, root, v, (j + 1) as nat) as int).disjoint(
                                    frame(table_at(m1, root, v, (d - 2 + 1) as nat) as int)));
                            }
                            assert forall|i: int|
                                0 <= i < 512 && frame_word(t, i) != descend(m3, root, v, (j + 1) as nat).0
                                    implies m3.contains_key(#[trigger] frame_word(t, i)) && m3[frame_word(t, i)] == 0 by {
                                let w = frame_word(t, i);
                                assert(m1.contains_key(frame_word(t, i)) && m1[frame_word(t, i)] == 0);
                                assert(frame(t as int).contains(w));
                                assert(old_in_use.contains(w));
                                assert(!frame(page.0 as int).contains(w));
                                assert(m1.contains_key(w));
                                assert(m2.contains_key(w));
                                assert(m2[w] == m1[w]);
                                assert(w != prev_slot);
                            }
                        } else {
                            assert forall|a: int| #[trigger] frame(page.0 as int).contains(a) implies !r0.contains(a) by {
                                assert(!old_in_use.contains(a));
                            }
                            assert forall|i: int|
                                0 <= i < 512 && frame_word(page.0, i) != descend(m3, root, v, (j + 1) as nat).0
                                    implies m3.contains_key(#[trigger] frame_word(page.0, i)) && m3[frame_word(page.0, i)] == 0 by {
                                let w = frame_word(page.0, i);
                                assert(m2[page.0 + 8 * i] == 0);
                                assert(frame(page.0 as int).contains(w));
                                assert(w != prev_slot);
                            }
                        }
                    }
                    assert forall|j1: int, j2: int|
                        k <= j1 < d && k <= j2 < d && j1 != j2 implies #[trigger] frame(table_at(m3, root, v, (j1 + 1) as nat) as int).disjoint(
                        #[trigger] frame(table_at(m3, root, v, (j2 + 1) as nat) as int)) by {
                        if j1 < d - 1 && j2 < d - 1 {
                            assert(frame(table_at(m1, root, v, (j1 + 1) as nat) as int).disjoint(
                                frame(table_at(m1, root, v, (j2 + 1) as nat) as int)));
                        } else if j1 == d - 1 {
                            assert(frame(table_at(m1, root, v, (j2 + 1) as nat) as int).subset_of(old_in_use));
                            assert forall|a: int| frame(page.0 as int).contains(a) implies !frame(table_at(m1, root, v, (j2 + 1) as nat) as int).contains(a) by {
                                assert(!old_in_use.contains(a));
                            }
                        } else {
                            assert(frame(table_at(m1, root, v, (j1 + 1) as nat) as int).subset_of(old_in_use));
                            assert forall|a: int| frame(page.0 as int).contains(a) implies !frame(table_at(m1, root, v, (j1 + 1) as nat) as int).contains(a) by {
                                assert(!old_in_use.contains(a));
                            }
                        }
                    }
                    let nf1 = new_frames(m1, root, v, k, d - 1);
                    let nf3 = new_frames(m3, root, v, k, d);
                    assert forall|a: int| nf3.contains(a) <==> nf1.contains(a) || frame(page.0 as int).contains(a) by {
                        if nf3.contains(a) {
                            let j = choose|j: int| k <= j < d && #[trigger] frame(table_at(m3, root, v, (j + 1) as nat) as int).contains(a);
                            if j < d - 1 {
                                assert(frame(table_at(m1, root, v, (j + 1) as nat) as int).contains(a));
                            }
                        }
                        if nf1.contains(a) {
                            let j = choose|j: int| k <= j < d - 1 && #[trigger] frame(table_at(m1, root, v, (j + 1) as nat) as int).contains(a);
                            assert(frame(table_at(m3, root, v, (j + 1) as nat) as int).contains(a));
                        }
                        if frame(page.0 as int).contains(a) {
                            assert(frame(table_at(m3, root, v, (d - 1 + 1) as nat) as int).contains(a));
                        }
                    }
                    assert(mem.in_use() =~= r0.union(nf3));
                    assert forall|a: int| #[trigger] m0.contains_key(a) && !nf3.contains(a) implies m3.contains_key(a) && (m3[a] == m0[a] || exists|j: int| 0 <= j < d + 1 && a == #[trigger] descend(m3, root, v, j as nat).0) by {
                        assert(!nf1.contains(a));
                        assert(!frame(page.0 as int).contains(a));
                        if a == prev_slot {
                            assert(a == descend(m3, root, v, (d - 1) as nat).0);
                        } else if m1[a] != m0[a] {
                            let j = choose|j: int| 0 <= j < d && a == #[trigger] descend(m1, root, v, j as nat).0;
                            if j < d - 1 {
                                assert(descend(m3, root, v, j as nat) == descend(m1, root, v, j as nat));
                            }
                            assert(a == descend(m3, root, v, j as nat).0);
                        }
                    }
                }
                depth += 1;
            }
        }
        let ghost m4 = mem.words();
        let ghost leaf_s = descend(m4, root, v, leaf_depth as nat).0;
        assert(entries@[leaf_depth as int] == Some(PhysAddr(leaf_s as u64)));
        let leaf_slot = match entries[leaf_depth] {
            Some(p) => p,
            None => {
                assert(false);
                return Err(Error::VirtAddrAlreadyMapped);
            },
        };
        mem.write_u64(leaf_slot, entry.0);
        proof {
            let n = leaf_depth as nat;
            let m5 = mem.words();
            let k = w0.2.len() - 1;
            assert(leaf_slot.0 as int == leaf_s);
            assert forall|j: nat| j < n implies leaf_s != descend(m4, root, v, j).0 by {
                if w0.2.len() <= n + 1 {
                    lemma_linked_present(m4, root, v, n, j);
                } else {
                    lemma_walk_prefix(m0, r0, root, v, j);
                    lemma_walk_prefix(m0, r0, root, v, n);
                    assert(w0.2[j as int] != w0.2[n as int]);
                }
            }
            assert forall|j: nat| j < n implies (#[trigger] m4.contains_key(
                descend(m4, root, v, j).0,
            ) <==> m5.contains_key(descend(m4, root, v, j).0)) && m4[descend(
                m4,
                root,
                v,
                j,
            ).0] == m5[descend(m4, root, v, j).0] by {
                assert(leaf_s != descend(m4, root, v, j).0);
            }
            assert forall|j: nat| j <= n implies #[trigger] descend(m5, root, v, j) == descend(
                m4,
                root,
                v,
                j,
            ) by {
                lemma_descend_frame(m4, m5, root, v, j);
            }
            assert forall|j: int| 0 <= j < n implies table_at(m5, root, v, (j + 1) as nat)
                == table_at(m4, root, v, (j + 1) as nat) && #[trigger] m5[descend(
                m5,
                root,
                v,
                j as nat,
            ).0] == m4[descend(m4, root, v, j as nat).0] by {
                assert(descend(m5, root, v, j as nat) == descend(m4, root, v, j as nat));
                assert(m4.contains_key(descend(m4, root, v, j as nat).0));
            }
            assert(descend(m5, root, v, n) == descend(m4, root, v, n));
            assert forall|j: int| 0 <= j < n && j < k implies #[trigger] unchanged_level(
                m0,
                m5,
                root,
                v,
                j,
            ) by {
                assert(unchanged_level(m0, m4, root, v, j));
                assert(m5[descend(m5, root, v, j as nat).0] == m4[descend(m4, root, v, j as nat).0]);
            }
            assert forall|j: int| k <= j < n implies #[trigger] fresh_table(m5, r0, root, v, j) by {
                let t = table_at(m4, root, v, (j + 1) as nat);
                assert(fresh_table(m4, r0, root, v, j));
                assert(m5[descend(m5, root, v, j as nat).0] == m4[descend(m4, root, v, j as nat).0]);
                assert(descend(m5, root, v, (j + 1) as nat) == descend(m4, root, v, (j + 1) as nat));
                if j + 1 < n {
                    lemma_slot_in_frame(m4, root, v, n);
                    assert(frame(table_at(m4, root, v, (j + 1) as nat) as int).disjoint(
                        frame(table_at(m4, root, v, (n - 1 + 1) as nat) as int)));
                }
                assert forall|i: int|
                    0 <= i < 512 && frame_word(t, i) != descend(m5, root, v, (j + 1) as nat).0
                        implies m5.contains_key(#[trigger] frame_word(t, i)) && m5[frame_word(t, i)] == 0 by {
                    let w = frame_word(t, i);
                    assert(m4.contains_key(frame_word(t, i)) && m4[frame_word(t, i)] == 0);
                    assert(frame(t as int).contains(w));
                    assert(w != leaf_s);
                }
            }
            let nf4 = new_frames(m4, root, v, k, n as int);
            let nf5 = new_frames(m5, root, v, k, n as int);
            assert forall|a: int| nf5.contains(a) <==> nf4.contains(a) by {
                if nf5.contains(a) {
                    let j = choose|j: int| k <= j < n && #[trigger] frame(table_at(m5, root, v, (j + 1) as nat) as int).contains(a);
                    assert(frame(table_at(m4, root, v, (j + 1) as nat) as int).contains(a));
                }
                if nf4.contains(a) {
                    let j = choose|j: int| k <= j < n && #[trigger] frame(table_at(m4, root, v, (j + 1) as nat) as int).contains(a);
                    assert(frame(table_at(m5, root, v, (j + 1) as nat) as int).contains(a));
                }
            }
            assert(nf5 =~= nf4);
            assert forall|a: int| #[trigger] m0.contains_key(a) && !nf5.contains(a) implies m5.contains_key(a) && (m5[a] == m0[a] || exists|j: int| 0 <= j <= n && a == #[trigger] descend(m5, root, v, j as nat).0) by {
                assert(!nf4.contains(a));
                assert(m4.contains_key(a));
                assert(m4[a] == m0[a] || exists|j: int| 0 <= j < n + 1 && a == #[trigger] descend(m4, root, v, j as nat).0);
                if a == leaf_s {
                    assert(a == descend(m5, root, v, n).0);
                } else {
                    assert(m5.contains_key(a) && m5[a] == m4[a]);
                    if m4[a] != m0[a] {
                        let j = choose|j: int| 0 <= j < n + 1 && a == #[trigger] descend(m4, root, v, j as nat).0;
                        assert(descend(m5, root, v, j as nat) == descend(m4, root, v, j as nat));
                        assert(a == descend(m5, root, v, j as nat).0);
                    }
                }
            }
            if leaf_for(entry.0, entry_size) {
                lemma_leaf_translation(m5, root, v, entry_size);
                assert forall|j: nat| j <= n implies mem.in_use().contains(#[trigger] descend(m5, root, v, j).0) && m5.contains_key(descend(m5, root, v, j).0) && descend(m5, root, v, j).0 <= u64::MAX by {
                    assert(descend(m5, root, v, j) == descend(m4, root, v, j));
                    assert(m4.contains_key(descend(m4, root, v, j).0));
                }
                lemma_held_from(m5, mem.in_use(), root, v, n, 0);
            }
        }
        Ok(())
    }


    fn map_raw_4k<M: PhysMem>(&self, entry: Entry, virt_addr: VirtAddr, mem: &mut M) -> (r:
        Result<(), Error>)
    {
        self.map_raw(entry, virt_addr, PageSize::Size4K, mem)
    }


    fn map_raw_2m<M: PhysMem>(&self, entry: Entry, virt_addr: VirtAddr, mem: &mut M) -> (r:
        Result<(), Error>)
    {
        self.map_raw(entry, virt_addr, PageSize::Size2M, mem)
    }

}

/// Raising the rights of the entries on a translation's path.
pub trait CanUpdatePerms: CanTranslate {
    /// Raise the rights of every entry on the walk of `virt_addr`: set the writable
    /// bit when `perms` asks for writes and clear execute-disable when it asks for
    /// execution. Rights are never taken away.
    fn update_perms<M: PhysMem>(&self, virt_addr: VirtAddr, perms: Permissions, mem: &mut M)
        requires
            old(mem).inv(),
            walk_held(old(mem).words(), old(mem).words().dom(), self.root_address(), virt_addr.0, 0),
        ensures
            final(mem).inv(),
            final(mem).in_use() == old(mem).in_use(),
            final(mem).words().dom() == old(mem).words().dom(),
            forall|a: int|
                #[trigger] old(mem).words().contains_key(a) ==> final(mem).words()[a] == if translation(
                    old(mem).words(),
                    self.root_address(),
                    virt_addr.0,
                ).2.contains(a) {
                    raised(old(mem).words()[a], perms)
                } else {
                    old(mem).words()[a]
                },
    ;

    /// Make the page holding `virt_addr` writable and executable.
    fn set_writable_executable<M: PhysMem>(&self, virt_addr: VirtAddr, mem: &mut M)
        requires
            old(mem).inv(),
            walk_held(old(mem).words(), old(mem).words().dom(), self.root_address(), virt_addr.0, 0),
        ensures
            final(mem).inv(),
            final(mem).in_use() == old(mem).in_use(),
            final(mem).words().dom() == old(mem).words().dom(),
            forall|a: int|
                #[trigger] old(mem).words().contains_key(a) ==> final(mem).words()[a] == if translation(
                    old(mem).words(),
                    self.root_address(),
                    virt_addr.0,
                ).2.contains(a) {
                    raised(old(mem).words()[a], Permissions { readable: true, writable: true, executable: true })
                } else {
                    old(mem).words()[a]
                },
    ;
}

impl CanUpdatePerms for PageTable {
    #[verifier::rlimit(30)]
    fn update_perms<M: PhysMem>(&self, virt_addr: VirtAddr, perms: Permissions, mem: &mut M)
    {
        let ghost m0 = mem.words();
        let ghost w = translation(m0, self.root.0, virt_addr.0);
        let found = self.translate(virt_addr, &*mem);
        proof {
            lemma_walk_len(m0, self.root.0, virt_addr.0, 0, true, true);
            assert forall|k: int| 0 <= k < w.2.len() implies m0.contains_key(#[trigger] w.2[k])
                && 0 <= w.2[k] <= u64::MAX by {
                lemma_walk_prefix(m0, m0.dom(), self.root.0, virt_addr.0, k as nat);
            }
        }
        let mut i: usize = 0;
        while i < 4
            invariant
                i <= 4,
                mem.inv(),
                mem.in_use() == old(mem).in_use(),
                m0 == old(mem).words(),
                w == translation(m0, self.root.0, virt_addr.0),
                w.2.len() <= 4,
                reports(found, virt_addr.0, w),
                mem.words().dom() == m0.dom(),
                forall|k: int| 0 <= k < w.2.len() ==> m0.contains_key(#[trigger] w.2[k]) && 0
                    <= w.2[k] <= u64::MAX,
                forall|a: int|
                    #[trigger] m0.contains_key(a) ==> mem.words()[a] == if w.2.subrange(
                        0,
                        if i < w.2.len() {
                            i as int
                        } else {
                            w.2.len() as int
                        },
                    ).contains(a) {
                        raised(m0[a], perms)
                    } else {
                        m0[a]
                    },
            decreases 4 - i,
        {
            let ghost before = mem.words();
            let ghost done = w.2.subrange(0, if i < w.2.len() { i as int } else { w.2.len() as int });
            if let Some(slot) = found.entries[i] {
                assert(found.entries@[i as int] == Some(slot));
                assert(i < w.2.len());
                assert(slot.0 as int == w.2[i as int]);
                let current = mem.read_u64(slot);
                let mut e = Entry(current);
                if perms.writable {
                    e.set_writable();
                }
                if perms.executable {
                    e.set_executable();
                }
                assert(e.0 == raised(current, perms));
                proof {
                    lemma_raise_twice(m0[slot.0 as int]);
                    assert(raised(raised(m0[slot.0 as int], perms), perms) == raised(
                        m0[slot.0 as int],
                        perms,
                    ));
                }
                mem.write_u64(slot, e.0);
                let ghost next = w.2.subrange(0, i as int + 1);
                assert(next =~= done.push(slot.0 as int));
                assert forall|a: int| #[trigger] m0.contains_key(a) implies mem.words()[a] == if next.contains(a) {
                    raised(m0[a], perms)
                } else {
                    m0[a]
                } by {
                    if a != slot.0 as int {
                        if next.contains(a) {
                            let k = choose|k: int| 0 <= k < next.len() && next[k] == a;
                            assert(done[k] == a);
                        }
                        if done.contains(a) {
                            let k = choose|k: int| 0 <= k < done.len() && done[k] == a;
                            assert(next[k] == a);
                        }
                    } else {
                        assert(next[i as int] == a);
                    }
                }
            } else {
                assert(w.2.subrange(0, if i + 1 < w.2.len() { i as int + 1 } else { w.2.len() as int }) =~= done);
            }
            i += 1;
        }
        assert(w.2.subrange(0, w.2.len() as int) =~= w.2);
    }


    fn set_writable_executable<M: PhysMem>(&self, virt_addr: VirtAddr, mem: &mut M)
    {
        let perms = Permissions { readable: true, writable: true, executable: true };
        self.update_perms(virt_addr, perms, mem)
    }
}

} // verus!
