//! The physical-memory capability that the page-table code allocates frames from
//! and reads and writes entries through.
use vstd::prelude::*;

use crate::global_types::PhysAddr;
use crate::rangeset::{InclusiveRange, RangeSet, RangeSetError, block};

verus! {

/// The addresses of one 4 KiB frame starting at `page`.
pub open spec fn frame(page: int) -> Set<int> {
    Set::new(|a: int| page <= a < page + 0x1000)
}

/// Physical memory seen as 64-bit words, with an allocator that never hands out an
/// address twice.
pub trait PhysMem {
    /// The handle is in a usable state.
    spec fn inv(&self) -> bool;

    /// Words that can be read and written, keyed by their address.
    spec fn words(&self) -> Map<int, u64>;

    /// Addresses that are already taken and will never be handed out.
    spec fn in_use(&self) -> Set<int>;

    /// Read the word at `addr`.
    fn read_u64(&self, addr: PhysAddr) -> (r: u64)
        requires
            self.inv(),
            self.words().contains_key(addr.0 as int),
        ensures
            r == self.words()[addr.0 as int],
    ;

    /// Write `val` to the word at `addr`.
    fn write_u64(&mut self, addr: PhysAddr, val: u64)
        requires
            old(self).inv(),
            old(self).words().contains_key(addr.0 as int),
        ensures
            final(self).inv(),
            final(self).words() == old(self).words().insert(addr.0 as int, val),
            final(self).in_use() == old(self).in_use(),
    ;

    /// Take `size` bytes aligned to `align` that were not in use.
    fn alloc_phys(&mut self, size: u64, align: u64) -> (r: Result<PhysAddr, RangeSetError>)
        requires
            old(self).inv(),
        ensures
            final(self).inv(),
            final(self).words() == old(self).words(),
            match r {
                Ok(p) => {
                    &&& size > 0
                    &&& p.0 & ((align - 1) as u64) == 0
                    &&& p.0 + size <= u64::MAX + 1
                    &&& forall|a: int| p.0 <= a < p.0 + size ==> !old(self).in_use().contains(a)
                    &&& final(self).in_use() == old(self).in_use().union(
                        Set::new(|a: int| p.0 <= a < p.0 + size),
                    )
                },
                Err(_) => final(self).in_use() == old(self).in_use(),
            },
    ;

    /// Take `size` bytes aligned to 4 KiB that were not in use.
    fn alloc_page_aligned(&mut self, size: u64) -> (r: Result<PhysAddr, RangeSetError>)
        requires
            old(self).inv(),
        ensures
            final(self).inv(),
            final(self).words() == old(self).words(),
            match r {
                Ok(p) => {
                    &&& size > 0
                    &&& p.0 & 0xfff == 0
                    &&& p.0 + size <= u64::MAX + 1
                    &&& forall|a: int| p.0 <= a < p.0 + size ==> !old(self).in_use().contains(a)
                    &&& final(self).in_use() == old(self).in_use().union(
                        Set::new(|a: int| p.0 <= a < p.0 + size),
                    )
                },
                Err(_) => final(self).in_use() == old(self).in_use(),
            },
    {
        self.alloc_phys(size, 0x1000)
    }

    /// Take one 4 KiB frame that was not in use.
    fn alloc_page(&mut self) -> (r: Result<PhysAddr, RangeSetError>)
        requires
            old(self).inv(),
        ensures
            final(self).inv(),
            final(self).words() == old(self).words(),
            match r {
                Ok(p) => {
                    &&& p.0 & 0xfff == 0
                    &&& p.0 + 0x1000 <= u64::MAX + 1
                    &&& forall|a: int| #[trigger] frame(p.0 as int).contains(a) ==> !old(self).in_use().contains(a)
                    &&& final(self).in_use() == old(self).in_use().union(frame(p.0 as int))
                },
                Err(_) => final(self).in_use() == old(self).in_use(),
            },
    {
        let r = self.alloc_page_aligned(0x1000);
        proof {
            if let Ok(p) = r {
                assert(Set::new(|a: int| p.0 <= a < p.0 + 0x1000) =~= frame(p.0 as int));
            }
        }
        r
    }

    /// Take a 4 KiB aligned frame that was not in use and fill it with zeros.
    fn alloc_page_zeroed(&mut self) -> (r: Result<PhysAddr, RangeSetError>)
        requires
            old(self).inv(),
        ensures
            final(self).inv(),
            match r {
                Ok(p) => {
                    &&& p.0 & 0xfff == 0
                    &&& p.0 + 0x1000 <= 0x10_0000_0000_0000
                    &&& forall|a: int| #[trigger] frame(p.0 as int).contains(a) ==> !old(self).in_use().contains(a)
                    &&& final(self).in_use() == old(self).in_use().union(frame(p.0 as int))
                    &&& forall|k: int|
                        0 <= k < 512 ==> final(self).words().contains_key(p.0 + 8 * k)
                            && #[trigger] final(self).words()[p.0 + 8 * k] == 0
                    &&& forall|a: int|
                        old(self).words().contains_key(a) && !frame(p.0 as int).contains(a)
                            ==> #[trigger] final(self).words().contains_key(a)
                            && final(self).words()[a] == old(self).words()[a]
                },
                Err(_) => final(self).words() == old(self).words() && final(self).in_use() == old(
                    self,
                ).in_use(),
            },
    ;
}

/// A window of physical memory held as words, together with the set of its
/// addresses that are still free to allocate.
pub struct MemoryWindow {
    /// Physical address of the first word.
    pub base: u64,
    /// Word `k` sits at `base + 8 * k`.
    pub words: Vec<u64>,
    /// Addresses of the window not handed out yet.
    pub free: RangeSet,
}

proof fn lemma_page_word_aligned(x: u64)
    by (bit_vector)
    requires
        x & 0xfff == 0,
    ensures
        x % 8 == 0,
{
}

proof fn lemma_div_bound(x: int, n: int)
    requires
        0 <= x < 8 * n,
    ensures
        0 <= x / 8 < n,
{
}

proof fn lemma_div_distinct(x: int, y: int)
    requires
        x % 8 == 0,
        y % 8 == 0,
        x != y,
    ensures
        x / 8 != y / 8,
{
}

impl MemoryWindow {
    /// A zeroed window of `num_words` words starting at `base`, all of it free.
    pub fn new(base: u64, num_words: usize) -> (r: Result<MemoryWindow, RangeSetError>)
        requires
            base & 0xfff == 0,
            base + 8 * num_words <= 0x10_0000_0000_0000,
        ensures
            match r {
                Ok(w) => {
                    &&& w.inv()
                    &&& w.base == base
                    &&& w.words@.len() == num_words
                    &&& forall|k: int| 0 <= k < num_words ==> w.words@[k] == 0
                    &&& w.free.addresses() == block(base as int, base + 8 * num_words - 1)
                },
                Err(e) => false,
            },
    {
        let mut words: Vec<u64> = Vec::new();
        let mut k: usize = 0;
        while k < num_words
            invariant
                k <= num_words,
                words@.len() == k,
                forall|i: int| 0 <= i < k ==> words@[i] == 0,
            decreases num_words - k,
        {
            words.push(0);
            k += 1;
        }
        let mut free = RangeSet::new();
        if num_words > 0 {
            let end = base + (8 * num_words as u64 - 1);
            match free.insert(InclusiveRange::new(base, end)) {
                Ok(()) => {},
                Err(e) => {
                    return Err(e);
                },
            }
            assert(InclusiveRange { start: base, end }.span() =~= block(base as int, end as int));
        }
        assert(free.addresses() =~= block(base as int, base + 8 * num_words - 1));
        Ok(MemoryWindow { base, words, free })
    }
}

impl PhysMem for MemoryWindow {
    open spec fn inv(&self) -> bool {
        &&& self.base & 0xfff == 0
        &&& self.base + 8 * self.words@.len() <= 0x10_0000_0000_0000
        &&& self.free.wf()
        &&& forall|a: int|
            #[trigger] self.free.addresses().contains(a) ==> self.base <= a < self.base + 8
                * self.words@.len()
    }

    open spec fn words(&self) -> Map<int, u64> {
        Map::new(
            |a: int| self.base <= a < self.base + 8 * self.words@.len() && (a - self.base) % 8 == 0,
            |a: int| self.words@[(a - self.base) / 8],
        )
    }

    open spec fn in_use(&self) -> Set<int> {
        Set::new(|a: int| !self.free.addresses().contains(a))
    }

    fn read_u64(&self, addr: PhysAddr) -> (r: u64) {
        proof {
            lemma_div_bound(addr.0 - self.base, self.words@.len() as int);
        }
        let n = self.words.len();
        assert((addr.0 - self.base) / 8 < n);
        let index = ((addr.0 - self.base) / 8) as usize;
        self.words[index]
    }

    fn write_u64(&mut self, addr: PhysAddr, val: u64) {
        proof {
            lemma_div_bound(addr.0 - self.base, self.words@.len() as int);
        }
        let n = self.words.len();
        assert((addr.0 - self.base) / 8 < n);
        let index = ((addr.0 - self.base) / 8) as usize;
        let ghost before = self.words();
        self.words.set(index, val);
        assert forall|a: int| #[trigger] self.words().contains_key(a) && a != addr.0 implies self.words()[a] == before[a] by {
            lemma_div_distinct(a - self.base, addr.0 - self.base);
        }
        assert(self.words() =~= before.insert(addr.0 as int, val));
    }

    fn alloc_phys(&mut self, size: u64, align: u64) -> (r: Result<PhysAddr, RangeSetError>) {
        let ghost before = self.in_use();
        match self.free.allocate(size, align) {
            Ok(a) => {
                assert(block(a as int, a + size - 1) =~= Set::new(|x: int| a <= x < a + size));
                assert(self.in_use() =~= before.union(Set::new(|x: int| a <= x < a + size)));
                Ok(PhysAddr(a))
            },
            Err(e) => Err(e),
        }
    }

    #[verifier::rlimit(30)]
    fn alloc_page_zeroed(&mut self) -> (r: Result<PhysAddr, RangeSetError>) {
        let ghost before = self.words();
        let ghost used = self.in_use();
        let ghost old_free = self.free.addresses();
        assert(forall|a: int| old_free.contains(a) ==> self.base <= a < self.base + 8 * self.words@.len());
        let page = match self.free.allocate(0x1000, 0x1000) {
            Ok(a) => PhysAddr(a),
            Err(e) => {
                return Err(e);
            },
        };
        assert(block(page.0 as int, page.0 + 0xfff) =~= frame(page.0 as int));
        assert(self.in_use() =~= used.union(frame(page.0 as int)));
        proof {
            lemma_page_word_aligned(page.0);
            lemma_page_word_aligned(self.base);
            assert(frame(page.0 as int).contains(page.0 + 0xfff));
            assert(frame(page.0 as int).contains(page.0 as int));
            assert(frame(page.0 as int).subset_of(old_free));
            assert(old_free.contains(page.0 + 0xfff));
            assert(old_free.contains(page.0 as int));
        }
        let n = self.words.len();
        assert((page.0 - self.base) / 8 < n);
        let first = ((page.0 - self.base) / 8) as usize;
        assert(first + 512 <= n);
        let mut k: usize = 0;
        while k < 512
            invariant
                k <= 512,
                self.inv(),
                self.in_use() == used.union(frame(page.0 as int)),
                page.0 % 8 == 0,
                self.base % 8 == 0,
                page.0 & 0xfff == 0,
                self.base <= page.0,
                page.0 + 0x1000 <= self.base + 8 * self.words@.len(),
                first == (page.0 - self.base) / 8,
                first + 512 <= self.words@.len(),
                self.words@.len() == n,
                self.words().dom() == before.dom(),
                forall|i: int| 0 <= i < k ==> #[trigger] self.words()[page.0 + 8 * i] == 0,
                forall|a: int|
                    before.contains_key(a) && !frame(page.0 as int).contains(a) ==> #[trigger] self.words()[a]
                        == before[a],
            decreases 512 - k,
        {
            let ghost prev = self.words();
            self.words.set(first + k, 0);
            assert forall|a: int| #[trigger] self.words().contains_key(a) && a != page.0 + 8 * k implies self.words()[a] == prev[a] by {
                lemma_div_distinct(a - self.base, page.0 + 8 * k - self.base);
            }
            assert(self.words() =~= prev.insert(page.0 + 8 * k, 0));
            k += 1;
        }
        Ok(page)
    }
}

} // verus!
