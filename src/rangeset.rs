//! A fixed-capacity set of inclusive `u64` ranges used to manage physical memory.
//!
//! Stored ranges are always valid and never overlap or abut: inserting a range
//! merges it with every neighbour it touches.
use vstd::prelude::*;

use crate::errchain::NumericalError;

verus! {

/// Number of slots available to a [`RangeSet`].
pub const MAX_MEMORY_RANGES: usize = 130;

/// Errors raised by [`RangeSet`] and [`InclusiveRange`] operations.
#[derive(Copy, Clone, Debug, PartialEq, Eq, Structural)]
pub enum RangeSetError {
    /// No free slot is left for another range.
    Full,
    /// A range whose end is below its start.
    InvalidRange,
    /// An allocation of zero bytes was requested.
    ZeroSizedAllocation,
    /// The requested alignment is not a power of two.
    UnalignedAllocation,
    /// A slot index past the live ranges.
    DeleteOutOfBounds,
    /// No stored range can hold the requested aligned block.
    OutOfMemory,
}

/// A range of addresses that includes both of its ends.
#[derive(Clone, Copy, Debug, PartialEq, Eq, Structural)]
pub struct InclusiveRange {
    /// First address of the range.
    pub start: u64,
    /// Last address of the range.
    pub end: u64,
}

impl InclusiveRange {
    /// The range is well formed.
    pub open spec fn valid(self) -> bool {
        self.start <= self.end
    }

    /// The addresses the range holds.
    pub open spec fn span(self) -> Set<int> {
        Set::new(|x: int| self.start <= x <= self.end)
    }

    /// The two ranges overlap or sit next to each other with no gap.
    pub open spec fn touches(self, other: InclusiveRange) -> bool {
        self.start <= other.end + 1 && other.start <= self.end + 1
    }

    /// The two ranges share at least one address.
    pub open spec fn meets(self, other: InclusiveRange) -> bool {
        self.start <= other.end && other.start <= self.end
    }

    /// `other` lies inside `self` with addresses of `self` left on both sides.
    pub open spec fn strictly_holds(self, other: InclusiveRange) -> bool {
        self.start < other.start && other.end < self.end
    }

    /// Number of addresses in a valid range.
    pub open spec fn count(self) -> int {
        self.end - self.start + 1
    }

    /// Build a range from its two ends.
    pub fn new(start: u64, end: u64) -> (r: InclusiveRange)
        ensures
            r.start == start,
            r.end == end,
    {
        InclusiveRange { start, end }
    }

    /// Whether the start does not exceed the end.
    pub fn is_valid(&self) -> (r: bool)
        ensures
            r == self.valid(),
    {
        self.start <= self.end
    }

    /// Whether `rhs` lies wholly inside `self`.
    pub fn contains(&self, rhs: &InclusiveRange) -> (r: Result<bool, RangeSetError>)
        ensures
            match r {
                Ok(b) => self.valid() && rhs.valid() && b == (self.start <= rhs.start
                    && rhs.end <= self.end),
                Err(e) => !(self.valid() && rhs.valid()) && e == RangeSetError::InvalidRange,
            },
    {
        if !self.is_valid() || !rhs.is_valid() {
            return Err(RangeSetError::InvalidRange);
        }
        Ok(self.start <= rhs.start && self.end >= rhs.end)
    }

    /// When the two ranges overlap or abut, the region from the larger start to one
    /// past the smaller end (saturating at `u64::MAX`); `None` when a gap separates them.
    pub fn overlaps(&self, rhs: &InclusiveRange) -> (r: Result<
        Option<InclusiveRange>,
        RangeSetError,
    >)
        ensures
            match r {
                Ok(o) => self.valid() && rhs.valid() && (o is Some <==> self.touches(*rhs)) && (
                o is Some ==> ({
                    let lo = if self.start >= rhs.start { self.start } else { rhs.start };
                    let hi = if self.end <= rhs.end { self.end } else { rhs.end };
                    &&& o->0.start == lo
                    &&& o->0.end == if hi == u64::MAX { hi as int } else { hi + 1 }
                })),
                Err(e) => !(self.valid() && rhs.valid()) && e == RangeSetError::InvalidRange,
            },
    {
        if !self.is_valid() || !rhs.is_valid() {
            return Err(RangeSetError::InvalidRange);
        }
        let left_ok = rhs.end == u64::MAX || self.start <= rhs.end + 1;
        let right_ok = self.end == u64::MAX || rhs.start <= self.end + 1;
        if left_ok && right_ok {
            let lo = if self.start >= rhs.start { self.start } else { rhs.start };
            let hi = if self.end <= rhs.end { self.end } else { rhs.end };
            Ok(Some(InclusiveRange { start: lo, end: hi.saturating_add(1) }))
        } else {
            Ok(None)
        }
    }

    /// Number of addresses in the range; the `[0, 0]` sentinel counts as empty.
    pub fn len(&self) -> (r: u64)
        requires
            self.valid(),
            self.count() <= u64::MAX,
        ensures
            r == if self.start == 0 && self.end == 0 { 0 } else { self.count() },
    {
        if self.end == 0 && self.start == 0 {
            return 0;
        }
        self.end - self.start + 1
    }
}


/// Every address held by some range of `s`.
pub open spec fn covered(s: Seq<InclusiveRange>) -> Set<int> {
    Set::new(|x: int| exists|i: int| 0 <= i < s.len() && (#[trigger] s[i]).start <= x <= s[i].end)
}

/// Sum of the lengths of the ranges of `s`.
pub open spec fn total(s: Seq<InclusiveRange>) -> int
    decreases s.len(),
{
    if s.len() == 0 {
        0
    } else {
        total(s.drop_last()) + s.last().count()
    }
}

/// `align` is a power of two.
pub open spec fn is_pow2(align: u64) -> bool {
    align != 0 && align & ((align - 1) as u64) == 0
}

/// Bytes needed to raise `start` to the next multiple of `align`.
pub open spec fn padding(start: u64, align: u64) -> u64 {
    ((align - (start & ((align - 1) as u64))) as u64) & ((align - 1) as u64)
}

/// An aligned block of `size` addresses fits inside `r`.
pub open spec fn fits(r: InclusiveRange, size: u64, align: u64) -> bool {
    r.start + padding(r.start, align) + size - 1 <= r.end
}

/// The aligned block of `size` addresses placed at the start of `r`.
pub open spec fn fitted_block(r: InclusiveRange, size: u64, align: u64) -> InclusiveRange {
    InclusiveRange {
        start: (r.start + padding(r.start, align)) as u64,
        end: (r.start + padding(r.start, align) + size - 1) as u64,
    }
}

/// Slot `i` of `s` is the best-fit choice for an aligned block of `size`: it fits,
/// no fitting slot needs less padding, and no earlier fitting slot needs as little.
pub open spec fn best_fit(s: Seq<InclusiveRange>, size: u64, align: u64, i: int) -> bool {
    &&& 0 <= i < s.len()
    &&& fits(s[i], size, align)
    &&& forall|j: int|
        0 <= j < s.len() && #[trigger] fits(s[j], size, align) ==> padding(s[i].start, align)
            <= padding(s[j].start, align)
    &&& forall|j: int|
        0 <= j < i && #[trigger] fits(s[j], size, align) ==> padding(s[i].start, align) < padding(
            s[j].start,
            align,
        )
}

/// Every range is valid, and any two distinct ranges leave a gap of at least one
/// address between them.
pub open spec fn ranges_wf(s: Seq<InclusiveRange>) -> bool {
    &&& forall|i: int| 0 <= i < s.len() ==> (#[trigger] s[i]).valid()
    &&& forall|i: int, j: int|
        0 <= i < s.len() && 0 <= j < s.len() && i != j ==> #[trigger] s[i].end + 1 < #[trigger] s[j].start
            || s[j].end + 1 < s[i].start
}

/// The addresses `[start, end]`.
pub open spec fn block(start: int, end: int) -> Set<int> {
    Set::new(|x: int| start <= x <= end)
}

/// The sequence left after removing slot `i` by moving the last range into it.
pub open spec fn swap_remove(s: Seq<InclusiveRange>, i: int) -> Seq<InclusiveRange> {
    s.update(i, s.last()).drop_last()
}

proof fn lemma_touch_merge(a: InclusiveRange, b: InclusiveRange)
    requires
        a.valid(),
        b.valid(),
        a.touches(b),
    ensures
        ({
            let lo = if a.start <= b.start { a.start } else { b.start };
            let hi = if a.end >= b.end { a.end } else { b.end };
            block(lo as int, hi as int) == a.span().union(b.span())
        }),
{
    let lo = if a.start <= b.start { a.start } else { b.start };
    let hi = if a.end >= b.end { a.end } else { b.end };
    assert(block(lo as int, hi as int) =~= a.span().union(b.span()));
}

proof fn lemma_covered_push(s: Seq<InclusiveRange>, v: InclusiveRange)
    ensures
        covered(s.push(v)) == covered(s).union(v.span()),
{
    let t = s.push(v);
    assert forall|x: int| covered(t).contains(x) implies #[trigger] covered(s).union(
        v.span(),
    ).contains(x) by {
        let i = choose|i: int| 0 <= i < t.len() && (#[trigger] t[i]).start <= x <= t[i].end;
        if i < s.len() {
            assert(s[i] == t[i]);
        }
    }
    assert forall|x: int| #[trigger] covered(s).union(v.span()).contains(x) implies covered(
        t,
    ).contains(x) by {
        if covered(s).contains(x) {
            let i = choose|i: int| 0 <= i < s.len() && (#[trigger] s[i]).start <= x <= s[i].end;
            assert(t[i] == s[i]);
        } else {
            assert(t[s.len() as int] == v);
        }
    }
    assert(covered(t) =~= covered(s).union(v.span()));
}

proof fn lemma_covered_swap_remove(s: Seq<InclusiveRange>, i: int)
    requires
        0 <= i < s.len(),
    ensures
        covered(s) == covered(swap_remove(s, i)).union(s[i].span()),
{
    let t = swap_remove(s, i);
    let n = s.len() - 1;
    assert forall|x: int| covered(s).contains(x) implies #[trigger] covered(t).union(
        s[i].span(),
    ).contains(x) by {
        let k = choose|k: int| 0 <= k < s.len() && (#[trigger] s[k]).start <= x <= s[k].end;
        if k == i {
        } else if k == n {
            assert(t[i] == s[k]);
        } else {
            assert(t[k] == s[k]);
        }
    }
    assert forall|x: int| #[trigger] covered(t).union(s[i].span()).contains(x) implies covered(
        s,
    ).contains(x) by {
        if covered(t).contains(x) {
            let k = choose|k: int| 0 <= k < t.len() && (#[trigger] t[k]).start <= x <= t[k].end;
            if k == i {
                assert(s[n] == t[k]);
            } else {
                assert(s[k] == t[k]);
            }
        } else {
            assert(s[i].start <= x <= s[i].end);
        }
    }
    assert(covered(s) =~= covered(t).union(s[i].span()));
}

proof fn lemma_swap_remove_wf(s: Seq<InclusiveRange>, i: int)
    requires
        0 <= i < s.len(),
        ranges_wf(s),
    ensures
        ranges_wf(swap_remove(s, i)),
{
    let t = swap_remove(s, i);
    let n = s.len() - 1;
    assert forall|a: int, b: int|
        0 <= a < t.len() && 0 <= b < t.len() && a != b implies #[trigger] t[a].end + 1
        < #[trigger] t[b].start || t[b].end + 1 < t[a].start by {
        let fa = if a == i { n } else { a };
        let fb = if b == i { n } else { b };
        assert(t[a] == s[fa]);
        assert(t[b] == s[fb]);
    }
    assert forall|a: int| 0 <= a < t.len() implies (#[trigger] t[a]).valid() by {
        let fa = if a == i { n } else { a };
        assert(t[a] == s[fa]);
    }
}

proof fn lemma_total_update(s: Seq<InclusiveRange>, i: int, v: InclusiveRange)
    requires
        0 <= i < s.len(),
    ensures
        total(s.update(i, v)) == total(s) - s[i].count() + v.count(),
    decreases s.len(),
{
    let t = s.update(i, v);
    if i == s.len() - 1 {
        assert(t.drop_last() =~= s.drop_last());
    } else {
        assert(t.drop_last() =~= s.drop_last().update(i, v));
        lemma_total_update(s.drop_last(), i, v);
    }
}

proof fn lemma_total_swap_remove(s: Seq<InclusiveRange>, i: int)
    requires
        0 <= i < s.len(),
    ensures
        total(swap_remove(s, i)) == total(s) - s[i].count(),
{
    lemma_total_update(s, i, s.last());
}

proof fn lemma_total_prefix(s: Seq<InclusiveRange>, i: int)
    requires
        0 <= i <= s.len(),
        forall|k: int| 0 <= k < s.len() ==> (#[trigger] s[k]).valid(),
    ensures
        total(s.subrange(0, i)) <= total(s),
    decreases s.len() - i,
{
    if i < s.len() {
        lemma_total_prefix(s, i + 1);
        assert(s.subrange(0, i + 1).drop_last() =~= s.subrange(0, i));
    } else {
        assert(s.subrange(0, i) =~= s);
    }
}

proof fn lemma_split(s: Seq<InclusiveRange>, i: int, r: InclusiveRange)
    requires
        ranges_wf(s),
        0 <= i < s.len(),
        r.valid(),
        s[i].strictly_holds(r),
    ensures
        ({
            let left = InclusiveRange { start: s[i].start, end: (r.start - 1) as u64 };
            let right = InclusiveRange { start: (r.end + 1) as u64, end: s[i].end };
            let t = s.update(i, left).push(right);
            ranges_wf(t) && covered(t) == covered(s).difference(r.span())
        }),
{
    let left = InclusiveRange { start: s[i].start, end: (r.start - 1) as u64 };
    let right = InclusiveRange { start: (r.end + 1) as u64, end: s[i].end };
    let t = s.update(i, left).push(right);
    let n = s.len() as int;
    assert forall|a: int, b: int|
        0 <= a < t.len() && 0 <= b < t.len() && a != b implies #[trigger] t[a].end + 1
        < #[trigger] t[b].start || t[b].end + 1 < t[a].start by {
        if a != i && a != n {
            assert(t[a] == s[a]);
            assert(s[a].end + 1 < s[i].start || s[i].end + 1 < s[a].start);
        }
        if b != i && b != n {
            assert(t[b] == s[b]);
            assert(s[b].end + 1 < s[i].start || s[i].end + 1 < s[b].start);
        }
    }
    assert forall|a: int| 0 <= a < t.len() implies (#[trigger] t[a]).valid() by {
        if a != i && a != n {
            assert(t[a] == s[a]);
        }
    }
    assert forall|x: int| covered(t).contains(x) implies #[trigger] covered(s).difference(
        r.span(),
    ).contains(x) by {
        let k = choose|k: int| 0 <= k < t.len() && (#[trigger] t[k]).start <= x <= t[k].end;
        if k == i || k == n {
            assert(s[i].start <= x <= s[i].end);
        } else {
            assert(t[k] == s[k]);
            assert(s[k].end + 1 < s[i].start || s[i].end + 1 < s[k].start);
        }
    }
    assert forall|x: int| #[trigger] covered(s).difference(r.span()).contains(x) implies covered(
        t,
    ).contains(x) by {
        let k = choose|k: int| 0 <= k < s.len() && (#[trigger] s[k]).start <= x <= s[k].end;
        if k == i {
            if x < r.start {
                assert(t[i] == left);
            } else {
                assert(t[n] == right);
            }
        } else {
            assert(t[k] == s[k]);
        }
    }
    assert(covered(t) =~= covered(s).difference(r.span()));
}

proof fn lemma_shrink(s: Seq<InclusiveRange>, i: int, v: InclusiveRange, cut: Set<int>)
    requires
        ranges_wf(s),
        0 <= i < s.len(),
        v.valid(),
        s[i].start <= v.start,
        v.end <= s[i].end,
        v.span().difference(cut) == s[i].span().difference(cut),
    ensures
        ranges_wf(s.update(i, v)),
        covered(s.update(i, v)).difference(cut) == covered(s).difference(cut),
{
    let t = s.update(i, v);
    assert forall|a: int, b: int|
        0 <= a < t.len() && 0 <= b < t.len() && a != b implies #[trigger] t[a].end + 1
        < #[trigger] t[b].start || t[b].end + 1 < t[a].start by {
        if a != i {
            assert(t[a] == s[a]);
        }
        if b != i {
            assert(t[b] == s[b]);
        }
        assert(s[a].end + 1 < s[b].start || s[b].end + 1 < s[a].start);
    }
    assert forall|a: int| 0 <= a < t.len() implies (#[trigger] t[a]).valid() by {
        if a != i {
            assert(t[a] == s[a]);
        }
    }
    assert forall|x: int| #[trigger] covered(t).difference(cut).contains(x) implies covered(
        s,
    ).difference(cut).contains(x) by {
        let k = choose|k: int| 0 <= k < t.len() && (#[trigger] t[k]).start <= x <= t[k].end;
        if k == i {
            assert(v.span().difference(cut).contains(x));
            assert(s[i].span().contains(x));
        } else {
            assert(t[k] == s[k]);
        }
    }
    assert forall|x: int| #[trigger] covered(s).difference(cut).contains(x) implies covered(
        t,
    ).difference(cut).contains(x) by {
        let k = choose|k: int| 0 <= k < s.len() && (#[trigger] s[k]).start <= x <= s[k].end;
        if k == i {
            assert(s[i].span().difference(cut).contains(x));
            assert(v.span().contains(x));
            assert(t[i] == v);
        } else {
            assert(t[k] == s[k]);
        }
    }
    assert(covered(t).difference(cut) =~= covered(s).difference(cut));
}

proof fn lemma_others_miss(s: Seq<InclusiveRange>, i: int, b: InclusiveRange)
    requires
        ranges_wf(s),
        0 <= i < s.len(),
        s[i].start <= b.start <= b.end <= s[i].end,
    ensures
        forall|k: int| 0 <= k < s.len() && k != i ==> !(#[trigger] s[k]).meets(b),
{
    assert forall|k: int| 0 <= k < s.len() && k != i implies !(#[trigger] s[k]).meets(b) by {
        assert(s[k].end + 1 < s[i].start || s[i].end + 1 < s[k].start);
    }
}

proof fn lemma_covered_misses(s: Seq<InclusiveRange>, b: InclusiveRange)
    requires
        forall|k: int| 0 <= k < s.len() ==> !(#[trigger] s[k]).meets(b),
    ensures
        covered(s).disjoint(b.span()),
{
    assert forall|x: int| covered(s).contains(x) implies !b.span().contains(x) by {
        let k = choose|k: int| 0 <= k < s.len() && (#[trigger] s[k]).start <= x <= s[k].end;
        assert(!s[k].meets(b));
    }
}

proof fn lemma_block_inside(s: Seq<InclusiveRange>, i: int, start: u64, end: u64)
    requires
        0 <= i < s.len(),
        s[i].start <= start <= end <= s[i].end,
    ensures
        block(start as int, end as int).subset_of(covered(s)),
{
    assert forall|x: int| block(start as int, end as int).contains(x) implies covered(s).contains(x) by {
        assert(s[i].start <= x <= s[i].end);
    }
}

proof fn lemma_mask_le(x: u64, m: u64)
    by (bit_vector)
    ensures
        x & m <= m,
{
}

proof fn lemma_padding_aligns(s: u64, align: u64)
    requires
        is_pow2(align),
        s + padding(s, align) <= u64::MAX,
    ensures
        ((s + padding(s, align)) as u64) & ((align - 1) as u64) == 0,
{
    let p = padding(s, align);
    assert(((((s + (((align - (s & ((align - 1) as u64))) as u64) & ((align - 1) as u64))) as u64)
        & ((align - 1) as u64)) == 0)) by (bit_vector)
        requires
            align != 0,
            align & ((align - 1) as u64) == 0,
            s + (((align - (s & ((align - 1) as u64))) as u64) & ((align - 1) as u64))
                <= 0xffff_ffff_ffff_ffff,
    ;
}

/// A stored range is a stored range of any other well-formed sequence that covers
/// exactly the same addresses.
#[verifier::rlimit(30)]
proof fn lemma_range_found_in(s: Seq<InclusiveRange>, t: Seq<InclusiveRange>, i: int) -> (j: int)
    requires
        ranges_wf(s),
        ranges_wf(t),
        covered(s) == covered(t),
        0 <= i < s.len(),
    ensures
        0 <= j < t.len(),
        t[j] == s[i],
{
    let x = s[i];
    assert(s[i].valid());
    assert(covered(s).contains(x.start as int));
    let j = choose|j: int| 0 <= j < t.len() && (#[trigger] t[j]).start <= x.start <= t[j].end;
    let y = t[j];
    assert(t[j].valid());
    if y.start < x.start {
        assert(covered(t).contains(x.start - 1));
        let k = choose|k: int| 0 <= k < s.len() && (#[trigger] s[k]).start <= x.start - 1 <= s[k].end;
        assert(s[k].end + 1 < s[i].start || s[i].end + 1 < s[k].start);
        assert(false);
    }
    if y.end < x.end {
        assert(covered(s).contains(y.end + 1));
        let m = choose|m: int| 0 <= m < t.len() && (#[trigger] t[m]).start <= y.end + 1 <= t[m].end;
        assert(t[m].end + 1 < t[j].start || t[j].end + 1 < t[m].start);
        assert(false);
    }
    if y.end > x.end {
        assert(covered(t).contains(x.end + 1));
        let k = choose|k: int| 0 <= k < s.len() && (#[trigger] s[k]).start <= x.end + 1 <= s[k].end;
        assert(s[k].end + 1 < s[i].start || s[i].end + 1 < s[k].start);
        assert(false);
    }
    j
}

/// Two well-formed sequences of ranges that cover the same addresses hold the same
/// ranges: the stored form of a set of addresses is unique up to slot order.
pub proof fn lemma_canonical(s: Seq<InclusiveRange>, t: Seq<InclusiveRange>)
    requires
        ranges_wf(s),
        ranges_wf(t),
        covered(s) == covered(t),
    ensures
        s.to_set() == t.to_set(),
{
    assert forall|r: InclusiveRange| s.to_set().contains(r) implies t.to_set().contains(r) by {
        let i = choose|i: int| 0 <= i < s.len() && #[trigger] s[i] == r;
        let j = lemma_range_found_in(s, t, i);
        assert(t[j] == r);
    }
    assert forall|r: InclusiveRange| t.to_set().contains(r) implies s.to_set().contains(r) by {
        let i = choose|i: int| 0 <= i < t.len() && #[trigger] t[i] == r;
        let j = lemma_range_found_in(t, s, i);
        assert(s[j] == r);
    }
    assert(s.to_set() =~= t.to_set());
}

/// The live ranges of a set, in slot order, together with its capacity.
#[derive(Clone, Copy, Debug)]
pub struct RangeSet {
    /// Every slot; only the first `length` are live.
    pub all_ranges: [InclusiveRange; 130],
    /// Number of live ranges.
    pub length: usize,
}

impl View for RangeSet {
    type V = Seq<InclusiveRange>;

    open spec fn view(&self) -> Seq<InclusiveRange> {
        self.all_ranges@.subrange(0, self.length as int)
    }
}

impl RangeSet {
    /// The live count fits the slots and the live ranges are well formed.
    pub open spec fn wf(&self) -> bool {
        &&& self.length <= MAX_MEMORY_RANGES
        &&& ranges_wf(self@)
    }

    /// Every address held by the set.
    pub open spec fn addresses(&self) -> Set<int> {
        covered(self@)
    }

    /// An empty set.
    pub fn new() -> (r: RangeSet)
        ensures
            r.wf(),
            r@.len() == 0,
            r.addresses() == Set::<int>::empty(),
    {
        let r = RangeSet { all_ranges: [InclusiveRange { start: 0, end: 0 }; 130], length: 0 };
        assert(r.addresses() =~= Set::<int>::empty());
        r
    }

    /// Drop every range.
    pub fn clear(&mut self)
        ensures
            final(self).wf(),
            final(self)@.len() == 0,
            final(self).addresses() == Set::<int>::empty(),
    {
        self.all_ranges = [InclusiveRange { start: 0, end: 0 }; 130];
        self.length = 0;
        assert(self.addresses() =~= Set::<int>::empty());
    }

    /// Number of live ranges.
    pub fn len(&self) -> (r: usize)
        ensures
            r == self.length,
    {
        self.length
    }

    /// The live ranges, in slot order.
    pub fn ranges(&self) -> (r: Vec<InclusiveRange>)
        requires
            self.wf(),
        ensures
            r@ == self@,
    {
        let mut out: Vec<InclusiveRange> = Vec::new();
        let mut i: usize = 0;
        while i < self.length
            invariant
                self.wf(),
                i <= self.length,
                out@ == self@.subrange(0, i as int),
            decreases self.length - i,
        {
            out.push(self.all_ranges[i]);
            i += 1;
            assert(out@ =~= self@.subrange(0, i as int));
        }
        assert(self@.subrange(0, i as int) =~= self@);
        out
    }

    /// Total number of addresses held, or `AddOverflow` when it exceeds `u64::MAX`.
    pub fn size(&self) -> (r: Result<u64, NumericalError>)
        requires
            self.wf(),
        ensures
            match r {
                Ok(n) => n == total(self@),
                Err(e) => e == NumericalError::AddOverflow && total(self@) > u64::MAX,
            },
    {
        let mut acc: u64 = 0;
        let mut i: usize = 0;
        while i < self.length
            invariant
                self.wf(),
                i <= self.length,
                acc == total(self@.subrange(0, i as int)),
            decreases self.length - i,
        {
            let range = self.all_ranges[i];
            assert(self@[i as int] == range);
            assert(self@.subrange(0, i as int + 1).drop_last() =~= self@.subrange(0, i as int));
            let n = range.end - range.start;
            if n == u64::MAX || acc > u64::MAX - (n + 1) {
                proof {
                    lemma_total_prefix(self@, i as int + 1);
                }
                return Err(NumericalError::AddOverflow);
            }
            acc = acc + (n + 1);
            i += 1;
        }
        assert(self@.subrange(0, i as int) =~= self@);
        Ok(acc)
    }

    /// Remove the range at `index` by moving the last live range into its slot.
    fn delete(&mut self, index: usize) -> (r: Result<(), RangeSetError>)
        requires
            old(self).wf(),
        ensures
            final(self).wf(),
            match r {
                Ok(()) => index < old(self).length && final(self)@ == swap_remove(
                    old(self)@,
                    index as int,
                ),
                Err(e) => index >= old(self).length && e == RangeSetError::DeleteOutOfBounds
                    && *final(self) == *old(self),
            },
    {
        if index >= self.length {
            return Err(RangeSetError::DeleteOutOfBounds);
        }
        let ghost before = self@;
        let last = self.length - 1;
        let moved = self.all_ranges[last];
        let gone = self.all_ranges[index];
        self.all_ranges[last] = gone;
        self.all_ranges[index] = moved;
        self.length = last;
        assert(self@ =~= swap_remove(before, index as int));
        proof {
            lemma_swap_remove_wf(before, index as int);
        }
        Ok(())
    }

    /// Add `range`, merging it with every stored range that it overlaps or abuts.
    #[verifier::rlimit(30)]
    pub fn insert(&mut self, range: InclusiveRange) -> (r: Result<(), RangeSetError>)
        requires
            old(self).wf(),
        ensures
            final(self).wf(),
            final(self).length <= old(self).length + 1,
            match r {
                Ok(()) => {
                    &&& range.valid()
                    &&& (old(self).length < MAX_MEMORY_RANGES || exists|i: int|
                        0 <= i < old(self)@.len() && (#[trigger] old(self)@[i]).touches(range))
                    &&& final(self).addresses() == old(self).addresses().union(range.span())
                },
                Err(e) => *final(self) == *old(self) && if !range.valid() {
                    e == RangeSetError::InvalidRange
                } else {
                    &&& e == RangeSetError::Full
                    &&& old(self).length == MAX_MEMORY_RANGES
                    &&& forall|i: int|
                        0 <= i < old(self)@.len() ==> !(#[trigger] old(self)@[i]).touches(range)
                },
            },
    {
        if !range.is_valid() {
            return Err(RangeSetError::InvalidRange);
        }
        let ghost target = self.addresses().union(range.span());
        let ghost start_len = self.length;
        let ghost given = range;
        let mut range = range;
        let mut merged_all = false;
        while !merged_all
            invariant
                self.wf(),
                range.valid(),
                self.length <= start_len,
                start_len == old(self).length,
                given.valid(),
                self.length == start_len ==> *self == *old(self) && range == given,
                self.length < start_len ==> exists|i: int|
                    0 <= i < old(self)@.len() && (#[trigger] old(self)@[i]).touches(given),
                self.addresses().union(range.span()) == target,
                merged_all ==> forall|k: int| 0 <= k < self@.len() ==> !(#[trigger] self@[k]).touches(range),
            decreases self.length + if merged_all { 0int } else { 1int },
        {
            // Look for a stored range that touches the one being inserted.
            let mut index: usize = 0;
            let mut found = false;
            while !found && index < self.length
                invariant
                    self.wf(),
                    range.valid(),
                    index <= self.length,
                    found ==> index < self.length && self@[index as int].touches(range),
                    forall|k: int| 0 <= k < index ==> !(#[trigger] self@[k]).touches(range),
                decreases self.length - index + if found { 0int } else { 1int },
            {
                let curr = self.all_ranges[index];
                assert(self@[index as int] == curr);
                match curr.overlaps(&range) {
                    Ok(Some(_)) => {
                        found = true;
                    },
                    _ => {
                        index += 1;
                    },
                }
            }
            if !found {
                merged_all = true;
            } else {
                // Grow the inserted range over the touching one, then drop that one.
                let curr = self.all_ranges[index];
                assert(self@[index as int] == curr);
                proof {
                    lemma_touch_merge(curr, range);
                    lemma_covered_swap_remove(self@, index as int);
                }
                let ghost old_range = range;
                proof {
                    if self.length == start_len {
                        assert(old(self)@[index as int].touches(given));
                    }
                }
                range.start = if curr.start <= range.start { curr.start } else { range.start };
                range.end = if curr.end >= range.end { curr.end } else { range.end };
                assert(range.span() =~= block(range.start as int, range.end as int));
                assert(range.span() == curr.span().union(old_range.span()));
                let _ = self.delete(index);
            }
        }
        if self.length >= MAX_MEMORY_RANGES {
            return Err(RangeSetError::Full);
        }
        proof {
            if start_len == MAX_MEMORY_RANGES {
                assert(self.length < start_len);
                let i = choose|i: int| 0 <= i < old(self)@.len() && (#[trigger] old(self)@[i]).touches(given);
            }
        }
        let ghost before = self@;
        self.all_ranges[self.length] = range;
        self.length += 1;
        assert(self@ =~= before.push(range));
        proof {
            lemma_covered_push(before, range);
        }
        assert forall|i: int, j: int|
            0 <= i < self@.len() && 0 <= j < self@.len() && i != j implies #[trigger] self@[i].end + 1
            < #[trigger] self@[j].start || self@[j].end + 1 < self@[i].start by {
            if i < before.len() && j < before.len() {
                assert(self@[i] == before[i] && self@[j] == before[j]);
            } else if i < before.len() {
                assert(!before[i].touches(range));
            } else {
                assert(!before[j].touches(range));
            }
        }
        Ok(())
    }

    /// Take `range` out of the set: stored ranges inside it are dropped, ranges
    /// that it clips are shrunk, and a range that holds it strictly inside is split
    /// in two, which needs a free slot.
    #[verifier::rlimit(30)]
    pub fn remove(&mut self, range: InclusiveRange) -> (r: Result<(), RangeSetError>)
        requires
            old(self).wf(),
        ensures
            final(self).wf(),
            match r {
                Ok(()) => range.valid() && final(self).addresses() == old(
                    self,
                ).addresses().difference(range.span()),
                Err(e) => *final(self) == *old(self) && if !range.valid() {
                    e == RangeSetError::InvalidRange
                } else {
                    e == RangeSetError::Full && old(self).length == MAX_MEMORY_RANGES
                        && exists|i: int|
                        0 <= i < old(self)@.len() && #[trigger] old(self)@[i].strictly_holds(range)
                },
            },
    {
        if !range.is_valid() {
            return Err(RangeSetError::InvalidRange);
        }
        // A range holding `range` strictly inside is the only one that meets it.
        let mut index: usize = 0;
        let mut found = false;
        while !found && index < self.length
            invariant
                self.wf(),
                index <= self.length,
                found ==> index < self.length && self@[index as int].strictly_holds(range),
                forall|k: int| 0 <= k < index ==> !(#[trigger] self@[k]).strictly_holds(range),
            decreases self.length - index + if found { 0int } else { 1int },
        {
            let curr = self.all_ranges[index];
            assert(self@[index as int] == curr);
            if curr.start < range.start && range.end < curr.end {
                found = true;
            } else {
                index += 1;
            }
        }
        if found {
            if self.length >= MAX_MEMORY_RANGES {
                return Err(RangeSetError::Full);
            }
            let ghost before = self@;
            let curr = self.all_ranges[index];
            assert(before[index as int] == curr);
            let left = InclusiveRange::new(curr.start, range.start - 1);
            let right = InclusiveRange::new(range.end + 1, curr.end);
            self.all_ranges[index] = left;
            self.all_ranges[self.length] = right;
            self.length += 1;
            assert(self@ =~= before.update(index as int, left).push(right));
            proof {
                lemma_split(before, index as int, range);
            }
            return Ok(());
        }
        let ghost orig = self@;
        let mut index: usize = 0;
        while index < self.length
            invariant
                self.wf(),
                index <= self.length,
                covered(self@).difference(range.span()) == covered(orig).difference(range.span()),
                forall|k: int| 0 <= k < index ==> !(#[trigger] self@[k]).meets(range),
                forall|k: int| 0 <= k < self@.len() ==> !(#[trigger] self@[k]).strictly_holds(range),
            decreases self.length - index,
        {
            let ghost before = self@;
            let curr = self.all_ranges[index];
            assert(before[index as int] == curr);
            if curr.end < range.start || range.end < curr.start {
                index += 1;
            } else if range.start <= curr.start && curr.end <= range.end {
                proof {
                    lemma_covered_swap_remove(before, index as int);
                }
                let _ = self.delete(index);
                assert(covered(self@).difference(range.span()) =~= covered(before).difference(
                    range.span(),
                ));
                assert forall|k: int| 0 <= k < self@.len() implies !(
                #[trigger] self@[k]).strictly_holds(range) by {
                    if k == index as int {
                        assert(self@[k] == before[before.len() - 1]);
                    } else {
                        assert(self@[k] == before[k]);
                    }
                }
            } else {
                let shrunk = if range.start <= curr.start {
                    InclusiveRange::new(range.end + 1, curr.end)
                } else {
                    InclusiveRange::new(curr.start, range.start - 1)
                };
                assert(shrunk.span().difference(range.span()) =~= curr.span().difference(
                    range.span(),
                ));
                self.all_ranges[index] = shrunk;
                assert(self@ =~= before.update(index as int, shrunk));
                proof {
                    lemma_shrink(before, index as int, shrunk, range.span());
                }
                index += 1;
            }
        }
        assert(covered(self@) =~= covered(self@).difference(range.span())) by {
            assert forall|x: int| covered(self@).contains(x) implies !range.span().contains(x) by {
                let k = choose|k: int|
                    0 <= k < self@.len() && (#[trigger] self@[k]).start <= x <= self@[k].end;
                assert(!self@[k].meets(range));
            }
        }
        assert(covered(orig) == old(self).addresses());
        Ok(())
    }

    /// Take the block `[start, end]`, which lies inside the live range at `index`,
    /// out of the set.
    #[verifier::rlimit(30)]
    fn carve(&mut self, index: usize, start: u64, end: u64) -> (r: Result<(), RangeSetError>)
        requires
            old(self).wf(),
            index < old(self).length,
            old(self)@[index as int].start <= start <= end <= old(self)@[index as int].end,
        ensures
            final(self).wf(),
            match r {
                Ok(()) => final(self).addresses() == old(self).addresses().difference(
                    block(start as int, end as int),
                ) && total(final(self)@) == total(old(self)@) - (end - start + 1),
                Err(e) => *final(self) == *old(self) && e == RangeSetError::Full && old(self).length
                    == MAX_MEMORY_RANGES && old(self)@[index as int].strictly_holds(
                    InclusiveRange { start, end },
                ),
            },
    {
        let ghost before = self@;
        let ghost cut = InclusiveRange { start, end };
        let curr = self.all_ranges[index];
        assert(before[index as int] == curr);
        assert(cut.span() == block(start as int, end as int));
        proof {
            lemma_others_miss(before, index as int, cut);
        }
        if curr.start == start && curr.end == end {
            proof {
                lemma_covered_swap_remove(before, index as int);
                lemma_total_swap_remove(before, index as int);
            }
            let _ = self.delete(index);
            proof {
                lemma_covered_misses(self@, cut);
            }
            assert forall|k: int| 0 <= k < self@.len() implies !(#[trigger] self@[k]).meets(cut) by {
                if k == index as int {
                    assert(self@[k] == before[before.len() - 1]);
                } else {
                    assert(self@[k] == before[k]);
                }
            }
            proof {
                lemma_covered_misses(self@, cut);
            }
            assert(self.addresses() =~= covered(before).difference(cut.span()));
            Ok(())
        } else if curr.start == start || curr.end == end {
            let shrunk = if curr.start == start {
                InclusiveRange::new(end + 1, curr.end)
            } else {
                InclusiveRange::new(curr.start, start - 1)
            };
            assert(shrunk.span().difference(cut.span()) =~= curr.span().difference(cut.span()));
            self.all_ranges[index] = shrunk;
            assert(self@ =~= before.update(index as int, shrunk));
            proof {
                lemma_shrink(before, index as int, shrunk, cut.span());
                lemma_total_update(before, index as int, shrunk);
            }
            assert forall|k: int| 0 <= k < self@.len() implies !(#[trigger] self@[k]).meets(cut) by {
                if k != index as int {
                    assert(self@[k] == before[k]);
                }
            }
            proof {
                lemma_covered_misses(self@, cut);
            }
            assert(self.addresses() =~= covered(before).difference(cut.span()));
            Ok(())
        } else {
            if self.length >= MAX_MEMORY_RANGES {
                return Err(RangeSetError::Full);
            }
            let left = InclusiveRange::new(curr.start, start - 1);
            let right = InclusiveRange::new(end + 1, curr.end);
            self.all_ranges[index] = left;
            self.all_ranges[self.length] = right;
            self.length += 1;
            assert(self@ =~= before.update(index as int, left).push(right));
            proof {
                lemma_split(before, index as int, cut);
                lemma_total_update(before, index as int, left);
            }
            assert(self@.drop_last() =~= before.update(index as int, left));
            assert(cut.span() == block(start as int, end as int));
            assert(self.addresses() == covered(before).difference(cut.span()));
            Ok(())
        }
    }

    /// Take an aligned block of `size` addresses out of the set and return its first
    /// address. The block comes from the range that needs the least padding to
    /// reach the alignment; among equals the earliest slot wins.
    #[verifier::rlimit(30)]
    pub fn allocate(&mut self, size: u64, align: u64) -> (r: Result<u64, RangeSetError>)
        requires
            old(self).wf(),
        ensures
            final(self).wf(),
            match r {
                Ok(a) => {
                    &&& size > 0
                    &&& is_pow2(align)
                    &&& a & ((align - 1) as u64) == 0
                    &&& exists|i: int|
                        #[trigger] best_fit(old(self)@, size, align, i) && a == old(self)@[i].start
                            + padding(old(self)@[i].start, align)
                    &&& block(a as int, a + size - 1).subset_of(old(self).addresses())
                    &&& final(self).addresses() == old(self).addresses().difference(
                        block(a as int, a + size - 1),
                    )
                    &&& total(final(self)@) == total(old(self)@) - size
                },
                Err(e) => *final(self) == *old(self) && if size == 0 {
                    e == RangeSetError::ZeroSizedAllocation
                } else if !is_pow2(align) {
                    e == RangeSetError::UnalignedAllocation
                } else if forall|j: int|
                    0 <= j < old(self)@.len() ==> !#[trigger] fits(old(self)@[j], size, align) {
                    e == RangeSetError::OutOfMemory
                } else {
                    &&& e == RangeSetError::Full
                    &&& old(self).length == MAX_MEMORY_RANGES
                    &&& exists|i: int|
                        #[trigger] best_fit(old(self)@, size, align, i) && old(
                            self,
                        )@[i].strictly_holds(fitted_block(old(self)@[i], size, align))
                },
            },
    {
        if size == 0 {
            return Err(RangeSetError::ZeroSizedAllocation);
        }
        if align == 0 || (align & (align - 1)) != 0 {
            return Err(RangeSetError::UnalignedAllocation);
        }
        let mask = align - 1;
        let mut best_padding: u64 = u64::MAX;
        let mut allocation: Option<(usize, u64, u64)> = None;
        let mut index: usize = 0;
        while index < self.length
            invariant
                self.wf(),
                *self == *old(self),
                mask == align - 1,
                is_pow2(align),
                size > 0,
                index <= self.length,
                match allocation {
                    None => forall|j: int| 0 <= j < index ==> !#[trigger] fits(self@[j], size, align),
                    Some((k, a, e)) => {
                        &&& k < index
                        &&& fits(self@[k as int], size, align)
                        &&& best_padding == padding(self@[k as int].start, align)
                        &&& a == self@[k as int].start + best_padding
                        &&& e == a + size - 1
                        &&& best_padding > 0
                        &&& forall|j: int|
                            0 <= j < index && #[trigger] fits(self@[j], size, align) ==> best_padding
                                <= padding(self@[j].start, align)
                        &&& forall|j: int|
                            0 <= j < k && #[trigger] fits(self@[j], size, align) ==> best_padding
                                < padding(self@[j].start, align)
                    },
                },
            decreases self.length - index,
        {
            let range = self.all_ranges[index];
            assert(self@[index as int] == range);
            proof {
                lemma_mask_le(range.start, mask);
            }
            let pad = (align - (range.start & mask)) & mask;
            assert(pad == padding(range.start, align));
            if let Some(aligned_start) = range.start.checked_add(pad) {
                if let Some(end) = aligned_start.checked_add(size - 1) {
                    if end <= range.end && (allocation.is_none() || best_padding > pad) {
                        if pad == 0 {
                            assert(best_fit(self@, size, align, index as int));
                            proof {
                                lemma_padding_aligns(range.start, align);
                            }
                            match self.carve(index, aligned_start, end) {
                                Ok(()) => {
                                    proof {
                                        lemma_block_inside(old(self)@, index as int, aligned_start, end);
                                    }
                                    return Ok(aligned_start);
                                },
                                Err(e) => {
                                    return Err(e);
                                },
                            }
                        }
                        best_padding = pad;
                        allocation = Some((index, aligned_start, end));
                    }
                }
            }
            index += 1;
        }
        match allocation {
            Some((k, a, e)) => {
                assert(best_fit(self@, size, align, k as int));
                proof {
                    lemma_padding_aligns(self@[k as int].start, align);
                }
                match self.carve(k, a, e) {
                    Ok(()) => {
                        proof {
                            lemma_block_inside(old(self)@, k as int, a, e);
                        }
                        Ok(a)
                    },
                    Err(err) => Err(err),
                }
            },
            None => Err(RangeSetError::OutOfMemory),
        }
    }
}

/// Inserting `a` then `b` leaves the same stored ranges as inserting `b` then `a`:
/// both results are well formed and cover the same addresses, and such a set has
/// one stored form.
pub proof fn lemma_insert_commutes(
    s: RangeSet,
    ab: RangeSet,
    ba: RangeSet,
    a: InclusiveRange,
    b: InclusiveRange,
)
    requires
        s.wf(),
        ab.wf(),
        ba.wf(),
        ab.addresses() == s.addresses().union(a.span()).union(b.span()),
        ba.addresses() == s.addresses().union(b.span()).union(a.span()),
    ensures
        ab.addresses() == ba.addresses(),
        ab@.to_set() == ba@.to_set(),
{
    assert(ab.addresses() =~= ba.addresses());
    lemma_canonical(ab@, ba@);
}

/// Removing a range right after inserting it restores the stored ranges, provided
/// the range shared no address with the set before.
pub proof fn lemma_insert_remove_restores(s: RangeSet, after: RangeSet, r: InclusiveRange)
    requires
        s.wf(),
        after.wf(),
        s.addresses().disjoint(r.span()),
        after.addresses() == s.addresses().union(r.span()).difference(r.span()),
    ensures
        after.addresses() == s.addresses(),
        after@.to_set() == s@.to_set(),
{
    assert(after.addresses() =~= s.addresses());
    lemma_canonical(after@, s@);
}

} // verus!
