//! Building a loadable image from the segments of an executable: the
//! segments are laid out at their physical addresses in one contiguous
//! image, gaps zeroed.

use vstd::prelude::*;
use core::ops::Range;
use crate::transfer::splice;

verus! {

/// Whether `x` lies in `r`.
pub open spec fn in_range(r: Range<u64>, x: int) -> bool {
    r.start <= x < r.end
}

/// Range relations used to pick the sections that a segment holds.
pub trait MemoryRange {
    /// Whether `self` contains all of `range`.
    spec fn spec_contains_range(&self, range: Range<u64>) -> bool;

    /// Whether `self` and `range` overlap.
    spec fn spec_intersects_range(&self, range: Range<u64>) -> bool;

    /// Returns true if `self` contains `range` fully.
    fn contains_range(&self, range: &Range<u64>) -> (r: bool)
        ensures
            r == self.spec_contains_range(*range),
    ;

    /// Returns true if `self` intersects `range` partially.
    fn intersects_range(&self, range: &Range<u64>) -> (r: bool)
        ensures
            r == self.spec_intersects_range(*range),
    ;
}

/// Whether `outer` holds the first and the last element of `inner` (an
/// empty `inner` ending at zero is held by nothing).
pub open spec fn range_holds(outer: Range<u64>, inner: Range<u64>) -> bool {
    inner.end != 0 && in_range(outer, inner.start as int) && in_range(outer, inner.end - 1)
}

impl MemoryRange for Range<u64> {
    open spec fn spec_contains_range(&self, range: Range<u64>) -> bool {
        range_holds(*self, range)
    }

    open spec fn spec_intersects_range(&self, range: Range<u64>) -> bool {
        range.end != 0 && ((in_range(*self, range.start as int) && !in_range(*self, range.end - 1))
            || (!in_range(*self, range.start as int) && in_range(*self, range.end - 1))
            || range_holds(*self, range) || range_holds(range, *self))
    }

    fn contains_range(&self, range: &Range<u64>) -> (r: bool) {
        if range.end == 0 {
            false
        } else {
            (self.start <= range.start && range.start < self.end) && (self.start <= range.end - 1
                && range.end - 1 < self.end)
        }
    }

    fn intersects_range(&self, range: &Range<u64>) -> (r: bool) {
        if range.end == 0 {
            false
        } else {
            let has_start = self.start <= range.start && range.start < self.end;
            let has_last = self.start <= range.end - 1 && range.end - 1 < self.end;
            has_start && !has_last || !has_start && has_last || self.contains_range(range)
                || range.contains_range(self)
        }
    }
}

/// A loadable segment: its physical address and its bytes.
pub struct Segment {
    pub paddr: u32,
    pub data: Vec<u8>,
}

/// An image to load: its first address and its bytes.
pub struct Loadable {
    pub addr: u32,
    pub data: Vec<u8>,
}

/// Why no image could be built.
#[derive(PartialEq, Eq, Structural, Clone, Copy, Debug)]
pub enum LoadError {
    /// The segments hold no bytes.
    EmptyImage,
    /// There are no segments.
    NoSections,
    /// The image does not fit in memory.
    TooLarge,
}

/// One past the last address of a segment.
pub open spec fn seg_end(s: Segment) -> int {
    s.paddr + s.data@.len()
}

/// The lowest address of the segments (`u64::MAX` for none).
pub open spec fn lowest(segs: Seq<Segment>) -> int
    decreases segs.len(),
{
    if segs.len() == 0 {
        u64::MAX as int
    } else {
        let l = lowest(segs.drop_last());
        if segs.last().paddr < l {
            segs.last().paddr as int
        } else {
            l
        }
    }
}

/// One past the highest address of the segments (zero for none).
pub open spec fn highest(segs: Seq<Segment>) -> int
    decreases segs.len(),
{
    if segs.len() == 0 {
        0
    } else {
        let h = highest(segs.drop_last());
        if seg_end(segs.last()) > h {
            seg_end(segs.last())
        } else {
            h
        }
    }
}

/// The image of `len` bytes from address `lo`: zeros, with each segment
/// laid over it in order.
pub open spec fn paint(segs: Seq<Segment>, lo: int, len: nat) -> Seq<u8>
    decreases segs.len(),
{
    if segs.len() == 0 {
        Seq::new(len, |i: int| 0u8)
    } else {
        splice(paint(segs.drop_last(), lo, len), segs.last().paddr - lo, segs.last().data@)
    }
}

proof fn lemma_bounds(segs: Seq<Segment>)
    ensures
        forall|k: int|
            0 <= k < segs.len() ==> lowest(segs) <= (#[trigger] segs[k]).paddr && seg_end(segs[k])
                <= highest(segs),
        0 <= highest(segs),
        lowest(segs) <= u64::MAX,
    decreases segs.len(),
{
    if segs.len() > 0 {
        let init = segs.drop_last();
        lemma_bounds(init);
        assert forall|k: int| 0 <= k < segs.len() implies lowest(segs) <= (
        #[trigger] segs[k]).paddr && seg_end(segs[k]) <= highest(segs) by {
            if k < segs.len() - 1 {
                assert(segs[k] == init[k]);
            }
        }
    }
}

proof fn lemma_paint_len(segs: Seq<Segment>, lo: int, len: nat)
    ensures
        paint(segs, lo, len).len() == len,
    decreases segs.len(),
{
    if segs.len() > 0 {
        lemma_paint_len(segs.drop_last(), lo, len);
    }
}

/// Lays the segments out in one image from the lowest segment address to
/// the highest end, gaps zeroed and later segments over earlier ones. A
/// segment of a 32-bit executable holds at most `u32::MAX` bytes.
pub fn assemble(segs: &Vec<Segment>) -> (r: Result<Loadable, LoadError>)
    requires
        forall|k: int| 0 <= k < segs@.len() ==> (#[trigger] segs@[k]).data@.len() <= u32::MAX,
    ensures
        segs@.len() == 0 ==> r == Err::<Loadable, LoadError>(LoadError::NoSections),
        segs@.len() > 0 && lowest(segs@) == highest(segs@) ==> r == Err::<Loadable, LoadError>(
            LoadError::EmptyImage,
        ),
        segs@.len() > 0 && lowest(segs@) < highest(segs@) && highest(segs@) - lowest(segs@)
            > usize::MAX ==> r == Err::<Loadable, LoadError>(LoadError::TooLarge),
        segs@.len() > 0 && lowest(segs@) < highest(segs@) && highest(segs@) - lowest(segs@)
            <= usize::MAX ==> (r matches Ok(l) && l.addr == lowest(segs@) && l.data@ == paint(
            segs@,
            lowest(segs@),
            (highest(segs@) - lowest(segs@)) as nat,
        )),
{
    let mut lo: u64 = u64::MAX;
    let mut hi: u64 = 0;
    let mut i: usize = 0;
    while i < segs.len()
        invariant
            i <= segs@.len(),
            forall|k: int| 0 <= k < segs@.len() ==> (#[trigger] segs@[k]).data@.len() <= u32::MAX,
            lo == lowest(segs@.subrange(0, i as int)),
            hi == highest(segs@.subrange(0, i as int)),
        decreases segs@.len() - i,
    {
        proof {
            assert(segs@.subrange(0, i + 1).drop_last() =~= segs@.subrange(0, i as int));
        }
        let s = &segs[i];
        let p = s.paddr as u64;
        if p < lo {
            lo = p;
        }
        let end = p + s.data.len() as u64;
        if end > hi {
            hi = end;
        }
        i = i + 1;
    }
    proof {
        assert(segs@.subrange(0, segs@.len() as int) =~= segs@);
        lemma_bounds(segs@);
    }
    if segs.len() == 0 {
        return Err(LoadError::NoSections);
    }
    if lo == hi {
        return Err(LoadError::EmptyImage);
    }
    if hi - lo > usize::MAX as u64 {
        return Err(LoadError::TooLarge);
    }
    let len = (hi - lo) as usize;
    let mut out = vec![0u8; len];
    proof {
        assert(out@ =~= paint(segs@.subrange(0, 0), lo as int, len as nat));
    }
    let mut i: usize = 0;
    while i < segs.len()
        invariant
            i <= segs@.len(),
            lo == lowest(segs@),
            hi == highest(segs@),
            len == hi - lo,
            out@.len() == len,
            out@ == paint(segs@.subrange(0, i as int), lo as int, len as nat),
            forall|k: int|
                0 <= k < segs@.len() ==> lowest(segs@) <= (#[trigger] segs@[k]).paddr && seg_end(
                    segs@[k],
                ) <= highest(segs@),
        decreases segs@.len() - i,
    {
        let s = &segs[i];
        let start = (s.paddr as u64 - lo) as usize;
        let n = s.data.len();
        let ghost before = out@;
        assert(seg_end(segs@[i as int]) <= hi);
        let mut k: usize = 0;
        while k < n
            invariant
                k <= n,
                n == s.data@.len(),
                start + n <= len,
                out@.len() == len,
                before.len() == len,
                forall|j: int|
                    0 <= j < len ==> #[trigger] out@[j] == if start <= j < start + k {
                        s.data@[j - start]
                    } else {
                        before[j]
                    },
            decreases n - k,
        {
            out.set(start + k, s.data[k]);
            k = k + 1;
        }
        proof {
            let next = segs@.subrange(0, i + 1);
            assert(next.drop_last() =~= segs@.subrange(0, i as int));
            assert(next.last() == segs@[i as int]);
            lemma_paint_len(segs@.subrange(0, i as int), lo as int, len as nat);
            assert(out@ =~= splice(before, start as int, s.data@));
        }
        i = i + 1;
    }
    proof {
        assert(segs@.subrange(0, segs@.len() as int) =~= segs@);
    }
    Ok(Loadable { addr: lo as u32, data: out })
}

} // verus!
