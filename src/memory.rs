//! Bounds-checked access to the scratch RAM region exposed to the host.

use vstd::prelude::*;
use crate::icd::Error;

verus! {

/// The scratch region: `mem.len()` bytes starting at address `base`.
pub struct Ram {
    base: usize,
    mem: Vec<u8>,
}

impl Ram {
    /// The region's first address.
    pub closed spec fn base(&self) -> int {
        self.base as int
    }

    /// The region's contents, byte `i` being the one at address `base + i`.
    pub closed spec fn contents(&self) -> Seq<u8> {
        self.mem@
    }

    /// One past the region's last address.
    pub open spec fn end(&self) -> int {
        self.base() + self.contents().len()
    }

    /// The region's end is an address.
    pub open spec fn wf(&self) -> bool {
        0 <= self.base() && self.end() <= usize::MAX
    }

    /// Whether `[addr, addr + len)` lies inside the region.
    pub open spec fn in_region(&self, addr: int, len: int) -> bool {
        self.base() <= addr && addr + len <= self.end()
    }

    /// The error reported for a request outside the region.
    pub open spec fn out_of_range(&self, addr: usize, len: usize) -> Error {
        Error::AddressOutOfRange {
            request: addr,
            len,
            min: self.base() as usize,
            max: self.end() as usize,
        }
    }

    /// A region of `size` zeroed bytes at `base`.
    pub fn new(base: usize, size: usize) -> (r: Ram)
        requires
            base + size <= usize::MAX,
        ensures
            r.wf(),
            r.base() == base,
            r.contents() == Seq::new(size as nat, |i: int| 0u8),
    {
        let mem = vec![0u8; size];
        assert(mem@ =~= Seq::new(size as nat, |i: int| 0u8));
        Ram { base, mem }
    }

    /// The region's first address.
    pub fn as_ptr(&self) -> (r: usize)
        ensures
            r == self.base(),
    {
        self.base
    }

    /// The region's first address and one past its last.
    pub fn start_end(&self) -> (r: (usize, usize))
        requires
            self.wf(),
        ensures
            r.0 == self.base(),
            r.1 == self.end(),
    {
        (self.base, self.base + self.mem.len())
    }

    /// The offset of `addr` in the region, where `[addr, addr + len)` lies
    /// inside it; an address range that overflows is outside.
    pub fn contains(&self, addr: usize, len: usize) -> (r: Result<usize, Error>)
        requires
            self.wf(),
        ensures
            self.in_region(addr as int, len as int) ==> r == Ok::<usize, Error>(
                (addr - self.base()) as usize,
            ),
            !self.in_region(addr as int, len as int) ==> r == Err::<usize, Error>(
                self.out_of_range(addr, len),
            ),
    {
        let (start, end) = self.start_end();
        let contains = match addr.checked_add(len) {
            Some(range_end) => addr >= start && range_end <= end,
            None => false,
        };
        if contains {
            Ok(addr - start)
        } else {
            Err(Error::AddressOutOfRange { request: addr, len, min: start, max: end })
        }
    }

    /// Copies the bytes at `[start, start + buf.len())` into `buf`; outside
    /// the region, reports the error and leaves `buf` untouched.
    pub fn read_to(&self, start: usize, buf: &mut [u8]) -> (r: Result<(), Error>)
        requires
            self.wf(),
        ensures
            self.in_region(start as int, old(buf)@.len() as int) ==> r is Ok && final(buf)@
                == self.contents().subrange(
                start - self.base(),
                start - self.base() + old(buf)@.len(),
            ),
            !self.in_region(start as int, old(buf)@.len() as int) ==> r == Err::<(), Error>(
                self.out_of_range(start, old(buf)@.len() as usize),
            ) && final(buf)@ == old(buf)@,
    {
        let len = buf.len();
        let off = match self.contains(start, len) {
            Ok(off) => off,
            Err(e) => return Err(e),
        };
        let mut i: usize = 0;
        while i < len
            invariant
                len == buf@.len(),
                off + len <= self.mem@.len(),
                off + len <= usize::MAX,
                i <= len,
                forall|k: int| 0 <= k < i ==> buf@[k] == self.mem@[off + k],
            decreases len - i,
        {
            buf[i] = self.mem[off + i];
            i = i + 1;
        }
        assert(buf@ =~= self.contents().subrange(off as int, off + len));
        Ok(())
    }

    /// Copies `buf` into the region at `start`; outside the region, reports
    /// the error and leaves the region untouched.
    pub fn write_from(&mut self, start: usize, buf: &[u8]) -> (r: Result<(), Error>)
        requires
            old(self).wf(),
        ensures
            final(self).wf(),
            final(self).base() == old(self).base(),
            old(self).in_region(start as int, buf@.len() as int) ==> r is Ok
                && final(self).contents() == old(self).contents().subrange(
                0,
                start - old(self).base(),
            ) + buf@ + old(self).contents().subrange(
                start - old(self).base() + buf@.len(),
                old(self).contents().len() as int,
            ),
            !old(self).in_region(start as int, buf@.len() as int) ==> r == Err::<(), Error>(
                old(self).out_of_range(start, buf@.len() as usize),
            ) && *final(self) == *old(self),
    {
        let len = buf.len();
        let off = match self.contains(start, len) {
            Ok(off) => off,
            Err(e) => return Err(e),
        };
        let ghost old_mem = self.mem@;
        let mut i: usize = 0;
        while i < len
            invariant
                len == buf@.len(),
                off + len <= old_mem.len(),
                off + len <= usize::MAX,
                self.mem@.len() == old_mem.len(),
                self.base == old(self).base,
                i <= len,
                forall|k: int| 0 <= k < off ==> self.mem@[k] == old_mem[k],
                forall|k: int| 0 <= k < i ==> self.mem@[off + k] == buf@[k],
                forall|k: int| off + i <= k < old_mem.len() ==> self.mem@[k] == old_mem[k],
            decreases len - i,
        {
            self.mem.set(off + i, buf[i]);
            i = i + 1;
        }
        assert(self.mem@ =~= old_mem.subrange(0, off as int) + buf@ + old_mem.subrange(
            off + len,
            old_mem.len() as int,
        ));
        Ok(())
    }
}

} // verus!
