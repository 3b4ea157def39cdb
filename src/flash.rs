//! On-chip flash: erased in blocks, programmed in aligned words, and the
//! algorithm that programs an image into it.

use vstd::prelude::*;
use vstd::slice::slice_subrange;
use vstd::arithmetic::div_mod::{
    lemma_add_mod_noop, lemma_fundamental_div_mod, lemma_mod_multiples_basic, lemma_mod_pos_bound,
    lemma_small_mod, lemma_mod_decreases,
};

verus! {

/// The value of an erased flash byte.
pub const ERASED_BYTE: u8 = 0xFF;

/// What the flash driver reports.
#[derive(PartialEq, Eq, Structural, Clone, Copy, Debug)]
pub enum FlashError {
    /// An offset or a length is not a multiple of the granularity.
    NotAligned,
    /// The range runs past the end of the flash.
    OutOfBounds,
}

/// `n` rounded up to a multiple of `m`.
pub open spec fn round_up(n: int, m: int) -> int {
    if n % m == 0 {
        n
    } else {
        n - n % m + m
    }
}

/// The flash: `mem.len()` bytes at address `base`, erased in blocks of
/// `erase_size` and written in words of `write_size`.
pub struct Flash {
    base: usize,
    erase_size: usize,
    write_size: usize,
    mem: Vec<u8>,
}

proof fn lemma_mod_sum(a: int, b: int, m: int)
    requires
        m > 0,
        a % m == 0,
        b % m == 0,
    ensures
        (a + b) % m == 0,
{
    lemma_add_mod_noop(a, b, m);
    lemma_small_mod(0, m as nat);
}

proof fn lemma_mod_multiple(x: int, e: int, w: int)
    requires
        w > 0,
        e > 0,
        e % w == 0,
        x % e == 0,
    ensures
        x % w == 0,
{
    lemma_fundamental_div_mod(x, e);
    lemma_fundamental_div_mod(e, w);
    let q = (e / w) * (x / e);
    assert(x == q * w) by (nonlinear_arith)
        requires
            x == e * (x / e),
            e == w * (e / w),
            q == (e / w) * (x / e),
    ;
    lemma_mod_multiples_basic(q, w);
}

proof fn lemma_round_down(c: int, w: int)
    requires
        w > 0,
        c >= 0,
    ensures
        (c - c % w) % w == 0,
        0 <= c % w < w,
        c % w <= c,
{
    lemma_mod_decreases(c as nat, w as nat);
    lemma_fundamental_div_mod(c, w);
    lemma_mod_pos_bound(c, w);
    assert(c - c % w == (c / w) * w) by (nonlinear_arith)
        requires
            c == w * (c / w) + c % w,
    ;
    lemma_mod_multiples_basic(c / w, w);
}

proof fn lemma_word_fits(a: int, e: int, w: int)
    requires
        w > 0,
        e > 0,
        e % w == 0,
        a % w == 0,
        0 <= a < e,
    ensures
        a + w <= e,
{
    lemma_fundamental_div_mod(a, w);
    lemma_fundamental_div_mod(e, w);
    let qa = a / w;
    let qe = e / w;
    assert(qa < qe) by (nonlinear_arith)
        requires
            a == w * qa,
            e == w * qe,
            a < e,
            w > 0,
    ;
    assert(a + w <= e) by (nonlinear_arith)
        requires
            a == w * qa,
            e == w * qe,
            qa + 1 <= qe,
            w > 0,
    ;
}

proof fn lemma_round_up_block(k: int, len: int, e: int)
    requires
        e > 0,
        k >= 0,
        k % e == 0,
        k < len,
    ensures
        k + e <= round_up(len, e),
        len <= k + e ==> round_up(len, e) == k + e,
        round_up(len, e) % e == 0,
        len <= round_up(len, e),
{
    lemma_fundamental_div_mod(len, e);
    lemma_fundamental_div_mod(k, e);
    lemma_mod_pos_bound(len, e);
    let q = len / e;
    let r = len % e;
    let qk = k / e;
    assert(qk <= q) by (nonlinear_arith)
        requires
            k == e * qk,
            len == e * q + r,
            0 <= r < e,
            k < len,
            e > 0,
    ;
    if r == 0 {
        assert(qk < q) by (nonlinear_arith)
            requires
                k == e * qk,
                len == e * q,
                k < len,
                e > 0,
        ;
        assert(k + e <= len) by (nonlinear_arith)
            requires
                k == e * qk,
                len == e * q,
                qk + 1 <= q,
                e > 0,
        ;
    } else {
        assert(round_up(len, e) == (q + 1) * e) by (nonlinear_arith)
            requires
                len == e * q + r,
                r != 0,
                round_up(len, e) == len - r + e,
        ;
        lemma_mod_multiples_basic(q + 1, e);
        assert(k + e <= (q + 1) * e) by (nonlinear_arith)
            requires
                k == e * qk,
                qk <= q,
                e > 0,
        ;
        if len <= k + e {
            assert(q <= qk) by (nonlinear_arith)
                requires
                    k == e * qk,
                    len == e * q + r,
                    0 < r,
                    len <= k + e,
                    e > 0,
            ;
        }
    }
}

impl Flash {
    pub closed spec fn base(&self) -> int {
        self.base as int
    }

    pub closed spec fn erase_size(&self) -> int {
        self.erase_size as int
    }

    pub closed spec fn write_size(&self) -> int {
        self.write_size as int
    }

    /// The flash's contents, byte `i` being the one at offset `i`.
    pub closed spec fn contents(&self) -> Seq<u8> {
        self.mem@
    }

    pub open spec fn wf(&self) -> bool {
        &&& 0 <= self.base()
        &&& 0 < self.write_size()
        &&& 0 < self.erase_size()
        &&& self.erase_size() % self.write_size() == 0
        &&& self.base() + self.contents().len() <= usize::MAX
    }

    /// A flash of `size` erased bytes at `base`.
    pub fn new(base: usize, size: usize, erase_size: usize, write_size: usize) -> (r: Flash)
        requires
            0 < write_size,
            0 < erase_size,
            erase_size % write_size == 0,
            base + size <= usize::MAX,
        ensures
            r.wf(),
            r.base() == base,
            r.erase_size() == erase_size,
            r.write_size() == write_size,
            r.contents() == Seq::new(size as nat, |i: int| ERASED_BYTE),
    {
        let mem = vec![ERASED_BYTE; size];
        assert(mem@ =~= Seq::new(size as nat, |i: int| ERASED_BYTE));
        Flash { base, erase_size, write_size, mem }
    }

    /// The flash's first address.
    pub fn base_addr(&self) -> (r: usize)
        ensures
            r == self.base(),
    {
        self.base
    }

    /// The flash's size in bytes.
    pub fn size(&self) -> (r: usize)
        ensures
            r == self.contents().len(),
    {
        self.mem.len()
    }

    /// The erase granularity.
    pub fn erase_granularity(&self) -> (r: usize)
        ensures
            r == self.erase_size(),
    {
        self.erase_size
    }

    /// The `len` bytes at `offset`.
    pub fn read(&self, offset: usize, len: usize) -> (r: Vec<u8>)
        requires
            self.wf(),
            offset + len <= self.contents().len(),
        ensures
            r@ == self.contents().subrange(offset as int, offset + len),
    {
        let mut out: Vec<u8> = Vec::new();
        let mut i: usize = 0;
        while i < len
            invariant
                i <= len,
                offset + len <= self.mem@.len(),
                offset + len <= usize::MAX,
                out@ == self.mem@.subrange(offset as int, offset + i),
            decreases len - i,
        {
            out.push(self.mem[offset + i]);
            i = i + 1;
            assert(out@ =~= self.mem@.subrange(offset as int, offset + i));
        }
        out
    }

    /// Erases the blocks in `[from, to)`.
    pub fn erase(&mut self, from: usize, to: usize) -> (r: Result<(), FlashError>)
        requires
            old(self).wf(),
        ensures
            final(self).wf(),
            final(self).base() == old(self).base(),
            final(self).erase_size() == old(self).erase_size(),
            final(self).write_size() == old(self).write_size(),
            final(self).contents().len() == old(self).contents().len(),
            (from as int % old(self).erase_size() != 0 || to as int % old(self).erase_size() != 0) ==> r
                == Err::<(), FlashError>(FlashError::NotAligned),
            (from as int % old(self).erase_size() == 0 && to as int % old(self).erase_size() == 0 && (from > to
                || to > old(self).contents().len())) ==> r == Err::<(), FlashError>(
                FlashError::OutOfBounds,
            ),
            r is Ok <==> (from as int % old(self).erase_size() == 0 && to as int % old(
                self,
            ).erase_size() == 0 && from <= to && to <= old(self).contents().len()),
            r is Err ==> final(self).contents() == old(self).contents(),
            r is Ok ==> final(self).contents() == Seq::new(
                old(self).contents().len(),
                |j: int|
                    if from <= j < to {
                        ERASED_BYTE
                    } else {
                        old(self).contents()[j]
                    },
            ),
    {
        if from % self.erase_size != 0 || to % self.erase_size != 0 {
            return Err(FlashError::NotAligned);
        }
        if from > to || to > self.mem.len() {
            return Err(FlashError::OutOfBounds);
        }
        let ghost old_mem = self.mem@;
        let mut i: usize = from;
        while i < to
            invariant
                from <= i <= to,
                to <= self.mem@.len(),
                self.mem@.len() == old_mem.len(),
                self.base == old(self).base,
                self.erase_size == old(self).erase_size,
                self.write_size == old(self).write_size,
                forall|j: int|
                    0 <= j < old_mem.len() ==> #[trigger] self.mem@[j] == if from <= j < i {
                        ERASED_BYTE
                    } else {
                        old_mem[j]
                    },
            decreases to - i,
        {
            self.mem.set(i, ERASED_BYTE);
            i = i + 1;
        }
        assert(self.mem@ =~= Seq::new(
            old_mem.len(),
            |j: int|
                if from <= j < to {
                    ERASED_BYTE
                } else {
                    old_mem[j]
                },
        ));
        Ok(())
    }

    /// Writes `bytes` at `offset`; both must be word-aligned.
    pub fn write(&mut self, offset: usize, bytes: &[u8]) -> (r: Result<(), FlashError>)
        requires
            old(self).wf(),
        ensures
            final(self).wf(),
            final(self).base() == old(self).base(),
            final(self).erase_size() == old(self).erase_size(),
            final(self).write_size() == old(self).write_size(),
            final(self).contents().len() == old(self).contents().len(),
            (offset as int % old(self).write_size() != 0 || bytes@.len() as int % old(self).write_size() != 0)
                ==> r == Err::<(), FlashError>(FlashError::NotAligned),
            (offset as int % old(self).write_size() == 0 && bytes@.len() as int % old(self).write_size() == 0
                && offset + bytes@.len() > old(self).contents().len()) ==> r == Err::<
                (),
                FlashError,
            >(FlashError::OutOfBounds),
            r is Ok <==> (offset as int % old(self).write_size() == 0 && bytes@.len() as int % old(
                self,
            ).write_size() == 0 && offset + bytes@.len() <= old(self).contents().len()),
            r is Err ==> final(self).contents() == old(self).contents(),
            r is Ok ==> final(self).contents() == Seq::new(
                old(self).contents().len(),
                |j: int|
                    if offset <= j < offset + bytes@.len() {
                        bytes@[j - offset]
                    } else {
                        old(self).contents()[j]
                    },
            ),
    {
        let len = bytes.len();
        if offset % self.write_size != 0 || len % self.write_size != 0 {
            return Err(FlashError::NotAligned);
        }
        if offset > self.mem.len() || len > self.mem.len() - offset {
            return Err(FlashError::OutOfBounds);
        }
        let ghost old_mem = self.mem@;
        let mut i: usize = 0;
        while i < len
            invariant
                i <= len,
                len == bytes@.len(),
                offset + len <= self.mem@.len(),
                offset + len <= usize::MAX,
                self.mem@.len() == old_mem.len(),
                self.base == old(self).base,
                self.erase_size == old(self).erase_size,
                self.write_size == old(self).write_size,
                forall|j: int|
                    0 <= j < old_mem.len() ==> #[trigger] self.mem@[j] == if offset <= j < offset
                        + i {
                        bytes@[j - offset]
                    } else {
                        old_mem[j]
                    },
            decreases len - i,
        {
            self.mem.set(offset + i, bytes[i]);
            i = i + 1;
        }
        assert(self.mem@ =~= Seq::new(
            old_mem.len(),
            |j: int|
                if offset <= j < offset + len {
                    bytes@[j - offset]
                } else {
                    old_mem[j]
                },
        ));
        Ok(())
    }

    /// Whether programming `len` bytes at `offset` succeeds: nothing to do,
    /// or an offset on an erase block boundary and room for the blocks.
    pub open spec fn program_fits(&self, offset: int, len: int) -> bool {
        len == 0 || (offset % self.erase_size() == 0 && offset + round_up(len, self.erase_size())
            <= self.contents().len())
    }

    /// Programs `data` at `offset`: erases each erase block that the data
    /// touches, writes the whole words of each block, and pads a trailing
    /// partial word with erased bytes. Nothing is written unless all of it
    /// fits.
    pub fn program(&mut self, offset: usize, data: &[u8]) -> (r: Result<(), FlashError>)
        requires
            old(self).wf(),
        ensures
            final(self).wf(),
            final(self).base() == old(self).base(),
            final(self).erase_size() == old(self).erase_size(),
            final(self).write_size() == old(self).write_size(),
            r is Ok <==> old(self).program_fits(offset as int, data@.len() as int),
            r is Ok ==> final(self).contents() == programmed(
                old(self).contents(),
                offset as int,
                data@,
                old(self).erase_size(),
            ),
            r is Err ==> final(self).contents() == old(self).contents(),
    {
        let len = data.len();
        let ghost old_mem = self.mem@;
        let ghost e = self.erase_size as int;
        if len == 0 {
            assert(self.mem@ =~= programmed(old_mem, offset as int, data@, e));
            return Ok(());
        }
        let es = self.erase_size;
        let ws = self.write_size;
        if offset % es != 0 {
            return Err(FlashError::NotAligned);
        }
        let cap = self.mem.len();
        if offset > cap || len > cap - offset {
            proof {
                lemma_round_up_block(0, len as int, e);
            }
            return Err(FlashError::OutOfBounds);
        }
        let rem = len % es;
        if rem != 0 && es - rem > cap - offset - len {
            return Err(FlashError::OutOfBounds);
        }
        proof {
            lemma_round_up_block(0, len as int, e);
        }
        let mut idx: usize = 0;
        let ghost mut top: int = 0;
        while idx < len
            invariant
                self.wf(),
                self.base == old(self).base,
                self.erase_size == es,
                self.write_size == ws,
                es == e,
                self.mem@.len() == old_mem.len(),
                old_mem == old(self).contents(),
                len == data@.len(),
                cap == old_mem.len(),
                0 < len,
                idx <= len,
                offset as int % e == 0,
                offset + round_up(len as int, e) <= cap,
                idx < len ==> idx as int % e == 0,
                top == round_up(idx as int, e),
                forall|j: int|
                    0 <= j < old_mem.len() ==> #[trigger] self.mem@[j] == if offset <= j < offset
                        + idx {
                        data@[j - offset]
                    } else if offset + idx <= j < offset + top {
                        ERASED_BYTE
                    } else {
                        old_mem[j]
                    },
            decreases len - idx,
        {
            proof {
                lemma_round_up_block(idx as int, len as int, e);
                lemma_mod_sum(offset as int, idx as int, e);
                lemma_mod_sum(offset + idx, e, e);
                lemma_mod_multiple(offset + idx, e, ws as int);
                lemma_round_down(0, e);
            }
            let ch_len: usize = if len - idx < es {
                len - idx
            } else {
                es
            };
            proof {
                lemma_round_up_block(idx as int, (idx + ch_len) as int, e);
                lemma_round_down(ch_len as int, ws as int);
            }
            let blk = offset + idx;
            match self.erase(blk, blk + es) {
                Ok(()) => {},
                Err(err) => return Err(err),
            }
            let aligned = ch_len - ch_len % ws;
            let chunk = slice_subrange(data, idx, idx + aligned);
            match self.write(blk, chunk) {
                Ok(()) => {},
                Err(err) => return Err(err),
            }
            let ghost mid = self.mem@;
            if aligned < ch_len {
                proof {
                    lemma_word_fits(aligned as int, e, ws as int);
                    lemma_mod_sum(blk as int, aligned as int, ws as int);
                    lemma_mod_multiple(ws as int, ws as int, ws as int);
                }
                let mut extra = vec![ERASED_BYTE; ws];
                let tail = ch_len - aligned;
                let mut k: usize = 0;
                while k < tail
                    invariant
                        extra@.len() == ws,
                        tail < ws,
                        tail == ch_len - aligned,
                        idx + ch_len <= len,
                        len == data@.len(),
                        k <= tail,
                        forall|i: int|
                            0 <= i < ws ==> #[trigger] extra@[i] == if i < k {
                                data@[idx + aligned + i]
                            } else {
                                ERASED_BYTE
                            },
                    decreases tail - k,
                {
                    extra.set(k, data[idx + aligned + k]);
                    k = k + 1;
                }
                match self.write(blk + aligned, extra.as_slice()) {
                    Ok(()) => {},
                    Err(err) => return Err(err),
                }
                proof {
                    assert forall|j: int| 0 <= j < old_mem.len() implies #[trigger] self.mem@[j]
                        == if offset <= j < offset + idx + ch_len {
                        data@[j - offset]
                    } else if offset + idx + ch_len <= j < offset + idx + e {
                        ERASED_BYTE
                    } else {
                        old_mem[j]
                    } by {
                        if blk + aligned <= j < blk + aligned + ws {
                            assert(self.mem@[j] == extra@[j - blk - aligned]);
                        } else {
                            assert(self.mem@[j] == mid[j]);
                        }
                    }
                }
            }
            idx = idx + ch_len;
            proof {
                top = (idx - ch_len) + e;
            }
        }
        assert(self.mem@ =~= programmed(old_mem, offset as int, data@, e));
        Ok(())
    }
}

/// The contents after `data` was programmed at `offset` with erase blocks of
/// `e` bytes: the data in place, the rest of its last block erased,
/// everything else unchanged.
pub open spec fn programmed(old: Seq<u8>, offset: int, data: Seq<u8>, e: int) -> Seq<u8> {
    Seq::new(
        old.len(),
        |j: int|
            if offset <= j < offset + data.len() {
                data[j - offset]
            } else if offset + data.len() <= j < offset + round_up(data.len() as int, e) {
                ERASED_BYTE
            } else {
                old[j]
            },
    )
}

} // verus!
