//! Host-side chunked transfers: a byte range is moved in chunks of at most
//! `CHUNK_SZ` bytes, one request per chunk, and replies are matched to
//! chunks by the address they echo, not by the order they arrive in.

use vstd::prelude::*;
use vstd::slice::slice_subrange;
use crate::icd::{Error, Request, Response};
use crate::managed::Managed;

verus! {

/// The most bytes one request moves.
pub const CHUNK_SZ: usize = 256;

/// The number of chunks that `total` bytes take.
pub open spec fn chunk_count(total: int) -> int {
    if total % 256 == 0 {
        total / 256
    } else {
        total / 256 + 1
    }
}

/// The length of chunk `i` of `total` bytes: full but for the last.
pub open spec fn chunk_len(total: int, i: int) -> int {
    if total - i * 256 < 256 {
        total - i * 256
    } else {
        256
    }
}

/// The chunk that starts at `addr`, in a transfer of `total` bytes at `base`.
pub open spec fn chunk_index(base: int, total: int, addr: int) -> Option<int> {
    if base <= addr && (addr - base) % 256 == 0 && (addr - base) / 256 < chunk_count(total) {
        Some((addr - base) / 256)
    } else {
        None
    }
}

/// `data` with the bytes from `start` on replaced by `val`.
pub open spec fn splice(data: Seq<u8>, start: int, val: Seq<u8>) -> Seq<u8> {
    Seq::new(
        data.len(),
        |k: int|
            if start <= k < start + val.len() {
                val[k - start]
            } else {
                data[k]
            },
    )
}

/// The address a reply echoes, if it echoes one.
pub open spec fn echoed_addr(resp: Response) -> Option<usize> {
    match resp {
        Response::PeekBytes(p) => Some(p.addr),
        Response::PeekBytesFlash(p) => Some(p.addr),
        Response::Poked(p) => Some(p.addr),
        _ => None,
    }
}

/// Whether chunk `i` is the first one not done.
pub open spec fn is_first_pending(done: Seq<bool>, i: int) -> bool {
    0 <= i < done.len() && !done[i] && forall|k: int| 0 <= k < i ==> #[trigger] done[k]
}

/// Whether `req` asks for chunk `i` of a transfer.
pub open spec fn chunk_request(
    kind: TransferKind,
    base: int,
    data: Seq<u8>,
    i: int,
    req: Request,
) -> bool {
    let addr = base + i * 256;
    let len = chunk_len(data.len() as int, i);
    match kind {
        TransferKind::Peek => req == Request::PeekBytes { addr: addr as usize, len: len as usize },
        TransferKind::PeekFlash => req == Request::PeekBytesFlash {
            addr: addr as usize,
            len: len as usize,
        },
        TransferKind::Poke => req matches Request::PokeBytes { addr: a, val } && a == addr
            && val@ == data.subrange(i * 256, i * 256 + len),
    }
}

/// The requests of a transfer of `total` bytes at `base`: chunk `i` at
/// `base + 256 * i`, each `CHUNK_SZ` long but the last, which holds the rest.
pub fn plan(base: usize, total: usize) -> (r: Vec<(usize, usize)>)
    requires
        base + total <= usize::MAX,
    ensures
        r@.len() == chunk_count(total as int),
        forall|i: int|
            0 <= i < r@.len() ==> #[trigger] r@[i] == (
                (base + i * 256) as usize,
                chunk_len(total as int, i) as usize,
            ),
{
    let mut out: Vec<(usize, usize)> = Vec::new();
    let mut idx = base;
    let mut remain = total;
    while remain != 0
        invariant
            base + total <= usize::MAX,
            remain <= total,
            idx == base + (total - remain),
            remain > 0 ==> (total - remain) == out@.len() * 256,
            remain > 0 ==> out@.len() < chunk_count(total as int),
            remain == 0 ==> out@.len() == chunk_count(total as int),
            forall|i: int|
                0 <= i < out@.len() ==> #[trigger] out@[i] == (
                    (base + i * 256) as usize,
                    chunk_len(total as int, i) as usize,
                ),
        decreases remain,
    {
        let chunk = if remain < CHUNK_SZ {
            remain
        } else {
            CHUNK_SZ
        };
        out.push((idx, chunk));
        remain = remain - chunk;
        idx = idx + chunk;
    }
    out
}

/// What a transfer moves.
#[derive(PartialEq, Eq, Structural, Clone, Copy, Debug)]
pub enum TransferKind {
    /// Read scratch RAM.
    Peek,
    /// Read flash.
    PeekFlash,
    /// Write scratch RAM.
    Poke,
}

/// A transfer in progress: the byte range, its bytes (read so far, or to be
/// written), and which chunks are done.
pub struct Transfer {
    kind: TransferKind,
    base: usize,
    data: Vec<u8>,
    done: Vec<bool>,
}

/// What accepting `resp` does to a transfer's bytes and done chunks, and
/// whether the reply belongs to it: only a reply to the chunk in flight (the
/// first one not done) is taken; any other reply is unrelated traffic.
pub open spec fn accept(
    kind: TransferKind,
    base: int,
    data: Seq<u8>,
    done: Seq<bool>,
    resp: Response,
) -> (Seq<u8>, Seq<bool>, bool) {
    let total = data.len() as int;
    match (kind, resp) {
        (TransferKind::Peek, Response::PeekBytes(p)) | (
            TransferKind::PeekFlash,
            Response::PeekBytesFlash(p),
        ) => match chunk_index(base, total, p.addr as int) {
            Some(i) => if is_first_pending(done, i) && p.val@.len() == chunk_len(total, i) {
                (splice(data, i * 256, p.val@), done.update(i, true), true)
            } else {
                (data, done, false)
            },
            None => (data, done, false),
        },
        (TransferKind::Poke, Response::Poked(p)) => match chunk_index(base, total, p.addr as int) {
            Some(i) => if is_first_pending(done, i) {
                (data, done.update(i, true), true)
            } else {
                (data, done, false)
            },
            None => (data, done, false),
        },
        _ => (data, done, false),
    }
}

impl Transfer {
    pub closed spec fn kind(&self) -> TransferKind {
        self.kind
    }

    pub closed spec fn base(&self) -> int {
        self.base as int
    }

    /// The transfer's bytes: read so far, or to be written.
    pub closed spec fn data(&self) -> Seq<u8> {
        self.data@
    }

    /// Which chunks are done.
    pub closed spec fn done(&self) -> Seq<bool> {
        self.done@
    }

    pub open spec fn wf(&self) -> bool {
        &&& 0 <= self.base()
        &&& self.base() + self.data().len() <= usize::MAX
        &&& self.done().len() == chunk_count(self.data().len() as int)
    }

    fn all_pending(n: usize) -> (r: Vec<bool>)
        ensures
            r@ == Seq::new(n as nat, |i: int| false),
    {
        let v = vec![false; n];
        assert(v@ =~= Seq::new(n as nat, |i: int| false));
        v
    }

    /// A read of `total` bytes at `base`, from scratch RAM or from flash.
    pub fn new_peek(base: usize, total: usize, flash: bool) -> (r: Transfer)
        requires
            base + total <= usize::MAX,
        ensures
            r.wf(),
            r.kind() == if flash {
                TransferKind::PeekFlash
            } else {
                TransferKind::Peek
            },
            r.base() == base,
            r.data() == Seq::new(total as nat, |i: int| 0u8),
            r.done() == Seq::new(chunk_count(total as int) as nat, |i: int| false),
    {
        let n = if total % CHUNK_SZ == 0 {
            total / CHUNK_SZ
        } else {
            total / CHUNK_SZ + 1
        };
        let data = vec![0u8; total];
        assert(data@ =~= Seq::new(total as nat, |i: int| 0u8));
        Transfer {
            kind: if flash {
                TransferKind::PeekFlash
            } else {
                TransferKind::Peek
            },
            base,
            data,
            done: Self::all_pending(n),
        }
    }

    /// A write of `data` at `base`.
    pub fn new_poke(base: usize, data: Vec<u8>) -> (r: Transfer)
        requires
            base + data@.len() <= usize::MAX,
        ensures
            r.wf(),
            r.kind() == TransferKind::Poke,
            r.base() == base,
            r.data() == data@,
            r.done() == Seq::new(chunk_count(data@.len() as int) as nat, |i: int| false),
    {
        let total = data.len();
        let n = if total % CHUNK_SZ == 0 {
            total / CHUNK_SZ
        } else {
            total / CHUNK_SZ + 1
        };
        Transfer { kind: TransferKind::Poke, base, data, done: Self::all_pending(n) }
    }

    /// Whether every chunk is done.
    pub fn is_complete(&self) -> (r: bool)
        ensures
            r == forall|i: int| 0 <= i < self.done().len() ==> #[trigger] self.done()[i],
    {
        let mut i: usize = 0;
        while i < self.done.len()
            invariant
                i <= self.done@.len(),
                forall|k: int| 0 <= k < i ==> #[trigger] self.done@[k],
            decreases self.done@.len() - i,
        {
            if !self.done[i] {
                assert(!self.done()[i as int]);
                return false;
            }
            i = i + 1;
        }
        true
    }

    /// Whether chunk `i` is done.
    pub fn is_done(&self, i: usize) -> (r: bool)
        requires
            i < self.done().len(),
        ensures
            r == self.done()[i as int],
    {
        self.done[i]
    }

    /// The number of chunks.
    pub fn chunk_total(&self) -> (r: usize)
        ensures
            r == self.done().len(),
    {
        self.done.len()
    }

    /// The transfer's bytes.
    pub fn data_slice(&self) -> (r: &[u8])
        ensures
            r@ == self.data(),
    {
        self.data.as_slice()
    }

    /// The first chunk not yet done, if any.
    pub fn next_chunk(&self) -> (r: Option<usize>)
        ensures
            r is None <==> forall|i: int| 0 <= i < self.done().len() ==> #[trigger] self.done()[i],
            r matches Some(i) ==> i < self.done().len() && !self.done()[i as int] && forall|
                k: int,
            |
                0 <= k < i ==> #[trigger] self.done()[k],
    {
        let mut i: usize = 0;
        while i < self.done.len()
            invariant
                i <= self.done@.len(),
                forall|k: int| 0 <= k < i ==> #[trigger] self.done@[k],
            decreases self.done@.len() - i,
        {
            if !self.done[i] {
                assert(!self.done()[i as int]);
                return Some(i);
            }
            i = i + 1;
        }
        None
    }

    /// The chunk that starts at `addr`, if any.
    fn chunk_of(&self, addr: usize) -> (r: Option<usize>)
        requires
            self.wf(),
        ensures
            r is Some <==> chunk_index(self.base(), self.data().len() as int, addr as int) is Some,
            r is Some ==> r.unwrap() == chunk_index(
                self.base(),
                self.data().len() as int,
                addr as int,
            ).unwrap(),
    {
        if addr < self.base {
            return None;
        }
        let off = addr - self.base;
        if off % CHUNK_SZ != 0 {
            return None;
        }
        let i = off / CHUNK_SZ;
        if i >= self.done.len() {
            return None;
        }
        Some(i)
    }

    /// Whether chunk `i` is the one in flight: the first not done.
    fn in_flight(&self, i: usize) -> (r: bool)
        ensures
            r == is_first_pending(self.done(), i as int),
    {
        match self.next_chunk() {
            Some(j) => {
                if j == i {
                    true
                } else {
                    proof {
                        if is_first_pending(self.done(), i as int) {
                            if i < j {
                                assert(self.done()[i as int]);
                            } else {
                                assert(self.done()[j as int]);
                            }
                        }
                    }
                    false
                }
            },
            None => {
                proof {
                    if is_first_pending(self.done(), i as int) {
                        assert(self.done()[i as int]);
                    }
                }
                false
            },
        }
    }

    /// The length of chunk `i`.
    fn chunk_len_of(&self, i: usize) -> (r: usize)
        requires
            self.wf(),
            i < self.done().len(),
        ensures
            r == chunk_len(self.data().len() as int, i as int),
            i * 256 + r <= self.data().len(),
    {
        let start = i * CHUNK_SZ;
        let rest = self.data.len() - start;
        if rest < CHUNK_SZ {
            rest
        } else {
            CHUNK_SZ
        }
    }

    /// The request for the first chunk not yet done, with its index.
    pub fn next_request(&self) -> (r: Option<(usize, Request<'_>)>)
        requires
            self.wf(),
        ensures
            r is None <==> forall|i: int| 0 <= i < self.done().len() ==> #[trigger] self.done()[i],
            r matches Some((i, req)) ==> is_first_pending(self.done(), i as int) && chunk_request(
                self.kind(),
                self.base(),
                self.data(),
                i as int,
                req,
            ),
    {
        let i = match self.next_chunk() {
            Some(i) => i,
            None => return None,
        };
        let len = self.chunk_len_of(i);
        let start = i * CHUNK_SZ;
        let addr = self.base + start;
        let req = match self.kind {
            TransferKind::Peek => Request::PeekBytes { addr, len },
            TransferKind::PeekFlash => Request::PeekBytesFlash { addr, len },
            TransferKind::Poke => Request::PokeBytes {
                addr,
                val: Managed::from_borrowed(slice_subrange(self.data.as_slice(), start, start + len)),
            },
        };
        Some((i, req))
    }

    /// Takes a reply: one that echoes the start of the chunk in flight (the
    /// first one not done), of the kind this transfer asks for (with the
    /// chunk's length, for a read), completes that chunk; any other reply,
    /// for another chunk or of another kind, is unrelated traffic and is
    /// dropped. Returns whether the reply was taken.
    pub fn on_response(&mut self, resp: &Response) -> (r: bool)
        requires
            old(self).wf(),
        ensures
            final(self).wf(),
            final(self).kind() == old(self).kind(),
            final(self).base() == old(self).base(),
            (final(self).data(), final(self).done(), r) == accept(
                old(self).kind(),
                old(self).base(),
                old(self).data(),
                old(self).done(),
                *resp,
            ),
    {
        match resp {
            Response::PeekBytes(p) => {
                if self.kind == TransferKind::Peek {
                    self.take_chunk(p.addr, p.val.as_slice())
                } else {
                    false
                }
            },
            Response::PeekBytesFlash(p) => {
                if self.kind == TransferKind::PeekFlash {
                    self.take_chunk(p.addr, p.val.as_slice())
                } else {
                    false
                }
            },
            Response::Poked(p) => {
                if self.kind == TransferKind::Poke {
                    match self.chunk_of(p.addr) {
                        Some(i) => {
                            if self.in_flight(i) {
                                self.done.set(i, true);
                                true
                            } else {
                                false
                            }
                        },
                        None => false,
                    }
                } else {
                    false
                }
            },
            _ => false,
        }
    }

    fn take_chunk(&mut self, addr: usize, val: &[u8]) -> (r: bool)
        requires
            old(self).wf(),
        ensures
            final(self).wf(),
            final(self).kind() == old(self).kind(),
            final(self).base() == old(self).base(),
            (final(self).data(), final(self).done(), r) == match chunk_index(
                old(self).base(),
                old(self).data().len() as int,
                addr as int,
            ) {
                Some(i) => if is_first_pending(old(self).done(), i) && val@.len() == chunk_len(
                    old(self).data().len() as int,
                    i,
                ) {
                    (
                        splice(old(self).data(), i * 256, val@),
                        old(self).done().update(i, true),
                        true,
                    )
                } else {
                    (old(self).data(), old(self).done(), false)
                },
                None => (old(self).data(), old(self).done(), false),
            },
    {
        let i = match self.chunk_of(addr) {
            Some(i) => i,
            None => return false,
        };
        if !self.in_flight(i) {
            return false;
        }
        let len = self.chunk_len_of(i);
        if val.len() != len {
            return false;
        }
        let start = i * CHUNK_SZ;
        let ghost old_data = self.data@;
        let mut k: usize = 0;
        while k < len
            invariant
                k <= len,
                len == val@.len(),
                start + len <= old_data.len(),
                start + len <= usize::MAX,
                self.data@.len() == old_data.len(),
                self.done == old(self).done,
                self.base == old(self).base,
                self.kind == old(self).kind,
                forall|j: int|
                    0 <= j < old_data.len() ==> #[trigger] self.data@[j] == if start <= j < start
                        + k {
                        val@[j - start]
                    } else {
                        old_data[j]
                    },
            decreases len - k,
        {
            self.data.set(start + k, val[k]);
            k = k + 1;
        }
        self.done.set(i, true);
        assert(self.data@ =~= splice(old_data, start as int, val@));
        true
    }
}

/// A reply that does not answer the chunk in flight (another chunk, another
/// kind, or no address at all) is dropped and changes nothing.
pub proof fn lemma_stray_reply_dropped(
    kind: TransferKind,
    base: int,
    data: Seq<u8>,
    done: Seq<bool>,
    resp: Response,
)
    requires
        !(echoed_addr(resp) matches Some(a) && chunk_index(base, data.len() as int, a as int)
            matches Some(i) && is_first_pending(done, i)),
    ensures
        accept(kind, base, data, done, resp) == (data, done, false),
{
}

/// Taking the replies `rs` in order: the bytes and the done chunks after.
pub open spec fn replay(
    kind: TransferKind,
    base: int,
    data: Seq<u8>,
    done: Seq<bool>,
    rs: Seq<Response>,
) -> (Seq<u8>, Seq<bool>)
    decreases rs.len(),
{
    if rs.len() == 0 {
        (data, done)
    } else {
        let s = replay(kind, base, data, done, rs.drop_last());
        let t = accept(kind, base, s.0, s.1, rs.last());
        (t.0, t.1)
    }
}

/// The first `j` chunks done, the rest pending.
pub open spec fn done_upto(n: int, j: int) -> Seq<bool> {
    Seq::new(n as nat, |k: int| k < j)
}

/// The bytes of the first `j` chunks read, as `vals` holds them; zeros after.
pub open spec fn read_upto(total: int, vals: Seq<Seq<u8>>, j: int) -> Seq<u8> {
    Seq::new(total as nat, |k: int| if k < j * 256 { vals[k / 256][k % 256] } else { 0u8 })
}

/// Whether `r` answers a read of chunk `j` at `base` with `v`.
pub open spec fn read_reply(kind: TransferKind, r: Response, addr: int, v: Seq<u8>) -> bool {
    match (kind, r) {
        (TransferKind::Peek, Response::PeekBytes(p)) => p.addr == addr && p.val@ == v,
        (TransferKind::PeekFlash, Response::PeekBytesFlash(p)) => p.addr == addr && p.val@ == v,
        _ => false,
    }
}

/// A read of `total` bytes at `base` that gets, in chunk order, the reply to
/// each chunk (chunk `j`'s bytes `vals[j]`, of the chunk's length) has the
/// first `j` chunks done and their bytes in place, in address order, after
/// `j` replies; so the chunk in flight, and the next request, is chunk `j`.
/// Replies that answer another chunk are dropped on the way
/// (`lemma_stray_reply_dropped`).
pub proof fn lemma_read_in_order(
    kind: TransferKind,
    base: int,
    total: int,
    vals: Seq<Seq<u8>>,
    rs: Seq<Response>,
    j: int,
)
    requires
        kind != TransferKind::Poke,
        0 <= base,
        0 <= total,
        vals.len() == chunk_count(total),
        rs.len() == chunk_count(total),
        forall|i: int| 0 <= i < vals.len() ==> (#[trigger] vals[i]).len() == chunk_len(total, i),
        forall|i: int| 0 <= i < rs.len() ==> read_reply(kind, #[trigger] rs[i], base + i * 256, vals[i]),
        0 <= j <= rs.len(),
    ensures
        replay(
            kind,
            base,
            Seq::new(total as nat, |k: int| 0u8),
            done_upto(chunk_count(total), 0),
            rs.subrange(0, j),
        ) == (read_upto(total, vals, j), done_upto(chunk_count(total), j)),
    decreases j,
{
    let n = chunk_count(total);
    if j == 0 {
        assert(read_upto(total, vals, 0) =~= Seq::new(total as nat, |k: int| 0u8));
    } else {
        lemma_read_in_order(kind, base, total, vals, rs, j - 1);
        let prev = rs.subrange(0, j - 1);
        assert(rs.subrange(0, j).drop_last() =~= prev);
        let i = j - 1;
        let r = rs[i];
        assert(read_reply(kind, r, base + i * 256, vals[i]));
        assert(i * 256 < total);
        assert(chunk_index(base, total, base + i * 256) == Some(i));
        let done = done_upto(n, i);
        assert(is_first_pending(done, i));
        let data = read_upto(total, vals, i);
        assert(splice(data, i * 256, vals[i]) =~= read_upto(total, vals, j)) by {
            assert forall|k: int| 0 <= k < total implies #[trigger] splice(data, i * 256, vals[i])[k]
                == read_upto(total, vals, j)[k] by {
                if i * 256 <= k < i * 256 + vals[i].len() {
                    assert(k / 256 == i);
                    assert(k % 256 == k - i * 256);
                }
            }
        }
        assert(done.update(i, true) =~= done_upto(n, j));
    }
}

/// A write of `total` bytes at `base` whose acks echo, in chunk order, each
/// chunk's address has the first `j` chunks done after `j` acks; so the
/// chunk in flight, and the next request, is chunk `j`, and after the last
/// ack every chunk is done. Acks that echo another address are dropped on
/// the way (`lemma_stray_reply_dropped`).
pub proof fn lemma_write_in_order(
    base: int,
    data: Seq<u8>,
    rs: Seq<Response>,
    j: int,
)
    requires
        0 <= base,
        rs.len() == chunk_count(data.len() as int),
        forall|i: int|
            0 <= i < rs.len() ==> (#[trigger] rs[i] matches Response::Poked(p) && p.addr == base + i
                * 256),
        0 <= j <= rs.len(),
    ensures
        replay(
            TransferKind::Poke,
            base,
            data,
            done_upto(rs.len() as int, 0),
            rs.subrange(0, j),
        ) == (data, done_upto(rs.len() as int, j)),
    decreases j,
{
    let n = rs.len() as int;
    if j > 0 {
        lemma_write_in_order(base, data, rs, j - 1);
        assert(rs.subrange(0, j).drop_last() =~= rs.subrange(0, j - 1));
        let i = j - 1;
        assert(rs[i] matches Response::Poked(p) && p.addr == base + i * 256);
        assert(i * 256 < data.len());
        assert(chunk_index(base, data.len() as int, base + i * 256) == Some(i));
        assert(is_first_pending(done_upto(n, i), i));
        assert(done_upto(n, i).update(i, true) =~= done_upto(n, j));
    }
}

/// What taking a reply did to a transfer.
#[derive(PartialEq, Eq, Structural, Clone, Copy, Debug)]
pub enum ReplyEffect {
    /// The reply completed a chunk.
    Taken,
    /// The reply was unrelated traffic and was dropped.
    Dropped,
    /// The device reported an error: the transfer stops.
    Failed(Error),
}

impl Transfer {
    /// Takes a reply from the device: a response as `on_response` does, an
    /// error by stopping with it.
    pub fn on_reply(&mut self, reply: &Result<Response, Error>) -> (r: ReplyEffect)
        requires
            old(self).wf(),
        ensures
            final(self).wf(),
            final(self).kind() == old(self).kind(),
            final(self).base() == old(self).base(),
            match *reply {
                Ok(resp) => {
                    let s = accept(
                        old(self).kind(),
                        old(self).base(),
                        old(self).data(),
                        old(self).done(),
                        resp,
                    );
                    final(self).data() == s.0 && final(self).done() == s.1 && r == if s.2 {
                        ReplyEffect::Taken
                    } else {
                        ReplyEffect::Dropped
                    }
                },
                Err(e) => r == ReplyEffect::Failed(e) && final(self).data() == old(self).data()
                    && final(self).done() == old(self).done(),
            },
    {
        match reply {
            Ok(resp) => {
                if self.on_response(resp) {
                    ReplyEffect::Taken
                } else {
                    ReplyEffect::Dropped
                }
            },
            Err(e) => ReplyEffect::Failed(*e),
        }
    }
}

} // verus!
