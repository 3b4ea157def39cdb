//! Framing: each encoded message is COBS-stuffed so that it holds no zero
//! byte, then sent between zero delimiters. The accumulator collects bytes
//! until a delimiter and hands back the unstuffed frame.

use vstd::prelude::*;
use vstd::slice::slice_to_vec;

verus! {

/// The COBS stuffing of `data`.
pub uninterp spec fn cobs_encoding(data: Seq<u8>) -> Seq<u8>;

/// The bytes that a COBS frame (with its terminating zero) unstuffs to, if
/// it is well formed.
pub uninterp spec fn cobs_decoding(frame: Seq<u8>) -> Option<Seq<u8>>;

/// Relies on cobs::encode_vec: the stuffed form holds no zero byte, is at
/// least one byte and at most one byte in 254 longer (rounded up) than
/// `data`, and unstuffing it with its terminating zero gives `data` back.
#[verifier::external_body]
fn cobs_encode(data: &[u8]) -> (r: Vec<u8>)
    ensures
        r@ == cobs_encoding(data@),
        zero_free(r@),
        0 < r@.len() <= data@.len() + data@.len() / 254 + 1,
        cobs_decoding(r@.push(0)) == Some(data@),
{
    cobs::encode_vec(data)
}

/// Relies on cobs::decode_vec: unstuffs one frame.
#[verifier::external_body]
fn cobs_decode(frame: &[u8]) -> (r: Option<Vec<u8>>)
    ensures
        r is Some <==> cobs_decoding(frame@) is Some,
        r is Some ==> cobs_decoding(frame@) == Some(r.unwrap()@),
{
    match cobs::decode_vec(frame) {
        Ok(v) => Some(v),
        Err(_) => None,
    }
}

/// No byte of `s` is zero.
pub open spec fn zero_free(s: Seq<u8>) -> bool {
    forall|i: int| 0 <= i < s.len() ==> s[i] != 0
}

/// The index of the first zero byte of `s`, if any.
pub open spec fn first_zero(s: Seq<u8>) -> Option<nat>
    decreases s.len(),
{
    if s.len() == 0 {
        None
    } else if s[0] == 0 {
        Some(0)
    } else {
        match first_zero(s.drop_first()) {
            Some(n) => Some(n + 1),
            None => None,
        }
    }
}

/// `first_zero` finds the first zero byte.
pub proof fn lemma_first_zero(s: Seq<u8>)
    ensures
        first_zero(s) is None <==> zero_free(s),
        first_zero(s) matches Some(n) ==> n < s.len() && s[n as int] == 0 && zero_free(
            s.subrange(0, n as int),
        ),
    decreases s.len(),
{
    if s.len() > 0 && s[0] != 0 {
        let t = s.drop_first();
        lemma_first_zero(t);
        assert forall|i: int| 1 <= i < s.len() implies s[i] == t[i - 1] by {}
        if zero_free(t) {
            assert forall|i: int| 0 <= i < s.len() implies s[i] != 0 by {
                if i > 0 {
                    assert(t[i - 1] != 0);
                }
            }
        }
        if first_zero(t) is Some {
            let n = first_zero(t).unwrap();
            assert(t[n as int] == 0);
            let sub = s.subrange(0, n as int + 1);
            assert forall|i: int| 0 <= i < sub.len() implies #[trigger] sub[i] != 0 by {
                if i > 0 {
                    assert(t.subrange(0, n as int)[i - 1] != 0);
                }
            }
        }
    }
}

/// The zero at `n` is the first one.
pub proof fn lemma_first_zero_at(s: Seq<u8>, n: nat)
    requires
        n < s.len(),
        s[n as int] == 0,
        forall|k: int| 0 <= k < n ==> s[k] != 0,
    ensures
        first_zero(s) == Some(n),
{
    lemma_first_zero(s);
    if first_zero(s) is None {
        assert(s[n as int] != 0);
    } else {
        let m = first_zero(s).unwrap();
        if m < n {
            assert(s[m as int] != 0);
        } else if m > n {
            assert(s.subrange(0, m as int)[n as int] != 0);
        }
    }
}

/// What one step of the accumulator reports.
pub enum FeedEvent {
    /// A frame overflowed the buffer and was dropped.
    OverFull,
    /// A complete frame did not unstuff.
    Rejected,
    /// A complete frame unstuffed to these bytes.
    Frame(Seq<u8>),
}

/// One step of the accumulator holding `buf`, with capacity `cap`, fed
/// `input` (a lone delimiter, such as a frame's leading guard, is an empty
/// frame and is rejected): what it reports (nothing when all of `input` was taken in and
/// no frame is complete yet), the input it did not take, and what it holds
/// afterwards.
pub open spec fn feed_step(buf: Seq<u8>, input: Seq<u8>, cap: nat) -> (
    Option<FeedEvent>,
    Seq<u8>,
    Seq<u8>,
) {
    if input.len() == 0 {
        (None, Seq::empty(), buf)
    } else {
        match first_zero(input) {
            Some(n) => {
                let take = input.subrange(0, n as int + 1);
                let release = input.subrange(n as int + 1, input.len() as int);
                if buf.len() + take.len() <= cap {
                    let ev = if buf + take == seq![0u8] {
                        FeedEvent::Rejected
                    } else {
                        match cobs_decoding(buf + take) {
                            Some(p) => FeedEvent::Frame(p),
                            None => FeedEvent::Rejected,
                        }
                    };
                    (Some(ev), release, Seq::empty())
                } else {
                    (Some(FeedEvent::OverFull), release, Seq::empty())
                }
            },
            None => {
                if buf.len() + input.len() > cap {
                    (
                        Some(FeedEvent::OverFull),
                        input.subrange(cap - buf.len(), input.len() as int),
                        Seq::empty(),
                    )
                } else {
                    (None, Seq::empty(), buf + input)
                }
            },
        }
    }
}

/// Feeding `input` to the accumulator holding `buf` until all of it is
/// taken in: the events reported, in order, and what it holds afterwards.
pub open spec fn feed_all(buf: Seq<u8>, input: Seq<u8>, cap: nat) -> (Seq<FeedEvent>, Seq<u8>)
    decreases input.len() * 2 + (if buf.len() > 0 {
        1int
    } else {
        0int
    }),
    via feed_all_decreases
{
    if cap == 0 || buf.len() > cap {
        (Seq::empty(), buf)
    } else {
        let step = feed_step(buf, input, cap);
        match step.0 {
            None => (Seq::empty(), step.2),
            Some(e) => {
                let rest = feed_all(step.2, step.1, cap);
                (seq![e] + rest.0, rest.1)
            },
        }
    }
}

#[via_fn]
proof fn feed_all_decreases(buf: Seq<u8>, input: Seq<u8>, cap: nat) {
    lemma_first_zero(input);
}

/// A chunk that ends in a zero byte closes every frame it touches: feeding
/// it and then more bytes reports what the chunk alone reports, then what
/// the more bytes report to an empty accumulator.
pub proof fn lemma_feed_all_split(buf: Seq<u8>, s: Seq<u8>, t: Seq<u8>, cap: nat)
    requires
        0 < cap,
        buf.len() <= cap,
        s.len() > 0,
        s.last() == 0,
    ensures
        feed_all(buf, s, cap).1 == Seq::<u8>::empty(),
        feed_all(buf, s + t, cap) == (
            feed_all(buf, s, cap).0 + feed_all(Seq::empty(), t, cap).0,
            feed_all(Seq::empty(), t, cap).1,
        ),
    decreases s.len(),
{
    lemma_first_zero(s);
    lemma_first_zero(s + t);
    if zero_free(s) {
        assert(s[s.len() - 1] != 0);
    }
    let n = first_zero(s).unwrap();
    assert forall|k: int| 0 <= k < n implies (s + t)[k] != 0 by {
        assert(s.subrange(0, n as int)[k] != 0);
    }
    lemma_first_zero_at(s + t, n);
    assert((s + t).subrange(0, n as int + 1) =~= s.subrange(0, n as int + 1));
    let rel = s.subrange(n as int + 1, s.len() as int);
    assert((s + t).subrange(n as int + 1, (s + t).len() as int) =~= rel + t);
    let st = feed_step(buf, s, cap);
    let st2 = feed_step(buf, s + t, cap);
    assert(st.0 == st2.0);
    assert(st.1 == rel);
    assert(st2.1 == rel + t);
    assert(st.2 == Seq::<u8>::empty());
    if rel.len() == 0 {
        assert(rel + t =~= t);
        assert(feed_all(Seq::empty(), rel, cap).0 =~= Seq::<FeedEvent>::empty());
    } else {
        assert(rel.last() == 0);
        lemma_feed_all_split(Seq::empty(), rel, t, cap);
        assert(feed_all(buf, s, cap).0 == seq![st.0.unwrap()] + feed_all(Seq::empty(), rel, cap).0);
        assert(seq![st.0.unwrap()] + (feed_all(Seq::empty(), rel, cap).0 + feed_all(Seq::empty(), t, cap).0)
            =~= (seq![st.0.unwrap()] + feed_all(Seq::empty(), rel, cap).0) + feed_all(Seq::empty(), t, cap).0);
    }
}

/// Resynchronisation: whatever the accumulator held and whatever corrupted
/// bytes `junk` arrive, a well-formed frame that follows (a zero guard, a
/// stuffed body `c`, a zero terminator) is decoded. The events are those of
/// the corrupted bytes (closed by the guard) and then exactly one frame,
/// the valid one, after which the accumulator is empty.
pub proof fn lemma_resync(buf: Seq<u8>, junk: Seq<u8>, c: Seq<u8>, cap: nat)
    requires
        0 < cap,
        buf.len() <= cap,
        zero_free(c),
        0 < c.len(),
        c.len() + 1 <= cap,
        cobs_decoding(c.push(0)) is Some,
    ensures
        feed_all(buf, junk + (seq![0u8] + c.push(0)), cap) == (
            feed_all(buf, junk.push(0), cap).0 + seq![
                FeedEvent::Frame(cobs_decoding(c.push(0)).unwrap()),
            ],
            Seq::<u8>::empty(),
        ),
{
    let w = c.push(0);
    assert(junk + (seq![0u8] + w) =~= junk.push(0) + w);
    lemma_feed_all_split(buf, junk.push(0), w, cap);
    assert forall|k: int| 0 <= k < c.len() implies w[k] != 0 by {}
    lemma_first_zero_at(w, c.len());
    assert(w.subrange(0, c.len() as int + 1) =~= w);
    assert(Seq::<u8>::empty() + w =~= w);
    let st = feed_step(Seq::empty(), w, cap);
    assert(w.len() > 1);
    assert(Seq::<u8>::empty() + w != seq![0u8]);
    assert(st.1 =~= Seq::<u8>::empty());
    assert(feed_all(Seq::empty(), Seq::empty(), cap).0 =~= Seq::<FeedEvent>::empty());
    assert(feed_all(Seq::empty(), w, cap).0 =~= seq![FeedEvent::Frame(cobs_decoding(w).unwrap())]);
}

/// The result of feeding the accumulator once.
pub enum FeedResult<'a, T> {
    /// All of the input was taken in; no frame is complete yet.
    Consumed,
    /// A frame overflowed the buffer; the input that was not taken.
    OverFull(&'a [u8]),
    /// A complete frame did not decode; the input that was not taken.
    DeserError(&'a [u8]),
    /// A complete frame decoded to `data`; the input that was not taken.
    Success { data: T, remaining: &'a [u8] },
}

/// Whether `r` is what `feed_step` describes, frames compared as bytes.
pub open spec fn feed_result_is<'a>(
    r: FeedResult<'a, Vec<u8>>,
    step: (Option<FeedEvent>, Seq<u8>, Seq<u8>),
) -> bool {
    match r {
        FeedResult::Consumed => step.0 is None,
        FeedResult::OverFull(rem) => step.0 == Some(FeedEvent::OverFull) && rem@ == step.1,
        FeedResult::DeserError(rem) => step.0 == Some(FeedEvent::Rejected) && rem@ == step.1,
        FeedResult::Success { data, remaining } => step.0 == Some(FeedEvent::Frame(data@))
            && remaining@ == step.1,
    }
}

/// Collects bytes up to a zero delimiter, holding at most `cap` of them.
pub struct Accumulator {
    buf: Vec<u8>,
    cap: usize,
}

impl Accumulator {
    /// What the accumulator holds.
    pub closed spec fn held(&self) -> Seq<u8> {
        self.buf@
    }

    /// The most it holds.
    pub closed spec fn capacity(&self) -> nat {
        self.cap as nat
    }

    pub open spec fn wf(&self) -> bool {
        0 < self.capacity() && self.held().len() <= self.capacity()
    }

    /// An empty accumulator that holds at most `cap` bytes.
    pub fn new(cap: usize) -> (r: Accumulator)
        requires
            cap > 0,
        ensures
            r.wf(),
            r.held() == Seq::<u8>::empty(),
            r.capacity() == cap,
    {
        Accumulator { buf: Vec::new(), cap }
    }

    /// Takes in `input` up to and including its first zero byte: a frame
    /// that fits is unstuffed and reported; one that does not is dropped.
    /// Without a zero byte, `input` is held if it fits, else dropped up to
    /// the capacity. Either way the input not taken is handed back.
    pub fn feed<'a>(&mut self, input: &'a [u8]) -> (r: FeedResult<'a, Vec<u8>>)
        requires
            old(self).wf(),
        ensures
            final(self).wf(),
            final(self).capacity() == old(self).capacity(),
            feed_result_is(r, feed_step(old(self).held(), input@, old(self).capacity())),
            final(self).held() == feed_step(old(self).held(), input@, old(self).capacity()).2,
    {
        let len = input.len();
        if len == 0 {
            return FeedResult::Consumed;
        }
        let mut n: usize = 0;
        while n < len && input[n] != 0
            invariant
                len == input@.len(),
                n <= len,
                forall|k: int| 0 <= k < n ==> input@[k] != 0,
            decreases len - n,
        {
            n = n + 1;
        }
        proof {
            lemma_first_zero(input@);
        }
        if n < len {
            proof {
                lemma_first_zero_at(input@, n as nat);
            }
            let (take, release) = input.split_at(n + 1);
            if take.len() <= self.cap - self.buf.len() {
                let mut t = slice_to_vec(take);
                self.buf.append(&mut t);
                if self.buf.len() == 1 {
                    assert(self.buf@ =~= seq![0u8]);
                    self.buf.clear();
                    return FeedResult::DeserError(release);
                }
                assert(self.buf@ != seq![0u8]);
                let decoded = cobs_decode(self.buf.as_slice());
                self.buf.clear();
                match decoded {
                    Some(p) => FeedResult::Success { data: p, remaining: release },
                    None => FeedResult::DeserError(release),
                }
            } else {
                self.buf.clear();
                FeedResult::OverFull(release)
            }
        } else {
            proof {
                assert(zero_free(input@));
            }
            if len > self.cap - self.buf.len() {
                let new_start = self.cap - self.buf.len();
                self.buf.clear();
                let (_, rest) = input.split_at(new_start);
                FeedResult::OverFull(rest)
            } else {
                let mut t = slice_to_vec(input);
                self.buf.append(&mut t);
                FeedResult::Consumed
            }
        }
    }
}

/// Whether the reported events `r` are `ev`: the unstuffed bytes of each
/// frame, nothing for a dropped or malformed one.
pub open spec fn events_are(r: Seq<Option<Vec<u8>>>, ev: Seq<FeedEvent>) -> bool {
    r.len() == ev.len() && forall|i: int|
        0 <= i < r.len() ==> match #[trigger] ev[i] {
            FeedEvent::Frame(p) => r[i] is Some && r[i].unwrap()@ == p,
            _ => r[i] is None,
        }
}

impl Accumulator {
    /// Feeds all of `input`, frame after frame, and reports each event.
    pub fn feed_chunk(&mut self, input: &[u8]) -> (r: Vec<Option<Vec<u8>>>)
        requires
            old(self).wf(),
        ensures
            final(self).wf(),
            final(self).capacity() == old(self).capacity(),
            events_are(r@, feed_all(old(self).held(), input@, old(self).capacity()).0),
            final(self).held() == feed_all(old(self).held(), input@, old(self).capacity()).1,
    {
        let ghost cap = self.capacity();
        let ghost total = feed_all(self.held(), input@, cap);
        let ghost done: Seq<FeedEvent> = Seq::empty();
        let mut out: Vec<Option<Vec<u8>>> = Vec::new();
        let mut window: &[u8] = input;
        loop
            invariant
                self.wf(),
                self.capacity() == cap,
                cap == old(self).capacity(),
                total == feed_all(old(self).held(), input@, cap),
                total.0 == done + feed_all(self.held(), window@, cap).0,
                total.1 == feed_all(self.held(), window@, cap).1,
                events_are(out@, done),
            decreases window@.len() * 2 + (if self.held().len() > 0 {
                1int
            } else {
                0int
            }),
        {
            proof {
                lemma_first_zero(window@);
            }
            let ghost before = self.held();
            let ghost w = window@;
            let r = self.feed(window);
            let ghost st = feed_step(before, w, cap);
            match r {
                FeedResult::Consumed => {
                    assert(done + feed_all(before, w, cap).0 =~= done);
                    return out;
                },
                FeedResult::OverFull(rem) => {
                    out.push(None);
                    proof {
                        assert(done.push(FeedEvent::OverFull) + feed_all(st.2, st.1, cap).0 =~= done
                            + (seq![FeedEvent::OverFull] + feed_all(st.2, st.1, cap).0));
                        done = done.push(FeedEvent::OverFull);
                    }
                    window = rem;
                },
                FeedResult::DeserError(rem) => {
                    out.push(None);
                    proof {
                        assert(done.push(FeedEvent::Rejected) + feed_all(st.2, st.1, cap).0 =~= done
                            + (seq![FeedEvent::Rejected] + feed_all(st.2, st.1, cap).0));
                        done = done.push(FeedEvent::Rejected);
                    }
                    window = rem;
                },
                FeedResult::Success { data, remaining } => {
                    let ghost p = data@;
                    out.push(Some(data));
                    proof {
                        assert(done.push(FeedEvent::Frame(p)) + feed_all(st.2, st.1, cap).0 =~= done
                            + (seq![FeedEvent::Frame(p)] + feed_all(st.2, st.1, cap).0));
                        done = done.push(FeedEvent::Frame(p));
                    }
                    window = remaining;
                },
            }
        }
    }
}

/// The bytes sent for a stuffed body `c`: a zero guard, `c`, a zero
/// terminator.
pub open spec fn framed(c: Seq<u8>) -> Seq<u8> {
    seq![0u8] + c.push(0)
}

/// Frames `payload` for the wire: a zero guard, the stuffed payload, a zero
/// terminator.
pub fn frame(payload: &[u8]) -> (r: Vec<u8>)
    ensures
        r@ == framed(cobs_encoding(payload@)),
        zero_free(cobs_encoding(payload@)),
        0 < cobs_encoding(payload@).len() <= payload@.len() + payload@.len() / 254 + 1,
        cobs_decoding(cobs_encoding(payload@).push(0)) == Some(payload@),
{
    let mut out: Vec<u8> = Vec::new();
    out.push(0);
    let mut body = cobs_encode(payload);
    out.append(&mut body);
    out.push(0);
    assert(out@ =~= framed(cobs_encoding(payload@)));
    out
}

/// A valid frame on its own, fed to an empty accumulator: the guard is
/// rejected as an empty frame, then the body comes out, and the accumulator
/// is empty again.
pub proof fn lemma_frame_alone(c: Seq<u8>, cap: nat)
    requires
        zero_free(c),
        0 < c.len(),
        c.len() + 1 <= cap,
        cobs_decoding(c.push(0)) is Some,
    ensures
        feed_all(Seq::empty(), seq![0u8] + c.push(0), cap) == (
            seq![FeedEvent::Rejected, FeedEvent::Frame(cobs_decoding(c.push(0)).unwrap())],
            Seq::<u8>::empty(),
        ),
{
    lemma_resync(Seq::empty(), Seq::empty(), c, cap);
    assert(Seq::<u8>::empty() + (seq![0u8] + c.push(0)) =~= seq![0u8] + c.push(0));
    let g = Seq::<u8>::empty().push(0);
    lemma_first_zero_at(g, 0);
    assert(g.subrange(0, 1) =~= g);
    assert(Seq::<u8>::empty() + g =~= seq![0u8]);
    assert(g.subrange(1, 1) =~= Seq::<u8>::empty());
    assert(feed_all(Seq::empty(), Seq::empty(), cap).0 =~= Seq::<FeedEvent>::empty());
    assert(feed_all(Seq::empty(), g, cap).0 =~= seq![FeedEvent::Rejected]);
    assert(seq![FeedEvent::Rejected] + seq![FeedEvent::Frame(cobs_decoding(c.push(0)).unwrap())]
        =~= seq![FeedEvent::Rejected, FeedEvent::Frame(cobs_decoding(c.push(0)).unwrap())]);
}

} // verus!
