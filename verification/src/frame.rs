//! Byte-stuffing frame layer.
//!
//! A frame is a payload with every delimiter byte (0x00) removed by
//! consecutive-overhead byte stuffing, terminated by one delimiter byte.  The
//! stuffed body is a sequence of blocks: a header byte `h` (1..=255) followed
//! by `h - 1` data bytes; a block with `h < 255` stands for those data bytes
//! followed by one delimiter position, except at the end of the frame, where
//! the final delimiter position is implicit.  The decoder is a byte-fed state
//! machine that accumulates the destuffed payload in a bounded buffer and
//! resets itself on any stuffing violation, so that corruption never survives
//! past the next frame boundary.

use vstd::prelude::*;

verus! {

/// Mathematical state of the destuffing state machine.
#[verifier::ext_equal]
pub struct DecState {
    /// Destuffed payload accumulated so far.
    pub buf: Seq<u8>,
    /// Data bytes still expected in the current block (0 = expecting a header).
    pub pending: nat,
    /// The current block was a maximal one (header 255), so it is not
    /// followed by an implicit delimiter position.
    pub full_block: bool,
    /// A delimiter position is owed before the data of the next block.
    pub deferred: bool,
}

/// What one fed byte did to the state machine.
pub enum FeedEvent {
    /// Byte absorbed; the frame is still incomplete.
    Progress,
    /// The byte was the frame delimiter: a whole destuffed payload is ready.
    Complete(Seq<u8>),
    /// Stuffing violation (delimiter inside a block, or buffer overrun);
    /// the partial frame is abandoned and the machine resets.
    Violation,
}

/// The state a decoder starts in, and returns to after a completed frame or
/// a violation.
pub open spec fn fresh_state() -> DecState {
    DecState { buf: Seq::empty(), pending: 0, full_block: false, deferred: false }
}

/// One step of the destuffing state machine on byte `b`, with payload buffer
/// bound `cap`.
pub open spec fn spec_feed(st: DecState, b: u8, cap: nat) -> (DecState, FeedEvent) {
    if st.pending == 0 {
        if b == 0 {
            (fresh_state(), FeedEvent::Complete(st.buf))
        } else if st.deferred && st.buf.len() >= cap {
            (fresh_state(), FeedEvent::Violation)
        } else {
            let buf = if st.deferred { st.buf.push(0) } else { st.buf };
            if b == 1 {
                (DecState { buf, pending: 0, full_block: false, deferred: true },
                    FeedEvent::Progress)
            } else {
                (DecState { buf, pending: (b - 1) as nat, full_block: b == 255, deferred: false },
                    FeedEvent::Progress)
            }
        }
    } else {
        if b == 0 {
            (fresh_state(), FeedEvent::Violation)
        } else if st.buf.len() >= cap {
            (fresh_state(), FeedEvent::Violation)
        } else {
            let buf = st.buf.push(b);
            if st.pending == 1 {
                (DecState { buf, pending: 0, full_block: false, deferred: !st.full_block },
                    FeedEvent::Progress)
            } else {
                (DecState {
                    buf,
                    pending: (st.pending - 1) as nat,
                    full_block: st.full_block,
                    deferred: false,
                }, FeedEvent::Progress)
            }
        }
    }
}

/// Run the state machine over a whole byte sequence, collecting the payloads
/// of every completed frame in order.
pub open spec fn spec_run(st: DecState, bytes: Seq<u8>, cap: nat) -> (DecState, Seq<Seq<u8>>)
    decreases bytes.len(),
{
    if bytes.len() == 0 {
        (st, Seq::empty())
    } else {
        let fed = spec_feed(st, bytes.first(), cap);
        let rest = spec_run(fed.0, bytes.drop_first(), cap);
        match fed.1 {
            FeedEvent::Complete(f) => (rest.0, seq![f] + rest.1),
            _ => rest,
        }
    }
}

/// Index of the first delimiter byte in `p`, or `p.len()` if there is none.
pub open spec fn first_zero(p: Seq<u8>) -> nat
    decreases p.len(),
{
    if p.len() == 0 {
        0
    } else if p.first() == 0 {
        0
    } else {
        1 + first_zero(p.drop_first())
    }
}

/// The stuffed body of payload `p` (without the trailing frame delimiter).
pub open spec fn spec_stuff(p: Seq<u8>) -> Seq<u8>
    decreases p.len(),
{
    let fz = first_zero(p);
    if fz < 254 && fz < p.len() {
        // a short block covering the bytes before the first delimiter position
        seq![(fz + 1) as u8] + p.take(fz as int) + spec_stuff(p.skip(fz as int + 1))
    } else if p.len() <= 253 {
        // no delimiter byte at all: one final short block
        seq![(p.len() + 1) as u8] + p
    } else if p.len() == 254 {
        // exactly one maximal block ends the body: no empty final block
        seq![255u8] + p
    } else {
        // 254 delimiter-free bytes: one maximal block, more to come
        seq![255u8] + p.take(254) + spec_stuff(p.skip(254))
    }
}

/// Whether the stuffed body of `p` ends in a maximal block, after which no
/// delimiter position is owed.
pub open spec fn spec_ends_maximal(p: Seq<u8>) -> bool
    decreases p.len(),
{
    let fz = first_zero(p);
    if fz < 254 && fz < p.len() {
        spec_ends_maximal(p.skip(fz as int + 1))
    } else if p.len() <= 253 {
        false
    } else if p.len() == 254 {
        true
    } else {
        spec_ends_maximal(p.skip(254))
    }
}

/// A whole frame on the wire: stuffed body plus the frame delimiter.
pub open spec fn spec_frame(p: Seq<u8>) -> Seq<u8> {
    spec_stuff(p).push(0)
}

proof fn lemma_first_zero_bounds(p: Seq<u8>)
    ensures
        0 <= first_zero(p) <= p.len(),
        forall|i: int| 0 <= i < first_zero(p) ==> p[i] != 0,
        first_zero(p) < p.len() ==> p[first_zero(p) as int] == 0,
    decreases p.len(),
{
    if p.len() == 0 {
    } else if p.first() == 0 {
    } else {
        lemma_first_zero_bounds(p.drop_first());
        assert forall|i: int| 0 <= i < first_zero(p) implies p[i] != 0 by {
            if i > 0 {
                assert(p.drop_first()[i - 1] != 0);
            }
        }
    }
}

proof fn lemma_first_zero_at(p: Seq<u8>, k: int)
    requires
        0 <= k <= p.len(),
        forall|i: int| 0 <= i < k ==> p[i] != 0,
        k < p.len() ==> p[k] == 0,
    ensures
        first_zero(p) == k,
    decreases p.len(),
{
    if k == 0 {
    } else {
        assert(p[0] != 0);
        lemma_first_zero_at(p.drop_first(), k - 1);
    }
}

/// Running the machine over a concatenation is running it over each part in
/// turn.
pub proof fn lemma_run_append(st: DecState, a: Seq<u8>, b: Seq<u8>, cap: nat)
    ensures
        spec_run(st, a + b, cap).0 == spec_run(spec_run(st, a, cap).0, b, cap).0,
        spec_run(st, a + b, cap).1 == spec_run(st, a, cap).1 + spec_run(
            spec_run(st, a, cap).0,
            b,
            cap,
        ).1,
    decreases a.len(),
{
    if a.len() == 0 {
        assert(a + b =~= b);
        assert(spec_run(st, a, cap).1 + spec_run(st, b, cap).1 =~= spec_run(st, b, cap).1);
    } else {
        let fed = spec_feed(st, a.first(), cap);
        assert((a + b).first() == a.first());
        assert((a + b).drop_first() =~= a.drop_first() + b);
        lemma_run_append(fed.0, a.drop_first(), b, cap);
        let mid = spec_run(fed.0, a.drop_first(), cap);
        let tail = spec_run(mid.0, b, cap);
        match fed.1 {
            FeedEvent::Complete(f) => {
                assert(seq![f] + (mid.1 + tail.1) =~= (seq![f] + mid.1) + tail.1);
            },
            _ => {},
        }
    }
}

/// Consuming the data bytes of one block: `data` delimiter-free bytes land in
/// the buffer, one by one, and no frame completes.
proof fn lemma_run_data(st: DecState, data: Seq<u8>, cap: nat)
    requires
        data.len() > 0,
        st.pending == data.len(),
        forall|i: int| 0 <= i < data.len() ==> data[i] != 0,
        st.buf.len() + data.len() <= cap,
    ensures
        spec_run(st, data, cap).0 == (DecState {
            buf: st.buf + data,
            pending: 0,
            full_block: false,
            deferred: !st.full_block,
        }),
        spec_run(st, data, cap).1 == Seq::<Seq<u8>>::empty(),
    decreases data.len(),
{
    let fed = spec_feed(st, data.first(), cap);
    if data.len() == 1 {
        assert(st.buf.push(data.first()) =~= st.buf + data);
        assert(spec_run(fed.0, data.drop_first(), cap) == (fed.0, Seq::<Seq<u8>>::empty()));
    } else {
        assert forall|i: int| 0 <= i < data.drop_first().len() implies data.drop_first()[i] != 0 by {
            assert(data[i + 1] != 0);
        }
        lemma_run_data(fed.0, data.drop_first(), cap);
        assert(st.buf.push(data.first()) + data.drop_first() =~= st.buf + data);
    }
}

/// Consuming a whole stuffed body from a between-frames state: the payload is
/// appended to the buffer (after any owed delimiter position), no frame
/// completes, and the machine is left owing the frame's final delimiter
/// position.
pub proof fn lemma_run_stuff(st: DecState, p: Seq<u8>, cap: nat)
    requires
        st.pending == 0,
        st.buf.len() + (if st.deferred { 1int } else { 0int }) + p.len() <= cap,
    ensures
        spec_run(st, spec_stuff(p), cap).0 == (DecState {
            buf: st.buf + (if st.deferred { seq![0u8] } else { Seq::<u8>::empty() }) + p,
            pending: 0,
            full_block: false,
            deferred: !spec_ends_maximal(p),
        }),
        spec_run(st, spec_stuff(p), cap).1 == Seq::<Seq<u8>>::empty(),
    decreases p.len(),
{
    let target = DecState {
        buf: st.buf + (if st.deferred { seq![0u8] } else { Seq::<u8>::empty() }) + p,
        pending: 0,
        full_block: false,
        deferred: !spec_ends_maximal(p),
    };
    lemma_first_zero_bounds(p);
    let fz = first_zero(p);
    let owed: Seq<u8> = if st.deferred { seq![0u8] } else { Seq::<u8>::empty() };
    let buf1 = if st.deferred { st.buf.push(0) } else { st.buf };
    assert(buf1 =~= st.buf + owed);
    if fz < 254 && fz < p.len() {
        let h = (fz + 1) as u8;
        let body = spec_stuff(p);
        assert(body == seq![h] + p.take(fz as int) + spec_stuff(p.skip(fz as int + 1)));
        assert(body.first() == h);
        assert(body.drop_first() =~= p.take(fz as int) + spec_stuff(p.skip(fz as int + 1)));
        let fed = spec_feed(st, h, cap);
        if fz == 0 {
            // empty block: the delimiter position is the very first byte
            let st1 = DecState { buf: buf1, pending: 0, full_block: false, deferred: true };
            assert(fed.0 == st1);
            assert(body.drop_first() =~= spec_stuff(p.skip(1)));
            lemma_run_stuff(st1, p.skip(1), cap);
            assert(st1.buf + seq![0u8] + p.skip(1) =~= st.buf + owed + p);
            assert(1 <= h <= 254);
            assert(spec_run(st1, body.drop_first(), cap) == spec_run(st1, spec_stuff(p.skip(1)), cap));
            assert(spec_run(st, spec_stuff(p), cap).0 =~= target);
            assert(spec_run(st, spec_stuff(p), cap).1 =~= Seq::<Seq<u8>>::empty());
        } else {
            let st1 = DecState {
                buf: buf1,
                pending: fz,
                full_block: false,
                deferred: false,
            };
            assert(fed.0 == st1);
            lemma_run_append(st1, p.take(fz as int), spec_stuff(p.skip(fz as int + 1)), cap);
            lemma_run_data(st1, p.take(fz as int), cap);
            let st2 = DecState {
                buf: buf1 + p.take(fz as int),
                pending: 0,
                full_block: false,
                deferred: true,
            };
            lemma_run_stuff(st2, p.skip(fz as int + 1), cap);
            assert(st2.buf + seq![0u8] + p.skip(fz as int + 1) =~= st.buf + owed + p);
            assert(1 <= h <= 254);
            assert(spec_run(st1, p.take(fz as int), cap).0 == st2);
            assert(spec_run(st1, body.drop_first(), cap).0 == spec_run(st2, spec_stuff(p.skip(fz as int + 1)), cap).0);
            assert(spec_run(st1, body.drop_first(), cap).1 =~= Seq::<Seq<u8>>::empty());
            assert(spec_run(st, spec_stuff(p), cap).0 =~= target);
            assert(spec_run(st, spec_stuff(p), cap).1 =~= Seq::<Seq<u8>>::empty());
        }
    } else if p.len() <= 253 {
        let h = (p.len() + 1) as u8;
        let body = spec_stuff(p);
        assert(body == seq![h] + p);
        assert(body.first() == h);
        assert(body.drop_first() =~= p);
        let fed = spec_feed(st, h, cap);
        if p.len() == 0 {
            let st1 = DecState { buf: buf1, pending: 0, full_block: false, deferred: true };
            assert(fed.0 == st1);
            assert(st1.buf =~= st.buf + owed + p);
            assert(1 <= h <= 254);
            assert(spec_run(st1, body.drop_first(), cap) == (st1, Seq::<Seq<u8>>::empty()));
            assert(spec_run(st, spec_stuff(p), cap).0 =~= target);
            assert(spec_run(st, spec_stuff(p), cap).1 =~= Seq::<Seq<u8>>::empty());
        } else {
            let st1 = DecState {
                buf: buf1,
                pending: p.len(),
                full_block: false,
                deferred: false,
            };
            assert(fed.0 == st1);
            lemma_run_data(st1, p, cap);
            assert(buf1 + p =~= st.buf + owed + p);
            assert(1 <= h <= 254);
            assert(spec_run(st1, body.drop_first(), cap).0 =~= target);
            assert(spec_run(st1, body.drop_first(), cap).1 =~= Seq::<Seq<u8>>::empty());
            assert(spec_run(st, spec_stuff(p), cap).0 =~= target);
            assert(spec_run(st, spec_stuff(p), cap).1 =~= Seq::<Seq<u8>>::empty());
        }
    } else if p.len() == 254 {
        let body = spec_stuff(p);
        assert(body == seq![255u8] + p);
        assert(body.first() == 255u8);
        assert(body.drop_first() =~= p);
        let fed = spec_feed(st, 255u8, cap);
        let st1 = DecState { buf: buf1, pending: 254, full_block: true, deferred: false };
        assert(fed.0 == st1);
        lemma_run_data(st1, p, cap);
        assert(buf1 + p =~= st.buf + owed + p);
        assert(spec_run(st1, body.drop_first(), cap).0 =~= target);
        assert(spec_run(st1, body.drop_first(), cap).1 =~= Seq::<Seq<u8>>::empty());
        assert(spec_run(st, spec_stuff(p), cap).0 =~= target);
        assert(spec_run(st, spec_stuff(p), cap).1 =~= Seq::<Seq<u8>>::empty());
    } else {
        let body = spec_stuff(p);
        assert(body == seq![255u8] + p.take(254) + spec_stuff(p.skip(254)));
        assert(body.first() == 255u8);
        assert(body.drop_first() =~= p.take(254) + spec_stuff(p.skip(254)));
        let fed = spec_feed(st, 255u8, cap);
        let st1 = DecState { buf: buf1, pending: 254, full_block: true, deferred: false };
        assert(fed.0 == st1);
        lemma_run_append(st1, p.take(254), spec_stuff(p.skip(254)), cap);
        assert forall|i: int| 0 <= i < p.take(254).len() implies p.take(254)[i] != 0 by {
            assert(p[i] != 0);
        }
        lemma_run_data(st1, p.take(254), cap);
        let st2 = DecState {
            buf: buf1 + p.take(254),
            pending: 0,
            full_block: false,
            deferred: false,
        };
        lemma_run_stuff(st2, p.skip(254), cap);
        assert(st2.buf + Seq::<u8>::empty() + p.skip(254) =~= st.buf + owed + p);
        assert(spec_run(st1, p.take(254), cap).0 == st2);
        assert(spec_run(st1, body.drop_first(), cap).0 == spec_run(st2, spec_stuff(p.skip(254)), cap).0);
        assert(spec_run(st1, body.drop_first(), cap).1 =~= Seq::<Seq<u8>>::empty());
        assert(spec_run(st, spec_stuff(p), cap).0 =~= target);
        assert(spec_run(st, spec_stuff(p), cap).1 =~= Seq::<Seq<u8>>::empty());
    }
}

/// Frame round trip at the byte level: stuffing a payload and feeding the
/// whole frame to a fresh decoder yields exactly that payload, once, and
/// leaves the decoder fresh.
pub proof fn lemma_frame_round_trip(p: Seq<u8>, cap: nat)
    requires
        p.len() <= cap,
    ensures
        spec_run(fresh_state(), spec_frame(p), cap).0 == fresh_state(),
        spec_run(fresh_state(), spec_frame(p), cap).1 == seq![p],
{
    assert(spec_frame(p) =~= spec_stuff(p) + seq![0u8]);
    lemma_run_append(fresh_state(), spec_stuff(p), seq![0u8], cap);
    lemma_run_stuff(fresh_state(), p, cap);
    let st1 = spec_run(fresh_state(), spec_stuff(p), cap).0;
    assert(st1.buf =~= p);
    assert(spec_feed(st1, 0u8, cap) == (fresh_state(), FeedEvent::Complete(st1.buf)));
    assert(spec_run(fresh_state(), seq![0u8].drop_first(), cap) == (fresh_state(), Seq::<Seq<
        u8,
    >>::empty()));
    assert(seq![0u8].first() == 0u8);
    assert(spec_run(st1, seq![0u8], cap).0 == fresh_state());
    assert(spec_run(st1, seq![0u8], cap).1 =~= seq![st1.buf]);
    assert(spec_run(fresh_state(), spec_frame(p), cap).1 =~= seq![p]);
}

/// Consuming delimiter-free data bytes that do not complete the current
/// block: they land in the buffer and the machine stays mid-block.
proof fn lemma_run_partial_data(st: DecState, data: Seq<u8>, cap: nat)
    requires
        st.pending > data.len(),
        forall|i: int| 0 <= i < data.len() ==> data[i] != 0,
        st.buf.len() + data.len() <= cap,
    ensures
        spec_run(st, data, cap).0 == (DecState {
            buf: st.buf + data,
            pending: (st.pending - data.len()) as nat,
            full_block: st.full_block,
            deferred: if data.len() == 0 {
                st.deferred
            } else {
                false
            },
        }),
        spec_run(st, data, cap).1 == Seq::<Seq<u8>>::empty(),
    decreases data.len(),
{
    if data.len() == 0 {
        assert(st.buf + data =~= st.buf);
    } else {
        let fed = spec_feed(st, data.first(), cap);
        assert forall|i: int| 0 <= i < data.drop_first().len() implies data.drop_first()[i]
            != 0 by {
            assert(data[i + 1] != 0);
        }
        lemma_run_partial_data(fed.0, data.drop_first(), cap);
        assert(st.buf.push(data.first()) + data.drop_first() =~= st.buf + data);
    }
}

/// One concrete family of stuffing-invalid input: a block header promising
/// more data bytes than arrive before the delimiter.  Such a truncated block
/// is a violation that completes no frame and leaves the machine reset, so
/// `lemma_resynchronize` applies to whatever follows it.
pub proof fn lemma_truncated_block_resets(h: u8, data: Seq<u8>, cap: nat)
    requires
        h >= 2,
        data.len() < h - 1,
        forall|i: int| 0 <= i < data.len() ==> data[i] != 0,
        data.len() <= cap,
    ensures
        spec_run(fresh_state(), seq![h] + data + seq![0u8], cap).0 == fresh_state(),
        spec_run(fresh_state(), seq![h] + data + seq![0u8], cap).1 == Seq::<Seq<u8>>::empty(),
{
    let bytes = seq![h] + data + seq![0u8];
    assert(bytes.first() == h);
    assert(bytes.drop_first() =~= data + seq![0u8]);
    let fed = spec_feed(fresh_state(), h, cap);
    let st1 = DecState {
        buf: Seq::empty(),
        pending: (h - 1) as nat,
        full_block: h == 255,
        deferred: false,
    };
    assert(fed.0 == st1);
    lemma_run_append(st1, data, seq![0u8], cap);
    lemma_run_partial_data(st1, data, cap);
    let st2 = spec_run(st1, data, cap).0;
    assert(st2.pending > 0);
    assert(spec_feed(st2, 0u8, cap) == (fresh_state(), FeedEvent::Violation));
    assert(seq![0u8].first() == 0u8);
    assert(spec_run(fresh_state(), seq![0u8].drop_first(), cap) == (fresh_state(), Seq::<Seq<
        u8,
    >>::empty()));
    assert(spec_run(st2, seq![0u8], cap).0 == fresh_state());
    assert(spec_run(st2, seq![0u8], cap).1 =~= Seq::<Seq<u8>>::empty());
    assert(spec_run(st1, bytes.drop_first(), cap).1 =~= Seq::<Seq<u8>>::empty());
}

/// Corruption resynchronization at the byte level: after any byte sequence
/// that completed no frame and left the machine reset (for instance one that
/// ended in a stuffing violation), a following valid frame decodes exactly as
/// if the noise had never happened.
pub proof fn lemma_resynchronize(noise: Seq<u8>, p: Seq<u8>, cap: nat)
    requires
        spec_run(fresh_state(), noise, cap).0 == fresh_state(),
        spec_run(fresh_state(), noise, cap).1 == Seq::<Seq<u8>>::empty(),
        p.len() <= cap,
    ensures
        spec_run(fresh_state(), noise + spec_frame(p), cap).1 == seq![p],
{
    lemma_run_append(fresh_state(), noise, spec_frame(p), cap);
    lemma_frame_round_trip(p, cap);
    assert(Seq::<Seq<u8>>::empty() + seq![p] =~= seq![p]);
}

/// Outcome of feeding one byte to the frame decoder.
#[derive(Clone, Copy, PartialEq, Eq, Debug)]
pub enum FeedResult {
    /// Byte absorbed; the frame is still incomplete.
    Consumed,
    /// The frame delimiter arrived: the destuffed payload is ready.
    Complete,
    /// Stuffing violation: the partial frame was abandoned and the decoder
    /// reset itself.
    Violation,
}

/// Byte-fed destuffing decoder with a fixed payload buffer bound.
pub struct FrameDecoder {
    buf: Vec<u8>,
    cap: usize,
    pending: u8,
    full_block: bool,
    deferred: bool,
}

impl View for FrameDecoder {
    type V = DecState;

    closed spec fn view(&self) -> DecState {
        DecState {
            buf: self.buf@,
            pending: self.pending as nat,
            full_block: self.full_block,
            deferred: self.deferred,
        }
    }
}

impl FrameDecoder {
    /// The fixed payload buffer bound chosen at construction.
    pub closed spec fn capacity_spec(&self) -> nat {
        self.cap as nat
    }

    pub closed spec fn well_formed(&self) -> bool {
        &&& self.buf@.len() <= self.cap
        &&& self.pending <= 254
        &&& self.pending > 0 ==> !self.deferred
        &&& self.pending == 0 ==> !self.full_block
    }

    pub fn new(capacity: usize) -> (r: Self)
        ensures
            r@ == fresh_state(),
            r.capacity_spec() == capacity as nat,
            r.well_formed(),
    {
        let r = FrameDecoder {
            buf: Vec::new(),
            cap: capacity,
            pending: 0,
            full_block: false,
            deferred: false,
        };
        proof {
            assert(r@ =~= fresh_state());
        }
        r
    }

    /// The destuffed bytes accumulated so far; after `feed` returned
    /// `Complete`, the whole frame payload.
    pub fn payload(&self) -> (r: &Vec<u8>)
        ensures
            r@ == self@.buf,
    {
        &self.buf
    }

    pub fn payload_len(&self) -> (r: usize)
        ensures
            r == self@.buf.len(),
    {
        self.buf.len()
    }

    /// Discard all decoder state, ready for the next frame.
    pub fn restart(&mut self)
        ensures
            final(self)@ == fresh_state(),
            final(self).capacity_spec() == old(self).capacity_spec(),
            final(self).well_formed(),
    {
        self.buf.clear();
        self.pending = 0;
        self.full_block = false;
        self.deferred = false;
        proof {
            assert(self@ =~= fresh_state());
        }
    }

    /// Feed one byte.  The result and the new state follow the destuffing
    /// state machine `spec_feed` exactly; on `Complete` the payload stays in
    /// the buffer for the caller, who restarts the decoder when done with it.
    pub fn feed(&mut self, b: u8) -> (r: FeedResult)
        requires
            old(self).well_formed(),
        ensures
            final(self).well_formed(),
            final(self).capacity_spec() == old(self).capacity_spec(),
            (match spec_feed(old(self)@, b, old(self).capacity_spec()) {
                (st, FeedEvent::Progress) => r == FeedResult::Consumed && final(self)@ == st,
                (st, FeedEvent::Complete(f)) => r == FeedResult::Complete && f == old(
                    self,
                )@.buf && final(self)@ == (DecState {
                    buf: f,
                    pending: 0,
                    full_block: false,
                    deferred: false,
                }),
                (st, FeedEvent::Violation) => r == FeedResult::Violation && final(self)@
                    == fresh_state(),
            }),
    {
        if self.pending == 0 {
            if b == 0 {
                self.full_block = false;
                self.deferred = false;
                FeedResult::Complete
            } else if self.deferred && self.buf.len() >= self.cap {
                self.restart();
                FeedResult::Violation
            } else {
                if self.deferred {
                    self.buf.push(0);
                    self.deferred = false;
                }
                if b == 1 {
                    self.deferred = true;
                } else {
                    self.pending = b - 1;
                    self.full_block = b == 255;
                }
                proof {
                    assert(self@ =~= spec_feed(old(self)@, b, old(self).capacity_spec()).0);
                }
                FeedResult::Consumed
            }
        } else {
            if b == 0 {
                self.restart();
                FeedResult::Violation
            } else if self.buf.len() >= self.cap {
                self.restart();
                FeedResult::Violation
            } else {
                self.buf.push(b);
                self.pending = self.pending - 1;
                if self.pending == 0 {
                    self.deferred = !self.full_block;
                    self.full_block = false;
                }
                proof {
                    assert(self@ =~= spec_feed(old(self)@, b, old(self).capacity_spec()).0);
                }
                FeedResult::Consumed
            }
        }
    }
}

/// Append `p[i..j]` to `out`.
fn push_range(p: &Vec<u8>, i: usize, j: usize, out: &mut Vec<u8>)
    requires
        i <= j <= p.len(),
    ensures
        final(out)@ == old(out)@ + p@.subrange(i as int, j as int),
{
    let ghost out0 = out@;
    let mut k = i;
    proof {
        assert(out@ =~= out0 + p@.subrange(i as int, i as int));
    }
    while k < j
        invariant
            i <= k <= j <= p.len(),
            out@ == out0 + p@.subrange(i as int, k as int),
        decreases j - k,
    {
        out.push(p[k]);
        proof {
            assert(out@ =~= out0 + p@.subrange(i as int, k + 1int));
        }
        k = k + 1;
    }
}

/// Append the stuffed body of `p[i..]` to `out`.
fn stuff_from(p: &Vec<u8>, i: usize, out: &mut Vec<u8>)
    requires
        i <= p.len(),
    ensures
        final(out)@ == old(out)@ + spec_stuff(p@.skip(i as int)),
    decreases p.len() - i,
{
    let ghost tail = p@.skip(i as int);
    let ghost out0 = out@;
    let mut j = i;
    while j < p.len() && j - i < 254 && p[j] != 0
        invariant
            i <= j <= p.len(),
            j - i <= 254,
            forall|k: int| i <= k < j ==> p@[k] != 0,
        decreases p.len() - j,
    {
        j = j + 1;
    }
    proof {
        assert forall|k: int| 0 <= k < j - i implies tail[k] != 0 by {
            assert(p@[i + k] != 0);
        }
    }
    if j < p.len() && j - i < 254 {
        // p[j] is a delimiter byte: one short block, then the rest
        proof {
            assert(tail[j - i] == p@[j as int]);
            lemma_first_zero_at(tail, j - i);
        }
        out.push((j - i + 1) as u8);
        push_range(p, i, j, out);
        stuff_from(p, j + 1, out);
        proof {
            assert(tail.take(j - i) =~= p@.subrange(i as int, j as int));
            assert(tail.skip(j - i + 1) =~= p@.skip(j + 1int));
            assert(spec_stuff(tail) == seq![(j - i + 1) as u8] + tail.take(j - i)
                + spec_stuff(tail.skip(j - i + 1)));
            assert(out@ =~= out0 + spec_stuff(tail));
        }
    } else if j - i == 254 {
        // 254 delimiter-free bytes: one maximal block
        proof {
            lemma_first_zero_bounds(tail);
            lemma_first_zero_at_least(tail, 254);
        }
        out.push(255);
        push_range(p, i, j, out);
        if j < p.len() {
            stuff_from(p, j, out);
            proof {
                assert(tail.take(254) =~= p@.subrange(i as int, j as int));
                assert(tail.skip(254) =~= p@.skip(j as int));
                assert(spec_stuff(tail) == seq![255u8] + tail.take(254) + spec_stuff(
                    tail.skip(254),
                ));
                assert(out@ =~= out0 + spec_stuff(tail));
            }
        } else {
            proof {
                assert(tail =~= p@.subrange(i as int, j as int));
                assert(spec_stuff(tail) == seq![255u8] + tail);
                assert(out@ =~= out0 + spec_stuff(tail));
            }
        }
    } else {
        // end of the payload: one final short block
        proof {
            lemma_first_zero_at(tail, j - i);
        }
        out.push((j - i + 1) as u8);
        push_range(p, i, j, out);
        proof {
            assert(tail =~= p@.subrange(i as int, j as int));
            assert(spec_stuff(tail) == seq![(j - i + 1) as u8] + tail);
            assert(out@ =~= out0 + spec_stuff(tail));
        }
    }
}

proof fn lemma_first_zero_at_least(p: Seq<u8>, k: int)
    requires
        0 <= k <= p.len(),
        forall|i: int| 0 <= i < k ==> p[i] != 0,
    ensures
        first_zero(p) >= k,
    decreases k,
{
    if k > 0 {
        assert(p[0] != 0);
        assert forall|i: int| 0 <= i < k - 1 implies p.drop_first()[i] != 0 by {
            assert(p[i + 1] != 0);
        }
        lemma_first_zero_at_least(p.drop_first(), k - 1);
    }
}

/// The stuffed body of a payload, as one freshly allocated byte vector.
pub fn stuff_bytes(p: &Vec<u8>) -> (out: Vec<u8>)
    ensures
        out@ == spec_stuff(p@),
{
    let mut out: Vec<u8> = Vec::new();
    stuff_from(p, 0, &mut out);
    proof {
        assert(p@.skip(0) =~= p@);
        assert(Seq::<u8>::empty() + spec_stuff(p@) =~= spec_stuff(p@));
    }
    out
}

} // verus!
