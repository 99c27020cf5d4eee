//! Structured-message codec layered on the byte-stuffing frame layer.
//!
//! `Decoder` turns a pull source of raw bytes into a pull source of decoded
//! messages: corrupt stuffing resets the frame decoder, and frames that are
//! empty or fail schema decoding are discarded, so the stream only ever
//! yields well-decoded messages or ends with its byte source.  `Encoder`
//! takes one message at a time, frames its encoding, and pushes the frame
//! byte by byte into a byte sink.

use core::marker::PhantomData;

use vstd::prelude::*;

use crate::frame::fresh_state;
use crate::frame::spec_feed;
use crate::frame::spec_frame;
use crate::frame::spec_run;
use crate::frame::stuff_bytes;
use crate::frame::FeedResult;
use crate::frame::FrameDecoder;
use crate::stream::Sink;
use crate::stream::Stream;

verus! {

/// A message schema: a structured type with a canonical byte encoding and a
/// decoder for arbitrary byte strings.  Implementations prove that decoding
/// the canonical encoding gives the value back.
pub trait Message: Sized {
    /// The canonical wire encoding of this value.
    spec fn wire(&self) -> Seq<u8>;

    /// What decoding yields on an arbitrary byte string.
    spec fn parses(bytes: Seq<u8>) -> Option<Self>;

    /// The schema law: the canonical encoding decodes to the value itself.
    proof fn lemma_wire_round_trip(&self)
        ensures
            Self::parses(self.wire()) == Some(*self),
    ;

    fn encode(&self) -> (r: Vec<u8>)
        ensures
            r@ == self.wire(),
    ;

    fn decode(bytes: &Vec<u8>) -> (r: Option<Self>)
        ensures
            r == Self::parses(bytes@),
    ;
}

/// Whether a frame payload yields a message: empty frames and frames the
/// schema rejects are discarded, never surfaced.
pub open spec fn message_ok<M: Message>(f: Seq<u8>) -> bool {
    f.len() > 0 && M::parses(f) is Some
}

/// The messages yielded by a sequence of frame payloads, in order.
pub open spec fn spec_messages<M: Message>(frames: Seq<Seq<u8>>) -> Seq<M>
    decreases frames.len(),
{
    if frames.len() == 0 {
        Seq::empty()
    } else if message_ok::<M>(frames.first()) {
        seq![M::parses(frames.first())->Some_0] + spec_messages::<M>(frames.drop_first())
    } else {
        spec_messages::<M>(frames.drop_first())
    }
}

/// Message source: reassembles frames from a byte source and yields every
/// successfully decoded message.
pub struct Decoder<I, M> {
    pub input: I,
    pub frame: FrameDecoder,
    pub target: PhantomData<M>,
}

impl<I: Stream<Item = u8>, M: Message> Decoder<I, M> {
    /// A decoder over `input` whose frame buffer holds at most `capacity`
    /// payload bytes; longer frames are dropped as violations.
    pub fn new(input: I, capacity: usize) -> (r: Self)
        requires
            input.inv(),
        ensures
            r.inv(),
            r.pending() == spec_messages::<M>(
                spec_run(fresh_state(), input.pending(), capacity as nat).1,
            ),
    {
        Decoder { input, frame: FrameDecoder::new(capacity), target: PhantomData }
    }
}

impl<I: Stream<Item = u8>, M: Message> Stream for Decoder<I, M> {
    type Item = M;

    open spec fn inv(&self) -> bool {
        self.input.inv() && self.frame.well_formed()
    }

    open spec fn pending(&self) -> Seq<M> {
        spec_messages::<M>(
            spec_run(self.frame@, self.input.pending(), self.frame.capacity_spec()).1,
        )
    }

    #[verifier::loop_isolation(false)]
    fn next(&mut self) -> (r: Option<M>) {
        let ghost orig = self.pending();
        let ghost cap = self.frame.capacity_spec();
        loop
            invariant
                self.input.inv(),
                self.frame.well_formed(),
                self.frame.capacity_spec() == cap,
                spec_messages::<M>(spec_run(self.frame@, self.input.pending(), cap).1) == orig,
            decreases self.input.pending().len(),
        {
            let ghost st_pre = self.frame@;
            let ghost pend_pre = self.input.pending();
            match self.input.next() {
                None => {
                    proof {
                        assert(spec_run(st_pre, pend_pre, cap).1 == Seq::<Seq<u8>>::empty());
                        assert(orig =~= Seq::<M>::empty());
                        assert(self.pending() =~= old(self).pending());
                    }
                    return None;
                },
                Some(b) => {
                    proof {
                        assert(pend_pre.len() > 0 && pend_pre.first() == b);
                    }
                    let ghost fed = spec_feed(st_pre, b, cap);
                    let ghost rest = spec_run(fed.0, pend_pre.drop_first(), cap);
                    let res = self.frame.feed(b);
                    match res {
                        FeedResult::Consumed => {
                            proof {
                                assert(spec_run(st_pre, pend_pre, cap).1 == rest.1);
                            }
                        },
                        FeedResult::Violation => {
                            proof {
                                assert(spec_run(st_pre, pend_pre, cap).1 == rest.1);
                            }
                        },
                        FeedResult::Complete => {
                            let ghost f = self.frame@.buf;
                            proof {
                                assert(spec_run(st_pre, pend_pre, cap).1 == seq![f] + rest.1);
                                assert((seq![f] + rest.1).first() == f);
                                assert((seq![f] + rest.1).drop_first() =~= rest.1);
                            }
                            if self.frame.payload_len() > 0 {
                                let decoded = M::decode(self.frame.payload());
                                self.frame.restart();
                                match decoded {
                                    Some(msg) => {
                                        proof {
                                            assert(message_ok::<M>(f));
                                            assert(orig == seq![msg] + spec_messages::<M>(rest.1));
                                            assert(orig.first() == msg);
                                            assert(orig.drop_first() =~= spec_messages::<M>(
                                                rest.1,
                                            ));
                                            assert(self.pending() == spec_messages::<M>(
                                                rest.1,
                                            ));
                                        }
                                        return Some(msg);
                                    },
                                    None => {
                                        proof {
                                            assert(!message_ok::<M>(f));
                                        }
                                    },
                                }
                            } else {
                                self.frame.restart();
                                proof {
                                    assert(!message_ok::<M>(f));
                                }
                            }
                        },
                    }
                },
            }
        }
    }
}

/// Message round trip: framing a message's canonical encoding and running
/// the frame bytes through a fresh frame decoder yields exactly that
/// message.  A message whose encoding is empty is outside this law: its
/// frame is the empty frame, which the decoder discards by design.
pub proof fn lemma_message_round_trip<M: Message>(m: M, cap: nat)
    requires
        m.wire().len() > 0,
        m.wire().len() <= cap,
    ensures
        spec_messages::<M>(spec_run(fresh_state(), spec_frame(m.wire()), cap).1) == seq![m],
{
    crate::frame::lemma_frame_round_trip(m.wire(), cap);
    m.lemma_wire_round_trip();
    assert(message_ok::<M>(m.wire()));
    assert(seq![m.wire()].first() == m.wire());
    assert(seq![m.wire()].drop_first() =~= Seq::<Seq<u8>>::empty());
    assert(spec_messages::<M>(Seq::<Seq<u8>>::empty()) == Seq::<M>::empty());
    assert(spec_messages::<M>(seq![m.wire()]) =~= seq![m]);
}

/// Corruption resynchronization at the message level: any byte sequence that
/// completed no frame and left the frame decoder reset (for instance one
/// ending in a stuffing violation), followed by one valid frame, yields
/// exactly that frame's message and nothing else.
pub proof fn lemma_message_resynchronize<M: Message>(noise: Seq<u8>, m: M, cap: nat)
    requires
        spec_run(fresh_state(), noise, cap).0 == fresh_state(),
        spec_run(fresh_state(), noise, cap).1 == Seq::<Seq<u8>>::empty(),
        m.wire().len() > 0,
        m.wire().len() <= cap,
    ensures
        spec_messages::<M>(
            spec_run(fresh_state(), noise + spec_frame(m.wire()), cap).1,
        ) == seq![m],
{
    crate::frame::lemma_run_append(fresh_state(), noise, spec_frame(m.wire()), cap);
    lemma_message_round_trip::<M>(m, cap);
    assert(Seq::<Seq<u8>>::empty() + spec_run(fresh_state(), spec_frame(m.wire()), cap).1
        =~= spec_run(fresh_state(), spec_frame(m.wire()), cap).1);
}

/// Message sink: frames each accepted message and hands the frame bytes, one
/// at a time, to a byte sink.
pub struct Encoder<M, S> {
    pub output: S,
    pub buffer_capacity: usize,
    pub sent: Ghost<Seq<M>>,
}

impl<M: Message, S: Sink<Item = u8>> Encoder<M, S> {
    pub open spec fn inv(&self) -> bool {
        self.output.inv()
    }

    /// The byte sink the encoder delivers frames into.
    pub open spec fn sink(&self) -> S {
        self.output
    }

    /// The messages delivered whole so far.
    pub open spec fn accepted_messages(&self) -> Seq<M> {
        self.sent@
    }

    /// The fixed bound on a stuffed frame, a deployment-time constant:
    /// choosing it smaller than the largest encodable message is a
    /// configuration defect, not a runtime condition.
    pub open spec fn buffer_capacity_spec(&self) -> nat {
        self.buffer_capacity as nat
    }

    pub fn new(output: S, buffer_capacity: usize) -> (r: Self)
        ensures
            r.sink() == output,
            r.accepted_messages() == Seq::<M>::empty(),
            r.buffer_capacity_spec() == buffer_capacity as nat,
    {
        Encoder { output, buffer_capacity, sent: Ghost(Seq::empty()) }
    }

    pub fn output(&self) -> (r: &S)
        ensures
            *r == self.sink(),
    {
        &self.output
    }

    /// Give the byte sink back, ending the encoder's use of it.
    pub fn into_output(self) -> (r: S)
        ensures
            r == self.sink(),
    {
        self.output
    }

    /// Frame one message and push the whole frame, delimiter included, into
    /// the byte sink; a sink failure part-way is the caller's failure, and
    /// the message does not count as delivered.
    #[verifier::loop_isolation(false)]
    pub fn accept(&mut self, message: M) -> (r: Result<(), S::Error>)
        requires
            old(self).inv(),
            old(self).sink().usable(),
            spec_frame(message.wire()).len() <= old(self).buffer_capacity_spec(),
        ensures
            final(self).inv(),
            final(self).sink().usable(),
            final(self).buffer_capacity_spec() == old(self).buffer_capacity_spec(),
            r is Ok ==> final(self).sink().accepted() == old(self).sink().accepted() + spec_frame(
                message.wire(),
            ) && final(self).accepted_messages() == old(self).accepted_messages().push(message),
            r is Err ==> final(self).accepted_messages() == old(self).accepted_messages() && (
            exists|k: int|
                0 <= k < spec_frame(message.wire()).len() && final(self).sink().accepted() == old(
                    self,
                ).sink().accepted() + spec_frame(message.wire()).take(k)),
    {
        let payload = message.encode();
        let mut bytes = stuff_bytes(&payload);
        bytes.push(0);
        proof {
            assert(bytes@ =~= spec_frame(message.wire()));
        }
        let mut i: usize = 0;
        proof {
            assert(self.output.accepted() =~= old(self).sink().accepted() + bytes@.take(0));
        }
        while i < bytes.len()
            invariant
                0 <= i <= bytes.len(),
                self.output.inv(),
                self.output.usable(),
                self.output.accepted() == old(self).sink().accepted() + bytes@.take(i as int),
                self.buffer_capacity == old(self).buffer_capacity,
                self.sent == old(self).sent,
            decreases bytes.len() - i,
        {
            match self.output.send(bytes[i]) {
                Ok(()) => {
                    proof {
                        assert((old(self).sink().accepted() + bytes@.take(i as int)).push(
                            bytes@[i as int],
                        ) =~= old(self).sink().accepted() + bytes@.take(i + 1int));
                    }
                    i = i + 1;
                },
                Err(e) => {
                    return Err(e);
                },
            }
        }
        proof {
            assert(bytes@.take(bytes.len() as int) =~= bytes@);
        }
        proof {
            self.sent@ = self.sent@.push(message);
        }
        Ok(())
    }
}

} // verus!
