//! Per-connection bridges between a TCP socket and a pair of bounded byte
//! channels.
//!
//! The receive side runs a small lifecycle state machine
//! (`Listening -> Receiving -> Closing -> Listening`) against the socket's
//! own state, and forwards available socket bytes into its channel under
//! backpressure: what the channel cannot take stays in the socket.  The send
//! side drains its channel into the socket while the socket can take bytes,
//! and deliberately discards queued bytes when the socket cannot currently
//! send at all, trading data loss for bounded memory.

use vstd::prelude::*;

use crate::channel::ByteChannel;
use crate::channel::ReceiveError;

verus! {

/// Lifecycle of the receive side of a connection bridge, tracked separately
/// from the socket's own state machine so transitions are explicit.
#[derive(Clone, Copy, PartialEq, Eq, Structural, Debug)]
pub enum RecvChannelState {
    Listening,
    Receiving,
    Closing,
}

/// Model of the collaborator TCP socket at the interface the bridges read:
/// its buffered bytes and the state bits the bridge logic consults.  The
/// network stack fills `rx`, drains `tx`, and drives the state bits; the
/// bridges only ever touch a socket through the operations below.
pub struct TcpSocket {
    /// Bytes available in the receive buffer, oldest first.
    pub rx: Vec<u8>,
    /// Bytes queued in the transmit buffer, oldest first.
    pub tx: Vec<u8>,
    /// Fixed transmit buffer capacity.
    pub tx_capacity: usize,
    /// The connection may currently deliver data to us.
    pub may_recv: bool,
    /// The connection may currently take data from us.
    pub may_send: bool,
    /// The socket is still in use by a connection (not fully closed).
    pub active: bool,
    /// A passive listen is in effect.
    pub listening: bool,
    /// The port of the listen in effect.
    pub listen_port: u16,
    /// A close has been requested on this socket.
    pub close_requested: bool,
}

impl TcpSocket {
    pub open spec fn wf(&self) -> bool {
        self.tx@.len() <= self.tx_capacity
    }

    /// A fresh, passively listening socket with empty buffers.
    pub fn listening(port: u16, tx_capacity: usize) -> (r: Self)
        ensures
            r.wf(),
            r.rx@ == Seq::<u8>::empty(),
            r.tx@ == Seq::<u8>::empty(),
            r.tx_capacity == tx_capacity,
            !r.may_recv,
            !r.may_send,
            !r.active,
            r.listening,
            r.listen_port == port,
            !r.close_requested,
    {
        TcpSocket {
            rx: Vec::new(),
            tx: Vec::new(),
            tx_capacity,
            may_recv: false,
            may_send: false,
            active: false,
            listening: true,
            listen_port: port,
            close_requested: false,
        }
    }

    /// Request a close of the connection: no more sending from our side.
    pub fn close(&mut self)
        ensures
            closed_socket(*old(self), *final(self)),
    {
        self.may_send = false;
        self.close_requested = true;
    }

    /// Re-issue a passive listen: the socket returns to a fresh listening
    /// state with empty buffers.
    pub fn listen(&mut self, port: u16)
        ensures
            listening_socket(*old(self), *final(self), port),
    {
        self.rx = Vec::new();
        self.tx = Vec::new();
        self.may_recv = false;
        self.may_send = false;
        self.active = false;
        self.listening = true;
        self.listen_port = port;
        self.close_requested = false;
    }

    /// Drop the first `n` bytes of the receive buffer: they have been read.
    pub fn consume_rx(&mut self, n: usize)
        requires
            n <= old(self).rx@.len(),
        ensures
            consumed_socket(*old(self), *final(self), n as int),
    {
        let ghost rx0 = self.rx@;
        let mut k: usize = 0;
        while k < n
            invariant
                k <= n <= rx0.len(),
                self.rx@ == rx0.skip(k as int),
                self.tx == old(self).tx,
                self.tx_capacity == old(self).tx_capacity,
                self.may_recv == old(self).may_recv,
                self.may_send == old(self).may_send,
                self.active == old(self).active,
                self.listening == old(self).listening,
                self.listen_port == old(self).listen_port,
                self.close_requested == old(self).close_requested,
            decreases n - k,
        {
            self.rx.remove(0);
            proof {
                assert(rx0.skip(k as int).remove(0) =~= rx0.skip(k + 1int));
            }
            k = k + 1;
        }
    }
}

/// The socket after a close request, relative to before.
pub open spec fn closed_socket(pre: TcpSocket, post: TcpSocket) -> bool {
    &&& post.rx@ == pre.rx@
    &&& post.tx@ == pre.tx@
    &&& post.tx_capacity == pre.tx_capacity
    &&& post.may_recv == pre.may_recv
    &&& !post.may_send
    &&& post.active == pre.active
    &&& post.listening == pre.listening
    &&& post.listen_port == pre.listen_port
    &&& post.close_requested
}

/// The socket after a re-issued passive listen on `port`.
pub open spec fn listening_socket(pre: TcpSocket, post: TcpSocket, port: u16) -> bool {
    &&& post.rx@ == Seq::<u8>::empty()
    &&& post.tx@ == Seq::<u8>::empty()
    &&& post.tx_capacity == pre.tx_capacity
    &&& !post.may_recv
    &&& !post.may_send
    &&& !post.active
    &&& post.listening
    &&& post.listen_port == port
    &&& !post.close_requested
}

/// The socket after `n` received bytes were committed (read off), all else
/// untouched.
pub open spec fn consumed_socket(pre: TcpSocket, post: TcpSocket, n: int) -> bool {
    &&& post.rx@ == pre.rx@.skip(n)
    &&& post.tx@ == pre.tx@
    &&& post.tx_capacity == pre.tx_capacity
    &&& post.may_recv == pre.may_recv
    &&& post.may_send == pre.may_send
    &&& post.active == pre.active
    &&& post.listening == pre.listening
    &&& post.listen_port == pre.listen_port
    &&& post.close_requested == pre.close_requested
}

/// The socket untouched.
pub open spec fn same_socket(pre: TcpSocket, post: TcpSocket) -> bool {
    &&& post.rx@ == pre.rx@
    &&& post.tx@ == pre.tx@
    &&& post.tx_capacity == pre.tx_capacity
    &&& post.may_recv == pre.may_recv
    &&& post.may_send == pre.may_send
    &&& post.active == pre.active
    &&& post.listening == pre.listening
    &&& post.listen_port == pre.listen_port
    &&& post.close_requested == pre.close_requested
}

/// The receive-side state machine: given the current bridge state, whether
/// the socket may receive, and whether it is still active, yield the next
/// bridge state and whether the bridge is eligible to pull bytes this step.
pub open spec fn spec_recv_state(st: RecvChannelState, may_recv: bool, active: bool) -> (
    RecvChannelState,
    bool,
) {
    match (st, may_recv) {
        (RecvChannelState::Listening, true) => (RecvChannelState::Receiving, true),
        (RecvChannelState::Receiving, false) => (RecvChannelState::Closing, false),
        (RecvChannelState::Closing, false) => if active {
            (RecvChannelState::Closing, false)
        } else {
            (RecvChannelState::Listening, false)
        },
        (s, m) => (s, m),
    }
}

/// The step closes the socket exactly when a receiving connection's remote
/// side went away.
pub open spec fn spec_recv_closes(st: RecvChannelState, may_recv: bool) -> bool {
    st is Receiving && !may_recv
}

/// The step re-issues a passive listen exactly when a closing socket has
/// finally gone inactive.
pub open spec fn spec_recv_listens(st: RecvChannelState, may_recv: bool, active: bool) -> bool {
    st is Closing && !may_recv && !active
}

/// How many bytes one receive step forwards: all the socket offers, bounded
/// by the free space of the channel.
pub open spec fn spec_forward_count(rx: Seq<u8>, queued: int, cap: int) -> int {
    if rx.len() <= cap - queued {
        rx.len() as int
    } else {
        cap - queued
    }
}

/// The receive-side lifecycle decision alone, for a caller that drives a
/// real socket: the next bridge state, whether receiving is allowed this
/// step, and whether the caller should close the socket or re-issue the
/// passive listen.
pub fn recv_step(state: RecvChannelState, may_recv: bool, active: bool) -> (r: (
    RecvChannelState,
    bool,
    bool,
    bool,
))
    ensures
        (r.0, r.1) == spec_recv_state(state, may_recv, active),
        r.2 == spec_recv_closes(state, may_recv),
        r.3 == spec_recv_listens(state, may_recv, active),
{
    match (state, may_recv) {
        (RecvChannelState::Listening, true) => (RecvChannelState::Receiving, true, false, false),
        (RecvChannelState::Receiving, false) => (RecvChannelState::Closing, false, true, false),
        (RecvChannelState::Closing, false) => if active {
            (RecvChannelState::Closing, false, false, false)
        } else {
            (RecvChannelState::Listening, false, false, true)
        },
        (s, m) => (s, m, false, false),
    }
}

/// The backpressure law.  One receive step forwards `spec_forward_count`
/// bytes into the channel and commits exactly that many from the socket
/// (see `RecvChannel::try_recv`); when the socket offers more bytes than
/// the channel has free space, that count is exactly the free space — in
/// particular, with an empty channel of capacity `k` and more than `k`
/// available bytes, exactly `k` bytes are forwarded and exactly `k` are
/// consumed, never more, and with `k >= 1` the step reports data moved.
pub proof fn lemma_recv_backpressure(rx: Seq<u8>, queued: int, cap: int)
    requires
        0 <= queued <= cap,
        rx.len() > cap - queued,
    ensures
        spec_forward_count(rx, queued, cap) == cap - queued,
        queued < cap ==> spec_forward_count(rx, queued, cap) > 0,
{
}

/// Receive side of a connection bridge: owns the producer end of the
/// application-bound byte channel, and is bound to one socket for life.
pub struct RecvChannel {
    /// The port this bridge listens on.
    pub port: u16,
    /// Index of the socket this bridge was constructed with; never
    /// reassigned.
    pub handle: usize,
    /// Lifecycle state, synchronized against the socket each step.
    pub state: RecvChannelState,
    /// The application-bound byte channel.
    pub channel: ByteChannel,
}

impl RecvChannel {
    /// Evaluate the lifecycle state machine against the socket's current
    /// state, closing or re-listening the socket as the transitions demand;
    /// the result says whether this bridge may pull bytes now.
    pub fn may_recv(&mut self, socket: &mut TcpSocket) -> (r: bool)
        ensures
            final(self).port == old(self).port,
            final(self).handle == old(self).handle,
            final(self).channel == old(self).channel,
            final(self).state == spec_recv_state(
                old(self).state,
                old(socket).may_recv,
                old(socket).active,
            ).0,
            r == spec_recv_state(old(self).state, old(socket).may_recv, old(socket).active).1,
            spec_recv_closes(old(self).state, old(socket).may_recv) ==> closed_socket(
                *old(socket),
                *final(socket),
            ),
            spec_recv_listens(old(self).state, old(socket).may_recv, old(socket).active)
                ==> listening_socket(*old(socket), *final(socket), old(self).port),
            !spec_recv_closes(old(self).state, old(socket).may_recv) && !spec_recv_listens(
                old(self).state,
                old(socket).may_recv,
                old(socket).active,
            ) ==> same_socket(*old(socket), *final(socket)),
    {
        proof {
            assert(old(socket).rx@.skip(0) =~= old(socket).rx@);
        }
        match (self.state, socket.may_recv) {
            (RecvChannelState::Listening, true) => {
                self.state = RecvChannelState::Receiving;
                true
            },
            (RecvChannelState::Receiving, false) => {
                socket.close();
                self.state = RecvChannelState::Closing;
                false
            },
            (RecvChannelState::Closing, false) => {
                if socket.active {
                    false
                } else {
                    socket.listen(self.port);
                    self.state = RecvChannelState::Listening;
                    false
                }
            },
            (_, m) => m,
        }
    }

    /// One receive step: run the state machine, and if now eligible, forward
    /// as many available socket bytes as the channel can take, committing
    /// exactly that many from the socket.  Returns whether any byte moved.
    ///
    /// Backpressure: with `free` spaces in the channel and more than `free`
    /// bytes available, exactly `free` bytes are forwarded and exactly
    /// `free` bytes leave the socket buffer; the rest stay for a later poll.
    #[verifier::loop_isolation(false)]
    pub fn try_recv(&mut self, socket: &mut TcpSocket) -> (r: bool)
        requires
            old(self).channel.wf(),
            old(self).channel.has_receiver(),
            old(socket).wf(),
        ensures
            final(self).channel.wf(),
            final(socket).wf(),
            final(self).port == old(self).port,
            final(self).handle == old(self).handle,
            final(self).channel.capacity_spec() == old(self).channel.capacity_spec(),
            final(self).channel.has_sender() == old(self).channel.has_sender(),
            final(self).channel.has_receiver() == old(self).channel.has_receiver(),
            final(self).state == spec_recv_state(
                old(self).state,
                old(socket).may_recv,
                old(socket).active,
            ).0,
            spec_recv_state(old(self).state, old(socket).may_recv, old(socket).active).1 ==> ({
                let n = spec_forward_count(
                    old(socket).rx@,
                    old(self).channel.contents().len() as int,
                    old(self).channel.capacity_spec() as int,
                );
                &&& final(self).channel.contents() == old(self).channel.contents() + old(
                    socket,
                ).rx@.take(n)
                &&& consumed_socket(*old(socket), *final(socket), n)
                &&& r == (n > 0)
            }),
            !spec_recv_state(old(self).state, old(socket).may_recv, old(socket).active).1 ==> ({
                &&& final(self).channel.contents() == old(self).channel.contents()
                &&& r == false
                &&& (spec_recv_closes(old(self).state, old(socket).may_recv) ==> closed_socket(
                    *old(socket),
                    *final(socket),
                ))
                &&& (spec_recv_listens(old(self).state, old(socket).may_recv, old(socket).active)
                    ==> listening_socket(*old(socket), *final(socket), old(self).port))
                &&& (!spec_recv_closes(old(self).state, old(socket).may_recv)
                    && !spec_recv_listens(
                    old(self).state,
                    old(socket).may_recv,
                    old(socket).active,
                ) ==> same_socket(*old(socket), *final(socket)))
            }),
    {
        let eligible = self.may_recv(socket);
        let mut consumed: usize = 0;
        if eligible {
            let ghost q0 = self.channel.contents();
            let ghost rx0 = socket.rx@;
            let ghost sock1 = *socket;
            let cap = self.channel.capacity();
            let queued = self.channel.len();
            let avail = socket.rx.len();
            let free = cap - queued;
            let n = if avail <= free {
                avail
            } else {
                free
            };
            proof {
                assert(n == spec_forward_count(rx0, q0.len() as int, cap as int));
                assert(self.channel.contents() =~= q0 + rx0.take(0));
            }
            while consumed < n
                invariant
                    consumed <= n <= rx0.len(),
                    q0.len() + n <= cap,
                    *socket == sock1,
                    self.channel.wf(),
                    self.channel.has_receiver(),
                    self.channel.capacity_spec() == cap as nat,
                    self.channel.has_sender() == old(self).channel.has_sender(),
                    self.channel.contents() == q0 + rx0.take(consumed as int),
                    self.state == spec_recv_state(
                        old(self).state,
                        old(socket).may_recv,
                        old(socket).active,
                    ).0,
                    self.port == old(self).port,
                    self.handle == old(self).handle,
                decreases n - consumed,
            {
                let b = socket.rx[consumed];
                match self.channel.try_send(b) {
                    Ok(()) => {
                        proof {
                            assert((q0 + rx0.take(consumed as int)).push(b) =~= q0 + rx0.take(
                                consumed + 1int,
                            ));
                        }
                        consumed = consumed + 1;
                    },
                    Err(_) => {
                        // unreachable: a live consumer and free space were
                        // just checked, so the push cannot be refused
                        proof {
                            assert(false);
                        }
                    },
                }
            }
            socket.consume_rx(consumed);
            proof {
                let n = spec_forward_count(
                    rx0,
                    q0.len() as int,
                    old(self).channel.capacity_spec() as int,
                );
                assert(consumed == n);
            }
        }
        consumed > 0
    }
}

/// Send side of a connection bridge: owns the consumer end of the outbound
/// byte channel, and is bound to one socket for life.
pub struct SendChannel {
    /// Index of the socket this bridge was constructed with; never
    /// reassigned.
    pub handle: usize,
    /// The outbound byte channel, filled by the application.
    pub channel: ByteChannel,
}

impl SendChannel {
    /// One non-blocking send step.
    ///
    /// If the socket may send, drain the channel into the socket byte by
    /// byte while the socket has room; `Ok(true)` exactly when something
    /// moved.  If the socket may not send, drain the channel and discard the
    /// bytes, so the producer is never blocked behind a connection that
    /// cannot flush: `Ok(false)`, socket untouched.  A drained channel whose
    /// producer is gone is the one propagated failure.
    #[verifier::loop_isolation(false)]
    pub fn try_send(&mut self, socket: &mut TcpSocket) -> (r: Result<bool, ReceiveError>)
        requires
            old(self).channel.wf(),
            old(socket).wf(),
        ensures
            final(self).channel.wf(),
            final(socket).wf(),
            final(self).handle == old(self).handle,
            final(self).channel.capacity_spec() == old(self).channel.capacity_spec(),
            final(self).channel.has_sender() == old(self).channel.has_sender(),
            final(self).channel.has_receiver() == old(self).channel.has_receiver(),
            old(socket).may_send ==> ({
                let n = old(self).channel.contents().len() as int;
                let room = old(socket).tx_capacity - old(socket).tx@.len();
                let moved = if n <= room {
                    n
                } else {
                    room
                };
                &&& final(self).channel.contents() == old(self).channel.contents().skip(moved)
                &&& final(socket).tx@ == old(socket).tx@ + old(self).channel.contents().take(moved)
                &&& final(socket).rx@ == old(socket).rx@
                &&& final(socket).tx_capacity == old(socket).tx_capacity
                &&& final(socket).may_recv == old(socket).may_recv
                &&& final(socket).may_send == old(socket).may_send
                &&& final(socket).active == old(socket).active
                &&& final(socket).listening == old(socket).listening
                &&& final(socket).listen_port == old(socket).listen_port
                &&& final(socket).close_requested == old(socket).close_requested
                &&& r == (if !old(self).channel.has_sender() && n < room {
                    Err::<bool, ReceiveError>(ReceiveError::NoSender)
                } else {
                    Ok::<bool, ReceiveError>(moved > 0)
                })
            }),
            !old(socket).may_send ==> ({
                &&& final(self).channel.contents() == Seq::<u8>::empty()
                &&& same_socket(*old(socket), *final(socket))
                &&& r == (if old(self).channel.has_sender() {
                    Ok::<bool, ReceiveError>(false)
                } else {
                    Err::<bool, ReceiveError>(ReceiveError::NoSender)
                })
            }),
    {
        proof {
            assert(old(socket).rx@.skip(0) =~= old(socket).rx@);
        }
        if socket.may_send {
            let ghost q0 = self.channel.contents();
            let ghost tx0 = socket.tx@;
            let mut moved: usize = 0;
            proof {
                assert(self.channel.contents() =~= q0.skip(0));
                assert(socket.tx@ =~= tx0 + q0.take(0));
            }
            while socket.tx.len() < socket.tx_capacity && !self.channel.is_empty()
                invariant
                    moved <= q0.len(),
                    self.channel.wf(),
                    self.channel.capacity_spec() == old(self).channel.capacity_spec(),
                    self.channel.has_sender() == old(self).channel.has_sender(),
                    self.channel.has_receiver() == old(self).channel.has_receiver(),
                    self.channel.contents() == q0.skip(moved as int),
                    self.handle == old(self).handle,
                    socket.tx@ == tx0 + q0.take(moved as int),
                    socket.rx@ == old(socket).rx@,
                    socket.tx_capacity == old(socket).tx_capacity,
                    socket.may_recv == old(socket).may_recv,
                    socket.may_send == old(socket).may_send,
                    socket.active == old(socket).active,
                    socket.listening == old(socket).listening,
                    socket.listen_port == old(socket).listen_port,
                    socket.close_requested == old(socket).close_requested,
                    socket.wf(),
                decreases q0.len() - moved,
            {
                match self.channel.try_recv() {
                    Ok(b) => {
                        proof {
                            assert(q0.skip(moved as int).first() == q0[moved as int]);
                            assert(q0.skip(moved as int).drop_first() =~= q0.skip(moved + 1int));
                            assert((tx0 + q0.take(moved as int)).push(b) =~= tx0 + q0.take(
                                moved + 1int,
                            ));
                        }
                        socket.tx.push(b);
                        moved = moved + 1;
                    },
                    Err(_) => {
                        // unreachable: the loop runs only while the channel
                        // is non-empty, and a non-empty queue always yields
                        proof {
                            assert(false);
                        }
                    },
                }
            }
            proof {
                let n = q0.len() as int;
                let room = old(socket).tx_capacity - old(socket).tx@.len();
                let m = if n <= room {
                    n
                } else {
                    room
                };
                assert(moved == m);
            }
            if socket.tx.len() < socket.tx_capacity {
                // the channel drained while the socket still had room: one
                // more pull distinguishes a quiet producer from a gone one
                match self.channel.try_recv() {
                    Ok(_) => {
                        // unreachable: the drain loop left the queue empty
                        proof {
                            assert(false);
                        }
                        Ok(moved > 0)
                    },
                    Err(ReceiveError::Empty) => Ok(moved > 0),
                    Err(e) => {
                        proof {
                            assert(q0.take(moved as int) =~= q0);
                        }
                        Err(e)
                    },
                }
            } else {
                Ok(moved > 0)
            }
        } else {
            loop
                invariant
                    self.channel.wf(),
                    self.channel.capacity_spec() == old(self).channel.capacity_spec(),
                    self.channel.has_sender() == old(self).channel.has_sender(),
                    self.channel.has_receiver() == old(self).channel.has_receiver(),
                    self.handle == old(self).handle,
                    *socket == *old(socket),
                decreases self.channel.contents().len(),
            {
                match self.channel.try_recv() {
                    Ok(_) => {
                    },
                    Err(ReceiveError::Empty) => {
                        proof {
                            assert(self.channel.contents() =~= Seq::<u8>::empty());
                        }
                        return Ok(false);
                    },
                    Err(e) => {
                        proof {
                            assert(self.channel.contents() =~= Seq::<u8>::empty());
                        }
                        return Err(e);
                    },
                }
            }
        }
    }
}

} // verus!
