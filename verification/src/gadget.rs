//! The gadget: IP configuration state, the DHCP event application, the USB
//! link bring-up decisions, and the poll cycle that drives every connection
//! bridge.
//!
//! The gadget model owns the socket table and the interface configuration.
//! What only the collaborator stacks can observe — whether the USB device
//! made progress, whether the network stack changed socket state, which DHCP
//! event fired, and the monotonic clock — enters each poll as an argument,
//! and the one action only they can perform (USB link bring-up) leaves it as
//! a result, so every decision in between is checked here.

use vstd::prelude::*;

use crate::bridge::closed_socket;
use crate::bridge::consumed_socket;
use crate::bridge::listening_socket;
use crate::bridge::same_socket;
use crate::bridge::spec_forward_count;
use crate::bridge::spec_recv_closes;
use crate::bridge::spec_recv_listens;
use crate::bridge::spec_recv_state;
use crate::bridge::RecvChannel;
use crate::bridge::RecvChannelState;
use crate::bridge::SendChannel;
use crate::bridge::TcpSocket;
use crate::channel::ByteChannel;

verus! {

/// Whether the interface holds a DHCP-assigned address.
#[derive(Clone, Copy, PartialEq, Eq, Structural, Debug)]
pub enum IpState {
    Unconfigured,
    Configured,
}

/// State of the USB Ethernet link to the host.
#[derive(Clone, Copy, PartialEq, Eq, Structural, Debug)]
pub enum LinkState {
    Disconnected,
    Connected,
}

/// The USB link bring-up action a poll asks the device stack to perform.
#[derive(Clone, Copy, PartialEq, Eq, Structural, Debug)]
pub enum UsbAction {
    /// Negotiate the nominal symmetric link speed.
    NegotiateSpeed,
    /// Request the connection proper.
    RequestConnect,
    /// Nothing to do for the link this poll.
    Idle,
}

/// An IPv4 address with a prefix length, as plain values.
#[derive(Clone, Copy, PartialEq, Eq, Structural, Debug)]
pub struct Ipv4Net {
    pub address: u32,
    pub prefix_len: u8,
}

/// What a DHCP lease assigns.
#[derive(Clone, Copy, PartialEq, Eq, Debug)]
pub struct DhcpLease {
    pub address: Ipv4Net,
    pub router: Option<u32>,
}

/// A DHCP client event: a lease was acquired, or the lease was lost.
#[derive(Clone, Copy, PartialEq, Eq, Debug)]
pub enum DhcpEvent {
    Configured(DhcpLease),
    Deconfigured,
}

/// The interface's IP configuration: its address list and default route.
pub struct IfaceConfig {
    pub addresses: Vec<Ipv4Net>,
    pub default_route: Option<u32>,
}

/// The USB link as the gadget tracks it.
#[derive(Clone, Copy, PartialEq, Eq, Structural, Debug)]
pub struct UsbLink {
    pub state: LinkState,
    pub speed_negotiated: bool,
}

/// The address list after applying a DHCP event: a lease replaces the whole
/// list with the leased address, a lease loss clears it.
pub open spec fn spec_dhcp_addresses(pre: Seq<Ipv4Net>, ev: Option<DhcpEvent>) -> Seq<Ipv4Net> {
    match ev {
        Option::None => pre,
        Option::Some(DhcpEvent::Configured(lease)) => seq![lease.address],
        Option::Some(DhcpEvent::Deconfigured) => Seq::empty(),
    }
}

/// The default route after applying a DHCP event: installed or removed per
/// the offered gateway, removed on lease loss.
pub open spec fn spec_dhcp_route(pre: Option<u32>, ev: Option<DhcpEvent>) -> Option<u32> {
    match ev {
        Option::None => pre,
        Option::Some(DhcpEvent::Configured(lease)) => lease.router,
        Option::Some(DhcpEvent::Deconfigured) => Option::None,
    }
}

/// The configuration state after applying a DHCP event.
pub open spec fn spec_dhcp_state(pre: IpState, ev: Option<DhcpEvent>) -> IpState {
    match ev {
        Option::None => pre,
        Option::Some(DhcpEvent::Configured(lease)) => IpState::Configured,
        Option::Some(DhcpEvent::Deconfigured) => IpState::Unconfigured,
    }
}

/// DHCP lease-loss application is idempotent: from any state it leaves the
/// address list empty, the default route absent and the gadget unconfigured,
/// and applying it again changes nothing.
pub proof fn lemma_dhcp_deconfigure_idempotent(
    addrs: Seq<Ipv4Net>,
    route: Option<u32>,
    st: IpState,
)
    ensures
        spec_dhcp_addresses(addrs, Some(DhcpEvent::Deconfigured)) == Seq::<Ipv4Net>::empty(),
        spec_dhcp_route(route, Some(DhcpEvent::Deconfigured)) is None,
        spec_dhcp_state(st, Some(DhcpEvent::Deconfigured)) is Unconfigured,
        spec_dhcp_addresses(
            spec_dhcp_addresses(addrs, Some(DhcpEvent::Deconfigured)),
            Some(DhcpEvent::Deconfigured),
        ) == spec_dhcp_addresses(addrs, Some(DhcpEvent::Deconfigured)),
        spec_dhcp_route(
            spec_dhcp_route(route, Some(DhcpEvent::Deconfigured)),
            Some(DhcpEvent::Deconfigured),
        ) == spec_dhcp_route(route, Some(DhcpEvent::Deconfigured)),
        spec_dhcp_state(
            spec_dhcp_state(st, Some(DhcpEvent::Deconfigured)),
            Some(DhcpEvent::Deconfigured),
        ) == spec_dhcp_state(st, Some(DhcpEvent::Deconfigured)),
{
}

/// The bring-up decision for the USB link: nothing while connected; first
/// speed negotiation, then the connection request, while disconnected.
pub open spec fn spec_connect_action(link: UsbLink) -> UsbAction {
    if link.state is Disconnected {
        if !link.speed_negotiated {
            UsbAction::NegotiateSpeed
        } else {
            UsbAction::RequestConnect
        }
    } else {
        UsbAction::Idle
    }
}

/// The socket after one egress pass: its queued output has gone to the wire.
pub open spec fn egressed_socket(pre: TcpSocket, post: TcpSocket) -> bool {
    &&& post.rx@ == pre.rx@
    &&& post.tx@ == Seq::<u8>::empty()
    &&& post.tx_capacity == pre.tx_capacity
    &&& post.may_recv == pre.may_recv
    &&& post.may_send == pre.may_send
    &&& post.active == pre.active
    &&& post.listening == pre.listening
    &&& post.listen_port == pre.listen_port
    &&& post.close_requested == pre.close_requested
}

/// One receive-bridge step, as a relation between the bridge/socket pair
/// before and after; mirrors `RecvChannel::try_recv`.
pub open spec fn recv_rel(
    chp: RecvChannel,
    sp: TcpSocket,
    chq: RecvChannel,
    sq: TcpSocket,
) -> bool {
    let step = spec_recv_state(chp.state, sp.may_recv, sp.active);
    let n = spec_forward_count(
        sp.rx@,
        chp.channel.contents().len() as int,
        chp.channel.capacity_spec() as int,
    );
    &&& chq.port == chp.port
    &&& chq.handle == chp.handle
    &&& chq.state == step.0
    &&& chq.channel.capacity_spec() == chp.channel.capacity_spec()
    &&& chq.channel.has_sender() == chp.channel.has_sender()
    &&& chq.channel.has_receiver() == chp.channel.has_receiver()
    &&& chq.channel.wf()
    &&& sq.wf()
    &&& (step.1 ==> chq.channel.contents() == chp.channel.contents() + sp.rx@.take(n)
        && consumed_socket(sp, sq, n))
    &&& (!step.1 ==> {
        &&& chq.channel.contents() == chp.channel.contents()
        &&& (spec_recv_closes(chp.state, sp.may_recv) ==> closed_socket(sp, sq))
        &&& (spec_recv_listens(chp.state, sp.may_recv, sp.active) ==> listening_socket(
            sp,
            sq,
            chp.port,
        ))
        &&& (!spec_recv_closes(chp.state, sp.may_recv) && !spec_recv_listens(
            chp.state,
            sp.may_recv,
            sp.active,
        ) ==> same_socket(sp, sq))
    })
}

/// Whether one receive-bridge step forwards at least one byte.
pub open spec fn spec_recv_fwd(ch: RecvChannel, s: TcpSocket) -> bool {
    spec_recv_state(ch.state, s.may_recv, s.active).1 && spec_forward_count(
        s.rx@,
        ch.channel.contents().len() as int,
        ch.channel.capacity_spec() as int,
    ) > 0
}

/// Whether any of the first `upto` receive bridges forwards a byte.
pub open spec fn spec_recv_any(chs: Seq<RecvChannel>, socks: Seq<TcpSocket>, upto: int) -> bool {
    exists|k: int| 0 <= k < upto && spec_recv_fwd(chs[k], socks[chs[k].handle as int])
}

/// One send-bridge step, as a relation between the bridge/socket pair before
/// and after; mirrors `SendChannel::try_send`.
pub open spec fn send_rel(
    chp: SendChannel,
    sp: TcpSocket,
    chq: SendChannel,
    sq: TcpSocket,
) -> bool {
    let n = chp.channel.contents().len() as int;
    let room = sp.tx_capacity - sp.tx@.len();
    let moved = if n <= room {
        n
    } else {
        room
    };
    &&& chq.handle == chp.handle
    &&& chq.channel.capacity_spec() == chp.channel.capacity_spec()
    &&& chq.channel.has_sender() == chp.channel.has_sender()
    &&& chq.channel.has_receiver() == chp.channel.has_receiver()
    &&& chq.channel.wf()
    &&& sq.wf()
    &&& (sp.may_send ==> {
        &&& chq.channel.contents() == chp.channel.contents().skip(moved)
        &&& sq.tx@ == sp.tx@ + chp.channel.contents().take(moved)
        &&& sq.rx@ == sp.rx@
        &&& sq.tx_capacity == sp.tx_capacity
        &&& sq.may_recv == sp.may_recv
        &&& sq.may_send == sp.may_send
        &&& sq.active == sp.active
        &&& sq.listening == sp.listening
        &&& sq.listen_port == sp.listen_port
        &&& sq.close_requested == sp.close_requested
    })
    &&& (!sp.may_send ==> chq.channel.contents() == Seq::<u8>::empty() && same_socket(sp, sq))
}

/// Whether one send-bridge step moves at least one byte into the socket.
pub open spec fn spec_send_moved(ch: SendChannel, s: TcpSocket) -> bool {
    s.may_send && ch.channel.contents().len() > 0 && s.tx@.len() < s.tx_capacity
}

/// Whether any of the first `upto` send bridges moves a byte.
pub open spec fn spec_send_any(chs: Seq<SendChannel>, socks: Seq<TcpSocket>, upto: int) -> bool {
    exists|k: int| 0 <= k < upto && spec_send_moved(chs[k], socks[chs[k].handle as int])
}

/// Whether any of the first `upto` bridge handles equals `j`.
pub open spec fn recv_handle_among(chs: Seq<RecvChannel>, upto: int, j: int) -> bool {
    exists|k: int| 0 <= k < upto && chs[k].handle == j
}

/// Whether any of the first `upto` bridge handles equals `j`.
pub open spec fn send_handle_among(chs: Seq<SendChannel>, upto: int, j: int) -> bool {
    exists|k: int| 0 <= k < upto && chs[k].handle == j
}

/// The receive pass over a bridge list: every bridge stepped once against
/// its own socket, in order; sockets no bridge in the list owns are
/// untouched.
pub open spec fn recv_pass_rel(
    chs_pre: Seq<RecvChannel>,
    socks_pre: Seq<TcpSocket>,
    chs_post: Seq<RecvChannel>,
    socks_post: Seq<TcpSocket>,
) -> bool {
    &&& chs_post.len() == chs_pre.len()
    &&& socks_post.len() == socks_pre.len()
    &&& forall|k: int|
        0 <= k < chs_pre.len() ==> recv_rel(
            chs_pre[k],
            socks_pre[chs_pre[k].handle as int],
            chs_post[k],
            socks_post[chs_pre[k].handle as int],
        )
    &&& forall|j: int|
        0 <= j < socks_pre.len() && !recv_handle_among(chs_pre, chs_pre.len() as int, j)
            ==> socks_post[j] == socks_pre[j]
}

/// The send pass over a bridge list, likewise.
pub open spec fn send_pass_rel(
    chs_pre: Seq<SendChannel>,
    socks_pre: Seq<TcpSocket>,
    chs_post: Seq<SendChannel>,
    socks_post: Seq<TcpSocket>,
) -> bool {
    &&& chs_post.len() == chs_pre.len()
    &&& socks_post.len() == socks_pre.len()
    &&& forall|k: int|
        0 <= k < chs_pre.len() ==> send_rel(
            chs_pre[k],
            socks_pre[chs_pre[k].handle as int],
            chs_post[k],
            socks_post[chs_pre[k].handle as int],
        )
    &&& forall|j: int|
        0 <= j < socks_pre.len() && !send_handle_among(chs_pre, chs_pre.len() as int, j)
            ==> socks_post[j] == socks_pre[j]
}

/// One transmit pass flushed every socket's queued output, or none ran and
/// the table is untouched.
pub open spec fn egress_rel(pre: Seq<TcpSocket>, post: Seq<TcpSocket>, egress: bool) -> bool {
    &&& post.len() == pre.len()
    &&& (egress ==> forall|j: int| 0 <= j < pre.len() ==> egressed_socket(pre[j], post[j]))
    &&& (!egress ==> post == pre)
}

/// What one poll entry point decided and did; the ghost fields record the
/// socket table between the passes, so the contracts can speak of the
/// receive, send and egress effects separately.
pub struct PollOutcome {
    /// A receive bridge forwarded data this poll.
    pub received: bool,
    /// A send bridge moved data into a socket this poll.
    pub sent: bool,
    /// A network-to-USB transmit pass was performed.
    pub egress: bool,
    /// The USB link bring-up action the caller is asked to perform.
    pub usb: UsbAction,
    /// The socket table after the receive pass.
    pub socks_after_recv: Ghost<Seq<TcpSocket>>,
    /// The socket table after the send pass.
    pub socks_after_send: Ghost<Seq<TcpSocket>>,
}

fn vec_index_mut<T>(vec: &mut Vec<T>, i: usize) -> (element: &mut T)
    requires
        0 <= i < vec.len(),
    ensures
        *element == old(vec)@[i as int],
        final(vec)@ == old(vec)@.update(i as int, *final(element)),
{
    &mut vec[i]
}

/// The gadget: the socket table, the interface configuration, the USB link
/// and the IP configuration state, driven one poll at a time.
pub struct Gadget {
    /// The pre-allocated socket table; entries are created by `channel` at
    /// setup time and never removed.
    pub socks: Vec<TcpSocket>,
    /// The interface's IP configuration.
    pub iface: IfaceConfig,
    /// The USB link.
    pub link: UsbLink,
    /// Whether a DHCP lease is held.
    pub state: IpState,
}

/// The send/receive bridge pair for one connection, bound to one socket.
/// The application task talks to the other face of the same two byte
/// channels: it drains `recv.channel` and fills `send.channel`.
pub struct NetworkChannel {
    pub send: SendChannel,
    pub recv: RecvChannel,
}

impl Gadget {
    pub open spec fn wf(&self) -> bool {
        forall|j: int| 0 <= j < self.socks@.len() ==> self.socks@[j].wf()
    }

    /// The conditions under which a receive-bridge list may be driven
    /// against this gadget: every bridge holds a live consumer (a missing
    /// one is a configuration defect with no safe degraded mode), points
    /// into the socket table, and no two bridges share a socket.
    pub open spec fn recv_channels_ok(&self, chs: Seq<RecvChannel>) -> bool {
        &&& forall|i: int|
            0 <= i < chs.len() ==> (chs[i].handle as int) < self.socks@.len()
                && chs[i].channel.wf() && chs[i].channel.has_receiver()
        &&& forall|i1: int, i2: int|
            0 <= i1 < i2 < chs.len() ==> chs[i1].handle != chs[i2].handle
    }

    /// The same for a send-bridge list: every bridge holds a live producer.
    pub open spec fn send_channels_ok(&self, chs: Seq<SendChannel>) -> bool {
        &&& forall|i: int|
            0 <= i < chs.len() ==> (chs[i].handle as int) < self.socks@.len()
                && chs[i].channel.wf() && chs[i].channel.has_sender()
        &&& forall|i1: int, i2: int|
            0 <= i1 < i2 < chs.len() ==> chs[i1].handle != chs[i2].handle
    }

    /// A fresh gadget: no sockets yet, the placeholder all-zero address on
    /// the interface, no route, link down, no lease.
    pub fn new() -> (r: Self)
        ensures
            r.wf(),
            r.socks@.len() == 0,
            r.iface.addresses@ == seq![Ipv4Net { address: 0, prefix_len: 0 }],
            r.iface.default_route is None,
            r.link.state is Disconnected,
            !r.link.speed_negotiated,
            r.state is Unconfigured,
    {
        let mut addresses: Vec<Ipv4Net> = Vec::new();
        addresses.push(Ipv4Net { address: 0, prefix_len: 0 });
        proof {
            assert(addresses@ =~= seq![Ipv4Net { address: 0, prefix_len: 0 }]);
        }
        Gadget {
            socks: Vec::new(),
            iface: IfaceConfig { addresses, default_route: Option::None },
            link: UsbLink { state: LinkState::Disconnected, speed_negotiated: false },
            state: IpState::Unconfigured,
        }
    }

    pub fn connected(&self) -> (r: bool)
        ensures
            r == (self.link.state is Connected),
    {
        self.link.state == LinkState::Connected
    }

    pub fn configured(&self) -> (r: bool)
        ensures
            r == (self.state is Configured),
    {
        self.state == IpState::Configured
    }

    /// The device stack reports that speed negotiation went through.
    pub fn link_speed_negotiated(&mut self)
        ensures
            final(self).socks == old(self).socks,
            final(self).iface == old(self).iface,
            final(self).state == old(self).state,
            final(self).link == (UsbLink { speed_negotiated: true, ..old(self).link }),
    {
        self.link.speed_negotiated = true;
    }

    /// The device stack reports that the link came up.
    pub fn link_connected(&mut self)
        ensures
            final(self).socks == old(self).socks,
            final(self).iface == old(self).iface,
            final(self).state == old(self).state,
            final(self).link == (UsbLink { state: LinkState::Connected, ..old(self).link }),
    {
        self.link.state = LinkState::Connected;
    }

    /// USB link bring-up: decide what the device stack should do next.
    /// Transient refusals are its affair; the same decision comes back next
    /// poll until the link state moves on.
    pub fn connect(&mut self) -> (a: UsbAction)
        ensures
            final(self).socks == old(self).socks,
            final(self).iface == old(self).iface,
            final(self).state == old(self).state,
            final(self).link == old(self).link,
            a == spec_connect_action(old(self).link),
    {
        if self.link.state == LinkState::Disconnected {
            if !self.link.speed_negotiated {
                UsbAction::NegotiateSpeed
            } else {
                UsbAction::RequestConnect
            }
        } else {
            UsbAction::Idle
        }
    }

    /// Apply one DHCP client event: a lease replaces the interface's address
    /// list and default route and marks the gadget configured; a lease loss
    /// clears them and marks it unconfigured.
    pub fn dhcp_poll(&mut self, event: Option<DhcpEvent>)
        ensures
            final(self).socks == old(self).socks,
            final(self).link == old(self).link,
            final(self).state == spec_dhcp_state(old(self).state, event),
            final(self).iface.addresses@ == spec_dhcp_addresses(
                old(self).iface.addresses@,
                event,
            ),
            final(self).iface.default_route == spec_dhcp_route(
                old(self).iface.default_route,
                event,
            ),
    {
        match event {
            Option::None => {},
            Option::Some(DhcpEvent::Configured(lease)) => {
                self.iface.addresses.clear();
                self.iface.addresses.push(lease.address);
                self.iface.default_route = lease.router;
                self.state = IpState::Configured;
                proof {
                    assert(self.iface.addresses@ =~= seq![lease.address]);
                }
            },
            Option::Some(DhcpEvent::Deconfigured) => {
                self.iface.addresses.clear();
                self.iface.default_route = Option::None;
                self.state = IpState::Unconfigured;
            },
        }
    }

    /// One network-to-USB transmit pass: every socket's queued output goes
    /// to the wire.
    #[verifier::loop_isolation(false)]
    fn usb_send(&mut self)
        requires
            old(self).wf(),
        ensures
            final(self).wf(),
            final(self).iface == old(self).iface,
            final(self).link == old(self).link,
            final(self).state == old(self).state,
            final(self).socks@.len() == old(self).socks@.len(),
            forall|j: int|
                0 <= j < old(self).socks@.len() ==> egressed_socket(
                    old(self).socks@[j],
                    final(self).socks@[j],
                ),
    {
        let mut j: usize = 0;
        while j < self.socks.len()
            invariant
                j <= self.socks@.len(),
                self.socks@.len() == old(self).socks@.len(),
                self.iface == old(self).iface,
                self.link == old(self).link,
                self.state == old(self).state,
                self.wf(),
                forall|k: int|
                    0 <= k < j ==> egressed_socket(old(self).socks@[k], self.socks@[k]),
                forall|k: int| j <= k < self.socks@.len() ==> self.socks@[k] == old(self).socks@[k],
            decreases self.socks@.len() - j,
        {
            let sock = vec_index_mut(&mut self.socks, j);
            sock.tx.clear();
            j = j + 1;
        }
    }

    /// The receive pass: apply the pending DHCP event, then, if the network
    /// stack reported socket activity, run every receive bridge against its
    /// socket.  Returns whether any bridge forwarded data.
    #[verifier::loop_isolation(false)]
    fn recv_channels(
        &mut self,
        ingress: bool,
        event: Option<DhcpEvent>,
        channels: &mut Vec<RecvChannel>,
    ) -> (r: bool)
        requires
            old(self).wf(),
            old(self).recv_channels_ok(old(channels)@),
        ensures
            final(self).wf(),
            final(self).socks@.len() == old(self).socks@.len(),
            final(self).link == old(self).link,
            final(self).state == spec_dhcp_state(old(self).state, event),
            final(self).iface.addresses@ == spec_dhcp_addresses(
                old(self).iface.addresses@,
                event,
            ),
            final(self).iface.default_route == spec_dhcp_route(
                old(self).iface.default_route,
                event,
            ),
            final(channels)@.len() == old(channels)@.len(),
            !ingress ==> final(channels)@ == old(channels)@ && final(self).socks@ == old(
                self,
            ).socks@ && r == false,
            ingress ==> recv_pass_rel(
                old(channels)@,
                old(self).socks@,
                final(channels)@,
                final(self).socks@,
            ) && r == spec_recv_any(old(channels)@, old(self).socks@, old(channels)@.len() as int),
    {
        self.dhcp_poll(event);
        let mut any = false;
        if ingress {
            let ghost socks0 = self.socks@;
            let ghost chans0 = channels@;
            let mut i: usize = 0;
            while i < channels.len()
                invariant
                    i <= chans0.len(),
                    channels@.len() == chans0.len(),
                    self.socks@.len() == socks0.len(),
                    self.wf(),
                    self.iface.addresses@ == spec_dhcp_addresses(
                        old(self).iface.addresses@,
                        event,
                    ),
                    self.iface.default_route == spec_dhcp_route(
                        old(self).iface.default_route,
                        event,
                    ),
                    self.link == old(self).link,
                    self.state == spec_dhcp_state(old(self).state, event),
                    forall|k: int| i <= k < chans0.len() ==> channels@[k] == chans0[k],
                    forall|k: int|
                        0 <= k < i ==> recv_rel(
                            chans0[k],
                            socks0[chans0[k].handle as int],
                            channels@[k],
                            self.socks@[chans0[k].handle as int],
                        ),
                    forall|j: int|
                        0 <= j < socks0.len() && !recv_handle_among(chans0, i as int, j)
                            ==> self.socks@[j] == socks0[j],
                    any == spec_recv_any(chans0, socks0, i as int),
                decreases chans0.len() - i,
            {
                let h = channels[i].handle;
                proof {
                    assert(chans0[i as int].handle == h);
                    assert(!recv_handle_among(chans0, i as int, h as int));
                }
                let sock = vec_index_mut(&mut self.socks, h);
                let ch = vec_index_mut(channels, i);
                let f = ch.try_recv(sock);
                proof {
                    assert(f == spec_recv_fwd(chans0[i as int], socks0[h as int]));
                    assert(spec_recv_any(chans0, socks0, i + 1int) == (spec_recv_any(
                        chans0,
                        socks0,
                        i as int,
                    ) || spec_recv_fwd(chans0[i as int], socks0[chans0[i as int].handle as int])));
                }
                if f {
                    any = true;
                }
                i = i + 1;
            }
        }
        any
    }

    /// The send pass: when the link is up, run every send bridge against its
    /// socket; when it is down, decide the bring-up action instead.
    #[verifier::loop_isolation(false)]
    fn send_channels(&mut self, channels: &mut Vec<SendChannel>) -> (r: (bool, UsbAction))
        requires
            old(self).wf(),
            old(self).send_channels_ok(old(channels)@),
        ensures
            final(self).wf(),
            final(self).socks@.len() == old(self).socks@.len(),
            final(self).iface == old(self).iface,
            final(self).link == old(self).link,
            final(self).state == old(self).state,
            final(channels)@.len() == old(channels)@.len(),
            !(old(self).link.state is Connected) ==> final(channels)@ == old(channels)@ && final(self).socks@ == old(self).socks@ && r.0 == false && r.1 == spec_connect_action(
                old(self).link,
            ),
            old(self).link.state is Connected ==> r.1 == UsbAction::Idle && send_pass_rel(
                old(channels)@,
                old(self).socks@,
                final(channels)@,
                final(self).socks@,
            ) && r.0 == spec_send_any(old(channels)@, old(self).socks@, old(channels)@.len() as int),
    {
        if !self.connected() {
            let a = self.connect();
            return (false, a);
        }
        let ghost socks0 = self.socks@;
        let ghost chans0 = channels@;
        let mut any = false;
        let mut i: usize = 0;
        while i < channels.len()
            invariant
                i <= chans0.len(),
                channels@.len() == chans0.len(),
                self.socks@.len() == socks0.len(),
                self.wf(),
                self.iface == old(self).iface,
                self.link == old(self).link,
                self.state == old(self).state,
                forall|k: int| i <= k < chans0.len() ==> channels@[k] == chans0[k],
                forall|k: int|
                    0 <= k < i ==> send_rel(
                        chans0[k],
                        socks0[chans0[k].handle as int],
                        channels@[k],
                        self.socks@[chans0[k].handle as int],
                    ),
                forall|j: int|
                    0 <= j < socks0.len() && !send_handle_among(chans0, i as int, j)
                        ==> self.socks@[j] == socks0[j],
                any == spec_send_any(chans0, socks0, i as int),
            decreases chans0.len() - i,
        {
            let h = channels[i].handle;
            proof {
                assert(chans0[i as int].handle == h);
                assert(!send_handle_among(chans0, i as int, h as int));
            }
            let sock = vec_index_mut(&mut self.socks, h);
            let ch = vec_index_mut(channels, i);
            let moved = match ch.try_send(sock) {
                Ok(m) => m,
                Err(_) => {
                    // unreachable: every send bridge holds a live producer,
                    // so the step's one failure cannot occur
                    proof {
                        assert(false);
                    }
                    false
                },
            };
            proof {
                assert(moved == spec_send_moved(chans0[i as int], socks0[h as int]));
                assert(spec_send_any(chans0, socks0, i + 1int) == (spec_send_any(
                    chans0,
                    socks0,
                    i as int,
                ) || spec_send_moved(chans0[i as int], socks0[chans0[i as int].handle as int])));
            }
            if moved {
                any = true;
            }
            i = i + 1;
        }
        (any, UsbAction::Idle)
    }

    /// One combined poll.  With USB progress, the receive pass runs (DHCP
    /// event application included); the send pass runs on every combined
    /// poll; one egress pass follows whenever data moved in either direction
    /// or the interface is not yet configured — the last keeps DHCP
    /// discovery flowing before any lease exists.
    pub fn poll(
        &mut self,
        usb_activity: bool,
        ingress: bool,
        event: Option<DhcpEvent>,
        send: &mut Vec<SendChannel>,
        recv: &mut Vec<RecvChannel>,
    ) -> (out: PollOutcome)
        requires
            old(self).wf(),
            old(self).recv_channels_ok(old(recv)@),
            old(self).send_channels_ok(old(send)@),
        ensures
            final(self).wf(),
            final(self).socks@.len() == old(self).socks@.len(),
            final(recv)@.len() == old(recv)@.len(),
            final(send)@.len() == old(send)@.len(),
            final(self).link == old(self).link,
            out.socks_after_recv@.len() == old(self).socks@.len(),
            out.socks_after_send@.len() == old(self).socks@.len(),
            // the receive pass runs exactly when the USB device made progress
            usb_activity ==> final(self).state == spec_dhcp_state(old(self).state, event)
                && final(self).iface.addresses@ == spec_dhcp_addresses(
                old(self).iface.addresses@,
                event,
            ) && final(self).iface.default_route == spec_dhcp_route(
                old(self).iface.default_route,
                event,
            ),
            !usb_activity ==> out.received == false && final(recv)@ == old(recv)@ && final(self).state == old(self).state && final(self).iface == old(self).iface && out
                .socks_after_recv@ == old(self).socks@,
            usb_activity && !ingress ==> out.received == false && final(recv)@ == old(recv)@ && out
                .socks_after_recv@ == old(self).socks@,
            usb_activity && ingress ==> recv_pass_rel(
                old(recv)@,
                old(self).socks@,
                final(recv)@,
                out.socks_after_recv@,
            ) && out.received == spec_recv_any(
                old(recv)@,
                old(self).socks@,
                old(recv)@.len() as int,
            ),
            // the send pass runs on every combined poll, over the table the
            // receive pass left behind
            old(self).link.state is Connected ==> out.usb == UsbAction::Idle && send_pass_rel(
                old(send)@,
                out.socks_after_recv@,
                final(send)@,
                out.socks_after_send@,
            ) && out.sent == spec_send_any(
                old(send)@,
                out.socks_after_recv@,
                old(send)@.len() as int,
            ),
            !(old(self).link.state is Connected) ==> out.sent == false && final(send)@ == old(
                send,
            )@ && out.usb == spec_connect_action(old(self).link) && out.socks_after_send@ == out
                .socks_after_recv@,
            // the egress decision, and its effect on the socket table
            out.egress == ((usb_activity && out.received) || out.sent || !(final(self).state is Configured)),
            egress_rel(out.socks_after_send@, final(self).socks@, out.egress),
    {
        let received = if usb_activity {
            self.recv_channels(ingress, event, recv)
        } else {
            false
        };
        let ghost mid1 = self.socks@;
        let sa = self.send_channels(send);
        let sent = sa.0;
        let usb = sa.1;
        let ghost mid2 = self.socks@;
        let egress = (usb_activity && received) || sent || !self.configured();
        if egress {
            self.usb_send();
        }
        PollOutcome {
            received,
            sent,
            egress,
            usb,
            socks_after_recv: Ghost(mid1),
            socks_after_send: Ghost(mid2),
        }
    }

    /// The receive-only poll entry point, for a dedicated receive task:
    /// without USB progress there is nothing to do; with it, run the receive
    /// pass and egress exactly when data arrived.
    pub fn try_recv(
        &mut self,
        usb_activity: bool,
        ingress: bool,
        event: Option<DhcpEvent>,
        channels: &mut Vec<RecvChannel>,
    ) -> (out: PollOutcome)
        requires
            old(self).wf(),
            old(self).recv_channels_ok(old(channels)@),
        ensures
            final(self).wf(),
            final(self).socks@.len() == old(self).socks@.len(),
            final(self).link == old(self).link,
            final(channels)@.len() == old(channels)@.len(),
            out.sent == false,
            out.usb == UsbAction::Idle,
            out.socks_after_recv@.len() == old(self).socks@.len(),
            out.socks_after_send@ == out.socks_after_recv@,
            !usb_activity ==> out.received == false && final(channels)@ == old(channels)@ && final(self).socks@ == old(self).socks@ && final(self).state == old(self).state && final(self).iface == old(self).iface && out.socks_after_recv@ == old(self).socks@,
            usb_activity ==> final(self).state == spec_dhcp_state(old(self).state, event)
                && final(self).iface.addresses@ == spec_dhcp_addresses(
                old(self).iface.addresses@,
                event,
            ) && final(self).iface.default_route == spec_dhcp_route(
                old(self).iface.default_route,
                event,
            ),
            usb_activity && ingress ==> recv_pass_rel(
                old(channels)@,
                old(self).socks@,
                final(channels)@,
                out.socks_after_recv@,
            ) && out.received == spec_recv_any(
                old(channels)@,
                old(self).socks@,
                old(channels)@.len() as int,
            ),
            usb_activity && !ingress ==> out.received == false && final(channels)@ == old(
                channels,
            )@ && out.socks_after_recv@ == old(self).socks@,
            out.egress == (usb_activity && out.received),
            egress_rel(out.socks_after_recv@, final(self).socks@, out.egress),
    {
        if !usb_activity {
            let ghost pre = self.socks@;
            return PollOutcome {
                received: false,
                sent: false,
                egress: false,
                usb: UsbAction::Idle,
                socks_after_recv: Ghost(pre),
                socks_after_send: Ghost(pre),
            };
        }
        let received = self.recv_channels(ingress, event, channels);
        let ghost mid = self.socks@;
        let egress = received;
        if egress {
            self.usb_send();
        }
        PollOutcome {
            received,
            sent: false,
            egress,
            usb: UsbAction::Idle,
            socks_after_recv: Ghost(mid),
            socks_after_send: Ghost(mid),
        }
    }

    /// The send-only poll entry point, for a dedicated send task: run the
    /// send pass, then egress exactly when data moved or the interface is
    /// not yet configured.
    pub fn try_send(&mut self, channels: &mut Vec<SendChannel>) -> (out: PollOutcome)
        requires
            old(self).wf(),
            old(self).send_channels_ok(old(channels)@),
        ensures
            final(self).wf(),
            final(self).socks@.len() == old(self).socks@.len(),
            final(self).iface == old(self).iface,
            final(self).link == old(self).link,
            final(self).state == old(self).state,
            final(channels)@.len() == old(channels)@.len(),
            out.received == false,
            out.socks_after_recv@ == old(self).socks@,
            out.socks_after_send@.len() == old(self).socks@.len(),
            old(self).link.state is Connected ==> out.usb == UsbAction::Idle && send_pass_rel(
                old(channels)@,
                old(self).socks@,
                final(channels)@,
                out.socks_after_send@,
            ) && out.sent == spec_send_any(
                old(channels)@,
                old(self).socks@,
                old(channels)@.len() as int,
            ),
            !(old(self).link.state is Connected) ==> out.sent == false && final(channels)@ == old(
                channels,
            )@ && out.usb == spec_connect_action(old(self).link) && out.socks_after_send@ == old(
                self,
            ).socks@,
            out.egress == (out.sent || !(old(self).state is Configured)),
            egress_rel(out.socks_after_send@, final(self).socks@, out.egress),
    {
        let ghost pre = self.socks@;
        let sa = self.send_channels(channels);
        let ghost mid = self.socks@;
        let egress = sa.0 || !self.configured();
        if egress {
            self.usb_send();
        }
        PollOutcome {
            received: false,
            sent: sa.0,
            egress,
            usb: sa.1,
            socks_after_recv: Ghost(pre),
            socks_after_send: Ghost(mid),
        }
    }

    /// Create one connection's socket and bridge pair at setup time: a fresh
    /// listening socket joins the table, and the bridges are bound to it for
    /// life.  `capacity` sizes both byte channels and the socket's transmit
    /// buffer.
    pub fn channel(&mut self, port: u16, capacity: usize) -> (nc: NetworkChannel)
        requires
            old(self).wf(),
        ensures
            final(self).wf(),
            final(self).iface == old(self).iface,
            final(self).link == old(self).link,
            final(self).state == old(self).state,
            final(self).socks@.len() == old(self).socks@.len() + 1,
            forall|j: int|
                0 <= j < old(self).socks@.len() ==> final(self).socks@[j] == old(self).socks@[j],
            nc.recv.port == port,
            nc.recv.handle == old(self).socks@.len(),
            nc.recv.state is Listening,
            nc.recv.channel.contents() == Seq::<u8>::empty(),
            nc.recv.channel.capacity_spec() == capacity as nat,
            nc.recv.channel.has_sender() && nc.recv.channel.has_receiver(),
            nc.send.handle == old(self).socks@.len(),
            nc.send.channel.contents() == Seq::<u8>::empty(),
            nc.send.channel.capacity_spec() == capacity as nat,
            nc.send.channel.has_sender() && nc.send.channel.has_receiver(),
            ({
                let s = final(self).socks@[old(self).socks@.len() as int];
                &&& s.rx@ == Seq::<u8>::empty()
                &&& s.tx@ == Seq::<u8>::empty()
                &&& s.tx_capacity == capacity
                &&& !s.may_recv
                &&& !s.may_send
                &&& !s.active
                &&& s.listening
                &&& s.listen_port == port
                &&& !s.close_requested
            }),
    {
        let handle = self.socks.len();
        let sock = TcpSocket::listening(port, capacity);
        self.socks.push(sock);
        NetworkChannel {
            send: SendChannel { handle, channel: ByteChannel::new(capacity) },
            recv: RecvChannel {
                port,
                handle,
                state: RecvChannelState::Listening,
                channel: ByteChannel::new(capacity),
            },
        }
    }
}

} // verus!
