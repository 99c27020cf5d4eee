//! Tests of the gadget: DHCP event application, USB link bring-up, channel
//! creation, and the combined poll cycle.

use netgadget::DhcpEvent;
use netgadget::DhcpLease;
use netgadget::Gadget;
use netgadget::Ipv4Net;
use netgadget::UsbAction;

fn lease() -> DhcpLease {
    DhcpLease {
        address: Ipv4Net { address: 0x0A00_0002, prefix_len: 24 },
        router: Some(0x0A00_0001),
    }
}

#[test]
fn dhcp_lease_configures_interface() {
    let mut g = Gadget::new();
    assert!(!g.configured());
    g.dhcp_poll(Some(DhcpEvent::Configured(lease())));
    assert!(g.configured());
    assert_eq!(g.iface.addresses, vec![Ipv4Net { address: 0x0A00_0002, prefix_len: 24 }]);
    assert_eq!(g.iface.default_route, Some(0x0A00_0001));
}

#[test]
fn dhcp_lease_without_router_removes_route() {
    let mut g = Gadget::new();
    g.dhcp_poll(Some(DhcpEvent::Configured(lease())));
    let mut no_router = lease();
    no_router.router = None;
    g.dhcp_poll(Some(DhcpEvent::Configured(no_router)));
    assert!(g.configured());
    assert_eq!(g.iface.default_route, None);
}

#[test]
fn dhcp_deconfigure_is_idempotent() {
    let mut g = Gadget::new();
    g.dhcp_poll(Some(DhcpEvent::Configured(lease())));
    // first lease loss
    g.dhcp_poll(Some(DhcpEvent::Deconfigured));
    assert!(!g.configured());
    assert_eq!(g.iface.addresses, Vec::<Ipv4Net>::new());
    assert_eq!(g.iface.default_route, None);
    // applying it again, already unconfigured, is safe and changes nothing
    for _ in 0..3 {
        g.dhcp_poll(Some(DhcpEvent::Deconfigured));
        assert!(!g.configured());
        assert_eq!(g.iface.addresses, Vec::<Ipv4Net>::new());
        assert_eq!(g.iface.default_route, None);
    }
}

#[test]
fn usb_link_bring_up_sequence() {
    let mut g = Gadget::new();
    assert!(!g.connected());
    assert_eq!(g.connect(), UsbAction::NegotiateSpeed);
    // the device stack may refuse transiently: the same decision comes back
    assert_eq!(g.connect(), UsbAction::NegotiateSpeed);
    g.link_speed_negotiated();
    assert_eq!(g.connect(), UsbAction::RequestConnect);
    g.link_connected();
    assert_eq!(g.connect(), UsbAction::Idle);
    assert!(g.connected());
}

#[test]
fn channel_creates_listening_socket_and_bound_bridges() {
    let mut g = Gadget::new();
    let nc = g.channel(8080, 16);
    assert_eq!(g.socks.len(), 1);
    assert!(g.socks[0].listening);
    assert_eq!(g.socks[0].listen_port, 8080);
    assert_eq!(g.socks[0].tx_capacity, 16);
    assert_eq!(nc.recv.handle, 0);
    assert_eq!(nc.send.handle, 0);
    assert_eq!(nc.recv.port, 8080);
    let nc2 = g.channel(9090, 8);
    assert_eq!(nc2.recv.handle, 1);
    assert_eq!(g.socks.len(), 2);
}

#[test]
fn poll_without_usb_keeps_unconfigured_keep_alive_only() {
    // construct a gadget and never connect USB
    let mut g = Gadget::new();
    let nc = g.channel(8080, 16);
    let mut send = vec![nc.send];
    let mut recv = vec![nc.recv];
    for _ in 0..5 {
        let out = g.poll(false, false, None, &mut send, &mut recv);
        // the poll runs to completion: nothing received, nothing sent
        assert!(!out.received);
        assert!(!out.sent);
        // still unconfigured, so every poll forces the keep-alive egress pass
        assert!(!g.configured());
        assert!(out.egress);
        // the link is still down, so the poll asks for bring-up
        assert_eq!(out.usb, UsbAction::NegotiateSpeed);
        assert!(!g.connected());
        // and no data is anywhere in flight
        assert_eq!(g.socks[0].tx, Vec::<u8>::new());
        assert_eq!(recv[0].channel.len(), 0);
    }
}

#[test]
fn combined_poll_moves_socket_bytes_into_recv_channel() {
    let mut g = Gadget::new();
    let nc = g.channel(8080, 4);
    let mut send = vec![nc.send];
    let mut recv = vec![nc.recv];
    g.link_speed_negotiated();
    g.link_connected();
    g.dhcp_poll(Some(DhcpEvent::Configured(lease())));

    // a connection is up and six bytes sit in the socket
    g.socks[0].may_recv = true;
    g.socks[0].may_send = true;
    g.socks[0].active = true;
    g.socks[0].listening = false;
    g.socks[0].rx = vec![1, 2, 3, 4, 5, 6];

    let out = g.poll(true, true, None, &mut send, &mut recv);
    assert!(out.received);
    // data arrived, so this poll egresses; the send pass also ran, but the
    // outbound channel had nothing queued
    assert!(out.egress);
    assert!(!out.sent);
    // the channel took its capacity's worth; the rest stayed in the socket
    assert_eq!(recv[0].channel.len(), 4);
    assert_eq!(g.socks[0].rx, vec![5, 6]);

    // the application drains the channel; the next poll forwards the rest
    assert_eq!(recv[0].channel.try_recv(), Ok(1));
    assert_eq!(recv[0].channel.try_recv(), Ok(2));
    assert_eq!(recv[0].channel.try_recv(), Ok(3));
    assert_eq!(recv[0].channel.try_recv(), Ok(4));
    let out = g.poll(true, true, None, &mut send, &mut recv);
    assert!(out.received);
    assert_eq!(g.socks[0].rx, Vec::<u8>::new());
    assert_eq!(recv[0].channel.try_recv(), Ok(5));
    assert_eq!(recv[0].channel.try_recv(), Ok(6));
}

#[test]
fn combined_poll_drains_send_channel_and_egresses() {
    let mut g = Gadget::new();
    let nc = g.channel(8080, 8);
    let mut send = vec![nc.send];
    let mut recv = vec![nc.recv];
    g.link_speed_negotiated();
    g.link_connected();
    g.dhcp_poll(Some(DhcpEvent::Configured(lease())));

    g.socks[0].may_send = true;
    g.socks[0].active = true;
    g.socks[0].listening = false;
    for b in [7, 8, 9] {
        send[0].channel.try_send(b).unwrap();
    }

    let out = g.poll(true, false, None, &mut send, &mut recv);
    assert!(!out.received);
    assert!(out.sent);
    assert!(out.egress);
    assert_eq!(send[0].channel.len(), 0);
    // the egress pass flushed the socket's transmit buffer to the wire
    assert_eq!(g.socks[0].tx, Vec::<u8>::new());

    // nothing left to send, interface configured: no egress this time
    let out = g.poll(true, false, None, &mut send, &mut recv);
    assert!(!out.sent);
    assert!(!out.egress);
}

#[test]
fn poll_runs_send_pass_even_when_data_arrives() {
    let mut g = Gadget::new();
    let nc = g.channel(8080, 4);
    let mut send = vec![nc.send];
    let mut recv = vec![nc.recv];
    g.link_speed_negotiated();
    g.link_connected();
    g.dhcp_poll(Some(DhcpEvent::Configured(lease())));

    // bytes wait in both directions at once
    g.socks[0].may_recv = true;
    g.socks[0].may_send = true;
    g.socks[0].active = true;
    g.socks[0].listening = false;
    g.socks[0].rx = vec![1, 2];
    for b in [7, 8, 9] {
        send[0].channel.try_send(b).unwrap();
    }

    let out = g.poll(true, true, None, &mut send, &mut recv);
    // receiving delivered data, and the send pass still ran this same poll
    assert!(out.received);
    assert!(out.sent);
    assert!(out.egress);
    assert_eq!(recv[0].channel.len(), 2);
    assert_eq!(send[0].channel.len(), 0);
    // the egress pass flushed what the send pass queued
    assert_eq!(g.socks[0].tx, Vec::<u8>::new());
}

#[test]
fn try_recv_entry_point_does_nothing_without_usb_progress() {
    let mut g = Gadget::new();
    let nc = g.channel(8080, 8);
    let mut recv = vec![nc.recv];
    g.socks[0].may_recv = true;
    g.socks[0].rx = vec![1, 2];
    let out = g.try_recv(false, true, None, &mut recv);
    assert!(!out.received);
    assert!(!out.egress);
    assert_eq!(g.socks[0].rx, vec![1, 2]);
    let out = g.try_recv(true, true, None, &mut recv);
    assert!(out.received);
    assert!(out.egress);
    assert_eq!(g.socks[0].rx, Vec::<u8>::new());
}

#[test]
fn try_send_entry_point_asks_for_bring_up_when_disconnected() {
    let mut g = Gadget::new();
    let nc = g.channel(8080, 8);
    let mut send = vec![nc.send];
    let out = g.try_send(&mut send);
    assert!(!out.sent);
    assert_eq!(out.usb, UsbAction::NegotiateSpeed);
    // unconfigured: the keep-alive egress pass still runs
    assert!(out.egress);
}
