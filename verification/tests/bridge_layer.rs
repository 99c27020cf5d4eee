//! Tests of the connection bridges: backpressure on the receive side, the
//! receive lifecycle state machine, and the send side's drain and discard
//! policies.

use netgadget::recv_step;
use netgadget::ByteChannel;
use netgadget::ReceiveError;
use netgadget::RecvChannelState::Closing;
use netgadget::RecvChannelState::Listening;
use netgadget::RecvChannelState::Receiving;
use netgadget::TrySendError;
use netgadget::RecvChannel;
use netgadget::RecvChannelState;
use netgadget::SendChannel;
use netgadget::TcpSocket;

fn open_socket(rx: &[u8], tx_capacity: usize) -> TcpSocket {
    let mut s = TcpSocket::listening(5000, tx_capacity);
    s.rx = rx.to_vec();
    s.may_recv = true;
    s.may_send = true;
    s.active = true;
    s.listening = false;
    s
}

fn recv_bridge(capacity: usize, state: RecvChannelState) -> RecvChannel {
    RecvChannel { port: 5000, handle: 0, state, channel: ByteChannel::new(capacity) }
}

#[test]
fn backpressure_forwards_exactly_capacity() {
    // channel capacity 4, socket offers 7 bytes in one peek
    let mut socket = open_socket(&[1, 2, 3, 4, 5, 6, 7], 8);
    let mut bridge = recv_bridge(4, RecvChannelState::Receiving);
    let moved = bridge.try_recv(&mut socket);
    assert!(moved);
    // exactly 4 forwarded ...
    assert_eq!(bridge.channel.len(), 4);
    assert_eq!(bridge.channel.try_recv(), Ok(1));
    assert_eq!(bridge.channel.try_recv(), Ok(2));
    assert_eq!(bridge.channel.try_recv(), Ok(3));
    assert_eq!(bridge.channel.try_recv(), Ok(4));
    // ... and exactly 4 consumed from the socket: the rest await later polls
    assert_eq!(socket.rx, vec![5, 6, 7]);
}

#[test]
fn recv_forwards_everything_when_channel_has_room() {
    let mut socket = open_socket(&[9, 8], 8);
    let mut bridge = recv_bridge(16, RecvChannelState::Receiving);
    assert!(bridge.try_recv(&mut socket));
    assert_eq!(bridge.channel.len(), 2);
    assert_eq!(socket.rx, Vec::<u8>::new());
    // nothing left: the next step moves nothing
    assert!(!bridge.try_recv(&mut socket));
}

#[test]
fn recv_state_machine_walks_the_lifecycle() {
    let mut socket = TcpSocket::listening(5000, 8);
    let mut bridge = recv_bridge(8, RecvChannelState::Listening);

    // still listening while no connection may deliver
    assert!(!bridge.may_recv(&mut socket));
    assert_eq!(bridge.state, RecvChannelState::Listening);
    assert!(!socket.close_requested);

    // a connection arrives
    socket.may_recv = true;
    socket.active = true;
    socket.listening = false;
    assert!(bridge.may_recv(&mut socket));
    assert_eq!(bridge.state, RecvChannelState::Receiving);
    assert!(bridge.may_recv(&mut socket));
    assert_eq!(bridge.state, RecvChannelState::Receiving);
    assert!(!socket.close_requested);
    assert!(!socket.listening);

    // the remote closes: the bridge closes the socket and waits
    socket.may_recv = false;
    assert!(!bridge.may_recv(&mut socket));
    assert_eq!(bridge.state, RecvChannelState::Closing);
    assert!(socket.close_requested);
    assert!(!socket.listening);

    // still active: stay closing, no listen yet
    assert!(!bridge.may_recv(&mut socket));
    assert_eq!(bridge.state, RecvChannelState::Closing);
    assert!(!socket.listening);

    // socket finally inactive: exactly now the listen is issued
    socket.active = false;
    assert!(!bridge.may_recv(&mut socket));
    assert_eq!(bridge.state, RecvChannelState::Listening);
    assert!(socket.listening);
    assert_eq!(socket.listen_port, 5000);
}

#[test]
fn send_discards_when_socket_not_ready() {
    // socket not send-ready, channel holds 5 buffered bytes
    let mut socket = open_socket(&[], 8);
    socket.may_send = false;
    let mut bridge = SendChannel { handle: 0, channel: ByteChannel::new(8) };
    for b in [10, 20, 30, 40, 50] {
        bridge.channel.try_send(b).unwrap();
    }
    let r = bridge.try_send(&mut socket);
    // all 5 drained and discarded, "no data moved", socket untouched
    assert_eq!(r, Ok(false));
    assert_eq!(bridge.channel.len(), 0);
    assert_eq!(socket.tx, Vec::<u8>::new());
    assert_eq!(socket.rx, Vec::<u8>::new());
}

#[test]
fn send_drains_into_socket_while_it_has_room() {
    let mut socket = open_socket(&[], 3);
    let mut bridge = SendChannel { handle: 0, channel: ByteChannel::new(8) };
    for b in [1, 2, 3, 4, 5] {
        bridge.channel.try_send(b).unwrap();
    }
    assert_eq!(bridge.try_send(&mut socket), Ok(true));
    assert_eq!(socket.tx, vec![1, 2, 3]);
    assert_eq!(bridge.channel.len(), 2);
    // no room: nothing moves, nothing is discarded
    assert_eq!(bridge.try_send(&mut socket), Ok(false));
    assert_eq!(bridge.channel.len(), 2);
}

#[test]
fn send_reports_missing_producer() {
    let mut socket = open_socket(&[], 8);
    let mut bridge = SendChannel { handle: 0, channel: ByteChannel::new(8) };
    bridge.channel.drop_sender();
    assert_eq!(bridge.try_send(&mut socket), Err(ReceiveError::NoSender));
}

#[test]
fn recv_step_decision_table() {
    // (state, may_recv, active) -> (next, eligible, close, listen)
    assert_eq!(recv_step(Listening, false, false), (Listening, false, false, false));
    assert_eq!(recv_step(Listening, true, true), (Receiving, true, false, false));
    assert_eq!(recv_step(Receiving, true, true), (Receiving, true, false, false));
    assert_eq!(recv_step(Receiving, false, true), (Closing, false, true, false));
    assert_eq!(recv_step(Closing, false, true), (Closing, false, false, false));
    assert_eq!(recv_step(Closing, false, false), (Listening, false, false, true));
    assert_eq!(recv_step(Closing, true, true), (Closing, true, false, false));
}

#[test]
fn channel_endpoint_loss_is_fatal_error_variants() {
    let mut ch = ByteChannel::new(2);
    ch.drop_receiver();
    assert_eq!(ch.try_send(1), Err(TrySendError::NoReceiver));
    let mut ch = ByteChannel::new(2);
    ch.try_send(9).unwrap();
    ch.try_send(8).unwrap();
    assert_eq!(ch.try_send(7), Err(TrySendError::Full));
    ch.drop_sender();
    // buffered bytes still drain after the producer is gone
    assert_eq!(ch.try_recv(), Ok(9));
    assert_eq!(ch.try_recv(), Ok(8));
    assert_eq!(ch.try_recv(), Err(ReceiveError::NoSender));
}
