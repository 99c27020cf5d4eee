//! Firmware core for a USB Ethernet gadget: a byte-stuffing frame codec with
//! corruption recovery, a structured-message codec layered on it, and the
//! state machines that bridge TCP sockets to bounded byte channels under a
//! poll-driven event loop.

pub mod bridge;
pub mod channel;
pub mod codec;
pub mod frame;
pub mod gadget;
pub mod message;
pub mod stream;

pub use bridge::recv_step;
pub use bridge::RecvChannel;
pub use bridge::RecvChannelState;
pub use bridge::SendChannel;
pub use bridge::TcpSocket;
pub use channel::ByteChannel;
pub use channel::ChannelSink;
pub use channel::ChannelStream;
pub use channel::ReceiveError;
pub use channel::TrySendError;
pub use codec::Decoder;
pub use codec::Encoder;
pub use codec::Message;
pub use frame::FeedResult;
pub use frame::FrameDecoder;
pub use gadget::DhcpEvent;
pub use gadget::DhcpLease;
pub use gadget::Gadget;
pub use gadget::IfaceConfig;
pub use gadget::IpState;
pub use gadget::Ipv4Net;
pub use gadget::LinkState;
pub use gadget::NetworkChannel;
pub use gadget::PollOutcome;
pub use gadget::UsbAction;
pub use gadget::UsbLink;
pub use message::ControlMessage;
pub use stream::ByteSink;
pub use stream::ByteStream;
pub use stream::relay;
pub use stream::Sink;
pub use stream::Stream;
