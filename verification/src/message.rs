//! A small concrete message schema: the control records carried over one of
//! the gadget's byte channels.  It exercises every obligation of the
//! `Message` trait, including the encode/decode round-trip law.

use vstd::arithmetic::div_mod::lemma_fundamental_div_mod;
use vstd::prelude::*;

use crate::codec::Message;

verus! {

/// A control record: an operation kind and a 16-bit argument, carried as
/// three bytes (kind, argument low byte, argument high byte).
#[derive(Clone, Copy, PartialEq, Eq, Structural, Debug)]
pub struct ControlMessage {
    pub kind: u8,
    pub value: u16,
}

impl Message for ControlMessage {
    open spec fn wire(&self) -> Seq<u8> {
        seq![self.kind, (self.value % 256) as u8, (self.value / 256) as u8]
    }

    open spec fn parses(bytes: Seq<u8>) -> Option<Self> {
        if bytes.len() == 3 {
            Some(ControlMessage { kind: bytes[0], value: (bytes[1] + 256 * bytes[2]) as u16 })
        } else {
            None
        }
    }

    proof fn lemma_wire_round_trip(&self) {
        let v = self.value as int;
        lemma_fundamental_div_mod(v, 256);
        assert(Self::parses(self.wire()) == Some(*self));
    }

    fn encode(&self) -> (r: Vec<u8>) {
        let mut r: Vec<u8> = Vec::new();
        r.push(self.kind);
        r.push((self.value % 256) as u8);
        r.push((self.value / 256) as u8);
        proof {
            assert(r@ =~= self.wire());
        }
        r
    }

    fn decode(bytes: &Vec<u8>) -> (r: Option<Self>) {
        if bytes.len() == 3 {
            let value = bytes[1] as u16 + 256u16 * (bytes[2] as u16);
            Some(ControlMessage { kind: bytes[0], value })
        } else {
            None
        }
    }
}

} // verus!
