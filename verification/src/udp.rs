//! The transport-layer header: an 8-byte header carrying the two ports, a
//! truncated 16-bit length field, and a zero checksum field (the transport
//! checksum is optional and deliberately omitted).

use vstd::prelude::*;
use crate::builder::Layer;
use crate::bytes::{be16, len16, length_field, push_all, push_be16};

verus! {

/// Transport-header configuration: the two ports, fixed at construction.
#[derive(Clone, Copy)]
pub struct UDP {
    src_port: u16,
    dst_port: u16,
}

/// The transport header followed by the payload:
/// `[src_port:2][dst_port:2][length:2][checksum:2][payload]`, every
/// multi-byte field big-endian, `length == 8 + |data|` truncated to 16 bits,
/// checksum emitted as zero.
pub open spec fn udp_wrap_bytes(src_port: u16, dst_port: u16, data: Seq<u8>) -> Seq<u8> {
    be16(src_port) + be16(dst_port) + be16(len16(8, data.len())) + be16(0) + data
}

impl UDP {
    pub closed spec fn spec_src_port(&self) -> u16 {
        self.src_port
    }

    pub closed spec fn spec_dst_port(&self) -> u16 {
        self.dst_port
    }

    /// A transport header with both ports fixed.
    pub fn new(src_port: u16, dst_port: u16) -> (r: UDP)
        ensures
            r.spec_src_port() == src_port,
            r.spec_dst_port() == dst_port,
    {
        UDP { src_port, dst_port }
    }
}

impl Layer for UDP {
    open spec fn spec_wrap(&self, data: Seq<u8>) -> Seq<u8> {
        udp_wrap_bytes(self.spec_src_port(), self.spec_dst_port(), data)
    }

    fn wrap(&self, data: &[u8]) -> (r: Vec<u8>) {
        let mut packet: Vec<u8> = Vec::new();
        push_be16(&mut packet, self.src_port);
        push_be16(&mut packet, self.dst_port);
        push_be16(&mut packet, length_field(8, data.len()));
        push_be16(&mut packet, 0);
        push_all(&mut packet, data);
        proof {
            assert(packet@ =~= self.spec_wrap(data@));
        }
        packet
    }
}

/// The length field of the transport header, decoded from the bytes at
/// offsets 4 and 5 as a big-endian 16-bit integer, equals
/// `8 + |payload|` modulo 2^16.
pub proof fn lemma_transport_length_field(src_port: u16, dst_port: u16, p: Seq<u8>)
    ensures
        udp_wrap_bytes(src_port, dst_port, p).len() == 8 + p.len(),
        256 * udp_wrap_bytes(src_port, dst_port, p)[4] + udp_wrap_bytes(src_port, dst_port, p)[5]
            == (8 + p.len()) % 0x10000,
{
    let out = udp_wrap_bytes(src_port, dst_port, p);
    let length: u16 = len16(8, p.len());
    assert(out[4] == (length / 256) as u8);
    assert(out[5] == (length % 256) as u8);
    vstd::arithmetic::div_mod::lemma_fundamental_div_mod(length as int, 256);
}

} // verus!
