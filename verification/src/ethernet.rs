//! The link-layer addressing header: a fixed 14-byte header of destination
//! address, source address, and big-endian ethertype, prepended to the
//! nested packet.

use vstd::prelude::*;
use crate::builder::{wrap_seq, AnyLayer, PacketBuilder};
use crate::bytes::{be16, push_all, push_be16};

verus! {

/// The network protocol carried inside the link-layer frame.
#[derive(Clone, Copy)]
pub enum Ethertype {
    IPV4,
}

impl Ethertype {
    /// The 16-bit ethertype value of the header.
    pub open spec fn spec_code(&self) -> u16 {
        match self {
            Ethertype::IPV4 => 0x0800,
        }
    }

    /// Returns the 16-bit ethertype value.
    pub fn code(&self) -> (r: u16)
        ensures
            r == self.spec_code(),
    {
        match self {
            Ethertype::IPV4 => 0x0800,
        }
    }
}

/// The link-layer frame: `[dst:6][src:6][ethertype:2 big-endian][payload]`.
pub open spec fn eth_frame_bytes(dst: Seq<u8>, src: Seq<u8>, ethertype: u16, payload: Seq<u8>) -> Seq<u8> {
    dst + src + be16(ethertype) + payload
}

/// Carrier for an addressed link: stacks the inner layers with a composer
/// and prepends the 14-byte addressing header.
pub struct Ethernet {
    builder: PacketBuilder,
    dst_mac: [u8; 6],
    src_mac: [u8; 6],
    ethertype: Ethertype,
}

impl Ethernet {
    pub closed spec fn spec_layers(&self) -> Seq<AnyLayer> {
        self.builder@
    }

    pub closed spec fn spec_dst_mac(&self) -> Seq<u8> {
        self.dst_mac@
    }

    pub closed spec fn spec_src_mac(&self) -> Seq<u8> {
        self.src_mac@
    }

    pub closed spec fn spec_ethertype(&self) -> Ethertype {
        self.ethertype
    }

    /// A carrier with the given addresses and ethertype and no inner layers.
    pub fn new(dst_mac: [u8; 6], src_mac: [u8; 6], ethertype: Ethertype) -> (r: Self)
        ensures
            r.spec_dst_mac() == dst_mac@,
            r.spec_src_mac() == src_mac@,
            r.spec_ethertype() == ethertype,
            r.spec_layers() == Seq::<AnyLayer>::empty(),
    {
        Ethernet { builder: PacketBuilder::new(), dst_mac, src_mac, ethertype }
    }

    /// Appends an inner layer.
    pub fn layer(self, layer: AnyLayer) -> (r: Self)
        ensures
            r.spec_layers() == self.spec_layers().push(layer),
            r.spec_dst_mac() == self.spec_dst_mac(),
            r.spec_src_mac() == self.spec_src_mac(),
            r.spec_ethertype() == self.spec_ethertype(),
    {
        let Ethernet { builder, dst_mac, src_mac, ethertype } = self;
        Ethernet { builder: builder.layer(layer), dst_mac, src_mac, ethertype }
    }

    /// Builds the nested packet and prepends the addressing header.
    pub fn build(self, data: Vec<u8>) -> (r: Vec<u8>)
        ensures
            r@ == eth_frame_bytes(
                self.spec_dst_mac(),
                self.spec_src_mac(),
                self.spec_ethertype().spec_code(),
                wrap_seq(self.spec_layers(), data@),
            ),
    {
        let Ethernet { builder, dst_mac, src_mac, ethertype } = self;
        let packet = builder.build(data);
        let mut frame: Vec<u8> = Vec::new();
        push_all(&mut frame, dst_mac.as_slice());
        push_all(&mut frame, src_mac.as_slice());
        push_be16(&mut frame, ethertype.code());
        push_all(&mut frame, packet.as_slice());
        proof {
            assert(frame@ =~= eth_frame_bytes(
                self.spec_dst_mac(),
                self.spec_src_mac(),
                self.spec_ethertype().spec_code(),
                wrap_seq(self.spec_layers(), data@),
            ));
        }
        frame
    }
}

/// Field placement in the link-layer frame: the first six bytes are the
/// destination address, the next six the source address, and the two bytes
/// after them the big-endian ethertype.
pub proof fn lemma_link_header_placement(dst: Seq<u8>, src: Seq<u8>, ethertype: u16, payload: Seq<u8>)
    requires
        dst.len() == 6,
        src.len() == 6,
    ensures
        eth_frame_bytes(dst, src, ethertype, payload).len() == 14 + payload.len(),
        eth_frame_bytes(dst, src, ethertype, payload).subrange(0, 6) == dst,
        eth_frame_bytes(dst, src, ethertype, payload).subrange(6, 12) == src,
        eth_frame_bytes(dst, src, ethertype, payload).subrange(12, 14) == be16(ethertype),
{
    let out = eth_frame_bytes(dst, src, ethertype, payload);
    assert(out.subrange(0, 6) =~= dst);
    assert(out.subrange(6, 12) =~= src);
    assert(out.subrange(12, 14) =~= be16(ethertype));
}

} // verus!
