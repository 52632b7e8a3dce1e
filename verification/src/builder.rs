//! The composer: an ordered sequence of protocol layers applied to a payload.
//!
//! Layers are applied in reverse insertion order, so the layer added last is
//! wrapped around the payload first and the layer added first contributes the
//! outermost header of the finished packet.

use vstd::prelude::*;
use crate::ip::IP;
use crate::udp::UDP;

verus! {

/// One protocol layer: wrapping prepends this layer's header to a payload.
pub trait Layer {
    /// The bytes this layer produces around `data`.
    spec fn spec_wrap(&self, data: Seq<u8>) -> Seq<u8>;

    /// Produces exactly the bytes that `spec_wrap` describes.
    fn wrap(&self, data: &[u8]) -> (r: Vec<u8>)
        ensures
            r@ == self.spec_wrap(data@),
    ;
}

/// The closed set of layers a `PacketBuilder` can hold.
#[derive(Clone, Copy)]
pub enum AnyLayer {
    Udp(UDP),
    Ip(IP),
}

impl Layer for AnyLayer {
    open spec fn spec_wrap(&self, data: Seq<u8>) -> Seq<u8> {
        match self {
            AnyLayer::Udp(udp) => udp.spec_wrap(data),
            AnyLayer::Ip(ip) => ip.spec_wrap(data),
        }
    }

    fn wrap(&self, data: &[u8]) -> (r: Vec<u8>) {
        match self {
            AnyLayer::Udp(udp) => udp.wrap(data),
            AnyLayer::Ip(ip) => ip.wrap(data),
        }
    }
}

/// The bytes produced by applying `layers` to `data`, the last layer
/// innermost: `wrap_seq([a, b], p) == a.wrap(b.wrap(p))`.
pub open spec fn wrap_seq(layers: Seq<AnyLayer>, data: Seq<u8>) -> Seq<u8>
    decreases layers.len(),
{
    if layers.len() == 0 {
        data
    } else {
        layers.first().spec_wrap(wrap_seq(layers.drop_first(), data))
    }
}

/// An ordered sequence of layers, assembled incrementally and consumed once
/// to produce a packet.
pub struct PacketBuilder {
    layers: Vec<AnyLayer>,
}

impl View for PacketBuilder {
    type V = Seq<AnyLayer>;

    closed spec fn view(&self) -> Seq<AnyLayer> {
        self.layers@
    }
}

impl PacketBuilder {
    /// A composer holding no layers.
    pub fn new() -> (r: Self)
        ensures
            r@ == Seq::<AnyLayer>::empty(),
    {
        PacketBuilder { layers: Vec::new() }
    }

    /// Returns the composer with `layer` appended at the end of the sequence.
    pub fn layer(self, layer: AnyLayer) -> (r: Self)
        ensures
            r@ == self@.push(layer),
    {
        let mut layers = self.layers;
        layers.push(layer);
        PacketBuilder { layers }
    }

    /// Consumes the composer: wraps each layer around `data`, proceeding in
    /// reverse insertion order.
    pub fn build(self, data: Vec<u8>) -> (r: Vec<u8>)
        ensures
            r@ == wrap_seq(self@, data@),
    {
        let ghost all = self.layers@;
        let ghost payload0 = data@;
        let mut payload = data;
        let mut i: usize = self.layers.len();
        while i > 0
            invariant
                i <= all.len(),
                self.layers@ == all,
                payload@ == wrap_seq(all.skip(i as int), payload0),
            decreases i,
        {
            i = i - 1;
            payload = self.layers[i].wrap(payload.as_slice());
            proof {
                assert(all.skip(i as int).first() == all[i as int]);
                assert(all.skip(i as int).drop_first() =~= all.skip(i as int + 1));
            }
        }
        proof {
            assert(all.skip(0) =~= all);
        }
        payload
    }
}

/// An empty composer returns the payload unchanged.
pub proof fn lemma_composer_identity(p: Seq<u8>)
    ensures
        wrap_seq(Seq::<AnyLayer>::empty(), p) == p,
{
}

/// Layers added in order `[a, b]` nest as `a.wrap(b.wrap(p))`: the layer
/// added last is wrapped around the payload first.
pub proof fn lemma_composer_ordering(a: AnyLayer, b: AnyLayer, p: Seq<u8>)
    ensures
        wrap_seq(seq![a, b], p) == a.spec_wrap(b.spec_wrap(p)),
{
    let layers = seq![a, b];
    assert(layers.drop_first() =~= seq![b]);
    assert(seq![b].drop_first() =~= Seq::<AnyLayer>::empty());
    assert(seq![b].first() == b);
    assert(wrap_seq(Seq::<AnyLayer>::empty(), p) == p);
    assert(wrap_seq(seq![b], p) == b.spec_wrap(p));
    assert(wrap_seq(layers, p) == a.spec_wrap(wrap_seq(seq![b], p)));
}

} // verus!
