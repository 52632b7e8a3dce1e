//! The link framer: delimits a packet inside a byte stream with an END
//! sentinel and escapes payload bytes that collide with the sentinel values,
//! so that the encoding can always be inverted exactly.

use vstd::prelude::*;
use crate::builder::{wrap_seq, AnyLayer, PacketBuilder};

verus! {

/// Frame delimiter.
pub const SLIP_END: u8 = 0xC0;

/// Escape introducer.
pub const SLIP_ESC: u8 = 0xDB;

/// Stands for an escaped END byte.
pub const SLIP_ESC_END: u8 = 0xDC;

/// Stands for an escaped ESC byte.
pub const SLIP_ESC_ESC: u8 = 0xDD;

/// The encoding of one payload byte: sentinel values are escaped, every
/// other byte passes through unchanged.
pub open spec fn escape_byte(b: u8) -> Seq<u8> {
    if b == SLIP_END {
        seq![SLIP_ESC, SLIP_ESC_END]
    } else if b == SLIP_ESC {
        seq![SLIP_ESC, SLIP_ESC_ESC]
    } else {
        seq![b]
    }
}

/// The byte-stuffed body: each payload byte replaced by its encoding.
pub open spec fn stuffed(data: Seq<u8>) -> Seq<u8>
    decreases data.len(),
{
    if data.len() == 0 {
        Seq::empty()
    } else {
        escape_byte(data.first()) + stuffed(data.drop_first())
    }
}

/// The full frame: the stuffed body between two END delimiters.
pub open spec fn slip_encoding(data: Seq<u8>) -> Seq<u8> {
    seq![SLIP_END] + stuffed(data) + seq![SLIP_END]
}

/// Removes the escapes again: the inverse of `stuffed` on well-formed input.
pub open spec fn unstuffed(s: Seq<u8>) -> Seq<u8>
    decreases s.len(),
{
    if s.len() == 0 {
        Seq::empty()
    } else if s.first() == SLIP_ESC && s.len() >= 2 {
        (if s[1] == SLIP_ESC_END {
            seq![SLIP_END]
        } else if s[1] == SLIP_ESC_ESC {
            seq![SLIP_ESC]
        } else {
            seq![s[1]]
        }) + unstuffed(s.skip(2))
    } else {
        seq![s.first()] + unstuffed(s.drop_first())
    }
}

/// Stuffing distributes over concatenation.
proof fn lemma_stuffed_append(a: Seq<u8>, b: Seq<u8>)
    ensures
        stuffed(a + b) == stuffed(a) + stuffed(b),
    decreases a.len(),
{
    if a.len() == 0 {
        assert(a + b =~= b);
        assert(stuffed(a) + stuffed(b) =~= stuffed(b));
    } else {
        assert((a + b).first() == a.first());
        assert((a + b).drop_first() =~= a.drop_first() + b);
        lemma_stuffed_append(a.drop_first(), b);
        assert(stuffed(a + b) =~= stuffed(a) + stuffed(b));
    }
}

/// Removing the escapes from a stuffed body restores the input exactly.
pub proof fn lemma_unstuffed_stuffed(data: Seq<u8>)
    ensures
        unstuffed(stuffed(data)) == data,
    decreases data.len(),
{
    if data.len() > 0 {
        let head = data.first();
        let rest = data.drop_first();
        let s = stuffed(data);
        lemma_unstuffed_stuffed(rest);
        if head == SLIP_END || head == SLIP_ESC {
            assert(s.len() >= 2);
            assert(s.first() == SLIP_ESC);
            assert(s[1] == escape_byte(head)[1]);
            assert(s.skip(2) =~= stuffed(rest));
            assert(unstuffed(s) =~= data);
        } else {
            assert(s.first() == head);
            assert(s.drop_first() =~= stuffed(rest));
            assert(unstuffed(s) =~= data);
        }
    }
}

/// Appending one more payload byte extends the stuffed body by that byte's
/// encoding.
proof fn lemma_stuffed_snoc(data: Seq<u8>, i: int)
    requires
        0 <= i < data.len(),
    ensures
        stuffed(data.take(i + 1)) == stuffed(data.take(i)) + escape_byte(data[i]),
{
    assert(data.take(i + 1) =~= data.take(i) + seq![data[i]]);
    lemma_stuffed_append(data.take(i), seq![data[i]]);
    assert(seq![data[i]].drop_first() =~= Seq::<u8>::empty());
    assert(seq![data[i]].first() == data[i]);
    assert(stuffed(Seq::<u8>::empty()) == Seq::<u8>::empty());
    assert(stuffed(seq![data[i]]) =~= escape_byte(data[i]));
}

/// Each payload byte becomes one or two encoded bytes.
proof fn lemma_stuffed_len(data: Seq<u8>)
    ensures
        data.len() <= stuffed(data).len() <= 2 * data.len(),
    decreases data.len(),
{
    if data.len() > 0 {
        lemma_stuffed_len(data.drop_first());
    }
}

/// Worst-case growth of the framing: at most twice the input plus the two
/// delimiters.
pub proof fn lemma_encoding_size_bound(data: Seq<u8>)
    ensures
        data.len() + 2 <= slip_encoding(data).len() <= 2 * data.len() + 2,
{
    lemma_stuffed_len(data);
}

/// Encodes `data` for the serial link: an END delimiter, the byte-stuffed
/// payload, and a closing END delimiter.
pub fn encode(data: &[u8]) -> (r: Vec<u8>)
    ensures
        r@ == slip_encoding(data@),
{
    let mut encoded: Vec<u8> = Vec::new();
    encoded.push(SLIP_END);
    let mut i: usize = 0;
    while i < data.len()
        invariant
            i <= data@.len(),
            encoded@ == seq![SLIP_END] + stuffed(data@.take(i as int)),
        decreases data@.len() - i,
    {
        let byte = data[i];
        if byte == SLIP_END {
            encoded.push(SLIP_ESC);
            encoded.push(SLIP_ESC_END);
        } else if byte == SLIP_ESC {
            encoded.push(SLIP_ESC);
            encoded.push(SLIP_ESC_ESC);
        } else {
            encoded.push(byte);
        }
        proof {
            lemma_stuffed_snoc(data@, i as int);
            assert(encoded@ =~= seq![SLIP_END] + stuffed(data@.take(i as int + 1)));
        }
        i = i + 1;
    }
    proof {
        assert(data@.take(data@.len() as int) =~= data@);
    }
    encoded.push(SLIP_END);
    proof {
        assert(encoded@ =~= slip_encoding(data@));
    }
    encoded
}

/// Framing round trip: every encoding starts and ends with the END
/// delimiter, and removing the escapes from the bytes between the
/// delimiters restores the input exactly — so encoding is injective.
pub proof fn lemma_framer_round_trip(data: Seq<u8>)
    ensures
        slip_encoding(data).len() == stuffed(data).len() + 2,
        slip_encoding(data).first() == SLIP_END,
        slip_encoding(data).last() == SLIP_END,
        unstuffed(slip_encoding(data).subrange(1, slip_encoding(data).len() - 1)) == data,
{
    let enc = slip_encoding(data);
    assert(enc.subrange(1, enc.len() - 1) =~= stuffed(data));
    lemma_unstuffed_stuffed(data);
}

/// Carrier for the serial link: stacks the inner layers with a composer and
/// frames their output for transmission.
pub struct SLIP {
    builder: PacketBuilder,
}

impl SLIP {
    pub closed spec fn spec_layers(&self) -> Seq<AnyLayer> {
        self.builder@
    }

    /// A framer with no inner layers yet.
    pub fn new() -> (r: Self)
        ensures
            r.spec_layers() == Seq::<AnyLayer>::empty(),
    {
        SLIP { builder: PacketBuilder::new() }
    }

    /// Appends an inner layer.
    pub fn layer(self, layer: AnyLayer) -> (r: Self)
        ensures
            r.spec_layers() == self.spec_layers().push(layer),
    {
        SLIP { builder: self.builder.layer(layer) }
    }

    /// Builds the nested packet and frames it for the serial link.
    pub fn build(self, data: Vec<u8>) -> (r: Vec<u8>)
        ensures
            r@ == slip_encoding(wrap_seq(self.spec_layers(), data@)),
    {
        let packet = self.builder.build(data);
        encode(packet.as_slice())
    }
}

} // verus!
