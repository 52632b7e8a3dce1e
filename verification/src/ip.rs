//! The network-layer header: a fixed 20-byte header (no options path) with a
//! ones'-complement checksum computed over the header itself.

use vstd::prelude::*;
use vstd::arithmetic::div_mod::{lemma_div_is_ordered, lemma_fundamental_div_mod};
use crate::builder::Layer;
use crate::bytes::{be16, len16, length_field, push_all, push_be16};

verus! {

/// The transport protocol carried inside the network header.
#[derive(Clone, Copy)]
pub enum Protocol {
    UDP,
}

impl Protocol {
    /// The protocol identifier byte of the header.
    pub open spec fn spec_code(&self) -> u8 {
        match self {
            Protocol::UDP => 17,
        }
    }

    /// Returns the protocol identifier byte.
    pub fn code(&self) -> (r: u8)
        ensures
            r == self.spec_code(),
    {
        match self {
            Protocol::UDP => 17,
        }
    }
}

/// Network-header configuration. The version, header length, service bits
/// and time-to-live are fixed by construction; only the protocol and the two
/// addresses vary.
#[derive(Clone, Copy)]
pub struct IP {
    version: u8,
    ihl: u8,
    dscp: u8,
    ecn: u8,
    ttl: u8,
    protocol: Protocol,
    src_addr: [u8; 4],
    dst_addr: [u8; 4],
}

/// Sum of the first `k` big-endian 16-bit words of `h`.
pub open spec fn word_sum(h: Seq<u8>, k: nat) -> int
    decreases k,
{
    if k == 0 {
        0
    } else {
        word_sum(h, (k - 1) as nat) + 256 * h[2 * (k - 1)] + h[2 * (k - 1) + 1]
    }
}

/// End-around carry fold: adds the bits above bit 15 back into the low
/// 16 bits until none remain.
pub open spec fn fold_carries(sum: nat) -> nat
    decreases sum,
    via fold_carries_decreases
{
    if sum < 0x10000 {
        sum
    } else {
        fold_carries((sum / 0x10000 + sum % 0x10000) as nat)
    }
}

#[via_fn]
proof fn fold_carries_decreases(sum: nat) {
    if sum >= 0x10000 {
        lemma_fundamental_div_mod(sum as int, 0x10000);
        lemma_div_is_ordered(0x10000, sum as int, 0x10000);
    }
}

/// Every word of the sum is non-negative.
pub proof fn lemma_word_sum_nonneg(h: Seq<u8>, k: nat)
    ensures
        word_sum(h, k) >= 0,
    decreases k,
{
    if k > 0 {
        lemma_word_sum_nonneg(h, (k - 1) as nat);
    }
}

/// The ones'-complement checksum of `h`: its big-endian 16-bit words summed,
/// the carries folded back in, and the 16-bit result complemented.
pub open spec fn ip_checksum(h: Seq<u8>) -> u16 {
    (0xFFFF - fold_carries(word_sum(h, h.len() / 2) as nat)) as u16
}

/// Computes the checksum over all of `header` (the checksum field is summed
/// as it stands, so callers zero it first) and stores it big-endian at
/// offsets 10 and 11. The length bound keeps the 32-bit accumulator from
/// overflowing.
pub fn calculate_checksum(header: &mut Vec<u8>)
    requires
        old(header)@.len() % 2 == 0,
        12 <= old(header)@.len() <= 131070,
    ensures
        final(header)@ == old(header)@.update(10, (ip_checksum(old(header)@) / 256) as u8).update(
            11,
            (ip_checksum(old(header)@) % 256) as u8,
        ),
{
    let ghost h0 = header@;
    let n: usize = header.len();
    let words: usize = n / 2;
    let mut sum: u32 = 0;
    let mut w: usize = 0;
    while w < words
        invariant
            header@ == h0,
            n == h0.len(),
            n <= 131070,
            n % 2 == 0,
            words == n / 2,
            w <= words,
            sum == word_sum(h0, w as nat),
            sum <= w * 0xFFFF,
        decreases words - w,
    {
        proof {
            assert(2 * w + 1 < n);
        }
        let hi = header[2 * w] as u32;
        let lo = header[2 * w + 1] as u32;
        proof {
            assert(word_sum(h0, (w + 1) as nat) == word_sum(h0, w as nat) + 256 * h0[2 * w]
                + h0[2 * w + 1]);
        }
        sum = sum + (hi * 256 + lo);
        w = w + 1;
    }
    proof {
        lemma_word_sum_nonneg(h0, words as nat);
    }
    let ghost sum0 = sum as nat;
    let mut carry: u32 = sum >> 16;
    proof {
        assert(sum >> 16 == sum / 0x10000) by (bit_vector);
    }
    while carry != 0
        invariant
            carry == sum / 0x10000,
            fold_carries(sum as nat) == fold_carries(sum0),
        decreases sum,
    {
        proof {
            assert(sum & 0xFFFF == sum % 0x10000) by (bit_vector);
            lemma_fundamental_div_mod(sum as int, 0x10000);
            lemma_div_is_ordered(0x10000, sum as int, 0x10000);
        }
        let low = sum & 0xFFFF;
        sum = carry + low;
        carry = sum >> 16;
        proof {
            assert(sum >> 16 == sum / 0x10000) by (bit_vector);
        }
    }
    proof {
        assert(sum < 0x10000);
        assert(fold_carries(sum as nat) == sum as nat);
        assert(sum == fold_carries(sum0));
    }
    let folded: u16 = sum as u16;
    let checksum: u16 = 0xFFFF - folded;
    proof {
        assert(checksum == ip_checksum(h0));
    }
    header[10] = (checksum / 256) as u8;
    header[11] = (checksum % 256) as u8;
}

/// The 20-byte network header with the given total length and a zero
/// checksum field:
/// `[ver/ihl][dscp/ecn][total_length:2][id:2][flags/frag:2][ttl][proto][checksum:2][src:4][dst:4]`.
pub open spec fn ip_header_zero(proto: u8, src: Seq<u8>, dst: Seq<u8>, total_len: u16) -> Seq<u8> {
    seq![0x45u8, 0x00u8] + be16(total_len) + be16(0) + be16(0) + seq![64u8, proto] + be16(0) + src
        + dst
}

/// The network header followed by the payload: the header of
/// `ip_header_zero`, its total length `20 + |data|` truncated to 16 bits,
/// with the checksum over the zero-checksum header stored at offsets 10
/// and 11.
pub open spec fn ip_wrap_bytes(proto: u8, src: Seq<u8>, dst: Seq<u8>, data: Seq<u8>) -> Seq<u8> {
    let h = ip_header_zero(proto, src, dst, len16(20, data.len()));
    let ck = ip_checksum(h);
    h.update(10, (ck / 256) as u8).update(11, (ck % 256) as u8) + data
}

impl IP {
    #[verifier::type_invariant]
    spec fn fixed_fields(self) -> bool {
        self.version == 4 && self.ihl == 5 && self.dscp == 0 && self.ecn == 0 && self.ttl == 64
    }

    pub closed spec fn spec_protocol(&self) -> Protocol {
        self.protocol
    }

    pub closed spec fn spec_src_addr(&self) -> Seq<u8> {
        self.src_addr@
    }

    pub closed spec fn spec_dst_addr(&self) -> Seq<u8> {
        self.dst_addr@
    }

    /// A network header between the given addresses: version 4, header
    /// length 5 words, zero service bits, time-to-live 64.
    pub fn new(src_addr: [u8; 4], dst_addr: [u8; 4], protocol: Protocol) -> (r: Self)
        ensures
            r.spec_protocol() == protocol,
            r.spec_src_addr() == src_addr@,
            r.spec_dst_addr() == dst_addr@,
    {
        IP {
            version: 4,
            ihl: 5,
            dscp: 0,
            ecn: 0,
            ttl: 64,
            protocol,
            src_addr,
            dst_addr,
        }
    }
}

impl Layer for IP {
    open spec fn spec_wrap(&self, data: Seq<u8>) -> Seq<u8> {
        ip_wrap_bytes(self.spec_protocol().spec_code(), self.spec_src_addr(), self.spec_dst_addr(), data)
    }

    fn wrap(&self, data: &[u8]) -> (r: Vec<u8>) {
        proof {
            use_type_invariant(&*self);
            assert((4u8 << 4) | 5u8 == 0x45u8) by (bit_vector);
            assert((0u8 << 2) | 0u8 == 0x00u8) by (bit_vector);
        }
        let mut packet: Vec<u8> = Vec::new();
        packet.push((self.version << 4) | self.ihl);
        packet.push((self.dscp << 2) | self.ecn);
        push_be16(&mut packet, length_field(20, data.len()));
        push_be16(&mut packet, 0);
        push_be16(&mut packet, 0);
        packet.push(self.ttl);
        packet.push(self.protocol.code());
        push_be16(&mut packet, 0);
        push_all(&mut packet, self.src_addr.as_slice());
        push_all(&mut packet, self.dst_addr.as_slice());
        proof {
            assert(packet@ =~= ip_header_zero(
                self.spec_protocol().spec_code(),
                self.spec_src_addr(),
                self.spec_dst_addr(),
                len16(20, data@.len()),
            ));
        }
        calculate_checksum(&mut packet);
        push_all(&mut packet, data);
        proof {
            assert(packet@ =~= self.spec_wrap(data@));
        }
        packet
    }
}

/// The total-length field of the network header, decoded from the bytes at
/// offsets 2 and 3 as a big-endian 16-bit integer, equals `20 + |payload|`
/// modulo 2^16.
pub proof fn lemma_network_total_length_field(proto: u8, src: Seq<u8>, dst: Seq<u8>, p: Seq<u8>)
    requires
        src.len() == 4,
        dst.len() == 4,
    ensures
        256 * ip_wrap_bytes(proto, src, dst, p)[2] + ip_wrap_bytes(proto, src, dst, p)[3] == (20
            + p.len()) % 0x10000,
{
    let out = ip_wrap_bytes(proto, src, dst, p);
    let total: u16 = len16(20, p.len());
    assert(out[2] == (total / 256) as u8);
    assert(out[3] == (total % 256) as u8);
    lemma_fundamental_div_mod(total as int, 256);
}

} // verus!
