//! ICMP echo requests and the Internet checksum (one's-complement sum of 16-bit
//! words).

use vstd::prelude::*;

verus! {

/// Length of an echo request: an 8-byte header and a 56-byte payload.
pub const ECHO_PACKET_LEN: usize = 64;

/// Sum of the big-endian 16-bit words of `d`; an odd last byte is the high half
/// of a word.
pub open spec fn word_sum(d: Seq<u8>) -> nat
    decreases d.len(),
{
    if d.len() == 0 {
        0
    } else if d.len() == 1 {
        d[0] as nat * 256
    } else {
        (d[0] as nat * 256 + d[1] as nat) + word_sum(d.subrange(2, d.len() as int))
    }
}

/// End-around carry: the high 16 bits are added to the low 16 bits until none are left.
pub open spec fn fold16(x: nat) -> nat
    decreases x,
    via fold16_decreases
{
    if x < 0x10000 {
        x
    } else {
        fold16(x % 0x10000 + x / 0x10000)
    }
}

#[via_fn]
proof fn fold16_decreases(x: nat) {
    if x >= 0x10000 {
        lemma_carry_smaller(x);
    }
}

proof fn lemma_carry_smaller(x: nat)
    requires
        x >= 0x10000,
    ensures
        x % 0x10000 + x / 0x10000 < x,
{
    vstd::arithmetic::div_mod::lemma_fundamental_div_mod(x as int, 0x10000);
    assert(x / 0x10000 >= 1);
}

/// One's-complement sum of the 16-bit words of `d`.
pub open spec fn ones_sum(d: Seq<u8>) -> nat {
    fold16(word_sum(d))
}

/// Internet checksum of `d`: the complement of its one's-complement sum.
pub open spec fn checksum_spec(d: Seq<u8>) -> nat {
    (0xFFFF - ones_sum(d)) as nat
}

proof fn lemma_fold16(x: nat)
    ensures
        fold16(x) <= 0xFFFF,
        fold16(x) % 0xFFFF == x % 0xFFFF,
        x > 0 ==> fold16(x) > 0,
    decreases x,
{
    if x >= 0x10000 {
        let q = x / 0x10000;
        let r = x % 0x10000;
        let y = r + q;
        assert(x == 0x10000 * q + r) by {
            vstd::arithmetic::div_mod::lemma_fundamental_div_mod(x as int, 0x10000);
        }
        assert(q >= 1);
        assert(y < x);
        assert(x == y + 0xFFFF * q);
        vstd::arithmetic::div_mod::lemma_mod_multiples_vanish(q as int, y as int, 0xFFFF);
        assert((0xFFFF * q + y) % 0xFFFF == y % 0xFFFF);
        lemma_fold16(y);
    }
}

proof fn lemma_word(a: u8, b: u8)
    ensures
        ((a as u32) << 8u32) | (b as u32) == (a as u32) * 256 + (b as u32),
        (a as u32) << 8u32 == (a as u32) * 256,
{
    assert(((a as u32) << 8u32) | (b as u32) == (a as u32) * 256 + (b as u32)) by (bit_vector);
    assert((a as u32) << 8u32 == (a as u32) * 256) by (bit_vector);
}

/// Internet checksum of `data`.
pub fn calculate_icmp_checksum(data: &[u8]) -> (r: u16)
    requires
        1 <= data@.len() <= 0xFFFF,
    ensures
        r as nat == checksum_spec(data@),
{
    let n = data.len();
    let mut sum: u32 = 0;
    let mut i: usize = 0;
    assert(data@.subrange(0, n as int) =~= data@);
    while i < n - 1
        invariant
            n == data@.len(),
            1 <= n <= 0xFFFF,
            i <= n,
            sum as nat + word_sum(data@.subrange(i as int, n as int)) == word_sum(data@),
            sum <= i * 0x8000,
        decreases n - i,
    {
        let a = data[i];
        let b = data[i + 1];
        proof {
            lemma_word(a, b);
            let rest = data@.subrange(i as int, n as int);
            assert(rest.subrange(2, rest.len() as int) =~= data@.subrange(i + 2, n as int));
            assert(rest[0] == a && rest[1] == b);
        }
        sum = sum + (((a as u32) << 8) | (b as u32));
        i = i + 2;
    }
    if i < n {
        let a = data[i];
        proof {
            lemma_word(a, 0);
        }
        sum = sum + ((a as u32) << 8);
    } else {
        assert(data@.subrange(i as int, n as int) =~= Seq::<u8>::empty());
    }
    assert(sum as nat == word_sum(data@));
    let ghost total = sum as nat;
    while sum >> 16 != 0
        invariant
            fold16(sum as nat) == fold16(total),
        decreases sum,
    {
        let lo = sum & 0xffff;
        let hi = sum >> 16;
        assert(lo == sum % 0x10000 && hi == sum / 0x10000 && (hi != 0 ==> sum >= 0x10000)) by (bit_vector)
            requires
                lo == sum & 0xffff,
                hi == sum >> 16,
        ;
        proof {
            lemma_carry_smaller(sum as nat);
        }
        sum = lo + hi;
    }
    assert(sum < 0x10000 && (!sum) as u16 == 0xFFFF - sum) by (bit_vector)
        requires
            sum >> 16 == 0,
    ;
    (!sum) as u16
}


/// Relies on pnet_packet's `IcmpTypes::EchoRequest`, the ICMP type 8.
#[verifier::external_body]
fn echo_request_type() -> (r: u8)
    ensures
        r == 8,
{
    pnet_packet::icmp::IcmpTypes::EchoRequest.0
}

/// Relies on pnet_packet's `IcmpTypes::EchoReply`, the ICMP type 0.
#[verifier::external_body]
fn echo_reply_type() -> (r: u8)
    ensures
        r == 0,
{
    pnet_packet::icmp::IcmpTypes::EchoReply.0
}

/// Whether an ICMP type is an echo reply.
pub fn is_echo_reply(icmp_type: u8) -> (r: bool)
    ensures
        r == (icmp_type == 0),
{
    icmp_type == echo_reply_type()
}

/// Echo request with a zero checksum field: type 8, code 0, identifier and sequence
/// number big-endian, then the payload bytes 0, 1, ..., 55.
pub open spec fn echo_request_unsummed(id: u16, seq: u16) -> Seq<u8> {
    seq![8u8, 0u8, 0u8, 0u8, (id / 256) as u8, (id % 256) as u8, (seq / 256) as u8, (seq % 256) as u8]
        + Seq::new(56, |i: int| i as u8)
}

/// Echo request with its checksum, big-endian, in bytes 2 and 3.
pub open spec fn echo_request_spec(id: u16, seq: u16) -> Seq<u8> {
    let u = echo_request_unsummed(id, seq);
    let c = checksum_spec(u);
    u.update(2, (c / 256) as u8).update(3, (c % 256) as u8)
}

/// Sequence number of a traceroute probe: the TTL in the high byte, the probe's
/// index within the hop in the low byte.
pub open spec fn probe_seq_spec(ttl: u8, probe_index: u8) -> u16 {
    (ttl as nat * 256 + probe_index as nat) as u16
}

pub fn probe_seq(ttl: u8, probe_index: u8) -> (r: u16)
    ensures
        r == probe_seq_spec(ttl, probe_index),
{
    assert(((ttl as u16) << 8u16) | (probe_index as u16) == ttl as u16 * 256 + probe_index as u16)
        by (bit_vector);
    ((ttl as u16) << 8) | (probe_index as u16)
}

/// ICMP echo request with identifier `id` and sequence number `seq`, checksummed.
pub fn build_icmp_packet(id: u16, seq: u16) -> (r: Vec<u8>)
    ensures
        r@ == echo_request_spec(id, seq),
{
    let ghost u = echo_request_unsummed(id, seq);
    let mut packet: Vec<u8> = Vec::new();
    packet.push(echo_request_type());
    packet.push(0);
    packet.push(0);
    packet.push(0);
    assert((id >> 8u16) as u8 == (id / 256) as u8 && (id & 0xffu16) as u8 == (id % 256) as u8)
        by (bit_vector);
    assert((seq >> 8u16) as u8 == (seq / 256) as u8 && (seq & 0xffu16) as u8 == (seq % 256) as u8)
        by (bit_vector);
    packet.push((id >> 8) as u8);
    packet.push((id & 0xff) as u8);
    packet.push((seq >> 8) as u8);
    packet.push((seq & 0xff) as u8);
    let mut i: usize = 8;
    while i < ECHO_PACKET_LEN
        invariant
            8 <= i <= ECHO_PACKET_LEN,
            packet@.len() == i,
            u.len() == ECHO_PACKET_LEN,
            u == echo_request_unsummed(id, seq),
            forall|j: int| 0 <= j < i ==> #[trigger] packet@[j] == u[j],
        decreases ECHO_PACKET_LEN - i,
    {
        packet.push((i - 8) as u8);
        i = i + 1;
    }
    assert(packet@ =~= u);
    let c = calculate_icmp_checksum(packet.as_slice());
    assert((c >> 8u16) as u8 == (c / 256) as u8 && (c & 0xffu16) as u8 == (c % 256) as u8)
        by (bit_vector);
    packet.set(2, (c >> 8) as u8);
    packet.set(3, (c & 0xff) as u8);
    packet
}

/// The one's-complement sum of every echo request that `build_icmp_packet` makes,
/// checksum included, is 0xFFFF.
pub proof fn lemma_echo_request_sums_to_ffff(id: u16, seq: u16)
    ensures
        ones_sum(echo_request_spec(id, seq)) == 0xFFFF,
{
    let u = echo_request_unsummed(id, seq);
    let p = echo_request_spec(id, seq);
    let s = word_sum(u);
    lemma_fold16(s);
    let f = fold16(s);
    let c = checksum_spec(u);
    assert(c == 0xFFFF - f);
    let u_tail = u.subrange(2, 64);
    let p_tail = p.subrange(2, 64);
    assert(u_tail.subrange(2, 62) =~= u.subrange(4, 64));
    assert(p_tail.subrange(2, 62) =~= u.subrange(4, 64));
    assert(u_tail[0] == 0 && u_tail[1] == 0);
    assert(p_tail[0] == (c / 256) as u8 && p_tail[1] == (c % 256) as u8);
    assert(((c / 256) as u8) as nat * 256 + ((c % 256) as u8) as nat == c);
    assert(word_sum(u_tail) == word_sum(u.subrange(4, 64)));
    assert(word_sum(p_tail) == c + word_sum(u.subrange(4, 64)));
    assert(p[0] == u[0] && p[1] == u[1]);
    let t = word_sum(p);
    assert(t == s + c);
    lemma_fold16(t);
    assert(t > 0);
    assert(t % 0xFFFF == 0) by {
        vstd::arithmetic::div_mod::lemma_fundamental_div_mod(s as int, 0xFFFF);
        vstd::arithmetic::div_mod::lemma_fundamental_div_mod(f as int, 0xFFFF);
        let k = s as int / 0xFFFF;
        let kf = f as int / 0xFFFF;
        assert(t == 0xFFFF * k + s as int % 0xFFFF + 0xFFFF - f);
        assert(t == 0xFFFF * (k - kf + 1));
        vstd::arithmetic::div_mod::lemma_mod_multiples_basic(k - kf + 1, 0xFFFF);
    }
}

} // verus!
