//! IPv4 + UDP framing: the parser that recognises in-tunnel DNS traffic and
//! the builder of the reply packets that are injected back.

use vstd::prelude::*;

verus! {

/// Protocol number of UDP in an IPv4 header.
pub const PROTO_UDP: u8 = 17;

/// Smallest packet that holds an IPv4 header and a UDP header.
pub const MIN_UDP_PACKET: usize = 28;

/// Largest payload for which the total length of the reply fits in 16 bits.
pub const MAX_REPLY_PAYLOAD: usize = 65_507;

/// The 16-bit number that two octets hold in network order.
pub open spec fn be16(hi: u8, lo: u8) -> nat {
    (hi as nat) * 256 + (lo as nat)
}

/// The 32-bit number that four octets hold in network order.
pub open spec fn be32(a: u8, b: u8, c: u8, d: u8) -> nat {
    be16(a, b) * 65536 + be16(c, d)
}

/// The 16-bit big-endian word at octet `i`.
pub open spec fn word_at(p: Seq<u8>, i: int) -> nat {
    be16(p[i], p[i + 1])
}

/// The 32-bit big-endian word at octet `i`.
pub open spec fn long_at(p: Seq<u8>, i: int) -> nat {
    be32(p[i], p[i + 1], p[i + 2], p[i + 3])
}

/// IP version, from the high nibble of the first octet.
pub open spec fn ip_version(p: Seq<u8>) -> int {
    p[0] as int / 16
}

/// Length of the IPv4 header in octets, from the low nibble of the first octet.
pub open spec fn ip_header_len(p: Seq<u8>) -> int {
    (p[0] as int % 16) * 4
}

/// The packet is long enough to be read as an IPv4 packet that carries UDP,
/// and says that it is one.
pub open spec fn is_ipv4_udp(p: Seq<u8>) -> bool {
    &&& p.len() >= MIN_UDP_PACKET
    &&& ip_version(p) == 4
    &&& p[9] == PROTO_UDP
    &&& p.len() >= ip_header_len(p) + 8
}

/// The length that the UDP header announces, its own eight octets counted.
pub open spec fn udp_length(p: Seq<u8>) -> int {
    word_at(p, ip_header_len(p) + 4) as int
}

/// Where the UDP payload ends: where the UDP header says, or at the end of the
/// packet if that comes first.
pub open spec fn payload_end(p: Seq<u8>) -> int {
    if ip_header_len(p) + udp_length(p) <= p.len() {
        ip_header_len(p) + udp_length(p)
    } else {
        p.len() as int
    }
}

/// What a packet holds, as mathematical values.
pub struct UdpView {
    pub src_ip: nat,
    pub src_port: nat,
    pub dst_ip: nat,
    pub dst_port: nat,
    pub payload: Seq<u8>,
}

/// The packet read as IPv4 + UDP. `None` where it is not such a packet, or
/// where the UDP length is too small to cover the UDP header.
pub open spec fn udp_view(p: Seq<u8>) -> Option<UdpView> {
    if is_ipv4_udp(p) && udp_length(p) >= 8 {
        let h = ip_header_len(p);
        Some(
            UdpView {
                src_ip: long_at(p, 12),
                src_port: word_at(p, h),
                dst_ip: long_at(p, 16),
                dst_port: word_at(p, h + 2),
                payload: p.subrange(h + 8, payload_end(p)),
            },
        )
    } else {
        None
    }
}

/// Parsed view of an IPv4 + UDP packet. Returned by [`parse_udp_packet`]; the
/// `payload` borrow ties back to the caller's packet.
pub struct ParsedUdp<'a> {
    pub src_ip: u32,
    pub src_port: u16,
    pub dst_ip: u32,
    pub dst_port: u16,
    pub payload: &'a [u8],
}

impl<'a> View for ParsedUdp<'a> {
    type V = UdpView;

    open spec fn view(&self) -> UdpView {
        UdpView {
            src_ip: self.src_ip as nat,
            src_port: self.src_port as nat,
            dst_ip: self.dst_ip as nat,
            dst_port: self.dst_port as nat,
            payload: self.payload@,
        }
    }
}

/// Two octets in network order as a number.
pub(crate) fn u16_from_be(hi: u8, lo: u8) -> (r: u16)
    ensures
        r == be16(hi, lo),
{
    (hi as u16) * 256 + (lo as u16)
}

/// Four octets in network order as a number.
fn u32_from_be(a: u8, b: u8, c: u8, d: u8) -> (r: u32)
    ensures
        r == be32(a, b, c, d),
{
    (u16_from_be(a, b) as u32) * 65536 + (u16_from_be(c, d) as u32)
}

fn version_and_header_len(first: u8) -> (r: (u8, usize))
    ensures
        r.0 == first as int / 16,
        r.1 == (first as int % 16) * 4,
{
    assert(first >> 4 == first / 16) by (bit_vector);
    assert(first & 0x0F == first % 16) by (bit_vector);
    (first >> 4, (first & 0x0F) as usize * 4)
}

/// Reads a packet as IPv4 + UDP.
pub fn parse_udp_packet(ip_data: &[u8]) -> (r: Option<ParsedUdp<'_>>)
    ensures
        match r {
            Some(p) => udp_view(ip_data@) == Some(p@),
            None => udp_view(ip_data@) is None,
        },
        r matches Some(p) ==> {
            let h = (ip_data@[0] % 16) * 4;
            let d = ip_data@;
            &&& p.src_ip == d[12] * 0x100_0000 + d[13] * 0x1_0000 + d[14] * 0x100 + d[15]
            &&& p.dst_ip == d[16] * 0x100_0000 + d[17] * 0x1_0000 + d[18] * 0x100 + d[19]
            &&& p.src_port == d[h] * 0x100 + d[h + 1]
            &&& p.dst_port == d[h + 2] * 0x100 + d[h + 3]
            &&& p.payload@.is_prefix_of(d.skip(h + 8))
        },
{
    if ip_data.len() < MIN_UDP_PACKET {
        return None;
    }
    let (version, ihl) = version_and_header_len(ip_data[0]);
    if version != 4 {
        return None;
    }
    if ip_data[9] != PROTO_UDP {
        return None;
    }
    if ip_data.len() < ihl + 8 {
        return None;
    }
    let src_ip = u32_from_be(ip_data[12], ip_data[13], ip_data[14], ip_data[15]);
    let dst_ip = u32_from_be(ip_data[16], ip_data[17], ip_data[18], ip_data[19]);
    let src_port = u16_from_be(ip_data[ihl], ip_data[ihl + 1]);
    let dst_port = u16_from_be(ip_data[ihl + 2], ip_data[ihl + 3]);
    let udp_len = u16_from_be(ip_data[ihl + 4], ip_data[ihl + 5]) as usize;
    let start: usize = ihl + 8;
    let end: usize = if ihl + udp_len <= ip_data.len() {
        ihl + udp_len
    } else {
        ip_data.len()
    };
    if start > end {
        return None;
    }
    Some(
        ParsedUdp {
            src_ip,
            src_port,
            dst_ip,
            dst_port,
            payload: vstd::slice::slice_subrange(ip_data, start, end),
        },
    )
}

/// Sum of the first `n` big-endian words.
pub open spec fn word_sum(s: Seq<u8>, n: nat) -> nat
    decreases n,
{
    if n == 0 {
        0
    } else {
        word_sum(s, (n - 1) as nat) + word_at(s, 2 * (n - 1))
    }
}

/// Sum of all whole big-endian words; an odd last octet is left out.
pub open spec fn header_sum(s: Seq<u8>) -> nat {
    word_sum(s, s.len() / 2)
}

/// One's-complement value of a sum of 16-bit words: the sum with its carries
/// added back in until it fits in 16 bits. It is zero for a zero sum only, and
/// else the number in `1..=65535` that is congruent to the sum modulo 65535.
pub open spec fn ones_complement(sum: nat) -> nat {
    if sum == 0 {
        0
    } else {
        ((sum - 1) % 65535 + 1) as nat
    }
}

/// The Internet checksum of a sequence of octets.
pub open spec fn checksum(s: Seq<u8>) -> nat {
    (65535 - ones_complement(header_sum(s))) as nat
}

pub proof fn lemma_word_sum_bound(s: Seq<u8>, n: nat)
    ensures
        word_sum(s, n) <= 65535 * n,
    decreases n,
{
    if n > 0 {
        lemma_word_sum_bound(s, (n - 1) as nat);
    }
}

proof fn lemma_word_sum_monotonic(s: Seq<u8>, m: nat, n: nat)
    requires
        m <= n,
    ensures
        word_sum(s, m) <= word_sum(s, n),
    decreases n,
{
    if m < n {
        lemma_word_sum_monotonic(s, m, (n - 1) as nat);
    }
}

/// One's-complement checksum over the whole 16-bit words of `header`. The
/// caller has already zeroed the checksum field.
pub fn ipv4_header_checksum(header: &[u8]) -> (r: u16)
    requires
        header@.len() <= 131_075 || header_sum(header@) <= u32::MAX,
    ensures
        r == checksum(header@),
{
    let words: usize = header.len() / 2;
    proof {
        lemma_word_sum_bound(header@, words as nat);
    }
    let mut sum: u32 = 0;
    let mut i: usize = 0;
    while i < words
        invariant
            words == header@.len() / 2,
            2 * words <= usize::MAX,
            i <= words,
            sum == word_sum(header@, i as nat),
            word_sum(header@, words as nat) <= u32::MAX,
        decreases words - i,
    {
        proof {
            lemma_word_sum_monotonic(header@, (i + 1) as nat, words as nat);
        }
        sum = sum + u16_from_be(header[2 * i], header[2 * i + 1]) as u32;
        i = i + 1;
    }
    let ghost total = header_sum(header@);
    while sum > 0xFFFF
        invariant
            ones_complement(sum as nat) == ones_complement(total),
        decreases sum,
    {
        let low: u32 = sum & 0xFFFF;
        let high: u32 = sum >> 16;
        assert(low == sum % 65536) by (bit_vector)
            requires
                low == sum & 0xFFFF,
        ;
        assert(high == sum / 65536) by (bit_vector)
            requires
                high == sum >> 16,
        ;
        proof {
            let s = sum as int;
            assert(s == 65535 * high as int + (low as int + high as int));
            vstd::arithmetic::div_mod::lemma_mod_multiples_vanish(
                high as int,
                low as int + high as int - 1,
                65535,
            );
        }
        sum = low + high;
    }
    assert(sum as u16 == sum) by (bit_vector)
        requires
            sum <= 0xFFFF,
    ;
    let folded: u16 = sum as u16;
    assert(!folded == 0xFFFF - folded) by (bit_vector);
    assert(ones_complement(sum as nat) == sum);
    !folded
}

/// The high octet of a 16-bit number.
pub open spec fn hi_octet(n: nat) -> u8 {
    (n / 256) as u8
}

/// The low octet of a 16-bit number.
pub open spec fn lo_octet(n: nat) -> u8 {
    (n % 256) as u8
}

/// The packet can be answered: IPv4 + UDP with a header length that covers the
/// addresses.
pub open spec fn is_answerable(p: Seq<u8>) -> bool {
    is_ipv4_udp(p) && ip_header_len(p) >= 20
}

/// A 20-octet IPv4 header of a UDP packet, with the given checksum.
pub open spec fn reply_ip_header(total_len: nat, cksum: nat, src: Seq<u8>, dst: Seq<u8>) -> Seq<u8> {
    seq![
        0x45u8,
        0x00u8,
        hi_octet(total_len),
        lo_octet(total_len),
        0u8,
        0u8,
        0x40u8,
        0x00u8,
        64u8,
        PROTO_UDP,
        hi_octet(cksum),
        lo_octet(cksum),
    ] + src + dst
}

/// An eight-octet UDP header with checksum zero, which IPv4 allows.
pub open spec fn reply_udp_header(src_port: Seq<u8>, dst_port: Seq<u8>, udp_len: nat) -> Seq<u8> {
    src_port + dst_port + seq![hi_octet(udp_len), lo_octet(udp_len), 0u8, 0u8]
}

/// The reply to `orig` with the payload `payload`: addresses and ports are
/// swapped, options of the header of `orig` are dropped, and the header
/// checksum is that of the header with a zero checksum field. `None` where
/// `orig` cannot be answered or the reply would not fit in one IPv4 packet.
pub open spec fn udp_reply(orig: Seq<u8>, payload: Seq<u8>) -> Option<Seq<u8>> {
    if is_answerable(orig) && payload.len() <= MAX_REPLY_PAYLOAD {
        let h = ip_header_len(orig);
        let src = orig.subrange(16, 20);
        let dst = orig.subrange(12, 16);
        let total_len = 28 + payload.len();
        let cksum = checksum(reply_ip_header(total_len, 0, src, dst));
        Some(
            reply_ip_header(total_len, cksum, src, dst) + reply_udp_header(
                orig.subrange(h + 2, h + 4),
                orig.subrange(h, h + 2),
                8 + payload.len(),
            ) + payload,
        )
    } else {
        None
    }
}

/// Appends a 16-bit number in network order.
fn push_be16(out: &mut Vec<u8>, n: u16)
    ensures
        final(out)@ == old(out)@ + seq![hi_octet(n as nat), lo_octet(n as nat)],
{
    out.push((n / 256) as u8);
    out.push((n % 256) as u8);
}

/// Appends `from..to` of a slice.
pub(crate) fn push_range(out: &mut Vec<u8>, src: &[u8], from: usize, to: usize)
    requires
        from <= to <= src@.len(),
    ensures
        final(out)@ == old(out)@ + src@.subrange(from as int, to as int),
{
    let mut i: usize = from;
    while i < to
        invariant
            from <= i <= to <= src@.len(),
            out@ == old(out)@ + src@.subrange(from as int, i as int),
        decreases to - i,
    {
        out.push(src[i]);
        i = i + 1;
    }
}

/// Builds a UDP-over-IPv4 reply for a captured DNS query: swaps source and
/// destination addresses and ports, drops in `reply_payload`, leaves the UDP
/// checksum at 0 (legal for IPv4, per RFC 768) and computes the IPv4 header
/// checksum.
pub fn build_udp_reply(orig_ip_data: &[u8], reply_payload: &[u8]) -> (r: Option<Vec<u8>>)
    ensures
        match r {
            Some(pkt) => udp_reply(orig_ip_data@, reply_payload@) == Some(pkt@),
            None => udp_reply(orig_ip_data@, reply_payload@) is None,
        },
{
    if orig_ip_data.len() < MIN_UDP_PACKET {
        return None;
    }
    let (version, ihl) = version_and_header_len(orig_ip_data[0]);
    if version != 4 || orig_ip_data[9] != PROTO_UDP {
        return None;
    }
    if ihl < 20 || orig_ip_data.len() < ihl + 8 {
        return None;
    }
    if reply_payload.len() > MAX_REPLY_PAYLOAD {
        return None;
    }
    let total_len: u16 = reply_payload.len() as u16 + 28;
    let udp_len: u16 = reply_payload.len() as u16 + 8;
    let ghost src = orig_ip_data@.subrange(16, 20);
    let ghost dst = orig_ip_data@.subrange(12, 16);

    let mut pkt: Vec<u8> = Vec::with_capacity(total_len as usize);
    pkt.push(0x45);  // version 4, header of five words
    pkt.push(0x00);  // DSCP/ECN
    push_be16(&mut pkt, total_len);
    push_be16(&mut pkt, 0);  // identification
    push_be16(&mut pkt, 0x4000);  // don't fragment, offset 0
    pkt.push(64);  // TTL
    pkt.push(PROTO_UDP);
    push_be16(&mut pkt, 0);  // checksum, filled in below
    push_range(&mut pkt, orig_ip_data, 16, 20);
    push_range(&mut pkt, orig_ip_data, 12, 16);
    assert(pkt@ =~= reply_ip_header(total_len as nat, 0, src, dst));

    let cksum = ipv4_header_checksum(pkt.as_slice());
    pkt[10] = (cksum / 256) as u8;
    pkt[11] = (cksum % 256) as u8;
    assert(pkt@ =~= reply_ip_header(total_len as nat, cksum as nat, src, dst));

    push_range(&mut pkt, orig_ip_data, ihl + 2, ihl + 4);
    push_range(&mut pkt, orig_ip_data, ihl, ihl + 2);
    push_be16(&mut pkt, udp_len);
    push_be16(&mut pkt, 0);  // no UDP checksum
    push_range(&mut pkt, reply_payload, 0, reply_payload.len());
    assert(pkt@ =~= udp_reply(orig_ip_data@, reply_payload@).unwrap());
    Some(pkt)
}

proof fn lemma_octets(n: nat)
    requires
        n <= 65535,
    ensures
        be16(hi_octet(n), lo_octet(n)) == n,
{
}

proof fn lemma_word_sum_same(s: Seq<u8>, t: Seq<u8>, n: nat)
    requires
        forall|i: int| 0 <= i < 2 * n ==> s[i] == t[i],
    ensures
        word_sum(s, n) == word_sum(t, n),
    decreases n,
{
    if n > 0 {
        lemma_word_sum_same(s, t, (n - 1) as nat);
    }
}

/// Writing the word `c` over a zero word adds `c` to the sum.
proof fn lemma_word_sum_patch(s: Seq<u8>, t: Seq<u8>, k: int, n: nat)
    requires
        0 <= k < n,
        forall|i: int| 0 <= i < 2 * n && i != 2 * k && i != 2 * k + 1 ==> s[i] == t[i],
        word_at(s, 2 * k) == 0,
    ensures
        word_sum(t, n) == word_sum(s, n) + word_at(t, 2 * k),
    decreases n,
{
    if n - 1 == k {
        lemma_word_sum_same(s, t, k as nat);
    } else {
        lemma_word_sum_patch(s, t, k, (n - 1) as nat);
        assert(s[2 * (n - 1)] == t[2 * (n - 1)]);
        assert(s[2 * (n - 1) + 1] == t[2 * (n - 1) + 1]);
    }
}

/// A header into which its own checksum was written verifies: wherever the
/// checksum word stands, the checksum over the completed header is zero.
pub proof fn law_checksum_verifies(zeroed: Seq<u8>, completed: Seq<u8>, word: int)
    requires
        completed.len() == zeroed.len(),
        0 <= word < zeroed.len() as int / 2,
        word_at(zeroed, 2 * word) == 0,
        forall|i: int|
            0 <= i < zeroed.len() && i != 2 * word && i != 2 * word + 1 ==> zeroed[i]
                == completed[i],
        word_at(completed, 2 * word) == checksum(zeroed),
    ensures
        checksum(completed) == 0,
{
    let n = zeroed.len() / 2;
    lemma_word_sum_patch(zeroed, completed, word, n);
    let s = header_sum(zeroed);
    let c = checksum(zeroed);
    assert(header_sum(completed) == s + c);
    if s > 0 {
        let q = (s - 1) as int / 65535;
        assert(s - 1 == 65535 * q + (s - 1) % 65535) by {
            vstd::arithmetic::div_mod::lemma_fundamental_div_mod((s - 1) as int, 65535);
        }
        assert((s + c) - 1 == 65535 * q + 65534);
        vstd::arithmetic::div_mod::lemma_mod_multiples_vanish(q, 65534, 65535);
        assert(65534int % 65535 == 65534);
    }
}

/// The IPv4 header of every reply carries a checksum that verifies, and the
/// checksum stored in it is the one that is computed once the field is zeroed.
pub proof fn law_reply_checksum_is_valid(orig: Seq<u8>, payload: Seq<u8>)
    requires
        udp_reply(orig, payload) is Some,
    ensures
        ({
            let header = udp_reply(orig, payload).unwrap().subrange(0, 20);
            let zeroed = header.update(10, 0u8).update(11, 0u8);
            &&& checksum(header) == 0
            &&& checksum(zeroed) == word_at(header, 10)
        }),
{
    let src = orig.subrange(16, 20);
    let dst = orig.subrange(12, 16);
    let total_len = 28 + payload.len();
    let bare = reply_ip_header(total_len, 0, src, dst);
    let header = udp_reply(orig, payload).unwrap().subrange(0, 20);
    let zeroed = header.update(10, 0u8).update(11, 0u8);
    lemma_octets(checksum(bare));
    lemma_octets(0);
    assert(zeroed =~= bare);
    law_checksum_verifies(zeroed, header, 5);
}

/// A reply travels back the way the query came: read as a packet, its source
/// is the destination of the query, its destination is the source of the
/// query, and its payload is the one that was put in.
pub proof fn law_reply_parses_back(orig: Seq<u8>, payload: Seq<u8>)
    requires
        udp_reply(orig, payload) is Some,
    ensures
        udp_view(udp_reply(orig, payload).unwrap()) == Some(
            UdpView {
                src_ip: long_at(orig, 16),
                src_port: word_at(orig, ip_header_len(orig) + 2),
                dst_ip: long_at(orig, 12),
                dst_port: word_at(orig, ip_header_len(orig)),
                payload,
            },
        ),
{
    let r = udp_reply(orig, payload).unwrap();
    lemma_octets(8 + payload.len());
    assert(r[0] == 0x45u8);
    assert(ip_header_len(r) == 20);
    assert(udp_length(r) == 8 + payload.len());
    assert(r.subrange(28, r.len() as int) =~= payload);
}

/// A packet that parses with a header of at least 20 octets can be answered
/// with every payload that fits, and the reply exchanges exactly the two
/// endpoints that the parser reported.
pub proof fn law_parsed_packet_is_answered(orig: Seq<u8>, payload: Seq<u8>)
    requires
        udp_view(orig) is Some,
        ip_header_len(orig) >= 20,
        payload.len() <= MAX_REPLY_PAYLOAD,
    ensures
        udp_reply(orig, payload) is Some,
        ({
            let q = udp_view(orig).unwrap();
            let a = udp_view(udp_reply(orig, payload).unwrap());
            a == Some(
                UdpView {
                    src_ip: q.dst_ip,
                    src_port: q.dst_port,
                    dst_ip: q.src_ip,
                    dst_port: q.src_port,
                    payload,
                },
            )
        }),
{
    law_reply_parses_back(orig, payload);
}

/// Every packet that is put together as an IPv4 header for UDP, a UDP header
/// and what follows reads as the addresses, the ports and the octets that were
/// put in. Identification, flags, time to live, options and both checksums are
/// of no account, and neither is what stands behind the UDP length; where the
/// packet ends before that, what is there is the payload.
pub proof fn law_built_packet_is_read(ip: Seq<u8>, udp: Seq<u8>, body: Seq<u8>)
    requires
        20 <= ip.len() <= 60,
        ip.len() % 4 == 0,
        ip[0] == 0x40 + ip.len() / 4,
        ip[9] == 17,
        udp.len() == 8,
        udp[4] * 0x100 + udp[5] >= 8,
    ensures
        ({
            let len = udp[4] * 0x100 + udp[5];
            &&& udp_view(ip + udp + body) matches Some(v)
            &&& v.src_ip == ip[12] * 0x100_0000 + ip[13] * 0x1_0000 + ip[14] * 0x100 + ip[15]
            &&& v.dst_ip == ip[16] * 0x100_0000 + ip[17] * 0x1_0000 + ip[18] * 0x100 + ip[19]
            &&& v.src_port == udp[0] * 0x100 + udp[1]
            &&& v.dst_port == udp[2] * 0x100 + udp[3]
            &&& len == 8 + body.len() ==> v.payload == body
            &&& len < 8 + body.len() ==> v.payload == body.take(len - 8)
            &&& len > 8 + body.len() ==> v.payload == body
        }),
{
    let p = ip + udp + body;
    let h = ip.len() as int;
    assert(p[0] == ip[0] && p[9] == ip[9]);
    assert(ip_header_len(p) == h);
    assert(forall|i: int| 0 <= i < 8 ==> p[h + i] == udp[i]);
    assert(p[h + 4] == udp[4] && p[h + 5] == udp[5]);
    assert(p[h] == udp[0] && p[h + 1] == udp[1] && p[h + 2] == udp[2] && p[h + 3] == udp[3]);
    let len = udp[4] * 0x100 + udp[5];
    if len < 8 + body.len() {
        assert(p.subrange(h + 8, payload_end(p)) =~= body.take(len - 8));
    } else {
        assert(p.subrange(h + 8, payload_end(p)) =~= body);
    }
}

/// A packet is read exactly where it has room for both headers, says that it is
/// IPv4 and that it carries UDP, and announces a UDP length that covers the UDP
/// header. Nothing else in it can have it refused.
pub proof fn law_only_framing_is_judged(p: Seq<u8>)
    ensures
        p.len() < 28 ==> udp_view(p) is None,
        p.len() >= 28 ==> {
            let h = (p[0] % 16) * 4;
            udp_view(p) is Some <==> {
                &&& 0x40 <= p[0] <= 0x4F
                &&& p[9] == 17
                &&& h + 8 <= p.len()
                &&& p[h + 4] * 0x100 + p[h + 5] >= 8
            }
        },
        udp_view(p) matches Some(v) ==> {
            let h = (p[0] % 16) * 4;
            let len = p[h + 4] * 0x100 + p[h + 5];
            &&& v.src_ip == p[12] * 0x100_0000 + p[13] * 0x1_0000 + p[14] * 0x100 + p[15]
            &&& v.dst_ip == p[16] * 0x100_0000 + p[17] * 0x1_0000 + p[18] * 0x100 + p[19]
            &&& v.src_port == p[h] * 0x100 + p[h + 1]
            &&& v.dst_port == p[h + 2] * 0x100 + p[h + 3]
            &&& v.payload.is_prefix_of(p.skip(h + 8))
            &&& v.payload.len() == if h + len <= p.len() {
                len - 8
            } else {
                p.len() - h - 8
            }
        },
{
    if let Some(v) = udp_view(p) {
        assert(v.payload =~= p.skip(ip_header_len(p) + 8).take(v.payload.len() as int));
    }
}

/// What a parsed packet stands for is what its fields hold.
pub proof fn law_parsed_fields_are_the_view(parsed: ParsedUdp<'_>)
    ensures
        parsed@.src_ip == parsed.src_ip,
        parsed@.dst_ip == parsed.dst_ip,
        parsed@.src_port == parsed.src_port,
        parsed@.dst_port == parsed.dst_port,
        parsed@.payload == parsed.payload@,
{
}

/// The sum behind a checksum takes in every whole word, once: it grows by each
/// word that is appended, and an odd last octet does not count.
pub proof fn law_header_sum_adds_each_word(s: Seq<u8>, hi: u8, lo: u8)
    requires
        s.len() % 2 == 0,
    ensures
        header_sum(Seq::empty()) == 0,
        header_sum(s.push(hi)) == header_sum(s),
        header_sum(s.push(hi).push(lo)) == header_sum(s) + hi * 0x100 + lo,
{
    let t = s.push(hi).push(lo);
    lemma_word_sum_same(s, s.push(hi), s.len() / 2);
    lemma_word_sum_same(s, t, s.len() / 2);
    assert(t.len() / 2 == s.len() / 2 + 1);
    assert(s.push(hi).len() / 2 == s.len() / 2);
    assert(t[s.len() as int] == hi && t[s.len() as int + 1] == lo);
}

/// A checksum completes the sum of the words to a multiple of 65535, as the
/// smallest number that does, and is all ones for nothing but zeroes.
pub proof fn law_checksum_completes_the_sum(s: Seq<u8>)
    ensures
        (header_sum(s) + checksum(s)) % 65535 == 0,
        header_sum(s) > 0 ==> checksum(s) < 65535,
        header_sum(s) == 0 ==> checksum(s) == 65535,
{
    let sum = header_sum(s);
    if sum > 0 {
        let q = (sum - 1) as int / 65535;
        vstd::arithmetic::div_mod::lemma_fundamental_div_mod((sum - 1) as int, 65535);
        assert(sum + checksum(s) == 65535 * (q + 1));
        vstd::arithmetic::div_mod::lemma_mod_multiples_basic(q + 1, 65535);
    }
}

/// A reply is there exactly where both headers of the query are whole and the
/// answer fits, and then octet for octet: a bare IPv4 header that may not be
/// fragmented, the addresses and the ports of the query exchanged, both lengths,
/// no UDP checksum, and the answer.
pub proof fn law_reply_octets(orig: Seq<u8>, payload: Seq<u8>)
    ensures
        orig.len() < 28 ==> udp_reply(orig, payload) is None,
        orig.len() >= 28 ==> (udp_reply(orig, payload) is Some <==> {
            &&& 0x45 <= orig[0] <= 0x4F
            &&& orig[9] == 17
            &&& (orig[0] % 16) * 4 + 8 <= orig.len()
            &&& payload.len() <= 65_507
        }),
        udp_reply(orig, payload) matches Some(r) ==> {
            let h = (orig[0] % 16) * 4;
            &&& r.len() == 28 + payload.len()
            &&& r[0] == 0x45 && r[1] == 0
            &&& r[2] * 0x100 + r[3] == r.len()
            &&& r[4] == 0 && r[5] == 0 && r[6] == 0x40 && r[7] == 0
            &&& r[8] == 64 && r[9] == 17
            &&& r.subrange(12, 16) == orig.subrange(16, 20)
            &&& r.subrange(16, 20) == orig.subrange(12, 16)
            &&& r[20] == orig[h + 2] && r[21] == orig[h + 3]
            &&& r[22] == orig[h] && r[23] == orig[h + 1]
            &&& r[24] * 0x100 + r[25] == 8 + payload.len()
            &&& r[26] == 0 && r[27] == 0
            &&& r.skip(28) == payload
        },
{
    if let Some(r) = udp_reply(orig, payload) {
        lemma_octets(28 + payload.len());
        lemma_octets(8 + payload.len());
        assert(r.subrange(12, 16) =~= orig.subrange(16, 20));
        assert(r.subrange(16, 20) =~= orig.subrange(12, 16));
        assert(r.skip(28) =~= payload);
    }
}

} // verus!
