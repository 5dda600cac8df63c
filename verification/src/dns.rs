//! In-tunnel DNS: which packets are intercepted, which queries the engine's
//! resolver answers, which are forwarded, and which forwarded reply is taken.

use crate::config::pinned_nameservers;
use crate::packet::{build_udp_reply, parse_udp_packet, u16_from_be};
use vstd::prelude::*;
use vstd::string::StringExecFns;

verus! {

/// Port of DNS, over UDP and over TCP.
pub const DNS_PORT: u16 = 53;

/// Query type A.
pub const QTYPE_A: u16 = 1;

/// Query type AAAA.
pub const QTYPE_AAAA: u16 = 28;

/// Length of a DNS message header.
pub const DNS_HEADER_LEN: usize = 12;

/// Length octets from here on start a compression pointer (RFC 1035 § 4.1.4).
pub const POINTER_MARK: u8 = 0xC0;

/// Where a name that starts at `pos` ends: behind its empty label, or behind
/// the compression pointer that ends it. `None` where the message ends first.
pub open spec fn name_end(p: Seq<u8>, pos: nat) -> Option<nat>
    decreases (if pos < p.len() { p.len() - pos } else { 0 }),
{
    if pos >= p.len() {
        None
    } else if p[pos as int] == 0 {
        Some(pos + 1)
    } else if p[pos as int] >= POINTER_MARK {
        Some(pos + 2)
    } else {
        name_end(p, pos + 1 + p[pos as int] as nat)
    }
}

/// Query type of the first question of a message: the word behind the name of
/// the first question. `None` for a message that is cut short or that has no
/// question.
pub open spec fn first_qtype(p: Seq<u8>) -> Option<nat> {
    if p.len() < DNS_HEADER_LEN || crate::packet::word_at(p, 4) == 0 {
        None
    } else {
        match name_end(p, DNS_HEADER_LEN as nat) {
            Some(e) => if e + 1 < p.len() {
                Some(crate::packet::word_at(p, e as int))
            } else {
                None
            },
            None => None,
        }
    }
}

/// Reads the query type from the first question of a DNS query payload.
/// Returns `None` for malformed packets (truncation, missing terminator).
/// A compression pointer in the name is skipped, not followed.
pub fn parse_dns_qtype(payload: &[u8]) -> (r: Option<u16>)
    ensures
        match r {
            Some(t) => first_qtype(payload@) == Some(t as nat),
            None => first_qtype(payload@) is None,
        },
{
    if payload.len() < DNS_HEADER_LEN {
        return None;
    }
    let qdcount = u16_from_be(payload[4], payload[5]);
    if qdcount == 0 {
        return None;
    }
    let mut pos: usize = DNS_HEADER_LEN;
    let mut at_end: bool = false;
    while !at_end
        invariant
            payload@.len() >= DNS_HEADER_LEN,
            crate::packet::word_at(payload@, 4) != 0,
            !at_end ==> name_end(payload@, pos as nat) == name_end(
                payload@,
                DNS_HEADER_LEN as nat,
            ),
            at_end ==> Some(pos as nat) == name_end(payload@, DNS_HEADER_LEN as nat),
        decreases
                (if at_end {
                    0int
                } else if pos < payload@.len() {
                    payload@.len() - pos + 1
                } else {
                    1int
                }),
    {
        if pos >= payload.len() {
            return None;
        }
        let len: u8 = payload[pos];
        if len == 0 {
            match pos.checked_add(1) {
                Some(p) => {
                    pos = p;
                },
                None => {
                    return None;
                },
            }
            at_end = true;
        } else {
            assert((len & 0xC0u8 == 0xC0u8) == (len >= 0xC0u8)) by (bit_vector);
            if len & POINTER_MARK == POINTER_MARK {
                match pos.checked_add(2) {
                    Some(p) => {
                        pos = p;
                    },
                    None => {
                        return None;
                    },
                }
                at_end = true;
            } else {
                match pos.checked_add(1 + len as usize) {
                    Some(p) => {
                        pos = p;
                    },
                    None => {
                        assert(name_end(payload@, (pos + 1 + len) as nat) is None);
                        return None;
                    },
                }
            }
        }
    }
    if pos >= payload.len() {
        return None;
    }
    match pos.checked_add(1) {
        Some(next) => if next < payload.len() {
            Some(u16_from_be(payload[pos], payload[next]))
        } else {
            None
        },
        None => None,
    }
}

/// Octets of a name in its uncompressed wire form, without the empty label at
/// its end: each label preceded by its length.
pub open spec fn labels_wire(labels: Seq<Seq<u8>>) -> Seq<u8>
    decreases labels.len(),
{
    if labels.len() == 0 {
        Seq::empty()
    } else {
        seq![labels.first().len() as u8] + labels.first() + labels_wire(labels.drop_first())
    }
}

/// Every label is non-empty and its length octet is no pointer mark.
pub open spec fn plain_labels(labels: Seq<Seq<u8>>) -> bool {
    forall|i: int| 0 <= i < labels.len() ==> 0 < (#[trigger] labels[i]).len() < POINTER_MARK
}

/// A query as clients send it: header, name, query type and what follows.
pub open spec fn query_wire(
    header: Seq<u8>,
    labels: Seq<Seq<u8>>,
    qtype: u16,
    rest: Seq<u8>,
) -> Seq<u8> {
    header + labels_wire(labels) + seq![0u8] + seq![
        crate::packet::hi_octet(qtype as nat),
        crate::packet::lo_octet(qtype as nat),
    ] + rest
}

proof fn lemma_name_end_skips_labels(p: Seq<u8>, pos: nat, labels: Seq<Seq<u8>>)
    requires
        plain_labels(labels),
        pos + labels_wire(labels).len() <= p.len(),
        p.subrange(pos as int, (pos + labels_wire(labels).len()) as int) == labels_wire(labels),
    ensures
        name_end(p, pos) == name_end(p, pos + labels_wire(labels).len()),
    decreases labels.len(),
{
    if labels.len() > 0 {
        let w = labels_wire(labels);
        let l = labels.first();
        let tail = labels.drop_first();
        let sub = p.subrange(pos as int, (pos + w.len()) as int);
        assert(plain_labels(tail));
        assert(0 < labels[0].len() < POINTER_MARK);
        assert(w[0] == l.len() as u8);
        assert(sub[0] == p[pos as int]);
        let next = pos + 1 + l.len();
        let tw = labels_wire(tail);
        assert(w.len() == 1 + l.len() + tw.len());
        assert(p.subrange(next as int, (next + tw.len()) as int) =~= tw) by {
            assert forall|i: int| 0 <= i < tw.len() implies p[next + i] == tw[i] by {
                assert(sub[1 + l.len() + i] == w[1 + l.len() + i]);
            }
        }
        lemma_name_end_skips_labels(p, next, tail);
    }
}

/// The query type of every well-formed query is recognised, whatever the name,
/// the identifier, the flags and what follows the question's type.
pub proof fn law_qtype_of_query_is_read(
    header: Seq<u8>,
    labels: Seq<Seq<u8>>,
    qtype: u16,
    rest: Seq<u8>,
)
    requires
        header.len() == DNS_HEADER_LEN,
        crate::packet::word_at(header, 4) != 0,
        plain_labels(labels),
    ensures
        first_qtype(query_wire(header, labels, qtype, rest)) == Some(qtype as nat),
{
    let p = query_wire(header, labels, qtype, rest);
    let w = labels_wire(labels);
    assert(p.subrange(12, (12 + w.len()) as int) =~= w);
    lemma_name_end_skips_labels(p, 12, labels);
    assert(p[12 + w.len() as int] == 0);
    assert(p[4] == header[4] && p[5] == header[5]);
}

/// A name that is one compression pointer is skipped in the same way.
pub proof fn law_qtype_behind_pointer_is_read(
    header: Seq<u8>,
    pointer: Seq<u8>,
    qtype: u16,
    rest: Seq<u8>,
)
    requires
        header.len() == DNS_HEADER_LEN,
        crate::packet::word_at(header, 4) != 0,
        pointer.len() == 2,
        pointer[0] >= POINTER_MARK,
    ensures
        first_qtype(
            header + pointer + seq![
                crate::packet::hi_octet(qtype as nat),
                crate::packet::lo_octet(qtype as nat),
            ] + rest,
        ) == Some(qtype as nat),
{
    let p = header + pointer + seq![
        crate::packet::hi_octet(qtype as nat),
        crate::packet::lo_octet(qtype as nat),
    ] + rest;
    assert(p[12] == pointer[0]);
    assert(p[4] == header[4] && p[5] == header[5]);
}

/// An intercepted packet is one that reads as IPv4 + UDP to port 53.
pub open spec fn is_dns_packet(p: Seq<u8>) -> bool {
    match crate::packet::udp_view(p) {
        Some(v) => v.dst_port == DNS_PORT,
        None => false,
    }
}

/// Whether an ingress packet is taken off the path to the stack. The address a
/// query goes to is no host on the inside, so the stack never sees one.
pub fn is_dns_query(packet: &[u8]) -> (r: bool)
    ensures
        r == is_dns_packet(packet@),
        r ==> packet@.len() >= 28 && packet@[9] == 17,
{
    match parse_udp_packet(packet) {
        Some(p) => p.dst_port == DNS_PORT,
        None => false,
    }
}

/// Who answers an intercepted query.
pub enum DnsRoute<'a> {
    /// Not a packet that can be read: nobody.
    Unreadable,
    /// The engine's resolver, which knows the types A and AAAA.
    Engine(&'a [u8]),
    /// The upstream pool: every other type, and queries whose type cannot be
    /// read. The resolver would answer those with a misleading NXDOMAIN.
    Upstream(&'a [u8]),
}

/// The types the engine's resolver answers.
pub open spec fn engine_answers(qtype: Option<nat>) -> bool {
    qtype == Some(QTYPE_A as nat) || qtype == Some(QTYPE_AAAA as nat)
}

/// Whether the engine's resolver answers what a packet asks; `None` where the
/// packet cannot be read.
pub open spec fn routed_to_engine(packet: Seq<u8>) -> Option<bool> {
    match crate::packet::udp_view(packet) {
        None => None,
        Some(v) => Some(engine_answers(first_qtype(v.payload))),
    }
}

/// Routes an intercepted packet by the type of its first question.
pub fn route_dns_packet<'a>(packet: &'a [u8]) -> (r: DnsRoute<'a>)
    ensures
        r is Unreadable <==> routed_to_engine(packet@) is None,
        r is Engine <==> routed_to_engine(packet@) == Some(true),
        r is Upstream <==> routed_to_engine(packet@) == Some(false),
        match crate::packet::udp_view(packet@) {
            None => r is Unreadable,
            Some(v) => if engine_answers(first_qtype(v.payload)) {
                r matches DnsRoute::Engine(q) && q@ == v.payload
            } else {
                r matches DnsRoute::Upstream(q) && q@ == v.payload
            },
        },
{
    match parse_udp_packet(packet) {
        None => DnsRoute::Unreadable,
        Some(p) => match parse_dns_qtype(p.payload) {
            Some(t) => if t == QTYPE_A || t == QTYPE_AAAA {
                DnsRoute::Engine(p.payload)
            } else {
                DnsRoute::Upstream(p.payload)
            },
            None => DnsRoute::Upstream(p.payload),
        },
    }
}

/// Well-formed queries for addresses go to the engine and all others to the
/// upstream pool, whatever name they ask for.
pub proof fn law_queries_route_by_type(
    packet: Seq<u8>,
    header: Seq<u8>,
    labels: Seq<Seq<u8>>,
    qtype: u16,
    rest: Seq<u8>,
)
    requires
        header.len() == DNS_HEADER_LEN,
        crate::packet::word_at(header, 4) != 0,
        plain_labels(labels),
        crate::packet::udp_view(packet) matches Some(v) && v.payload == query_wire(
            header,
            labels,
            qtype,
            rest,
        ),
    ensures
        engine_answers(first_qtype(crate::packet::udp_view(packet).unwrap().payload)) == (qtype
            == QTYPE_A || qtype == QTYPE_AAAA),
{
    law_qtype_of_query_is_read(header, labels, qtype, rest);
}

/// The packet to inject for an intercepted query, given what the resolver or
/// the upstream pool came back with. `None`, and no packet, where nothing came
/// back (the engine is not running, the resolver failed, the pool timed out)
/// or where no reply can be framed.
pub fn dns_reply_packet(request: &[u8], answer: Option<&[u8]>) -> (r: Option<Vec<u8>>)
    ensures
        match answer {
            None => r is None,
            Some(a) => match r {
                Some(pkt) => crate::packet::udp_reply(request@, a@) == Some(pkt@),
                None => crate::packet::udp_reply(request@, a@) is None,
            },
        },
{
    match answer {
        None => None,
        Some(a) => build_udp_reply(request, a),
    }
}

/// The answer to an intercepted query that can be answered goes from port 53
/// of the address that was asked to the address and port that asked.
pub proof fn law_dns_reply_returns_to_asker(request: Seq<u8>, answer: Seq<u8>)
    requires
        is_dns_packet(request),
        crate::packet::ip_header_len(request) >= 20,
        answer.len() <= crate::packet::MAX_REPLY_PAYLOAD,
    ensures
        ({
            let q = crate::packet::udp_view(request).unwrap();
            crate::packet::udp_reply(request, answer) matches Some(pkt)
                && crate::packet::udp_view(pkt) matches Some(a) && {
                &&& a.src_ip == q.dst_ip
                &&& a.src_port == DNS_PORT
                &&& a.dst_ip == q.src_ip
                &&& a.dst_port == q.src_port
                &&& a.payload == answer
            }
        }),
{
    crate::packet::law_parsed_packet_is_answered(request, answer);
}

/// The upstream pool for what the engine's resolver does not answer: the
/// nameservers of the pinned resolver, each at the DNS port. Both paths see
/// the same side of split-horizon hosts because it is the same list.
pub fn passthrough_upstreams() -> (r: Vec<String>)
    ensures
        r@.len() == crate::config::pinned_nameserver_texts().len(),
        forall|i: int|
            0 <= i < r@.len() ==> (#[trigger] r@[i])@
                == crate::config::pinned_nameserver_texts()[i] + ":53"@,
        r@.len() == 2,
        r@[0]@ == "119.29.29.29"@ + ":53"@,
        r@[1]@ == "223.5.5.5"@ + ":53"@,
{
    let servers = pinned_nameservers();
    let mut out: Vec<String> = Vec::new();
    let mut i: usize = 0;
    while i < 2
        invariant
            i <= 2,
            out@.len() == i,
            crate::config::texts(servers@) == crate::config::pinned_nameserver_texts(),
            forall|k: int|
                0 <= k < i ==> (#[trigger] out@[k])@
                    == crate::config::pinned_nameserver_texts()[k] + ":53"@,
        decreases 2 - i,
    {
        assert(crate::config::texts(servers@)[i as int] == servers@[i as int]@);
        out.push(servers[i].to_owned().concat(":53"));
        i = i + 1;
    }
    out
}

/// The identifier of a DNS message.
pub open spec fn message_id(p: Seq<u8>) -> nat {
    crate::packet::word_at(p, 0)
}

/// Whether what came back from an upstream is taken: a datagram that carries
/// the identifier of the query (RFC 1035 § 4.1.1). Anything else on the
/// ephemeral port is stray traffic.
pub open spec fn is_matching_reply(id: nat, outcome: Option<Seq<u8>>) -> bool {
    match outcome {
        Some(p) => p.len() >= 2 && message_id(p) == id,
        None => false,
    }
}

/// Upstreams of one forwarded query that have not come back yet.
pub struct UpstreamRace {
    pub query_id: u16,
    pub pending: usize,
}

/// What follows from one upstream coming back.
#[derive(Clone, Copy, PartialEq, Eq, Structural, Debug)]
pub enum RaceStep {
    /// Its datagram is the answer; the others are given up.
    Answer,
    /// It is out, others are still pending.
    Wait,
    /// It was the last one: there is no answer.
    Exhausted,
}

/// The step that one outcome leads to while `pending` upstreams are out.
pub open spec fn race_step(id: nat, pending: nat, outcome: Option<Seq<u8>>) -> RaceStep {
    if is_matching_reply(id, outcome) {
        RaceStep::Answer
    } else if pending <= 1 {
        RaceStep::Exhausted
    } else {
        RaceStep::Wait
    }
}

impl UpstreamRace {
    /// Starts a race of `upstreams` upstreams for `query`. `None`, and nothing
    /// is sent, without an upstream or for a query too short to have an
    /// identifier.
    pub fn start(query: &[u8], upstreams: usize) -> (r: Option<UpstreamRace>)
        ensures
            match r {
                Some(race) => {
                    &&& upstreams > 0
                    &&& query@.len() >= 2
                    &&& race.query_id == message_id(query@)
                    &&& race.query_id == query@[0] * 0x100 + query@[1]
                    &&& race.pending == upstreams
                },
                None => upstreams == 0 || query@.len() < 2,
            },
    {
        if upstreams == 0 || query.len() < 2 {
            return None;
        }
        Some(UpstreamRace { query_id: u16_from_be(query[0], query[1]), pending: upstreams })
    }

    /// Takes the next outcome in order of arrival: a datagram, or `None` for
    /// an upstream that failed or timed out.
    pub fn on_outcome(&mut self, outcome: Option<&[u8]>) -> (r: RaceStep)
        requires
            old(self).pending > 0,
        ensures
            r == race_step(
                old(self).query_id as nat,
                old(self).pending as nat,
                match outcome {
                    Some(p) => Some(p@),
                    None => None,
                },
            ),
            r is Answer <==> (outcome matches Some(p) && p@.len() >= 2 && p@[0] * 0x100 + p@[1]
                == old(self).query_id),
            r is Exhausted ==> final(self).pending == 0,
            r is Wait ==> final(self).pending > 0,
            final(self).query_id == old(self).query_id,
            final(self).pending == old(self).pending - 1,
    {
        self.pending = self.pending - 1;
        let matching = match outcome {
            Some(p) => p.len() >= 2 && u16_from_be(p[0], p[1]) == self.query_id,
            None => false,
        };
        if matching {
            RaceStep::Answer
        } else if self.pending == 0 {
            RaceStep::Exhausted
        } else {
            RaceStep::Wait
        }
    }
}

/// What a race over the given outcomes, in order of arrival, comes to.
pub open spec fn race_result(id: nat, outcomes: Seq<Option<Seq<u8>>>) -> Option<Seq<u8>>
    decreases outcomes.len(),
{
    if outcomes.len() == 0 {
        None
    } else {
        match race_step(id, outcomes.len(), outcomes.first()) {
            RaceStep::Answer => outcomes.first(),
            RaceStep::Exhausted => None,
            RaceStep::Wait => race_result(id, outcomes.drop_first()),
        }
    }
}

/// A race ends with the first matching datagram in order of arrival, and
/// without an answer exactly where no upstream sent one.
pub proof fn law_race_takes_first_match(id: nat, outcomes: Seq<Option<Seq<u8>>>)
    ensures
        match race_result(id, outcomes) {
            Some(p) => exists|i: int|
                {
                    &&& 0 <= i < outcomes.len()
                    &&& #[trigger] outcomes[i] == Some(p)
                    &&& is_matching_reply(id, Some(p))
                    &&& forall|j: int| 0 <= j < i ==> !is_matching_reply(id, #[trigger] outcomes[j])
                },
            None => forall|i: int|
                0 <= i < outcomes.len() ==> !is_matching_reply(id, #[trigger] outcomes[i]),
        },
    decreases outcomes.len(),
{
    if outcomes.len() > 0 {
        let tail = outcomes.drop_first();
        assert(outcomes[0] == outcomes.first());
        if race_step(id, outcomes.len(), outcomes.first()) is Wait {
            law_race_takes_first_match(id, tail);
            assert(forall|j: int| 0 <= j < tail.len() ==> tail[j] == outcomes[j + 1]);
            match race_result(id, tail) {
                Some(p) => {
                    let i = choose|i: int|
                        {
                            &&& 0 <= i < tail.len()
                            &&& #[trigger] tail[i] == Some(p)
                            &&& is_matching_reply(id, Some(p))
                            &&& forall|j: int|
                                0 <= j < i ==> !is_matching_reply(id, #[trigger] tail[j])
                        };
                    assert(outcomes[i + 1] == Some(p));
                    assert forall|j: int| 0 <= j < i + 1 implies !is_matching_reply(
                        id,
                        #[trigger] outcomes[j],
                    ) by {
                        if j > 0 {
                            assert(tail[j - 1] == outcomes[j]);
                        }
                    }
                },
                None => {
                    assert forall|i: int| 0 <= i < outcomes.len() implies !is_matching_reply(
                        id,
                        #[trigger] outcomes[i],
                    ) by {
                        if i > 0 {
                            assert(tail[i - 1] == outcomes[i]);
                        }
                    }
                },
            }
        }
    }
}

/// A datagram that starts with the two octets of the query's identifier is the
/// answer, whatever its flags and whatever stands behind them, however many
/// upstreams are still out; a response bit, an error code or an empty rest
/// change nothing.
pub proof fn law_reply_with_the_id_is_the_answer(hi: u8, lo: u8, rest: Seq<u8>, pending: nat)
    ensures
        race_step((hi * 0x100 + lo) as nat, pending, Some(seq![hi, lo] + rest)) is Answer,
        race_result((hi * 0x100 + lo) as nat, seq![Some(seq![hi, lo] + rest)]) == Some(
            seq![hi, lo] + rest,
        ),
{
    let p = seq![hi, lo] + rest;
    assert(p[0] == hi && p[1] == lo);
    assert(seq![Some(p)].first() == Some(p));
}

/// Only such a datagram is: one with another identifier, one too short to have
/// one and an upstream that failed are passed over, and the race goes on while
/// another upstream is out.
pub proof fn law_stray_outcomes_are_passed_over(
    id: u16,
    pending: nat,
    outcome: Option<Seq<u8>>,
)
    requires
        outcome matches Some(p) ==> p.len() < 2 || p[0] * 0x100 + p[1] != id,
    ensures
        pending > 1 ==> race_step(id as nat, pending, outcome) is Wait,
        pending <= 1 ==> race_step(id as nat, pending, outcome) is Exhausted,
{
}

/// What a race comes to, on octets: outcomes that do not start with the
/// identifier leave it to those behind them, and the first that does is the
/// result, whatever comes later.
pub proof fn law_first_reply_with_the_id_wins(
    hi: u8,
    lo: u8,
    strays: Seq<Option<Seq<u8>>>,
    rest: Seq<u8>,
    later: Seq<Option<Seq<u8>>>,
)
    requires
        forall|i: int|
            #![trigger strays[i]]
            0 <= i < strays.len() ==> (strays[i] matches Some(p) ==> p.len() < 2 || p[0] != hi
                || p[1] != lo),
    ensures
        ({
            let id = (hi * 0x100 + lo) as nat;
            let reply = Some(seq![hi, lo] + rest);
            &&& race_result(id, strays + seq![reply] + later) == reply
            &&& race_result(id, strays) is None
        }),
    decreases strays.len(),
{
    let id = (hi * 0x100 + lo) as nat;
    let p = seq![hi, lo] + rest;
    let reply = Some(p);
    let all = strays + seq![reply] + later;
    assert(p[0] == hi && p[1] == lo);
    if strays.len() == 0 {
        assert(all.first() == reply);
    } else {
        let tail = strays.drop_first();
        assert(all.first() == strays[0] && strays.first() == strays[0]);
        assert(all.drop_first() =~= tail + seq![reply] + later);
        assert forall|i: int| #![trigger tail[i]] 0 <= i < tail.len() implies (tail[i] matches Some(
            p,
        ) ==> p.len() < 2 || p[0] != hi || p[1] != lo) by {
            assert(tail[i] == strays[i + 1]);
        }
        law_first_reply_with_the_id_wins(hi, lo, tail, rest, later);
    }
}

/// The identifier of a message is its first two octets, in network order.
pub proof fn law_message_id_is_the_first_word(hi: u8, lo: u8, rest: Seq<u8>)
    ensures
        message_id(seq![hi, lo] + rest) == hi * 0x100 + lo,
{
    let p = seq![hi, lo] + rest;
    assert(p[0] == hi && p[1] == lo);
}

/// The destination port alone decides which packets are intercepted: every
/// packet that is put together as IPv4 + UDP is, exactly where it goes to
/// port 53, whatever else its headers and its payload hold.
pub proof fn law_port_decides_interception(ip: Seq<u8>, udp: Seq<u8>, body: Seq<u8>)
    requires
        20 <= ip.len() <= 60,
        ip.len() % 4 == 0,
        ip[0] == 0x40 + ip.len() / 4,
        ip[9] == 17,
        udp.len() == 8,
        udp[4] * 0x100 + udp[5] >= 8,
    ensures
        is_dns_packet(ip + udp + body) <==> udp[2] == 0 && udp[3] == 53,
{
    crate::packet::law_built_packet_is_read(ip, udp, body);
}

/// No other packet is intercepted: not one that is no IPv4, carries no UDP or
/// is cut short.
pub proof fn law_other_traffic_is_left_alone(p: Seq<u8>)
    requires
        p.len() < 28 || p[0] < 0x40 || p[0] > 0x4F || p[9] != 17 || p.len() < (p[0] % 16) * 4 + 8,
    ensures
        !is_dns_packet(p),
{
    crate::packet::law_only_framing_is_judged(p);
}

/// The engine's resolver is asked for types 1 and 28, and for nothing else; a
/// query whose type cannot be read is not its own.
pub proof fn law_engine_answers_addresses_only(qtype: nat)
    ensures
        engine_answers(Some(qtype)) <==> qtype == 1 || qtype == 28,
        !engine_answers(None),
{
}

proof fn lemma_name_end_extends(p: Seq<u8>, more: Seq<u8>, pos: nat)
    ensures
        name_end(p, pos) matches Some(e) ==> name_end(p + more, pos) == Some(e),
        name_end(p, pos) matches Some(e) ==> e > pos,
    decreases
            (if pos < p.len() {
                p.len() - pos
            } else {
                0
            }),
{
    if pos < p.len() {
        assert((p + more)[pos as int] == p[pos as int]);
        if p[pos as int] != 0 && p[pos as int] < POINTER_MARK {
            lemma_name_end_extends(p, more, pos + 1 + p[pos as int] as nat);
        }
    }
}

/// What follows the question does not matter: a type that was read stays the
/// type however the message goes on.
pub proof fn law_qtype_is_stable_under_extension(p: Seq<u8>, more: Seq<u8>)
    requires
        first_qtype(p) is Some,
    ensures
        first_qtype(p + more) == first_qtype(p),
{
    let q = p + more;
    lemma_name_end_extends(p, more, 12);
    assert(q[4] == p[4] && q[5] == p[5]);
    let e = name_end(p, 12).unwrap() as int;
    assert(q[e] == p[e] && q[e + 1] == p[e + 1]);
}

/// A query that is cut before the end of the type of its first question has no
/// type, wherever the cut is; and a message without a question has none.
pub proof fn law_cut_query_has_no_qtype(
    header: Seq<u8>,
    labels: Seq<Seq<u8>>,
    qtype: u16,
    kept: int,
)
    requires
        header.len() == 12,
        plain_labels(labels),
        0 <= kept < query_wire(header, labels, qtype, Seq::empty()).len(),
    ensures
        first_qtype(query_wire(header, labels, qtype, Seq::empty()).take(kept)) is None,
        header[4] == 0 && header[5] == 0 ==> first_qtype(
            query_wire(header, labels, qtype, Seq::empty()),
        ) is None,
{
    let p = query_wire(header, labels, qtype, Seq::empty());
    let w = labels_wire(labels);
    let cut = p.take(kept);
    assert(p.subrange(12, (12 + w.len()) as int) =~= w);
    lemma_name_end_skips_labels(p, 12, labels);
    assert(p[12 + w.len() as int] == 0);
    assert(p[4] == header[4] && p[5] == header[5]);
    lemma_name_end_extends(cut, p.skip(kept), 12);
    assert(cut + p.skip(kept) =~= p);
}

/// A name that ends in a compression pointer after some labels is skipped up to
/// the end of the pointer; the pointer is not followed.
pub proof fn law_qtype_behind_labels_and_pointer_is_read(
    header: Seq<u8>,
    labels: Seq<Seq<u8>>,
    pointer: Seq<u8>,
    qtype: u16,
    rest: Seq<u8>,
)
    requires
        header.len() == 12,
        header[4] != 0 || header[5] != 0,
        plain_labels(labels),
        pointer.len() == 2,
        pointer[0] >= 0xC0,
    ensures
        first_qtype(
            header + labels_wire(labels) + pointer + seq![
                (qtype / 0x100) as u8,
                (qtype % 0x100) as u8,
            ] + rest,
        ) == Some(qtype as nat),
{
    let word = seq![(qtype / 0x100) as u8, (qtype % 0x100) as u8];
    let p = header + labels_wire(labels) + pointer + word + rest;
    let w = labels_wire(labels);
    assert(p.subrange(12, (12 + w.len()) as int) =~= w);
    lemma_name_end_skips_labels(p, 12, labels);
    assert(p[12 + w.len() as int] == pointer[0]);
    assert(p[4] == header[4] && p[5] == header[5]);
    let e = 14 + w.len() as int;
    assert(p[e] == word[0] && p[e + 1] == word[1]);
}

/// The wire form of a name is each label behind an octet with its length, label
/// after label, and a label may be as long as a length octet that is no pointer
/// says.
pub proof fn law_names_are_length_prefixed_labels(labels: Seq<Seq<u8>>, label: Seq<u8>)
    requires
        0 < label.len() < 0xC0,
    ensures
        labels_wire(Seq::empty()) == Seq::<u8>::empty(),
        labels_wire(seq![label] + labels) == seq![label.len() as u8] + label + labels_wire(labels),
        plain_labels(labels) ==> plain_labels(seq![label] + labels),
{
    let all = seq![label] + labels;
    assert(all.first() == label);
    assert(all.drop_first() =~= labels);
    if plain_labels(labels) {
        assert forall|i: int| 0 <= i < all.len() implies 0 < (#[trigger] all[i]).len()
            < POINTER_MARK by {
            if i > 0 {
                assert(all[i] == labels[i - 1]);
            }
        }
    }
}

/// A query for an address that comes in a packet to port 53 is intercepted and
/// goes to the engine, and any other query in such a packet is intercepted and
/// goes upstream, whatever the headers, the name and the flags of the query.
pub proof fn law_intercepted_queries_find_their_way(
    ip: Seq<u8>,
    udp: Seq<u8>,
    header: Seq<u8>,
    labels: Seq<Seq<u8>>,
    qtype: u16,
    rest: Seq<u8>,
)
    requires
        20 <= ip.len() <= 60,
        ip.len() % 4 == 0,
        ip[0] == 0x40 + ip.len() / 4,
        ip[9] == 17,
        udp.len() == 8,
        udp[2] == 0 && udp[3] == 53,
        udp[4] * 0x100 + udp[5] == 8 + query_wire(header, labels, qtype, rest).len(),
        header.len() == 12,
        header[4] != 0 || header[5] != 0,
        plain_labels(labels),
    ensures
        ({
            let query = query_wire(header, labels, qtype, rest);
            let packet = ip + udp + query;
            &&& is_dns_packet(packet)
            &&& crate::packet::udp_view(packet) matches Some(v)
            &&& v.payload == query
            &&& engine_answers(first_qtype(v.payload)) <==> qtype == 1 || qtype == 28
            &&& routed_to_engine(packet) == Some(qtype == 1 || qtype == 28)
        }),
{
    let query = query_wire(header, labels, qtype, rest);
    crate::packet::law_built_packet_is_read(ip, udp, query);
    law_qtype_of_query_is_read(header, labels, qtype, rest);
}

/// The upstream pool is the two pinned nameservers, in their order.
pub proof fn law_pool_is_the_pinned_nameservers()
    ensures
        crate::config::pinned_nameserver_texts() == seq!["119.29.29.29"@, "223.5.5.5"@],
{
}

/// A packet whose payload is too short for a DNS header, or has no question, is
/// no matter for the engine, and goes upstream all the same.
pub proof fn law_queries_without_a_type_go_upstream(ip: Seq<u8>, udp: Seq<u8>, body: Seq<u8>)
    requires
        20 <= ip.len() <= 60,
        ip.len() % 4 == 0,
        ip[0] == 0x40 + ip.len() / 4,
        ip[9] == 17,
        udp.len() == 8,
        udp[4] * 0x100 + udp[5] == 8 + body.len(),
        body.len() < 12 || (body[4] == 0 && body[5] == 0),
    ensures
        routed_to_engine(ip + udp + body) == Some(false),
{
    crate::packet::law_built_packet_is_read(ip, udp, body);
}

/// Which packets are intercepted, on octets: those with room for both headers
/// that say IPv4 and UDP, announce a UDP length that covers the UDP header, and
/// have 53 as their destination port.
pub proof fn law_interception_on_octets(p: Seq<u8>)
    ensures
        is_dns_packet(p) <==> p.len() >= 28 && {
            let h = (p[0] % 16) * 4;
            &&& 0x40 <= p[0] <= 0x4F
            &&& p[9] == 17
            &&& h + 8 <= p.len()
            &&& p[h + 4] * 0x100 + p[h + 5] >= 8
            &&& p[h + 2] == 0 && p[h + 3] == 53
        },
{
    crate::packet::law_only_framing_is_judged(p);
}

/// A query on the wire is its header as it is, its name, an empty label, its
/// type in network order and what follows.
pub proof fn law_queries_on_the_wire(
    header: Seq<u8>,
    labels: Seq<Seq<u8>>,
    qtype: u16,
    rest: Seq<u8>,
)
    ensures
        query_wire(header, labels, qtype, rest) == header + labels_wire(labels) + seq![
            0u8,
            (qtype / 0x100) as u8,
            (qtype % 0x100) as u8,
        ] + rest,
{
    assert(query_wire(header, labels, qtype, rest) =~= header + labels_wire(labels) + seq![
        0u8,
        (qtype / 0x100) as u8,
        (qtype % 0x100) as u8,
    ] + rest);
}

} // verus!
