//! DNS answers over synthetic addresses: A queries are answered with an
//! address from the pool, AAAA queries with an empty answer so that clients
//! fall back to A, and everything else is the engine resolver's.

use crate::dns::{QTYPE_A, QTYPE_AAAA};
use crate::message::{
    add_a_answer, add_question, decode_message, encode_message, message_id, name_to_utf8,
    new_message, question_class, question_name, question_type, questions, recursion_desired,
    set_id, set_op_code, set_recursion_available, set_recursion_desired, set_response,
    set_response_code, MessageView, NameView, QuestionView, RecordView,
};
use crate::net::IpAddress;
use hickory_proto::op::{Message, Query};
use hickory_proto::rr::Name;
use vstd::prelude::*;
use vstd::string::StrSliceExecFns;

verus! {

/// Time to live of a synthetic answer. It is short so that clients come back
/// while the pool's entry is still live.
pub const FAKE_A_TTL: u32 = 60;

/// An ASCII letter in lower case; any other character as it is.
pub open spec fn ascii_lower(c: char) -> char {
    if 'A' <= c && c <= 'Z' {
        (c as u32 + 32) as char
    } else {
        c
    }
}

/// `str::to_ascii_lowercase`: ASCII letters in lower case, everything else as
/// it is.
#[verifier::external_body]
fn to_lower(s: &str) -> (r: String)
    ensures
        r@ == s@.map_values(|c: char| ascii_lower(c)),
{
    s.to_ascii_lowercase()
}

/// A text without one dot at its end.
pub open spec fn without_trailing_dot(text: Seq<char>) -> Seq<char> {
    if text.len() > 0 && text.last() == '.' {
        text.drop_last()
    } else {
        text
    }
}

/// The host that the pool knows a name by.
pub open spec fn canonical_host(text: Seq<char>) -> Seq<char> {
    without_trailing_dot(text).map_values(|c: char| ascii_lower(c))
}

/// The presentation form of a name in lower case and without its trailing dot:
/// the same canonical form that the pool keeps, so that reverse lookups land on
/// the same key.
pub fn qname_to_host(name: &Name) -> (r: String)
    ensures
        r@ == canonical_host(crate::message::name_text(crate::message::name_of(*name))),
{
    let s = name_to_utf8(name);
    canonical_text(s.as_str())
}

/// The canonical form of a host name in presentation form.
pub fn canonical_text(s: &str) -> (r: String)
    ensures
        r@ == canonical_host(s@),
{
    let n: usize = s.unicode_len();
    if n > 0 && s.get_char(n - 1) == '.' {
        let trimmed = s.substring_char(0, n - 1);
        assert(trimmed@ =~= s@.drop_last());
        to_lower(trimmed)
    } else {
        to_lower(s)
    }
}

/// A reply to a query without answers yet: its identifier, its wish for
/// recursion and its questions come back, recursion is available, and there is
/// no error.
pub open spec fn reply_to(query: MessageView) -> MessageView {
    MessageView {
        id: query.id,
        response: true,
        op_code: 0,
        recursion_desired: query.recursion_desired,
        recursion_available: true,
        response_code: 0,
        questions: query.questions,
        ..crate::message::blank_message()
    }
}

/// The reply with one address.
pub open spec fn address_reply(
    query: MessageView,
    name: NameView,
    class: u16,
    ip: u32,
) -> MessageView {
    MessageView {
        answers: seq![
            RecordView {
                name,
                rtype: QTYPE_A,
                class,
                ttl: FAKE_A_TTL,
                data: crate::message::ipv4_octets(ip),
            },
        ],
        ..reply_to(query)
    }
}

/// The octets of a reply; none where it cannot be encoded.
pub open spec fn reply_octets(reply: MessageView) -> Seq<u8> {
    match crate::message::dns_encode(reply) {
        Some(data) => data,
        None => Seq::empty(),
    }
}

/// The IPv4 address that is answered for an address of the pool. The pool
/// hands out IPv4 addresses; anything else is answered with the unspecified
/// one.
pub open spec fn answered_ip(ip: IpAddress) -> u32 {
    match ip {
        IpAddress::V4(v4) => v4,
        IpAddress::V6(_) => 0,
    }
}

/// Starts the reply to a query.
fn start_reply(query: &Message) -> (r: Message)
    ensures
        crate::message::message_of(r) == reply_to(crate::message::message_of(*query)),
{
    let mut resp = new_message();
    set_id(&mut resp, message_id(query));
    set_response(&mut resp);
    set_op_code(&mut resp, 0);
    set_recursion_desired(&mut resp, recursion_desired(query));
    set_recursion_available(&mut resp, true);
    set_response_code(&mut resp, 0);
    let qs = questions(query);
    let ghost views = qs@.map_values(|q: Query| crate::message::question_of(q));
    let ghost started = crate::message::message_of(resp);
    assert(started.questions =~= views.take(0));
    let mut i: usize = 0;
    while i < qs.len()
        invariant
            i <= qs@.len(),
            views == qs@.map_values(|q: Query| crate::message::question_of(q)),
            crate::message::message_of(resp) == (MessageView {
                questions: views.take(i as int),
                ..started
            }),
        decreases qs@.len() - i,
    {
        add_question(&mut resp, &qs[i]);
        assert(views.take(i + 1) =~= views.take(i as int).push(views[i as int]));
        i = i + 1;
    }
    assert(views.take(i as int) =~= views);
    resp
}

/// The octets of a message; none where it cannot be encoded.
fn octets_of(m: &Message) -> (r: Vec<u8>)
    ensures
        r@ == reply_octets(crate::message::message_of(*m)),
{
    match encode_message(m) {
        Ok(data) => data,
        Err(_) => Vec::new(),
    }
}

/// Builds a single-answer A response with the address that the pool gave for
/// the host.
pub fn build_fake_a_response(query: &Message, qname: &Name, class: u16, ip: IpAddress) -> (r: Vec<
    u8,
>)
    ensures
        r@ == reply_octets(
            address_reply(
                crate::message::message_of(*query),
                crate::message::name_of(*qname),
                class,
                answered_ip(ip),
            ),
        ),
        ip matches IpAddress::V4(v4) ==> r@ == reply_octets(
            address_reply(
                crate::message::message_of(*query),
                crate::message::name_of(*qname),
                class,
                v4,
            ),
        ),
{
    let v4: u32 = match ip {
        IpAddress::V4(v4) => v4,
        IpAddress::V6(_) => 0,
    };
    let mut resp = start_reply(query);
    add_a_answer(&mut resp, qname, class, FAKE_A_TTL, v4);
    proof {
        let expected = address_reply(
            crate::message::message_of(*query),
            crate::message::name_of(*qname),
            class,
            v4,
        );
        assert(crate::message::message_of(resp).answers =~= expected.answers);
        assert(crate::message::message_of(resp) == expected);
    }
    octets_of(&resp)
}

/// Builds an empty response without an error, for AAAA: there is no such
/// address, and no reason to retry.
pub fn build_empty_noerror(query: &Message) -> (r: Vec<u8>)
    ensures
        r@ == reply_octets(reply_to(crate::message::message_of(*query))),
{
    let resp = start_reply(query);
    octets_of(&resp)
}

/// Who answers a query, by the first of its questions.
#[derive(Clone, Copy, PartialEq, Eq, Structural, Debug)]
pub enum QueryRoute {
    /// There is no question: nobody.
    NoQuestion,
    /// An address from the pool.
    FakeAddress,
    /// An empty answer.
    Empty,
    /// The engine's resolver.
    Delegate,
}

/// The route of a query with the given questions.
pub open spec fn route_of(questions: Seq<QuestionView>) -> QueryRoute {
    if questions.len() == 0 {
        QueryRoute::NoQuestion
    } else if questions[0].qtype == QTYPE_A {
        QueryRoute::FakeAddress
    } else if questions[0].qtype == QTYPE_AAAA {
        QueryRoute::Empty
    } else {
        QueryRoute::Delegate
    }
}

/// What is done with a query.
pub enum QueryPlan {
    /// Nothing: it cannot be read or has no question.
    Drop,
    /// The host needs an address from the pool; the query is answered with it.
    Allocate { query: Message, host: String },
    /// These octets are the answer.
    Reply(Vec<u8>),
    /// The engine's resolver is asked; what it answers is the answer, and if it
    /// fails there is none.
    Delegate,
}

/// What is done with a decoded query.
pub open spec fn is_plan_for(plan: QueryPlan, query: MessageView) -> bool {
    match route_of(query.questions) {
        QueryRoute::NoQuestion => plan is Drop,
        QueryRoute::FakeAddress => plan matches QueryPlan::Allocate { query: q, host }
            && crate::message::message_of(q) == query && host@ == canonical_host(
            crate::message::name_text(query.questions[0].name),
        ),
        QueryRoute::Empty => plan matches QueryPlan::Reply(data) && data@ == reply_octets(
            reply_to(query),
        ),
        QueryRoute::Delegate => plan is Delegate,
    }
}

/// Routes a decoded query by its first question. Resolvers in the field never
/// mix types across questions; if one does, the first decides.
pub fn plan_query(query: Message) -> (r: QueryPlan)
    ensures
        is_plan_for(r, crate::message::message_of(query)),
{
    let qs = questions(&query);
    let ghost views = crate::message::message_of(query).questions;
    if qs.len() == 0 {
        assert(views.len() == 0);
        return QueryPlan::Drop;
    }
    assert(views[0] == crate::message::question_of(qs@[0]));
    let qtype = question_type(&qs[0]);
    if qtype == QTYPE_A {
        let host = qname_to_host(question_name(&qs[0]));
        QueryPlan::Allocate { query, host }
    } else if qtype == QTYPE_AAAA {
        QueryPlan::Reply(build_empty_noerror(&query))
    } else {
        QueryPlan::Delegate
    }
}

/// Decodes a query and decides what is done with it.
pub fn handle_query(data: &[u8]) -> (r: QueryPlan)
    ensures
        match crate::message::dns_decode(data@) {
            None => r is Drop,
            Some(query) => is_plan_for(r, query),
        },
{
    match decode_message(data) {
        Err(_) => QueryPlan::Drop,
        Ok(query) => plan_query(query),
    }
}

/// The answer to a query for which the pool gave an address: it names the first
/// question. `None` for a query without a question.
pub fn answer_with_address(query: &Message, ip: IpAddress) -> (r: Option<Vec<u8>>)
    ensures
        ({
            let view = crate::message::message_of(*query);
            match r {
                None => view.questions.len() == 0,
                Some(data) => view.questions.len() > 0 && data@ == reply_octets(
                    address_reply(
                        view,
                        view.questions[0].name,
                        view.questions[0].qclass,
                        answered_ip(ip),
                    ),
                ),
            }
        }),
        ({
            let view = crate::message::message_of(*query);
            match (ip, r) {
                (IpAddress::V4(v4), Some(data)) => data@ == reply_octets(
                    address_reply(view, view.questions[0].name, view.questions[0].qclass, v4),
                ),
                _ => true,
            }
        }),
{
    let qs = questions(query);
    let ghost views = crate::message::message_of(*query).questions;
    assert(views.len() == qs@.len());
    if qs.len() == 0 {
        return None;
    }
    assert(views[0] == crate::message::question_of(qs@[0]));
    Some(
        build_fake_a_response(query, question_name(&qs[0]), question_class(&qs[0]), ip),
    )
}

/// Every reply carries the identifier and the questions of its query, is marked
/// as a response without an error, and has one answer for an address and none
/// for an empty one.
pub proof fn law_replies_echo_the_query(query: MessageView, name: NameView, class: u16, ip: u32)
    ensures
        ({
            let empty = reply_to(query);
            let full = address_reply(query, name, class, ip);
            &&& empty.id == query.id && full.id == query.id
            &&& empty.questions == query.questions && full.questions == query.questions
            &&& empty.response && full.response
            &&& empty.response_code == 0 && full.response_code == 0
            &&& empty.answers.len() == 0
            &&& full.answers.len() == 1
            &&& full.answers[0].name == name && full.answers[0].ttl == FAKE_A_TTL
        }),
{
}

/// The canonical form of a host is canonical already, and it does not depend on
/// the case of its ASCII letters or on a trailing dot.
pub proof fn law_canonical_host_is_stable(text: Seq<char>)
    requires
        without_trailing_dot(text).len() > 0 ==> without_trailing_dot(text).last() != '.',
    ensures
        canonical_host(canonical_host(text)) == canonical_host(text),
        canonical_host(without_trailing_dot(text) + seq!['.']) == canonical_host(text),
        canonical_host(text.map_values(|c: char| ascii_lower(c))) == canonical_host(text),
{
    let bare = without_trailing_dot(text);
    let host = canonical_host(text);
    assert(forall|c: char| #[trigger] ascii_lower(c) == '.' ==> c == '.');
    if host.len() > 0 {
        assert(host.last() == ascii_lower(bare.last()));
    }
    assert(forall|c: char| ascii_lower(#[trigger] ascii_lower(c)) == ascii_lower(c));
    assert(canonical_host(host) =~= host);
    assert((bare + seq!['.']).drop_last() =~= bare);
    let lower = text.map_values(|c: char| ascii_lower(c));
    if text.len() > 0 {
        assert(lower.last() == ascii_lower(text.last()));
    }
    assert(without_trailing_dot(lower) =~= bare.map_values(|c: char| ascii_lower(c)));
    assert(canonical_host(lower) =~= host);
}

/// The answer carries the pool's address, all of it: four octets in network
/// order, in one A record of the class and under the name that were given, to
/// live for a minute. An address that is no IPv4 is answered with the
/// unspecified one.
pub proof fn law_answer_is_the_pools_address(
    query: MessageView,
    name: NameView,
    class: u16,
    v4: u32,
    v6: u128,
)
    ensures
        ({
            let full = address_reply(query, name, class, answered_ip(IpAddress::V4(v4)));
            let data = full.answers[0].data;
            &&& full.answers.len() == 1
            &&& data.len() == 4
            &&& data[0] * 0x100_0000 + data[1] * 0x1_0000 + data[2] * 0x100 + data[3] == v4
            &&& full.answers[0].rtype == 1
            &&& full.answers[0].class == class
            &&& full.answers[0].name == name
            &&& full.answers[0].ttl == 60
        }),
        address_reply(query, name, class, answered_ip(IpAddress::V6(v6))).answers[0].data == seq![
            0u8,
            0u8,
            0u8,
            0u8,
        ],
{
    let data = crate::message::ipv4_octets(v4);
    assert(v4 == (v4 / 0x100_0000) * 0x100_0000 + (v4 / 0x1_0000 % 0x100) * 0x1_0000 + (v4 / 0x100
        % 0x100) * 0x100 + v4 % 0x100);
    assert(crate::message::ipv4_octets(0) =~= seq![0u8, 0u8, 0u8, 0u8]);
}

/// Two addresses of the pool give two answers: no host is ever answered with
/// the address of another.
pub proof fn law_distinct_addresses_are_answered_apart(
    query: MessageView,
    name: NameView,
    class: u16,
    a: u32,
    b: u32,
)
    requires
        a != b,
    ensures
        address_reply(query, name, class, answered_ip(IpAddress::V4(a))) != address_reply(
            query,
            name,
            class,
            answered_ip(IpAddress::V4(b)),
        ),
{
    law_answer_is_the_pools_address(query, name, class, a, 0);
    law_answer_is_the_pools_address(query, name, class, b, 0);
}

/// Apart from its answers a reply is the query turned round: the identifier, the
/// questions in their order and the wish for recursion are the query's, it is a
/// response to a standard query with recursion available and without an error,
/// and nothing else is set or added.
pub proof fn law_reply_is_the_query_turned_round(
    query: MessageView,
    name: NameView,
    class: u16,
    ip: u32,
)
    ensures
        forall|reply: MessageView|
            reply == reply_to(query) || reply == address_reply(query, name, class, ip) ==> {
                &&& #[trigger] reply.id == query.id
                &&& reply.questions == query.questions
                &&& reply.recursion_desired == query.recursion_desired
                &&& reply.response
                &&& reply.recursion_available
                &&& reply.op_code == 0
                &&& reply.response_code == 0
                &&& !reply.authoritative
                &&& !reply.truncated
                &&& !reply.authentic_data
                &&& !reply.checking_disabled
                &&& reply.rest == Seq::<u8>::empty()
            },
        reply_to(query).answers == Seq::<RecordView>::empty(),
{
}

/// What goes out for a reply is its encoding, octet for octet, wherever it has
/// one.
pub proof fn law_reply_goes_out_as_encoded(reply: MessageView, data: Seq<u8>)
    ensures
        crate::message::dns_encode(reply) == Some(data) ==> reply_octets(reply) == data,
        crate::message::dns_encode(reply) is None ==> reply_octets(reply).len() == 0,
{
}

/// The first question decides over a query, by its type alone: type 1 gets an
/// address, type 28 an empty answer, any other type is delegated, and only a
/// query without a question gets nothing. Later questions, names and classes
/// make no difference.
pub proof fn law_first_question_decides(first: QuestionView, later: Seq<QuestionView>)
    ensures
        ({
            let route = route_of(seq![first] + later);
            &&& route is FakeAddress <==> first.qtype == 1
            &&& route is Empty <==> first.qtype == 28
            &&& route is Delegate <==> first.qtype != 1 && first.qtype != 28
        }),
        route_of(Seq::empty()) is NoQuestion,
{
    assert((seq![first] + later)[0] == first);
}

/// A plan does what the first question asks for: for an address the pool is
/// asked under the name of the question, in lower case and without one dot at
/// its end, and the query is kept as it came; for type 28 the empty answer is
/// ready; a query without a question is dropped.
pub proof fn law_plans_follow_the_first_question(plan: QueryPlan, query: MessageView)
    requires
        is_plan_for(plan, query),
    ensures
        query.questions.len() == 0 ==> plan is Drop,
        query.questions.len() > 0 && query.questions[0].qtype == 1 ==> {
            let text = crate::message::name_text(query.questions[0].name);
            let n = if text.len() > 0 && text.last() == '.' {
                text.len() - 1
            } else {
                text.len() as int
            };
            &&& plan matches QueryPlan::Allocate { query: kept, host }
            &&& crate::message::message_of(kept) == query
            &&& host@.len() == n
            &&& forall|i: int|
                0 <= i < n ==> #[trigger] host@[i] == if 'A' <= text[i] <= 'Z' {
                    (text[i] as u32 + 32) as char
                } else {
                    text[i]
                }
        },
        query.questions.len() > 0 && query.questions[0].qtype == 28 ==> {
            &&& plan matches QueryPlan::Reply(data)
            &&& crate::message::dns_encode(reply_to(query)) matches Some(octets) ==> data@ == octets
        },
        query.questions.len() > 0 && query.questions[0].qtype != 1 && query.questions[0].qtype != 28
            ==> plan is Delegate,
{
}

/// Two names are one host to the pool exactly where they differ in the case of
/// ASCII letters or in one dot at the end, and in nothing else.
pub proof fn law_hosts_differ_where_names_do(a: Seq<char>, b: Seq<char>)
    requires
        a.len() > 0 ==> a.last() != '.',
        b.len() > 0 ==> b.last() != '.',
    ensures
        canonical_host(a) == canonical_host(b) <==> a.len() == b.len() && forall|i: int|
            0 <= i < a.len() ==> {
                ||| #[trigger] a[i] == b[i]
                ||| 'A' <= a[i] <= 'Z' && b[i] as u32 == a[i] as u32 + 32
                ||| 'A' <= b[i] <= 'Z' && a[i] as u32 == b[i] as u32 + 32
            },
        canonical_host(a.push('.')) == canonical_host(a),
        canonical_host(a).len() == a.len(),
        (forall|i: int| 0 <= i < a.len() ==> !('A' <= #[trigger] a[i] <= 'Z')) ==> canonical_host(a)
            == a,
{
    let ha = canonical_host(a);
    let hb = canonical_host(b);
    assert(a.push('.').drop_last() =~= a);
    assert(forall|i: int| 0 <= i < a.len() ==> ha[i] == ascii_lower(#[trigger] a[i]));
    assert(forall|i: int| 0 <= i < b.len() ==> hb[i] == ascii_lower(#[trigger] b[i]));
    if ha == hb {
        assert(a.len() == ha.len() && b.len() == hb.len());
        assert forall|i: int| 0 <= i < a.len() implies {
            ||| #[trigger] a[i] == b[i]
            ||| 'A' <= a[i] <= 'Z' && b[i] as u32 == a[i] as u32 + 32
            ||| 'A' <= b[i] <= 'Z' && a[i] as u32 == b[i] as u32 + 32
        } by {
            assert(ascii_lower(a[i]) == ascii_lower(b[i]));
        }
    }
    if a.len() == b.len() && forall|i: int|
        0 <= i < a.len() ==> {
            ||| #[trigger] a[i] == b[i]
            ||| 'A' <= a[i] <= 'Z' && b[i] as u32 == a[i] as u32 + 32
            ||| 'A' <= b[i] <= 'Z' && a[i] as u32 == b[i] as u32 + 32
        } {
        assert forall|i: int| 0 <= i < a.len() implies ha[i] == hb[i] by {
            assert(a[i] == a[i]);
        }
        assert(ha =~= hb);
    }
    if forall|i: int| 0 <= i < a.len() ==> !('A' <= #[trigger] a[i] <= 'Z') {
        assert(ha =~= a);
    }
}

} // verus!
