//! DNS messages of the `hickory-proto` crate, as far as queries are answered
//! here: what a message holds, and the operations that read and build one.

use hickory_proto::op::{Message, MessageType, OpCode, Query, ResponseCode};
use hickory_proto::rr::rdata::A;
use hickory_proto::rr::{Name, RData, Record};
use hickory_proto::ProtoError;
use vstd::prelude::*;

verus! {

/// A domain name: its labels, and whether it is rooted.
pub ghost struct NameView {
    pub labels: Seq<Seq<u8>>,
    pub fqdn: bool,
}

/// A question.
pub ghost struct QuestionView {
    pub name: NameView,
    pub qtype: u16,
    pub qclass: u16,
}

/// A resource record, with its data as octets.
pub ghost struct RecordView {
    pub name: NameView,
    pub rtype: u16,
    pub class: u16,
    pub ttl: u32,
    pub data: Seq<u8>,
}

/// A message. The records beyond the answers, and the extension, stand
/// together as octets.
pub ghost struct MessageView {
    pub id: u16,
    pub response: bool,
    pub op_code: u8,
    pub authoritative: bool,
    pub truncated: bool,
    pub recursion_desired: bool,
    pub recursion_available: bool,
    pub authentic_data: bool,
    pub checking_disabled: bool,
    pub response_code: u16,
    pub questions: Seq<QuestionView>,
    pub answers: Seq<RecordView>,
    pub rest: Seq<u8>,
}

/// A message of the `hickory-proto` crate, opaque here.
#[verifier::external_type_specification]
#[verifier::external_body]
pub struct ExMessage(Message);

/// A question of the `hickory-proto` crate, opaque here.
#[verifier::external_type_specification]
#[verifier::external_body]
pub struct ExQuery(Query);

/// A domain name of the `hickory-proto` crate, opaque here.
#[verifier::external_type_specification]
#[verifier::external_body]
pub struct ExName(Name);

/// An error of the `hickory-proto` crate, opaque here.
#[verifier::external_type_specification]
#[verifier::external_body]
pub struct ExProtoError(ProtoError);

/// What a message holds.
pub uninterp spec fn message_of(m: Message) -> MessageView;

/// What a question holds.
pub uninterp spec fn question_of(q: Query) -> QuestionView;

/// What a domain name holds.
pub uninterp spec fn name_of(n: Name) -> NameView;

/// The presentation form of a domain name.
pub uninterp spec fn name_text(n: NameView) -> Seq<char>;

/// The message that octets decode to; `None` where they do not.
pub uninterp spec fn dns_decode(data: Seq<u8>) -> Option<MessageView>;

/// The octets that a message encodes to; `None` where it cannot be encoded.
pub uninterp spec fn dns_encode(m: MessageView) -> Option<Seq<u8>>;

/// A message with nothing set.
pub open spec fn blank_message() -> MessageView {
    MessageView {
        id: 0,
        response: false,
        op_code: 0,
        authoritative: false,
        truncated: false,
        recursion_desired: false,
        recursion_available: false,
        authentic_data: false,
        checking_disabled: false,
        response_code: 0,
        questions: Seq::empty(),
        answers: Seq::empty(),
        rest: Seq::empty(),
    }
}

/// `hickory_proto::op::Message::from_vec`. The claim: the result is the one
/// that [`dns_decode`] names.
#[verifier::external_body]
pub(crate) fn decode_message(data: &[u8]) -> (r: Result<Message, ProtoError>)
    ensures
        match r {
            Ok(m) => dns_decode(data@) == Some(message_of(m)),
            Err(_) => dns_decode(data@) is None,
        },
{
    Message::from_vec(data)
}

/// `hickory_proto::op::Message::to_vec`. The claim: the result is the one that
/// [`dns_encode`] names.
#[verifier::external_body]
pub(crate) fn encode_message(m: &Message) -> (r: Result<Vec<u8>, ProtoError>)
    ensures
        match r {
            Ok(data) => dns_encode(message_of(*m)) == Some(data@),
            Err(_) => dns_encode(message_of(*m)) is None,
        },
{
    m.to_vec()
}

/// `hickory_proto::op::Message::new`: nothing is set.
#[verifier::external_body]
pub(crate) fn new_message() -> (r: Message)
    ensures
        message_of(r) == blank_message(),
{
    Message::new()
}

/// `hickory_proto::op::Message::id`.
#[verifier::external_body]
pub(crate) fn message_id(m: &Message) -> (r: u16)
    ensures
        r == message_of(*m).id,
{
    m.id()
}

/// `hickory_proto::op::Message::recursion_desired`.
#[verifier::external_body]
pub(crate) fn recursion_desired(m: &Message) -> (r: bool)
    ensures
        r == message_of(*m).recursion_desired,
{
    m.recursion_desired()
}

/// `hickory_proto::op::Message::queries`: the questions, in order.
#[verifier::external_body]
pub(crate) fn questions(m: &Message) -> (r: &[Query])
    ensures
        r@.map_values(|q: Query| question_of(q)) == message_of(*m).questions,
{
    m.queries()
}

/// `hickory_proto::op::Query::name`.
#[verifier::external_body]
pub(crate) fn question_name(q: &Query) -> (r: &Name)
    ensures
        name_of(*r) == question_of(*q).name,
{
    q.name()
}

/// `hickory_proto::op::Query::query_type`, as a number.
#[verifier::external_body]
pub(crate) fn question_type(q: &Query) -> (r: u16)
    ensures
        r == question_of(*q).qtype,
{
    q.query_type().into()
}

/// `hickory_proto::op::Query::query_class`, as a number.
#[verifier::external_body]
pub(crate) fn question_class(q: &Query) -> (r: u16)
    ensures
        r == question_of(*q).qclass,
{
    q.query_class().into()
}

/// `hickory_proto::rr::Name::to_utf8`. The claim: it is the text that
/// [`name_text`] names.
#[verifier::external_body]
pub(crate) fn name_to_utf8(n: &Name) -> (r: String)
    ensures
        r@ == name_text(name_of(*n)),
{
    n.to_utf8()
}

/// `hickory_proto::op::Message::set_id`.
#[verifier::external_body]
pub(crate) fn set_id(m: &mut Message, id: u16)
    ensures
        message_of(*final(m)) == (MessageView { id, ..message_of(*old(m)) }),
{
    m.set_id(id);
}

/// `hickory_proto::op::Message::set_message_type` with the type of responses.
#[verifier::external_body]
pub(crate) fn set_response(m: &mut Message)
    ensures
        message_of(*final(m)) == (MessageView { response: true, ..message_of(*old(m)) }),
{
    m.set_message_type(MessageType::Response);
}

/// `hickory_proto::op::Message::set_op_code`, by number.
#[verifier::external_body]
pub(crate) fn set_op_code(m: &mut Message, op_code: u8)
    ensures
        message_of(*final(m)) == (MessageView { op_code, ..message_of(*old(m)) }),
{
    m.set_op_code(OpCode::from_u8(op_code));
}

/// `hickory_proto::op::Message::set_recursion_desired`.
#[verifier::external_body]
pub(crate) fn set_recursion_desired(m: &mut Message, recursion_desired: bool)
    ensures
        message_of(*final(m)) == (MessageView { recursion_desired, ..message_of(*old(m)) }),
{
    m.set_recursion_desired(recursion_desired);
}

/// `hickory_proto::op::Message::set_recursion_available`.
#[verifier::external_body]
pub(crate) fn set_recursion_available(m: &mut Message, recursion_available: bool)
    ensures
        message_of(*final(m)) == (MessageView { recursion_available, ..message_of(*old(m)) }),
{
    m.set_recursion_available(recursion_available);
}

/// `hickory_proto::op::Message::set_response_code`, by number; the codes of
/// the message header.
#[verifier::external_body]
pub(crate) fn set_response_code(m: &mut Message, code: u8)
    requires
        code <= 10,
    ensures
        message_of(*final(m)) == (MessageView {
            response_code: code as u16,
            ..message_of(*old(m))
        }),
{
    m.set_response_code(ResponseCode::from(0, code));
}

/// `hickory_proto::op::Message::add_query` of a copy of a question: it comes
/// last.
#[verifier::external_body]
pub(crate) fn add_question(m: &mut Message, q: &Query)
    ensures
        message_of(*final(m)) == (MessageView {
            questions: message_of(*old(m)).questions.push(question_of(*q)),
            ..message_of(*old(m))
        }),
{
    m.add_query(q.clone());
}

/// The octets of an IPv4 address.
pub open spec fn ipv4_octets(ip: u32) -> Seq<u8> {
    seq![
        (ip / 0x100_0000) as u8,
        (ip / 0x1_0000 % 0x100) as u8,
        (ip / 0x100 % 0x100) as u8,
        (ip % 0x100) as u8,
    ]
}

/// `hickory_proto::op::Message::add_answer` of an A record made by
/// `hickory_proto::rr::Record::from_rdata` and `set_dns_class`: it comes last,
/// with the name, the class, the time to live and the address.
#[verifier::external_body]
pub(crate) fn add_a_answer(m: &mut Message, name: &Name, class: u16, ttl: u32, ip: u32)
    ensures
        message_of(*final(m)) == (MessageView {
            answers: message_of(*old(m)).answers.push(
                (RecordView { name: name_of(*name), rtype: 1, class, ttl, data: ipv4_octets(ip) }),
            ),
            ..message_of(*old(m))
        }),
{
    let mut rec = Record::from_rdata(name.clone(), ttl, RData::A(A(ip.into())));
    rec.set_dns_class(class.into());
    m.add_answer(rec);
}

/// The octets of an IPv4 address are its number in network order.
pub proof fn law_ipv4_octets_are_network_order(a: u8, b: u8, c: u8, d: u8)
    ensures
        ipv4_octets((a * 0x100_0000 + b * 0x1_0000 + c * 0x100 + d) as u32) == seq![a, b, c, d],
{
    let ip = (a * 0x100_0000 + b * 0x1_0000 + c * 0x100 + d) as u32;
    assert(ip / 0x100_0000 == a && ip / 0x1_0000 % 0x100 == b);
    assert(ip / 0x100 % 0x100 == c && ip % 0x100 == d);
}

} // verus!
