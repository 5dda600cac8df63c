//! DNS answers over synthetic addresses.

use hickory_proto::op::{Message, MessageType, OpCode, Query, ResponseCode};
use hickory_proto::rr::rdata::A;
use hickory_proto::rr::{DNSClass, Name, RData, RecordType};
use meow_ios_ffi::fake_ip_dns::{
    answer_with_address, build_empty_noerror, build_fake_a_response, canonical_text, handle_query,
    plan_query, qname_to_host, QueryPlan,
};
use meow_ios_ffi::net::IpAddress;

fn question(qname: &str, qtype: RecordType) -> Query {
    let mut q = Query::new();
    q.set_name(Name::from_ascii(qname).unwrap());
    q.set_query_type(qtype);
    q.set_query_class(DNSClass::IN);
    q
}

fn build_query(qname: &str, qtype: RecordType) -> Vec<u8> {
    let mut msg = Message::new();
    msg.set_id(0x4242);
    msg.set_message_type(MessageType::Query);
    msg.set_op_code(OpCode::Query);
    msg.set_recursion_desired(true);
    msg.add_query(question(qname, qtype));
    msg.to_vec().unwrap()
}

#[test]
fn aaaa_query_returns_empty_noerror() {
    let raw = build_query("test-aaaa.example.com.", RecordType::AAAA);
    let msg = Message::from_vec(&raw).unwrap();
    let bytes = build_empty_noerror(&msg);
    let parsed = Message::from_vec(&bytes).expect("response parses");

    assert_eq!(parsed.id(), 0x4242);
    assert_eq!(parsed.response_code(), ResponseCode::NoError);
    assert_eq!(parsed.answers().len(), 0, "AAAA must have zero answers");
    assert_eq!(parsed.queries().len(), 1, "echo question section");
}

#[test]
fn malformed_bytes_fail_parse_without_panic() {
    for garbage in [vec![], vec![0xff; 3], vec![0u8; 11], vec![0xaa; 600]] {
        assert!(
            matches!(handle_query(&garbage), QueryPlan::Drop),
            "expected parse-failure or zero-question for garbage of len {}",
            garbage.len()
        );
        assert!(
            Message::from_vec(&garbage).is_err()
                || Message::from_vec(&garbage)
                    .map(|m| m.queries().is_empty())
                    .unwrap_or(false),
            "expected parse-failure or zero-question for garbage of len {}",
            garbage.len()
        );
    }
}

#[test]
fn qname_canonicalization() {
    let n = Name::from_ascii("Example.COM.").unwrap();
    assert_eq!(qname_to_host(&n), "example.com");
}

#[test]
fn canonical_form_strips_one_dot_and_lowers_ascii() {
    assert_eq!(canonical_text("WWW.Example.COM."), "www.example.com");
    assert_eq!(canonical_text("www.example.com"), "www.example.com");
    assert_eq!(canonical_text("a.."), "a.");
    assert_eq!(canonical_text("."), "");
    assert_eq!(canonical_text(""), "");
    assert_eq!(canonical_text("\u{00C4}B"), "\u{00C4}b");
    assert_eq!(canonical_text(&canonical_text("X.Y.")), canonical_text("X.Y."));
}

#[test]
fn a_query_is_answered_with_the_given_address() {
    let raw = build_query("test-a.example.com.", RecordType::A);
    let (query, host) = match handle_query(&raw) {
        QueryPlan::Allocate { query, host } => (query, host),
        _ => panic!("A queries need an address"),
    };
    assert_eq!(host, "test-a.example.com");
    let bytes = answer_with_address(&query, IpAddress::V4(0x1C00_0005)).expect("has a question");
    let parsed = Message::from_vec(&bytes).expect("response parses");
    assert_eq!(parsed.id(), 0x4242);
    assert_eq!(parsed.message_type(), MessageType::Response);
    assert_eq!(parsed.op_code(), OpCode::Query);
    assert_eq!(parsed.response_code(), ResponseCode::NoError);
    assert!(parsed.recursion_desired());
    assert!(parsed.recursion_available());
    assert_eq!(parsed.queries().len(), 1);
    assert_eq!(parsed.answers().len(), 1);
    let ans = &parsed.answers()[0];
    assert_eq!(ans.ttl(), 60);
    assert_eq!(ans.dns_class(), DNSClass::IN);
    assert_eq!(ans.name(), &Name::from_ascii("test-a.example.com.").unwrap());
    let RData::A(A(ip)) = ans.data() else {
        panic!("expected A record");
    };
    assert_eq!(ip.octets(), [28, 0, 0, 5]);
}

#[test]
fn addresses_that_are_not_ipv4_answer_the_unspecified_one() {
    let raw = build_query("v6.example.", RecordType::A);
    let msg = Message::from_vec(&raw).unwrap();
    let name = Name::from_ascii("v6.example.").unwrap();
    let bytes = build_fake_a_response(&msg, &name, 3, IpAddress::V6(1));
    let parsed = Message::from_vec(&bytes).expect("response parses");
    let RData::A(A(ip)) = parsed.answers()[0].data() else {
        panic!("expected A record");
    };
    assert_eq!(ip.octets(), [0, 0, 0, 0]);
    assert_eq!(parsed.answers()[0].dns_class(), DNSClass::CH);
}

#[test]
fn the_first_question_routes_the_query() {
    let mut msg = Message::new();
    msg.set_id(7);
    msg.add_query(question("first.example.", RecordType::A));
    msg.add_query(question("second.example.", RecordType::AAAA));
    match plan_query(msg.clone()) {
        QueryPlan::Allocate { query, host } => {
            assert_eq!(host, "first.example");
            let bytes = answer_with_address(&query, IpAddress::V4(1)).expect("has a question");
            let parsed = Message::from_vec(&bytes).unwrap();
            assert_eq!(parsed.answers().len(), 1);
            assert_eq!(parsed.queries().len(), 2);
            assert!(!parsed.recursion_desired());
            assert_eq!(
                parsed.answers()[0].name(),
                &Name::from_ascii("first.example.").unwrap()
            );
        }
        _ => panic!("the first question asks for A"),
    }
    let mut reversed = Message::new();
    reversed.add_query(question("second.example.", RecordType::AAAA));
    reversed.add_query(question("first.example.", RecordType::A));
    match plan_query(reversed) {
        QueryPlan::Reply(bytes) => {
            let parsed = Message::from_vec(&bytes).unwrap();
            assert_eq!(parsed.answers().len(), 0);
            assert_eq!(parsed.queries().len(), 2);
        }
        _ => panic!("the first question asks for AAAA"),
    }
}

#[test]
fn other_types_are_delegated_and_no_question_is_dropped() {
    let raw = build_query("example.com.", RecordType::TXT);
    assert!(matches!(handle_query(&raw), QueryPlan::Delegate));
    assert!(matches!(plan_query(Message::new()), QueryPlan::Drop));
    assert!(answer_with_address(&Message::new(), IpAddress::V4(1)).is_none());
}
