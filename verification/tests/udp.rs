//! UDP sessions and their reply readers.

use meow_ios_ffi::net::{Endpoint, IpAddress};
use meow_ios_ffi::relay::{FlowMetadata, Network};
use meow_ios_ffi::tun2socks::Offered;
use meow_ios_ffi::udp::{
    reply_datagram, session_key, ReaderStep, ReplyReader, SessionRead, UdpAccept, UdpHandled,
    UdpKey, UdpSessions, UDP_BURST_CAP,
};

fn endpoint(port: u16) -> Endpoint {
    Endpoint::new(IpAddress::V4(0x0A00_0007), port)
}

fn key(port: u16) -> UdpKey {
    UdpKey { src: endpoint(port), remote: endpoint(443) }
}

#[test]
fn keys_take_the_resolved_address() {
    let src = endpoint(5_000);
    let m = FlowMetadata::new(Network::Udp, src, endpoint(443));
    let k = session_key(src, &m, IpAddress::V6(9));
    assert_eq!(k.src, src);
    assert_eq!(k.remote, Endpoint::new(IpAddress::V6(9), 443));
    assert_eq!(k.remote.scope_id, 0);
}

#[test]
fn live_sessions_are_capped() {
    let mut sessions = UdpSessions::new();
    let mut slot: u64 = 0;
    for i in 0..UDP_BURST_CAP {
        assert_eq!(sessions.on_datagram(&mut slot, 5_000), UdpAccept::Dispatch);
        assert_eq!(sessions.on_handled(key(i as u16), true), UdpHandled::StartReader);
    }
    assert_eq!(sessions.reader_count(), UDP_BURST_CAP);
    assert_eq!(
        sessions.on_datagram(&mut slot, 5_000),
        UdpAccept::Drop { warn: true }
    );
    assert_eq!(
        sessions.on_datagram(&mut slot, 5_001),
        UdpAccept::Drop { warn: false }
    );
    assert!(sessions.on_reader_exit(key(7)));
    assert_eq!(sessions.on_datagram(&mut slot, 5_002), UdpAccept::Dispatch);
    assert_eq!(
        sessions.on_datagram(&mut slot, 6_000),
        UdpAccept::Drop { warn: true }
    );
}

#[test]
fn dispatches_hold_permits_until_they_end() {
    let mut sessions = UdpSessions::new();
    let mut slot: u64 = 0;
    for _ in 0..UDP_BURST_CAP {
        assert_eq!(sessions.on_datagram(&mut slot, 0), UdpAccept::Dispatch);
    }
    assert!(matches!(
        sessions.on_datagram(&mut slot, 0),
        UdpAccept::Drop { .. }
    ));
    assert_eq!(sessions.dispatch_count(), UDP_BURST_CAP);
    sessions.on_abandoned();
    assert_eq!(sessions.dispatch_count(), UDP_BURST_CAP - 1);
    assert_eq!(sessions.on_datagram(&mut slot, 0), UdpAccept::Dispatch);
    assert_eq!(sessions.on_handled(key(1), false), UdpHandled::NoSession);
    assert_eq!(sessions.on_datagram(&mut slot, 0), UdpAccept::Dispatch);
}

#[test]
fn a_session_has_one_reader() {
    let mut sessions = UdpSessions::new();
    let mut slot: u64 = 0;
    for expected in [UdpHandled::StartReader, UdpHandled::AlreadyRead] {
        sessions.on_datagram(&mut slot, 0);
        assert_eq!(sessions.on_handled(key(1), true), expected);
    }
    sessions.on_datagram(&mut slot, 0);
    assert_eq!(sessions.on_handled(key(2), true), UdpHandled::StartReader);
    assert_eq!(sessions.reader_count(), 2);
    assert!(sessions.on_reader_exit(key(1)));
    assert!(!sessions.on_reader_exit(key(1)));
    assert_eq!(sessions.reader_count(), 1);
    sessions.on_datagram(&mut slot, 0);
    assert_eq!(sessions.on_handled(key(1), true), UdpHandled::StartReader);
    sessions.on_datagram(&mut slot, 0);
    assert_eq!(sessions.on_handled(key(2), false), UdpHandled::AlreadyRead);
}

#[test]
fn only_the_first_reply_has_a_deadline() {
    let mut reader = ReplyReader::new(4_200);
    assert_eq!(reader.limit_ms(), Some(4_200));
    assert_eq!(
        reader.on_read(SessionRead::Datagram { len: 3 }),
        ReaderStep::Inject { len: 3 }
    );
    assert_eq!(reader.limit_ms(), None);
    assert_eq!(reader.on_read(SessionRead::Failed), ReaderStep::Close);
    let mut silent = ReplyReader::new(10);
    assert_eq!(silent.on_read(SessionRead::TimedOut), ReaderStep::Evict);
    assert_eq!(ReplyReader::new(0).limit_ms(), None);
}

#[test]
fn a_backed_up_writer_ends_the_session() {
    let reader = ReplyReader::new(0);
    assert!(reader.on_offered(Offered::Taken));
    assert!(!reader.on_offered(Offered::Full));
    assert!(!reader.on_offered(Offered::Closed));
}

#[test]
fn replies_come_from_the_addressed_peer() {
    let buf = [1u8, 2, 3, 4];
    let reply = reply_datagram(&buf, 3, endpoint(5_000), endpoint(443));
    assert_eq!(reply.payload, vec![1, 2, 3]);
    assert_eq!(reply.src, endpoint(443));
    assert_eq!(reply.dst, endpoint(5_000));
}
