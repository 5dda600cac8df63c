//! One TCP flow: dial watchdog, activity and the end of the relay.

use meow_ios_ffi::net::{Endpoint, IpAddress};
use meow_ios_ffi::relay::{
    on_dispatch, relay_step, ConnType, DialStep, DialWatchdog, DispatchStep, FlowMetadata,
    IdleTracking, Network, ReadEffect, ReadPoll, RelayStep, WritePoll,
};

const NOW: u64 = 1_700_000_000_000;

/// Ticks a watchdog every 500 ms on a clock that starts at zero until it stops
/// sleeping or the limit is past. The stamp moves at `bump_at`, if it does.
fn run(deadline_ms: u64, bump_at: Option<u64>, limit_ms: u64) -> (Option<DialStep>, u64) {
    let mut dog = DialWatchdog::start(NOW, deadline_ms, 0);
    let mut clock: u64 = 0;
    while clock < limit_ms {
        clock += 500;
        let stamp = match bump_at {
            Some(at) if clock >= at => NOW + 1,
            _ => NOW,
        };
        match dog.tick(stamp, clock, stamp) {
            DialStep::Sleep => {}
            step => return (Some(step), clock),
        }
    }
    (None, clock)
}

#[test]
fn dial_watchdog_fires_when_relay_never_starts() {
    let (outcome, elapsed) = run(750, None, 3_000);
    assert_eq!(
        outcome,
        Some(DialStep::Fire),
        "watchdog did not resolve within outer 3 s guard"
    );
    assert!(
        elapsed < 1_500,
        "watchdog took {} ms, expected <1.5 s with a 750 ms deadline",
        elapsed
    );
    assert_eq!(elapsed, 1_000);
}

#[test]
fn dial_watchdog_parks_when_relay_starts_in_time() {
    let (outcome, _) = run(750, Some(200), 2_000);
    assert_eq!(
        outcome,
        Some(DialStep::Park),
        "watchdog fired despite the relay starting before the deadline"
    );
}

#[test]
fn dial_watchdog_zero_deadline_opts_out() {
    let (outcome, _) = run(0, None, 5_000);
    assert_eq!(
        outcome,
        Some(DialStep::Park),
        "0-ms deadline must opt out of the watchdog (parked forever)"
    );
    let mut dog = DialWatchdog::start(NOW, 0, 0);
    assert_eq!(dog.tick(NOW, u64::MAX, NOW), DialStep::Park);
}

#[test]
fn watchdog_fires_less_than_a_tick_late() {
    for deadline in [1u64, 499, 500, 501, 750, 10_000] {
        let (outcome, elapsed) = run(deadline, None, 20_000);
        assert_eq!(outcome, Some(DialStep::Fire));
        assert!(elapsed >= deadline && elapsed < deadline + 500);
    }
}

#[test]
fn watchdog_reads_the_stamp_again_at_the_deadline() {
    let mut dog = DialWatchdog::start(NOW, 500, 0);
    assert_eq!(dog.tick(NOW, 500, NOW + 1), DialStep::Park);
    assert_eq!(dog, DialWatchdog::Parked);
    assert_eq!(dog.tick(NOW, 10_000, NOW), DialStep::Park);
    // A deadline past the end of the clock does not overflow.
    let mut far = DialWatchdog::start(NOW, u64::MAX, u64::MAX);
    assert_eq!(far.tick(NOW, u64::MAX, NOW), DialStep::Sleep);
}

#[test]
fn polls_that_come_through_are_activity() {
    let mut io = IdleTracking::new();
    assert_eq!(
        io.on_read(ReadPoll::Ready { before: 3, after: 4 }),
        ReadEffect { touch: true, notify: false }
    );
    assert_eq!(
        io.on_read(ReadPoll::Pending),
        ReadEffect { touch: false, notify: false }
    );
    assert!(io.on_write(WritePoll::Ready { written: 1 }));
    assert!(io.on_write(WritePoll::Ready { written: 0 }));
    assert!(!io.on_write(WritePoll::Pending));
    assert!(!io.on_write(WritePoll::Failed));
}

#[test]
fn end_of_stream_is_reported_once() {
    let mut io = IdleTracking::new();
    assert_eq!(
        io.on_read(ReadPoll::Ready { before: 3, after: 3 }),
        ReadEffect { touch: true, notify: true }
    );
    assert_eq!(
        io.on_read(ReadPoll::Ready { before: 0, after: 0 }),
        ReadEffect { touch: true, notify: false }
    );
    assert_eq!(
        io.on_read(ReadPoll::Failed),
        ReadEffect { touch: false, notify: false }
    );
    let mut reset = IdleTracking::new();
    assert_eq!(
        reset.on_read(ReadPoll::Failed),
        ReadEffect { touch: false, notify: true }
    );
    assert!(reset.eof_fired);
}

#[test]
fn the_relay_ends_by_its_first_event() {
    assert_eq!(relay_step(false, false, false), RelayStep::Wait);
    assert_eq!(relay_step(true, true, true), RelayStep::Finish);
    assert_eq!(relay_step(false, true, true), RelayStep::Grace { ms: 250 });
    assert_eq!(relay_step(false, false, true), RelayStep::DropHung);
}

#[test]
fn metadata_names_both_ends() {
    let src = Endpoint::new(IpAddress::V4(1), 10);
    let dst = Endpoint::new(IpAddress::V6(2), 20);
    let m = FlowMetadata::new(Network::Tcp, src, dst);
    assert_eq!(m.network, Network::Tcp);
    assert_eq!((m.src_ip, m.src_port), (IpAddress::V4(1), 10));
    assert_eq!((m.dst_ip, m.dst_port), (IpAddress::V6(2), 20));
    assert_eq!(m.conn_type, ConnType::Inner);
    assert_eq!(m.host, "");
}

#[test]
fn flows_are_dropped_while_no_engine_runs() {
    let src = Endpoint::new(IpAddress::V4(1), 10);
    let dst = Endpoint::new(IpAddress::V6(2), 20);
    for network in [Network::Tcp, Network::Udp] {
        assert!(matches!(on_dispatch(network, false, src, dst), DispatchStep::Drop));
        let DispatchStep::Dispatch { metadata } = on_dispatch(network, true, src, dst) else {
            panic!("a running engine takes the flow");
        };
        assert_eq!(metadata.network, network);
        assert_eq!(metadata.conn_type, ConnType::Inner);
        assert_eq!((metadata.src_ip, metadata.src_port), (IpAddress::V4(1), 10));
        assert_eq!((metadata.dst_ip, metadata.dst_port), (IpAddress::V6(2), 20));
        assert_eq!(metadata.host, "");
    }
}
