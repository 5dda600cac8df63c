//! Settings, lifecycle and the steps of the tunnel's loops.

use meow_ios_ffi::flows::{ClosedFlow, FlowTable};
use meow_ios_ffi::net::{Endpoint, IpAddress};
use meow_ios_ffi::tun2socks::{
    accept_cap, dial_deadline_ms, ingest, meow_active_tcp_conns, now_ms, on_egress, on_forwarded,
    on_ingress, on_stack_event, on_sweep_tick, on_tcp_accept, on_tcp_end, on_tunnel_exit, on_watchdog_tick,
    set_accept_cap, set_dial_deadline_ms, set_udp_first_reply_deadline_ms, start, stop,
    udp_first_reply_deadline_ms, warn_capped, AcceptStep, ActiveTcpGuard, ForwardStep,
    IngressStep, Offered, Permits, StackEvent, StackStep, TunnelSettings, TunnelState,
};
use std::sync::{Arc, Mutex};

fn endpoint(port: u16) -> Endpoint {
    Endpoint::new(IpAddress::V4(0x7F00_0001), port)
}

fn dns_packet() -> Vec<u8> {
    let mut pkt: Vec<u8> = vec![
        0x45, 0x00, 0x00, 0x20, 0x12, 0x34, 0x40, 0x00, 0x40, 0x11, 0x00, 0x00, 10, 0, 0, 7, 172,
        19, 0, 2,
    ];
    pkt.extend_from_slice(&[0xD4, 0x31, 0x00, 0x35, 0x00, 0x0C, 0x00, 0x00]);
    pkt.extend_from_slice(b"QQQQ");
    pkt
}

#[test]
fn dial_deadline_ms_roundtrip_and_zero_disables() {
    let mut settings = TunnelSettings::default();
    let prev = dial_deadline_ms(&settings);
    assert_eq!(prev, 10_000);
    assert!(set_dial_deadline_ms(&mut settings, 7_500));
    assert_eq!(dial_deadline_ms(&settings), 7_500);
    assert!(set_dial_deadline_ms(&mut settings, 0));
    assert_eq!(dial_deadline_ms(&settings), 0, "0 must be accepted to opt out");
    set_dial_deadline_ms(&mut settings, prev);
    assert_eq!(settings, TunnelSettings::default());
}

#[test]
fn udp_first_reply_deadline_ms_roundtrip_and_zero_disables() {
    let mut settings = TunnelSettings::default();
    let prev = udp_first_reply_deadline_ms(&settings);
    assert_eq!(prev, 10_000);
    assert!(set_udp_first_reply_deadline_ms(&mut settings, 4_200));
    assert_eq!(udp_first_reply_deadline_ms(&settings), 4_200);
    assert!(set_udp_first_reply_deadline_ms(&mut settings, 0));
    assert_eq!(
        udp_first_reply_deadline_ms(&settings),
        0,
        "0 must be accepted to opt out"
    );
    set_udp_first_reply_deadline_ms(&mut settings, prev);
    assert_eq!(settings, TunnelSettings::default());
}

#[test]
fn accept_cap_refuses_zero() {
    let mut settings = TunnelSettings::default();
    assert_eq!(accept_cap(&settings), 32);
    assert!(!set_accept_cap(&mut settings, 0));
    assert_eq!(accept_cap(&settings), 32);
    assert!(set_accept_cap(&mut settings, 128));
    assert_eq!(accept_cap(&settings), 128);
    assert_eq!(dial_deadline_ms(&settings), 10_000);
}

#[test]
fn clock_before_the_epoch_reads_zero() {
    assert_eq!(now_ms(None), 0);
    assert_eq!(now_ms(Some(1_700_000_000_123)), 1_700_000_000_123);
    assert_eq!(now_ms(Some((1u128 << 64) + 5)), 5);
}

#[test]
fn warnings_come_once_per_second() {
    let mut slot: u64 = 0;
    assert!(!warn_capped(&mut slot, 999));
    assert_eq!(slot, 0);
    assert!(warn_capped(&mut slot, 1_000));
    assert_eq!(slot, 1_000);
    assert!(!warn_capped(&mut slot, 1_999));
    assert!(warn_capped(&mut slot, 2_000));
    // A clock that jumps back stays silent.
    assert!(!warn_capped(&mut slot, 10));
    assert_eq!(slot, 2_000);
}

/// Holds one count for as long as it lives.
struct Held {
    active: Arc<Mutex<i64>>,
    guard: Option<ActiveTcpGuard>,
}

impl Held {
    fn new(active: &Arc<Mutex<i64>>) -> Held {
        let guard = ActiveTcpGuard::new(&mut active.lock().expect("not poisoned"));
        Held { active: active.clone(), guard: Some(guard) }
    }
}

impl Drop for Held {
    fn drop(&mut self) {
        if let Some(guard) = self.guard.take() {
            guard.release(&mut self.active.lock().expect("not poisoned"));
        }
    }
}

#[test]
fn active_tcp_guard_balances_on_drop_and_panic() {
    let active = Arc::new(Mutex::new(3i64));
    let load = || *active.lock().expect("not poisoned");
    let baseline = load();
    {
        let _g = Held::new(&active);
        assert_eq!(load(), baseline + 1, "guard increments on construction");
    }
    assert_eq!(load(), baseline, "guard decrements on scope exit");

    let shared = active.clone();
    let runtime = tokio::runtime::Builder::new_current_thread().build().expect("runtime");
    let result = runtime.block_on(runtime.spawn(async move {
        let _g = Held::new(&shared);
        panic!("simulating mid-flow abort");
    }));
    assert!(result.is_err(), "panic should propagate");
    assert_eq!(
        load(),
        baseline,
        "guard decrements even when the holding scope unwinds"
    );
}

#[test]
fn active_tcp_guards_interleave() {
    let mut active: i64 = 3;
    let baseline = active;
    let first = ActiveTcpGuard::new(&mut active);
    let second = ActiveTcpGuard::new(&mut active);
    first.release(&mut active);
    second.release(&mut active);
    assert_eq!(active, baseline);
    let mut top = i64::MAX;
    let g = ActiveTcpGuard::new(&mut top);
    assert_eq!(top, i64::MIN);
    g.release(&mut top);
    assert_eq!(top, i64::MAX);
}

#[test]
fn active_count_is_never_negative() {
    assert_eq!(meow_active_tcp_conns(-2), 0);
    assert_eq!(meow_active_tcp_conns(0), 0);
    assert_eq!(meow_active_tcp_conns(7), 7);
}

#[test]
fn start_and_stop_alternate() {
    let mut state = TunnelState::default();
    assert!(start(&mut state).is_ok());
    assert_eq!(state, TunnelState { running: true, ingress_open: true });
    assert_eq!(start(&mut state), Err("tun2socks already running"));
    stop(&mut state);
    stop(&mut state);
    assert_eq!(state, TunnelState::default());
    assert!(start(&mut state).is_ok());
}

#[test]
fn ingest_drops_on_a_full_queue_and_fails_on_a_closed_one() {
    let state = TunnelState { running: true, ingress_open: true };
    assert_eq!(ingest(&state, Some(Offered::Taken)), 0);
    assert_eq!(ingest(&state, Some(Offered::Full)), 0);
    assert_eq!(ingest(&state, Some(Offered::Closed)), -1);
    assert_eq!(ingest(&state, None), -1);
}

#[test]
fn a_stopped_tunnel_takes_no_packet_until_the_next_start() {
    let mut state = TunnelState::default();
    let all = [None, Some(Offered::Taken), Some(Offered::Full), Some(Offered::Closed)];
    for offered in all {
        assert_eq!(ingest(&state, offered), -1);
    }
    assert!(start(&mut state).is_ok());
    assert_eq!(ingest(&state, Some(Offered::Taken)), 0);
    for _ in 0..2 {
        stop(&mut state);
        for offered in all {
            assert_eq!(ingest(&state, offered), -1);
        }
    }
    assert!(start(&mut state).is_ok());
    assert_eq!(ingest(&state, Some(Offered::Taken)), 0);
}

#[test]
fn ingress_intercepts_dns_within_its_cap() {
    let packet = dns_packet();
    let mut other = dns_packet();
    other[23] = 54;
    let mut permits = Permits::new(1);
    let mut slot: u64 = 0;
    assert_eq!(
        on_ingress(false, &packet, &mut permits, &mut slot, 5_000),
        IngressStep::Exit
    );
    assert_eq!(
        on_ingress(true, &other, &mut permits, &mut slot, 5_000),
        IngressStep::ToStack
    );
    assert_eq!(
        on_ingress(true, &packet, &mut permits, &mut slot, 5_000),
        IngressStep::AnswerQuery
    );
    assert_eq!(permits.held, 1);
    assert_eq!(
        on_ingress(true, &packet, &mut permits, &mut slot, 5_000),
        IngressStep::DropQuery { warn: true }
    );
    assert_eq!(
        on_ingress(true, &packet, &mut permits, &mut slot, 5_500),
        IngressStep::DropQuery { warn: false }
    );
    permits.release();
    assert_eq!(
        on_ingress(true, &packet, &mut permits, &mut slot, 5_600),
        IngressStep::AnswerQuery
    );
}

#[test]
fn forwarding_pushes_back_and_egress_drops() {
    assert_eq!(on_forwarded(Offered::Taken), ForwardStep::Next);
    assert_eq!(on_forwarded(Offered::Full), ForwardStep::SendBlocking);
    assert_eq!(on_forwarded(Offered::Closed), ForwardStep::Exit);
    let mut slot: u64 = 0;
    assert!(!on_egress(Offered::Taken, &mut slot, 9_000));
    assert!(on_egress(Offered::Full, &mut slot, 9_000));
    assert!(!on_egress(Offered::Closed, &mut slot, 9_500));
    assert!(on_egress(Offered::Closed, &mut slot, 10_000));
}

#[test]
fn accept_holds_flows_back_at_the_cap() {
    let mut permits = Permits::new(2);
    let mut table = FlowTable::new();
    let src = endpoint(40_000);
    let dst = endpoint(443);
    assert_eq!(
        on_tcp_accept(src, endpoint(53), &mut permits, &mut table, 1_000),
        AcceptStep::DropDns
    );
    assert_eq!(permits.held, 0);
    assert_eq!(
        on_tcp_accept(src, dst, &mut permits, &mut table, 1_000),
        AcceptStep::Dispatch { id: 1 }
    );
    assert_eq!(
        on_tcp_accept(src, dst, &mut permits, &mut table, 2_000),
        AcceptStep::Dispatch { id: 2 }
    );
    assert_eq!(
        on_tcp_accept(src, dst, &mut permits, &mut table, 3_000),
        AcceptStep::Wait
    );
    assert_eq!(table.len(), 2);
    assert_eq!(table.get(1).map(|r| r.last_active_ms), Some(1_000));
    on_tcp_end(1, &mut permits, &mut table);
    assert_eq!(table.len(), 1);
    assert_eq!(
        on_tcp_accept(src, dst, &mut permits, &mut table, 4_000),
        AcceptStep::Dispatch { id: 3 }
    );
}

#[test]
fn ticks_end_with_the_tunnel() {
    let mut table = FlowTable::new();
    let mut closed: Vec<ClosedFlow> = Vec::new();
    table.register(endpoint(1), endpoint(2), 1_000);
    assert!(!on_sweep_tick(false, &mut table, 100_000, &mut closed));
    assert_eq!(table.len(), 1);
    assert!(on_sweep_tick(true, &mut table, 100_000, &mut closed));
    assert_eq!(table.len(), 0);
    assert_eq!(closed.len(), 1);
    assert_eq!(closed[0], ClosedFlow { id: 1, src: endpoint(1), dst: endpoint(2) });
}

#[test]
fn watchdog_trips_past_the_threshold_only() {
    let mut table = FlowTable::new();
    let mut closed: Vec<ClosedFlow> = Vec::new();
    for port in 0..256u16 {
        table.register(endpoint(port), endpoint(443), 1_000);
    }
    assert!(on_watchdog_tick(true, &mut table, &mut closed));
    assert_eq!(table.len(), 256);
    assert!(closed.is_empty());
    table.register(endpoint(999), endpoint(443), 1_000);
    assert!(!on_watchdog_tick(false, &mut table, &mut closed));
    assert_eq!(table.len(), 257);
    assert!(on_watchdog_tick(true, &mut table, &mut closed));
    assert_eq!(table.len(), 0);
    assert_eq!(closed.len(), 257);
}

#[test]
fn exit_closes_what_is_left() {
    let mut state = TunnelState::default();
    start(&mut state).expect("starts");
    let mut table = FlowTable::new();
    let mut closed: Vec<ClosedFlow> = Vec::new();
    table.register(endpoint(1), endpoint(2), 1_000);
    table.register(endpoint(3), endpoint(4), 1_000);
    on_tunnel_exit(&mut state, &mut table, &mut closed);
    assert_eq!(state, TunnelState::default());
    assert_eq!(table.len(), 0);
    let mut ids: Vec<u64> = closed.iter().map(|c| c.id).collect();
    ids.sort();
    assert_eq!(ids, vec![1, 2]);
}

#[test]
fn stack_driver_ends_with_the_first_error() {
    assert_eq!(on_stack_event(StackEvent::Ingress), StackStep::Feed);
    assert_eq!(on_stack_event(StackEvent::Fed), StackStep::Next);
    assert_eq!(on_stack_event(StackEvent::Frame), StackStep::Emit);
    for event in [
        StackEvent::IngressClosed,
        StackEvent::FeedFailed,
        StackEvent::FrameFailed,
        StackEvent::Ended,
    ] {
        assert_eq!(on_stack_event(event), StackStep::Exit);
    }
}
