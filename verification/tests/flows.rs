//! The registry of TCP flows.

use meow_ios_ffi::flows::{
    close_all_tcp_flows, registry_watchdog, sweep_idle_tcp_flows, ClosedFlow, FlowTable,
    TCP_IDLE_SECS,
};
use meow_ios_ffi::net::{Endpoint, IpAddress};

fn dummy_addr(port: u16) -> Endpoint {
    Endpoint::new(IpAddress::V4(0x7F00_0001), port)
}

const NOW: u64 = 1_700_000_000_000;

#[test]
fn sweep_evicts_only_idle_flows() {
    let mut flows = FlowTable::new();
    let mut log: Vec<ClosedFlow> = Vec::new();
    let stale_id = flows.register(
        dummy_addr(1),
        dummy_addr(2),
        NOW.saturating_sub((TCP_IDLE_SECS + 5) * 1000),
    );
    let fresh_id = flows.register(dummy_addr(3), dummy_addr(4), NOW);

    let evicted = sweep_idle_tcp_flows(&mut flows, NOW, &mut log);
    assert_eq!(evicted, 1, "only the stale flow should be swept");
    assert!(flows.get(stale_id).is_none(), "stale flow removed");
    assert!(flows.get(fresh_id).is_some(), "fresh flow retained");
    assert_eq!(
        log,
        vec![ClosedFlow { id: stale_id, src: dummy_addr(1), dst: dummy_addr(2) }]
    );
}

#[test]
fn sweep_with_no_flows_is_a_no_op() {
    let mut flows = FlowTable::new();
    let mut log: Vec<ClosedFlow> = Vec::new();
    assert_eq!(sweep_idle_tcp_flows(&mut flows, NOW, &mut log), 0);
    assert!(log.is_empty());
}

#[test]
fn close_all_with_no_flows_is_a_no_op() {
    let mut flows = FlowTable::new();
    let mut log: Vec<ClosedFlow> = Vec::new();
    assert_eq!(close_all_tcp_flows(&mut flows, &mut log), 0);
    assert!(log.is_empty());
}

#[test]
fn close_all_clears_every_flow_regardless_of_freshness() {
    let mut flows = FlowTable::new();
    let mut log: Vec<ClosedFlow> = Vec::new();
    flows.register(
        dummy_addr(11),
        dummy_addr(12),
        NOW.saturating_sub((TCP_IDLE_SECS + 5) * 1000),
    );
    flows.register(dummy_addr(13), dummy_addr(14), NOW);

    let closed = close_all_tcp_flows(&mut flows, &mut log);
    assert_eq!(closed, 2, "watchdog closes every flow, idle or fresh");
    assert_eq!(flows.len(), 0, "registry should be empty after close-all");
}

#[test]
fn close_all_closes_a_flow_with_the_last_stamp_there_is() {
    let mut flows = FlowTable::new();
    let mut log: Vec<ClosedFlow> = Vec::new();
    let id = flows.register(dummy_addr(15), dummy_addr(16), u64::MAX);
    assert_eq!(sweep_idle_tcp_flows(&mut flows, u64::MAX, &mut log), 0);
    assert_eq!(close_all_tcp_flows(&mut flows, &mut log), 1);
    assert_eq!(flows.len(), 0);
    assert_eq!(
        log,
        vec![ClosedFlow { id, src: dummy_addr(15), dst: dummy_addr(16) }]
    );
}

#[test]
fn idle_window_is_exact() {
    let mut flows = FlowTable::new();
    let mut log: Vec<ClosedFlow> = Vec::new();
    let older = flows.register(dummy_addr(1), dummy_addr(2), NOW - 30_001);
    let at = flows.register(dummy_addr(1), dummy_addr(2), NOW - 30_000);
    assert_eq!(sweep_idle_tcp_flows(&mut flows, NOW, &mut log), 1);
    assert!(flows.get(older).is_none());
    assert!(flows.get(at).is_some());
}

#[test]
fn a_clock_near_its_start_evicts_nothing() {
    let mut flows = FlowTable::new();
    let mut log: Vec<ClosedFlow> = Vec::new();
    let id = flows.register(dummy_addr(1), dummy_addr(2), 0);
    assert_eq!(sweep_idle_tcp_flows(&mut flows, 5_000, &mut log), 0);
    assert_eq!(sweep_idle_tcp_flows(&mut flows, 30_000, &mut log), 0);
    assert!(flows.get(id).is_some());
    assert_eq!(sweep_idle_tcp_flows(&mut flows, 30_001, &mut log), 1);
}

#[test]
fn touched_flows_survive() {
    let mut flows = FlowTable::new();
    let mut log: Vec<ClosedFlow> = Vec::new();
    let id = flows.register(dummy_addr(1), dummy_addr(2), NOW);
    flows.touch(id, NOW + 25_000);
    assert_eq!(flows.get(id).map(|r| r.last_active_ms), Some(NOW + 25_000));
    assert_eq!(flows.get(id).map(|r| r.src), Some(dummy_addr(1)));
    assert_eq!(sweep_idle_tcp_flows(&mut flows, NOW + 40_000, &mut log), 0);
    assert_eq!(sweep_idle_tcp_flows(&mut flows, NOW + 55_000, &mut log), 0);
    assert_eq!(sweep_idle_tcp_flows(&mut flows, NOW + 55_001, &mut log), 1);
    // A flow that is gone is not brought back.
    flows.touch(id, NOW + 60_000);
    assert_eq!(flows.len(), 0);
}

#[test]
fn identifiers_are_never_handed_out_twice() {
    let mut flows = FlowTable::new();
    let first = flows.register(dummy_addr(1), dummy_addr(2), NOW);
    assert_eq!(first, 1);
    assert_eq!(flows.finish(first).map(|r| r.dst), Some(dummy_addr(2)));
    assert!(flows.finish(first).is_none());
    assert_eq!(flows.register(dummy_addr(1), dummy_addr(2), NOW), 2);
    assert_eq!(flows.len(), 1);
}

#[test]
fn watchdog_reports_what_it_saw() {
    let mut flows = FlowTable::new();
    let mut log: Vec<ClosedFlow> = Vec::new();
    for port in 0..257u16 {
        flows.register(dummy_addr(port), dummy_addr(443), NOW);
    }
    assert_eq!(registry_watchdog(&mut flows, &mut log), Some(257));
    assert_eq!(registry_watchdog(&mut flows, &mut log), None);
    assert_eq!(log.len(), 257);
}

#[test]
fn eviction_comes_within_one_interval_of_the_window() {
    let mut flows = FlowTable::new();
    let mut log: Vec<ClosedFlow> = Vec::new();
    let id = flows.register(dummy_addr(1), dummy_addr(2), NOW);
    assert_eq!(sweep_idle_tcp_flows(&mut flows, NOW + 30_000, &mut log), 0);
    assert!(flows.get(id).is_some());
    assert_eq!(sweep_idle_tcp_flows(&mut flows, NOW + 40_000, &mut log), 1);
    assert!(flows.get(id).is_none());
}
