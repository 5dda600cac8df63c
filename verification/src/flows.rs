//! The registry of in-flight TCP flows: which are live, when each was last
//! active, and which the sweeper or the watchdog closes.

use crate::net::Endpoint;
use dashmap::DashMap;
use std::collections::hash_map::RandomState;
use vstd::prelude::*;

verus! {

/// How long a flow may be idle.
pub const TCP_IDLE_SECS: u64 = 30;

/// How often the sweeper looks for idle flows.
pub const TCP_IDLE_SWEEP_INTERVAL_SECS: u64 = 10;

/// How often the watchdog looks at the size of the registry.
pub const TCP_WATCHDOG_INTERVAL_SECS: u64 = 60;

/// Size of the registry past which the watchdog closes every flow.
pub const TCP_WATCHDOG_THRESHOLD: usize = 256;

/// Registry entry of one flow.
#[derive(Clone, Copy, PartialEq, Eq, Structural, Debug)]
pub struct FlowRecord {
    /// When the flow was last active, in milliseconds.
    pub last_active_ms: u64,
    /// The endpoint that opened the flow.
    pub src: Endpoint,
    /// The endpoint it was opened to.
    pub dst: Endpoint,
}

/// A flow that was taken out of the registry and whose task is to be aborted.
#[derive(Clone, Copy, PartialEq, Eq, Structural, Debug)]
pub struct ClosedFlow {
    pub id: u64,
    pub src: Endpoint,
    pub dst: Endpoint,
}

/// A map of the `dashmap` crate, opaque here.
#[verifier::external_type_specification]
#[verifier::external_body]
#[verifier::reject_recursive_types(K)]
#[verifier::reject_recursive_types(V)]
#[verifier::reject_recursive_types(S)]
pub struct ExDashMap<K, V, S>(dashmap::DashMap<K, V, S>);

/// The flows that a map holds, by identifier.
pub uninterp spec fn flows_in(m: DashMap<u64, FlowRecord, RandomState>) -> Map<u64, FlowRecord>;

/// No flow at all.
pub open spec fn no_flows() -> Map<u64, FlowRecord> {
    Map::empty()
}

/// `dashmap::DashMap::new`. The claim: the map is empty.
#[verifier::external_body]
fn new_flow_map() -> (r: DashMap<u64, FlowRecord, RandomState>)
    ensures
        flows_in(r) == no_flows(),
{
    DashMap::new()
}

/// `dashmap::DashMap::insert`. The claim: the record stands under the
/// identifier, everything else is unchanged, and a record that stood there
/// comes back.
#[verifier::external_body]
fn insert_flow(m: &mut DashMap<u64, FlowRecord, RandomState>, id: u64, rec: FlowRecord) -> (r:
    Option<FlowRecord>)
    ensures
        flows_in(*final(m)) == flows_in(*old(m)).insert(id, rec),
        r == (if flows_in(*old(m)).contains_key(id) {
            Some(flows_in(*old(m))[id])
        } else {
            None
        }),
{
    m.insert(id, rec)
}

/// `dashmap::DashMap::remove`. The claim: the identifier is gone, everything
/// else is unchanged, and the record that stood there comes back.
#[verifier::external_body]
fn remove_flow(m: &mut DashMap<u64, FlowRecord, RandomState>, id: u64) -> (r: Option<FlowRecord>)
    ensures
        flows_in(*final(m)) == flows_in(*old(m)).remove(id),
        r == (if flows_in(*old(m)).contains_key(id) {
            Some(flows_in(*old(m))[id])
        } else {
            None
        }),
{
    m.remove(&id).map(|entry| entry.1)
}

/// `dashmap::DashMap::get`, with the record copied out.
#[verifier::external_body]
fn get_flow(m: &DashMap<u64, FlowRecord, RandomState>, id: u64) -> (r: Option<FlowRecord>)
    ensures
        r == (if flows_in(*m).contains_key(id) {
            Some(flows_in(*m)[id])
        } else {
            None
        }),
{
    m.get(&id).map(|entry| *entry.value())
}

/// `dashmap::DashMap::len`.
#[verifier::external_body]
fn flow_count(m: &DashMap<u64, FlowRecord, RandomState>) -> (r: usize)
    ensures
        flows_in(*m).dom().finite() ==> r == flows_in(*m).dom().len(),
{
    m.len()
}

/// A flow is idle at a cutoff if it was last active before it. Without a
/// cutoff every flow counts as idle.
pub open spec fn is_idle(rec: FlowRecord, cutoff: Option<u64>) -> bool {
    match cutoff {
        Some(ms) => rec.last_active_ms < ms,
        None => true,
    }
}

/// The entry that a closed flow leaves behind.
pub open spec fn closed_flow(id: u64, rec: FlowRecord) -> ClosedFlow {
    ClosedFlow { id, src: rec.src, dst: rec.dst }
}

/// Whether a flow stays at a cutoff. One that does not is noted.
fn keep_flow(id: u64, rec: &FlowRecord, cutoff: Option<u64>, closed: &mut Vec<ClosedFlow>) -> (r: bool)
    ensures
        r == !is_idle(*rec, cutoff),
        final(closed)@ == if is_idle(*rec, cutoff) {
            old(closed)@.push(closed_flow(id, *rec))
        } else {
            old(closed)@
        },
{
    let idle: bool = match cutoff {
        Some(ms) => rec.last_active_ms < ms,
        None => true,
    };
    if idle {
        closed.push(ClosedFlow { id, src: rec.src, dst: rec.dst });
        false
    } else {
        true
    }
}

/// The flows that are not idle at a cutoff.
pub open spec fn active_flows(flows: Map<u64, FlowRecord>, cutoff: Option<u64>) -> Map<u64, FlowRecord> {
    Map::new(
        |id: u64| flows.contains_key(id) && !is_idle(flows[id], cutoff),
        |id: u64| flows[id],
    )
}

/// The flows that are idle at a cutoff, by identifier.
pub open spec fn idle_ids(flows: Map<u64, FlowRecord>, cutoff: Option<u64>) -> Set<u64> {
    Set::new(|id: u64| flows.contains_key(id) && is_idle(flows[id], cutoff))
}

/// A list names every flow that is idle at a cutoff once, in some order, and
/// no other.
pub open spec fn lists_idle(
    listed: Seq<ClosedFlow>,
    flows: Map<u64, FlowRecord>,
    cutoff: Option<u64>,
) -> bool {
    &&& forall|i: int|
        #![trigger listed[i]]
        0 <= i < listed.len() ==> idle_ids(flows, cutoff).contains(listed[i].id) && listed[i]
            == closed_flow(listed[i].id, flows[listed[i].id])
    &&& forall|i: int, j: int|
        0 <= i < j < listed.len() ==> (#[trigger] listed[i]).id != (#[trigger] listed[j]).id
    &&& forall|id: u64| #[trigger]
        idle_ids(flows, cutoff).contains(id) ==> exists|i: int|
            0 <= i < listed.len() && (#[trigger] listed[i]).id == id
}

/// `dashmap::DashMap::retain` with [`keep_flow`] at a cutoff. The claim: each
/// entry is visited once, in an order that is not specified, and stays exactly
/// where the call says so.
#[verifier::external_body]
fn retain_active(
    m: &mut DashMap<u64, FlowRecord, RandomState>,
    cutoff: Option<u64>,
    closed: &mut Vec<ClosedFlow>,
)
    ensures
        flows_in(*final(m)) == active_flows(flows_in(*old(m)), cutoff),
        old(closed)@.is_prefix_of(final(closed)@),
        lists_idle(
            final(closed)@.skip(old(closed)@.len() as int),
            flows_in(*old(m)),
            cutoff,
        ),
{
    m.retain(|id, rec| keep_flow(*id, rec, cutoff, closed));
}

/// The flows after one of them was active.
pub open spec fn touched(flows: Map<u64, FlowRecord>, id: u64, now_ms: u64) -> Map<
    u64,
    FlowRecord,
> {
    if flows.contains_key(id) {
        flows.insert(id, FlowRecord { last_active_ms: now_ms, ..flows[id] })
    } else {
        flows
    }
}

/// The registry of in-flight TCP flows.
pub struct FlowTable {
    flows: DashMap<u64, FlowRecord, RandomState>,
    next_id: u64,
}

impl FlowTable {
    /// The live flows, by identifier.
    pub closed spec fn flows(self) -> Map<u64, FlowRecord> {
        flows_in(self.flows)
    }

    /// The identifier that the next flow gets.
    pub closed spec fn next(self) -> u64 {
        self.next_id
    }

    /// There are finitely many live flows.
    pub open spec fn wf(self) -> bool {
        self.flows().dom().finite()
    }

    /// The sequence of identifiers has not come round yet: every live flow has
    /// an identifier that was handed out before.
    pub open spec fn ids_are_past(self) -> bool {
        forall|id: u64| #[trigger] self.flows().contains_key(id) ==> id < self.next()
    }

    /// An empty registry. Identifiers start at 1.
    pub fn new() -> (r: FlowTable)
        ensures
            r.wf(),
            r.flows() == no_flows(),
            r.next() == 1,
            r.ids_are_past(),
    {
        FlowTable { flows: new_flow_map(), next_id: 1 }
    }

    /// Number of live flows.
    pub fn len(&self) -> (r: usize)
        requires
            self.wf(),
        ensures
            r == self.flows().dom().len(),
    {
        flow_count(&self.flows)
    }

    /// The record of a live flow.
    pub fn get(&self, id: u64) -> (r: Option<FlowRecord>)
        ensures
            r == (if self.flows().contains_key(id) {
                Some(self.flows()[id])
            } else {
                None
            }),
    {
        get_flow(&self.flows, id)
    }

    /// Registers a flow that was accepted now, and returns its identifier. The
    /// sequence of identifiers wraps at its end.
    pub fn register(&mut self, src: Endpoint, dst: Endpoint, now_ms: u64) -> (id: u64)
        requires
            old(self).wf(),
        ensures
            final(self).wf(),
            id == old(self).next(),
            final(self).next() == if id == u64::MAX {
                0
            } else {
                (id + 1) as u64
            },
            final(self).flows() == old(self).flows().insert(
                id,
                (FlowRecord { last_active_ms: now_ms, src, dst }),
            ),
            old(self).ids_are_past() ==> !old(self).flows().contains_key(id),
            old(self).ids_are_past() && id < u64::MAX ==> final(self).ids_are_past(),
    {
        let id: u64 = self.next_id;
        self.next_id = id.wrapping_add(1);
        let _ = insert_flow(
            &mut self.flows,
            id,
            FlowRecord { last_active_ms: now_ms, src, dst },
        );
        id
    }

    /// Takes a flow that ended out of the registry.
    pub fn finish(&mut self, id: u64) -> (r: Option<FlowRecord>)
        requires
            old(self).wf(),
        ensures
            final(self).wf(),
            final(self).next() == old(self).next(),
            final(self).flows() == old(self).flows().remove(id),
            r == (if old(self).flows().contains_key(id) {
                Some(old(self).flows()[id])
            } else {
                None
            }),
            old(self).ids_are_past() ==> final(self).ids_are_past(),
    {
        remove_flow(&mut self.flows, id)
    }

    /// Notes that a flow was active now. One that is no longer registered is
    /// not brought back.
    pub fn touch(&mut self, id: u64, now_ms: u64)
        requires
            old(self).wf(),
        ensures
            final(self).wf(),
            final(self).next() == old(self).next(),
            final(self).flows() == touched(old(self).flows(), id, now_ms),
            final(self).flows() == if old(self).flows().contains_key(id) {
                old(self).flows().insert(
                    id,
                    (FlowRecord { last_active_ms: now_ms, ..old(self).flows()[id] }),
                )
            } else {
                old(self).flows()
            },
            old(self).ids_are_past() ==> final(self).ids_are_past(),
    {
        match get_flow(&self.flows, id) {
            Some(rec) => {
                let _ = insert_flow(
                    &mut self.flows,
                    id,
                    FlowRecord { last_active_ms: now_ms, src: rec.src, dst: rec.dst },
                );
            },
            None => {},
        }
    }

    /// Closes every flow that is idle at a cutoff. Returns how many there were.
    fn close_idle(&mut self, cutoff: Option<u64>, closed: &mut Vec<ClosedFlow>) -> (r: usize)
        requires
            old(self).wf(),
        ensures
            final(self).wf(),
            final(self).next() == old(self).next(),
            final(self).flows() == active_flows(old(self).flows(), cutoff),
            r == idle_ids(old(self).flows(), cutoff).len(),
            closes(old(closed)@, final(closed)@, old(self).flows(), cutoff),
            old(self).ids_are_past() ==> final(self).ids_are_past(),
    {
        let before: usize = closed.len();
        let ghost flows = self.flows();
        let ghost noted = closed@;
        retain_active(&mut self.flows, cutoff, closed);
        proof {
            let listed = closed@.skip(noted.len() as int);
            assert(closed@ =~= noted + listed);
            lemma_lists_idle_len(listed, flows, cutoff);
            assert(active_flows(flows, cutoff).dom() =~= flows.dom().difference(
                idle_ids(flows, cutoff),
            ));
        }
        closed.len() - before
    }
}

/// What closing the idle flows appends to a list: those flows.
pub open spec fn closes(
    before: Seq<ClosedFlow>,
    after: Seq<ClosedFlow>,
    flows: Map<u64, FlowRecord>,
    cutoff: Option<u64>,
) -> bool {
    &&& before.is_prefix_of(after)
    &&& lists_idle(after.skip(before.len() as int), flows, cutoff)
}

proof fn lemma_lists_idle_len(listed: Seq<ClosedFlow>, flows: Map<u64, FlowRecord>, cutoff: Option<u64>)
    requires
        flows.dom().finite(),
        lists_idle(listed, flows, cutoff),
    ensures
        idle_ids(flows, cutoff).finite(),
        idle_ids(flows, cutoff).len() == listed.len(),
{
    let ids = listed.map_values(|c: ClosedFlow| c.id);
    let idle = idle_ids(flows, cutoff);
    assert(idle.subset_of(flows.dom()));
    vstd::set_lib::lemma_len_subset(idle, flows.dom());
    assert(ids.no_duplicates()) by {
        assert forall|i: int, j: int| 0 <= i < ids.len() && 0 <= j < ids.len() && i != j implies ids[i]
            != ids[j] by {
            if i < j {
                assert(listed[i].id != listed[j].id);
            } else {
                assert(listed[j].id != listed[i].id);
            }
        }
    }
    ids.unique_seq_to_set();
    assert(ids.to_set() =~= idle) by {
        assert forall|id: u64| idle.contains(id) implies ids.to_set().contains(id) by {
            let i = choose|i: int| 0 <= i < listed.len() && (#[trigger] listed[i]).id == id;
            assert(ids[i] == id);
        }
        assert forall|id: u64| ids.to_set().contains(id) implies idle.contains(id) by {
            let i = choose|i: int| 0 <= i < ids.len() && ids[i] == id;
            assert(listed[i].id == id);
        }
    }
}

/// The cutoff of a sweep: the idle window before now.
pub open spec fn sweep_cutoff(now_ms: u64) -> u64 {
    if now_ms >= TCP_IDLE_SECS * 1000 {
        (now_ms - TCP_IDLE_SECS * 1000) as u64
    } else {
        0
    }
}

/// Walks the registry and closes every flow whose last activity is older than
/// the idle window. The closed flows are appended to `evicted`; the caller aborts
/// their tasks. Returns the number of evicted flows.
pub fn sweep_idle_tcp_flows(
    table: &mut FlowTable,
    now_ms: u64,
    evicted: &mut Vec<ClosedFlow>,
) -> (r: usize)
    requires
        old(table).wf(),
    ensures
        final(table).wf(),
        final(table).next() == old(table).next(),
        final(table).flows() == active_flows(old(table).flows(), Some(sweep_cutoff(now_ms))),
        r == idle_ids(old(table).flows(), Some(sweep_cutoff(now_ms))).len(),
        closes(old(evicted)@, final(evicted)@, old(table).flows(), Some(sweep_cutoff(now_ms))),
        old(table).ids_are_past() ==> final(table).ids_are_past(),
{
    table.close_idle(Some(now_ms.saturating_sub(TCP_IDLE_SECS * 1000)), evicted)
}

/// Closes every flow in the registry, idle or not. The closed flows are
/// appended to `closed`; the caller aborts their tasks. Returns the number of
/// flows closed.
pub fn close_all_tcp_flows(table: &mut FlowTable, closed: &mut Vec<ClosedFlow>) -> (r: usize)
    requires
        old(table).wf(),
    ensures
        final(table).wf(),
        final(table).next() == old(table).next(),
        final(table).flows() == no_flows(),
        r == old(table).flows().dom().len(),
        closes(old(closed)@, final(closed)@, old(table).flows(), None),
        old(table).ids_are_past() ==> final(table).ids_are_past(),
{
    let ghost flows = table.flows();
    assert(active_flows(flows, None) =~= no_flows());
    assert(idle_ids(flows, None) =~= flows.dom());
    table.close_idle(None, closed)
}

/// Whether so many live flows trip the watchdog.
pub open spec fn trips(live: nat) -> bool {
    live > TCP_WATCHDOG_THRESHOLD
}

/// Emergency check: past the threshold every flow is closed, at or under it
/// none. Returns how many flows the watchdog saw if it tripped.
pub fn registry_watchdog(table: &mut FlowTable, closed: &mut Vec<ClosedFlow>) -> (r: Option<usize>)
    requires
        old(table).wf(),
    ensures
        final(table).wf(),
        final(table).next() == old(table).next(),
        old(table).ids_are_past() ==> final(table).ids_are_past(),
        r is Some <==> trips(old(table).flows().dom().len()),
        ({
            let live = old(table).flows().dom().len();
            if live > TCP_WATCHDOG_THRESHOLD {
                &&& r == Some(live as usize)
                &&& r.unwrap() == live
                &&& final(table).flows() == no_flows()
                &&& closes(old(closed)@, final(closed)@, old(table).flows(), None)
            } else {
                &&& r is None
                &&& final(table).flows() == old(table).flows()
                &&& final(closed)@ == old(closed)@
            }
        }),
{
    let live: usize = table.len();
    if live > TCP_WATCHDOG_THRESHOLD {
        let _ = close_all_tcp_flows(table, closed);
        Some(live)
    } else {
        None
    }
}

/// A sweep parts the registry: a flow stays, with its record, exactly where it
/// is not named as evicted.
pub proof fn law_sweep_parts_the_registry(flows: Map<u64, FlowRecord>, now_ms: u64, id: u64)
    requires
        flows.contains_key(id),
    ensures
        ({
            let cutoff = Some(sweep_cutoff(now_ms));
            let kept = active_flows(flows, cutoff);
            &&& kept.contains_key(id) != idle_ids(flows, cutoff).contains(id)
            &&& kept.contains_key(id) ==> kept[id] == flows[id]
        }),
{
}

/// A flow whose last activity is no older than the idle window survives a
/// sweep.
pub proof fn law_recent_flow_survives(flows: Map<u64, FlowRecord>, now_ms: u64, id: u64)
    requires
        flows.contains_key(id),
        now_ms <= flows[id].last_active_ms + TCP_IDLE_SECS * 1000,
    ensures
        active_flows(flows, Some(sweep_cutoff(now_ms))).contains_key(id),
{
}

/// A flow whose last activity is older than the idle window is evicted by a
/// sweep.
pub proof fn law_idle_flow_is_evicted(flows: Map<u64, FlowRecord>, now_ms: u64, id: u64)
    requires
        flows.contains_key(id),
        flows[id].last_active_ms + TCP_IDLE_SECS * 1000 < now_ms,
    ensures
        !active_flows(flows, Some(sweep_cutoff(now_ms))).contains_key(id),
{
}

/// Dead flows are held for at most one sweep interval past the idle window: if
/// one sweep still kept an untouched flow and the next one evicts it, that one
/// comes at most an interval after the window ended.
pub proof fn law_eviction_is_prompt(
    flows: Map<u64, FlowRecord>,
    sweep_ms: u64,
    next_sweep_ms: u64,
    id: u64,
)
    requires
        flows.contains_key(id),
        next_sweep_ms == sweep_ms + TCP_IDLE_SWEEP_INTERVAL_SECS * 1000,
        active_flows(flows, Some(sweep_cutoff(sweep_ms))).contains_key(id),
        !active_flows(flows, Some(sweep_cutoff(next_sweep_ms))).contains_key(id),
    ensures
        next_sweep_ms <= flows[id].last_active_ms + (TCP_IDLE_SECS + TCP_IDLE_SWEEP_INTERVAL_SECS)
            * 1000,
{
}

/// Closing everything and sweeping agree on what an empty registry is: both
/// leave it empty and close nothing.
pub proof fn law_nothing_to_close(cutoff: Option<u64>)
    ensures
        active_flows(no_flows(), cutoff) == no_flows(),
        idle_ids(no_flows(), cutoff).len() == 0,
{
    assert(active_flows(no_flows(), cutoff) =~= no_flows());
    assert(idle_ids(no_flows(), cutoff) =~= Set::empty());
}

/// A sweep closes a flow exactly where its last activity lies more than thirty
/// seconds back, however the two clocks stand to each other.
pub proof fn law_sweep_goes_by_the_last_activity(
    flows: Map<u64, FlowRecord>,
    now_ms: u64,
    id: u64,
)
    requires
        flows.contains_key(id),
    ensures
        ({
            let cutoff = Some(sweep_cutoff(now_ms));
            let late = now_ms - flows[id].last_active_ms > 30_000;
            &&& idle_ids(flows, cutoff).contains(id) == late
            &&& active_flows(flows, cutoff).contains_key(id) == !late
        }),
{
}

/// Closing without a cutoff closes every flow there is, and no closing keeps or
/// names one that was not there.
pub proof fn law_closing_all_spares_none(
    flows: Map<u64, FlowRecord>,
    cutoff: Option<u64>,
    id: u64,
)
    ensures
        idle_ids(flows, None).contains(id) == flows.contains_key(id),
        !active_flows(flows, None).contains_key(id),
        !flows.contains_key(id) ==> !idle_ids(flows, cutoff).contains(id) && !active_flows(
            flows,
            cutoff,
        ).contains_key(id),
        !no_flows().contains_key(id),
{
}

/// The account of what was closed is complete and true: what was noted before
/// stays in front, behind it every closed flow stands once, with the two
/// endpoints it was registered with, and no other flow does.
pub proof fn law_closed_flows_are_accounted_for(
    before: Seq<ClosedFlow>,
    after: Seq<ClosedFlow>,
    flows: Map<u64, FlowRecord>,
    cutoff: Option<u64>,
)
    requires
        closes(before, after, flows, cutoff),
    ensures
        before.len() <= after.len(),
        forall|i: int| 0 <= i < before.len() ==> #[trigger] after[i] == before[i],
        forall|i: int|
            #![trigger after[i]]
            before.len() <= i < after.len() ==> {
                &&& flows.contains_key(after[i].id)
                &&& !active_flows(flows, cutoff).contains_key(after[i].id)
                &&& after[i].src == flows[after[i].id].src
                &&& after[i].dst == flows[after[i].id].dst
            },
        forall|i: int, j: int|
            before.len() <= i < j < after.len() ==> (#[trigger] after[i]).id != (
            #[trigger] after[j]).id,
        forall|id: u64|
            #![trigger flows.contains_key(id)]
            flows.contains_key(id) && !active_flows(flows, cutoff).contains_key(id) ==> exists|i: int|
                before.len() <= i < after.len() && (#[trigger] after[i]).id == id,
{
    let n = before.len() as int;
    let listed = after.skip(n);
    assert(after =~= before + listed);
    assert forall|i: int| n <= i < after.len() implies #[trigger] after[i] == listed[i - n] by {}
    assert forall|i: int, j: int| n <= i < j < after.len() implies (#[trigger] after[i]).id != (
    #[trigger] after[j]).id by {
        assert(listed[i - n].id != listed[j - n].id);
    }
    assert forall|id: u64|
        #![trigger flows.contains_key(id)]
        flows.contains_key(id) && !active_flows(flows, cutoff).contains_key(id) implies exists|i: int|
        before.len() <= i < after.len() && (#[trigger] after[i]).id == id by {
        assert(idle_ids(flows, cutoff).contains(id));
        let k = choose|k: int| 0 <= k < listed.len() && (#[trigger] listed[k]).id == id;
        assert(after[k + n].id == id);
    }
}

/// Activity moves the stamp of a flow and nothing else: its endpoints stay, every
/// other flow stays, and a flow that is gone stays gone.
pub proof fn law_activity_moves_the_stamp(
    flows: Map<u64, FlowRecord>,
    id: u64,
    now_ms: u64,
    other: u64,
)
    ensures
        ({
            let t = touched(flows, id, now_ms);
            &&& t.contains_key(other) == flows.contains_key(other)
            &&& flows.contains_key(id) ==> {
                &&& t[id].last_active_ms == now_ms
                &&& t[id].src == flows[id].src
                &&& t[id].dst == flows[id].dst
            }
            &&& flows.contains_key(other) && other != id ==> t[other] == flows[other]
        }),
{
}

/// A flow that keeps being active is never swept: whenever it was active within
/// the last thirty seconds, it is there after the sweep, as it was.
pub proof fn law_active_flows_outlive_sweeps(
    flows: Map<u64, FlowRecord>,
    id: u64,
    active_ms: u64,
    now_ms: u64,
)
    requires
        flows.contains_key(id),
        now_ms - active_ms <= 30_000,
    ensures
        ({
            let kept = active_flows(touched(flows, id, active_ms), Some(sweep_cutoff(now_ms)));
            &&& kept.contains_key(id)
            &&& kept[id].src == flows[id].src
            &&& kept[id].dst == flows[id].dst
        }),
{
}

/// The watchdog trips past 256 live flows, and at no fewer; the sweeper looks
/// every ten seconds, the watchdog every minute.
pub proof fn law_registry_limits(live: nat)
    ensures
        trips(live) <==> live > 256,
        TCP_IDLE_SECS == 30,
        TCP_IDLE_SWEEP_INTERVAL_SECS == 10,
        TCP_WATCHDOG_INTERVAL_SECS == 60,
{
}

} // verus!
