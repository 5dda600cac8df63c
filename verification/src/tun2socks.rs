//! The tunnel's own decisions: its tunable settings, its lifecycle, and what
//! the ingress, accept and timer loops do next.

use crate::dns::{is_dns_query, DNS_PORT};
use crate::flows::{
    close_all_tcp_flows, registry_watchdog, sweep_idle_tcp_flows, ClosedFlow, FlowTable,
};
use crate::net::Endpoint;
use vstd::multiset::Multiset;
use vstd::prelude::*;

verus! {

/// Default of the accept cap. The cap bounds how many flows are dispatched at
/// once, and with them the per-flow memory.
pub const TCP_ACCEPT_CAP_DEFAULT: usize = 32;

/// Default of the dial deadline: above cold handshakes over slow links, below
/// the request timeout of common clients.
pub const DIAL_DEADLINE_MS_DEFAULT: u64 = 10_000;

/// Default of the first-reply deadline of a UDP session.
pub const UDP_FIRST_REPLY_DEADLINE_MS_DEFAULT: u64 = 10_000;

/// How many intercepted DNS queries are answered at once.
pub const DNS_BURST_CAP: usize = 256;

/// How long answering one intercepted DNS query may take.
pub const DNS_TASK_TIMEOUT_SECS: u64 = 5;

/// How long one upstream may take to answer a forwarded DNS query.
pub const DNS_PASSTHROUGH_TIMEOUT_SECS: u64 = 3;

/// Capacity of the queue of ingress packets.
pub const INGRESS_QUEUE_LEN: usize = 256;

/// Capacity of the queue of egress packets.
pub const EGRESS_QUEUE_LEN: usize = 1024;

/// Settings that can be changed while the process runs.
#[derive(Clone, Copy, PartialEq, Eq, Structural, Debug)]
pub struct TunnelSettings {
    /// How many TCP flows are dispatched at once. Sampled when a tunnel starts.
    pub accept_cap: usize,
    /// How long a flow may take until its relay starts, in milliseconds. Zero:
    /// no limit. Sampled when a flow is accepted.
    pub dial_deadline_ms: u64,
    /// How long a UDP session may take until its first reply, in milliseconds.
    /// Zero: no limit. Sampled when a reply reader starts.
    pub udp_first_reply_deadline_ms: u64,
}

impl Default for TunnelSettings {
    fn default() -> (r: TunnelSettings)
        ensures
            r.accept_cap == TCP_ACCEPT_CAP_DEFAULT,
            r.dial_deadline_ms == DIAL_DEADLINE_MS_DEFAULT,
            r.udp_first_reply_deadline_ms == UDP_FIRST_REPLY_DEADLINE_MS_DEFAULT,
    {
        TunnelSettings {
            accept_cap: TCP_ACCEPT_CAP_DEFAULT,
            dial_deadline_ms: DIAL_DEADLINE_MS_DEFAULT,
            udp_first_reply_deadline_ms: UDP_FIRST_REPLY_DEADLINE_MS_DEFAULT,
        }
    }
}

impl TunnelSettings {
    /// The accept cap is never zero: that would block the accept loop for
    /// good.
    pub open spec fn wf(self) -> bool {
        self.accept_cap > 0
    }
}

/// Sets the TCP accept cap, from the next start on. Zero is refused. Returns
/// whether the cap was applied.
pub fn set_accept_cap(settings: &mut TunnelSettings, cap: usize) -> (r: bool)
    ensures
        r == (cap > 0),
        *final(settings) == if cap > 0 {
            (TunnelSettings { accept_cap: cap, ..*old(settings) })
        } else {
            *old(settings)
        },
        old(settings).wf() ==> final(settings).wf(),
{
    if cap == 0 {
        return false;
    }
    settings.accept_cap = cap;
    true
}

/// The accept cap that the next start will use.
pub fn accept_cap(settings: &TunnelSettings) -> (r: usize)
    ensures
        r == settings.accept_cap,
{
    settings.accept_cap
}

/// Sets the dial deadline. Zero disables it. Always applied.
pub fn set_dial_deadline_ms(settings: &mut TunnelSettings, ms: u64) -> (r: bool)
    ensures
        r,
        *final(settings) == (TunnelSettings { dial_deadline_ms: ms, ..*old(settings) }),
{
    settings.dial_deadline_ms = ms;
    true
}

/// The dial deadline. Zero means that it is disabled.
pub fn dial_deadline_ms(settings: &TunnelSettings) -> (r: u64)
    ensures
        r == settings.dial_deadline_ms,
{
    settings.dial_deadline_ms
}

/// Sets the first-reply deadline of UDP sessions. Zero disables it. Always
/// applied.
pub fn set_udp_first_reply_deadline_ms(settings: &mut TunnelSettings, ms: u64) -> (r: bool)
    ensures
        r,
        *final(settings) == (TunnelSettings { udp_first_reply_deadline_ms: ms, ..*old(settings) }),
{
    settings.udp_first_reply_deadline_ms = ms;
    true
}

/// The first-reply deadline of UDP sessions. Zero means that it is disabled.
pub fn udp_first_reply_deadline_ms(settings: &TunnelSettings) -> (r: u64)
    ensures
        r == settings.udp_first_reply_deadline_ms,
{
    settings.udp_first_reply_deadline_ms
}

/// The wall clock as a millisecond count: the low 64 bits of the milliseconds
/// since the epoch, or zero for a clock that stands before it.
pub fn now_ms(since_epoch_ms: Option<u128>) -> (r: u64)
    ensures
        r == match since_epoch_ms {
            Some(ms) => ms as int % 0x1_0000_0000_0000_0000,
            None => 0,
        },
{
    match since_epoch_ms {
        Some(ms) => {
            assert(ms as u64 == ms % 0x1_0000_0000_0000_0000u128) by (bit_vector);
            ms as u64
        },
        None => 0,
    }
}

/// A warning goes out if the last one under the same slot is at least a second
/// old.
pub open spec fn warns(last_ms: u64, now_ms: u64) -> bool {
    now_ms >= last_ms + 1000
}

/// Throttles a warning to one per second. Returns whether to warn now, and
/// then notes the time in the slot.
pub fn warn_capped(slot: &mut u64, now_ms: u64) -> (r: bool)
    ensures
        r == warns(*old(slot), now_ms),
        *final(slot) == if r {
            now_ms
        } else {
            *old(slot)
        },
{
    let last: u64 = *slot;
    if now_ms.saturating_sub(last) >= 1000 {
        *slot = now_ms;
        true
    } else {
        false
    }
}

/// A warning and the next one under the same slot are never less than a second
/// apart.
pub proof fn law_warnings_are_a_second_apart(slot: u64, first_ms: u64, second_ms: u64)
    requires
        warns(slot, first_ms),
        warns(first_ms, second_ms),
    ensures
        second_ms - first_ms >= 1000,
{
}

/// The counter one up, as an atomic counter counts.
pub open spec fn counted_up(n: i64) -> i64 {
    if n == i64::MAX {
        i64::MIN
    } else {
        (n + 1) as i64
    }
}

/// The counter one down, as an atomic counter counts.
pub open spec fn counted_down(n: i64) -> i64 {
    if n == i64::MIN {
        i64::MAX
    } else {
        (n - 1) as i64
    }
}

/// One count in the number of active TCP connections. Its holder gives it back
/// on every way out, an abort included.
pub struct ActiveTcpGuard {}

impl ActiveTcpGuard {
    /// Counts a connection in.
    pub fn new(active: &mut i64) -> (r: ActiveTcpGuard)
        ensures
            *final(active) == counted_up(*old(active)),
    {
        *active = active.wrapping_add(1);
        ActiveTcpGuard {  }
    }

    /// Counts the connection out.
    pub fn release(self, active: &mut i64)
        ensures
            *final(active) == counted_down(*old(active)),
    {
        *active = active.wrapping_sub(1);
    }
}

/// The counter after a history of connections counted in (`true`) and out
/// (`false`).
pub open spec fn counted(active: i64, history: Seq<bool>) -> i64
    decreases history.len(),
{
    if history.len() == 0 {
        active
    } else if history.last() {
        counted_up(counted(active, history.drop_last()))
    } else {
        counted_down(counted(active, history.drop_last()))
    }
}

/// How many connections a history counts in, less those it counts out.
pub open spec fn balance(history: Seq<bool>) -> int
    decreases history.len(),
{
    if history.len() == 0 {
        0
    } else if history.last() {
        balance(history.drop_last()) + 1
    } else {
        balance(history.drop_last()) - 1
    }
}

proof fn lemma_counted(active: i64, history: Seq<bool>) -> (turns: int)
    ensures
        counted(active, history) == active + balance(history) + turns * 0x1_0000_0000_0000_0000,
    decreases history.len(),
{
    if history.len() == 0 {
        0
    } else {
        let before = lemma_counted(active, history.drop_last());
        let n = counted(active, history.drop_last());
        if history.last() && n == i64::MAX {
            before - 1
        } else if !history.last() && n == i64::MIN {
            before + 1
        } else {
            before
        }
    }
}

/// However connections come and go, once every one that was counted in has
/// been counted out the counter is back where it was.
pub proof fn law_guards_balance(active: i64, history: Seq<bool>)
    requires
        balance(history) == 0,
    ensures
        counted(active, history) == active,
{
    let turns = lemma_counted(active, history);
}

/// The number of active connections as it is reported: never negative.
pub fn meow_active_tcp_conns(active: i64) -> (r: i64)
    ensures
        r == if active < 0 {
            0
        } else {
            active
        },
{
    if active < 0 {
        0
    } else {
        active
    }
}

/// A fixed number of permits.
#[derive(Clone, Copy, PartialEq, Eq, Structural, Debug)]
pub struct Permits {
    /// How many there are.
    pub cap: usize,
    /// How many are held.
    pub held: usize,
}

/// The permits after one more was asked for.
pub open spec fn acquired(permits: Permits) -> Permits {
    if permits.held < permits.cap {
        Permits { held: (permits.held + 1) as usize, ..permits }
    } else {
        permits
    }
}

/// The permits after one was given back.
pub open spec fn released(permits: Permits) -> Permits {
    Permits { held: (permits.held - 1) as usize, ..permits }
}

impl Permits {
    /// No more permits are held than there are.
    pub open spec fn wf(self) -> bool {
        self.held <= self.cap
    }

    /// All permits are free.
    pub fn new(cap: usize) -> (r: Permits)
        ensures
            r == (Permits { cap, held: 0 }),
            r.wf(),
    {
        Permits { cap, held: 0 }
    }

    /// Takes a permit, if one is free.
    pub fn try_acquire(&mut self) -> (r: bool)
        requires
            old(self).wf(),
        ensures
            final(self).wf(),
            r == (old(self).held < old(self).cap),
            *final(self) == acquired(*old(self)),
            *final(self) == if r {
                (Permits { held: (old(self).held + 1) as usize, ..*old(self) })
            } else {
                *old(self)
            },
    {
        if self.held < self.cap {
            self.held = self.held + 1;
            true
        } else {
            false
        }
    }

    /// Gives a held permit back.
    pub fn release(&mut self)
        requires
            old(self).wf(),
            old(self).held > 0,
        ensures
            final(self).wf(),
            *final(self) == released(*old(self)),
            *final(self) == (Permits { held: (old(self).held - 1) as usize, ..*old(self) }),
    {
        self.held = self.held - 1;
    }
}

/// Whether the tunnel runs, and whether its ingress queue is open.
#[derive(Clone, Copy, PartialEq, Eq, Structural, Debug)]
pub struct TunnelState {
    pub running: bool,
    pub ingress_open: bool,
}

/// Neither runs nor takes packets.
pub open spec fn stopped() -> TunnelState {
    TunnelState { running: false, ingress_open: false }
}

impl Default for TunnelState {
    fn default() -> (r: TunnelState)
        ensures
            r == stopped(),
    {
        TunnelState { running: false, ingress_open: false }
    }
}

/// The state after a start; `None` where a start is refused.
pub open spec fn started(state: TunnelState) -> Option<TunnelState> {
    if state.running {
        None
    } else {
        Some(TunnelState { running: true, ingress_open: true })
    }
}

/// Starts the tunnel and opens its ingress queue. A tunnel that runs is not
/// started again.
pub fn start(state: &mut TunnelState) -> (r: Result<(), &'static str>)
    ensures
        match r {
            Ok(()) => started(*old(state)) == Some(*final(state)),
            Err(e) => {
                &&& started(*old(state)) is None
                &&& e@ == "tun2socks already running"@
                &&& *final(state) == *old(state)
            },
        },
{
    if state.running {
        return Err("tun2socks already running");
    }
    state.running = true;
    state.ingress_open = true;
    Ok(())
}

/// Stops the tunnel and closes its ingress queue, which ends the ingress loop.
/// The tunnel's task does the same on its way out. Stopping twice is stopping
/// once.
pub fn stop(state: &mut TunnelState)
    ensures
        *final(state) == stopped(),
{
    state.running = false;
    state.ingress_open = false;
}

/// Whatever state a start succeeds in, a second start is refused until the
/// tunnel is stopped, and a stop always makes way for the next start.
pub proof fn law_start_and_stop_alternate(state: TunnelState)
    ensures
        started(state) matches Some(running) ==> started(running) is None,
        started(state) is None <==> state.running,
        started(stopped()) is Some,
{
}

/// What became of a packet that was offered to a queue.
#[derive(Clone, Copy, PartialEq, Eq, Structural, Debug)]
pub enum Offered {
    /// The queue took it.
    Taken,
    /// The queue is full.
    Full,
    /// Nobody reads the queue any more.
    Closed,
}

/// The reply to a pushed packet, given what the ingress queue did with it;
/// `None` where it was not offered to one. A full queue drops the packet rather
/// than hold up its producer, and that is no error: 0. A tunnel whose queue is
/// not open, or one that nobody reads: -1.
pub open spec fn ingest_code(state: TunnelState, offered: Option<Offered>) -> int {
    match offered {
        Some(Offered::Taken) if state.ingress_open => 0,
        Some(Offered::Full) if state.ingress_open => 0,
        _ => -1,
    }
}

/// Replies to a pushed packet.
pub fn ingest(state: &TunnelState, offered: Option<Offered>) -> (r: i32)
    ensures
        r == ingest_code(*state, offered),
{
    if !state.ingress_open {
        return -1;
    }
    match offered {
        Some(Offered::Taken) => 0,
        Some(Offered::Full) => 0,
        Some(Offered::Closed) => -1,
        None => -1,
    }
}

/// What happens to a tunnel as a whole.
pub enum Lifecycle {
    Start,
    Stop,
}

/// The state after a history. A start that is refused changes nothing.
pub open spec fn after(state: TunnelState, history: Seq<Lifecycle>) -> TunnelState
    decreases history.len(),
{
    if history.len() == 0 {
        state
    } else {
        let before = after(state, history.drop_last());
        match history.last() {
            Lifecycle::Start => match started(before) {
                Some(running) => running,
                None => before,
            },
            Lifecycle::Stop => stopped(),
        }
    }
}

/// After a stop every packet is refused until the next start, and stopping
/// again changes nothing.
pub proof fn law_stopped_tunnel_refuses_packets(
    state: TunnelState,
    history: Seq<Lifecycle>,
    offered: Option<Offered>,
)
    requires
        history.len() > 0,
        history.first() is Stop,
        forall|i: int| 0 <= i < history.len() ==> #[trigger] history[i] !is Start,
    ensures
        after(state, history) == after(state, seq![Lifecycle::Stop]),
        ingest_code(after(state, history), offered) == -1,
{
    assert(history[history.len() - 1] == history.last());
}

/// After a start that was not refused packets are taken: one that the ingress
/// queue takes, or drops because it is full, is answered with 0.
pub proof fn law_started_tunnel_takes_packets(state: TunnelState, offered: Option<Offered>)
    requires
        started(state) is Some,
    ensures
        ingest_code(started(state).unwrap(), offered) == 0 <==> offered == Some(Offered::Taken)
            || offered == Some(Offered::Full),
{
}

/// What the ingress loop does with a packet.
#[derive(Clone, Copy, PartialEq, Eq, Structural, Debug)]
pub enum IngressStep {
    /// The tunnel was stopped: leave the loop.
    Exit,
    /// A DNS query; a permit is held, and it is answered beside the loop.
    AnswerQuery,
    /// A DNS query beyond the cap: dropped, with a warning or without.
    DropQuery { warn: bool },
    /// Any other packet goes to the stack.
    ToStack,
}

/// What becomes of an ingress packet while so many of the permits for queries
/// are held.
pub open spec fn ingress_step(
    running: bool,
    packet: Seq<u8>,
    queries: Permits,
    last_warning_ms: u64,
    now_ms: u64,
) -> IngressStep {
    if !running {
        IngressStep::Exit
    } else if !crate::dns::is_dns_packet(packet) {
        IngressStep::ToStack
    } else if queries.held < queries.cap {
        IngressStep::AnswerQuery
    } else {
        IngressStep::DropQuery { warn: warns(last_warning_ms, now_ms) }
    }
}

/// Decides over an ingress packet.
pub fn on_ingress(
    running: bool,
    packet: &[u8],
    queries: &mut Permits,
    warn_slot: &mut u64,
    now_ms: u64,
) -> (r: IngressStep)
    requires
        old(queries).wf(),
    ensures
        final(queries).wf(),
        final(queries).cap == old(queries).cap,
        r == ingress_step(running, packet@, *old(queries), *old(warn_slot), now_ms),
        r == if !running {
            IngressStep::Exit
        } else if !crate::dns::is_dns_packet(packet@) {
            IngressStep::ToStack
        } else if old(queries).held < old(queries).cap {
            IngressStep::AnswerQuery
        } else {
            IngressStep::DropQuery { warn: warns(*old(warn_slot), now_ms) }
        },
        final(queries).held == if r is AnswerQuery {
            old(queries).held + 1
        } else {
            old(queries).held as int
        },
        *final(warn_slot) == if r == (IngressStep::DropQuery { warn: true }) {
            now_ms
        } else {
            *old(warn_slot)
        },
{
    if !running {
        return IngressStep::Exit;
    }
    if !is_dns_query(packet) {
        return IngressStep::ToStack;
    }
    if queries.try_acquire() {
        IngressStep::AnswerQuery
    } else {
        let warn = warn_capped(warn_slot, now_ms);
        IngressStep::DropQuery { warn }
    }
}

/// What the ingress loop does after it offered a packet to the stack.
#[derive(Clone, Copy, PartialEq, Eq, Structural, Debug)]
pub enum ForwardStep {
    /// On to the next packet.
    Next,
    /// Wait until the stack takes this one.
    SendBlocking,
    /// The stack is gone: leave the loop.
    Exit,
}

/// What follows an offer to the stack.
pub open spec fn forward_step(offered: Offered) -> ForwardStep {
    match offered {
        Offered::Taken => ForwardStep::Next,
        Offered::Full => ForwardStep::SendBlocking,
        Offered::Closed => ForwardStep::Exit,
    }
}

/// Decides what follows an offer to the stack. Unlike the ingress queue the
/// stack pushes back: no packet is dropped here.
pub fn on_forwarded(offered: Offered) -> (r: ForwardStep)
    ensures
        r == forward_step(offered),
        r == match offered {
            Offered::Taken => ForwardStep::Next,
            Offered::Full => ForwardStep::SendBlocking,
            Offered::Closed => ForwardStep::Exit,
        },
{
    match offered {
        Offered::Taken => ForwardStep::Next,
        Offered::Full => ForwardStep::SendBlocking,
        Offered::Closed => ForwardStep::Exit,
    }
}

/// Whether to warn about a frame that the egress queue did not take. The frame
/// is dropped either way.
pub fn on_egress(offered: Offered, warn_slot: &mut u64, now_ms: u64) -> (r: bool)
    ensures
        r == (offered != Offered::Taken && warns(*old(warn_slot), now_ms)),
        *final(warn_slot) == if r {
            now_ms
        } else {
            *old(warn_slot)
        },
{
    match offered {
        Offered::Taken => false,
        _ => warn_capped(warn_slot, now_ms),
    }
}

/// What the driver of the stack hears.
#[derive(Clone, Copy, PartialEq, Eq, Structural, Debug)]
pub enum StackEvent {
    /// A packet for the stack.
    Ingress,
    /// Nobody sends packets for the stack any more.
    IngressClosed,
    /// The stack took a packet.
    Fed,
    /// The stack refused a packet.
    FeedFailed,
    /// The stack produced a frame.
    Frame,
    /// The stack failed to produce a frame.
    FrameFailed,
    /// The stack produces no more frames.
    Ended,
}

/// What the driver of the stack does.
#[derive(Clone, Copy, PartialEq, Eq, Structural, Debug)]
pub enum StackStep {
    /// Feed the packet to the stack.
    Feed,
    /// Offer the frame to the egress queue.
    Emit,
    /// Wait for the next event.
    Next,
    /// Leave the loop.
    Exit,
}

/// What the driver of the stack does at an event.
pub open spec fn stack_step(event: StackEvent) -> StackStep {
    match event {
        StackEvent::Ingress => StackStep::Feed,
        StackEvent::Frame => StackStep::Emit,
        StackEvent::Fed => StackStep::Next,
        _ => StackStep::Exit,
    }
}

/// Decides what the driver of the stack does. It ends with either side, and
/// with the first error.
pub fn on_stack_event(event: StackEvent) -> (r: StackStep)
    ensures
        r == stack_step(event),
        r == match event {
            StackEvent::Ingress => StackStep::Feed,
            StackEvent::Frame => StackStep::Emit,
            StackEvent::Fed => StackStep::Next,
            _ => StackStep::Exit,
        },
{
    match event {
        StackEvent::Ingress => StackStep::Feed,
        StackEvent::Frame => StackStep::Emit,
        StackEvent::Fed => StackStep::Next,
        StackEvent::IngressClosed => StackStep::Exit,
        StackEvent::FeedFailed => StackStep::Exit,
        StackEvent::FrameFailed => StackStep::Exit,
        StackEvent::Ended => StackStep::Exit,
    }
}

/// What the accept loop does with a TCP stream.
#[derive(Clone, Copy, PartialEq, Eq, Structural, Debug)]
pub enum AcceptStep {
    /// DNS over TCP is not served inside the tunnel; the stream is dropped and
    /// the client retries over UDP.
    DropDns,
    /// No permit is free: hold the stream and ask again when one is.
    Wait,
    /// A permit is held and the flow is registered under the identifier.
    Dispatch { id: u64 },
}

/// What becomes of a stream to an endpoint while so many permits are held.
pub open spec fn accept_step(dst: Endpoint, permits: Permits, next_id: u64) -> AcceptStep {
    if dst.port == DNS_PORT {
        AcceptStep::DropDns
    } else if permits.held >= permits.cap {
        AcceptStep::Wait
    } else {
        AcceptStep::Dispatch { id: next_id }
    }
}

/// Decides over an accepted TCP stream.
pub fn on_tcp_accept(
    src: Endpoint,
    dst: Endpoint,
    permits: &mut Permits,
    table: &mut FlowTable,
    now_ms: u64,
) -> (r: AcceptStep)
    requires
        old(permits).wf(),
        old(table).wf(),
    ensures
        final(permits).wf(),
        final(permits).cap == old(permits).cap,
        final(table).wf(),
        r == accept_step(dst, *old(permits), old(table).next()),
        if dst.port == DNS_PORT {
            r == AcceptStep::DropDns
        } else if old(permits).held >= old(permits).cap {
            r == AcceptStep::Wait
        } else {
            r == (AcceptStep::Dispatch { id: old(table).next() })
        },
        match r {
            AcceptStep::Dispatch { id } => {
                &&& final(permits).held == old(permits).held + 1
                &&& final(table).flows() == old(table).flows().insert(
                    id,
                    (crate::flows::FlowRecord { last_active_ms: now_ms, src, dst }),
                )
                &&& final(table).next() == if id == u64::MAX {
                    0
                } else {
                    (id + 1) as u64
                }
                &&& old(table).ids_are_past() ==> !old(table).flows().contains_key(id)
                &&& old(table).ids_are_past() && id < u64::MAX ==> final(table).ids_are_past()
            },
            _ => *final(permits) == *old(permits) && *final(table) == *old(table),
        },
{
    if dst.port == DNS_PORT {
        return AcceptStep::DropDns;
    }
    if !permits.try_acquire() {
        return AcceptStep::Wait;
    }
    let id = table.register(src, dst, now_ms);
    AcceptStep::Dispatch { id }
}

/// A dispatched flow ended: it leaves the registry, if it is still there, and
/// its permit is free again.
pub fn on_tcp_end(id: u64, permits: &mut Permits, table: &mut FlowTable)
    requires
        old(permits).wf(),
        old(permits).held > 0,
        old(table).wf(),
    ensures
        final(permits).wf(),
        *final(permits) == (Permits { held: (old(permits).held - 1) as usize, ..*old(permits) }),
        final(table).wf(),
        final(table).flows() == old(table).flows().remove(id),
        final(table).next() == old(table).next(),
        old(table).ids_are_past() ==> final(table).ids_are_past(),
{
    let _ = table.finish(id);
    permits.release();
}

/// A tick of the idle sweeper. Returns whether the sweeper goes on: it ends
/// with the tunnel.
pub fn on_sweep_tick(
    running: bool,
    table: &mut FlowTable,
    now_ms: u64,
    evicted: &mut Vec<ClosedFlow>,
) -> (r: bool)
    requires
        old(table).wf(),
    ensures
        final(table).wf(),
        r == running,
        final(table).next() == old(table).next(),
        old(table).ids_are_past() ==> final(table).ids_are_past(),
        if running {
            let cutoff = Some(crate::flows::sweep_cutoff(now_ms));
            &&& final(table).flows() == crate::flows::active_flows(old(table).flows(), cutoff)
            &&& crate::flows::closes(old(evicted)@, final(evicted)@, old(table).flows(), cutoff)
        } else {
            &&& final(table).flows() == old(table).flows()
            &&& final(evicted)@ == old(evicted)@
        },
{
    if !running {
        return false;
    }
    let _ = sweep_idle_tcp_flows(table, now_ms, evicted);
    true
}

/// A tick of the registry watchdog. Returns whether the watchdog goes on: it
/// ends with the tunnel.
pub fn on_watchdog_tick(running: bool, table: &mut FlowTable, closed: &mut Vec<ClosedFlow>) -> (r:
    bool)
    requires
        old(table).wf(),
    ensures
        final(table).wf(),
        r == running,
        final(table).next() == old(table).next(),
        old(table).ids_are_past() ==> final(table).ids_are_past(),
        if running && old(table).flows().dom().len() > crate::flows::TCP_WATCHDOG_THRESHOLD {
            &&& final(table).flows() == crate::flows::no_flows()
            &&& crate::flows::closes(old(closed)@, final(closed)@, old(table).flows(), None)
        } else {
            &&& final(table).flows() == old(table).flows()
            &&& final(closed)@ == old(closed)@
        },
{
    if !running {
        return false;
    }
    let _ = registry_watchdog(table, closed);
    true
}

/// The tunnel's loops have ended: every flow still registered is closed, so
/// that none outlives the tunnel.
pub fn on_tunnel_exit(state: &mut TunnelState, table: &mut FlowTable, closed: &mut Vec<ClosedFlow>)
    requires
        old(table).wf(),
    ensures
        *final(state) == stopped(),
        final(table).wf(),
        final(table).flows() == crate::flows::no_flows(),
        final(table).next() == old(table).next(),
        crate::flows::closes(old(closed)@, final(closed)@, old(table).flows(), None),
{
    let _ = close_all_tcp_flows(table, closed);
    stop(state);
}

/// Every live flow is one of the dispatched ones, and each of those holds a
/// permit. A flow that was closed early holds its permit until its task ends,
/// and an identifier that comes round again may be dispatched twice.
pub open spec fn covers(
    dispatched: Multiset<u64>,
    permits: Permits,
    flows: Map<u64, crate::flows::FlowRecord>,
) -> bool {
    &&& permits.wf()
    &&& dispatched.len() == permits.held
    &&& flows.dom().finite()
    &&& forall|id: u64| #[trigger] flows.contains_key(id) ==> dispatched.count(id) > 0
}

proof fn lemma_distinct_members(ids: Set<u64>, members: Multiset<u64>)
    requires
        ids.finite(),
        forall|id: u64| #[trigger] ids.contains(id) ==> members.count(id) > 0,
    ensures
        ids.len() <= members.len(),
    decreases ids.len(),
{
    broadcast use vstd::multiset::group_multiset_properties;

    if ids.len() > 0 {
        let id = ids.choose();
        let fewer = members.remove(id);
        assert(ids.contains(id));
        assert forall|other: u64| #[trigger] ids.remove(id).contains(other) implies fewer.count(
            other,
        ) > 0 by {
            assert(ids.contains(other));
        }
        lemma_distinct_members(ids.remove(id), fewer);
        assert(fewer.len() == members.len() - 1);
    }
}

/// The accept cap bounds the registry: no more flows are live than the cap
/// admits.
pub proof fn law_registry_stays_within_cap(
    dispatched: Multiset<u64>,
    permits: Permits,
    flows: Map<u64, crate::flows::FlowRecord>,
)
    requires
        covers(dispatched, permits, flows),
    ensures
        flows.dom().len() <= permits.cap,
{
    assert forall|id: u64| #[trigger] flows.dom().contains(id) implies dispatched.count(id) > 0 by {
        assert(flows.contains_key(id));
    }
    lemma_distinct_members(flows.dom(), dispatched);
}

/// Accepting a flow, ending a dispatched one, sweeping and closing all keep the
/// permits in step with the dispatched flows, and a fresh tunnel starts in
/// step.
pub proof fn law_permits_track_dispatched_flows(
    dispatched: Multiset<u64>,
    permits: Permits,
    flows: Map<u64, crate::flows::FlowRecord>,
    id: u64,
    rec: crate::flows::FlowRecord,
    cutoff: Option<u64>,
)
    requires
        covers(dispatched, permits, flows),
    ensures
        permits.held < permits.cap ==> covers(
            dispatched.insert(id),
            (Permits { held: (permits.held + 1) as usize, ..permits }),
            flows.insert(id, rec),
        ),
        dispatched.count(id) > 0 ==> permits.held > 0 && covers(
            dispatched.remove(id),
            (Permits { held: (permits.held - 1) as usize, ..permits }),
            flows.remove(id),
        ),
        covers(dispatched, permits, crate::flows::active_flows(flows, cutoff)),
        covers(dispatched, permits, crate::flows::no_flows()),
        covers(
            Multiset::empty(),
            (Permits { held: 0, ..permits }),
            crate::flows::no_flows(),
        ),
{
    broadcast use vstd::multiset::group_multiset_properties;

    if dispatched.count(id) > 0 {
        assert(dispatched.remove(id).len() == dispatched.len() - 1);
    }
    assert(crate::flows::active_flows(flows, cutoff).dom() =~= flows.dom().difference(
        crate::flows::idle_ids(flows, cutoff),
    ));
}

/// A warning goes out exactly where a second or more has gone by since the last
/// one; a clock that went back keeps it in.
pub proof fn law_warnings_wait_a_second(last_ms: u64, now_ms: u64)
    ensures
        warns(last_ms, now_ms) <==> now_ms - last_ms >= 1000,
{
}

/// One connection in adds one and one out takes one off, with nothing lost at
/// either end of the counter: out undoes in, and in undoes out.
pub proof fn law_counting_in_and_out_are_inverse(n: i64)
    ensures
        counted_down(counted_up(n)) == n,
        counted_up(counted_down(n)) == n,
        n < i64::MAX ==> counted_up(n) == n + 1,
        n > i64::MIN ==> counted_down(n) == n - 1,
{
}

/// A pushed packet is taken exactly where the ingress queue is open and took it
/// or dropped it for being full; only then is the answer 0, and else it is -1.
pub proof fn law_ingest_answers(state: TunnelState, offered: Option<Offered>)
    ensures
        ingest_code(state, offered) == 0 || ingest_code(state, offered) == -1,
        state.ingress_open ==> (ingest_code(state, offered) == -1 <==> offered is None || offered
            == Some(Offered::Closed)),
        !state.ingress_open ==> ingest_code(state, offered) == -1,
{
}

/// A start takes effect whole: a tunnel that does not run then runs and takes
/// packets, one that runs is refused; and a stop undoes all of it.
pub proof fn law_start_opens_and_stop_closes(state: TunnelState)
    ensures
        state.running ==> started(state) is None,
        !state.running ==> (started(state) matches Some(s) && s.running && s.ingress_open),
        !stopped().running && !stopped().ingress_open,
{
}

/// Every query that comes in as IPv4 + UDP to port 53 is answered while a permit
/// is free and dropped while none is; every other packet goes to the stack,
/// whatever it is; and once the tunnel is stopped nothing is looked at any more.
/// Nothing in a packet but its framing and its destination port matters.
pub proof fn law_ingress_goes_by_port_and_permits(
    ip: Seq<u8>,
    udp: Seq<u8>,
    body: Seq<u8>,
    queries: Permits,
    last_warning_ms: u64,
    now_ms: u64,
)
    requires
        20 <= ip.len() <= 60,
        ip.len() % 4 == 0,
        ip[0] == 0x40 + ip.len() / 4,
        ip[9] == 17,
        udp.len() == 8,
        udp[4] * 0x100 + udp[5] >= 8,
    ensures
        ({
            let to_dns = udp[2] == 0 && udp[3] == 53;
            let step = ingress_step(true, ip + udp + body, queries, last_warning_ms, now_ms);
            &&& step is AnswerQuery <==> to_dns && queries.held < queries.cap
            &&& step is DropQuery <==> to_dns && queries.held >= queries.cap
            &&& step is ToStack <==> !to_dns
            &&& step is DropQuery ==> step == (IngressStep::DropQuery {
                warn: now_ms - last_warning_ms >= 1000,
            })
        }),
        ingress_step(false, ip + udp + body, queries, last_warning_ms, now_ms) is Exit,
{
    crate::dns::law_port_decides_interception(ip, udp, body);
}

/// A packet that is no IPv4, carries no UDP or is cut short goes to the stack.
pub proof fn law_other_packets_go_to_the_stack(
    packet: Seq<u8>,
    queries: Permits,
    last_warning_ms: u64,
    now_ms: u64,
)
    requires
        packet.len() < 28 || packet[0] < 0x40 || packet[0] > 0x4F || packet[9] != 17,
    ensures
        ingress_step(true, packet, queries, last_warning_ms, now_ms) is ToStack,
{
    crate::dns::law_other_traffic_is_left_alone(packet);
}

/// Every stream is dispatched, under the next identifier, as soon as a permit is
/// free, and held until then; only one to port 53 is dropped, permit or not.
pub proof fn law_streams_wait_for_permits(
    dst: Endpoint,
    permits: Permits,
    next_id: u64,
)
    ensures
        accept_step(dst, permits, next_id) is DropDns <==> dst.port == 53,
        dst.port != 53 ==> (accept_step(dst, permits, next_id) is Wait <==> permits.held
            >= permits.cap),
        dst.port != 53 && permits.held < permits.cap ==> accept_step(dst, permits, next_id) == (
        AcceptStep::Dispatch { id: next_id }),
{
}

/// No packet on its way to the stack is dropped while the stack is there: one
/// that it takes makes way for the next, one that it cannot take yet is waited
/// for, and only a stack that is gone ends the loop.
pub proof fn law_the_stack_pushes_back(offered: Offered)
    ensures
        forward_step(offered) is Exit <==> offered is Closed,
        forward_step(offered) is Next <==> offered is Taken,
        forward_step(offered) is SendBlocking <==> offered is Full,
{
}

/// Every packet is fed and every frame is emitted, and the driver goes on until
/// a side ends or an error comes.
pub proof fn law_the_driver_ends_with_its_sides(event: StackEvent)
    ensures
        stack_step(event) is Feed <==> event is Ingress,
        stack_step(event) is Emit <==> event is Frame,
        stack_step(event) is Next <==> event is Fed,
        stack_step(event) is Exit <==> event is IngressClosed || event is Ended || event
            is FeedFailed || event is FrameFailed,
{
}

/// The defaults and the bounds that the tunnel runs with.
pub proof fn law_tunnel_limits()
    ensures
        TCP_ACCEPT_CAP_DEFAULT == 32,
        DIAL_DEADLINE_MS_DEFAULT == 10_000,
        UDP_FIRST_REPLY_DEADLINE_MS_DEFAULT == 10_000,
        DNS_BURST_CAP == 256,
        DNS_TASK_TIMEOUT_SECS == 5,
        DNS_PASSTHROUGH_TIMEOUT_SECS == 3,
        INGRESS_QUEUE_LEN == 256,
        EGRESS_QUEUE_LEN == 1024,
{
}

/// Permits are neither lost nor made: one that is taken counts once, giving it
/// back undoes that, their number never changes, and no more are ever held than
/// there are.
pub proof fn law_permits_are_conserved(permits: Permits)
    requires
        permits.held <= permits.cap,
    ensures
        acquired(permits).cap == permits.cap,
        acquired(permits).held <= permits.cap,
        permits.held < permits.cap ==> acquired(permits).held == permits.held + 1 && released(
            acquired(permits),
        ) == permits,
        permits.held == permits.cap ==> acquired(permits) == permits,
        permits.held > 0 ==> released(permits).held == permits.held - 1 && released(permits).cap
            == permits.cap,
        permits.wf(),
{
}

} // verus!
