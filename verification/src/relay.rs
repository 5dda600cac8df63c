//! One TCP flow: the metadata it is dispatched with, the watchdog over its
//! dial, the activity that its stream reports, and how its relay ends.

use crate::net::{Endpoint, IpAddress};
use vstd::prelude::*;

verus! {

/// The transport of a flow.
#[derive(Clone, Copy, PartialEq, Eq, Structural, Debug)]
pub enum Network {
    Tcp,
    Udp,
}

/// How a connection came to the engine.
#[derive(Clone, Copy, PartialEq, Eq, Structural, Debug)]
pub enum ConnType {
    Http,
    Https,
    Socks4,
    Socks5,
    Shadowsocks,
    Vmess,
    Vless,
    Redir,
    TProxy,
    Trojan,
    Tunnel,
    Tuic,
    Hysteria2,
    /// From inside the process, past every listener.
    Inner,
}

/// What the engine is told about a flow.
#[derive(Debug)]
pub struct FlowMetadata {
    pub network: Network,
    pub conn_type: ConnType,
    pub src_ip: IpAddress,
    pub src_port: u16,
    pub dst_ip: IpAddress,
    pub dst_port: u16,
    /// The name of the destination, empty where none is given.
    pub host: String,
}

/// The metadata are those of a flow from `src` to `dst` that starts inside the
/// process. No host name is given: the engine's resolver knows the name behind
/// a synthetic address, and any other address is matched as it is.
pub open spec fn describes(
    metadata: FlowMetadata,
    network: Network,
    src: Endpoint,
    dst: Endpoint,
) -> bool {
    &&& metadata.network == network
    &&& metadata.conn_type == ConnType::Inner
    &&& metadata.src_ip == src.ip
    &&& metadata.src_port == src.port
    &&& metadata.dst_ip == dst.ip
    &&& metadata.dst_port == dst.port
    &&& metadata.host@ == Seq::<char>::empty()
}

impl FlowMetadata {
    /// Metadata of a flow from `src` to `dst`.
    pub fn new(network: Network, src: Endpoint, dst: Endpoint) -> (r: FlowMetadata)
        ensures
            describes(r, network, src, dst),
    {
        FlowMetadata {
            network,
            conn_type: ConnType::Inner,
            src_ip: src.ip,
            src_port: src.port,
            dst_ip: dst.ip,
            dst_port: dst.port,
            host: String::new(),
        }
    }
}

/// How a flow is dispatched.
#[derive(Debug)]
pub enum DispatchStep {
    /// There is no engine to take it.
    Drop,
    /// The engine takes it with these metadata.
    Dispatch { metadata: FlowMetadata },
}

/// Decides how a flow from `src` to `dst` is dispatched, given whether the
/// engine runs. A flow that comes while no engine runs is dropped.
pub fn on_dispatch(network: Network, running: bool, src: Endpoint, dst: Endpoint) -> (r:
    DispatchStep)
    ensures
        match r {
            DispatchStep::Drop => !running,
            DispatchStep::Dispatch { metadata } => running && describes(
                metadata,
                network,
                src,
                dst,
            ),
        },
{
    if running {
        DispatchStep::Dispatch { metadata: FlowMetadata::new(network, src, dst) }
    } else {
        DispatchStep::Drop
    }
}

/// How often the dial watchdog looks, in milliseconds.
pub const DIAL_TICK_MS: u64 = 500;

/// How long the relay may flush after the local end closed, in milliseconds.
pub const LOCAL_EOF_GRACE_MS: u64 = 250;

/// Watchdog over the dial of one flow.
#[derive(Clone, Copy, PartialEq, Eq, Structural, Debug)]
pub enum DialWatchdog {
    /// It never fires: there is no deadline, or the relay has started and owns
    /// the rest of the flow's life.
    Parked,
    /// It waits for the relay to start until an instant, in milliseconds on the
    /// clock that the ticks are read from.
    Armed { accepted_at_ms: u64, deadline_at: u128 },
}

/// What the watchdog does at a tick.
#[derive(Clone, Copy, PartialEq, Eq, Structural, Debug)]
pub enum DialStep {
    /// Sleep for one more tick.
    Sleep,
    /// Never wake again.
    Park,
    /// The dial is hung: drop the flow.
    Fire,
}

/// The watchdog of a flow that was accepted with the given stamp, started at
/// an instant. A deadline of zero opts out.
pub open spec fn armed(
    accepted_at_ms: u64,
    dial_deadline_ms: u64,
    started_at: u64,
) -> DialWatchdog {
    if dial_deadline_ms == 0 {
        DialWatchdog::Parked
    } else {
        DialWatchdog::Armed {
            accepted_at_ms,
            deadline_at: (started_at + dial_deadline_ms) as u128,
        }
    }
}

/// What a watchdog does at a tick. The stamp of the flow moves past the
/// accept stamp at the first poll of the relay that comes through, so an
/// unmoved stamp says that the dial has not completed. The stamp is read again at the
/// deadline: the relay may have started since the tick began.
pub open spec fn dial_step(
    dog: DialWatchdog,
    last_active_ms: u64,
    now: u64,
    last_active_again_ms: u64,
) -> DialStep {
    match dog {
        DialWatchdog::Parked => DialStep::Park,
        DialWatchdog::Armed { accepted_at_ms, deadline_at } => if last_active_ms > accepted_at_ms {
            DialStep::Park
        } else if now < deadline_at {
            DialStep::Sleep
        } else if last_active_again_ms > accepted_at_ms {
            DialStep::Park
        } else {
            DialStep::Fire
        },
    }
}

impl DialWatchdog {
    /// Arms the watchdog of a flow.
    pub fn start(accepted_at_ms: u64, dial_deadline_ms: u64, started_at: u64) -> (r: DialWatchdog)
        ensures
            r == armed(accepted_at_ms, dial_deadline_ms, started_at),
    {
        if dial_deadline_ms == 0 {
            return DialWatchdog::Parked;
        }
        let deadline_at: u128 = started_at as u128 + dial_deadline_ms as u128;
        DialWatchdog::Armed { accepted_at_ms, deadline_at }
    }

    /// A tick: the stamp of the flow, the instant, and the stamp read again.
    /// The watchdog reads stamps and never writes them.
    pub fn tick(&mut self, last_active_ms: u64, now: u64, last_active_again_ms: u64) -> (r:
        DialStep)
        ensures
            r == dial_step(*old(self), last_active_ms, now, last_active_again_ms),
            *final(self) == if r is Park {
                DialWatchdog::Parked
            } else {
                *old(self)
            },
    {
        match *self {
            DialWatchdog::Parked => DialStep::Park,
            DialWatchdog::Armed { accepted_at_ms, deadline_at } => {
                if last_active_ms > accepted_at_ms {
                    *self = DialWatchdog::Parked;
                    return DialStep::Park;
                }
                if now as u128 >= deadline_at {
                    if last_active_again_ms > accepted_at_ms {
                        *self = DialWatchdog::Parked;
                        return DialStep::Park;
                    }
                    return DialStep::Fire;
                }
                DialStep::Sleep
            },
        }
    }
}

/// The instant of a tick: ticks come one tick apart.
pub open spec fn tick_at(started_at: u64, n: nat) -> int {
    started_at + n * DIAL_TICK_MS
}

/// The tick at which the watchdog of a flow fires whose relay never starts.
pub open spec fn firing_tick(dial_deadline_ms: u64) -> nat {
    ((dial_deadline_ms + DIAL_TICK_MS - 1) / DIAL_TICK_MS as int) as nat
}

/// A flow whose relay never starts is reaped: the watchdog sleeps through every
/// earlier tick and fires at one that comes less than a tick after the
/// deadline, and not before it.
pub proof fn law_hung_dial_is_reaped(
    accepted_at_ms: u64,
    dial_deadline_ms: u64,
    started_at: u64,
    n: nat,
)
    requires
        dial_deadline_ms > 0,
        n <= firing_tick(dial_deadline_ms),
        tick_at(started_at, n) <= u64::MAX,
    ensures
        dial_step(
            armed(accepted_at_ms, dial_deadline_ms, started_at),
            accepted_at_ms,
            tick_at(started_at, n) as u64,
            accepted_at_ms,
        ) == if n < firing_tick(dial_deadline_ms) {
            DialStep::Sleep
        } else {
            DialStep::Fire
        },
        started_at + dial_deadline_ms <= tick_at(started_at, firing_tick(dial_deadline_ms))
            < started_at + dial_deadline_ms + DIAL_TICK_MS,
{
    let k = firing_tick(dial_deadline_ms);
    assert(k * 500 == (dial_deadline_ms + 499) - (dial_deadline_ms + 499) % 500);
    assert(n * DIAL_TICK_MS == n * 500);
}

/// Once the relay has started the watchdog never fires, whatever the clock
/// says, and it stays parked.
pub proof fn law_started_relay_is_left_alone(
    dog: DialWatchdog,
    last_active_ms: u64,
    now: u64,
    last_active_again_ms: u64,
)
    requires
        dog matches DialWatchdog::Armed { accepted_at_ms, .. } ==> last_active_again_ms
            > accepted_at_ms,
    ensures
        dial_step(dog, last_active_ms, now, last_active_again_ms) !is Fire,
        dial_step(DialWatchdog::Parked, last_active_ms, now, last_active_again_ms) is Park,
{
}

/// A deadline of zero opts out: the watchdog never fires.
pub proof fn law_zero_deadline_opts_out(
    accepted_at_ms: u64,
    started_at: u64,
    last_active_ms: u64,
    now: u64,
    last_active_again_ms: u64,
)
    ensures
        dial_step(
            armed(accepted_at_ms, 0, started_at),
            last_active_ms,
            now,
            last_active_again_ms,
        ) is Park,
{
}

/// What a poll of a stream's read side came to.
#[derive(Clone, Copy, PartialEq, Eq, Structural, Debug)]
pub enum ReadPoll {
    Pending,
    /// Ready, with the filled length of the buffer before and after.
    Ready { before: usize, after: usize },
    Failed,
}

/// What follows from a poll of the read side.
#[derive(Clone, Copy, PartialEq, Eq, Structural, Debug)]
pub struct ReadEffect {
    /// The flow was active now.
    pub touch: bool,
    /// The local end is closed, and whoever waits for that is woken.
    pub notify: bool,
}

/// The read side reports the end of the stream: ready without an octet, or an
/// error such as a reset.
pub open spec fn reads_end(poll: ReadPoll) -> bool {
    match poll {
        ReadPoll::Pending => false,
        ReadPoll::Ready { before, after } => after <= before,
        ReadPoll::Failed => true,
    }
}

/// What a poll of the write side came to.
#[derive(Clone, Copy, PartialEq, Eq, Structural, Debug)]
pub enum WritePoll {
    Pending,
    /// Ready, with the number of octets taken.
    Ready { written: usize },
    Failed,
}

/// Bookkeeping of a stream that reports its activity, in both directions.
#[derive(Clone, Copy, PartialEq, Eq, Structural, Debug)]
pub struct IdleTracking {
    /// The end of the stream has been reported. It is reported once, even if
    /// the closed read side is polled again.
    pub eof_fired: bool,
}

impl IdleTracking {
    pub fn new() -> (r: IdleTracking)
        ensures
            !r.eof_fired,
    {
        IdleTracking { eof_fired: false }
    }

    /// A poll of the read side. One that came through is activity, the end of
    /// the stream included; one that would block or failed is not.
    pub fn on_read(&mut self, poll: ReadPoll) -> (r: ReadEffect)
        ensures
            r.touch == (poll is Ready),
            r.notify == (reads_end(poll) && !old(self).eof_fired),
            final(self).eof_fired == (old(self).eof_fired || reads_end(poll)),
            match poll {
                ReadPoll::Ready { before, after } => if after > before {
                    !r.notify && final(self).eof_fired == old(self).eof_fired
                } else {
                    r.notify == !old(self).eof_fired && final(self).eof_fired
                },
                ReadPoll::Failed => r.notify == !old(self).eof_fired && final(self).eof_fired,
                ReadPoll::Pending => !r.notify && *final(self) == *old(self),
            },
    {
        let (touch, ended) = match poll {
            ReadPoll::Pending => (false, false),
            ReadPoll::Ready { before, after } => (true, after <= before),
            ReadPoll::Failed => (false, true),
        };
        let notify = ended && !self.eof_fired;
        if ended {
            self.eof_fired = true;
        }
        ReadEffect { touch, notify }
    }

    /// A poll of the write side. Returns whether the flow was active: one that
    /// came through is activity, one that would block or failed is not.
    pub fn on_write(&self, poll: WritePoll) -> (r: bool)
        ensures
            r == (poll is Ready),
    {
        match poll {
            WritePoll::Ready { .. } => true,
            _ => false,
        }
    }
}

/// How often a history of read polls reports the end of the stream.
pub open spec fn notifications(fired: bool, polls: Seq<ReadPoll>) -> nat
    decreases polls.len(),
{
    if polls.len() == 0 {
        0
    } else {
        let now = reads_end(polls.first());
        (if now && !fired {
            1nat
        } else {
            0nat
        }) + notifications(fired || now, polls.drop_first())
    }
}

/// However often the read side is polled, the end of the stream is reported at
/// most once, and exactly once where some poll saw it.
pub proof fn law_end_is_reported_once(polls: Seq<ReadPoll>)
    ensures
        notifications(false, polls) == if (exists|i: int|
            0 <= i < polls.len() && reads_end(#[trigger] polls[i])) {
            1nat
        } else {
            0nat
        },
    decreases polls.len(),
{
    if polls.len() > 0 {
        let tail = polls.drop_first();
        assert(polls[0] == polls.first());
        lemma_no_report_after_end(tail);
        law_end_is_reported_once(tail);
        assert forall|i: int| 0 <= i < tail.len() implies #[trigger] tail[i] == polls[i + 1] by {}
        if exists|i: int| 0 <= i < polls.len() && reads_end(#[trigger] polls[i]) {
            let i = choose|i: int| 0 <= i < polls.len() && reads_end(#[trigger] polls[i]);
            if i > 0 {
                assert(reads_end(tail[i - 1]));
            }
        } else {
            assert forall|i: int| 0 <= i < tail.len() implies !reads_end(#[trigger] tail[i]) by {
                assert(!reads_end(polls[i + 1]));
            }
        }
    }
}

proof fn lemma_no_report_after_end(polls: Seq<ReadPoll>)
    ensures
        notifications(true, polls) == 0,
    decreases polls.len(),
{
    if polls.len() > 0 {
        lemma_no_report_after_end(polls.drop_first());
    }
}

/// What the task of a flow waits for.
#[derive(Clone, Copy, PartialEq, Eq, Structural, Debug)]
pub enum RelayEvent {
    /// The relay came to its end.
    RelayDone,
    /// The local end closed.
    LocalEof,
    /// The dial watchdog fired.
    DialDeadline,
}

/// How the task of a flow goes on.
#[derive(Clone, Copy, PartialEq, Eq, Structural, Debug)]
pub enum RelayStep {
    /// Nothing has happened yet.
    Wait,
    /// The flow is over.
    Finish,
    /// Give the relay this long to close the outbound side cleanly, and drop
    /// it if it has not ended by then: the peer may never close its side.
    Grace { ms: u64 },
    /// Drop the relay of a dial that hangs.
    DropHung,
}

/// The event that counts where several have happened: the end of the relay
/// before the local close, and that before the deadline.
pub open spec fn first_event(relay_done: bool, local_eof: bool, dial_fired: bool) -> Option<
    RelayEvent,
> {
    if relay_done {
        Some(RelayEvent::RelayDone)
    } else if local_eof {
        Some(RelayEvent::LocalEof)
    } else if dial_fired {
        Some(RelayEvent::DialDeadline)
    } else {
        None
    }
}

/// How the task of a flow goes on.
pub open spec fn next_step(relay_done: bool, local_eof: bool, dial_fired: bool) -> RelayStep {
    match first_event(relay_done, local_eof, dial_fired) {
        None => RelayStep::Wait,
        Some(RelayEvent::RelayDone) => RelayStep::Finish,
        Some(RelayEvent::LocalEof) => RelayStep::Grace { ms: LOCAL_EOF_GRACE_MS },
        Some(RelayEvent::DialDeadline) => RelayStep::DropHung,
    }
}

/// Decides how the task of a flow goes on, given what has happened.
pub fn relay_step(relay_done: bool, local_eof: bool, dial_fired: bool) -> (r: RelayStep)
    ensures
        r == next_step(relay_done, local_eof, dial_fired),
        r == match first_event(relay_done, local_eof, dial_fired) {
            None => RelayStep::Wait,
            Some(RelayEvent::RelayDone) => RelayStep::Finish,
            Some(RelayEvent::LocalEof) => RelayStep::Grace { ms: LOCAL_EOF_GRACE_MS },
            Some(RelayEvent::DialDeadline) => RelayStep::DropHung,
        },
{
    if relay_done {
        RelayStep::Finish
    } else if local_eof {
        RelayStep::Grace { ms: LOCAL_EOF_GRACE_MS }
    } else if dial_fired {
        RelayStep::DropHung
    } else {
        RelayStep::Wait
    }
}

/// Data never end a stream: a poll that filled any octets into the buffer,
/// however full that was before, is not the end. A poll that came through
/// without one is, a failed one is, and one that would block is not.
pub proof fn law_data_are_not_the_end(before: usize, after: usize)
    ensures
        after > before ==> !reads_end(ReadPoll::Ready { before, after }),
        after == before ==> reads_end(ReadPoll::Ready { before, after }),
        after < before ==> reads_end(ReadPoll::Ready { before, after }),
        reads_end(ReadPoll::Failed),
        !reads_end(ReadPoll::Pending),
{
}

/// As long as a stream delivers, or has nothing to deliver, nothing is reported,
/// however long that goes on; the first poll without an octet, and the first
/// that fails, is.
pub proof fn law_a_delivering_stream_is_not_ended(polls: Seq<ReadPoll>)
    requires
        forall|i: int|
            #![trigger polls[i]]
            0 <= i < polls.len() ==> match polls[i] {
                ReadPoll::Ready { before, after } => before < after,
                ReadPoll::Pending => true,
                ReadPoll::Failed => false,
            },
    ensures
        notifications(false, polls) == 0,
        forall|n: usize|
            notifications(false, polls.push(#[trigger] empty_read(n))) == 1,
        notifications(false, polls.push(ReadPoll::Failed)) == 1,
{
    law_end_is_reported_once(polls);
    assert(forall|i: int| 0 <= i < polls.len() ==> !reads_end(#[trigger] polls[i]));
    assert forall|n: usize| notifications(false, polls.push(#[trigger] empty_read(n))) == 1 by {
        let all = polls.push(empty_read(n));
        law_end_is_reported_once(all);
        assert(reads_end(all[polls.len() as int]));
    }
    let all = polls.push(ReadPoll::Failed);
    law_end_is_reported_once(all);
    assert(reads_end(all[polls.len() as int]));
}

/// A poll that came through without an octet, with that much in the buffer.
pub open spec fn empty_read(filled: usize) -> ReadPoll {
    ReadPoll::Ready { before: filled, after: filled }
}

/// The watchdog over a dial, by the clock: while the stamp has not moved it
/// sleeps until the deadline has gone by and fires at every tick from then on;
/// once the stamp has moved, when the tick began or when it was read again at
/// the deadline, it never fires.
pub proof fn law_dial_watchdog_goes_by_the_clock(
    accepted_at_ms: u64,
    dial_deadline_ms: u64,
    started_at: u64,
    last_active_ms: u64,
    now: u64,
    last_active_again_ms: u64,
)
    requires
        dial_deadline_ms > 0,
    ensures
        ({
            let step = dial_step(
                armed(accepted_at_ms, dial_deadline_ms, started_at),
                last_active_ms,
                now,
                last_active_again_ms,
            );
            &&& last_active_ms <= accepted_at_ms && now - started_at < dial_deadline_ms ==> step
                is Sleep
            &&& last_active_ms <= accepted_at_ms && last_active_again_ms <= accepted_at_ms && now
                - started_at >= dial_deadline_ms ==> step is Fire
            &&& last_active_ms > accepted_at_ms ==> step is Park
            &&& last_active_again_ms > accepted_at_ms && now - started_at >= dial_deadline_ms
                ==> step is Park
        }),
{
}

/// What ends a flow: the end of its relay before anything else, the local end
/// before the deadline, and nothing where nothing has happened.
pub proof fn law_events_rank(relay_done: bool, local_eof: bool, dial_fired: bool)
    ensures
        first_event(true, local_eof, dial_fired) == Some(RelayEvent::RelayDone),
        first_event(false, true, dial_fired) == Some(RelayEvent::LocalEof),
        first_event(false, false, true) == Some(RelayEvent::DialDeadline),
        first_event(relay_done, local_eof, dial_fired) is None <==> !relay_done && !local_eof
            && !dial_fired,
{
}

/// A flow is described by where it comes from and where it goes: metadata that
/// describe two flows alike are those of one flow, each end in its own place,
/// and no host name is ever among them.
pub proof fn law_metadata_tell_flows_apart(
    metadata: FlowMetadata,
    network: Network,
    src: Endpoint,
    dst: Endpoint,
)
    requires
        describes(metadata, network, src, dst),
    ensures
        metadata.network == network,
        metadata.src_ip == src.ip && metadata.src_port == src.port,
        metadata.dst_ip == dst.ip && metadata.dst_port == dst.port,
        metadata.host@.len() == 0,
        metadata.conn_type is Inner,
        forall|other: Endpoint|
            #![trigger describes(metadata, network, src, other)]
            describes(metadata, network, src, other) ==> other.ip == dst.ip && other.port
                == dst.port,
        forall|other: Endpoint|
            #![trigger describes(metadata, network, other, dst)]
            describes(metadata, network, other, dst) ==> other.ip == src.ip && other.port
                == src.port,
{
}

/// Any two endpoints are described by the metadata that name them.
pub proof fn law_every_flow_is_described(metadata: FlowMetadata, src: Endpoint, dst: Endpoint)
    requires
        metadata.conn_type is Inner,
        metadata.host@.len() == 0,
        metadata.src_ip == src.ip && metadata.src_port == src.port,
        metadata.dst_ip == dst.ip && metadata.dst_port == dst.port,
    ensures
        describes(metadata, metadata.network, src, dst),
{
    assert(metadata.host@ =~= Seq::<char>::empty());
}

/// A relay that came to its end is finished, whatever else happened; a local end
/// that closed gives the relay a quarter of a second; a hung dial is dropped
/// only while neither has happened; and until something happens the task waits.
pub proof fn law_flows_end_in_order(relay_done: bool, local_eof: bool, dial_fired: bool)
    ensures
        next_step(relay_done, local_eof, dial_fired) is Finish <==> relay_done,
        !relay_done && local_eof ==> next_step(relay_done, local_eof, dial_fired) == (
        RelayStep::Grace { ms: 250 }),
        next_step(relay_done, local_eof, dial_fired) is DropHung <==> !relay_done && !local_eof
            && dial_fired,
        next_step(relay_done, local_eof, dial_fired) is Wait <==> !relay_done && !local_eof
            && !dial_fired,
        DIAL_TICK_MS == 500,
{
}

} // verus!
