//! UDP sessions: how many may be live, which have a reply reader, and what a
//! reply reader does.

use crate::net::{Endpoint, IpAddress};
use crate::packet::push_range;
use crate::relay::FlowMetadata;
use crate::tun2socks::warn_capped;
use vstd::prelude::*;

verus! {

/// How many UDP sessions may be live, those being dispatched included. A
/// session pins a NAT entry, a reader and its buffer, so without a cap flows
/// that never fall silent would pile up. Beyond it every datagram that comes in
/// is dropped, which UDP allows, rather than a live session evicted.
pub const UDP_BURST_CAP: usize = 512;

/// Buffer of a reply reader. It covers every datagram that passes the tunnel
/// unfragmented; longer ones are cut at the read.
pub const UDP_REPLY_BUFFER: usize = 4096;

/// What a session is known by: the application's endpoint and the resolved
/// remote one. The engine's NAT table has the same key.
#[derive(Clone, Copy, PartialEq, Eq, Structural, Debug)]
pub struct UdpKey {
    pub src: Endpoint,
    pub remote: Endpoint,
}

/// The key of a flow whose destination resolved to an address.
pub fn session_key(src: Endpoint, metadata: &FlowMetadata, resolved: IpAddress) -> (r: UdpKey)
    ensures
        r.src == src,
        r.remote == crate::net::endpoint_at(resolved, metadata.dst_port),
{
    UdpKey { src, remote: Endpoint::new(resolved, metadata.dst_port) }
}

/// The permits of the live sessions: one for each datagram being dispatched,
/// one for each reply reader.
pub struct UdpSessions {
    dispatching: usize,
    readers: Vec<UdpKey>,
}

/// What the accept loop does with a datagram.
#[derive(Clone, Copy, PartialEq, Eq, Structural, Debug)]
pub enum UdpAccept {
    /// A permit is held; dispatch the datagram.
    Dispatch,
    /// All permits are held: dropped, with a warning or without.
    Drop { warn: bool },
}

/// What becomes of a datagram while so many permits are held.
pub open spec fn accepted(held: nat, last_warning_ms: u64, now_ms: u64) -> UdpAccept {
    if held < UDP_BURST_CAP {
        UdpAccept::Dispatch
    } else {
        UdpAccept::Drop { warn: crate::tun2socks::warns(last_warning_ms, now_ms) }
    }
}

/// What follows once the engine has handled a datagram.
#[derive(Clone, Copy, PartialEq, Eq, Structural, Debug)]
pub enum UdpHandled {
    /// The session has its reader already.
    AlreadyRead,
    /// The engine opened no session (no rule matched, the dial failed).
    NoSession,
    /// Start a reader; the permit is now the reader's.
    StartReader,
}

/// What follows for a session, given the sessions that have a reader.
pub open spec fn handled(readers: Seq<UdpKey>, key: UdpKey, has_session: bool) -> UdpHandled {
    if readers.contains(key) {
        UdpHandled::AlreadyRead
    } else if !has_session {
        UdpHandled::NoSession
    } else {
        UdpHandled::StartReader
    }
}

impl UdpSessions {
    /// The sessions that have a reader.
    pub closed spec fn read_sessions(self) -> Seq<UdpKey> {
        self.readers@
    }

    /// The datagrams being dispatched.
    pub closed spec fn in_dispatch(self) -> nat {
        self.dispatching as nat
    }

    /// How many permits are held.
    pub open spec fn held(self) -> nat {
        self.in_dispatch() + self.read_sessions().len()
    }

    /// No session has two readers, and no more permits are held than there
    /// are.
    pub open spec fn wf(self) -> bool {
        &&& self.read_sessions().no_duplicates()
        &&& self.held() <= UDP_BURST_CAP
    }

    pub fn new() -> (r: UdpSessions)
        ensures
            r.wf(),
            r.in_dispatch() == 0,
            r.read_sessions() == Seq::<UdpKey>::empty(),
    {
        UdpSessions { dispatching: 0, readers: Vec::new() }
    }

    /// How many sessions have a reader.
    pub fn reader_count(&self) -> (r: usize)
        ensures
            r == self.read_sessions().len(),
    {
        self.readers.len()
    }

    /// How many datagrams are being dispatched.
    pub fn dispatch_count(&self) -> (r: usize)
        ensures
            r == self.in_dispatch(),
    {
        self.dispatching
    }

    fn position(&self, key: UdpKey) -> (r: Option<usize>)
        ensures
            match r {
                Some(i) => i < self.readers@.len() && self.readers@[i as int] == key,
                None => !self.readers@.contains(key),
            },
    {
        let mut i: usize = 0;
        while i < self.readers.len()
            invariant
                i <= self.readers@.len(),
                forall|j: int| 0 <= j < i ==> self.readers@[j] != key,
            decreases self.readers@.len() - i,
        {
            if self.readers[i] == key {
                return Some(i);
            }
            i = i + 1;
        }
        None
    }

    /// Decides over a datagram from an application.
    pub fn on_datagram(&mut self, warn_slot: &mut u64, now_ms: u64) -> (r: UdpAccept)
        requires
            old(self).wf(),
        ensures
            final(self).wf(),
            final(self).read_sessions() == old(self).read_sessions(),
            r == accepted(old(self).held(), *old(warn_slot), now_ms),
            if old(self).held() < UDP_BURST_CAP {
                &&& r == UdpAccept::Dispatch
                &&& final(self).in_dispatch() == old(self).in_dispatch() + 1
                &&& *final(warn_slot) == *old(warn_slot)
            } else {
                let warn = crate::tun2socks::warns(*old(warn_slot), now_ms);
                &&& r == (UdpAccept::Drop { warn })
                &&& final(self).in_dispatch() == old(self).in_dispatch()
                &&& *final(warn_slot) == if warn {
                    now_ms
                } else {
                    *old(warn_slot)
                }
            },
    {
        if self.dispatching + self.readers.len() < UDP_BURST_CAP {
            self.dispatching = self.dispatching + 1;
            UdpAccept::Dispatch
        } else {
            let warn = warn_capped(warn_slot, now_ms);
            UdpAccept::Drop { warn }
        }
    }

    /// A dispatch ended without a session: the engine is not running, or the
    /// destination did not resolve. Its permit is free again.
    pub fn on_abandoned(&mut self)
        requires
            old(self).wf(),
            old(self).in_dispatch() > 0,
        ensures
            final(self).wf(),
            final(self).in_dispatch() == old(self).in_dispatch() - 1,
            final(self).read_sessions() == old(self).read_sessions(),
    {
        self.dispatching = self.dispatching - 1;
    }

    /// The engine has handled a datagram of the session `key`, and has an
    /// entry for the session or not. The first datagram of a session starts
    /// its reader, which takes over the permit; otherwise the permit is free
    /// again.
    pub fn on_handled(&mut self, key: UdpKey, has_session: bool) -> (r: UdpHandled)
        requires
            old(self).wf(),
            old(self).in_dispatch() > 0,
        ensures
            final(self).wf(),
            final(self).in_dispatch() == old(self).in_dispatch() - 1,
            r == handled(old(self).read_sessions(), key, has_session),
            final(self).read_sessions() == if r is StartReader {
                old(self).read_sessions().push(key)
            } else {
                old(self).read_sessions()
            },
            r is StartReader ==> final(self).held() == old(self).held(),
    {
        self.dispatching = self.dispatching - 1;
        match self.position(key) {
            Some(i) => {
                assert(old(self).readers@.contains(key));
                UdpHandled::AlreadyRead
            },
            None => {
                if !has_session {
                    return UdpHandled::NoSession;
                }
                self.readers.push(key);
                UdpHandled::StartReader
            },
        }
    }

    /// The reader of a session ended: the session is forgotten, and its permit
    /// is free again. The next datagram of the flow starts afresh.
    pub fn on_reader_exit(&mut self, key: UdpKey) -> (r: bool)
        requires
            old(self).wf(),
        ensures
            final(self).wf(),
            final(self).in_dispatch() == old(self).in_dispatch(),
            r == old(self).read_sessions().contains(key),
            !final(self).read_sessions().contains(key),
            forall|k: UdpKey|
                k != key ==> (#[trigger] final(self).read_sessions().contains(k)
                    == old(self).read_sessions().contains(k)),
            final(self).held() == if r {
                old(self).held() - 1
            } else {
                old(self).held() as int
            },
    {
        match self.position(key) {
            Some(i) => {
                let ghost before = self.readers@;
                let _ = self.readers.swap_remove(i);
                proof {
                    lemma_swap_remove(before, i as int);
                    assert(self.readers@ =~= before.update(i as int, before.last()).drop_last());
                    assert(before.contains(key));
                }
                true
            },
            None => false,
        }
    }
}

proof fn lemma_swap_remove(s: Seq<UdpKey>, i: int)
    requires
        s.no_duplicates(),
        0 <= i < s.len(),
    ensures
        s.update(i, s.last()).drop_last().no_duplicates(),
        !s.update(i, s.last()).drop_last().contains(s[i]),
        forall|k: UdpKey|
            k != s[i] ==> (#[trigger] s.update(i, s.last()).drop_last().contains(k)
                == s.contains(k)),
{
    let w = s.update(i, s.last()).drop_last();
    let n = s.len() - 1;
    assert forall|a: int, b: int| 0 <= a < w.len() && 0 <= b < w.len() && a != b implies w[a]
        != w[b] by {
        let pa = if a == i { n } else { a };
        let pb = if b == i { n } else { b };
        assert(w[a] == s[pa] && w[b] == s[pb]);
    }
    if w.contains(s[i]) {
        let a = choose|a: int| 0 <= a < w.len() && w[a] == s[i];
        let pa = if a == i { n } else { a };
        assert(w[a] == s[pa]);
    }
    assert forall|k: UdpKey| k != s[i] implies (#[trigger] w.contains(k) == s.contains(k)) by {
        if s.contains(k) {
            let p = choose|p: int| 0 <= p < s.len() && s[p] == k;
            let q = if p == n { i } else { p };
            assert(w[q] == k);
        }
        if w.contains(k) {
            let q = choose|q: int| 0 <= q < w.len() && w[q] == k;
            let p = if q == i { n } else { q };
            assert(s[p] == k);
        }
    }
}

/// The cap is one on live sessions: readers, their buffers and their NAT
/// entries never outnumber it, however active the flows are.
pub proof fn law_live_sessions_are_capped(sessions: UdpSessions)
    requires
        sessions.wf(),
    ensures
        sessions.read_sessions().len() <= UDP_BURST_CAP,
        sessions.in_dispatch() + sessions.read_sessions().len() <= UDP_BURST_CAP,
{
}

/// A session has one reader: while it has one, no datagram starts a second,
/// and once it has none the next datagram that finds a session starts one.
pub proof fn law_one_reader_per_session(readers: Seq<UdpKey>, key: UdpKey)
    ensures
        handled(readers, key, true) is StartReader <==> !readers.contains(key),
        handled(readers.push(key), key, true) is AlreadyRead,
{
    assert(readers.push(key)[readers.len() as int] == key);
}

/// What a read from a session came to.
#[derive(Clone, Copy, PartialEq, Eq, Structural, Debug)]
pub enum SessionRead {
    /// A datagram of this length.
    Datagram { len: usize },
    Failed,
    /// The limit on the read ran out.
    TimedOut,
}

/// What the reader of a session does next.
#[derive(Clone, Copy, PartialEq, Eq, Structural, Debug)]
pub enum ReaderStep {
    /// Hand the datagram back to the application.
    Inject { len: usize },
    /// The session is broken: close it.
    Close,
    /// No reply came in time, so the route may be dead: evict the session. The
    /// next datagram dispatches over a fresh socket.
    Evict,
}

/// The reader of a session.
#[derive(Clone, Copy, PartialEq, Eq, Structural, Debug)]
pub struct ReplyReader {
    /// Limit on the first reply, in milliseconds. Zero: none.
    pub first_reply_deadline_ms: u64,
    pub had_first_reply: bool,
}

/// The limit on the next read of a reader. Only the first read has one: once a
/// reply has come the route is alive, and a quiet session is no reason to
/// evict it.
pub open spec fn read_limit(reader: ReplyReader) -> Option<u64> {
    if !reader.had_first_reply && reader.first_reply_deadline_ms > 0 {
        Some(reader.first_reply_deadline_ms)
    } else {
        None
    }
}

/// What a read leads to.
pub open spec fn reader_step(read: SessionRead) -> ReaderStep {
    match read {
        SessionRead::Datagram { len } => ReaderStep::Inject { len },
        SessionRead::Failed => ReaderStep::Close,
        SessionRead::TimedOut => ReaderStep::Evict,
    }
}

impl ReplyReader {
    pub fn new(first_reply_deadline_ms: u64) -> (r: ReplyReader)
        ensures
            r == (ReplyReader { first_reply_deadline_ms, had_first_reply: false }),
    {
        ReplyReader { first_reply_deadline_ms, had_first_reply: false }
    }

    /// The limit on the next read, in milliseconds.
    pub fn limit_ms(&self) -> (r: Option<u64>)
        ensures
            r == read_limit(*self),
    {
        if !self.had_first_reply && self.first_reply_deadline_ms > 0 {
            Some(self.first_reply_deadline_ms)
        } else {
            None
        }
    }

    /// A read came to its end.
    pub fn on_read(&mut self, read: SessionRead) -> (r: ReaderStep)
        ensures
            r == reader_step(read),
            r == match read {
                SessionRead::Datagram { len } => ReaderStep::Inject { len },
                SessionRead::Failed => ReaderStep::Close,
                SessionRead::TimedOut => ReaderStep::Evict,
            },
            *final(self) == (ReplyReader {
                had_first_reply: old(self).had_first_reply || read is Datagram,
                ..*old(self)
            }),
    {
        match read {
            SessionRead::Datagram { len } => {
                self.had_first_reply = true;
                ReaderStep::Inject { len }
            },
            SessionRead::Failed => ReaderStep::Close,
            SessionRead::TimedOut => ReaderStep::Evict,
        }
    }

    /// A reply was offered to the writer. Returns whether the reader goes on: a
    /// writer that is backed up or gone ends the session, rather than have
    /// replies pile up.
    pub fn on_offered(&self, offered: crate::tun2socks::Offered) -> (r: bool)
        ensures
            r == (offered == crate::tun2socks::Offered::Taken),
    {
        match offered {
            crate::tun2socks::Offered::Taken => true,
            _ => false,
        }
    }
}

/// A datagram for the application.
pub struct UdpReply {
    pub payload: Vec<u8>,
    pub src: Endpoint,
    pub dst: Endpoint,
}

/// The datagram that hands a reply back: it looks as if it came from the peer
/// that the application addressed, and goes to the application.
pub fn reply_datagram(buf: &[u8], len: usize, app_src: Endpoint, app_dst: Endpoint) -> (r: UdpReply)
    requires
        len <= buf@.len(),
    ensures
        r.payload@ == buf@.subrange(0, len as int),
        r.src == app_dst,
        r.dst == app_src,
{
    let mut payload: Vec<u8> = Vec::with_capacity(len);
    push_range(&mut payload, buf, 0, len);
    UdpReply { payload, src: app_dst, dst: app_src }
}

/// After the first reply no read is limited, and with a deadline of zero none
/// ever is.
pub proof fn law_only_first_reply_is_limited(reader: ReplyReader)
    ensures
        reader.had_first_reply ==> read_limit(reader) is None,
        reader.first_reply_deadline_ms == 0 ==> read_limit(reader) is None,
        !reader.had_first_reply && reader.first_reply_deadline_ms > 0 ==> read_limit(reader)
            == Some(reader.first_reply_deadline_ms),
{
}

/// A datagram that was handled starts a reader exactly where its session has
/// none and the engine has one for it; a session with a reader keeps that one,
/// whatever the engine says.
pub proof fn law_a_reader_starts_where_there_is_none(
    readers: Seq<UdpKey>,
    key: UdpKey,
    has_session: bool,
)
    ensures
        handled(readers, key, has_session) is AlreadyRead <==> (exists|i: int|
            0 <= i < readers.len() && readers[i] == key),
        handled(readers, key, has_session) is StartReader <==> has_session && (forall|i: int|
            0 <= i < readers.len() ==> readers[i] != key),
        handled(Seq::empty(), key, has_session) is NoSession <==> !has_session,
{
}

/// Permits are counted once for each datagram being dispatched and once for
/// each reader, and there are 512 of them.
pub proof fn law_permits_are_dispatches_and_readers(sessions: UdpSessions)
    ensures
        sessions.held() == sessions.in_dispatch() + sessions.read_sessions().len(),
        sessions.wf() ==> sessions.held() <= 512,
        sessions.wf() ==> forall|i: int, j: int|
            0 <= i < j < sessions.read_sessions().len() ==> sessions.read_sessions()[i]
                != sessions.read_sessions()[j],
{
}

/// Datagrams are dispatched up to 512 permits and dropped from there on, with a
/// warning a second at most.
pub proof fn law_datagrams_are_capped(held: nat, last_warning_ms: u64, now_ms: u64)
    ensures
        held < 512 ==> accepted(held, last_warning_ms, now_ms) is Dispatch,
        held >= 512 ==> accepted(held, last_warning_ms, now_ms) == (UdpAccept::Drop {
            warn: now_ms - last_warning_ms >= 1000,
        }),
{
}

/// Every datagram that a session delivers is handed back in full length, an
/// empty one too; a session ends for nothing but a failure or a deadline.
pub proof fn law_replies_are_handed_back(len: usize, read: SessionRead)
    ensures
        reader_step(SessionRead::Datagram { len }) == (ReaderStep::Inject { len }),
        reader_step(read) is Close <==> read is Failed,
        reader_step(read) is Evict <==> read is TimedOut,
{
}

/// The reader's buffer and the number of permits.
pub proof fn law_udp_limits()
    ensures
        UDP_BURST_CAP == 512,
        UDP_REPLY_BUFFER == 4096,
{
}

} // verus!
