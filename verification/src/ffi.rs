//! The surface that the host calls: how arguments are read, results written
//! out, and outcomes turned into codes and error texts.

use crate::config::patch_config;
use crate::flows::{close_all_tcp_flows, ClosedFlow, FlowTable};
use crate::text::utf8_text;
use crate::tun2socks::{
    accept_cap, dial_deadline_ms, ingest, set_accept_cap, set_dial_deadline_ms,
    set_udp_first_reply_deadline_ms, udp_first_reply_deadline_ms, Offered, TunnelSettings,
    TunnelState,
};
use vstd::prelude::*;
use vstd::string::{StrSliceExecFns, StringExecFns};

verus! {

/// How many octets of a text of length `len` fit into a buffer, its NUL
/// counted.
pub open spec fn fitting(len: nat, cap: nat) -> int {
    if len < cap {
        len as int
    } else {
        cap - 1
    }
}

/// A buffer before and after a text was written into it: the text, cut to what
/// fits, a NUL, and what stood there before. An empty buffer stays as it is.
pub open spec fn written(src: Seq<u8>, before: Seq<u8>, after: Seq<u8>) -> bool {
    &&& after.len() == before.len()
    &&& before.len() > 0 ==> {
        let n = fitting(src.len(), before.len());
        &&& after.subrange(0, n) == src.subrange(0, n)
        &&& after[n] == 0
        &&& forall|i: int| n < i < before.len() ==> after[i] == before[i]
    }
}

/// Writes a text into a buffer.
pub fn write_buffer(src: &[u8], buf: &mut [u8])
    ensures
        written(src@, old(buf)@, final(buf)@),
{
    if buf.len() > 0 {
        let cap: usize = buf.len() - 1;
        let n: usize = if cap < src.len() {
            cap
        } else {
            src.len()
        };
        let mut i: usize = 0;
        while i < n
            invariant
                i <= n,
                n <= src@.len(),
                n < buf@.len(),
                buf@.len() == old(buf)@.len(),
                forall|k: int| 0 <= k < i ==> buf@[k] == src@[k],
                forall|k: int| i <= k < buf@.len() ==> buf@[k] == old(buf)@[k],
            decreases n - i,
        {
            buf[i] = src[i];
            i = i + 1;
        }
        buf[n] = 0;
        assert(buf@.subrange(0, n as int) =~= src@.subrange(0, n as int));
    }
}

/// Copies `src` into `out` with a NUL behind it, cut to what fits. Returns the
/// number of octets needed, the NUL not counted; callers allocate one more and
/// try again if it does not fit. Without `out` only the need is returned.
pub fn write_out(src: &[u8], out: Option<&mut [u8]>) -> (r: i32)
    ensures
        r == src.len() as i32,
        match out {
            Some(buf) => written(src@, buf@, final(buf)@),
            None => true,
        },
{
    match out {
        Some(buf) => {
            write_buffer(src, buf);
        },
        None => {},
    }
    src.len() as i32
}

/// A buffer with room for one octet more than the need holds the whole text,
/// and a smaller one holds as much of it as fits; either way a NUL ends it.
pub proof fn law_retry_reads_the_whole_text(src: Seq<u8>, before: Seq<u8>, after: Seq<u8>)
    requires
        written(src, before, after),
        before.len() > 0,
    ensures
        src.len() < before.len() ==> after.subrange(0, src.len() as int) == src && after[src.len()
            as int] == 0,
        src.len() >= before.len() ==> after.subrange(0, before.len() - 1) == src.subrange(
            0,
            before.len() - 1,
        ) && after.last() == 0,
{
    assert(src.subrange(0, src.len() as int) =~= src);
}

/// What the host gets back: a code, and the text that it can ask for as the
/// last error.
pub struct Reply {
    pub code: i32,
    pub error: Option<String>,
}

impl Reply {
    /// The reply is the given code, without an error.
    pub open spec fn is_ok(self, code: int) -> bool {
        self.code == code && self.error is None
    }

    /// The reply is the given code with the given error text.
    pub open spec fn is_error(self, code: int, text: Seq<char>) -> bool {
        &&& self.code == code
        &&& self.error matches Some(e)
        &&& e@ == text
    }

    fn ok(code: i32) -> (r: Reply)
        ensures
            r.is_ok(code as int),
    {
        Reply { code, error: None }
    }

    fn error(code: i32, text: String) -> (r: Reply)
        ensures
            r.is_error(code as int, text@),
    {
        Reply { code, error: Some(text) }
    }
}

/// The text that is kept as the last error: C strings hold no NUL, and a text
/// with one is replaced.
pub fn last_error_text(msg: &str) -> (r: String)
    ensures
        r@ == if msg@.contains('\0') {
            "error"@
        } else {
            msg@
        },
        forall|i: int| 0 <= i < r@.len() ==> #[trigger] r@[i] != '\0',
        (forall|i: int| 0 <= i < msg@.len() ==> #[trigger] msg@[i] != '\0') ==> r@ == msg@,
{
    let n: usize = msg.unicode_len();
    let mut i: usize = 0;
    while i < n
        invariant
            i <= n,
            n == msg@.len(),
            forall|k: int| 0 <= k < i ==> msg@[k] != '\0',
        decreases n - i,
    {
        if msg.get_char(i) == '\0' {
            assert(msg@.contains('\0'));
            proof {
                reveal_strlit("error");
                assert("error"@ =~= seq!['e', 'r', 'r', 'o', 'r']);
            }
            return "error".to_owned();
        }
        i = i + 1;
    }
    msg.to_owned()
}

/// A text argument of a call.
#[derive(Clone, Copy, PartialEq, Eq, Structural, Debug)]
pub enum Argument {
    ConfigPath,
    Host,
    Url,
    Group,
    Name,
    SourceYaml,
}

impl Argument {
    /// What the argument is called.
    pub open spec fn text(self) -> Seq<char> {
        match self {
            Argument::ConfigPath => "config_path"@,
            Argument::Host => "host"@,
            Argument::Url => "url"@,
            Argument::Group => "group"@,
            Argument::Name => "name"@,
            Argument::SourceYaml => "source_yaml"@,
        }
    }

    fn label(self) -> (r: &'static str)
        ensures
            r@ == self.text(),
    {
        match self {
            Argument::ConfigPath => "config_path",
            Argument::Host => "host",
            Argument::Url => "url",
            Argument::Group => "group",
            Argument::Name => "name",
            Argument::SourceYaml => "source_yaml",
        }
    }
}

/// The text that octets hold; `None` where there are none or they are no
/// UTF-8.
pub open spec fn text_of(bytes: Option<&[u8]>) -> Option<Seq<char>> {
    match bytes {
        Some(b) => if vstd::utf8::valid_utf8(b@) {
            Some(vstd::utf8::decode_utf8(b@))
        } else {
            None
        },
        None => None,
    }
}

/// Reads a C string: the octets before its NUL, or `None` for a null pointer.
pub fn cstr_to_str<'a>(bytes: Option<&'a [u8]>) -> (r: Option<&'a str>)
    ensures
        match r {
            Some(s) => text_of(bytes) == Some(s@),
            None => text_of(bytes) is None,
        },
{
    match bytes {
        Some(b) => utf8_text(b),
        None => None,
    }
}

/// Reads a text argument. One that is null or no UTF-8 is an error.
pub fn text_argument<'a>(argument: Argument, bytes: Option<&'a [u8]>) -> (r: Result<&'a str, Reply>)
    ensures
        match r {
            Ok(s) => text_of(bytes) == Some(s@),
            Err(e) => text_of(bytes) is None && e.is_error(
                -1,
                argument.text() + " is null or not utf-8"@,
            ),
        },
{
    match cstr_to_str(bytes) {
        Some(s) => Ok(s),
        None => Err(
            Reply::error(-1, argument.label().to_owned().concat(" is null or not utf-8")),
        ),
    }
}

/// The length of a sized argument; `None` where it is null or holds nothing.
pub fn sized_argument(is_null: bool, len: i32) -> (r: Option<usize>)
    ensures
        r == (if is_null || len <= 0 {
            None
        } else {
            Some(len as usize)
        }),
{
    if is_null || len <= 0 {
        None
    } else {
        Some(len as usize)
    }
}

/// The directory of the application's files: none where the argument is null,
/// no UTF-8, or empty.
pub fn meow_core_set_home_dir(dir: Option<&[u8]>) -> (r: Option<String>)
    ensures
        match r {
            Some(d) => text_of(dir) == Some(d@) && d@.len() > 0,
            None => text_of(dir) matches Some(t) ==> t.len() == 0,
        },
{
    match cstr_to_str(dir) {
        Some(s) => if s.unicode_len() > 0 {
            Some(s.to_owned())
        } else {
            None
        },
        None => None,
    }
}

/// An operation of the engine that can fail.
#[derive(Clone, Copy, PartialEq, Eq, Structural, Debug)]
pub enum Operation {
    Start,
    Validate,
    Convert,
    /// A diagnostic probe; its error speaks for itself.
    Probe,
}

impl Operation {
    /// What its error text starts with.
    pub open spec fn text(self) -> Seq<char> {
        match self {
            Operation::Start => "engine start failed: "@,
            Operation::Validate => "invalid config: "@,
            Operation::Convert => "convert failed: "@,
            Operation::Probe => ""@,
        }
    }

    fn prefix(self) -> (r: &'static str)
        ensures
            r@ == self.text(),
    {
        match self {
            Operation::Start => "engine start failed: ",
            Operation::Validate => "invalid config: ",
            Operation::Convert => "convert failed: ",
            Operation::Probe => "",
        }
    }
}

/// The reply to an operation that came to its end: 0, or -1 with the error.
pub fn operation_reply(operation: Operation, error: Option<&str>) -> (r: Reply)
    ensures
        match error {
            None => r.is_ok(0),
            Some(e) => r.is_error(-1, operation.text() + e@),
        },
{
    match error {
        None => Reply::ok(0),
        Some(e) => Reply::error(-1, operation.prefix().to_owned().concat(e)),
    }
}

/// Reads the configuration to validate.
pub fn yaml_argument<'a>(yaml: Option<&'a [u8]>) -> (r: Result<&'a str, Reply>)
    ensures
        match r {
            Ok(s) => text_of(yaml) == Some(s@),
            Err(e) => text_of(yaml) is None && if yaml is None {
                e.is_error(-1, "empty yaml"@)
            } else {
                e.is_error(-1, "yaml is not utf-8"@)
            },
        },
{
    match yaml {
        None => Err(Reply::error(-1, "empty yaml".to_owned())),
        Some(b) => match utf8_text(b) {
            Some(s) => Ok(s),
            None => Err(Reply::error(-1, "yaml is not utf-8".to_owned())),
        },
    }
}

/// Reads the body of a subscription, whatever it holds.
pub fn subscription_argument<'a>(body: Option<&'a [u8]>) -> (r: Result<&'a [u8], Reply>)
    ensures
        match r {
            Ok(b) => body == Some(b),
            Err(e) => body is None && e.is_error(-1, "empty subscription body"@),
        },
{
    match body {
        Some(b) => Ok(b),
        None => Err(Reply::error(-1, "empty subscription body".to_owned())),
    }
}

/// Reads the text argument of a probe that goes through the engine, given
/// whether that runs. An argument that is null or no UTF-8 is an error whether
/// it does or not.
pub fn probe_argument<'a>(argument: Argument, bytes: Option<&'a [u8]>, running: bool) -> (r: Result<
    &'a str,
    Reply,
>)
    ensures
        match r {
            Ok(s) => running && text_of(bytes) == Some(s@),
            Err(e) => if text_of(bytes) is None {
                e.is_error(-1, argument.text() + " is null or not utf-8"@)
            } else {
                !running && e.is_error(-1, "engine not running"@)
            },
        },
{
    let text = match text_argument(argument, bytes) {
        Ok(text) => text,
        Err(e) => {
            return Err(e);
        },
    };
    if running {
        Ok(text)
    } else {
        Err(Reply::error(-1, "engine not running".to_owned()))
    }
}

/// How long a probe may take: at least a millisecond.
pub fn probe_timeout_ms(timeout_ms: i32) -> (r: u64)
    ensures
        r == if timeout_ms > 1 {
            timeout_ms as int
        } else {
            1
        },
{
    if timeout_ms > 1 {
        timeout_ms as u64
    } else {
        1
    }
}

/// The port of a probe: the low 16 bits of the argument.
pub fn probe_port(port: i32) -> (r: u16)
    ensures
        r == port as int % 65536,
{
    assert(port as u16 == port & 0xFFFF) by (bit_vector);
    assert((port & 0xFFFF) as int == port as int % 65536) by {
        lemma_low_bits(port);
    }
    port as u16
}

proof fn lemma_low_bits(port: i32)
    ensures
        (port & 0xFFFF) as int == port as int % 65536,
{
    let u = port as u32;
    assert((port & 0xFFFF) as u32 == u % 65536) by (bit_vector)
        requires
            u == port as u32,
    ;
    assert(0 <= (port & 0xFFFF) <= 0xFFFF) by (bit_vector);
    assert(port >= 0 ==> u == port) by (bit_vector)
        requires
            u == port as u32,
    ;
    assert(port < 0 ==> u == port + 0x1_0000_0000) by (bit_vector)
        requires
            u == port as u32,
    ;
}

/// Addresses separated by commas.
pub open spec fn joined(ips: Seq<Seq<char>>) -> Seq<char>
    decreases ips.len(),
{
    if ips.len() == 0 {
        Seq::empty()
    } else if ips.len() == 1 {
        ips[0]
    } else {
        joined(ips.drop_last()) + ","@ + ips.last()
    }
}

/// Joins the addresses that a host resolved to, in order, with commas.
pub fn join_addresses(ips: &Vec<String>) -> (r: String)
    ensures
        r@ == joined(ips@.map_values(|s: String| s@)),
{
    let ghost texts = ips@.map_values(|s: String| s@);
    let mut out = String::new();
    let mut i: usize = 0;
    assert(texts.take(0) =~= Seq::empty());
    while i < ips.len()
        invariant
            i <= ips@.len(),
            texts == ips@.map_values(|s: String| s@),
            out@ == joined(texts.take(i as int)),
        decreases ips@.len() - i,
    {
        proof {
            let next = texts.take(i + 1);
            assert(next.drop_last() =~= texts.take(i as int));
            assert(next.last() == ips@[i as int]@);
            if i == 0 {
                assert(next[0] == ips@[0]@);
            }
        }
        if i > 0 {
            out.append(",");
        }
        out.append(ips[i].as_str());
        assert(out@ =~= joined(texts.take(i + 1)));
        i = i + 1;
    }
    assert(texts.take(i as int) =~= texts);
    out
}

/// What became of a selection in a group.
#[derive(Clone, Copy, PartialEq, Eq, Structural, Debug)]
pub enum Selection {
    /// The member is selected.
    Applied,
    /// There is no proxy of the group's name.
    NoGroup,
    /// The proxy of that name is no group that selects.
    NotSelector,
    /// The group has no such member.
    NotMember,
}

/// The reply to a selection that the group was asked for.
pub open spec fn selection_reply(
    r: Reply,
    group: Seq<char>,
    name: Seq<char>,
    selection: Selection,
) -> bool {
    match selection {
        Selection::Applied => r.is_ok(0),
        Selection::NoGroup => r.is_error(-3, "proxy group not found: "@ + group),
        Selection::NotSelector => r.is_error(-3, "'"@ + group + "' is not a select-type group"@),
        Selection::NotMember => r.is_error(
            -4,
            "'"@ + name + "' is not a member of '"@ + group + "'"@,
        ),
    }
}

/// Replies to a selection of a member in a group, given whether the engine runs
/// and what became of the selection where it was asked for: where both names
/// are text and the engine runs. Names are taken as they are: no
/// normalisation, no decoding.
pub fn meow_proxy_select(
    group: Option<&[u8]>,
    name: Option<&[u8]>,
    running: bool,
    selection: Selection,
) -> (r: Reply)
    ensures
        match (text_of(group), text_of(name)) {
            (None, _) => r.is_error(-1, "group is null or not utf-8"@),
            (_, None) => r.is_error(-1, "name is null or not utf-8"@),
            (Some(group), Some(name)) => if running {
                selection_reply(r, group, name, selection)
            } else {
                r.is_error(-2, "engine not running"@)
            },
        },
{
    let Some(group) = cstr_to_str(group) else {
        return Reply::error(-1, "group is null or not utf-8".to_owned());
    };
    let Some(name) = cstr_to_str(name) else {
        return Reply::error(-1, "name is null or not utf-8".to_owned());
    };
    if !running {
        return Reply::error(-2, "engine not running".to_owned());
    }
    match selection {
        Selection::Applied => Reply::ok(0),
        Selection::NoGroup => Reply::error(
            -3,
            "proxy group not found: ".to_owned().concat(group),
        ),
        Selection::NotSelector => Reply::error(
            -3,
            "'".to_owned().concat(group).concat("' is not a select-type group"),
        ),
        Selection::NotMember => Reply::error(
            -4,
            "'".to_owned().concat(name).concat("' is not a member of '").concat(group).concat("'"),
        ),
    }
}

/// The patched text of a configuration, or the error text.
pub open spec fn patch_outcome(source_yaml: Option<&[u8]>, mixed_port: i32) -> Result<
    Seq<char>,
    Seq<char>,
> {
    match text_of(source_yaml) {
        None => Err("source_yaml is null or not utf-8"@),
        Some(text) => match crate::yaml::yaml_parse(text) {
            Err(m) => Err("yaml parse error: "@ + m),
            Ok(doc) => match crate::config::patched(doc, mixed_port) {
                None => Err("config root is not a yaml mapping"@),
                Some(d) => match crate::yaml::yaml_print(d) {
                    Err(m) => Err("yaml serialize error: "@ + m),
                    Ok(t) => Ok(t),
                },
            },
        },
    }
}

/// Patches a configuration and writes it out. Returns the octets needed, or -1
/// with the error; then nothing is written. Where the document is writable,
/// patched or before, there is no error, and the text reads back as the patched
/// document.
pub fn meow_patch_config(source_yaml: Option<&[u8]>, mixed_port: i32, out: Option<&mut [u8]>) -> (r:
    Reply)
    ensures
        match patch_outcome(source_yaml, mixed_port) {
            Err(m) => r.is_error(-1, m),
            Ok(t) => r.is_ok(((vstd::utf8::encode_utf8(t).len() as usize) as i32) as int),
        },
        match out {
            Some(buf) => match patch_outcome(source_yaml, mixed_port) {
                Err(_) => final(buf)@ == buf@,
                Ok(t) => written(vstd::utf8::encode_utf8(t), buf@, final(buf)@),
            },
            None => true,
        },
        match text_of(source_yaml) {
            Some(text) => match crate::yaml::yaml_parse(text) {
                Ok(doc) => {
                    &&& crate::config::valid_root(crate::yaml::untagged(doc))
                    &&& crate::config::patch_reads_back(doc, mixed_port)
                },
                Err(_) => true,
            },
            None => true,
        },
{
    let yaml = match text_argument(Argument::SourceYaml, source_yaml) {
        Ok(text) => text,
        Err(reply) => {
            proof {
                reveal_strlit("source_yaml");
                reveal_strlit(" is null or not utf-8");
                reveal_strlit("source_yaml is null or not utf-8");
                assert("source_yaml"@ + " is null or not utf-8"@
                    =~= "source_yaml is null or not utf-8"@);
            }
            return reply;
        },
    };
    match patch_config(yaml, mixed_port) {
        Ok(text) => {
            let data = text.as_str().as_bytes();
            let need = write_out(data, out);
            Reply::ok(need)
        },
        Err(e) => Reply::error(-1, e.message()),
    }
}

/// Sets the TCP accept cap. Zero and negative caps are refused.
pub fn meow_tun_set_accept_cap(settings: &mut TunnelSettings, cap: i32) -> (r: Reply)
    ensures
        if cap <= 0 {
            &&& r.is_error(-1, "accept cap must be > 0"@)
            &&& *final(settings) == *old(settings)
        } else {
            &&& r.is_ok(0)
            &&& *final(settings) == (TunnelSettings { accept_cap: cap as usize, ..*old(settings) })
        },
        old(settings).wf() ==> final(settings).wf(),
{
    if cap <= 0 {
        return Reply::error(-1, "accept cap must be > 0".to_owned());
    }
    if set_accept_cap(settings, cap as usize) {
        Reply::ok(0)
    } else {
        Reply::ok(-1)
    }
}

/// The accept cap that the next start will use.
pub fn meow_tun_accept_cap(settings: &TunnelSettings) -> (r: i32)
    ensures
        r == settings.accept_cap as i32,
{
    accept_cap(settings) as i32
}

/// Sets the dial deadline. Negative deadlines are refused, zero disables it.
pub fn meow_tun_set_dial_deadline_ms(settings: &mut TunnelSettings, ms: i32) -> (r: Reply)
    ensures
        if ms < 0 {
            &&& r.is_error(-1, "dial deadline must be >= 0"@)
            &&& *final(settings) == *old(settings)
        } else {
            &&& r.is_ok(0)
            &&& *final(settings) == (TunnelSettings { dial_deadline_ms: ms as u64, ..*old(settings) })
        },
{
    if ms < 0 {
        return Reply::error(-1, "dial deadline must be >= 0".to_owned());
    }
    let _ = set_dial_deadline_ms(settings, ms as u64);
    Reply::ok(0)
}

/// The dial deadline. Zero means that it is disabled.
pub fn meow_tun_dial_deadline_ms(settings: &TunnelSettings) -> (r: i32)
    ensures
        r == settings.dial_deadline_ms as i32,
{
    dial_deadline_ms(settings) as i32
}

/// Sets the first-reply deadline of UDP sessions. Negative deadlines are
/// refused, zero disables it.
pub fn meow_tun_set_udp_first_reply_deadline_ms(settings: &mut TunnelSettings, ms: i32) -> (r:
    Reply)
    ensures
        if ms < 0 {
            &&& r.is_error(-1, "udp first-reply deadline must be >= 0"@)
            &&& *final(settings) == *old(settings)
        } else {
            &&& r.is_ok(0)
            &&& *final(settings) == (TunnelSettings {
                udp_first_reply_deadline_ms: ms as u64,
                ..*old(settings)
            })
        },
{
    if ms < 0 {
        return Reply::error(-1, "udp first-reply deadline must be >= 0".to_owned());
    }
    let _ = set_udp_first_reply_deadline_ms(settings, ms as u64);
    Reply::ok(0)
}

/// The first-reply deadline of UDP sessions. Zero means that it is disabled.
pub fn meow_tun_udp_first_reply_deadline_ms(settings: &TunnelSettings) -> (r: i32)
    ensures
        r == settings.udp_first_reply_deadline_ms as i32,
{
    udp_first_reply_deadline_ms(settings) as i32
}

/// The reply to a start of the tunnel.
pub fn meow_tun_start(started: Result<(), &str>) -> (r: Reply)
    ensures
        match started {
            Ok(()) => r.is_ok(0),
            Err(e) => r.is_error(-1, e@),
        },
{
    match started {
        Ok(()) => Reply::ok(0),
        Err(e) => Reply::error(-1, e.to_owned()),
    }
}

/// The packet of a pushed buffer; `None` for a null or empty one, which is
/// accepted and ignored.
pub fn packet_argument<'a>(data: Option<&'a [u8]>) -> (r: Option<&'a [u8]>)
    ensures
        match r {
            Some(p) => data == Some(p) && p@.len() > 0,
            None => data matches Some(p) ==> p@.len() == 0,
        },
{
    match data {
        Some(p) => if p.len() > 0 {
            Some(p)
        } else {
            None
        },
        None => None,
    }
}

/// The reply to a pushed packet: 0 where there was none to push, else what the
/// tunnel and its ingress queue made of it.
pub fn meow_tun_ingest(packet: Option<&[u8]>, state: &TunnelState, offered: Option<Offered>) -> (r:
    i32)
    ensures
        r == if packet is None {
            0
        } else {
            crate::tun2socks::ingest_code(*state, offered)
        },
{
    match packet {
        None => 0,
        Some(_) => ingest(state, offered),
    }
}

/// Closes every TCP flow, so that flows dial again over a new uplink. UDP is
/// left alone. The closed flows are appended to `closed`. Returns how many
/// there were.
pub fn meow_tun_close_all_tcp_flows(table: &mut FlowTable, closed: &mut Vec<ClosedFlow>) -> (r: i32)
    requires
        old(table).wf(),
    ensures
        final(table).wf(),
        final(table).next() == old(table).next(),
        final(table).flows() == crate::flows::no_flows(),
        r == (old(table).flows().dom().len() as usize) as i32,
        crate::flows::closes(old(closed)@, final(closed)@, old(table).flows(), None),
{
    close_all_tcp_flows(table, closed) as i32
}

/// What is set reads back: every value that a setter accepts comes back from
/// its getter, and setting one value leaves the others alone.
pub proof fn law_settings_read_back(settings: TunnelSettings, value: i32)
    requires
        value >= 0,
    ensures
        ({
            let capped = TunnelSettings { accept_cap: value as usize, ..settings };
            let dialed = TunnelSettings { dial_deadline_ms: value as u64, ..settings };
            let replied = TunnelSettings { udp_first_reply_deadline_ms: value as u64, ..settings };
            &&& capped.accept_cap as i32 == value
            &&& dialed.dial_deadline_ms as i32 == value
            &&& replied.udp_first_reply_deadline_ms as i32 == value
            &&& dialed.accept_cap == settings.accept_cap
            &&& replied.accept_cap == settings.accept_cap
            &&& replied.dial_deadline_ms == settings.dial_deadline_ms
        }),
{
}

/// What stands in a buffer after a text was written, octet by octet: the text as
/// far as it fits with a NUL behind it, that NUL, and beyond it what was there.
pub proof fn law_written_octets(src: Seq<u8>, before: Seq<u8>, after: Seq<u8>)
    requires
        written(src, before, after),
    ensures
        after.len() == before.len(),
        forall|i: int|
            #![trigger after[i]]
            0 <= i < after.len() ==> {
                &&& i < src.len() && i < after.len() - 1 ==> after[i] == src[i]
                &&& i == src.len() || (i < src.len() && i == after.len() - 1) ==> after[i] == 0
                &&& i > src.len() ==> after[i] == before[i]
            },
{
    if before.len() > 0 {
        let n = fitting(src.len(), before.len());
        assert forall|i: int|
            #![trigger after[i]]
            0 <= i < n implies after[i] == src[i] by {
            assert(after.subrange(0, n)[i] == src.subrange(0, n)[i]);
        }
    }
}

/// A text argument is the text whose encoding its octets are: every text comes
/// through as it was encoded, and octets that encode no text, or none at all,
/// are no text.
pub proof fn law_text_arguments_round_trip(bytes: &[u8], text: Seq<char>)
    ensures
        bytes@ == vstd::utf8::encode_utf8(text) ==> text_of(Some(bytes)) == Some(text),
        text_of(Some(bytes)) == Some(text) ==> bytes@ == vstd::utf8::encode_utf8(text),
        text_of(Some(bytes)) is None <==> !vstd::utf8::valid_utf8(bytes@),
        text_of(None) is None,
{
    if bytes@ == vstd::utf8::encode_utf8(text) {
        vstd::utf8::encode_utf8_valid_utf8(text);
        vstd::utf8::encode_utf8_decode_utf8(text);
    }
    if vstd::utf8::valid_utf8(bytes@) {
        vstd::utf8::decode_utf8_encode_utf8(bytes@);
    }
}

/// Arguments are called by the names that the host knows them by.
pub proof fn law_arguments_by_name()
    ensures
        Argument::ConfigPath.text() == "config_path"@,
        Argument::Host.text() == "host"@,
        Argument::Url.text() == "url"@,
        Argument::Group.text() == "group"@,
        Argument::Name.text() == "name"@,
        Argument::SourceYaml.text() == "source_yaml"@,
{
}

/// Errors of operations start with what failed; those of a probe speak for
/// themselves.
pub proof fn law_operations_by_name()
    ensures
        Operation::Start.text() == "engine start failed: "@,
        Operation::Validate.text() == "invalid config: "@,
        Operation::Convert.text() == "convert failed: "@,
        Operation::Probe.text() == ""@,
{
}

/// A reply without an error has no text, one with an error has its text, and
/// neither passes for the other.
pub proof fn law_replies_are_told_apart(r: Reply, code: int, text: Seq<char>)
    ensures
        r.is_ok(code) <==> r.code == code && r.error is None,
        r.is_error(code, text) <==> r.code == code && (r.error matches Some(e) && e@ == text),
{
}

/// Lists of addresses are joined by one comma between any two parts: joining two
/// lists is joining each and a comma between them, one address is itself, and
/// none is nothing.
pub proof fn law_joining_is_piecewise(a: Seq<Seq<char>>, b: Seq<Seq<char>>, one: Seq<char>)
    ensures
        joined(Seq::empty()) == Seq::<char>::empty(),
        joined(seq![one]) == one,
        a.len() > 0 && b.len() > 0 ==> joined(a + b) == joined(a) + seq![','] + joined(b),
    decreases b.len(),
{
    reveal_strlit(",");
    assert(","@ =~= seq![',']);
    if a.len() > 0 && b.len() > 0 {
        let all = a + b;
        assert(all.last() == b.last());
        if b.len() == 1 {
            assert(all.drop_last() =~= a);
            assert(b.last() == b[0]);
        } else {
            let init = b.drop_last();
            assert(all.drop_last() =~= a + init);
            law_joining_is_piecewise(a, init, one);
            assert(joined(a) + seq![','] + joined(init) + seq![','] + b.last() =~= joined(a) + seq![
                ',',
            ] + (joined(init) + seq![','] + b.last()));
        }
    }
}

/// A selection that was applied is 0; a group that is not there, or selects
/// nothing, is -3; a name that is no member is -4; and the error says which
/// group and which name.
pub proof fn law_selection_replies(
    r: Reply,
    group: Seq<char>,
    name: Seq<char>,
    selection: Selection,
)
    requires
        selection_reply(r, group, name, selection),
    ensures
        r.code == match selection {
            Selection::Applied => 0int,
            Selection::NoGroup => -3,
            Selection::NotSelector => -3,
            Selection::NotMember => -4,
        },
        selection is Applied <==> r.error is None,
        selection is NoGroup ==> r.error.unwrap()@ == "proxy group not found: "@ + group,
        selection is NotSelector ==> r.error.unwrap()@ == "'"@ + group
            + "' is not a select-type group"@,
        selection is NotMember ==> r.error.unwrap()@ == "'"@ + name + "' is not a member of '"@
            + group + "'"@,
{
}

/// Patching is reading the text, patching the document and writing it, and the
/// first of these that fails is the error.
pub proof fn law_patch_outcome_is_the_patched_document(source_yaml: Option<&[u8]>, mixed_port: i32)
    ensures
        text_of(source_yaml) is None ==> patch_outcome(source_yaml, mixed_port) == Err::<
            Seq<char>,
            Seq<char>,
        >("source_yaml is null or not utf-8"@),
        text_of(source_yaml) matches Some(text) ==> match crate::yaml::yaml_parse(text) {
            Err(m) => patch_outcome(source_yaml, mixed_port) == Err::<Seq<char>, Seq<char>>(
                "yaml parse error: "@ + m,
            ),
            Ok(doc) => match crate::config::patched(doc, mixed_port) {
                None => patch_outcome(source_yaml, mixed_port) == Err::<Seq<char>, Seq<char>>(
                    "config root is not a yaml mapping"@,
                ),
                Some(d) => match crate::yaml::yaml_print(d) {
                    Ok(t) => patch_outcome(source_yaml, mixed_port) == Ok::<Seq<char>, Seq<char>>(
                        t,
                    ),
                    Err(m) => patch_outcome(source_yaml, mixed_port) == Err::<
                        Seq<char>,
                        Seq<char>,
                    >("yaml serialize error: "@ + m),
                },
            },
        },
{
}

} // verus!
