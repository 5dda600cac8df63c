//! The surface that the host calls.

use meow_ios_ffi::engine::{
    is_running, meow_engine_is_running, start, stop, stripped_path, traffic, EngineSlot,
};
use meow_ios_ffi::ffi::{
    cstr_to_str, join_addresses, last_error_text, meow_core_set_home_dir,
    meow_patch_config, meow_proxy_select, meow_tun_accept_cap, meow_tun_close_all_tcp_flows,
    meow_tun_dial_deadline_ms, meow_tun_ingest, meow_tun_set_accept_cap, meow_tun_set_dial_deadline_ms,
    meow_tun_set_udp_first_reply_deadline_ms, meow_tun_start,
    meow_tun_udp_first_reply_deadline_ms, operation_reply, packet_argument, probe_argument, probe_port, probe_timeout_ms,
    sized_argument, subscription_argument, text_argument, write_out, yaml_argument, Argument,
    Operation, Reply, Selection,
};
use meow_ios_ffi::flows::FlowTable;
use meow_ios_ffi::net::{Endpoint, IpAddress};
use meow_ios_ffi::tun2socks::{self, Offered, TunnelSettings, TunnelState};

fn check(reply: Reply, code: i32, error: Option<&str>) {
    assert_eq!(reply.code, code);
    assert_eq!(reply.error.as_deref(), error);
}

#[test]
fn short_buffers_cut_the_text_and_report_the_need() {
    let mut buf = [9u8; 4];
    assert_eq!(write_out(b"hello", Some(&mut buf)), 5);
    assert_eq!(&buf, b"hel\0");
    let mut exact = [9u8; 6];
    assert_eq!(write_out(b"hello", Some(&mut exact)), 5);
    assert_eq!(&exact, b"hello\0");
    let mut roomy = [9u8; 8];
    assert_eq!(write_out(b"hello", Some(&mut roomy)), 5);
    assert_eq!(&roomy, b"hello\0\x09\x09");
    let mut none: [u8; 0] = [];
    assert_eq!(write_out(b"hello", Some(&mut none)), 5);
    assert_eq!(write_out(b"hello", None), 5);
    let mut one = [9u8; 1];
    assert_eq!(write_out(b"", Some(&mut one)), 0);
    assert_eq!(&one, b"\0");
}

#[test]
fn error_texts_hold_no_nul() {
    assert_eq!(last_error_text("plain"), "plain");
    assert_eq!(last_error_text(""), "");
    assert_eq!(last_error_text("a\0b"), "error");
    assert_eq!(last_error_text("\0"), "error");
}

#[test]
fn text_arguments_are_utf8() {
    assert_eq!(cstr_to_str(Some("h\u{e9}".as_bytes())), Some("h\u{e9}"));
    assert_eq!(cstr_to_str(Some(&[0xFF])), None);
    assert_eq!(cstr_to_str(None), None);
    assert_eq!(text_argument(Argument::Host, Some(b"h")).ok(), Some("h"));
    for (argument, text) in [
        (Argument::ConfigPath, "config_path is null or not utf-8"),
        (Argument::Host, "host is null or not utf-8"),
        (Argument::Url, "url is null or not utf-8"),
        (Argument::Group, "group is null or not utf-8"),
        (Argument::Name, "name is null or not utf-8"),
        (Argument::SourceYaml, "source_yaml is null or not utf-8"),
    ] {
        check(text_argument(argument, None).err().expect("null"), -1, Some(text));
        check(
            text_argument(argument, Some(&[0xC0, 0x80])).err().expect("not utf-8"),
            -1,
            Some(text),
        );
    }
}

#[test]
fn sized_arguments_need_a_length() {
    assert_eq!(sized_argument(false, 3), Some(3));
    assert_eq!(sized_argument(false, 0), None);
    assert_eq!(sized_argument(false, -1), None);
    assert_eq!(sized_argument(true, 3), None);
    assert_eq!(yaml_argument(Some(b"a: 1")).ok(), Some("a: 1"));
    check(yaml_argument(None).err().expect("empty"), -1, Some("empty yaml"));
    check(
        yaml_argument(Some(&[0xFF])).err().expect("not utf-8"),
        -1,
        Some("yaml is not utf-8"),
    );
    assert_eq!(subscription_argument(Some(&[0xFF])).ok(), Some(&[0xFFu8][..]));
    check(
        subscription_argument(None).err().expect("empty"),
        -1,
        Some("empty subscription body"),
    );
}

#[test]
fn home_dir_is_none_when_empty() {
    assert_eq!(meow_core_set_home_dir(Some(b"/app")), Some("/app".to_string()));
    assert_eq!(meow_core_set_home_dir(Some(b"")), None);
    assert_eq!(meow_core_set_home_dir(Some(&[0xFF])), None);
    assert_eq!(meow_core_set_home_dir(None), None);
}

#[test]
fn operations_report_their_errors() {
    check(operation_reply(Operation::Start, None), 0, None);
    check(
        operation_reply(Operation::Start, Some("x")),
        -1,
        Some("engine start failed: x"),
    );
    check(
        operation_reply(Operation::Validate, Some("x")),
        -1,
        Some("invalid config: x"),
    );
    check(
        operation_reply(Operation::Convert, Some("x")),
        -1,
        Some("convert failed: x"),
    );
    check(operation_reply(Operation::Probe, Some("x")), -1, Some("x"));
}

#[test]
fn probes_need_a_text_and_then_the_engine() {
    assert_eq!(probe_argument(Argument::Url, Some(b"u"), true).ok(), Some("u"));
    check(
        probe_argument(Argument::Url, Some(b"u"), false).err().expect("no engine"),
        -1,
        Some("engine not running"),
    );
    for running in [false, true] {
        check(
            probe_argument(Argument::Host, None, running).err().expect("null"),
            -1,
            Some("host is null or not utf-8"),
        );
        check(
            probe_argument(Argument::Url, Some(&[0xFF]), running).err().expect("not utf-8"),
            -1,
            Some("url is null or not utf-8"),
        );
    }
}

#[test]
fn probe_arguments_are_bounded() {
    assert_eq!(probe_timeout_ms(0), 1);
    assert_eq!(probe_timeout_ms(-5), 1);
    assert_eq!(probe_timeout_ms(1), 1);
    assert_eq!(probe_timeout_ms(2_500), 2_500);
    assert_eq!(probe_port(443), 443);
    assert_eq!(probe_port(65_536 + 80), 80);
    assert_eq!(probe_port(-1), 65_535);
}

#[test]
fn addresses_are_joined_with_commas() {
    assert_eq!(join_addresses(&vec![]), "");
    assert_eq!(join_addresses(&vec!["1.1.1.1".to_string()]), "1.1.1.1");
    assert_eq!(
        join_addresses(&vec![
            "1.1.1.1".to_string(),
            "::1".to_string(),
            "8.8.8.8".to_string()
        ]),
        "1.1.1.1,::1,8.8.8.8"
    );
}

#[test]
fn selections_have_their_codes() {
    let (g, t) = (Some(&b"g"[..]), Some(&b"t"[..]));
    check(meow_proxy_select(g, t, true, Selection::Applied), 0, None);
    check(
        meow_proxy_select(g, t, true, Selection::NoGroup),
        -3,
        Some("proxy group not found: g"),
    );
    check(
        meow_proxy_select(g, t, true, Selection::NotSelector),
        -3,
        Some("'g' is not a select-type group"),
    );
    check(
        meow_proxy_select(g, t, true, Selection::NotMember),
        -4,
        Some("'t' is not a member of 'g'"),
    );
}

#[test]
fn selections_are_refused_in_a_fixed_order() {
    let (g, t) = (Some(&b"g"[..]), Some(&b"t"[..]));
    let bad = Some(&[0xC0u8, 0x80][..]);
    for running in [false, true] {
        for group in [None, bad] {
            for name in [None, bad, t] {
                check(
                    meow_proxy_select(group, name, running, Selection::Applied),
                    -1,
                    Some("group is null or not utf-8"),
                );
            }
        }
        for name in [None, bad] {
            check(
                meow_proxy_select(g, name, running, Selection::Applied),
                -1,
                Some("name is null or not utf-8"),
            );
        }
    }
    for selection in [Selection::Applied, Selection::NoGroup, Selection::NotMember] {
        check(
            meow_proxy_select(g, t, false, selection),
            -2,
            Some("engine not running"),
        );
    }
}

#[test]
fn patch_writes_out_or_reports() {
    let mut buf = vec![7u8; 4_096];
    let reply = meow_patch_config(Some(b"mode: rule\n"), 0, Some(&mut buf));
    assert!(reply.error.is_none());
    let need = reply.code as usize;
    assert_eq!(buf[need], 0);
    assert_eq!(buf[need + 1], 7);
    let text = std::str::from_utf8(&buf[..need]).expect("utf-8");
    assert!(text.starts_with("mode: rule\nmixed-port: 7890\nexternal-controller: 127.0.0.1:9090\n"));
    assert_eq!(
        meow_patch_config(Some(b"mode: rule\n"), 0, None).code as usize,
        need
    );

    let mut untouched = vec![7u8; 8];
    check(
        meow_patch_config(None, 0, Some(&mut untouched)),
        -1,
        Some("source_yaml is null or not utf-8"),
    );
    check(
        meow_patch_config(Some(b"- 1\n"), 0, Some(&mut untouched)),
        -1,
        Some("config root is not a yaml mapping"),
    );
    let bad = meow_patch_config(Some(b"a: [1"), 0, Some(&mut untouched));
    assert_eq!(bad.code, -1);
    assert!(bad.error.expect("error").starts_with("yaml parse error: "));
    assert_eq!(untouched, vec![7u8; 8]);
}

#[test]
fn settings_are_checked_and_read_back() {
    let mut s = TunnelSettings::default();
    check(meow_tun_set_accept_cap(&mut s, 0), -1, Some("accept cap must be > 0"));
    check(meow_tun_set_accept_cap(&mut s, -4), -1, Some("accept cap must be > 0"));
    assert_eq!(meow_tun_accept_cap(&s), 32);
    check(meow_tun_set_accept_cap(&mut s, 64), 0, None);
    assert_eq!(meow_tun_accept_cap(&s), 64);
    check(
        meow_tun_set_dial_deadline_ms(&mut s, -1),
        -1,
        Some("dial deadline must be >= 0"),
    );
    check(meow_tun_set_dial_deadline_ms(&mut s, 0), 0, None);
    assert_eq!(meow_tun_dial_deadline_ms(&s), 0);
    check(
        meow_tun_set_udp_first_reply_deadline_ms(&mut s, -1),
        -1,
        Some("udp first-reply deadline must be >= 0"),
    );
    check(meow_tun_set_udp_first_reply_deadline_ms(&mut s, 99), 0, None);
    assert_eq!(meow_tun_udp_first_reply_deadline_ms(&s), 99);
    assert_eq!(meow_tun_accept_cap(&s), 64);
}

#[test]
fn tunnel_start_reports_its_error() {
    check(meow_tun_start(Ok(())), 0, None);
    check(
        meow_tun_start(Err("tun2socks already running")),
        -1,
        Some("tun2socks already running"),
    );
}

#[test]
fn close_all_counts_flows() {
    let mut table = FlowTable::new();
    let at = Endpoint::new(IpAddress::V4(1), 1);
    table.register(at, at, 5);
    table.register(at, at, 5);
    let mut closed = Vec::new();
    assert_eq!(meow_tun_close_all_tcp_flows(&mut table, &mut closed), 2);
    assert_eq!(meow_tun_close_all_tcp_flows(&mut table, &mut closed), 0);
    assert_eq!(closed.len(), 2);
}

#[test]
fn engine_starts_once() {
    let mut slot: EngineSlot<u8> = EngineSlot::new();
    assert!(!is_running(&slot));
    assert_eq!(meow_engine_is_running(&slot), 0);
    assert_eq!(start(&mut slot, Err("no config")), Err("no config"));
    assert!(!is_running(&slot));
    assert_eq!(start::<u8, &str>(&mut slot, Ok(1)), Ok(()));
    assert_eq!(start::<u8, &str>(&mut slot, Ok(2)), Ok(()));
    assert_eq!(start(&mut slot, Err("ignored")), Ok(()));
    assert_eq!(slot.tunnel(), Some(&1));
    assert_eq!(meow_engine_is_running(&slot), 1);
    assert_eq!(stop(&mut slot), Some(1));
    assert_eq!(stop(&mut slot), None);
    assert_eq!(slot.tunnel(), None);
}

#[test]
fn traffic_is_zero_before_the_engine_runs() {
    assert_eq!(traffic(None), (0, 0));
    assert_eq!(traffic(Some((3, -4))), (3, -4));
}

#[test]
fn stripped_config_stands_beside_its_source() {
    assert_eq!(
        stripped_path("/g/effective-config.yaml"),
        "/g/effective-config.ios-stripped.yaml"
    );
    assert_eq!(stripped_path("/g/config"), "/g/config.ios-stripped.yaml");
    assert_eq!(stripped_path("/g.yaml/c.yml"), "/g.yaml/c.yml.ios-stripped.yaml");
    assert_eq!(stripped_path("/g/\u{e9}.yaml"), "/g/\u{e9}.ios-stripped.yaml");
    assert_eq!(stripped_path(""), ".ios-stripped.yaml");
}

#[test]
fn empty_packets_are_ignored() {
    assert_eq!(packet_argument(None), None);
    assert_eq!(packet_argument(Some(b"")), None);
    assert_eq!(packet_argument(Some(b"x")), Some(&b"x"[..]));
    let mut state = TunnelState::default();
    assert_eq!(meow_tun_ingest(None, &state, None), 0);
    assert_eq!(meow_tun_ingest(Some(b"x"), &state, Some(Offered::Taken)), -1);
    assert!(tun2socks::start(&mut state).is_ok());
    assert_eq!(meow_tun_ingest(None, &state, None), 0);
    assert_eq!(meow_tun_ingest(Some(b"x"), &state, None), -1);
    assert_eq!(meow_tun_ingest(Some(b"x"), &state, Some(Offered::Closed)), -1);
    assert_eq!(meow_tun_ingest(Some(b"x"), &state, Some(Offered::Full)), 0);
    assert_eq!(meow_tun_ingest(Some(b"x"), &state, Some(Offered::Taken)), 0);
}
