//! Configuration editing.

use meow_ios_ffi::config::{
    default_geox_block, drop_rule_providers, patch_config, patch_document, pinned_dns_block,
    strip_document, strip_for_validation, strip_listener_fields, ConfigError, PatchError,
};
use serde_yaml::value::{Tag, TaggedValue};
use serde_yaml::{Mapping, Value};

#[test]
fn strip_removes_listener_keys_only() {
    let yaml = r#"
port: 7890
socks-port: 7891
mixed-port: 7892
tproxy-port: 7895
listeners:
  - name: mixed
    type: mixed
    port: 7890
sniffer:
  enable: true
  sniff:
    TLS:
      ports: [443]
mode: rule
log-level: info
"#;
    let out = strip_listener_fields(yaml).expect("strip ok");
    let doc: serde_yaml::Value = serde_yaml::from_str(&out).unwrap();
    let m = doc.as_mapping().unwrap();
    for k in [
        "port",
        "socks-port",
        "mixed-port",
        "tproxy-port",
        "listeners",
        "sniffer",
    ] {
        assert!(
            !m.contains_key(serde_yaml::Value::String(k.into())),
            "{k} should have been stripped",
        );
    }
    assert_eq!(m.get("mode").and_then(|v| v.as_str()), Some("rule"));
    assert_eq!(m.get("log-level").and_then(|v| v.as_str()), Some("info"));

    // The pinned resolver is always present after the strip, with its
    // nameservers in order.
    let dns = m
        .get(serde_yaml::Value::String("dns".into()))
        .and_then(|v| v.as_mapping())
        .expect("pinned dns block injected");
    let ns: Vec<&str> = dns
        .get(serde_yaml::Value::String("nameserver".into()))
        .and_then(|v| v.as_sequence())
        .unwrap()
        .iter()
        .map(|v| v.as_str().unwrap())
        .collect();
    assert_eq!(ns, vec!["119.29.29.29", "223.5.5.5"]);
}

#[test]
fn user_dns_is_replaced_by_pinned() {
    let yaml = r#"
dns:
  enable: true
  nameserver:
    - 8.8.8.8
    - 9.9.9.9
mode: rule
"#;
    let out = strip_listener_fields(yaml).expect("strip ok");
    let doc: serde_yaml::Value = serde_yaml::from_str(&out).unwrap();
    let dns = doc
        .as_mapping()
        .unwrap()
        .get(serde_yaml::Value::String("dns".into()))
        .and_then(|v| v.as_mapping())
        .unwrap();
    let ns: Vec<&str> = dns
        .get(serde_yaml::Value::String("nameserver".into()))
        .and_then(|v| v.as_sequence())
        .unwrap()
        .iter()
        .map(|v| v.as_str().unwrap())
        .collect();
    assert_eq!(
        ns,
        vec!["119.29.29.29", "223.5.5.5"],
        "user nameservers must not survive the strip+inject"
    );
}

#[test]
fn strip_preserves_unmodeled_top_level_keys() {
    // Keys this library knows nothing about.
    let yaml = r#"
mixed-port: 7890
tun:
  enable: true
  stack: gvisor
profile:
  store-selected: true
experimental:
  sniff-tls-sni: true
global-client-fingerprint: chrome
unified-delay: true
tcp-concurrent: true
find-process-mode: strict
proxies:
  - name: p1
    type: direct
"#;
    let out = strip_listener_fields(yaml).expect("strip ok");
    let doc: serde_yaml::Value = serde_yaml::from_str(&out).unwrap();
    let m = doc.as_mapping().unwrap();
    assert!(!m.contains_key(serde_yaml::Value::String("mixed-port".into())));
    for k in [
        "tun",
        "profile",
        "experimental",
        "global-client-fingerprint",
        "unified-delay",
        "tcp-concurrent",
        "find-process-mode",
        "proxies",
    ] {
        assert!(
            m.contains_key(serde_yaml::Value::String(k.into())),
            "{k} must survive the strip",
        );
    }
    let tun = m
        .get(serde_yaml::Value::String("tun".into()))
        .and_then(|v| v.as_mapping())
        .unwrap();
    assert_eq!(
        tun.get(serde_yaml::Value::String("stack".into()))
            .and_then(|v| v.as_str()),
        Some("gvisor"),
    );
}

#[test]
fn strip_is_idempotent_on_clean_config() {
    let yaml = "mode: rule\nlog-level: info\n";
    let once = strip_listener_fields(yaml).expect("strip ok");
    let twice = strip_listener_fields(&once).expect("strip ok");
    assert_eq!(once, twice);
}

#[test]
fn strip_for_validation_drops_rule_providers() {
    let yaml = r#"
mixed-port: 7890
rule-providers:
  reject:
    type: http
    behavior: domain
    url: https://example.test/reject.txt
    path: ./reject.txt
proxies:
  - name: p1
    type: direct
rules:
  - MATCH,p1
"#;
    let out = strip_for_validation(yaml).expect("strip ok");
    let doc: serde_yaml::Value = serde_yaml::from_str(&out).unwrap();
    let m = doc.as_mapping().unwrap();
    assert!(!m.contains_key(serde_yaml::Value::String("rule-providers".into())));
    assert!(m.contains_key(serde_yaml::Value::String("proxies".into())));
    assert!(m.contains_key(serde_yaml::Value::String("rules".into())));
}

fn parse(text: &str) -> serde_yaml::Value {
    serde_yaml::from_str(text).expect("test document parses")
}

fn keys(doc: &serde_yaml::Value) -> Vec<String> {
    doc.as_mapping()
        .expect("mapping")
        .keys()
        .map(|k| k.as_str().expect("text key").to_string())
        .collect()
}

#[test]
fn pinned_block_reads_like_its_text() {
    let text = "enable: true\nlisten: \"\"\nenhanced-mode: fake-ip\nfake-ip-range: 28.0.0.0/8\nnameserver:\n  - 119.29.29.29\n  - 223.5.5.5\n";
    assert_eq!(pinned_dns_block(), parse(text));
    assert_eq!(
        keys(&pinned_dns_block()),
        vec!["enable", "listen", "enhanced-mode", "fake-ip-range", "nameserver"]
    );
}

#[test]
fn removed_entries_are_replaced_by_the_last_one() {
    let mut doc = parse("port: 1\na: 1\nb: 2\nc: 3\n");
    strip_document(&mut doc);
    assert_eq!(keys(&doc), vec!["c", "a", "b", "dns"]);
    assert_eq!(doc["dns"], pinned_dns_block());
}

#[test]
fn documents_that_are_no_mapping_are_left_alone() {
    let mut list = parse("- port: 1\n");
    strip_document(&mut list);
    drop_rule_providers(&mut list);
    assert_eq!(list, parse("- port: 1\n"));
    assert_eq!(strip_listener_fields("just text").expect("strip ok"), "just text\n");
}

#[test]
fn tagged_root_is_not_stripped() {
    let mut doc = parse("!cfg\nport: 1\n");
    strip_document(&mut doc);
    assert_eq!(doc, parse("!cfg\nport: 1\n"));
}

#[test]
fn strip_is_idempotent_on_a_document() {
    let mut once = parse("port: 1\nx: 1\ndns: {enable: false}\nsniffer: {}\ny: [1, 2]\n");
    strip_document(&mut once);
    let mut twice = once.clone();
    strip_document(&mut twice);
    assert_eq!(keys(&once), keys(&twice));
    assert_eq!(once, twice);
}

#[test]
fn text_that_is_no_yaml_cannot_be_stripped() {
    assert!(matches!(
        strip_listener_fields("a: [1, 2"),
        Err(ConfigError::ParseConfig)
    ));
    assert!(matches!(
        strip_for_validation("a: 1\na: 2\n"),
        Err(ConfigError::ParseConfig)
    ));
}

#[test]
fn config_errors_have_their_messages() {
    assert_eq!(ConfigError::ParseConfig.message(), "parsing config YAML");
    assert_eq!(
        ConfigError::SerializeStripped.message(),
        "serializing stripped config YAML"
    );
    assert_eq!(
        ConfigError::ParseStripped.message(),
        "parsing stripped YAML for validation"
    );
    assert_eq!(
        ConfigError::SerializeValidation.message(),
        "serializing validation YAML"
    );
}

#[test]
fn patch_pins_port_and_controller() {
    let out = patch_config(
        "dns: {enable: true}\nsubscriptions: [a]\nsecret: s\nmode: rule\nmixed-port: 1\n",
        7_891,
    )
    .ok()
    .expect("patch ok");
    let doc = parse(&out);
    assert_eq!(
        keys(&doc),
        vec!["mixed-port", "mode", "external-controller", "geox-url"]
    );
    assert_eq!(doc["mixed-port"], parse("7891"));
    assert_eq!(doc["external-controller"], parse("127.0.0.1:9090"));
    assert_eq!(doc["geox-url"], default_geox_block());
    assert_eq!(doc["mode"], parse("rule"));
}

#[test]
fn patch_falls_back_to_the_default_port() {
    for port in [0, -1, i32::MIN] {
        let mut doc = parse("mode: rule\n");
        assert!(patch_document(&mut doc, port));
        assert_eq!(doc["mixed-port"], parse("7890"));
    }
    let mut doc = parse("mode: rule\n");
    assert!(patch_document(&mut doc, i32::MAX));
    assert_eq!(doc["mixed-port"], parse("2147483647"));
}

#[test]
fn patch_keeps_the_users_geo_sources() {
    let mut doc = parse("geox-url: {geoip: mine}\n");
    assert!(patch_document(&mut doc, 1));
    assert_eq!(doc["geox-url"], parse("geoip: mine"));
    assert_eq!(
        default_geox_block(),
        parse(
            "geoip: https://cdn.jsdelivr.net/gh/MetaCubeX/meta-rules-dat@release/geoip.metadb\nmmdb: https://cdn.jsdelivr.net/gh/MetaCubeX/meta-rules-dat@release/country.mmdb\ngeosite: https://cdn.jsdelivr.net/gh/MetaCubeX/meta-rules-dat@release/geosite.dat\n"
        )
    );
}

#[test]
fn patch_looks_through_a_tag_on_the_root() {
    let mut doc = parse("!cfg\ndns: 1\nmode: rule\n");
    assert!(patch_document(&mut doc, 5));
    assert!(matches!(doc, serde_yaml::Value::Tagged(_)));
    assert_eq!(doc["mixed-port"], parse("5"));
    assert_eq!(doc.get("dns"), None);
}

#[test]
fn patch_errors_say_what_is_wrong() {
    let parse_error = patch_config("a: [1, 2", 1).err().expect("no document");
    match &parse_error {
        PatchError::Parse(m) => {
            let expected = serde_yaml::from_str::<serde_yaml::Value>("a: [1, 2")
                .err()
                .expect("no document")
                .to_string();
            assert_eq!(m, &expected);
            assert_eq!(parse_error.message(), format!("yaml parse error: {}", expected));
        }
        _ => panic!("expected a parse error"),
    }
    let not_mapping = patch_config("- 1\n", 1).err().expect("no mapping");
    assert_eq!(not_mapping.message(), "config root is not a yaml mapping");
    let serialize = PatchError::Serialize("m".to_string());
    assert_eq!(serialize.message(), "yaml serialize error: m");
}

/// A reproducible stream of numbers.
struct Stream(u64);

impl Stream {
    fn below(&mut self, n: u64) -> u64 {
        self.0 ^= self.0 << 13;
        self.0 ^= self.0 >> 7;
        self.0 ^= self.0 << 17;
        (self.0 >> 11) % n
    }

    /// A text of characters that are special to YAML, or not, on one line or
    /// several.
    fn text(&mut self) -> String {
        const CHARS: [char; 60] = [
            ' ', ' ', '-', '-', ':', ':', '?', '#', '!', '&', '*', '\'', '"', '|', '>', '%', '@',
            '`', ',', '[', ']', '{', '}', '~', '.', '.', '=', '<', '/', '\\', '_', '+', '0', '1',
            'e', 'n', 'o', 'x', 'a', 'y', '\u{a0}', '\u{4e2d}', '\u{ff1a}', '\u{1f600}', '\n',
            '\n', '\n', '\n', '\r', '\t', '\0', '\u{1}', '\u{7f}', '\u{80}', '\u{85}',
            '\u{2028}', '\u{2029}', '\u{feff}', '\u{fffe}', '\u{10ffff}',
        ];
        let kinds = [44, 48, 60][self.below(3) as usize];
        let len = match self.below(14) {
            0 => 110 + self.below(30),
            1 => 1_100,
            n => n - 2,
        };
        (0..len)
            .map(|_| CHARS[self.below(kinds) as usize])
            .collect()
    }

    /// A floating-point number, never one that is no number.
    fn float(&mut self) -> f64 {
        let f = match self.below(6) {
            0 => -0.0,
            1 => f64::INFINITY,
            2 => f64::NEG_INFINITY,
            3 => self.below(100) as f64,
            _ => f64::from_bits(self.0 ^ (self.0 << 17)),
        };
        if f.is_nan() {
            0.5
        } else {
            f
        }
    }

    fn tagged(&mut self, levels: u64) -> Value {
        const CHARS: [char; 24] = [
            'a', 'z', 'A', 'Z', '0', '9', 't', '-', '_', ';', '/', '?', ':', '@', '&', '=', '+',
            '$', '.', '~', '*', '\'', '(', ')',
        ];
        let len = [1, 2, 3, 8, 130][self.below(5) as usize];
        let name: String = (0..len).map(|_| CHARS[self.below(24) as usize]).collect();
        let tag = Tag::new(name);
        loop {
            let value = self.value(levels);
            if !matches!(value, Value::Tagged(_)) {
                return Value::Tagged(Box::new(TaggedValue { tag, value }));
            }
        }
    }

    fn value(&mut self, levels: u64) -> Value {
        match self.below(if levels == 0 { 6 } else { 9 }) {
            0 => Value::Null,
            1 => Value::Bool(self.below(2) == 0),
            2 => Value::Number((self.0 as i64).into()),
            3 => Value::Number(self.float().into()),
            4 | 5 => Value::String(self.text()),
            6 => {
                let len = self.below(4);
                Value::Sequence((0..len).map(|_| self.value(levels - 1)).collect())
            }
            7 => self.mapping(levels),
            _ => self.tagged(levels),
        }
    }

    fn mapping(&mut self, levels: u64) -> Value {
        let mut m = Mapping::new();
        for _ in 0..self.below(4) {
            let key = match self.below(3) {
                0 => self.value(levels - 1),
                _ => Value::String(self.text()),
            };
            m.insert(key, self.value(levels - 1));
        }
        let unopened = m.len() == 1
            && m.keys().all(|k| match k {
                Value::Tagged(_) => true,
                Value::Mapping(inner) => inner.len() == 1,
                _ => false,
            });
        if unopened {
            m.insert(Value::Null, Value::Null);
        }
        Value::Mapping(m)
    }
}

/// Whether two nodes are the same, floating-point numbers to the bit.
fn same(a: &Value, b: &Value) -> bool {
    match (a, b) {
        (Value::Number(x), Value::Number(y)) if x.is_f64() && y.is_f64() => {
            x.as_f64().map(f64::to_bits) == y.as_f64().map(f64::to_bits)
        }
        (Value::Sequence(x), Value::Sequence(y)) => {
            x.len() == y.len() && x.iter().zip(y).all(|(p, q)| same(p, q))
        }
        (Value::Mapping(x), Value::Mapping(y)) => {
            x.len() == y.len()
                && x.iter()
                    .zip(y)
                    .all(|((k, p), (l, q))| same(k, l) && same(p, q))
        }
        (Value::Tagged(x), Value::Tagged(y)) => x.tag == y.tag && same(&x.value, &y.value),
        _ => a == b,
    }
}

#[test]
fn writable_documents_read_back() {
    let mut stream = Stream(0x9E37_79B9_7F4A_7C15);
    for _ in 0..2_000 {
        let doc = stream.value(5);
        let text = serde_yaml::to_string(&doc).expect("written");
        assert!(same(&parse(&text), &doc), "{text}");

        let once = strip_listener_fields(&text).expect("stripped");
        let mut stripped = doc.clone();
        strip_document(&mut stripped);
        assert!(same(&parse(&once), &stripped), "{once}");
        assert_eq!(strip_listener_fields(&once).expect("stripped again"), once);

        let validated = strip_for_validation(&text).expect("validated");
        drop_rule_providers(&mut stripped);
        assert!(same(&parse(&validated), &stripped), "{validated}");

        let mut patched = doc.clone();
        match patch_config(&text, 7891) {
            Ok(out) => {
                assert!(patch_document(&mut patched, 7891));
                assert!(same(&parse(&out), &patched), "{out}");
            }
            Err(e) => assert!(
                matches!(e, PatchError::NotMapping) && !patch_document(&mut patched, 7891)
            ),
        }
    }
}

#[test]
fn short_texts_read_back() {
    let chars: Vec<char> = (0x00u8..0x80).map(char::from).collect();
    let mut texts: Vec<String> = vec![String::new()];
    for a in &chars {
        texts.push(a.to_string());
        for b in &chars {
            texts.push([*a, *b].iter().collect());
        }
    }
    let mut m = Mapping::new();
    for text in texts {
        let node = Value::String(text);
        m.insert(node.clone(), Value::Sequence(vec![node]));
    }
    let doc = Value::Mapping(m);
    assert_eq!(parse(&serde_yaml::to_string(&doc).expect("written")), doc);
}

#[test]
fn texts_of_blanks_and_breaks_read_back() {
    let mut texts: Vec<String> = vec![String::new()];
    let mut from: usize = 0;
    for _ in 0..5 {
        let upto = texts.len();
        for i in from..upto {
            for c in ['a', ' ', '\n', '\u{2028}', '-', '#'] {
                texts.push(format!("{}{}", texts[i], c));
            }
        }
        from = upto;
    }
    let mut m = Mapping::new();
    for text in texts {
        let node = Value::String(text);
        let list = Value::Sequence(vec![node.clone(), Value::Sequence(vec![node.clone()])]);
        m.insert(node, list);
    }
    let doc = Value::Mapping(m);
    assert_eq!(parse(&serde_yaml::to_string(&doc).expect("written")), doc);
}

#[test]
fn nesting_reads_back_as_deep_as_the_reader_goes() {
    let nested = |levels: usize| {
        let mut doc = Value::String("x".to_string());
        for i in 0..levels {
            doc = if i % 3 == 0 {
                Value::Sequence(vec![doc])
            } else {
                let mut m = Mapping::new();
                m.insert(Value::String("k".to_string()), doc);
                Value::Mapping(m)
            };
        }
        doc
    };
    let deepest = nested(128);
    let text = serde_yaml::to_string(&deepest).expect("written");
    assert_eq!(parse(&text), deepest);
    let once = strip_listener_fields(&text).expect("stripped");
    assert_eq!(strip_listener_fields(&once).expect("stripped again"), once);
    let text = serde_yaml::to_string(&nested(129)).expect("written");
    assert_eq!(
        strip_listener_fields(&text).err(),
        Some(ConfigError::ParseConfig)
    );
}

#[test]
fn documents_that_cannot_be_written_are_refused() {
    assert_eq!(
        strip_listener_fields("k:\n  ? {a: b}\n  : 3\n").err(),
        Some(ConfigError::SerializeStripped)
    );
    assert_eq!(
        strip_listener_fields("- ? !t a\n  : 3\n").err(),
        Some(ConfigError::SerializeStripped)
    );
    // Beside the resolver the key is no longer the only one.
    assert!(strip_listener_fields("? {a: b}\n: 3\n").is_ok());
    assert!(matches!(
        patch_config("k:\n  ? {a: b}\n  : 3\n", 0),
        Err(PatchError::Serialize(_))
    ));
}

#[test]
fn a_tag_with_a_comma_is_written_but_not_read_again() {
    let once = strip_listener_fields("k: !<!a,b> x\n").expect("stripped");
    assert!(once.starts_with("k: !a,b x\n"));
    assert_eq!(
        strip_listener_fields(&once).err(),
        Some(ConfigError::ParseConfig)
    );
    assert_eq!(
        strip_for_validation("k: !<!a,b> x\n").err(),
        Some(ConfigError::ParseStripped)
    );
}
