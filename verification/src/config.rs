//! Configuration editing: the strip that removes what the host never binds and
//! pins the resolver, its variant for the editor, and the patch that writes the
//! effective configuration.

use crate::yaml::{
    as_mapping_mut, bool_value, error_text, has_key, insert_key, int_value, list_value,
    mapping_value, mapping_variant_mut, new_mapping, parse_value, print_value, remove_key,
    text_value, Yaml,
};
use vstd::prelude::*;
use vstd::string::StringExecFns;

verus! {

/// The entries without each of the keys, taken out one after the other.
pub open spec fn without_keys(
    entries: Seq<(Yaml, Yaml)>,
    keys: Seq<Seq<char>>,
) -> Seq<(Yaml, Yaml)>
    decreases keys.len(),
{
    if keys.len() == 0 {
        entries
    } else {
        crate::yaml::without_key(
            without_keys(entries, keys.drop_last()),
            Yaml::Text(keys.last()),
        )
    }
}

/// The texts of a list of string slices.
pub open spec fn texts(keys: Seq<&str>) -> Seq<Seq<char>> {
    keys.map_values(|k: &str| k@)
}

/// Takes the keys out of a mapping, one after the other.
fn remove_keys(m: &mut serde_yaml::Mapping, keys: &[&str])
    ensures
        crate::yaml::entries_of(*final(m)) == without_keys(
            crate::yaml::entries_of(*old(m)),
            texts(keys@),
        ),
{
    let mut i: usize = 0;
    assert(texts(keys@).take(0) =~= Seq::empty());
    while i < keys.len()
        invariant
            i <= keys@.len(),
            crate::yaml::entries_of(*m) == without_keys(
                crate::yaml::entries_of(*old(m)),
                texts(keys@).take(i as int),
            ),
        decreases keys@.len() - i,
    {
        let _ = remove_key(m, keys[i]);
        proof {
            let t = texts(keys@).take(i + 1);
            assert(t.drop_last() =~= texts(keys@).take(i as int));
            assert(t.last() == keys@[i as int]@);
        }
        i = i + 1;
    }
    assert(texts(keys@).take(i as int) =~= texts(keys@));
}

/// The keys that the strip removes: the listener ports, the listeners, the
/// sniffer (the resolver already knows the name behind every address, and a
/// sniffed one must not overwrite it) and the user's resolver.
pub open spec fn stripped_keys() -> Seq<Seq<char>> {
    seq![
        "port"@,
        "socks-port"@,
        "mixed-port"@,
        "tproxy-port"@,
        "listeners"@,
        "sniffer"@,
        "dns"@,
    ]
}

/// The nameservers of the pinned resolver, in order.
pub open spec fn pinned_nameserver_texts() -> Seq<Seq<char>> {
    seq!["119.29.29.29"@, "223.5.5.5"@]
}

/// The pinned resolver: fake-IP mode over a fixed range, no listening socket,
/// and nameservers that see the same side of split-horizon hosts.
pub open spec fn pinned_dns() -> Yaml {
    Yaml::Mapping(
        seq![
            (Yaml::Text("enable"@), Yaml::Bool(true)),
            (Yaml::Text("listen"@), Yaml::Text(""@)),
            (Yaml::Text("enhanced-mode"@), Yaml::Text("fake-ip"@)),
            (Yaml::Text("fake-ip-range"@), Yaml::Text("28.0.0.0/8"@)),
            (
                Yaml::Text("nameserver"@),
                Yaml::List(pinned_nameserver_texts().map_values(|t: Seq<char>| Yaml::Text(t))),
            ),
        ],
    )
}

/// The pinned nameservers.
pub fn pinned_nameservers() -> (r: [&'static str; 2])
    ensures
        texts(r@) == pinned_nameserver_texts(),
        r@[0]@ == "119.29.29.29"@,
        r@[1]@ == "223.5.5.5"@,
{
    let r: [&'static str; 2] = ["119.29.29.29", "223.5.5.5"];
    assert(texts(r@) =~= pinned_nameserver_texts());
    r
}

/// The pinned resolver block that is injected into every configuration. It is
/// the single source of truth for synthesis, reverse mapping and upstream
/// selection; an empty `listen` keeps the resolver from binding a socket.
pub fn pinned_dns_block() -> (r: serde_yaml::Value)
    ensures
        crate::yaml::yaml_of(r) == pinned_dns(),
{
    let servers = pinned_nameservers();
    let mut list: Vec<serde_yaml::Value> = Vec::new();
    list.push(text_value(servers[0]));
    list.push(text_value(servers[1]));
    let ghost nodes = list@.map_values(|v: serde_yaml::Value| crate::yaml::yaml_of(v));
    proof {
        assert(texts(servers@)[0] == servers@[0]@ && texts(servers@)[1] == servers@[1]@);
        assert(nodes =~= pinned_nameserver_texts().map_values(|t: Seq<char>| Yaml::Text(t)));
        reveal_strlit("enable");
        reveal_strlit("listen");
        reveal_strlit("enhanced-mode");
        reveal_strlit("fake-ip-range");
        reveal_strlit("nameserver");
        assert("enable"@.len() == 6 && "listen"@.len() == 6 && "nameserver"@.len() == 10);
        assert("enhanced-mode"@.len() == 13 && "fake-ip-range"@.len() == 13);
        assert("enable"@[0] != "listen"@[0]);
        assert("enhanced-mode"@[0] != "fake-ip-range"@[0]);
    }
    let mut m = new_mapping();
    proof {
        crate::yaml::lemma_key_index(crate::yaml::entries_of(m), Yaml::Text("enable"@));
    }
    let _ = insert_key(&mut m, "enable", bool_value(true));
    proof {
        crate::yaml::lemma_key_index(crate::yaml::entries_of(m), Yaml::Text("listen"@));
    }
    let _ = insert_key(&mut m, "listen", text_value(""));
    proof {
        crate::yaml::lemma_key_index(crate::yaml::entries_of(m), Yaml::Text("enhanced-mode"@));
    }
    let _ = insert_key(&mut m, "enhanced-mode", text_value("fake-ip"));
    proof {
        crate::yaml::lemma_key_index(crate::yaml::entries_of(m), Yaml::Text("fake-ip-range"@));
    }
    let _ = insert_key(&mut m, "fake-ip-range", text_value("28.0.0.0/8"));
    proof {
        crate::yaml::lemma_key_index(crate::yaml::entries_of(m), Yaml::Text("nameserver"@));
    }
    let _ = insert_key(&mut m, "nameserver", list_value(list));
    assert(crate::yaml::entries_of(m) =~= pinned_dns()->Mapping_0);
    mapping_value(m)
}

/// The entries of a stripped configuration: without the listed keys, and with
/// the pinned resolver last.
pub open spec fn stripped_entries(entries: Seq<(Yaml, Yaml)>) -> Seq<(Yaml, Yaml)> {
    crate::yaml::with_key(
        without_keys(entries, stripped_keys()),
        Yaml::Text("dns"@),
        pinned_dns(),
    )
}

/// A stripped configuration. A document that is no mapping stays as it is.
pub open spec fn stripped(doc: Yaml) -> Yaml {
    match doc {
        Yaml::Mapping(entries) => Yaml::Mapping(stripped_entries(entries)),
        _ => doc,
    }
}

/// A document whose root, where it is a mapping, repeats no key.
pub open spec fn valid_root(doc: Yaml) -> bool {
    doc matches Yaml::Mapping(entries) ==> crate::yaml::distinct_keys(entries)
}

/// Strips a document: no listener is configured, whatever the user wrote, so
/// ports that collide are no error; and the resolver is the pinned one.
/// Everything else stays, whether this library knows it or not.
pub fn strip_document(doc: &mut serde_yaml::Value)
    ensures
        crate::yaml::yaml_of(*final(doc)) == stripped(crate::yaml::yaml_of(*old(doc))),
        valid_root(crate::yaml::yaml_of(*old(doc))),
{
    match mapping_variant_mut(doc) {
        Some(m) => {
            let keys: [&str; 7] = [
                "port",
                "socks-port",
                "mixed-port",
                "tproxy-port",
                "listeners",
                "sniffer",
                "dns",
            ];
            assert(texts(keys@) =~= stripped_keys());
            remove_keys(m, &keys);
            let _ = insert_key(m, "dns", pinned_dns_block());
        },
        None => {},
    }
}

/// Why a configuration could not be stripped.
#[derive(Clone, Copy, PartialEq, Eq, Structural, Debug)]
pub enum ConfigError {
    /// The text is no YAML document.
    ParseConfig,
    /// The stripped document could not be written.
    SerializeStripped,
    /// The stripped text could not be read again.
    ParseStripped,
    /// The document for validation could not be written.
    SerializeValidation,
}

impl ConfigError {
    /// The message of the error.
    pub open spec fn text(self) -> Seq<char> {
        match self {
            ConfigError::ParseConfig => "parsing config YAML"@,
            ConfigError::SerializeStripped => "serializing stripped config YAML"@,
            ConfigError::ParseStripped => "parsing stripped YAML for validation"@,
            ConfigError::SerializeValidation => "serializing validation YAML"@,
        }
    }

    /// The message of the error.
    pub fn message(self) -> (r: &'static str)
        ensures
            r@ == self.text(),
    {
        match self {
            ConfigError::ParseConfig => "parsing config YAML",
            ConfigError::SerializeStripped => "serializing stripped config YAML",
            ConfigError::ParseStripped => "parsing stripped YAML for validation",
            ConfigError::SerializeValidation => "serializing validation YAML",
        }
    }
}

/// The text of a configuration, stripped.
pub open spec fn strip_text(text: Seq<char>) -> Result<Seq<char>, ConfigError> {
    match crate::yaml::yaml_parse(text) {
        Err(_) => Err(ConfigError::ParseConfig),
        Ok(doc) => match crate::yaml::yaml_print(stripped(doc)) {
            Err(_) => Err(ConfigError::SerializeStripped),
            Ok(out) => Ok(out),
        },
    }
}

/// A text or an error is the given one.
pub open spec fn is_outcome(
    r: Result<String, ConfigError>,
    expected: Result<Seq<char>, ConfigError>,
) -> bool {
    match (r, expected) {
        (Ok(s), Ok(t)) => s@ == t,
        (Err(a), Err(b)) => a == b,
        _ => false,
    }
}

/// Strips the text of a configuration. Where the document is writable, stripped
/// or before, this succeeds, the text reads back as the stripped document, and
/// stripping it again gives the same text.
pub fn strip_listener_fields(yaml: &str) -> (r: Result<String, ConfigError>)
    ensures
        is_outcome(r, strip_text(yaml@)),
        match crate::yaml::yaml_parse(yaml@) {
            Ok(doc) => {
                &&& valid_root(doc)
                &&& crate::yaml::writable(doc) || crate::yaml::writable(stripped(doc)) ==> {
                    &&& r is Ok
                    &&& crate::yaml::yaml_parse(r->Ok_0@) == Ok::<Yaml, Seq<char>>(stripped(doc))
                    &&& strip_text(r->Ok_0@) == Ok::<Seq<char>, ConfigError>(r->Ok_0@)
                }
            },
            Err(_) => true,
        },
{
    let mut doc = match parse_value(yaml) {
        Ok(doc) => doc,
        Err(_) => {
            return Err(ConfigError::ParseConfig);
        },
    };
    let ghost parsed = crate::yaml::yaml_of(doc);
    strip_document(&mut doc);
    proof {
        law_strip_is_idempotent(parsed);
        if crate::yaml::writable(parsed) {
            law_strip_keeps_writable(parsed);
        }
    }
    match print_value(&doc) {
        Ok(text) => Ok(text),
        Err(_) => Err(ConfigError::SerializeStripped),
    }
}

/// A document without its rule providers.
pub open spec fn without_rule_providers(doc: Yaml) -> Yaml {
    match doc {
        Yaml::Mapping(entries) => Yaml::Mapping(
            crate::yaml::without_key(entries, Yaml::Text("rule-providers"@)),
        ),
        _ => doc,
    }
}

/// Takes the rule providers out of a document. Whether their addresses resolve
/// is of no interest to an editor, and loading them would start a runtime.
pub fn drop_rule_providers(doc: &mut serde_yaml::Value)
    ensures
        crate::yaml::yaml_of(*final(doc)) == without_rule_providers(
            crate::yaml::yaml_of(*old(doc)),
        ),
        valid_root(crate::yaml::yaml_of(*old(doc))),
{
    match mapping_variant_mut(doc) {
        Some(m) => {
            let _ = remove_key(m, "rule-providers");
        },
        None => {},
    }
}

/// The text of a configuration as the editor validates it.
pub open spec fn validation_text(text: Seq<char>) -> Result<Seq<char>, ConfigError> {
    match strip_text(text) {
        Err(e) => Err(e),
        Ok(out) => match crate::yaml::yaml_parse(out) {
            Err(_) => Err(ConfigError::ParseStripped),
            Ok(doc) => match crate::yaml::yaml_print(without_rule_providers(doc)) {
                Err(_) => Err(ConfigError::SerializeValidation),
                Ok(out) => Ok(out),
            },
        },
    }
}

/// Variant of [`strip_listener_fields`] for the editor: the rule providers are
/// dropped as well. The engine itself keeps them. Where the document
/// is writable, stripped or before, this succeeds, and the text reads back as
/// the stripped document without its rule providers.
pub fn strip_for_validation(yaml: &str) -> (r: Result<String, ConfigError>)
    ensures
        is_outcome(r, validation_text(yaml@)),
        match crate::yaml::yaml_parse(yaml@) {
            Ok(doc) => {
                &&& valid_root(doc)
                &&& crate::yaml::writable(doc) || crate::yaml::writable(stripped(doc)) ==> {
                    &&& r is Ok
                    &&& crate::yaml::yaml_parse(r->Ok_0@) == Ok::<Yaml, Seq<char>>(
                        without_rule_providers(stripped(doc)),
                    )
                }
            },
            Err(_) => true,
        },
{
    let listener_stripped = match strip_listener_fields(yaml) {
        Ok(text) => text,
        Err(e) => {
            return Err(e);
        },
    };
    let mut doc = match parse_value(listener_stripped.as_str()) {
        Ok(doc) => doc,
        Err(_) => {
            return Err(ConfigError::ParseStripped);
        },
    };
    drop_rule_providers(&mut doc);
    proof {
        if let Ok(parsed) = crate::yaml::yaml_parse(yaml@) {
            if crate::yaml::writable(parsed) {
                law_strip_keeps_writable(parsed);
            }
            if crate::yaml::writable(stripped(parsed)) {
                lemma_validation_keeps_writable(parsed);
            }
        }
    }
    match print_value(&doc) {
        Ok(text) => Ok(text),
        Err(_) => Err(ConfigError::SerializeValidation),
    }
}

/// The keys that the patch removes.
pub open spec fn patched_out_keys() -> Seq<Seq<char>> {
    seq!["dns"@, "subscriptions"@, "secret"@]
}

/// The port that the patch writes for a requested one.
pub open spec fn effective_port(mixed_port: i32) -> int {
    if mixed_port > 0 {
        mixed_port as int
    } else {
        7890
    }
}

/// Where the geo databases come from, unless the user says otherwise.
pub open spec fn default_geox() -> Yaml {
    Yaml::Mapping(
        seq![
            (
                Yaml::Text("geoip"@),
                Yaml::Text(
                    "https://cdn.jsdelivr.net/gh/MetaCubeX/meta-rules-dat@release/geoip.metadb"@,
                ),
            ),
            (
                Yaml::Text("mmdb"@),
                Yaml::Text(
                    "https://cdn.jsdelivr.net/gh/MetaCubeX/meta-rules-dat@release/country.mmdb"@,
                ),
            ),
            (
                Yaml::Text("geosite"@),
                Yaml::Text(
                    "https://cdn.jsdelivr.net/gh/MetaCubeX/meta-rules-dat@release/geosite.dat"@,
                ),
            ),
        ],
    )
}

/// The default sources of the geo databases.
pub fn default_geox_block() -> (r: serde_yaml::Value)
    ensures
        crate::yaml::yaml_of(r) == default_geox(),
{
    proof {
        reveal_strlit("geoip");
        reveal_strlit("mmdb");
        reveal_strlit("geosite");
        assert("geoip"@.len() == 5 && "mmdb"@.len() == 4 && "geosite"@.len() == 7);
    }
    let mut m = new_mapping();
    proof {
        crate::yaml::lemma_key_index(crate::yaml::entries_of(m), Yaml::Text("geoip"@));
    }
    let _ = insert_key(
        &mut m,
        "geoip",
        text_value("https://cdn.jsdelivr.net/gh/MetaCubeX/meta-rules-dat@release/geoip.metadb"),
    );
    proof {
        crate::yaml::lemma_key_index(crate::yaml::entries_of(m), Yaml::Text("mmdb"@));
    }
    let _ = insert_key(
        &mut m,
        "mmdb",
        text_value("https://cdn.jsdelivr.net/gh/MetaCubeX/meta-rules-dat@release/country.mmdb"),
    );
    proof {
        crate::yaml::lemma_key_index(crate::yaml::entries_of(m), Yaml::Text("geosite"@));
    }
    let _ = insert_key(
        &mut m,
        "geosite",
        text_value("https://cdn.jsdelivr.net/gh/MetaCubeX/meta-rules-dat@release/geosite.dat"),
    );
    assert(crate::yaml::entries_of(m) =~= default_geox()->Mapping_0);
    mapping_value(m)
}

/// The entries of a configuration with the listed keys out and the port and
/// the controller pinned.
pub open spec fn pinned_entries(entries: Seq<(Yaml, Yaml)>, mixed_port: i32) -> Seq<(Yaml, Yaml)> {
    crate::yaml::with_key(
        crate::yaml::with_key(
            without_keys(entries, patched_out_keys()),
            Yaml::Text("mixed-port"@),
            Yaml::Int(effective_port(mixed_port)),
        ),
        Yaml::Text("external-controller"@),
        Yaml::Text("127.0.0.1:9090"@),
    )
}

/// The entries of a patched configuration.
pub open spec fn patched_entries(entries: Seq<(Yaml, Yaml)>, mixed_port: i32) -> Seq<(Yaml, Yaml)> {
    let pinned = pinned_entries(entries, mixed_port);
    if crate::yaml::lookup(pinned, Yaml::Text("geox-url"@)) is Some {
        pinned
    } else {
        crate::yaml::with_key(pinned, Yaml::Text("geox-url"@), default_geox())
    }
}

/// A patched configuration; `None` where the root is no mapping. A tag on the
/// root stays.
pub open spec fn patched(doc: Yaml, mixed_port: i32) -> Option<Yaml> {
    match crate::yaml::untagged(doc) {
        Yaml::Mapping(entries) => Some(
            crate::yaml::retagged(doc, Yaml::Mapping(patched_entries(entries, mixed_port))),
        ),
        _ => None,
    }
}

/// Patches a document: the user's resolver, subscriptions and secret go, the
/// mixed port and the controller are pinned, and the sources of the geo
/// databases are filled in where they are missing. Returns whether the root is
/// a mapping; where it is none, nothing changes.
pub fn patch_document(doc: &mut serde_yaml::Value, mixed_port: i32) -> (r: bool)
    ensures
        match patched(crate::yaml::yaml_of(*old(doc)), mixed_port) {
            Some(d) => r && crate::yaml::yaml_of(*final(doc)) == d,
            None => !r && *final(doc) == *old(doc),
        },
        valid_root(crate::yaml::untagged(crate::yaml::yaml_of(*old(doc)))),
{
    match as_mapping_mut(doc) {
        Some(root) => {
            let keys: [&str; 3] = ["dns", "subscriptions", "secret"];
            assert(texts(keys@) =~= patched_out_keys());
            remove_keys(root, &keys);
            let port: i64 = if mixed_port > 0 {
                mixed_port as i64
            } else {
                7890
            };
            let _ = insert_key(root, "mixed-port", int_value(port));
            let _ = insert_key(root, "external-controller", text_value("127.0.0.1:9090"));
            if !has_key(root, "geox-url") {
                let _ = insert_key(root, "geox-url", default_geox_block());
            }
            true
        },
        None => false,
    }
}

/// Why a configuration could not be patched.
pub enum PatchError {
    /// The text is no YAML document; the parser's message.
    Parse(String),
    /// The root of the document is no mapping.
    NotMapping,
    /// The patched document could not be written; the writer's message.
    Serialize(String),
}

impl PatchError {
    /// The message of the error.
    pub open spec fn text(self) -> Seq<char> {
        match self {
            PatchError::Parse(m) => "yaml parse error: "@ + m@,
            PatchError::NotMapping => "config root is not a yaml mapping"@,
            PatchError::Serialize(m) => "yaml serialize error: "@ + m@,
        }
    }

    /// The message of the error.
    pub fn message(&self) -> (r: String)
        ensures
            r@ == self.text(),
    {
        match self {
            PatchError::Parse(m) => "yaml parse error: ".to_owned().concat(m.as_str()),
            PatchError::NotMapping => "config root is not a yaml mapping".to_owned(),
            PatchError::Serialize(m) => "yaml serialize error: ".to_owned().concat(m.as_str()),
        }
    }
}

/// Where a patched document is writable, or was before, it is written and reads
/// back.
pub open spec fn patch_reads_back(doc: Yaml, mixed_port: i32) -> bool {
    match patched(doc, mixed_port) {
        Some(d) => crate::yaml::writable(doc) || crate::yaml::writable(d) ==> {
            &&& crate::yaml::yaml_print(d) is Ok
            &&& crate::yaml::yaml_parse(crate::yaml::yaml_print(d)->Ok_0) == Ok::<Yaml, Seq<char>>(d)
        },
        None => true,
    }
}

/// Patches the text of a configuration. Where the document is writable, patched
/// or before, this succeeds, and the text reads back as the patched document.
pub fn patch_config(yaml: &str, mixed_port: i32) -> (r: Result<String, PatchError>)
    ensures
        match crate::yaml::yaml_parse(yaml@) {
            Err(m) => r matches Err(PatchError::Parse(e)) && e@ == m,
            Ok(doc) => match patched(doc, mixed_port) {
                None => r matches Err(PatchError::NotMapping),
                Some(d) => match crate::yaml::yaml_print(d) {
                    Err(m) => r matches Err(PatchError::Serialize(e)) && e@ == m,
                    Ok(out) => r matches Ok(s) && s@ == out,
                },
            },
        },
        match crate::yaml::yaml_parse(yaml@) {
            Ok(doc) => {
                &&& valid_root(crate::yaml::untagged(doc))
                &&& patch_reads_back(doc, mixed_port)
            },
            Err(_) => true,
        },
{
    let mut doc = match parse_value(yaml) {
        Ok(doc) => doc,
        Err(e) => {
            return Err(PatchError::Parse(error_text(&e)));
        },
    };
    let ghost parsed = crate::yaml::yaml_of(doc);
    if !patch_document(&mut doc, mixed_port) {
        return Err(PatchError::NotMapping);
    }
    proof {
        if crate::yaml::writable(parsed) {
            law_patch_keeps_writable(parsed, mixed_port);
        }
    }
    match print_value(&doc) {
        Ok(text) => Ok(text),
        Err(e) => Err(PatchError::Serialize(error_text(&e))),
    }
}

proof fn lemma_without_keys(entries: Seq<(Yaml, Yaml)>, keys: Seq<Seq<char>>)
    requires
        crate::yaml::distinct_keys(entries),
    ensures
        crate::yaml::distinct_keys(without_keys(entries, keys)),
        forall|k: Seq<char>|
            keys.contains(k) ==> #[trigger] crate::yaml::lookup(
                without_keys(entries, keys),
                Yaml::Text(k),
            ) is None,
        forall|other: Yaml|
            (forall|k: Seq<char>| keys.contains(k) ==> other != Yaml::Text(k))
                ==> #[trigger] crate::yaml::lookup(without_keys(entries, keys), other)
                == crate::yaml::lookup(entries, other),
    decreases keys.len(),
{
    if keys.len() > 0 {
        let init = keys.drop_last();
        let before = without_keys(entries, init);
        let last = Yaml::Text(keys.last());
        lemma_without_keys(entries, init);
        crate::yaml::lemma_without_key(before, last);
        let w = without_keys(entries, keys);
        assert(keys.contains(keys.last()));
        assert forall|k: Seq<char>| keys.contains(k) implies #[trigger] crate::yaml::lookup(
            w,
            Yaml::Text(k),
        ) is None by {
            if k != keys.last() {
                let i = choose|i: int| 0 <= i < keys.len() && keys[i] == k;
                assert(init[i] == k);
                assert(init.contains(k));
                assert(Yaml::Text(k) != last);
            }
        }
        assert forall|other: Yaml|
            (forall|k: Seq<char>| keys.contains(k) ==> other != Yaml::Text(k)) implies (
        #[trigger] crate::yaml::lookup(w, other)) == crate::yaml::lookup(entries, other) by {
            assert(other != last);
            assert forall|k: Seq<char>| init.contains(k) implies other != Yaml::Text(k) by {
                let i = choose|i: int| 0 <= i < init.len() && init[i] == k;
                assert(keys[i] == k);
                assert(keys.contains(k));
            }
        }
    }
}

proof fn lemma_without_absent_keys(entries: Seq<(Yaml, Yaml)>, keys: Seq<Seq<char>>)
    requires
        forall|i: int|
            0 <= i < keys.len() ==> crate::yaml::lookup(entries, Yaml::Text(#[trigger] keys[i]))
                is None,
    ensures
        without_keys(entries, keys) == entries,
    decreases keys.len(),
{
    if keys.len() > 0 {
        assert forall|i: int| 0 <= i < keys.drop_last().len() implies crate::yaml::lookup(
            entries,
            Yaml::Text(#[trigger] keys.drop_last()[i]),
        ) is None by {
            assert(keys.drop_last()[i] == keys[i]);
        }
        lemma_without_absent_keys(entries, keys.drop_last());
        assert(crate::yaml::lookup(entries, Yaml::Text(keys[keys.len() - 1])) is None);
    }
}

proof fn lemma_dns_is_stripped()
    ensures
        stripped_keys().contains("dns"@),
        stripped_keys().last() == "dns"@,
        forall|i: int| 0 <= i < 6 ==> #[trigger] stripped_keys()[i] != "dns"@,
{
    reveal_strlit("port");
    reveal_strlit("socks-port");
    reveal_strlit("mixed-port");
    reveal_strlit("tproxy-port");
    reveal_strlit("listeners");
    reveal_strlit("sniffer");
    reveal_strlit("dns");
    let keys = stripped_keys();
    assert(keys[6] == "dns"@);
    assert forall|i: int| 0 <= i < 6 implies #[trigger] keys[i] != "dns"@ by {
        assert("dns"@.len() == 3);
        assert("port"@.len() == 4 && "socks-port"@.len() == 10 && "mixed-port"@.len() == 10);
        assert("tproxy-port"@.len() == 11 && "listeners"@.len() == 9 && "sniffer"@.len() == 7);
    }
}

/// No listed key survives the strip, and the resolver of a stripped
/// configuration is the pinned one, whatever the user wrote.
pub proof fn law_strip_pins_the_resolver(entries: Seq<(Yaml, Yaml)>)
    requires
        crate::yaml::distinct_keys(entries),
    ensures
        forall|k: Seq<char>|
            stripped_keys().contains(k) && k != "dns"@ ==> #[trigger] crate::yaml::lookup(
                stripped_entries(entries),
                Yaml::Text(k),
            ) is None,
        crate::yaml::lookup(stripped_entries(entries), Yaml::Text("dns"@)) == Some(pinned_dns()),
        crate::yaml::distinct_keys(stripped_entries(entries)),
{
    let w = without_keys(entries, stripped_keys());
    lemma_without_keys(entries, stripped_keys());
    crate::yaml::lemma_with_key(w, Yaml::Text("dns"@), pinned_dns());
    assert forall|k: Seq<char>| stripped_keys().contains(k) && k != "dns"@ implies (
    #[trigger] crate::yaml::lookup(stripped_entries(entries), Yaml::Text(k))) is None by {
        assert(Yaml::Text(k) != Yaml::Text("dns"@));
        assert(crate::yaml::lookup(w, Yaml::Text(k)) is None);
    }
}

/// The strip keeps every other entry, whether this library knows its key or
/// not, and adds none.
pub proof fn law_strip_keeps_other_keys(entries: Seq<(Yaml, Yaml)>, key: Yaml)
    requires
        crate::yaml::distinct_keys(entries),
        forall|k: Seq<char>| stripped_keys().contains(k) ==> key != Yaml::Text(k),
    ensures
        crate::yaml::lookup(stripped_entries(entries), key) == crate::yaml::lookup(entries, key),
{
    let w = without_keys(entries, stripped_keys());
    lemma_without_keys(entries, stripped_keys());
    lemma_dns_is_stripped();
    crate::yaml::lemma_with_key(w, Yaml::Text("dns"@), pinned_dns());
}

/// Stripping a stripped configuration changes nothing, not even the order.
pub proof fn law_strip_is_idempotent(doc: Yaml)
    requires
        valid_root(doc),
    ensures
        stripped(stripped(doc)) == stripped(doc),
{
    match doc {
        Yaml::Mapping(entries) => {
            let keys = stripped_keys();
            let w = without_keys(entries, keys);
            let once = stripped_entries(entries);
            lemma_without_keys(entries, keys);
            lemma_dns_is_stripped();
            law_strip_pins_the_resolver(entries);
            assert(crate::yaml::lookup(w, Yaml::Text("dns"@)) is None);
            assert(once == w.push((Yaml::Text("dns"@), pinned_dns())));
            let init = keys.drop_last();
            assert forall|i: int| 0 <= i < init.len() implies crate::yaml::lookup(
                once,
                Yaml::Text(#[trigger] init[i]),
            ) is None by {
                assert(init[i] == keys[i]);
                assert(keys.contains(keys[i]));
            }
            lemma_without_absent_keys(once, init);
            assert(once.last() == (Yaml::Text("dns"@), pinned_dns()));
            assert(crate::yaml::without_key(once, Yaml::Text("dns"@)) =~= w);
            assert(without_keys(once, keys) == w);
        },
        _ => {},
    }
}

/// Stripping the text of a stripped configuration gives the same text,
/// wherever that text reads back as the document it was written from.
pub proof fn law_strip_text_is_idempotent(text: Seq<char>, out: Seq<char>, doc: Yaml)
    requires
        crate::yaml::yaml_parse(text) == Ok::<Yaml, Seq<char>>(doc),
        valid_root(doc),
        strip_text(text) == Ok::<Seq<char>, ConfigError>(out),
        crate::yaml::yaml_parse(out) == Ok::<Yaml, Seq<char>>(stripped(doc)),
    ensures
        strip_text(out) == Ok::<Seq<char>, ConfigError>(out),
{
    law_strip_is_idempotent(doc);
}

proof fn lemma_writable_without_keys(entries: Seq<(Yaml, Yaml)>, keys: Seq<Seq<char>>)
    requires
        crate::yaml::writable_entries(entries),
    ensures
        crate::yaml::writable_entries(without_keys(entries, keys)),
    decreases keys.len(),
{
    if keys.len() > 0 {
        lemma_writable_without_keys(entries, keys.drop_last());
        crate::yaml::lemma_writable_without_key(
            without_keys(entries, keys.drop_last()),
            Yaml::Text(keys.last()),
        );
    }
}

proof fn lemma_pinned_dns_is_writable()
    ensures
        crate::yaml::writable_text("dns"@),
        crate::yaml::writable_within(pinned_dns(), (crate::yaml::max_levels() - 1) as nat),
{
    reveal_strlit("dns");
    reveal_strlit("enable");
    reveal_strlit("listen");
    reveal_strlit("");
    reveal_strlit("enhanced-mode");
    reveal_strlit("fake-ip");
    reveal_strlit("fake-ip-range");
    reveal_strlit("28.0.0.0/8");
    reveal_strlit("nameserver");
    reveal_strlit("119.29.29.29");
    reveal_strlit("223.5.5.5");
    reveal_with_fuel(crate::yaml::writable_within, 4);
}

proof fn lemma_default_geox_is_writable()
    ensures
        crate::yaml::writable_text("geox-url"@),
        crate::yaml::writable_within(default_geox(), (crate::yaml::max_levels() - 1) as nat),
{
    reveal_strlit("geox-url");
    reveal_strlit("geoip");
    reveal_strlit("mmdb");
    reveal_strlit("geosite");
    reveal_strlit("https://cdn.jsdelivr.net/gh/MetaCubeX/meta-rules-dat@release/geoip.metadb");
    reveal_strlit("https://cdn.jsdelivr.net/gh/MetaCubeX/meta-rules-dat@release/country.mmdb");
    reveal_strlit("https://cdn.jsdelivr.net/gh/MetaCubeX/meta-rules-dat@release/geosite.dat");
    reveal_with_fuel(crate::yaml::writable_within, 3);
}

/// Stripping a writable document leaves a writable one.
pub proof fn law_strip_keeps_writable(doc: Yaml)
    requires
        crate::yaml::writable(doc),
    ensures
        crate::yaml::writable(stripped(doc)),
{
    if let Yaml::Mapping(entries) = doc {
        crate::yaml::lemma_writable_root(entries);
        lemma_writable_without_keys(entries, stripped_keys());
        lemma_pinned_dns_is_writable();
        crate::yaml::lemma_writable_with_key(
            without_keys(entries, stripped_keys()),
            "dns"@,
            pinned_dns(),
        );
    }
}

proof fn lemma_validation_keeps_writable(doc: Yaml)
    requires
        valid_root(doc),
        crate::yaml::writable(stripped(doc)),
    ensures
        crate::yaml::writable(without_rule_providers(stripped(doc))),
{
    if let Yaml::Mapping(entries) = doc {
        let once = stripped_entries(entries);
        let providers = Yaml::Text("rule-providers"@);
        let dns = Yaml::Text("dns"@);
        let kept = crate::yaml::without_key(once, providers);
        reveal_strlit("rule-providers");
        reveal_strlit("dns");
        assert("rule-providers"@.len() == 14 && "dns"@.len() == 3);
        crate::yaml::lemma_writable_root(once);
        crate::yaml::lemma_writable_without_key(once, providers);
        law_strip_pins_the_resolver(entries);
        crate::yaml::lemma_without_key(once, providers);
        assert(crate::yaml::lookup(kept, dns) is Some);
        crate::yaml::lemma_key_index(kept, dns);
        crate::yaml::lemma_writable_root(kept);
    }
}

/// Patching a writable document leaves a writable one.
pub proof fn law_patch_keeps_writable(doc: Yaml, mixed_port: i32)
    requires
        crate::yaml::writable(doc),
    ensures
        patched(doc, mixed_port) matches Some(d) ==> crate::yaml::writable(d),
{
    if let Yaml::Mapping(entries) = crate::yaml::untagged(doc) {
        reveal_with_fuel(crate::yaml::untagged, 2);
        reveal_with_fuel(crate::yaml::retagged, 2);
        reveal_with_fuel(crate::yaml::writable_within, 2);
        let without = without_keys(entries, patched_out_keys());
        let port = Yaml::Int(effective_port(mixed_port));
        let with_port = crate::yaml::with_key(without, Yaml::Text("mixed-port"@), port);
        reveal_strlit("mixed-port");
        reveal_strlit("external-controller");
        reveal_strlit("127.0.0.1:9090");
        assert(crate::yaml::writable(Yaml::Mapping(entries)));
        crate::yaml::lemma_writable_root(entries);
        lemma_writable_without_keys(entries, patched_out_keys());
        crate::yaml::lemma_writable_with_key(without, "mixed-port"@, port);
        crate::yaml::lemma_writable_with_key(
            with_port,
            "external-controller"@,
            Yaml::Text("127.0.0.1:9090"@),
        );
        lemma_default_geox_is_writable();
        crate::yaml::lemma_writable_with_key(
            pinned_entries(entries, mixed_port),
            "geox-url"@,
            default_geox(),
        );
    }
}

/// What the editor validates has no rule providers and is otherwise the
/// document it was made from.
pub proof fn law_validation_drops_only_rule_providers(entries: Seq<(Yaml, Yaml)>, key: Yaml)
    requires
        crate::yaml::distinct_keys(entries),
    ensures
        ({
            let out = without_rule_providers(Yaml::Mapping(entries))->Mapping_0;
            crate::yaml::lookup(out, key) == if key == Yaml::Text("rule-providers"@) {
                None
            } else {
                crate::yaml::lookup(entries, key)
            }
        }),
{
    crate::yaml::lemma_without_key(entries, Yaml::Text("rule-providers"@));
}

/// What the editor validates is the text of the stripped configuration without
/// its rule providers, which keeps every other entry of that, wherever the
/// stripped text reads back as the document it was written from.
pub proof fn law_validation_text_drops_only_rule_providers(
    text: Seq<char>,
    stripped_text: Seq<char>,
    entries: Seq<(Yaml, Yaml)>,
    key: Yaml,
)
    requires
        crate::yaml::yaml_parse(text) == Ok::<Yaml, Seq<char>>(Yaml::Mapping(entries)),
        crate::yaml::distinct_keys(entries),
        strip_text(text) == Ok::<Seq<char>, ConfigError>(stripped_text),
        crate::yaml::yaml_parse(stripped_text) == Ok::<Yaml, Seq<char>>(
            Yaml::Mapping(stripped_entries(entries)),
        ),
    ensures
        ({
            let kept = crate::yaml::without_key(
                stripped_entries(entries),
                Yaml::Text("rule-providers"@),
            );
            &&& validation_text(text) == match crate::yaml::yaml_print(Yaml::Mapping(kept)) {
                Ok(out) => Ok(out),
                Err(_) => Err(ConfigError::SerializeValidation),
            }
            &&& crate::yaml::lookup(kept, key) == if key == Yaml::Text("rule-providers"@) {
                None
            } else {
                crate::yaml::lookup(stripped_entries(entries), key)
            }
        }),
{
    law_strip_pins_the_resolver(entries);
    law_validation_drops_only_rule_providers(stripped_entries(entries), key);
}

/// A patched configuration has neither resolver, subscriptions nor secret of
/// the user, the pinned port and controller, some source of the geo databases
/// (the user's where there is one), and every other entry unchanged.
pub proof fn law_patch_pins_and_keeps(entries: Seq<(Yaml, Yaml)>, mixed_port: i32)
    requires
        crate::yaml::distinct_keys(entries),
    ensures
        ({
            let out = patched_entries(entries, mixed_port);
            &&& crate::yaml::distinct_keys(out)
            &&& crate::yaml::lookup(out, Yaml::Text("dns"@)) is None
            &&& crate::yaml::lookup(out, Yaml::Text("subscriptions"@)) is None
            &&& crate::yaml::lookup(out, Yaml::Text("secret"@)) is None
            &&& crate::yaml::lookup(out, Yaml::Text("mixed-port"@)) == Some(
                Yaml::Int(effective_port(mixed_port)),
            )
            &&& crate::yaml::lookup(out, Yaml::Text("external-controller"@)) == Some(
                Yaml::Text("127.0.0.1:9090"@),
            )
            &&& crate::yaml::lookup(out, Yaml::Text("geox-url"@)) == match crate::yaml::lookup(
                entries,
                Yaml::Text("geox-url"@),
            ) {
                Some(user) => Some(user),
                None => Some(default_geox()),
            }
            &&& forall|key: Yaml|
                key != Yaml::Text("dns"@) && key != Yaml::Text("subscriptions"@) && key
                    != Yaml::Text("secret"@) && key != Yaml::Text("mixed-port"@) && key
                    != Yaml::Text("external-controller"@) && key != Yaml::Text("geox-url"@)
                    ==> #[trigger] crate::yaml::lookup(out, key) == crate::yaml::lookup(
                    entries,
                    key,
                )
        }),
{
    reveal_strlit("dns");
    reveal_strlit("subscriptions");
    reveal_strlit("secret");
    reveal_strlit("mixed-port");
    reveal_strlit("external-controller");
    reveal_strlit("geox-url");
    let keys = patched_out_keys();
    assert("dns"@.len() == 3 && "subscriptions"@.len() == 13 && "secret"@.len() == 6);
    assert("mixed-port"@.len() == 10 && "external-controller"@.len() == 19);
    assert("geox-url"@.len() == 8);
    assert(keys[0] == "dns"@ && keys[1] == "subscriptions"@ && keys[2] == "secret"@);
    assert(keys.contains("dns"@) && keys.contains("subscriptions"@) && keys.contains("secret"@));
    assert forall|k: Seq<char>| keys.contains(k) implies k == "dns"@ || k == "subscriptions"@ || k
        == "secret"@ by {
        let i = choose|i: int| 0 <= i < keys.len() && keys[i] == k;
        assert(i == 0 || i == 1 || i == 2);
    }
    let port = Yaml::Text("mixed-port"@);
    let controller = Yaml::Text("external-controller"@);
    let geox = Yaml::Text("geox-url"@);
    let a = without_keys(entries, keys);
    lemma_without_keys(entries, keys);
    let b = crate::yaml::with_key(a, port, Yaml::Int(effective_port(mixed_port)));
    crate::yaml::lemma_with_key(a, port, Yaml::Int(effective_port(mixed_port)));
    let c = crate::yaml::with_key(b, controller, Yaml::Text("127.0.0.1:9090"@));
    crate::yaml::lemma_with_key(b, controller, Yaml::Text("127.0.0.1:9090"@));
    crate::yaml::lemma_with_key(c, geox, default_geox());
    let out = patched_entries(entries, mixed_port);
    assert(c == pinned_entries(entries, mixed_port));
    assert(crate::yaml::lookup(a, geox) == crate::yaml::lookup(entries, geox));
    assert(crate::yaml::lookup(c, geox) == crate::yaml::lookup(b, geox));
    assert(crate::yaml::lookup(b, geox) == crate::yaml::lookup(a, geox));
    assert(crate::yaml::lookup(a, Yaml::Text("dns"@)) is None);
    assert(crate::yaml::lookup(b, Yaml::Text("dns"@)) is None);
    assert(crate::yaml::lookup(c, Yaml::Text("dns"@)) is None);
    assert(crate::yaml::lookup(a, Yaml::Text("subscriptions"@)) is None);
    assert(crate::yaml::lookup(b, Yaml::Text("subscriptions"@)) is None);
    assert(crate::yaml::lookup(c, Yaml::Text("subscriptions"@)) is None);
    assert(crate::yaml::lookup(a, Yaml::Text("secret"@)) is None);
    assert(crate::yaml::lookup(b, Yaml::Text("secret"@)) is None);
    assert(crate::yaml::lookup(c, Yaml::Text("secret"@)) is None);
    assert forall|key: Yaml|
        key != Yaml::Text("dns"@) && key != Yaml::Text("subscriptions"@) && key != Yaml::Text(
            "secret"@,
        ) && key != port && key != controller && key != geox implies #[trigger] crate::yaml::lookup(
        out,
        key,
    ) == crate::yaml::lookup(entries, key) by {
        assert(crate::yaml::lookup(c, key) == crate::yaml::lookup(b, key));
        assert(crate::yaml::lookup(b, key) == crate::yaml::lookup(a, key));
        assert(crate::yaml::lookup(a, key) == crate::yaml::lookup(entries, key));
    }
}

proof fn lemma_stripped_keys_are_seven(k: Seq<char>)
    ensures
        stripped_keys().contains(k) <==> {
            ||| k == "port"@
            ||| k == "socks-port"@
            ||| k == "mixed-port"@
            ||| k == "tproxy-port"@
            ||| k == "listeners"@
            ||| k == "sniffer"@
            ||| k == "dns"@
        },
{
    let keys = stripped_keys();
    assert(keys[0] == "port"@ && keys[1] == "socks-port"@ && keys[2] == "mixed-port"@);
    assert(keys[3] == "tproxy-port"@ && keys[4] == "listeners"@ && keys[5] == "sniffer"@);
    assert(keys[6] == "dns"@);
    if keys.contains(k) {
        let i = choose|i: int| 0 <= i < keys.len() && keys[i] == k;
        assert(i == 0 || i == 1 || i == 2 || i == 3 || i == 4 || i == 5 || i == 6);
    }
}

/// What the strip takes out and what it leaves, by name: `port`, `socks-port`,
/// `mixed-port`, `tproxy-port`, `listeners` and `sniffer` are gone, `dns` is the
/// pinned resolver, and every other entry of the configuration is there with
/// the value it had. Nothing is added. A document that is no mapping stays as
/// it is.
pub proof fn law_strip_by_name(entries: Seq<(Yaml, Yaml)>)
    requires
        crate::yaml::distinct_keys(entries),
    ensures
        ({
            let out = stripped_entries(entries);
            &&& stripped(Yaml::Mapping(entries)) == Yaml::Mapping(out)
            &&& crate::yaml::lookup(out, Yaml::Text("port"@)) is None
            &&& crate::yaml::lookup(out, Yaml::Text("socks-port"@)) is None
            &&& crate::yaml::lookup(out, Yaml::Text("mixed-port"@)) is None
            &&& crate::yaml::lookup(out, Yaml::Text("tproxy-port"@)) is None
            &&& crate::yaml::lookup(out, Yaml::Text("listeners"@)) is None
            &&& crate::yaml::lookup(out, Yaml::Text("sniffer"@)) is None
            &&& crate::yaml::lookup(out, Yaml::Text("dns"@)) == Some(pinned_dns())
            &&& forall|key: Yaml|
                key != Yaml::Text("port"@) && key != Yaml::Text("socks-port"@) && key != Yaml::Text(
                    "mixed-port"@,
                ) && key != Yaml::Text("tproxy-port"@) && key != Yaml::Text("listeners"@) && key
                    != Yaml::Text("sniffer"@) && key != Yaml::Text("dns"@)
                    ==> #[trigger] crate::yaml::lookup(out, key) == crate::yaml::lookup(
                    entries,
                    key,
                )
        }),
        forall|doc: Yaml| doc !is Mapping ==> #[trigger] stripped(doc) == doc,
{
    let out = stripped_entries(entries);
    lemma_stripped_keys_are_seven("port"@);
    lemma_stripped_keys_are_seven("socks-port"@);
    lemma_stripped_keys_are_seven("mixed-port"@);
    lemma_stripped_keys_are_seven("tproxy-port"@);
    lemma_stripped_keys_are_seven("listeners"@);
    lemma_stripped_keys_are_seven("sniffer"@);
    reveal_strlit("port");
    reveal_strlit("socks-port");
    reveal_strlit("mixed-port");
    reveal_strlit("tproxy-port");
    reveal_strlit("listeners");
    reveal_strlit("sniffer");
    reveal_strlit("dns");
    assert("dns"@.len() == 3);
    assert("port"@.len() == 4 && "socks-port"@.len() == 10 && "mixed-port"@.len() == 10);
    assert("tproxy-port"@.len() == 11 && "listeners"@.len() == 9 && "sniffer"@.len() == 7);
    law_strip_pins_the_resolver(entries);
    assert forall|key: Yaml|
        key != Yaml::Text("port"@) && key != Yaml::Text("socks-port"@) && key != Yaml::Text(
            "mixed-port"@,
        ) && key != Yaml::Text("tproxy-port"@) && key != Yaml::Text("listeners"@) && key
            != Yaml::Text("sniffer"@) && key != Yaml::Text(
            "dns"@,
        ) implies #[trigger] crate::yaml::lookup(out, key) == crate::yaml::lookup(entries, key) by {
        assert forall|k: Seq<char>| stripped_keys().contains(k) implies key != Yaml::Text(k) by {
            lemma_stripped_keys_are_seven(k);
        }
        law_strip_keeps_other_keys(entries, key);
    }
}

/// The pinned resolver, entry by entry: it is on, listens nowhere, hands out
/// synthetic addresses from 28.0.0.0/8 and asks the two pinned nameservers.
pub proof fn law_pinned_resolver_by_name()
    ensures
        ({
            &&& pinned_dns() matches Yaml::Mapping(m)
            &&& m.len() == 5
            &&& crate::yaml::distinct_keys(m)
            &&& crate::yaml::lookup(m, Yaml::Text("enable"@)) == Some(Yaml::Bool(true))
            &&& crate::yaml::lookup(m, Yaml::Text("listen"@)) == Some(Yaml::Text(""@))
            &&& crate::yaml::lookup(m, Yaml::Text("enhanced-mode"@)) == Some(
                Yaml::Text("fake-ip"@),
            )
            &&& crate::yaml::lookup(m, Yaml::Text("fake-ip-range"@)) == Some(
                Yaml::Text("28.0.0.0/8"@),
            )
            &&& crate::yaml::lookup(m, Yaml::Text("nameserver"@)) == Some(
                Yaml::List(seq![Yaml::Text("119.29.29.29"@), Yaml::Text("223.5.5.5"@)]),
            )
        }),
{
    let m = pinned_dns()->Mapping_0;
    reveal_strlit("enable");
    reveal_strlit("listen");
    reveal_strlit("enhanced-mode");
    reveal_strlit("fake-ip-range");
    reveal_strlit("nameserver");
    assert("enable"@.len() == 6 && "listen"@.len() == 6 && "nameserver"@.len() == 10);
    assert("enhanced-mode"@.len() == 13 && "fake-ip-range"@.len() == 13);
    assert("enable"@[0] != "listen"@[0]);
    assert("enhanced-mode"@[0] != "fake-ip-range"@[0]);
    assert(pinned_nameserver_texts().map_values(|t: Seq<char>| Yaml::Text(t)) =~= seq![
        Yaml::Text("119.29.29.29"@),
        Yaml::Text("223.5.5.5"@),
    ]);
    crate::yaml::lemma_key_index_unique(m, Yaml::Text("enable"@), 0);
    crate::yaml::lemma_key_index_unique(m, Yaml::Text("listen"@), 1);
    crate::yaml::lemma_key_index_unique(m, Yaml::Text("enhanced-mode"@), 2);
    crate::yaml::lemma_key_index_unique(m, Yaml::Text("fake-ip-range"@), 3);
    crate::yaml::lemma_key_index_unique(m, Yaml::Text("nameserver"@), 4);
}

/// The default sources of the geo databases, entry by entry.
pub proof fn law_default_geo_sources_by_name()
    ensures
        ({
            &&& default_geox() matches Yaml::Mapping(m)
            &&& m.len() == 3
            &&& crate::yaml::lookup(m, Yaml::Text("geoip"@)) == Some(
                Yaml::Text(
                    "https://cdn.jsdelivr.net/gh/MetaCubeX/meta-rules-dat@release/geoip.metadb"@,
                ),
            )
            &&& crate::yaml::lookup(m, Yaml::Text("mmdb"@)) == Some(
                Yaml::Text(
                    "https://cdn.jsdelivr.net/gh/MetaCubeX/meta-rules-dat@release/country.mmdb"@,
                ),
            )
            &&& crate::yaml::lookup(m, Yaml::Text("geosite"@)) == Some(
                Yaml::Text(
                    "https://cdn.jsdelivr.net/gh/MetaCubeX/meta-rules-dat@release/geosite.dat"@,
                ),
            )
        }),
{
    let m = default_geox()->Mapping_0;
    reveal_strlit("geoip");
    reveal_strlit("mmdb");
    reveal_strlit("geosite");
    assert("geoip"@.len() == 5 && "mmdb"@.len() == 4 && "geosite"@.len() == 7);
    crate::yaml::lemma_key_index_unique(m, Yaml::Text("geoip"@), 0);
    crate::yaml::lemma_key_index_unique(m, Yaml::Text("mmdb"@), 1);
    crate::yaml::lemma_key_index_unique(m, Yaml::Text("geosite"@), 2);
}

/// Every port that was asked for is the one that is written; without one it is
/// 7890.
pub proof fn law_requested_port_is_written(entries: Seq<(Yaml, Yaml)>, mixed_port: i32)
    requires
        crate::yaml::distinct_keys(entries),
    ensures
        ({
            let port = crate::yaml::lookup(
                patched_entries(entries, mixed_port),
                Yaml::Text("mixed-port"@),
            );
            &&& mixed_port > 0 ==> port == Some(Yaml::Int(mixed_port as int))
            &&& mixed_port <= 0 ==> port == Some(Yaml::Int(7890))
        }),
{
    law_patch_pins_and_keeps(entries, mixed_port);
}

/// The patch looks through tags, one after the other, and leaves each where it
/// was; what is no mapping under its tags is not patched.
pub proof fn law_patch_looks_through_tags(
    entries: Seq<(Yaml, Yaml)>,
    tag: Seq<char>,
    inner: Yaml,
    mixed_port: i32,
)
    ensures
        patched(Yaml::Mapping(entries), mixed_port) == Some(
            Yaml::Mapping(patched_entries(entries, mixed_port)),
        ),
        patched(Yaml::Tagged(tag, Box::new(inner)), mixed_port) == match patched(
            inner,
            mixed_port,
        ) {
            Some(d) => Some(Yaml::Tagged(tag, Box::new(d))),
            None => None,
        },
        inner !is Mapping && inner !is Tagged ==> patched(inner, mixed_port) is None,
{
    reveal_with_fuel(crate::yaml::untagged, 2);
    reveal_with_fuel(crate::yaml::retagged, 2);
}

/// The text of a stripped configuration is what its stripped document is
/// written as, nothing more and nothing less; a text that does not read, or a
/// document that cannot be written, is the only error.
pub proof fn law_strip_text_is_the_stripped_document(text: Seq<char>)
    ensures
        crate::yaml::yaml_parse(text) is Err ==> strip_text(text)
            == Err::<Seq<char>, ConfigError>(ConfigError::ParseConfig),
        crate::yaml::yaml_parse(text) matches Ok(doc) ==> match crate::yaml::yaml_print(
            stripped(doc),
        ) {
            Ok(out) => strip_text(text) == Ok::<Seq<char>, ConfigError>(out),
            Err(_) => strip_text(text) == Err::<Seq<char>, ConfigError>(
                ConfigError::SerializeStripped,
            ),
        },
{
}

/// What the editor validates comes of the stripped text, read again: without
/// `rule-providers` where that is a mapping, as it is where it is not.
pub proof fn law_validation_text_is_the_stripped_text_without_providers(text: Seq<char>)
    ensures
        strip_text(text) matches Err(e) ==> validation_text(text) == Err::<Seq<char>, ConfigError>(
            e,
        ),
        strip_text(text) matches Ok(once) ==> match crate::yaml::yaml_parse(once) {
            Err(_) => validation_text(text) == Err::<Seq<char>, ConfigError>(
                ConfigError::ParseStripped,
            ),
            Ok(doc) => {
                let kept = match doc {
                    Yaml::Mapping(entries) => Yaml::Mapping(
                        crate::yaml::without_key(entries, Yaml::Text("rule-providers"@)),
                    ),
                    _ => doc,
                };
                match crate::yaml::yaml_print(kept) {
                    Ok(out) => validation_text(text) == Ok::<Seq<char>, ConfigError>(out),
                    Err(_) => validation_text(text) == Err::<Seq<char>, ConfigError>(
                        ConfigError::SerializeValidation,
                    ),
                }
            },
        },
{
}

/// An outcome is the expected one where both are the same text or the same
/// error, and nowhere else.
pub proof fn law_outcomes_are_told_apart(r: Result<String, ConfigError>, text: Seq<char>, e: ConfigError)
    ensures
        is_outcome(r, Ok(text)) <==> (r matches Ok(s) && s@ == text),
        is_outcome(r, Err(e)) <==> r == Err::<String, ConfigError>(e),
{
}

/// Each error of the strip has a message of its own.
pub proof fn law_config_errors_by_message()
    ensures
        ConfigError::ParseConfig.text() == "parsing config YAML"@,
        ConfigError::SerializeStripped.text() == "serializing stripped config YAML"@,
        ConfigError::ParseStripped.text() == "parsing stripped YAML for validation"@,
        ConfigError::SerializeValidation.text() == "serializing validation YAML"@,
{
}

/// The errors of the patch say what failed, and hand on what the parser or the
/// writer said.
pub proof fn law_patch_errors_by_message(m: String)
    ensures
        PatchError::Parse(m).text() == "yaml parse error: "@ + m@,
        PatchError::NotMapping.text() == "config root is not a yaml mapping"@,
        PatchError::Serialize(m).text() == "yaml serialize error: "@ + m@,
{
}

} // verus!
