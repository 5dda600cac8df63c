//! YAML documents of the `serde_yaml` crate, as far as configurations are
//! edited: what a document holds, and the operations on its root mapping.

use vstd::prelude::*;

verus! {

/// What a YAML node holds. The entries of a mapping stand in their order in
/// the document.
pub ghost enum Yaml {
    Null,
    Bool(bool),
    Int(int),
    /// A floating-point number, by its bit pattern.
    Float(u64),
    Text(Seq<char>),
    List(Seq<Yaml>),
    Mapping(Seq<(Yaml, Yaml)>),
    Tagged(Seq<char>, Box<Yaml>),
}

/// A value of the `serde_yaml` crate, opaque here.
#[verifier::external_type_specification]
#[verifier::external_body]
pub struct ExYamlValue(serde_yaml::Value);

/// A mapping of the `serde_yaml` crate, opaque here.
#[verifier::external_type_specification]
#[verifier::external_body]
pub struct ExYamlMapping(serde_yaml::Mapping);

/// An error of the `serde_yaml` crate, opaque here.
#[verifier::external_type_specification]
#[verifier::external_body]
pub struct ExYamlError(serde_yaml::Error);

/// What a value holds.
pub uninterp spec fn yaml_of(v: serde_yaml::Value) -> Yaml;

/// The entries of a mapping, in order.
pub uninterp spec fn entries_of(m: serde_yaml::Mapping) -> Seq<(Yaml, Yaml)>;

/// The message that an error displays.
pub uninterp spec fn error_message(e: serde_yaml::Error) -> Seq<char>;

/// The document that a text reads as, or the message of the error.
pub uninterp spec fn yaml_parse(text: Seq<char>) -> Result<Yaml, Seq<char>>;

/// The text that a document is written as, or the message of the error.
pub uninterp spec fn yaml_print(doc: Yaml) -> Result<Seq<char>, Seq<char>>;

/// No key occurs twice.
pub open spec fn distinct_keys(entries: Seq<(Yaml, Yaml)>) -> bool {
    forall|i: int, j: int|
        0 <= i < j < entries.len() ==> (#[trigger] entries[i]).0 != (#[trigger] entries[j]).0
}

/// Where a key stands. `None` where there is no such key.
pub open spec fn key_index(entries: Seq<(Yaml, Yaml)>, key: Yaml) -> Option<int>
    decreases entries.len(),
{
    if entries.len() == 0 {
        None
    } else if entries.last().0 == key {
        Some(entries.len() - 1)
    } else {
        key_index(entries.drop_last(), key)
    }
}

/// The value under a key.
pub open spec fn lookup(entries: Seq<(Yaml, Yaml)>, key: Yaml) -> Option<Yaml> {
    match key_index(entries, key) {
        Some(i) => Some(entries[i].1),
        None => None,
    }
}

/// The entries without a key: the last entry takes the place of the one that
/// leaves.
pub open spec fn without_key(entries: Seq<(Yaml, Yaml)>, key: Yaml) -> Seq<(Yaml, Yaml)> {
    match key_index(entries, key) {
        Some(i) => entries.update(i, entries.last()).drop_last(),
        None => entries,
    }
}

/// The entries with a value under a key: in place where the key is there, at
/// the end where it is not.
pub open spec fn with_key(entries: Seq<(Yaml, Yaml)>, key: Yaml, value: Yaml) -> Seq<(Yaml, Yaml)> {
    match key_index(entries, key) {
        Some(i) => entries.update(i, (key, value)),
        None => entries.push((key, value)),
    }
}

/// The place of a key is a place where it stands, and there is none exactly
/// where the key stands nowhere.
pub proof fn lemma_key_index(entries: Seq<(Yaml, Yaml)>, key: Yaml)
    ensures
        match key_index(entries, key) {
            Some(i) => 0 <= i < entries.len() && entries[i].0 == key,
            None => forall|i: int| 0 <= i < entries.len() ==> (#[trigger] entries[i]).0 != key,
        },
    decreases entries.len(),
{
    if entries.len() > 0 {
        let init = entries.drop_last();
        lemma_key_index(init, key);
        assert(forall|i: int| 0 <= i < init.len() ==> init[i] == entries[i]);
        if entries.last().0 != key && key_index(init, key) is None {
            assert forall|i: int| 0 <= i < entries.len() implies (#[trigger] entries[i]).0
                != key by {
                if i < init.len() {
                    assert(init[i].0 != key);
                }
            }
        }
    }
}

/// Without repeated keys a key is found exactly where it stands.
pub proof fn lemma_key_index_unique(entries: Seq<(Yaml, Yaml)>, key: Yaml, i: int)
    requires
        distinct_keys(entries),
        0 <= i < entries.len(),
        entries[i].0 == key,
    ensures
        key_index(entries, key) == Some(i),
{
    lemma_key_index(entries, key);
    let k = key_index(entries, key);
    assert(k is Some);
    if k.unwrap() < i {
        assert(entries[k.unwrap()].0 != entries[i].0);
    } else if i < k.unwrap() {
        assert(entries[i].0 != entries[k.unwrap()].0);
    }
}

/// Taking a key out leaves no repeated key, not the key itself, and every
/// other key with its value.
pub proof fn lemma_without_key(entries: Seq<(Yaml, Yaml)>, key: Yaml)
    requires
        distinct_keys(entries),
    ensures
        distinct_keys(without_key(entries, key)),
        lookup(without_key(entries, key), key) is None,
        forall|other: Yaml|
            other != key ==> #[trigger] lookup(without_key(entries, key), other) == lookup(
                entries,
                other,
            ),
{
    let w = without_key(entries, key);
    lemma_key_index(entries, key);
    lemma_key_index(w, key);
    match key_index(entries, key) {
        None => {},
        Some(i) => {
            let n = entries.len() - 1;
            assert forall|a: int, b: int| 0 <= a < b < w.len() implies (#[trigger] w[a]).0 != (
            #[trigger] w[b]).0 by {
                let pa = if a == i { n } else { a };
                let pb = if b == i { n } else { b };
                assert(w[a] == entries[pa] && w[b] == entries[pb]);
                if pa < pb {
                    assert(entries[pa].0 != entries[pb].0);
                } else {
                    assert(entries[pb].0 != entries[pa].0);
                }
            }
            if key_index(w, key) is Some {
                let k = key_index(w, key).unwrap();
                let p = if k == i { n } else { k };
                assert(w[k] == entries[p]);
                lemma_key_index_unique(entries, key, p);
            }
            assert forall|other: Yaml| other != key implies #[trigger] lookup(w, other) == lookup(
                entries,
                other,
            ) by {
                lemma_key_index(entries, other);
                lemma_key_index(w, other);
                if key_index(entries, other) is Some {
                    let p = key_index(entries, other).unwrap();
                    let q = if p == n { i } else { p };
                    assert(w[q] == entries[p]);
                    lemma_key_index_unique(w, other, q);
                } else if key_index(w, other) is Some {
                    let q = key_index(w, other).unwrap();
                    let p = if q == i { n } else { q };
                    assert(w[q] == entries[p]);
                }
            }
        },
    }
}

/// Putting a value under a key leaves no repeated key, the value under the
/// key, and every other key with its value.
pub proof fn lemma_with_key(entries: Seq<(Yaml, Yaml)>, key: Yaml, value: Yaml)
    requires
        distinct_keys(entries),
    ensures
        distinct_keys(with_key(entries, key, value)),
        lookup(with_key(entries, key, value), key) == Some(value),
        forall|other: Yaml|
            other != key ==> #[trigger] lookup(with_key(entries, key, value), other) == lookup(
                entries,
                other,
            ),
{
    let w = with_key(entries, key, value);
    lemma_key_index(entries, key);
    let place = match key_index(entries, key) {
        Some(i) => i,
        None => entries.len() as int,
    };
    assert(w[place] == (key, value));
    assert(forall|a: int| 0 <= a < entries.len() && a != place ==> #[trigger] w[a] == entries[a]);
    assert forall|a: int, b: int| 0 <= a < b < w.len() implies (#[trigger] w[a]).0 != (
    #[trigger] w[b]).0 by {
        if a != place && b != place {
            assert(entries[a].0 != entries[b].0);
        } else if a == place {
            if key_index(entries, key) is Some {
                assert(entries[a].0 != entries[b].0);
            }
        } else {
            if key_index(entries, key) is Some {
                assert(entries[a].0 != entries[b].0);
            }
        }
    }
    lemma_key_index_unique(w, key, place);
    assert forall|other: Yaml| other != key implies #[trigger] lookup(w, other) == lookup(
        entries,
        other,
    ) by {
        lemma_key_index(entries, other);
        lemma_key_index(w, other);
        if key_index(entries, other) is Some {
            let p = key_index(entries, other).unwrap();
            assert(w[p] == entries[p]);
            lemma_key_index_unique(w, other, p);
        } else if key_index(w, other) is Some {
            let q = key_index(w, other).unwrap();
            assert(w[q] == entries[q]);
        }
    }
}

/// A node with its tags taken off.
pub open spec fn untagged(doc: Yaml) -> Yaml
    decreases doc,
{
    match doc {
        Yaml::Tagged(_, inner) => untagged(*inner),
        _ => doc,
    }
}

/// A node with what is under its tags replaced.
pub open spec fn retagged(doc: Yaml, inner: Yaml) -> Yaml
    decreases doc,
{
    match doc {
        Yaml::Tagged(tag, old_inner) => Yaml::Tagged(tag, Box::new(retagged(*old_inner, inner))),
        _ => inner,
    }
}

/// A text that is short enough for the writer, which counts octets and columns
/// in 32 bits.
pub open spec fn writable_text(text: Seq<char>) -> bool {
    text.len() < 0x0800_0000
}

/// A character of a tag that is written and read without an escape.
pub open spec fn tag_char(c: char) -> bool {
    ||| 'a' <= c <= 'z'
    ||| 'A' <= c <= 'Z'
    ||| '0' <= c <= '9'
    ||| seq!['-', '_', ';', '/', '?', ':', '@', '&', '=', '+', '$', '.', '~', '*', '\'', '(', ')']
        .contains(c)
}

/// A tag that needs no escape and no handle of its own.
pub open spec fn writable_tag(tag: Seq<char>) -> bool {
    &&& 0 < tag.len() < 0x0800_0000
    &&& forall|i: int| 0 <= i < tag.len() ==> tag_char(#[trigger] tag[i])
}

/// The bit pattern of a floating-point number, finite or infinite. The patterns
/// above infinity, whatever the sign, are no number.
pub open spec fn is_number(bits: u64) -> bool {
    bits as int % 0x8000_0000_0000_0000 <= 0x7FF0_0000_0000_0000
}

/// A key before which the writer forgets to open a mapping that has no other
/// key.
pub open spec fn unopened_key(key: Yaml) -> bool {
    match key {
        Yaml::Tagged(_, _) => true,
        Yaml::Mapping(entries) => entries.len() == 1,
        _ => false,
    }
}

/// How deep the lists and mappings of a document may nest for the reader.
pub open spec fn max_levels() -> nat {
    128
}

/// A node that the writer takes and the reader gives back, nested at most so
/// deep. Tags count no level, and none stands directly under another.
pub open spec fn writable_within(doc: Yaml, levels: nat) -> bool
    decreases levels, doc,
{
    match doc {
        Yaml::Null => true,
        Yaml::Bool(_) => true,
        Yaml::Int(_) => true,
        Yaml::Float(bits) => is_number(bits),
        Yaml::Text(text) => writable_text(text),
        Yaml::List(items) => levels > 0 && forall|i: int|
            0 <= i < items.len() ==> writable_within(#[trigger] items[i], (levels - 1) as nat),
        Yaml::Mapping(entries) => {
            &&& levels > 0
            &&& entries.len() == 1 ==> !unopened_key(entries[0].0)
            &&& forall|i: int|
                #![trigger entries[i]]
                0 <= i < entries.len() ==> {
                    &&& writable_within(entries[i].0, (levels - 1) as nat)
                    &&& writable_within(entries[i].1, (levels - 1) as nat)
                }
        },
        Yaml::Tagged(tag, inner) => {
            &&& writable_tag(tag)
            &&& *inner !is Tagged
            &&& writable_within(*inner, levels)
        },
    }
}

/// A document that the writer takes and the reader gives back.
pub open spec fn writable(doc: Yaml) -> bool {
    writable_within(doc, max_levels())
}

/// Entries each of which can stand in a writable root.
pub open spec fn writable_entries(entries: Seq<(Yaml, Yaml)>) -> bool {
    forall|i: int|
        #![trigger entries[i]]
        0 <= i < entries.len() ==> {
            &&& writable_within(entries[i].0, (max_levels() - 1) as nat)
            &&& writable_within(entries[i].1, (max_levels() - 1) as nat)
        }
}

/// The entries of a writable root.
pub proof fn lemma_writable_root(entries: Seq<(Yaml, Yaml)>)
    ensures
        writable(Yaml::Mapping(entries)) <==> writable_entries(entries) && (entries.len() == 1
            ==> !unopened_key(entries[0].0)),
{
    let doc = Yaml::Mapping(entries);
    assert(doc->Mapping_0 == entries);
    assert(writable(doc) == writable_within(doc, max_levels()));
}

/// Taking a key out leaves the other entries writable.
pub proof fn lemma_writable_without_key(entries: Seq<(Yaml, Yaml)>, key: Yaml)
    requires
        writable_entries(entries),
    ensures
        writable_entries(without_key(entries, key)),
{
    let w = without_key(entries, key);
    lemma_key_index(entries, key);
    assert forall|i: int| #![trigger w[i]] 0 <= i < w.len() implies {
        &&& writable_within(w[i].0, (max_levels() - 1) as nat)
        &&& writable_within(w[i].1, (max_levels() - 1) as nat)
    } by {
        let p = if key_index(entries, key) == Some(i) { entries.len() - 1 } else { i };
        assert(w[i] == entries[p]);
    }
}

/// Putting a writable value under a text key makes writable entries a writable
/// root.
pub proof fn lemma_writable_with_key(entries: Seq<(Yaml, Yaml)>, key: Seq<char>, value: Yaml)
    requires
        writable_entries(entries),
        writable_text(key),
        writable_within(value, (max_levels() - 1) as nat),
    ensures
        writable_entries(with_key(entries, Yaml::Text(key), value)),
        writable(Yaml::Mapping(with_key(entries, Yaml::Text(key), value))),
{
    let w = with_key(entries, Yaml::Text(key), value);
    lemma_key_index(entries, Yaml::Text(key));
    assert forall|i: int| #![trigger w[i]] 0 <= i < w.len() implies {
        &&& writable_within(w[i].0, (max_levels() - 1) as nat)
        &&& writable_within(w[i].1, (max_levels() - 1) as nat)
    } by {
        if w[i] != (Yaml::Text(key), value) {
            assert(w[i] == entries[i]);
        }
    }
    lemma_writable_root(w);
}

/// `serde_yaml::from_str` at type `Value`. The claim: the result is the one
/// that [`yaml_parse`] names, and an error displays the message it names.
#[verifier::external_body]
pub(crate) fn parse_value(text: &str) -> (r: Result<serde_yaml::Value, serde_yaml::Error>)
    ensures
        match r {
            Ok(v) => yaml_parse(text@) == Ok::<Yaml, Seq<char>>(yaml_of(v)),
            Err(e) => yaml_parse(text@) == Err::<Yaml, Seq<char>>(error_message(e)),
        },
{
    serde_yaml::from_str(text)
}

/// `serde_yaml::to_string` of a `Value`. The claim: the result is the one that
/// [`yaml_print`] names, an error displays the message it names, and a
/// [`writable`] document is written and reads back as it was. A text is quoted
/// or escaped wherever the reader would take it for anything but that text, no
/// line is folded, a floating-point number is written with the digits that give
/// it back, and a document is refused only for a tag under a tag or a mapping
/// that was not opened. Nothing is said of other documents: of what is no
/// number, for one, the bits are not kept.
#[verifier::external_body]
pub(crate) fn print_value(doc: &serde_yaml::Value) -> (r: Result<String, serde_yaml::Error>)
    ensures
        match r {
            Ok(text) => {
                &&& yaml_print(yaml_of(*doc)) == Ok::<Seq<char>, Seq<char>>(text@)
                &&& writable(yaml_of(*doc)) ==> yaml_parse(text@) == Ok::<Yaml, Seq<char>>(
                    yaml_of(*doc),
                )
            },
            Err(e) => {
                &&& yaml_print(yaml_of(*doc)) == Err::<Seq<char>, Seq<char>>(error_message(e))
                &&& !writable(yaml_of(*doc))
            },
        },
{
    serde_yaml::to_string(doc)
}

/// `to_string` of a `serde_yaml::Error`. The claim: it is the message that
/// [`error_message`] names.
#[verifier::external_body]
pub(crate) fn error_text(e: &serde_yaml::Error) -> (r: String)
    ensures
        r@ == error_message(*e),
{
    e.to_string()
}

/// The variant `serde_yaml::Value::Mapping`, borrowed. The claim: a mapping
/// comes out exactly where the node is one (tags are not looked through), and
/// what is done to it is done to the node.
#[verifier::external_body]
pub(crate) fn mapping_variant_mut(doc: &mut serde_yaml::Value) -> (r: Option<
    &mut serde_yaml::Mapping,
>)
    ensures
        match r {
            Some(m) => {
                &&& yaml_of(*old(doc)) == Yaml::Mapping(entries_of(*m))
                &&& distinct_keys(entries_of(*m))
                &&& yaml_of(*final(doc)) == Yaml::Mapping(entries_of(*final(m)))
            },
            None => yaml_of(*old(doc)) !is Mapping && *final(doc) == *old(doc),
        },
{
    match doc {
        serde_yaml::Value::Mapping(m) => Some(m),
        _ => None,
    }
}

/// `serde_yaml::Value::as_mapping_mut`. The claim: a mapping comes out exactly
/// where the node is one under its tags, and what is done to it is done to the
/// node under its tags.
#[verifier::external_body]
pub(crate) fn as_mapping_mut(doc: &mut serde_yaml::Value) -> (r: Option<&mut serde_yaml::Mapping>)
    ensures
        match r {
            Some(m) => {
                &&& untagged(yaml_of(*old(doc))) == Yaml::Mapping(entries_of(*m))
                &&& distinct_keys(entries_of(*m))
                &&& yaml_of(*final(doc)) == retagged(
                    yaml_of(*old(doc)),
                    Yaml::Mapping(entries_of(*final(m))),
                )
            },
            None => untagged(yaml_of(*old(doc))) !is Mapping && *final(doc) == *old(doc),
        },
{
    doc.as_mapping_mut()
}

/// `serde_yaml::Mapping::new`. The claim: there is no entry.
#[verifier::external_body]
pub(crate) fn new_mapping() -> (r: serde_yaml::Mapping)
    ensures
        entries_of(r) == Seq::<(Yaml, Yaml)>::empty(),
{
    serde_yaml::Mapping::new()
}

/// `serde_yaml::Mapping::remove` of a text key. The claim: the entry leaves,
/// its place is taken by the last entry, and its value comes back; without
/// such a key nothing changes.
#[verifier::external_body]
pub(crate) fn remove_key(m: &mut serde_yaml::Mapping, key: &str) -> (r: Option<serde_yaml::Value>)
    ensures
        entries_of(*final(m)) == without_key(entries_of(*old(m)), Yaml::Text(key@)),
        match r {
            Some(v) => lookup(entries_of(*old(m)), Yaml::Text(key@)) == Some(yaml_of(v)),
            None => lookup(entries_of(*old(m)), Yaml::Text(key@)) is None,
        },
{
    m.remove(serde_yaml::Value::String(key.to_string()))
}

/// `serde_yaml::Mapping::insert` under a text key. The claim: the value stands
/// in the place of the key, or at the end where the key is new, and a value
/// that stood there comes back.
#[verifier::external_body]
pub(crate) fn insert_key(m: &mut serde_yaml::Mapping, key: &str, value: serde_yaml::Value) -> (r:
    Option<serde_yaml::Value>)
    ensures
        entries_of(*final(m)) == with_key(entries_of(*old(m)), Yaml::Text(key@), yaml_of(value)),
        match r {
            Some(v) => lookup(entries_of(*old(m)), Yaml::Text(key@)) == Some(yaml_of(v)),
            None => lookup(entries_of(*old(m)), Yaml::Text(key@)) is None,
        },
{
    m.insert(serde_yaml::Value::String(key.to_string()), value)
}

/// `serde_yaml::Mapping::contains_key` of a text key.
#[verifier::external_body]
pub(crate) fn has_key(m: &serde_yaml::Mapping, key: &str) -> (r: bool)
    ensures
        r == (lookup(entries_of(*m), Yaml::Text(key@)) is Some),
{
    m.contains_key(serde_yaml::Value::String(key.to_string()))
}

/// The variant `serde_yaml::Value::String`.
#[verifier::external_body]
pub(crate) fn text_value(text: &str) -> (r: serde_yaml::Value)
    ensures
        yaml_of(r) == Yaml::Text(text@),
{
    serde_yaml::Value::String(text.to_string())
}

/// The variant `serde_yaml::Value::Bool`.
#[verifier::external_body]
pub(crate) fn bool_value(b: bool) -> (r: serde_yaml::Value)
    ensures
        yaml_of(r) == Yaml::Bool(b),
{
    serde_yaml::Value::Bool(b)
}

/// The variant `serde_yaml::Value::Number`, of an integer.
#[verifier::external_body]
pub(crate) fn int_value(n: i64) -> (r: serde_yaml::Value)
    ensures
        yaml_of(r) == Yaml::Int(n as int),
{
    serde_yaml::Value::Number(n.into())
}

/// The variant `serde_yaml::Value::Sequence`.
#[verifier::external_body]
pub(crate) fn list_value(items: Vec<serde_yaml::Value>) -> (r: serde_yaml::Value)
    ensures
        yaml_of(r) == Yaml::List(items@.map_values(|v: serde_yaml::Value| yaml_of(v))),
{
    serde_yaml::Value::Sequence(items)
}

/// The variant `serde_yaml::Value::Mapping`.
#[verifier::external_body]
pub(crate) fn mapping_value(m: serde_yaml::Mapping) -> (r: serde_yaml::Value)
    ensures
        yaml_of(r) == Yaml::Mapping(entries_of(m)),
{
    serde_yaml::Value::Mapping(m)
}

/// Where no key is repeated, looking a key up finds the value that stands with
/// it, and finds nothing only where the key stands nowhere.
pub proof fn law_lookup_finds_what_stands_there(entries: Seq<(Yaml, Yaml)>, key: Yaml)
    requires
        distinct_keys(entries),
    ensures
        forall|i: int|
            #![trigger entries[i]]
            0 <= i < entries.len() && entries[i].0 == key ==> lookup(entries, key) == Some(
                entries[i].1,
            ),
        lookup(entries, key) is None <==> forall|i: int|
            0 <= i < entries.len() ==> (#[trigger] entries[i]).0 != key,
{
    lemma_key_index(entries, key);
    assert forall|i: int|
        #![trigger entries[i]]
        0 <= i < entries.len() && entries[i].0 == key implies lookup(entries, key) == Some(
        entries[i].1,
    ) by {
        lemma_key_index_unique(entries, key, i);
    }
}

/// Tags are taken off one after the other, down to what is none.
pub proof fn law_tags_are_taken_off(tag: Seq<char>, inner: Yaml)
    ensures
        untagged(Yaml::Tagged(tag, Box::new(inner))) == untagged(inner),
        inner !is Tagged ==> untagged(inner) == inner,
{
    reveal_with_fuel(untagged, 2);
}

} // verus!
