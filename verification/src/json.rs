//! JSON documents as the firmware updater prints them, and the device names in them.

use vstd::prelude::*;
use crate::text::{chars_equal, chars_of, lemma_filter_map_step, string_of};

verus! {

#[verifier::external_type_specification]
#[verifier::external_body]
pub struct ExJsonDocument(serde_json::Value);

/// A JSON value. Numbers are kept as the text that `serde_json` prints for them;
/// an object keeps its members in the order `serde_json` walks them, each key once.
#[derive(Debug)]
pub enum JsonValue {
    Null,
    Bool(bool),
    Number(String),
    Str(String),
    Array(Vec<JsonValue>),
    Object(Vec<(String, JsonValue)>),
}

/// What `serde_json::from_str::<serde_json::Value>` makes of `text`, in the
/// library's own terms; `None` where the text is not one JSON document.
pub uninterp spec fn json_document(text: Seq<char>) -> Option<JsonValue>;

/// Moves a `serde_json::Value` into a `JsonValue`, variant by variant.
#[verifier::external_body]
fn json_value_from(v: serde_json::Value) -> JsonValue {
    match v {
        serde_json::Value::Null => JsonValue::Null,
        serde_json::Value::Bool(b) => JsonValue::Bool(b),
        serde_json::Value::Number(n) => JsonValue::Number(n.to_string()),
        serde_json::Value::String(s) => JsonValue::Str(s),
        serde_json::Value::Array(a) => JsonValue::Array(a.into_iter().map(json_value_from).collect()),
        serde_json::Value::Object(m) => JsonValue::Object(
            m.into_iter().map(|(k, x)| (k, json_value_from(x))).collect(),
        ),
    }
}

/// `serde_json::from_str::<serde_json::Value>`, its error dropped. The result is
/// named `json_document`: it depends on the text alone.
#[verifier::external_body]
pub(crate) fn parse_json(text: &str) -> (r: Option<JsonValue>)
    ensures
        r == json_document(text@),
{
    serde_json::from_str::<serde_json::Value>(text).ok().map(json_value_from)
}

/// The value of the first member of `entries` whose key is `key`.
pub open spec fn lookup(entries: Seq<(String, JsonValue)>, key: Seq<char>) -> Option<JsonValue>
    decreases entries.len(),
{
    if entries.len() == 0 {
        None
    } else if entries[0].0@ == key {
        Some(entries[0].1)
    } else {
        lookup(entries.drop_first(), key)
    }
}

/// The member `key` of `v`, as `serde_json::Value::get` gives it: none unless `v`
/// is an object.
pub open spec fn member(v: JsonValue, key: Seq<char>) -> Option<JsonValue> {
    match v {
        JsonValue::Object(entries) => lookup(entries@, key),
        _ => None,
    }
}

/// The name of a device: its member "Name", where that is a string.
pub open spec fn device_name(dev: JsonValue) -> Option<Seq<char>> {
    match member(dev, "Name"@) {
        Some(JsonValue::Str(s)) => Some(s@),
        _ => None,
    }
}

/// The names of the devices that have one, in order.
pub open spec fn names_of(devices: Seq<JsonValue>) -> Seq<Seq<char>>
    decreases devices.len(),
{
    if devices.len() == 0 {
        seq![]
    } else {
        let before = names_of(devices.drop_last());
        match device_name(devices.last()) {
            Some(n) => before.push(n),
            None => before,
        }
    }
}

/// The devices with pending firmware updates in a `fwupdmgr --json` document:
/// the named members of its "Devices" array.
pub open spec fn firmware_names(doc: Option<JsonValue>) -> Seq<Seq<char>> {
    match doc {
        Some(v) => match member(v, "Devices"@) {
            Some(JsonValue::Array(devices)) => names_of(devices@),
            _ => seq![],
        },
        None => seq![],
    }
}

/// The member `key` of `v`, where `v` is an object that has one.
pub fn get_member<'a>(v: &'a JsonValue, key: &str) -> (r: Option<&'a JsonValue>)
    ensures
        match r {
            Some(x) => member(*v, key@) == Some(*x),
            None => member(*v, key@) is None,
        },
{
    match v {
        JsonValue::Object(entries) => {
            let mut i: usize = 0;
            assert(entries@.skip(0) =~= entries@);
            while i < entries.len()
                invariant
                    i <= entries.len(),
                    member(*v, key@) == lookup(entries@, key@),
                    lookup(entries@, key@) == lookup(entries@.skip(i as int), key@),
                decreases entries.len() - i,
            {
                let ghost rest = entries@.skip(i as int);
                assert(rest.len() > 0 && rest[0] == entries@[i as int]);
                let k = chars_of(entries[i].0.as_str());
                if chars_equal(&k, key) {
                    assert(entries@[i as int].0@ == key@);
                    assert(lookup(rest, key@) == Some(entries@[i as int].1));
                    return Some(&entries[i].1);
                }
                assert(rest.drop_first() =~= entries@.skip(i + 1));
                i += 1;
            }
            None
        },
        _ => None,
    }
}

/// The names of the devices in a `fwupdmgr --json` document (`None` where the
/// output was not JSON).
pub fn firmware_names_from(doc: &Option<JsonValue>) -> (r: Vec<String>)
    ensures
        r.deep_view() == firmware_names(*doc),
{
    let mut out: Vec<String> = Vec::new();
    if let Some(v) = doc {
        if let Some(JsonValue::Array(devices)) = get_member(v, "Devices") {
            let mut i: usize = 0;
            while i < devices.len()
                invariant
                    i <= devices.len(),
                    out.deep_view() == names_of(devices@.take(i as int)),
                decreases devices.len() - i,
            {
                assert(devices@.take(i + 1).drop_last() =~= devices@.take(i as int));
                if let Some(JsonValue::Str(name)) = get_member(&devices[i], "Name") {
                    let c = chars_of(name.as_str());
                    let n = string_of(&c, 0, c.len());
                    assert(c@.subrange(0, c@.len() as int) =~= c@);
                    let ghost before = out.deep_view();
                    out.push(n);
                    assert(out.deep_view() =~= before.push(name@));
                }
                i += 1;
            }
            assert(devices@.take(devices.len() as int) =~= devices@);
        }
    }
    out
}


/// Every device whose member "Name" is a string gives that string, one entry per
/// such device and in order, whatever the string; no other device gives one.
pub proof fn lemma_names_of_named_devices(devices: Seq<JsonValue>)
    ensures
        names_of(devices) == devices.filter(
            |d: JsonValue| member(d, "Name"@) is Some && member(d, "Name"@).unwrap() is Str,
        ).map_values(
            |d: JsonValue|
                match member(d, "Name"@) {
                    Some(JsonValue::Str(s)) => s@,
                    _ => Seq::<char>::empty(),
                },
        ),
    decreases devices.len(),
{
    let p = |d: JsonValue| member(d, "Name"@) is Some && member(d, "Name"@).unwrap() is Str;
    let f = |d: JsonValue|
        match member(d, "Name"@) {
            Some(JsonValue::Str(s)) => s@,
            _ => Seq::<char>::empty(),
        };
    if devices.len() == 0 {
        reveal(Seq::filter);
        assert(devices.filter(p).map_values(f) =~= Seq::<Seq<char>>::empty());
    } else {
        lemma_names_of_named_devices(devices.drop_last());
        lemma_filter_map_step(devices, p, f);
    }
}

/// The firmware updates of a document whose "Devices" member is an array are the
/// string names of its devices, one per named device and in order.
pub proof fn lemma_firmware_names_of_devices(doc: JsonValue, devices: Vec<JsonValue>)
    requires
        member(doc, "Devices"@) == Some(JsonValue::Array(devices)),
    ensures
        firmware_names(Some(doc)) == devices@.filter(
            |d: JsonValue| member(d, "Name"@) is Some && member(d, "Name"@).unwrap() is Str,
        ).map_values(
            |d: JsonValue|
                match member(d, "Name"@) {
                    Some(JsonValue::Str(s)) => s@,
                    _ => Seq::<char>::empty(),
                },
        ),
        firmware_names(Some(doc)).len() == devices@.filter(
            |d: JsonValue| member(d, "Name"@) is Some && member(d, "Name"@).unwrap() is Str,
        ).len(),
{
    lemma_names_of_named_devices(devices@);
}

} // verus!
