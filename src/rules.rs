//! Reading rule payloads: the stored JSON of header and mirror rules, held as
//! the library's own JSON values.

use vstd::prelude::*;
use crate::model::{HeaderSpec, HeaderValueSpec};
use crate::text::str_eq;

verus! {

/// A JSON value as the rule payloads use it; numbers are kept only as such.
#[derive(Debug)]
pub enum JsonValue {
    Null,
    Bool(bool),
    Number,
    Text(String),
    Array(Vec<JsonValue>),
    Object(Vec<(String, JsonValue)>),
}

/// The value under the first `key` among an object's entries.
pub open spec fn entry(entries: Seq<(String, JsonValue)>, key: Seq<char>) -> Option<JsonValue>
    decreases entries.len(),
{
    if entries.len() == 0 {
        None
    } else if entries[0].0@ == key {
        Some(entries[0].1)
    } else {
        entry(entries.drop_first(), key)
    }
}

pub open spec fn headers_key() -> Seq<char> {
    seq!['h', 'e', 'a', 'd', 'e', 'r', 's']
}

pub open spec fn value_key() -> Seq<char> {
    seq!['v', 'a', 'l', 'u', 'e']
}

pub open spec fn mode_key() -> Seq<char> {
    seq!['m', 'o', 'd', 'e']
}

/// `v` as text, where it is a string.
pub open spec fn text_of(v: Option<JsonValue>) -> Option<String> {
    match v {
        Some(JsonValue::Text(s)) => Some(s),
        _ => None,
    }
}

/// What one entry of a header map asks for.
pub open spec fn header_value_of(v: JsonValue) -> HeaderValueSpec {
    match v {
        JsonValue::Text(s) => HeaderValueSpec::Plain(s),
        JsonValue::Object(o) => HeaderValueSpec::Detailed {
            value: text_of(entry(o@, value_key())),
            mode: text_of(entry(o@, mode_key())),
        },
        _ => HeaderValueSpec::Unsupported,
    }
}

/// The header map of a payload: under a top-level `headers` key where the
/// payload has one, else the payload itself.
pub open spec fn header_map_of(v: JsonValue) -> JsonValue {
    match v {
        JsonValue::Object(o) => match entry(o@, headers_key()) {
            Some(h) => h,
            None => v,
        },
        _ => v,
    }
}

/// The header specs a payload gives, in the order of its entries; none where
/// the header map is not an object.
pub open spec fn header_specs_of(v: JsonValue) -> Seq<HeaderSpec> {
    match header_map_of(v) {
        JsonValue::Object(o) => o@.map_values(
            |e: (String, JsonValue)| HeaderSpec { name: e.0, value: header_value_of(e.1) },
        ),
        _ => seq![],
    }
}

/// The strings among the items of an array payload, in order.
pub open spec fn texts_in(items: Seq<JsonValue>) -> Seq<Seq<char>>
    decreases items.len(),
{
    if items.len() == 0 {
        seq![]
    } else {
        let rest = texts_in(items.drop_last());
        match items.last() {
            JsonValue::Text(s) => rest.push(s@),
            _ => rest,
        }
    }
}

fn copy_string(s: &String) -> (r: String)
    ensures
        r == *s,
{
    s.clone()
}

fn keyed<'a>(entries: &'a Vec<(String, JsonValue)>, key: &str) -> (r: Option<&'a JsonValue>)
    ensures
        match r {
            Some(v) => entry(entries@, key@) == Some(*v),
            None => entry(entries@, key@) is None,
        },
{
    let mut i: usize = 0;
    assert(entries@.subrange(0, entries@.len() as int) =~= entries@);
    while i < entries.len()
        invariant
            i <= entries@.len(),
            entry(entries@, key@) == entry(entries@.subrange(i as int, entries@.len() as int), key@),
        decreases entries@.len() - i,
    {
        assert(entries@.subrange(i as int, entries@.len() as int).drop_first() =~= entries@.subrange(
            i + 1,
            entries@.len() as int,
        ));
        if str_eq(entries[i].0.as_str(), key) {
            return Some(&entries[i].1);
        }
        i += 1;
    }
    None
}

fn text_in(v: Option<&JsonValue>) -> (r: Option<String>)
    ensures
        r == text_of(match v {
            Some(x) => Some(*x),
            None => None,
        }),
{
    match v {
        Some(JsonValue::Text(s)) => Some(copy_string(s)),
        _ => None,
    }
}

fn header_value_from(v: &JsonValue) -> (r: HeaderValueSpec)
    ensures
        r == header_value_of(*v),
{
    match v {
        JsonValue::Text(s) => HeaderValueSpec::Plain(copy_string(s)),
        JsonValue::Object(o) => {
            let value = text_in(keyed(o, "value"));
            let mode = text_in(keyed(o, "mode"));
            proof {
                reveal_strlit("value");
                reveal_strlit("mode");
                assert("value"@ =~= value_key());
                assert("mode"@ =~= mode_key());
            }
            HeaderValueSpec::Detailed { value, mode }
        },
        _ => HeaderValueSpec::Unsupported,
    }
}

/// The header specs of a stored header-rule payload; see `header_specs_of`.
pub fn header_specs_from_json(v: &JsonValue) -> (r: Vec<HeaderSpec>)
    ensures
        r@ == header_specs_of(*v),
{
    let map = match v {
        JsonValue::Object(o) => {
            proof {
                reveal_strlit("headers");
                assert("headers"@ =~= headers_key());
            }
            match keyed(o, "headers") {
                Some(h) => h,
                None => v,
            }
        },
        _ => v,
    };
    let mut out: Vec<HeaderSpec> = Vec::new();
    match map {
        JsonValue::Object(entries) => {
            let mut i: usize = 0;
            while i < entries.len()
                invariant
                    i <= entries@.len(),
                    out@ == entries@.subrange(0, i as int).map_values(
                        |e: (String, JsonValue)| HeaderSpec { name: e.0, value: header_value_of(e.1) },
                    ),
                decreases entries@.len() - i,
            {
                let spec = HeaderSpec {
                    name: copy_string(&entries[i].0),
                    value: header_value_from(&entries[i].1),
                };
                out.push(spec);
                i += 1;
                assert(out@ =~= entries@.subrange(0, i as int).map_values(
                    |e: (String, JsonValue)| HeaderSpec { name: e.0, value: header_value_of(e.1) },
                ));
            }
            assert(entries@.subrange(0, entries@.len() as int) =~= entries@);
        },
        _ => {},
    }
    out
}

/// The mirror bases of a stored mirror-rule payload: the strings of an
/// array, in order; none where the payload is not an array.
pub fn candidate_bases_from_json(v: &JsonValue) -> (r: Vec<String>)
    ensures
        r@.map_values(|s: String| s@) == match *v {
            JsonValue::Array(items) => texts_in(items@),
            _ => seq![],
        },
{
    let mut out: Vec<String> = Vec::new();
    match v {
        JsonValue::Array(items) => {
            let mut i: usize = 0;
            while i < items.len()
                invariant
                    i <= items@.len(),
                    out@.map_values(|s: String| s@) == texts_in(items@.subrange(0, i as int)),
                decreases items@.len() - i,
            {
                assert(items@.subrange(0, i + 1).drop_last() =~= items@.subrange(0, i as int));
                match &items[i] {
                    JsonValue::Text(s) => {
                        let ghost before = out@;
                        out.push(copy_string(s));
                        assert(out@.map_values(|s: String| s@) =~= before.map_values(|s: String| s@).push(s@));
                    },
                    _ => {},
                }
                i += 1;
            }
            assert(items@.subrange(0, items@.len() as int) =~= items@);
        },
        _ => {
            assert(out@.map_values(|s: String| s@) =~= Seq::<Seq<char>>::empty());
        },
    }
    out
}

} // verus!
