//! The JSON that `bpftool -j map dump` prints: an array whose entries hold the
//! key and the value of a map element under `formatted`.

use vstd::prelude::*;

use crate::json;
use crate::json::{copy_value, member, parse_array, signed_of, unsigned_of};

verus! {

/// One element of a dumped map, as far as its entry shows it. An entry without
/// a `formatted` part shows nothing.
#[derive(Debug)]
pub struct DumpEntry {
    /// The key, where it is an unsigned integer.
    pub key: Option<u64>,
    /// The key, where it is a signed integer.
    pub signed_key: Option<i64>,
    /// The value, where it is an unsigned integer.
    pub number: Option<u64>,
    /// The value.
    pub value: Option<serde_json::Value>,
}

/// What a [`DumpEntry`] says.
pub struct DumpEntryView {
    /// The key, where it is an unsigned integer.
    pub key: Option<u64>,
    /// The key, where it is a signed integer.
    pub signed_key: Option<i64>,
    /// The value, where it is an unsigned integer.
    pub number: Option<u64>,
    /// The value as compact JSON text.
    pub value: Option<Seq<char>>,
}

impl View for DumpEntry {
    type V = DumpEntryView;

    open spec fn view(&self) -> DumpEntryView {
        DumpEntryView {
            key: self.key,
            signed_key: self.signed_key,
            number: self.number,
            value: json::opt_value_text(self.value),
        }
    }
}

/// What a sequence of entries says.
pub open spec fn entries_view(v: Seq<DumpEntry>) -> Seq<DumpEntryView> {
    v.map_values(|e: DumpEntry| e@)
}

/// The entry that a JSON value shows: the members `key` and `value` of its
/// member `formatted`.
pub open spec fn entry_of(value: Seq<char>) -> DumpEntryView {
    match json::json_member(value, "formatted"@) {
        None => DumpEntryView { key: None, signed_key: None, number: None, value: None },
        Some(f) => {
            let k = json::json_member(f, "key"@);
            let v = json::json_member(f, "value"@);
            DumpEntryView {
                key: match k {
                    Some(t) => json::json_u64(t),
                    None => None,
                },
                signed_key: match k {
                    Some(t) => json::json_i64(t),
                    None => None,
                },
                number: match v {
                    Some(t) => json::json_u64(t),
                    None => None,
                },
                value: v,
            }
        },
    }
}

/// The entries that a dump shows; `None` where it is not a JSON array.
pub open spec fn dump_of(raw: Seq<char>) -> Option<Seq<DumpEntryView>> {
    match json::json_array(raw) {
        Some(values) => Some(values.map_values(|v: Seq<char>| entry_of(v))),
        None => None,
    }
}

fn entry(v: &serde_json::Value) -> (r: DumpEntry)
    ensures
        r@ == entry_of(json::value_text(*v)),
{
    match member(v, "formatted") {
        None => DumpEntry { key: None, signed_key: None, number: None, value: None },
        Some(f) => {
            let (key, signed_key) = match member(f, "key") {
                Some(k) => (unsigned_of(k), signed_of(k)),
                None => (None, None),
            };
            let (number, value) = match member(f, "value") {
                Some(x) => (unsigned_of(x), Some(copy_value(x))),
                None => (None, None),
            };
            DumpEntry { key, signed_key, number, value }
        },
    }
}

/// The entries that the output of `bpftool -j map dump` shows; `None` where it
/// is not a JSON array.
pub fn parse_dump(raw: &str) -> (r: Option<Vec<DumpEntry>>)
    ensures
        (match r {
            Some(v) => Some(entries_view(v@)),
            None => None,
        }) == dump_of(raw@),
{
    match parse_array(raw) {
        None => None,
        Some(values) => {
            let ghost wanted = json::value_texts(values@).map_values(|v: Seq<char>| entry_of(v));
            let mut out: Vec<DumpEntry> = Vec::new();
            for i in 0..values.len()
                invariant
                    wanted == json::value_texts(values@).map_values(|v: Seq<char>| entry_of(v)),
                    entries_view(out@) =~= wanted.take(i as int),
            {
                let ghost before = out@;
                let e = entry(&values[i]);
                assert(e@ == wanted[i as int]);
                out.push(e);
                assert(entries_view(out@) =~= entries_view(before).push(e@));
            }
            assert(entries_view(out@) =~= wanted);
            Some(out)
        },
    }
}

// ---------------------------------------------------------------------------
// Laws
// ---------------------------------------------------------------------------

/// The two readings of a key agree: they are the same number wherever both
/// types can hold it.
pub proof fn law_key_readings_agree(value: Seq<char>)
    ensures
        entry_of(value).signed_key matches Some(k) ==> k >= 0 ==> entry_of(value).key == Some(
            k as u64,
        ),
        entry_of(value).key matches Some(n) ==> n <= i64::MAX ==> entry_of(value).signed_key
            == Some(n as i64),
{
    if let Some(k) = entry_of(value).signed_key {
        if k >= 0 {
            json::law_integer_texts(k as u64, k);
        }
    }
    if let Some(n) = entry_of(value).key {
        if n <= i64::MAX {
            json::law_integer_texts(n, n as i64);
        }
    }
}

} // verus!
