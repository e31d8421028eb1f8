//! Laws of map dumps and of the mode: what an entry shows, and which number in
//! the configuration map is which mode.

use vstd::prelude::*;

use crate::audit;
use crate::audit::{
    load_mode, mode_label, mode_map_bytes, mode_of_entries, needs_confirmation, parse_mode,
};
use crate::dump;
use crate::dump::{parse_dump, DumpEntry};
use crate::json;
use crate::pids::{le_words, pid_to_key_bytes};
use crate::text;

verus! {

// ---------------------------------------------------------------------------
// Entries
// ---------------------------------------------------------------------------

/// What an entry shows of the JSON value that it was read from: nothing without
/// a `formatted` part, else its key and its value.
pub open spec fn shows(e: DumpEntry, value: Seq<char>) -> bool {
    match json::json_member(value, "formatted"@) {
        None => e.key is None && e.signed_key is None && e.number is None && e.value is None,
        Some(f) => {
            &&& match json::json_member(f, "key"@) {
                None => e.key is None && e.signed_key is None,
                Some(key) => reads(e.key, key) && reads_signed(e.signed_key, key),
            }
            &&& match json::json_member(f, "value"@) {
                None => e.number is None && e.value is None,
                Some(v) => reads(e.number, v) && e.value is Some && json::value_text(e.value->0)
                    == v,
            }
        },
    }
}

/// The number whose decimal notation the text is, and none where it is that of
/// no `u64`.
pub open spec fn reads(number: Option<u64>, value: Seq<char>) -> bool {
    match number {
        Some(n) => value == text::decimal(n as nat),
        None => forall|n: u64| value != #[trigger] text::decimal(n as nat),
    }
}

/// The number whose decimal notation the text is, and none where it is that of
/// no `i64`.
pub open spec fn reads_signed(number: Option<i64>, value: Seq<char>) -> bool {
    match number {
        Some(n) => value == text::signed_decimal(n as int),
        None => forall|n: i64| value != #[trigger] text::signed_decimal(n as int),
    }
}

/// A dump is read as one entry for each element of its array, in order, and as
/// nothing where it is no array.
pub proof fn law_parse_dump(raw: &str, r: Option<Vec<DumpEntry>>)
    requires
        call_ensures(parse_dump, (raw,), r),
    ensures
        json::json_array(raw@) is None <==> r is None,
        json::json_array(raw@) matches Some(values) ==> (r matches Some(entries) ==> entries@.len()
            == values.len() && forall|i: int|
            0 <= i < values.len() ==> shows(#[trigger] entries@[i], values[i])),
{
    if let Some(values) = json::json_array(raw@) {
        if let Some(entries) = r {
            let all = dump::entries_view(entries@);
            assert(all.len() == entries@.len());
            assert forall|i: int| 0 <= i < values.len() implies shows(
                #[trigger] entries@[i],
                values[i],
            ) by {
                assert(all[i] == entries@[i]@);
                assert(all[i] == dump::entry_of(values[i]));
                lemma_shows(entries@[i], values[i]);
            }
        }
    }
}

proof fn lemma_shows(e: DumpEntry, value: Seq<char>)
    requires
        e@ == dump::entry_of(value),
    ensures
        shows(e, value),
{
    assert(e@.key == e.key && e@.signed_key == e.signed_key && e@.number == e.number);
    if let Some(f) = json::json_member(value, "formatted"@) {
        if let Some(key) = json::json_member(f, "key"@) {
            lemma_reads(key);
        }
        if let Some(v) = json::json_member(f, "value"@) {
            lemma_reads(v);
        }
    }
}

proof fn lemma_reads(value: Seq<char>)
    ensures
        reads(json::json_u64(value), value),
        reads_signed(json::json_i64(value), value),
{
}

// ---------------------------------------------------------------------------
// Mode
// ---------------------------------------------------------------------------

/// An audit load has mode one and every other load mode zero.
pub proof fn law_load_mode(audit: bool, r: u64)
    requires
        call_ensures(load_mode, (audit,), r),
    ensures
        audit ==> r == 1,
        !audit ==> r == 0,
        audit::MODE_AUDIT == 1,
        audit::MODE_ENFORCE == 0,
        audit::PINNED_MAP_CONFIG@ == "/sys/fs/bpf/bpolicy/bpolicy_config"@,
{
}

/// The lowest byte tells the mode: one is audit, every other enforces.
pub proof fn law_mode_label(high: nat, low: nat, mode: u64, r: &'static str)
    requires
        low < 256,
        mode == 256 * high + low,
        call_ensures(mode_label, (mode,), r),
    ensures
        low == 1 ==> r@ == "audit"@,
        low != 1 ==> r@ == "enforce"@,
{
    assert(mode % 256 == low);
}

/// Only an enforcing arm at a terminal has to be confirmed, and only where it was
/// not.
pub proof fn law_needs_confirmation(audit: bool, terminal: bool, yes: bool, r: bool)
    requires
        call_ensures(needs_confirmation, (audit, terminal, yes), r),
    ensures
        audit ==> !r,
        yes ==> !r,
        !terminal ==> !r,
        !audit && !yes && terminal ==> r,
{
}

/// The mode is the number of the first entry with key zero.
pub proof fn law_mode_of_entries(entries: &Vec<DumpEntry>, r: Option<u64>, k: int)
    requires
        call_ensures(mode_of_entries, (entries,), r),
    ensures
        (forall|i: int| 0 <= i < entries@.len() ==> (#[trigger] entries@[i]).key != Some(0u64))
            ==> r is None,
        0 <= k < entries@.len() && entries@[k].key == Some(0u64) && (forall|i: int|
            0 <= i < k ==> (#[trigger] entries@[i]).key != Some(0u64)) ==> r == entries@[k].number,
{
    let all = dump::entries_view(entries@);
    assert forall|i: int| 0 <= i < all.len() implies (#[trigger] all[i]).key == entries@[i].key
        && all[i].number == entries@[i].number by {}
    if forall|i: int| 0 <= i < entries@.len() ==> (#[trigger] entries@[i]).key != Some(0u64) {
        assert forall|i: int| 0 <= i < all.len() implies (#[trigger] all[i]).key != Some(0u64) by {
            assert(entries@[i].key != Some(0u64));
        }
        lemma_no_mode(all);
    }
    if 0 <= k < entries@.len() && entries@[k].key == Some(0u64) && (forall|i: int|
        0 <= i < k ==> (#[trigger] entries@[i]).key != Some(0u64)) {
        assert forall|i: int| 0 <= i < k implies (#[trigger] all[i]).key != Some(0u64) by {
            assert(entries@[i].key != Some(0u64));
        }
        lemma_mode_at(all, k);
    }
}

proof fn lemma_no_mode(all: Seq<dump::DumpEntryView>)
    requires
        forall|i: int| 0 <= i < all.len() ==> (#[trigger] all[i]).key != Some(0u64),
    ensures
        audit::mode_in(all) is None,
    decreases all.len(),
{
    if all.len() > 0 {
        let rest = all.drop_first();
        assert forall|i: int| 0 <= i < rest.len() implies (#[trigger] rest[i]).key
            != Some(0u64) by {
            assert(rest[i] == all[i + 1]);
        }
        lemma_no_mode(rest);
        assert(all[0].key != Some(0u64));
    }
}

proof fn lemma_mode_at(all: Seq<dump::DumpEntryView>, k: int)
    requires
        0 <= k < all.len(),
        all[k].key == Some(0u64),
        forall|i: int| 0 <= i < k ==> (#[trigger] all[i]).key != Some(0u64),
    ensures
        audit::mode_in(all) == all[k].number,
    decreases all.len(),
{
    if k > 0 {
        let rest = all.drop_first();
        assert(all[0].key != Some(0u64));
        assert forall|i: int| 0 <= i < k - 1 implies (#[trigger] rest[i]).key != Some(0u64) by {
            assert(rest[i] == all[i + 1]);
        }
        lemma_mode_at(rest, k - 1);
    }
}

/// The mode of a dump is that of its entries. An empty dump, or one that is no
/// array, shows none.
pub proof fn law_parse_mode(
    raw: &str,
    r: Option<u64>,
    entries: Option<Vec<DumpEntry>>,
    shown: Option<u64>,
)
    requires
        call_ensures(parse_mode, (raw,), r),
        call_ensures(parse_dump, (raw,), entries),
        entries matches Some(v) ==> call_ensures(mode_of_entries, (&v,), shown),
    ensures
        raw@.len() == 0 || entries is None ==> r is None,
        raw@.len() > 0 && entries is Some ==> r == shown,
{
}

// ---------------------------------------------------------------------------
// Bytes
// ---------------------------------------------------------------------------

/// The first word is the lowest byte, and the others are those of what is left
/// once that byte is taken off.
pub proof fn law_le_words(n: u64, count: u8, r: Vec<String>, rest: Vec<String>)
    requires
        call_ensures(le_words, (n, count), r),
        count > 0 ==> call_ensures(le_words, (n / 256, (count - 1) as u8), rest),
    ensures
        r@.len() == count,
        count > 0 ==> r@[0]@ == text::decimal((n % 256) as nat),
        count > 0 ==> forall|i: int| 0 < i < count ==> (#[trigger] r@[i])@ == rest@[i - 1]@,
{
    let words = text::strings(r@);
    lemma_le_len(n as nat, count as nat);
    assert(words.len() == r@.len());
    if count > 0 {
        assert(words[0] == r@[0]@);
        let tail = text::strings(rest@);
        assert forall|i: int| 0 < i < count implies (#[trigger] r@[i])@ == rest@[i - 1]@ by {
            assert(words[i] == r@[i]@);
            lemma_le_len((n / 256) as nat, (count - 1) as nat);
            assert(tail.len() == rest@.len());
            assert(tail[i - 1] == rest@[i - 1]@);
        }
    }
}

proof fn lemma_le_len(n: nat, count: nat)
    ensures
        crate::pids::le_bytes(n, count).len() == count,
    decreases count,
{
    if count > 0 {
        lemma_le_len(n / 256, (count - 1) as nat);
    }
}

/// The key of a PID: its four bytes in decimal, the lowest first.
pub proof fn law_pid_key(a: u8, b: u8, c: u8, d: u8, pid: u32, r: Vec<String>)
    requires
        pid == a + 256 * b + 65536 * c + 16777216 * d,
        call_ensures(pid_to_key_bytes, (pid,), r),
    ensures
        r@.len() == 4,
        r@[0]@ == text::decimal(a as nat),
        r@[1]@ == text::decimal(b as nat),
        r@[2]@ == text::decimal(c as nat),
        r@[3]@ == text::decimal(d as nat),
{
    let words = text::strings(r@);
    reveal_with_fuel(crate::pids::le_bytes, 5);
    let n = pid as nat;
    assert(n % 256 == a);
    assert(n / 256 == b + 256 * c + 65536 * d);
    assert((n / 256) % 256 == b);
    assert(n / 256 / 256 == c + 256 * d);
    assert((n / 256 / 256) % 256 == c);
    assert(n / 256 / 256 / 256 == d);
    assert(words.len() == r@.len());
    assert(words[0] == r@[0]@ && words[1] == r@[1]@ && words[2] == r@[2]@ && words[3] == r@[3]@);
}

/// The mode goes under key zero in four bytes, with the eight bytes of the mode,
/// the lowest first.
pub proof fn law_mode_map_bytes(
    mode: u64,
    r: (Vec<String>, Vec<String>),
    key: Vec<String>,
    value: Vec<String>,
)
    requires
        call_ensures(mode_map_bytes, (mode,), r),
        call_ensures(le_words, (0, 4), key),
        call_ensures(le_words, (mode, 8), value),
    ensures
        text::strings(r.0@) == text::strings(key@),
        text::strings(r.1@) == text::strings(value@),
{
}

} // verus!
