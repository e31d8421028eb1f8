//! The enforcer's mode: full enforcement, or audit only.
//!
//! The configuration map has one element, at key zero. The low byte of its value
//! says whether a denied write is blocked or merely counted.

use vstd::prelude::*;

use crate::dump;
use crate::dump::{parse_dump, DumpEntry};
use crate::pids;
use crate::pids::le_words;
use crate::text;

verus! {

/// Map value for full enforcement: writes are blocked.
pub const MODE_ENFORCE: u64 = 0;
/// Map value for audit only: denials are counted, writes go through.
pub const MODE_AUDIT: u64 = 1;
/// Pinned path of the configuration map.
pub const PINNED_MAP_CONFIG: &'static str = "/sys/fs/bpf/bpolicy/bpolicy_config";

/// The key words and value words that set `mode`: key zero in four bytes, the
/// mode in eight, the lowest byte first.
pub fn mode_map_bytes(mode: u64) -> (r: (Vec<String>, Vec<String>))
    ensures
        text::strings(r.0@) == pids::byte_words(pids::le_bytes(0, 4)),
        text::strings(r.1@) == pids::byte_words(pids::le_bytes(mode as nat, 8)),
{
    (le_words(0, 4), le_words(mode, 8))
}

/// An arm has to be confirmed before it goes on: it blocks writes, someone
/// sits at a terminal, and they have not said yes. An audit arm blocks nothing.
pub fn needs_confirmation(audit: bool, terminal: bool, yes: bool) -> (r: bool)
    ensures
        r == (!audit && terminal && !yes),
{
    !audit && terminal && !yes
}

/// The mode of an arm.
pub open spec fn mode_of_load(audit: bool) -> u64 {
    if audit {
        MODE_AUDIT
    } else {
        MODE_ENFORCE
    }
}

/// The mode of an arm.
pub fn load_mode(audit: bool) -> (r: u64)
    ensures
        r == mode_of_load(audit),
{
    if audit {
        MODE_AUDIT
    } else {
        MODE_ENFORCE
    }
}

/// The word for a mode, which its low byte encodes; every byte but
/// [`MODE_AUDIT`] enforces.
pub open spec fn mode_word(mode: u64) -> Seq<char> {
    if mode % 256 == MODE_AUDIT {
        "audit"@
    } else {
        "enforce"@
    }
}

/// The word for a mode.
pub fn mode_label(mode: u64) -> (r: &'static str)
    ensures
        r@ == mode_word(mode),
{
    if mode % 256 == MODE_AUDIT {
        "audit"
    } else {
        "enforce"
    }
}

/// The mode that the entries of the configuration map show: the value of the
/// first entry whose key is zero, where it is a number.
pub open spec fn mode_in(entries: Seq<dump::DumpEntryView>) -> Option<u64>
    decreases entries.len(),
{
    if entries.len() == 0 {
        None
    } else if entries.first().key == Some(0u64) {
        entries.first().number
    } else {
        mode_in(entries.drop_first())
    }
}

/// The mode that the entries of the configuration map show.
pub fn mode_of_entries(entries: &Vec<DumpEntry>) -> (r: Option<u64>)
    ensures
        r == mode_in(dump::entries_view(entries@)),
{
    let ghost all = dump::entries_view(entries@);
    assert(all.skip(0) =~= all);
    for i in 0..entries.len()
        invariant
            all == dump::entries_view(entries@),
            mode_in(all) == mode_in(all.skip(i as int)),
    {
        assert(all.skip(i as int).first() == entries@[i as int]@);
        assert(all.skip(i as int).drop_first() =~= all.skip(i + 1));
        if let Some(key) = entries[i].key {
            if key == 0 {
                return entries[i].number;
            }
        }
    }
    None
}

/// The mode that a dump of the configuration map shows; `None` where the dump
/// is empty, cannot be parsed or shows no mode.
pub open spec fn mode_shown(raw: Seq<char>) -> Option<u64> {
    if raw.len() == 0 {
        None
    } else {
        match dump::dump_of(raw) {
            Some(entries) => mode_in(entries),
            None => None,
        }
    }
}

/// The mode that a dump of the configuration map shows. `None` counts as
/// enforcing.
pub fn parse_mode(raw: &str) -> (r: Option<u64>)
    ensures
        r == mode_shown(raw@),
{
    if raw.is_empty() {
        return None;
    }
    match parse_dump(raw) {
        Some(entries) => mode_of_entries(&entries),
        None => None,
    }
}

// ---------------------------------------------------------------------------
// Laws
// ---------------------------------------------------------------------------

/// The value words written for a mode denote that mode.
pub proof fn law_mode_bytes_denote_mode(mode: u64)
    ensures
        pids::from_le_bytes(pids::le_bytes(mode as nat, 8)) == mode,
{
    assert(pids::byte_range(8) == 0x1_0000_0000_0000_0000) by {
        reveal_with_fuel(pids::byte_range, 9);
    }
    pids::law_bytes_round_trip(mode as nat, 8);
}

} // verus!
