//! Little-endian key bytes for the kernel maps, as the decimal words that
//! `bpftool map update key ...` takes.

use vstd::prelude::*;

use crate::text;
use crate::text::to_decimal;

verus! {

/// The `count` lowest bytes of a number, the lowest first.
pub open spec fn le_bytes(n: nat, count: nat) -> Seq<nat>
    decreases count,
{
    if count == 0 {
        Seq::empty()
    } else {
        seq![n % 256] + le_bytes(n / 256, (count - 1) as nat)
    }
}

/// The number that a sequence of bytes denotes, the lowest first.
pub open spec fn from_le_bytes(bytes: Seq<nat>) -> nat
    decreases bytes.len(),
{
    if bytes.len() == 0 {
        0
    } else {
        bytes.first() + 256 * from_le_bytes(bytes.drop_first())
    }
}

/// Each byte as a decimal word.
pub open spec fn byte_words(bytes: Seq<nat>) -> Seq<Seq<char>> {
    bytes.map_values(|b: nat| text::decimal(b))
}

/// The decimal words of the `count` lowest bytes of `n`, the lowest first.
pub fn le_words(n: u64, count: u8) -> (r: Vec<String>)
    ensures
        text::strings(r@) == byte_words(le_bytes(n as nat, count as nat)),
{
    let mut out: Vec<String> = Vec::new();
    let mut rest: u64 = n;
    let mut left: u8 = count;
    let ghost all = le_bytes(n as nat, count as nat);
    assert(byte_words(all) =~= text::strings(out@) + byte_words(
        le_bytes(rest as nat, left as nat),
    ));
    while left > 0
        invariant
            byte_words(all) =~= text::strings(out@) + byte_words(
                le_bytes(rest as nat, left as nat),
            ),
        decreases left,
    {
        let ghost before = out@;
        let ghost tail = le_bytes((rest / 256) as nat, (left - 1) as nat);
        let word = to_decimal(rest % 256);
        assert(byte_words(le_bytes(rest as nat, left as nat)) =~= seq![word@] + byte_words(tail));
        out.push(word);
        assert(text::strings(out@) =~= text::strings(before).push(word@));
        rest = rest / 256;
        left = left - 1;
    }
    assert(byte_words(all) =~= text::strings(out@));
    out
}

/// The key words for a PID: its four bytes, the lowest first.
pub open spec fn pid_key(pid: u32) -> Seq<Seq<char>> {
    byte_words(le_bytes(pid as nat, 4))
}

/// The key words for a PID: its four bytes, the lowest first.
pub fn pid_to_key_bytes(pid: u32) -> (r: Vec<String>)
    ensures
        text::strings(r@) == pid_key(pid),
{
    le_words(pid as u64, 4)
}

// ---------------------------------------------------------------------------
// Laws
// ---------------------------------------------------------------------------

/// How many numbers `count` bytes can denote.
pub open spec fn byte_range(count: nat) -> nat
    decreases count,
{
    if count == 0 {
        1
    } else {
        256 * byte_range((count - 1) as nat)
    }
}

/// The bytes of a number that fits denote that number.
pub proof fn law_bytes_round_trip(n: nat, count: nat)
    requires
        n < byte_range(count),
    ensures
        from_le_bytes(le_bytes(n, count)) == n,
        le_bytes(n, count).len() == count,
    decreases count,
{
    if count > 0 {
        let rest = le_bytes(n / 256, (count - 1) as nat);
        assert(n / 256 < byte_range((count - 1) as nat));
        law_bytes_round_trip(n / 256, (count - 1) as nat);
        assert(le_bytes(n, count).drop_first() =~= rest);
    }
}

/// Different PIDs have different keys.
pub proof fn law_key_identifies_pid(p: u32, q: u32)
    requires
        pid_key(p) == pid_key(q),
    ensures
        p == q,
{
    let a = le_bytes(p as nat, 4);
    let b = le_bytes(q as nat, 4);
    assert(byte_range(4) == 0x1_0000_0000) by {
        reveal_with_fuel(byte_range, 5);
    }
    law_bytes_round_trip(p as nat, 4);
    law_bytes_round_trip(q as nat, 4);
    assert(a =~= b) by {
        assert forall|i: int| 0 <= i < 4 implies a[i] == b[i] by {
            assert(byte_words(a)[i] == byte_words(b)[i]);
            text::law_decimal_injective(a[i], b[i]);
        }
    }
}

} // verus!
