//! Laws of JSON texts: what stands for which value.

use vstd::prelude::*;

use crate::json;
use crate::json::{integers_value, pretty_text, signed_of, unsigned_of};
use crate::text;

verus! {

/// A character in a JSON string: a backslash and a letter for the quote, the
/// backslash and the five control characters that have one, a backslash, `u` and
/// four digits for the other control characters, and itself for all others.
pub proof fn law_escape(c: char)
    ensures
        c == '"' ==> json::escape(c) == seq!['\\', '"'],
        c == '\\' ==> json::escape(c) == seq!['\\', '\\'],
        c == '\u{8}' ==> json::escape(c) == seq!['\\', 'b'],
        c == '\u{9}' ==> json::escape(c) == seq!['\\', 't'],
        c == '\u{a}' ==> json::escape(c) == seq!['\\', 'n'],
        c == '\u{c}' ==> json::escape(c) == seq!['\\', 'f'],
        c == '\u{d}' ==> json::escape(c) == seq!['\\', 'r'],
        (c as int) < 32 && c != '\u{8}' && c != '\u{9}' && c != '\u{a}' && c != '\u{c}' && c
            != '\u{d}' ==> json::escape(c) == seq!['\\', 'u', '0', '0'] + text::hex(c as nat, 2),
        (c as int) >= 32 && c != '"' && c != '\\' ==> json::escape(c) == seq![c],
{
}

/// A JSON string is its characters one after the other, between quotes.
pub proof fn law_json_string(s: Seq<char>, c: char)
    ensures
        json::json_string(Seq::empty()) == seq!['"', '"'],
        json::json_string(s.push(c)) == json::json_string(s).drop_last() + json::escape(c)
            + seq!['"'],
        json::json_string(s).last() == '"',
{
    assert(s.push(c).drop_last() =~= s);
    assert(json::json_string(Seq::empty()) =~= seq!['"', '"']);
    assert(json::json_string(s).drop_last() =~= seq!['"'] + json::escaped(s));
    assert(json::json_string(s.push(c)) =~= json::json_string(s).drop_last() + json::escape(c)
        + seq!['"']);
}

/// The words for the booleans, and a number or `null`.
pub proof fn law_plain_values(n: u64)
    ensures
        json::bool_text(true) == "true"@,
        json::bool_text(false) == "false"@,
        json::count_text(Some(n)) == text::decimal(n as nat),
        json::count_text(None) == "null"@,
{
}

/// An array is its elements in order, with commas between them and in brackets.
pub proof fn law_array(elements: Seq<Seq<char>>)
    ensures
        json::array_text(elements) == "["@ + text::join(elements, ","@) + "]"@,
{
}

/// An object is its members in the order of their names, each name with a colon
/// and the value behind it, with commas between them and in braces.
pub proof fn law_object(of: Map<Seq<char>, Seq<char>>, names: Seq<Seq<char>>, lines: Seq<Seq<char>>)
    requires
        text::ascending_listing(names, of.dom()),
        lines.len() == names.len(),
        forall|i: int|
            0 <= i < names.len() ==> #[trigger] lines[i] == json::json_string(names[i]) + ":"@
                + of[names[i]],
    ensures
        json::object_text(of) == "{"@ + text::join(lines, ","@) + "}"@,
{
    let chosen = choose|names: Seq<Seq<char>>| #[trigger]
        text::ascending_listing(names, of.dom());
    text::law_listing_unique(chosen, names, of.dom());
    assert(chosen.map_values(|name: Seq<char>| json::json_string(name) + ":"@ + of[name])
        =~= lines);
}

/// The array of integers has each of them in decimal notation, in order.
pub proof fn law_integers_value(v: &Vec<i64>, r: serde_json::Value, elements: Seq<Seq<char>>)
    requires
        call_ensures(integers_value, (v,), r),
        elements.len() == v@.len(),
        forall|i: int|
            0 <= i < v@.len() ==> #[trigger] elements[i] == text::signed_decimal(v@[i] as int),
    ensures
        json::value_text(r) == "["@ + text::join(elements, ","@) + "]"@,
        json::integers_text(v@) == "["@ + text::join(elements, ","@) + "]"@,
{
    assert(v@.map_values(|n: i64| text::signed_decimal(n as int)) =~= elements);
}

/// A value is an integer exactly when it is written as one, and is that one.
pub proof fn law_integers_read(
    v: &serde_json::Value,
    unsigned: Option<u64>,
    signed: Option<i64>,
    n: u64,
    k: i64,
)
    requires
        call_ensures(unsigned_of, (v,), unsigned),
        call_ensures(signed_of, (v,), signed),
    ensures
        unsigned == Some(n) <==> json::value_text(*v) == text::decimal(n as nat),
        signed == Some(k) <==> json::value_text(*v) == text::signed_decimal(k as int),
{
    json::law_integer_texts(n, k);
}

/// A member is set where there is a value for it, and nothing else changes.
pub proof fn law_with_optional(
    of: Map<Seq<char>, Seq<char>>,
    name: Seq<char>,
    value: Option<Seq<char>>,
)
    ensures
        json::empty_members() == Map::<Seq<char>, Seq<char>>::empty(),
        value matches Some(v) ==> json::with_optional(of, name, value) == of.insert(name, v),
        value is None ==> json::with_optional(of, name, value) == of,
{
}

/// The layout over several lines is that of the same value.
pub proof fn law_pretty_text(v: &serde_json::Value, r: String)
    requires
        call_ensures(pretty_text, (v,), r),
    ensures
        r@ == json::json_pretty(json::value_text(*v)),
{
}

} // verus!
