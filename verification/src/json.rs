//! JSON, through `serde_json`.
//!
//! A JSON value is seen as its compact text. Parsing, member access and layout
//! are the outside crate's; the contracts here say what is relied on.

use vstd::prelude::*;

use crate::text;

verus! {

/// A JSON value of `serde_json`, seen through [`value_text`].
#[verifier::external_type_specification]
#[verifier::external_body]
pub struct ExValue(serde_json::Value);

/// A JSON object of `serde_json` under construction, seen through [`members`].
#[verifier::external_type_specification]
#[verifier::external_body]
#[verifier::reject_recursive_types(K)]
#[verifier::reject_recursive_types(V)]
pub struct ExMap<K, V>(serde_json::Map<K, V>);

/// An error of `serde_json`.
#[verifier::external_type_specification]
#[verifier::external_body]
pub struct ExError(serde_json::Error);

/// What a JSON value holds: its compact JSON text.
pub uninterp spec fn value_text(v: serde_json::Value) -> Seq<char>;

/// What an object under construction holds: the compact JSON text of each
/// member by name.
pub uninterp spec fn members(m: serde_json::Map<String, serde_json::Value>) -> Map<
    Seq<char>,
    Seq<char>,
>;

/// The elements of the JSON array that a text denotes, each as its compact
/// JSON text; `None` where the text is not a JSON array.
pub uninterp spec fn json_array(text: Seq<char>) -> Option<Seq<Seq<char>>>;

/// The member of the given name of the JSON object with the given text.
pub uninterp spec fn json_member(value: Seq<char>, name: Seq<char>) -> Option<Seq<char>>;

/// The JSON value with the given compact text, laid out over several lines.
pub uninterp spec fn json_pretty(value: Seq<char>) -> Seq<char>;

// ---------------------------------------------------------------------------
// Texts
// ---------------------------------------------------------------------------

/// A character as it stands in a JSON string: the quote, the backslash and the
/// control characters below the blank are escaped.
pub open spec fn escape(c: char) -> Seq<char> {
    if c == '"' || c == '\\' {
        seq!['\\', c]
    } else if c == '\u{8}' {
        seq!['\\', 'b']
    } else if c == '\t' {
        seq!['\\', 't']
    } else if c == '\n' {
        seq!['\\', 'n']
    } else if c == '\u{c}' {
        seq!['\\', 'f']
    } else if c == '\r' {
        seq!['\\', 'r']
    } else if ' ' > c {
        seq!['\\', 'u', '0', '0'] + text::hex(c as nat, 2)
    } else {
        seq![c]
    }
}

/// The characters of a text as they stand in a JSON string.
pub open spec fn escaped(s: Seq<char>) -> Seq<char>
    decreases s.len(),
{
    if s.len() == 0 {
        Seq::empty()
    } else {
        escaped(s.drop_last()) + escape(s.last())
    }
}

/// The JSON string that holds the given text.
pub open spec fn json_string(s: Seq<char>) -> Seq<char> {
    seq!['"'] + escaped(s) + seq!['"']
}

/// The JSON value with the given text as an unsigned integer: the `u64` whose
/// decimal notation the text is.
pub open spec fn json_u64(value: Seq<char>) -> Option<u64> {
    if exists|n: u64| #[trigger] text::decimal(n as nat) == value {
        Some(choose|n: u64| #[trigger] text::decimal(n as nat) == value)
    } else {
        None
    }
}

/// The JSON value with the given text as a signed integer: the `i64` whose
/// decimal notation, with a minus sign below zero, the text is.
pub open spec fn json_i64(value: Seq<char>) -> Option<i64> {
    if exists|n: i64| #[trigger] text::signed_decimal(n as int) == value {
        Some(choose|n: i64| #[trigger] text::signed_decimal(n as int) == value)
    } else {
        None
    }
}

/// The texts of a sequence of JSON values.
pub open spec fn value_texts(v: Seq<serde_json::Value>) -> Seq<Seq<char>> {
    v.map_values(|e: serde_json::Value| value_text(e))
}

/// The text of an optional JSON value.
pub open spec fn opt_value_text(v: Option<serde_json::Value>) -> Option<Seq<char>> {
    match v {
        Some(e) => Some(value_text(e)),
        None => None,
    }
}

/// The compact text of a boolean.
pub open spec fn bool_text(b: bool) -> Seq<char> {
    if b {
        "true"@
    } else {
        "false"@
    }
}

/// The compact text of a number, `null` where there is none.
pub open spec fn count_text(n: Option<u64>) -> Seq<char> {
    match n {
        Some(count) => text::decimal(count as nat),
        None => "null"@,
    }
}

/// The compact text of an array with the given elements.
pub open spec fn array_text(elements: Seq<Seq<char>>) -> Seq<char> {
    "["@ + text::join(elements, ","@) + "]"@
}

/// The compact text of an array of integers.
pub open spec fn integers_text(v: Seq<i64>) -> Seq<char> {
    array_text(v.map_values(|n: i64| text::signed_decimal(n as int)))
}

/// The compact text of an object with the given members, in the ascending
/// order of their names.
pub open spec fn object_text(of: Map<Seq<char>, Seq<char>>) -> Seq<char> {
    let names = choose|names: Seq<Seq<char>>| #[trigger]
        text::ascending_listing(names, of.dom());
    "{"@ + text::join(
        names.map_values(|name: Seq<char>| json_string(name) + ":"@ + of[name]),
        ","@,
    ) + "}"@
}

/// No members.
pub open spec fn empty_members() -> Map<Seq<char>, Seq<char>> {
    Map::empty()
}

/// The members with one more, where there is a value for it.
pub open spec fn with_optional(
    of: Map<Seq<char>, Seq<char>>,
    name: Seq<char>,
    value: Option<Seq<char>>,
) -> Map<Seq<char>, Seq<char>> {
    match value {
        Some(v) => of.insert(name, v),
        None => of,
    }
}

// ---------------------------------------------------------------------------
// Reading
// ---------------------------------------------------------------------------

/// `serde_json::from_str` into a vector of values: the elements of the JSON
/// array that the text denotes, or nothing where it denotes none.
#[verifier::external_body]
pub(crate) fn parse_array(text: &str) -> (r: Option<Vec<serde_json::Value>>)
    ensures
        (match r {
            Some(v) => Some(value_texts(v@)),
            None => None,
        }) == json_array(text@),
{
    serde_json::from_str::<Vec<serde_json::Value>>(text).ok()
}

/// `serde_json::Value::get` with a string: the member of that name, nothing
/// where the value is no object or has no such member.
#[verifier::external_body]
pub(crate) fn member<'a>(v: &'a serde_json::Value, name: &str) -> (r: Option<
    &'a serde_json::Value,
>)
    ensures
        (match r {
            Some(e) => Some(value_text(*e)),
            None => None,
        }) == json_member(value_text(*v), name@),
{
    v.get(name)
}

/// `serde_json::Value::clone`: a value with the same text.
#[verifier::external_body]
pub(crate) fn copy_value(v: &serde_json::Value) -> (r: serde_json::Value)
    ensures
        value_text(r) == value_text(*v),
{
    v.clone()
}

/// `serde_json::Value::as_u64`: the value where it is an integer from zero to
/// `u64::MAX`. Such a value, and no other, is printed as that integer in
/// decimal notation.
#[verifier::external_body]
fn as_u64(v: &serde_json::Value) -> (r: Option<u64>)
    ensures
        match r {
            Some(n) => value_text(*v) == text::decimal(n as nat),
            None => forall|n: u64| #[trigger] text::decimal(n as nat) != value_text(*v),
        },
{
    v.as_u64()
}

/// `serde_json::Value::as_i64`: the value where it is an integer that an `i64`
/// can hold. Such a value, and no other, is printed as that integer in decimal
/// notation.
#[verifier::external_body]
fn as_i64(v: &serde_json::Value) -> (r: Option<i64>)
    ensures
        match r {
            Some(n) => value_text(*v) == text::signed_decimal(n as int),
            None => forall|n: i64| #[trigger] text::signed_decimal(n as int) != value_text(*v),
        },
{
    v.as_i64()
}

/// The value as an unsigned integer, where it is one.
pub fn unsigned_of(v: &serde_json::Value) -> (r: Option<u64>)
    ensures
        r == json_u64(value_text(*v)),
{
    let r = as_u64(v);
    proof {
        if let Some(n) = r {
            law_integer_texts(n, 0);
        }
    }
    r
}

/// The value as a signed integer, where it is one.
pub fn signed_of(v: &serde_json::Value) -> (r: Option<i64>)
    ensures
        r == json_i64(value_text(*v)),
{
    let r = as_i64(v);
    proof {
        if let Some(n) = r {
            law_integer_texts(0, n);
        }
    }
    r
}

// ---------------------------------------------------------------------------
// Writing
// ---------------------------------------------------------------------------

/// `serde_json::Value::from` a boolean.
#[verifier::external_body]
pub(crate) fn bool_value(b: bool) -> (r: serde_json::Value)
    ensures
        value_text(r) == bool_text(b),
{
    serde_json::Value::from(b)
}

/// `serde_json::Value::from` an optional number, `null` where there is none.
#[verifier::external_body]
pub(crate) fn count_value(n: Option<u64>) -> (r: serde_json::Value)
    ensures
        value_text(r) == count_text(n),
{
    serde_json::Value::from(n)
}

/// `serde_json::Value::from` a signed integer.
#[verifier::external_body]
pub(crate) fn integer_value(n: i64) -> (r: serde_json::Value)
    ensures
        value_text(r) == text::signed_decimal(n as int),
{
    serde_json::Value::from(n)
}

/// `serde_json::Value::from` a string: the JSON string that holds it, with its
/// quotes, backslashes and control characters escaped.
#[verifier::external_body]
pub(crate) fn string_value(s: &str) -> (r: serde_json::Value)
    ensures
        value_text(r) == json_string(s@),
{
    serde_json::Value::from(s)
}

/// `serde_json::Value::from` a vector of values: the array with these elements
/// in this order.
#[verifier::external_body]
pub(crate) fn array_value(elements: Vec<serde_json::Value>) -> (r: serde_json::Value)
    ensures
        value_text(r) == array_text(value_texts(elements@)),
{
    serde_json::Value::from(elements)
}

/// `serde_json::Map::new`: no members.
#[verifier::external_body]
pub(crate) fn no_members() -> (r: serde_json::Map<String, serde_json::Value>)
    ensures
        members(r) == empty_members(),
{
    serde_json::Map::new()
}

/// `serde_json::Map::insert`: sets the member of the given name.
#[verifier::external_body]
pub(crate) fn set_member(
    m: &mut serde_json::Map<String, serde_json::Value>,
    name: &str,
    value: serde_json::Value,
)
    ensures
        members(*final(m)) == members(*old(m)).insert(name@, value_text(value)),
{
    m.insert(name.to_owned(), value);
}

/// `serde_json::Value::from` a map: the object with these members, which member
/// access then gives back. The map is ordered by name, as it is with the default
/// features of `serde_json`.
#[verifier::external_body]
pub(crate) fn object_value(m: serde_json::Map<String, serde_json::Value>) -> (r: serde_json::Value)
    ensures
        value_text(r) == object_text(members(m)),
        forall|name: Seq<char>| #[trigger]
            json_member(value_text(r), name) == (if members(m).contains_key(name) {
                Some(members(m)[name])
            } else {
                None
            }),
{
    serde_json::Value::from(m)
}

/// `serde_json::Value::to_string`: the value as compact JSON text.
#[verifier::external_body]
pub(crate) fn compact(v: &serde_json::Value) -> (r: String)
    ensures
        r@ == value_text(*v),
{
    v.to_string()
}

/// `serde_json::to_string_pretty`: the value laid out over several lines. It
/// fails only where a `Serialize` impl does or where a map has keys that are no
/// strings; a `Value` has neither.
#[verifier::external_body]
fn pretty(v: &serde_json::Value) -> (r: Result<String, serde_json::Error>)
    ensures
        r is Ok,
        r matches Ok(s) ==> s@ == json_pretty(value_text(*v)),
{
    serde_json::to_string_pretty(v)
}

/// The array of the given integers.
pub fn integers_value(v: &Vec<i64>) -> (r: serde_json::Value)
    ensures
        value_text(r) == integers_text(v@),
{
    let mut elements: Vec<serde_json::Value> = Vec::new();
    let ghost wanted = v@.map_values(|n: i64| text::signed_decimal(n as int));
    for i in 0..v.len()
        invariant
            wanted == v@.map_values(|n: i64| text::signed_decimal(n as int)),
            value_texts(elements@) =~= wanted.take(i as int),
    {
        let ghost before = elements@;
        let e = integer_value(v[i]);
        elements.push(e);
        assert(value_texts(elements@) =~= value_texts(before).push(value_text(e)));
    }
    assert(value_texts(elements@) =~= wanted);
    array_value(elements)
}

/// The value laid out over several lines.
pub fn pretty_text(v: &serde_json::Value) -> (r: String)
    ensures
        r@ == json_pretty(value_text(*v)),
{
    match pretty(v) {
        Ok(s) => s,
        Err(_) => unreached(),
    }
}

// ---------------------------------------------------------------------------
// Laws
// ---------------------------------------------------------------------------

/// The decimal notation of an integer is read as that integer.
pub proof fn law_integer_texts(n: u64, k: i64)
    ensures
        json_u64(text::decimal(n as nat)) == Some(n),
        json_i64(text::signed_decimal(k as int)) == Some(k),
{
    assert(text::decimal(n as nat) == text::decimal(n as nat));
    let a = choose|a: u64| #[trigger] text::decimal(a as nat) == text::decimal(n as nat);
    text::law_decimal_injective(a as nat, n as nat);
    assert(text::signed_decimal(k as int) == text::signed_decimal(k as int));
    let b = choose|b: i64|
        #[trigger] text::signed_decimal(b as int) == text::signed_decimal(k as int);
    text::law_signed_decimal_injective(b as int, k as int);
}

/// A character stands for itself in a JSON string.
pub open spec fn plain(c: char) -> bool {
    c >= ' ' && c != '"' && c != '\\'
}

/// A text without quotes, backslashes and control characters is its own JSON
/// string, in quotes.
pub proof fn law_plain_string(s: Seq<char>)
    requires
        forall|i: int| 0 <= i < s.len() ==> plain(#[trigger] s[i]),
    ensures
        json_string(s) == seq!['"'] + s + seq!['"'],
{
    lemma_plain_escaped(s);
}

proof fn lemma_plain_escaped(s: Seq<char>)
    requires
        forall|i: int| 0 <= i < s.len() ==> plain(#[trigger] s[i]),
    ensures
        escaped(s) == s,
    decreases s.len(),
{
    if s.len() > 0 {
        let rest = s.drop_last();
        assert forall|i: int| 0 <= i < rest.len() implies plain(#[trigger] rest[i]) by {
            assert(rest[i] == s[i]);
        }
        lemma_plain_escaped(rest);
        assert(plain(s[s.len() - 1]));
        assert(rest + seq![s.last()] =~= s);
    } else {
        assert(s =~= Seq::empty());
    }
}

/// The text of an object with two members has them in the ascending order of
/// their names.
pub proof fn law_two_members(
    name: Seq<char>,
    value: Seq<char>,
    later: Seq<char>,
    other: Seq<char>,
)
    requires
        text::lex_le(name, later),
        name != later,
    ensures
        object_text(map![name => value, later => other]) == "{"@ + (json_string(name) + ":"@ + value
            + ","@ + (json_string(later) + ":"@ + other)) + "}"@,
{
    let of = map![name => value, later => other];
    let both = seq![name, later];
    assert(both[0] == name && both[1] == later);
    assert(text::ascending_listing(both, of.dom()));
    let names = choose|names: Seq<Seq<char>>| #[trigger]
        text::ascending_listing(names, of.dom());
    text::law_listing_unique(names, both, of.dom());
    let line = |n: Seq<char>| json_string(n) + ":"@ + of[n];
    let lines = names.map_values(line);
    assert(lines =~= seq![line(name), line(later)]);
    assert(lines.drop_last() =~= seq![line(name)]);
    reveal_with_fuel(text::join, 2);
}

/// The text of an object with one member is that member in braces.
pub proof fn law_single_member(name: Seq<char>, value: Seq<char>)
    ensures
        object_text(map![name => value]) == "{"@ + (json_string(name) + ":"@ + value) + "}"@,
{
    let of = map![name => value];
    let only = seq![name];
    assert(only[0] == name);
    assert(text::ascending_listing(only, of.dom()));
    let names = choose|names: Seq<Seq<char>>| #[trigger]
        text::ascending_listing(names, of.dom());
    text::law_listing_unique(names, only, of.dom());
    let line = |n: Seq<char>| json_string(n) + ":"@ + of[n];
    assert(names.map_values(line) =~= seq![line(name)]);
}

} // verus!
