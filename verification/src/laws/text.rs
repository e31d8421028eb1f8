//! Laws of the text primitives.

use vstd::prelude::*;

use crate::text;
use crate::text::{
    below, copy, find_with_prefix, from_chars, hex_to_u64, joined, not_after, occurs, padded,
    push_decimal, push_hex, replaced, same, same_str, slice_of, split, split_lines, split_words,
    starts_with, stripped, to_chars, to_decimal, trimmed, white, Separator,
};

verus! {

/// The white-space characters, one by one.
pub open spec fn white_list() -> Seq<char> {
    seq![
        '\u{9}', '\u{a}', '\u{b}', '\u{c}', '\u{d}', ' ', '\u{85}', '\u{a0}', '\u{1680}',
        '\u{2000}', '\u{2001}', '\u{2002}', '\u{2003}', '\u{2004}', '\u{2005}', '\u{2006}',
        '\u{2007}', '\u{2008}', '\u{2009}', '\u{200a}', '\u{2028}', '\u{2029}', '\u{202f}',
        '\u{205f}', '\u{3000}',
    ]
}

/// White space is these characters and no others.
pub proof fn law_white(c: char)
    ensures
        text::is_white(c) <==> white_list().contains(c),
{
    let w = white_list();
    assert(w[0] == '\u{9}' && w[1] == '\u{a}' && w[2] == '\u{b}' && w[3] == '\u{c}' && w[4]
        == '\u{d}' && w[5] == ' ' && w[6] == '\u{85}' && w[7] == '\u{a0}' && w[8] == '\u{1680}');
    assert(w[9] == '\u{2000}' && w[10] == '\u{2001}' && w[11] == '\u{2002}' && w[12] == '\u{2003}'
        && w[13] == '\u{2004}' && w[14] == '\u{2005}' && w[15] == '\u{2006}' && w[16]
        == '\u{2007}' && w[17] == '\u{2008}' && w[18] == '\u{2009}' && w[19] == '\u{200a}');
    assert(w[20] == '\u{2028}' && w[21] == '\u{2029}' && w[22] == '\u{202f}' && w[23]
        == '\u{205f}' && w[24] == '\u{3000}');
    if w.contains(c) {
        let i = choose|i: int| 0 <= i < w.len() && w[i] == c;
        assert(w[i] == c);
    }
    if text::is_white(c) {
        assert(c as int == w[0] as int || c as int == w[1] as int || c as int == w[2] as int || c
            as int == w[3] as int || c as int == w[4] as int || c as int == w[5] as int || c as int
            == w[6] as int || c as int == w[7] as int || c as int == w[8] as int || c as int
            == w[9] as int || c as int == w[10] as int || c as int == w[11] as int || c as int
            == w[12] as int || c as int == w[13] as int || c as int == w[14] as int || c as int
            == w[15] as int || c as int == w[16] as int || c as int == w[17] as int || c as int
            == w[18] as int || c as int == w[19] as int || c as int == w[20] as int || c as int
            == w[21] as int || c as int == w[22] as int || c as int == w[23] as int || c as int
            == w[24] as int);
    }
}

/// A separator splits at its own character, or at white space.
pub proof fn law_separates(c: char, d: char)
    ensures
        Separator::Char(d).separates(c) <==> c == d,
        Separator::White.separates(c) <==> text::is_white(c),
{
}

/// No text has no words. White space at the end adds none, and another character
/// there either begins a word of its own or goes on with the last one.
pub proof fn law_words_grow(s: Seq<char>, c: char)
    ensures
        text::words(Seq::empty()) == Seq::<Seq<char>>::empty(),
        text::is_white(c) ==> text::words(s.push(c)) == text::words(s),
        !text::is_white(c) && (s.len() == 0 || text::is_white(s.last())) ==> text::words(s.push(c))
            == text::words(s).push(seq![c]),
        !text::is_white(c) && s.len() > 0 && !text::is_white(s.last()) ==> text::words(s).len() > 0
            && text::words(s.push(c)) == text::words(s).drop_last().push(
            text::words(s).last().push(c),
        ),
{
    reveal(Seq::filter);
    let keep = |t: Seq<char>| t.len() > 0;
    let sep = Separator::White;
    let before = text::pieces(s, sep);
    let after = text::pieces(s.push(c), sep);
    text::lemma_pieces_nonempty(s, sep);
    assert(s.push(c).drop_last() =~= s);
    assert(text::pieces(Seq::<char>::empty(), sep) =~= seq![Seq::<char>::empty()]);
    let one = seq![Seq::<char>::empty()];
    assert(one.drop_last() =~= Seq::<Seq<char>>::empty());
    assert(one.drop_last().filter(keep) =~= Seq::<Seq<char>>::empty());
    assert(!keep(one.last()));
    assert(one.filter(keep) =~= Seq::<Seq<char>>::empty());
    lemma_last_piece(s, sep);
    if text::is_white(c) {
        assert(after.drop_last() =~= before);
    } else {
        assert(after.drop_last() =~= before.drop_last());
        assert(after.last() == before.last().push(c));
        if s.len() == 0 || text::is_white(s.last()) {
            assert(before.last().len() == 0);
            assert(before.last().push(c) =~= seq![c]);
        } else {
            let kept = before.drop_last().filter(keep);
            assert(text::words(s) == kept.push(before.last()));
            assert(text::words(s).drop_last() =~= kept);
        }
    }
}

proof fn lemma_last_piece(s: Seq<char>, sep: Separator)
    ensures
        text::pieces(s, sep).len() > 0,
        text::pieces(s, sep).last().len() == 0 <==> s.len() == 0 || sep.separates(s.last()),
{
    if s.len() > 0 {
        text::lemma_pieces_nonempty(s.drop_last(), sep);
    }
}

/// The first line of a text ends at its first newline, without a carriage return
/// right before it, and the other lines are those of what follows. A text
/// without a newline is one line, unless it is empty.
pub proof fn law_lines(line: Seq<char>, rest: Seq<char>)
    requires
        !line.contains('\n'),
    ensures
        text::lines(line.push('\n') + rest) == seq![
            if line.len() > 0 && line.last() == '\r' {
                line.drop_last()
            } else {
                line
            },
        ] + text::lines(rest),
        line.len() > 0 ==> text::lines(line) == seq![line],
        text::lines(Seq::empty()) == Seq::<Seq<char>>::empty(),
{
    let nl = Separator::Char('\n');
    let cut = |t: Seq<char>| text::strip_cr(t);
    lemma_no_separator(line, nl);
    lemma_pieces_join(line, rest, '\n');
    lemma_no_separator(Seq::empty(), nl);
    let ps = text::pieces(rest, nl);
    let all = text::pieces(line.push('\n') + rest, nl);
    text::lemma_pieces_nonempty(rest, nl);
    assert(all == seq![line] + ps);
    assert(all.drop_last() =~= seq![line] + ps.drop_last());
    assert(all.drop_last().map_values(cut) =~= seq![cut(line)] + ps.drop_last().map_values(cut));
    assert(text::lines(line.push('\n') + rest) =~= seq![cut(line)] + text::lines(rest));
    assert(seq![line].drop_last().map_values(cut) =~= Seq::<Seq<char>>::empty());
    assert(text::lines(line) =~= if line.len() > 0 { seq![line] } else { Seq::empty() });
    assert(seq![Seq::<char>::empty()].drop_last().map_values(cut) =~= Seq::<Seq<char>>::empty());
    assert(text::lines(Seq::empty()) =~= Seq::<Seq<char>>::empty());
}

proof fn lemma_no_separator(s: Seq<char>, sep: Separator)
    requires
        forall|i: int| 0 <= i < s.len() ==> !sep.separates(#[trigger] s[i]),
    ensures
        text::pieces(s, sep) == seq![s],
    decreases s.len(),
{
    if s.len() > 0 {
        let rest = s.drop_last();
        assert forall|i: int| 0 <= i < rest.len() implies !sep.separates(#[trigger] rest[i]) by {
            assert(rest[i] == s[i]);
        }
        lemma_no_separator(rest, sep);
        assert(!sep.separates(s[s.len() - 1]));
        assert(rest.push(s.last()) =~= s);
        assert(text::pieces(s, sep) =~= seq![s]);
    } else {
        assert(s =~= Seq::empty());
        assert(text::pieces(s, sep) =~= seq![s]);
    }
}

proof fn lemma_pieces_join(a: Seq<char>, b: Seq<char>, c: char)
    ensures
        text::pieces(a.push(c) + b, Separator::Char(c)) == text::pieces(a, Separator::Char(c))
            + text::pieces(b, Separator::Char(c)),
    decreases b.len(),
{
    let sep = Separator::Char(c);
    let whole = a.push(c) + b;
    text::lemma_pieces_nonempty(b, sep);
    if b.len() == 0 {
        assert(whole =~= a.push(c));
        assert(whole.drop_last() =~= a);
        assert(text::pieces(whole, sep) =~= text::pieces(a, sep) + text::pieces(b, sep));
    } else {
        lemma_pieces_join(a, b.drop_last(), c);
        text::lemma_pieces_nonempty(b.drop_last(), sep);
        assert(whole.drop_last() =~= a.push(c) + b.drop_last());
        assert(whole.last() == b.last());
        let ps = text::pieces(b.drop_last(), sep);
        let first = text::pieces(a, sep);
        assert((first + ps).drop_last() =~= first + ps.drop_last());
        assert(text::pieces(whole, sep) =~= first + text::pieces(b, sep));
    }
}

/// A text is cut at each copy of a character: what stands before the first copy
/// is the first piece, and the others are those of what follows it.
pub proof fn law_pieces(piece: Seq<char>, c: char, rest: Seq<char>)
    requires
        !piece.contains(c),
    ensures
        text::pieces(piece, Separator::Char(c)) == seq![piece],
        text::pieces(piece.push(c) + rest, Separator::Char(c)) == seq![piece] + text::pieces(
            rest,
            Separator::Char(c),
        ),
{
    lemma_no_separator(piece, Separator::Char(c));
    lemma_pieces_join(piece, rest, c);
}

/// Trimming takes off white space at the ends, all of it and nothing else.
pub proof fn law_trim(s: Seq<char>)
    ensures
        exists|a: Seq<char>, b: Seq<char>|
            #![trigger a + text::trim(s) + b]
            {
                &&& s == a + text::trim(s) + b
                &&& forall|i: int| 0 <= i < a.len() ==> text::is_white(#[trigger] a[i])
                &&& forall|i: int| 0 <= i < b.len() ==> text::is_white(#[trigger] b[i])
            },
        text::trim(s).len() > 0 ==> !text::is_white(text::trim(s).first()) && !text::is_white(
            text::trim(s).last(),
        ),
{
    text::law_trim_clean(s);
    lemma_trim_start(s);
    let body = text::trim_start(s);
    lemma_trim_end(body);
    let a = choose|a: Seq<char>|
        s == #[trigger] (a + body) && forall|i: int|
            0 <= i < a.len() ==> text::is_white(#[trigger] a[i]);
    let b = choose|b: Seq<char>|
        body == #[trigger] (text::trim_end(body) + b) && forall|i: int|
            0 <= i < b.len() ==> text::is_white(#[trigger] b[i]);
    assert(s =~= a + text::trim(s) + b);
}

proof fn lemma_trim_start(s: Seq<char>)
    ensures
        exists|a: Seq<char>|
            s == #[trigger] (a + text::trim_start(s)) && forall|i: int|
                0 <= i < a.len() ==> text::is_white(#[trigger] a[i]),
    decreases s.len(),
{
    let body = text::trim_start(s);
    if s.len() > 0 && text::is_white(s.first()) {
        lemma_trim_start(s.drop_first());
        assert(body == text::trim_start(s.drop_first()));
        let a = choose|a: Seq<char>|
            s.drop_first() == #[trigger] (a + body) && forall|i: int|
                0 <= i < a.len() ==> text::is_white(#[trigger] a[i]);
        let more = seq![s.first()] + a;
        assert(s =~= seq![s.first()] + s.drop_first());
        assert(s =~= more + body);
        assert forall|i: int| 0 <= i < more.len() implies text::is_white(#[trigger] more[i]) by {
            if i > 0 {
                assert(more[i] == a[i - 1]);
            }
        }
    } else {
        assert(s =~= Seq::<char>::empty() + body);
    }
}

proof fn lemma_trim_end(s: Seq<char>)
    ensures
        exists|b: Seq<char>|
            s == #[trigger] (text::trim_end(s) + b) && forall|i: int|
                0 <= i < b.len() ==> text::is_white(#[trigger] b[i]),
    decreases s.len(),
{
    let body = text::trim_end(s);
    if s.len() > 0 && text::is_white(s.last()) {
        lemma_trim_end(s.drop_last());
        assert(body == text::trim_end(s.drop_last()));
        let b = choose|b: Seq<char>|
            s.drop_last() == #[trigger] (body + b) && forall|i: int|
                0 <= i < b.len() ==> text::is_white(#[trigger] b[i]);
        let more = b.push(s.last());
        assert(s =~= s.drop_last().push(s.last()));
        assert(s =~= body + more);
        assert forall|i: int| 0 <= i < more.len() implies text::is_white(#[trigger] more[i]) by {
            if i < b.len() {
                assert(more[i] == b[i]);
            }
        }
    } else {
        assert(s =~= body + Seq::<char>::empty());
    }
}

/// A leading copy of a text makes no difference once all are taken off, and
/// where there is none nothing is.
pub proof fn law_strip_all(s: Seq<char>, p: Seq<char>)
    ensures
        text::strip_all(p + s, p) == text::strip_all(s, p),
        p.len() == 0 ==> text::strip_all(s, p) == s,
        !p.is_prefix_of(s) ==> text::strip_all(s, p) == s,
{
    assert((p + s).subrange(0, p.len() as int) =~= p);
    assert((p + s).skip(p.len() as int) =~= s);
}

/// Joining puts the separator between neighbours and nowhere else.
pub proof fn law_join(v: Seq<Seq<char>>, last: Seq<char>, sep: Seq<char>)
    ensures
        text::join(Seq::empty(), sep) == Seq::<char>::empty(),
        text::join(seq![last], sep) == last,
        v.len() > 0 ==> text::join(v.push(last), sep) == text::join(v, sep) + sep + last,
{
    assert(v.push(last).drop_last() =~= v);
}

/// Replacing a character keeps every other one, each at its place.
pub proof fn law_replace(s: Seq<char>, from: char, to: char, i: int)
    requires
        0 <= i < s.len(),
    ensures
        text::replace_char(s, from, to).len() == s.len(),
        s[i] == from ==> text::replace_char(s, from, to)[i] == to,
        s[i] != from ==> text::replace_char(s, from, to)[i] == s[i],
{
}

/// Padding keeps the text in front and adds blanks up to the width.
pub proof fn law_pad(s: Seq<char>, width: nat, i: int)
    ensures
        s.len() >= width ==> text::pad_right(s, width) == s,
        s.len() < width ==> text::pad_right(s, width).len() == width,
        0 <= i < s.len() ==> text::pad_right(s, width)[i] == s[i],
        s.len() <= i < width ==> text::pad_right(s, width)[i] == ' ',
{
}

/// Decimal notation: the ten digits stand for themselves, and a digit at the end
/// counts ten times what stands before it.
pub proof fn law_decimal(n: nat, d: nat)
    requires
        d < 10,
    ensures
        text::decimal(d) == seq![
            if d == 0 { '0' } else if d == 1 { '1' } else if d == 2 { '2' } else if d == 3 {
                '3'
            } else if d == 4 { '4' } else if d == 5 { '5' } else if d == 6 { '6' } else if d == 7 {
                '7'
            } else if d == 8 { '8' } else { '9' },
        ],
        n > 0 ==> text::decimal(n * 10 + d) == text::decimal(n) + text::decimal(d),
{
    if n > 0 {
        assert((n * 10 + d) / 10 == n && (n * 10 + d) % 10 == d) by (nonlinear_arith)
            requires
                d < 10,
        ;
        assert(text::decimal(n * 10 + d) =~= text::decimal(n) + text::decimal(d));
    }
}

/// A negative number is its opposite with a minus sign.
pub proof fn law_signed_decimal(n: nat)
    ensures
        text::signed_decimal(n as int) == text::decimal(n),
        n > 0 ==> text::signed_decimal(-(n as int)) == seq!['-'] + text::decimal(n),
{
}

/// Hexadecimal digits: each stands for its value, and digits at the end count
/// sixteen times less than those before.
pub proof fn law_hex(n: nat, width: nat, d: nat)
    requires
        d < 16,
    ensures
        text::hex(n, 0) == Seq::<char>::empty(),
        text::hex(n * 16 + d, width + 1) == text::hex(n, width).push(
            if d == 0 { '0' } else if d == 1 { '1' } else if d == 2 { '2' } else if d == 3 {
                '3'
            } else if d == 4 { '4' } else if d == 5 { '5' } else if d == 6 { '6' } else if d == 7 {
                '7'
            } else if d == 8 { '8' } else if d == 9 { '9' } else if d == 10 { 'a' } else if d
                == 11 { 'b' } else if d == 12 { 'c' } else if d == 13 { 'd' } else if d == 14 {
                'e'
            } else { 'f' },
        ),
{
    assert((n * 16 + d) / 16 == n && (n * 16 + d) % 16 == d) by (nonlinear_arith)
        requires
            d < 16,
    ;
}

/// The value of a hexadecimal digit, in either case.
pub open spec fn digit_value(c: char) -> int {
    if '0' <= c <= '9' {
        c as int - '0' as int
    } else if 'a' <= c <= 'f' {
        c as int - 'a' as int + 10
    } else if 'A' <= c <= 'F' {
        c as int - 'A' as int + 10
    } else {
        -1
    }
}

/// Reading base sixteen: no digits are no number, a plus sign in front makes no
/// difference, a character that is no digit spoils it, and a further digit counts
/// by itself after sixteen times what stands before it, where that fits.
pub proof fn law_parse_hex(s: Seq<char>, c: char)
    ensures
        text::parse_hex(Seq::empty()) is None,
        text::parse_hex(seq!['+']) is None,
        s.len() > 0 && s.first() != '+' ==> text::parse_hex(seq!['+'] + s) == text::parse_hex(s),
        text::parse_hex(seq!['+'] + (seq!['+'] + s)) is None,
        digit_value(c) < 0 && c != '+' ==> text::parse_hex(s.push(c)) is None,
        digit_value(c) >= 0 ==> text::parse_hex(seq![c]) == Some(digit_value(c) as u64),
        digit_value(c) >= 0 ==> (text::parse_hex(s) matches Some(n) ==> text::parse_hex(s.push(c))
            == (if n * 16 + digit_value(c) <= u64::MAX {
            Some((n * 16 + digit_value(c)) as u64)
        } else {
            None
        })),
        digit_value(c) >= 0 && s.len() > 0 && s != seq!['+'] && text::parse_hex(s) is None
            ==> text::parse_hex(s.push(c)) is None,
{
    reveal_with_fuel(text::hex_number, 2);
    assert(seq!['+'].drop_first() =~= Seq::<char>::empty());
    assert((seq!['+'] + s).drop_first() =~= s);
    let two = seq!['+'] + (seq!['+'] + s);
    assert(two.drop_first() =~= seq!['+'] + s);
    lemma_spoiled(seq!['+'] + s, 0);
    assert(s.push(c).drop_last() =~= s);
    assert(s.len() > 0 ==> s.push(c).drop_first() =~= s.drop_first().push(c));
    assert(s.len() > 0 ==> s.push(c).first() == s.first());
    assert(s.len() > 0 ==> s.drop_first().push(c).drop_last() =~= s.drop_first());
    assert(seq![c].drop_last() =~= Seq::<char>::empty());
    if s.len() == 0 {
        assert(s.push(c) =~= seq![c]);
    }
    if s.len() == 1 && s.first() == '+' {
        assert(s =~= seq!['+']);
    }
}

proof fn lemma_spoiled(s: Seq<char>, i: int)
    requires
        0 <= i < s.len(),
        text::hex_value(s[i]) is None,
    ensures
        text::hex_number(s) is None,
    decreases s.len(),
{
    if i < s.len() - 1 {
        lemma_spoiled(s.drop_last(), i);
    }
}

/// The order of texts: a text comes before its continuations, and else the first
/// character that differs decides.
pub proof fn law_order(a: Seq<char>, b: Seq<char>, common: Seq<char>, c: char, d: char)
    ensures
        text::lex_le(common, common + a),
        text::lex_le(common + a, common) <==> a.len() == 0,
        c != d ==> (text::lex_le(common.push(c) + a, common.push(d) + b) <==> (c as int) < (d as int)),
{
    lemma_order_common(common, Seq::empty(), a);
    lemma_order_common(common, a, Seq::empty());
    lemma_order_common(common, seq![c] + a, seq![d] + b);
    assert(common + Seq::<char>::empty() =~= common);
    assert(common + (seq![c] + a) =~= common.push(c) + a);
    assert(common + (seq![d] + b) =~= common.push(d) + b);
}

proof fn lemma_order_common(common: Seq<char>, a: Seq<char>, b: Seq<char>)
    ensures
        text::lex_le(common + a, common + b) <==> text::lex_le(a, b),
    decreases common.len(),
{
    if common.len() > 0 {
        lemma_order_common(common.drop_first(), a, b);
        assert((common + a).drop_first() =~= common.drop_first() + a);
        assert((common + b).drop_first() =~= common.drop_first() + b);
    } else {
        assert(common + a =~= a && common + b =~= b);
    }
}

/// A listing of a set holds each of its texts once, in ascending order.
pub proof fn law_listing(names: Seq<Seq<char>>, of: Set<Seq<char>>, i: int, j: int, name: Seq<char>)
    requires
        text::ascending_listing(names, of),
    ensures
        0 <= i < j < names.len() ==> text::lex_le(names[i], names[j]) && names[i] != names[j],
        names.contains(name) <==> of.contains(name),
{
}

/// A text stands in another exactly when the other is that text with something
/// before and after it.
pub proof fn law_contains(s: Seq<char>, p: Seq<char>, a: Seq<char>, b: Seq<char>)
    ensures
        text::contains(a + p + b, p),
        text::contains(s, p) ==> exists|x: Seq<char>, y: Seq<char>| s == #[trigger] (x + p + y),
{
    assert((a + p + b).subrange(a.len() as int, a.len() as int + p.len()) =~= p);
    assert(text::stands_at(a + p + b, p, a.len() as int));
    if text::contains(s, p) {
        let at = choose|at: int| text::stands_at(s, p, at);
        let x = s.take(at);
        let y = s.skip(at + p.len());
        assert(s =~= x + p + y) by {
            assert forall|i: int| 0 <= i < s.len() implies s[i] == (x + p + y)[i] by {
                if at <= i < at + p.len() {
                    assert(s.subrange(at, at + p.len())[i - at] == s[i]);
                }
            }
        }
    }
}

/// The first text with a prefix is the one that has it while none before does.
pub proof fn law_first_with_prefix(v: Seq<Seq<char>>, p: Seq<char>, t: Seq<char>, rest: Seq<Seq<char>>)
    requires
        forall|i: int| 0 <= i < v.len() ==> !p.is_prefix_of(#[trigger] v[i]),
    ensures
        text::first_with_prefix(v, p) is None,
        p.is_prefix_of(t) ==> text::first_with_prefix(v + (seq![t] + rest), p) == Some(t),
    decreases v.len(),
{
    let all = v + (seq![t] + rest);
    if v.len() > 0 {
        let less = v.drop_first();
        assert forall|i: int| 0 <= i < less.len() implies !p.is_prefix_of(#[trigger] less[i]) by {
            assert(less[i] == v[i + 1]);
        }
        law_first_with_prefix(less, p, t, rest);
        assert(!p.is_prefix_of(v[0]));
        assert(all.drop_first() =~= less + (seq![t] + rest));
    } else {
        assert(all.first() == t);
    }
}

/// A name below a directory: one slash between them, and none before a relative
/// path or after a slash.
pub proof fn law_join_path(dir: Seq<char>, name: Seq<char>)
    ensures
        text::join_path(Seq::empty(), name) == name,
        text::join_path(dir.push('/'), name) == dir + seq!['/'] + name,
        dir.len() > 0 && dir.last() != '/' ==> text::join_path(dir, name) == dir + seq!['/'] + name,
{
    assert(text::join_path(Seq::empty(), name) =~= name);
    assert(dir.push('/') =~= dir + seq!['/']);
}

// ---------------------------------------------------------------------------
// Functions
// ---------------------------------------------------------------------------

/// A list of strings is seen as the list of their texts, each at its place.
pub proof fn law_strings(v: Seq<String>, w: Seq<&str>, x: Seq<Vec<char>>, o: Option<String>, i: int)
    ensures
        text::strings(v).len() == v.len(),
        0 <= i < v.len() ==> text::strings(v)[i] == v[i]@,
        text::strs(w).len() == w.len(),
        0 <= i < w.len() ==> text::strs(w)[i] == w[i]@,
        text::texts(x).len() == x.len(),
        0 <= i < x.len() ==> text::texts(x)[i] == x[i]@,
        o is None <==> text::opt_text(o) is None,
        o matches Some(t) ==> text::opt_text(o) == Some(t@),
{
}

/// Characters come and go unchanged.
pub proof fn law_chars(
    s: &str,
    cs: &[char],
    chars: Vec<char>,
    string: String,
    copied: Vec<char>,
    from: usize,
    to: usize,
    slice: Vec<char>,
    i: int,
)
    requires
        call_ensures(to_chars, (s,), chars),
        call_ensures(from_chars, (cs,), string),
        call_ensures(copy, (cs,), copied),
        from <= to <= cs@.len(),
        call_ensures(slice_of, (cs, from, to), slice),
    ensures
        chars@ == s@,
        string@ == cs@,
        copied@ == cs@,
        slice@.len() == to - from,
        0 <= i < to - from ==> slice@[i] == cs@[from + i],
{
}

/// Two texts are the same, one begins with the other, or holds it, or does not
/// come after it, exactly when that is so.
pub proof fn law_comparisons(
    a: &[char],
    b: &[char],
    same_chars: bool,
    starts: bool,
    held: bool,
    x: &str,
    y: &str,
    same_text: bool,
    ordered: bool,
    c: char,
    is_blank: bool,
)
    requires
        call_ensures(same, (a, b), same_chars),
        call_ensures(starts_with, (a, b), starts),
        call_ensures(occurs, (a, b), held),
        call_ensures(same_str, (x, y), same_text),
        call_ensures(not_after, (x, y), ordered),
        call_ensures(white, (c,), is_blank),
    ensures
        same_chars <==> a@ == b@,
        starts <==> exists|rest: Seq<char>| a@ == #[trigger] (b@ + rest),
        held <==> exists|before: Seq<char>, after: Seq<char>| a@ == #[trigger] (before + b@ + after),
        same_text <==> x@ == y@,
        ordered <==> text::lex_le(x@, y@),
        is_blank <==> white_list().contains(c),
{
    law_white(c);
    if starts {
        assert(a@ =~= b@ + a@.skip(b@.len() as int)) by {
            assert forall|i: int| 0 <= i < a@.len() implies a@[i] == (b@ + a@.skip(
                b@.len() as int,
            ))[i] by {
                if i < b@.len() {
                    assert(b@[i] == a@.subrange(0, b@.len() as int)[i]);
                }
            }
        }
    }
    if exists|rest: Seq<char>| a@ == #[trigger] (b@ + rest) {
        let rest = choose|rest: Seq<char>| a@ == #[trigger] (b@ + rest);
        assert(b@ =~= a@.subrange(0, b@.len() as int));
    }
    law_contains(a@, b@, Seq::empty(), Seq::empty());
    if exists|before: Seq<char>, after: Seq<char>| a@ == #[trigger] (before + b@ + after) {
        let (before, after) = choose|before: Seq<char>, after: Seq<char>|
            a@ == #[trigger] (before + b@ + after);
        law_contains(a@, b@, before, after);
    }
}

/// A text is cut, trimmed, stripped and searched whole.
pub proof fn law_cuts(
    s: &[char],
    sep: Separator,
    p: &[char],
    split_up: Vec<Vec<char>>,
    split_at_white: Vec<Vec<char>>,
    split_at_newlines: Vec<Vec<char>>,
    trimmed_text: Vec<char>,
    stripped_text: Vec<char>,
    list: &Vec<Vec<char>>,
    found: Option<Vec<char>>,
)
    requires
        call_ensures(split, (s, sep), split_up),
        call_ensures(split_words, (s,), split_at_white),
        call_ensures(split_lines, (s,), split_at_newlines),
        call_ensures(trimmed, (s,), trimmed_text),
        call_ensures(stripped, (s, p), stripped_text),
        call_ensures(find_with_prefix, (list, p), found),
    ensures
        text::texts(split_up@) == text::pieces(s@, sep),
        text::texts(split_at_white@) == text::words(s@),
        text::texts(split_at_newlines@) == text::lines(s@),
        trimmed_text@ == text::trim(s@),
        stripped_text@ == text::strip_all(s@, p@),
        found is None <==> text::first_with_prefix(text::texts(list@), p@) is None,
        found matches Some(t) ==> text::first_with_prefix(text::texts(list@), p@) == Some(t@),
{
}

/// A text is put together whole.
pub proof fn law_builds(
    v: &Vec<String>,
    sep: &str,
    joined_text: String,
    s: &str,
    from: char,
    to: char,
    replaced_text: String,
    width: usize,
    padded_text: String,
    name: &str,
    path: String,
)
    requires
        call_ensures(joined, (v, sep), joined_text),
        call_ensures(replaced, (s, from, to), replaced_text),
        call_ensures(padded, (s, width), padded_text),
        call_ensures(below, (s, name), path),
    ensures
        joined_text@ == text::join(text::strings(v@), sep@),
        replaced_text@ == text::replace_char(s@, from, to),
        padded_text@ == text::pad_right(s@, width as nat),
        path@ == text::join_path(s@, name@),
{
}

/// Numbers are written and read in full.
pub proof fn law_numbers(
    n: u64,
    digits: String,
    out: &mut String,
    hex_out: &mut String,
    width: u8,
    s: &[char],
    read: Option<u64>,
)
    requires
        call_ensures(to_decimal, (n,), digits),
        call_ensures(push_decimal, (out, n), ()),
        call_ensures(push_hex, (hex_out, n, width), ()),
        call_ensures(hex_to_u64, (s,), read),
    ensures
        digits@ == text::decimal(n as nat),
        final(out)@ == old(out)@ + text::decimal(n as nat),
        final(hex_out)@ == old(hex_out)@ + text::hex(n as nat, width as nat),
        read == text::parse_hex(s@),
{
}

} // verus!
