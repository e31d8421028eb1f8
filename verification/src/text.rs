//! Text primitives: the views of strings as sequences of characters, splitting,
//! trimming, prefix tests and number formatting.

use vstd::prelude::*;

verus! {

/// `String::push` appends one character at the end of the string.
pub assume_specification[ String::push ](s: &mut String, c: char)
    ensures
        final(s)@ == old(s)@.push(c),
;

/// Unicode `White_Space`.
pub open spec fn is_white(c: char) -> bool {
    ||| '\u{9}' <= c <= '\u{d}'
    ||| c == ' '
    ||| c == '\u{85}'
    ||| c == '\u{a0}'
    ||| c == '\u{1680}'
    ||| '\u{2000}' <= c <= '\u{200a}'
    ||| c == '\u{2028}'
    ||| c == '\u{2029}'
    ||| c == '\u{202f}'
    ||| c == '\u{205f}'
    ||| c == '\u{3000}'
}

/// Whether `c` is a Unicode white-space character.
pub fn white(c: char) -> (r: bool)
    ensures
        r == is_white(c),
{
    ('\u{9}' <= c && c <= '\u{d}') || c == ' ' || c == '\u{85}' || c == '\u{a0}' || c == '\u{1680}'
        || ('\u{2000}' <= c && c <= '\u{200a}') || c == '\u{2028}' || c == '\u{2029}' || c
        == '\u{202f}' || c == '\u{205f}' || c == '\u{3000}'
}

/// The characters of a string.
pub fn to_chars(s: &str) -> (r: Vec<char>)
    ensures
        r@ == s@,
{
    let mut out: Vec<char> = Vec::new();
    for c in iter: s.chars()
        invariant
            out@ == s@.take(iter.index()),
            iter.seq() == s@,
    {
        out.push(c);
    }
    out
}

/// The string with the given characters.
pub fn from_chars(cs: &[char]) -> (r: String)
    ensures
        r@ == cs@,
{
    let mut out = String::new();
    for i in 0..cs.len()
        invariant
            out@ == cs@.take(i as int),
    {
        out.push(cs[i]);
    }
    out
}

/// The texts of a sequence of character vectors.
pub open spec fn texts(v: Seq<Vec<char>>) -> Seq<Seq<char>> {
    v.map_values(|t: Vec<char>| t@)
}

/// The texts of a sequence of strings.
pub open spec fn strings(v: Seq<String>) -> Seq<Seq<char>> {
    v.map_values(|t: String| t@)
}

/// The texts of a sequence of string slices.
pub open spec fn strs(v: Seq<&str>) -> Seq<Seq<char>> {
    v.map_values(|t: &str| t@)
}

// ---------------------------------------------------------------------------
// Comparing
// ---------------------------------------------------------------------------

/// Whether two character slices hold the same text.
pub fn same(a: &[char], b: &[char]) -> (r: bool)
    ensures
        r == (a@ == b@),
{
    if a.len() != b.len() {
        return false;
    }
    for i in 0..a.len()
        invariant
            a@.len() == b@.len(),
            forall|j: int| 0 <= j < i ==> a@[j] == b@[j],
    {
        if a[i] != b[i] {
            assert(a@[i as int] != b@[i as int]);
            return false;
        }
    }
    assert(a@ =~= b@);
    true
}

/// Whether two strings hold the same text.
pub fn same_str(a: &str, b: &str) -> (r: bool)
    ensures
        r == (a@ == b@),
{
    let x = to_chars(a);
    let y = to_chars(b);
    same(&x, &y)
}

/// Whether `s` begins with `p`.
pub fn starts_with(s: &[char], p: &[char]) -> (r: bool)
    ensures
        r == p@.is_prefix_of(s@),
{
    if p.len() > s.len() {
        return false;
    }
    for i in 0..p.len()
        invariant
            p@.len() <= s@.len(),
            forall|j: int| 0 <= j < i ==> p@[j] == s@[j],
    {
        if p[i] != s[i] {
            assert(s@.subrange(0, p@.len() as int)[i as int] == s@[i as int]);
            return false;
        }
    }
    assert(p@ =~= s@.subrange(0, p@.len() as int));
    true
}

/// `p` stands in `s` at position `at`.
pub open spec fn stands_at(s: Seq<char>, p: Seq<char>, at: int) -> bool {
    0 <= at && at + p.len() <= s.len() && s.subrange(at, at + p.len()) == p
}

/// `p` stands somewhere in `s`.
pub open spec fn contains(s: Seq<char>, p: Seq<char>) -> bool {
    exists|at: int| stands_at(s, p, at)
}

/// Whether `p` stands somewhere in `s`.
pub fn occurs(s: &[char], p: &[char]) -> (r: bool)
    ensures
        r == contains(s@, p@),
{
    if p.len() > s.len() {
        assert forall|at: int| !stands_at(s@, p@, at) by {}
        return false;
    }
    let len: usize = s.len();
    let mut at: usize = 0;
    while at <= len - p.len()
        invariant
            len == s@.len(),
            p@.len() <= len,
            at <= len - p@.len() + 1,
            forall|k: int| 0 <= k < at ==> !stands_at(s@, p@, k),
        decreases len + 1 - at,
    {
        let mut i: usize = 0;
        while i < p.len() && s[at + i] == p[i]
            invariant
                len == s@.len(),
                p@.len() <= len,
                at <= len - p@.len(),
                i <= p@.len(),
                forall|j: int| 0 <= j < i ==> s@[at + j] == p@[j],
            decreases p@.len() - i,
        {
            i = i + 1;
        }
        if i == p.len() {
            assert(s@.subrange(at as int, at + p@.len()) =~= p@);
            assert(stands_at(s@, p@, at as int));
            return true;
        }
        assert(!stands_at(s@, p@, at as int)) by {
            assert(s@.subrange(at as int, at + p@.len())[i as int] == s@[at + i]);
        }
        if at == len {
            return false;
        }
        at = at + 1;
    }
    false
}

/// `a` does not come after `b`: the code points decide at the first position
/// where the texts differ, and a text comes before its own continuations.
pub open spec fn lex_le(a: Seq<char>, b: Seq<char>) -> bool
    decreases a.len(),
{
    if a.len() == 0 {
        true
    } else if b.len() == 0 {
        false
    } else if a.first() == b.first() {
        lex_le(a.drop_first(), b.drop_first())
    } else {
        a.first() < b.first()
    }
}

/// Of two texts, one does not come after the other.
pub proof fn lemma_lex_total(a: Seq<char>, b: Seq<char>)
    ensures
        lex_le(a, b) || lex_le(b, a),
    decreases a.len(),
{
    if a.len() > 0 && b.len() > 0 && a.first() == b.first() {
        lemma_lex_total(a.drop_first(), b.drop_first());
    }
}

/// Texts that do not come after each other are equal.
pub proof fn lemma_lex_antisymmetric(a: Seq<char>, b: Seq<char>)
    requires
        lex_le(a, b),
        lex_le(b, a),
    ensures
        a == b,
    decreases a.len(),
{
    if a.len() > 0 && b.len() > 0 {
        lemma_lex_antisymmetric(a.drop_first(), b.drop_first());
        assert(a =~= seq![a.first()] + a.drop_first());
        assert(b =~= seq![b.first()] + b.drop_first());
    } else {
        assert(a =~= b);
    }
}

/// The order of texts is transitive.
pub proof fn lemma_lex_transitive(a: Seq<char>, b: Seq<char>, c: Seq<char>)
    requires
        lex_le(a, b),
        lex_le(b, c),
    ensures
        lex_le(a, c),
    decreases a.len(),
{
    if a.len() > 0 && b.len() > 0 && c.len() > 0 && a.first() == b.first() && b.first()
        == c.first() {
        lemma_lex_transitive(a.drop_first(), b.drop_first(), c.drop_first());
    }
}

/// The texts in strictly ascending order, each element of the set once.
pub open spec fn ascending_listing(names: Seq<Seq<char>>, of: Set<Seq<char>>) -> bool {
    &&& forall|i: int, j: int|
        0 <= i < j < names.len() ==> lex_le(#[trigger] names[i], #[trigger] names[j])
            && names[i] != names[j]
    &&& forall|name: Seq<char>| #[trigger] names.contains(name) <==> of.contains(name)
}

/// Whether `a` does not come after `b`.
pub fn not_after(a: &str, b: &str) -> (r: bool)
    ensures
        r == lex_le(a@, b@),
{
    let x = to_chars(a);
    let y = to_chars(b);
    let mut i: usize = 0;
    assert(a@.skip(0) =~= a@ && b@.skip(0) =~= b@);
    while i < x.len() && i < y.len() && x[i] == y[i]
        invariant
            x@ == a@,
            y@ == b@,
            i <= a@.len(),
            i <= b@.len(),
            lex_le(a@, b@) == lex_le(a@.skip(i as int), b@.skip(i as int)),
        decreases a@.len() - i,
    {
        assert(a@.skip(i as int).drop_first() =~= a@.skip(i + 1));
        assert(b@.skip(i as int).drop_first() =~= b@.skip(i + 1));
        i = i + 1;
    }
    if i == x.len() {
        true
    } else if i == y.len() {
        false
    } else {
        x[i] < y[i]
    }
}

// ---------------------------------------------------------------------------
// Splitting
// ---------------------------------------------------------------------------

/// What separates the pieces of a text.
#[derive(Clone, Copy)]
pub enum Separator {
    /// One given character.
    Char(char),
    /// Any white-space character.
    White,
}

impl Separator {
    /// `c` separates.
    pub open spec fn separates(self, c: char) -> bool {
        match self {
            Separator::Char(d) => c == d,
            Separator::White => is_white(c),
        }
    }

    fn is(self, c: char) -> (r: bool)
        ensures
            r == self.separates(c),
    {
        match self {
            Separator::Char(d) => c == d,
            Separator::White => white(c),
        }
    }
}

/// The pieces between separators: one more than there are separators, empty
/// where two separators meet or where one stands at an end.
pub open spec fn pieces(s: Seq<char>, sep: Separator) -> Seq<Seq<char>>
    decreases s.len(),
{
    if s.len() == 0 {
        seq![Seq::<char>::empty()]
    } else {
        let before = pieces(s.drop_last(), sep);
        if sep.separates(s.last()) {
            before.push(Seq::<char>::empty())
        } else {
            before.drop_last().push(before.last().push(s.last()))
        }
    }
}

/// The pieces of `s` between separators.
pub fn split(s: &[char], sep: Separator) -> (r: Vec<Vec<char>>)
    ensures
        texts(r@) == pieces(s@, sep),
{
    let mut done: Vec<Vec<char>> = Vec::new();
    let mut cur: Vec<char> = Vec::new();
    assert(texts(done@).push(cur@) =~= pieces(s@.take(0), sep));
    for i in 0..s.len()
        invariant
            texts(done@).push(cur@) == pieces(s@.take(i as int), sep),
    {
        let ghost whole = pieces(s@.take(i as int), sep);
        assert(s@.take(i + 1).drop_last() =~= s@.take(i as int));
        assert(whole.drop_last() =~= texts(done@));
        if sep.is(s[i]) {
            let ghost old_done = done@;
            let ghost old_cur = cur@;
            done.push(cur);
            cur = Vec::new();
            assert(texts(done@) =~= texts(old_done).push(old_cur));
        } else {
            cur.push(s[i]);
        }
    }
    assert(s@.take(s@.len() as int) =~= s@);
    let ghost old_done = done@;
    let ghost old_cur = cur@;
    done.push(cur);
    assert(texts(done@) =~= texts(old_done).push(old_cur));
    done
}

/// Keeps the texts that are not empty.
pub open spec fn non_empty(v: Seq<Seq<char>>) -> Seq<Seq<char>> {
    v.filter(|t: Seq<char>| t.len() > 0)
}

/// The maximal runs of characters that are not white space.
pub open spec fn words(s: Seq<char>) -> Seq<Seq<char>> {
    non_empty(pieces(s, Separator::White))
}

/// The words of `s`, in order.
pub fn split_words(s: &[char]) -> (r: Vec<Vec<char>>)
    ensures
        texts(r@) == words(s@),
{
    let all = split(s, Separator::White);
    let mut out: Vec<Vec<char>> = Vec::new();
    let ghost keep = |t: Seq<char>| t.len() > 0;
    proof {
        reveal(Seq::filter);
    }
    assert(texts(out@) =~= texts(all@).take(0).filter(keep));
    for i in 0..all.len()
        invariant
            keep == (|t: Seq<char>| t.len() > 0),
            texts(out@) == texts(all@).take(i as int).filter(keep),
    {
        proof {
            reveal(Seq::filter);
            assert(texts(all@).take(i + 1).drop_last() =~= texts(all@).take(i as int));
        }
        if all[i].len() > 0 {
            let ghost before = out@;
            let word = copy(&all[i]);
            out.push(word);
            assert(texts(out@) =~= texts(before).push(all@[i as int]@));
        }
    }
    assert(texts(all@).take(all@.len() as int) =~= texts(all@));
    out
}

/// A copy of a character slice.
pub fn copy(s: &[char]) -> (r: Vec<char>)
    ensures
        r@ == s@,
{
    slice_of(s, 0, s.len())
}

/// The characters from position `from` up to, not including, position `to`.
pub fn slice_of(s: &[char], from: usize, to: usize) -> (r: Vec<char>)
    requires
        from <= to <= s@.len(),
    ensures
        r@ == s@.subrange(from as int, to as int),
{
    let mut out: Vec<char> = Vec::new();
    let mut i: usize = from;
    while i < to
        invariant
            from <= i <= to <= s@.len(),
            out@ =~= s@.subrange(from as int, i as int),
        decreases to - i,
    {
        out.push(s[i]);
        i = i + 1;
    }
    out
}

/// The first of the texts that begins with `p`.
pub open spec fn first_with_prefix(v: Seq<Seq<char>>, p: Seq<char>) -> Option<Seq<char>>
    decreases v.len(),
{
    if v.len() == 0 {
        None
    } else if p.is_prefix_of(v.first()) {
        Some(v.first())
    } else {
        first_with_prefix(v.drop_first(), p)
    }
}

/// A text found by [`first_with_prefix`] is one of the texts and begins with `p`.
pub proof fn lemma_first_with_prefix(v: Seq<Seq<char>>, p: Seq<char>)
    ensures
        first_with_prefix(v, p) matches Some(t) ==> p.is_prefix_of(t) && v.contains(t),
    decreases v.len(),
{
    if v.len() > 0 && !p.is_prefix_of(v.first()) {
        lemma_first_with_prefix(v.drop_first(), p);
        if let Some(t) = first_with_prefix(v.drop_first(), p) {
            let i = choose|i: int| 0 <= i < v.len() - 1 && v.drop_first()[i] == t;
            assert(v[i + 1] == t);
        }
    } else if v.len() > 0 {
        assert(v[0] == v.first());
    }
}

/// The first of the texts that begins with `p`.
pub fn find_with_prefix(v: &Vec<Vec<char>>, p: &[char]) -> (r: Option<Vec<char>>)
    ensures
        r is Some == first_with_prefix(texts(v@), p@) is Some,
        r matches Some(t) ==> first_with_prefix(texts(v@), p@) == Some(t@),
{
    assert(texts(v@).skip(0) =~= texts(v@));
    for i in 0..v.len()
        invariant
            first_with_prefix(texts(v@), p@) == first_with_prefix(texts(v@).skip(i as int), p@),
    {
        let ghost rest = texts(v@).skip(i as int);
        assert(rest.first() == v@[i as int]@);
        assert(rest.drop_first() =~= texts(v@).skip(i + 1));
        if starts_with(&v[i], p) {
            return Some(copy(&v[i]));
        }
    }
    None
}

/// The view of an optional string.
pub open spec fn opt_text(s: Option<String>) -> Option<Seq<char>> {
    match s {
        Some(t) => Some(t@),
        None => None,
    }
}

/// The text without one carriage return at its end, if one stands there.
pub open spec fn strip_cr(s: Seq<char>) -> Seq<char> {
    if s.len() > 0 && s.last() == '\r' {
        s.drop_last()
    } else {
        s
    }
}

/// The lines of a text. A line ends at a newline, and a carriage return right
/// before that newline belongs to the line ending. What follows the last
/// newline is a line unless it is empty.
pub open spec fn lines(s: Seq<char>) -> Seq<Seq<char>> {
    let ps = pieces(s, Separator::Char('\n'));
    let ended = ps.drop_last().map_values(|t: Seq<char>| strip_cr(t));
    if ps.last().len() == 0 {
        ended
    } else {
        ended.push(ps.last())
    }
}

/// A text has at least one piece.
pub proof fn lemma_pieces_nonempty(s: Seq<char>, sep: Separator)
    ensures
        pieces(s, sep).len() > 0,
    decreases s.len(),
{
    if s.len() > 0 {
        lemma_pieces_nonempty(s.drop_last(), sep);
    }
}

/// The lines of `s`, in order.
pub fn split_lines(s: &[char]) -> (r: Vec<Vec<char>>)
    ensures
        texts(r@) == lines(s@),
{
    let all = split(s, Separator::Char('\n'));
    let ghost ps = pieces(s@, Separator::Char('\n'));
    proof {
        lemma_pieces_nonempty(s@, Separator::Char('\n'));
    }
    let n: usize = all.len() - 1;
    let mut out: Vec<Vec<char>> = Vec::new();
    let ghost ended = ps.drop_last().map_values(|t: Seq<char>| strip_cr(t));
    assert(texts(out@) =~= ended.take(0));
    for i in 0..n
        invariant
            n == all@.len() - 1,
            ps == texts(all@),
            ended == ps.drop_last().map_values(|t: Seq<char>| strip_cr(t)),
            texts(out@) == ended.take(i as int),
    {
        let piece = &all[i];
        assert(piece@ == ps[i as int]);
        let len = piece.len();
        let line = if len > 0 && piece[len - 1] == '\r' {
            slice_of(piece, 0, len - 1)
        } else {
            copy(piece)
        };
        assert(line@ =~= strip_cr(piece@));
        let ghost before = out@;
        out.push(line);
        assert(texts(out@) =~= texts(before).push(line@));
        assert(ended.take(i + 1) =~= ended.take(i as int).push(ended[i as int]));
    }
    assert(ended.take(n as int) =~= ended);
    assert(ps.last() == all@[n as int]@);
    if all[n].len() > 0 {
        let line = copy(&all[n]);
        let ghost before = out@;
        out.push(line);
        assert(texts(out@) =~= texts(before).push(line@));
    }
    out
}

// ---------------------------------------------------------------------------
// Trimming
// ---------------------------------------------------------------------------

/// The text without its leading white space.
pub open spec fn trim_start(s: Seq<char>) -> Seq<char>
    decreases s.len(),
{
    if s.len() > 0 && is_white(s.first()) {
        trim_start(s.drop_first())
    } else {
        s
    }
}

/// The text without its trailing white space.
pub open spec fn trim_end(s: Seq<char>) -> Seq<char>
    decreases s.len(),
{
    if s.len() > 0 && is_white(s.last()) {
        trim_end(s.drop_last())
    } else {
        s
    }
}

/// The text without leading and trailing white space.
pub open spec fn trim(s: Seq<char>) -> Seq<char> {
    trim_end(trim_start(s))
}

/// The text without leading and trailing white space.
pub fn trimmed(s: &[char]) -> (r: Vec<char>)
    ensures
        r@ == trim(s@),
{
    let mut from: usize = 0;
    assert(s@.skip(0) =~= s@);
    while from < s.len() && white(s[from])
        invariant
            from <= s@.len(),
            trim_start(s@) == trim_start(s@.skip(from as int)),
        decreases s@.len() - from,
    {
        assert(s@.skip(from as int).drop_first() =~= s@.skip(from + 1));
        from = from + 1;
    }
    let ghost body = s@.skip(from as int);
    assert(trim_start(s@) == body);
    let mut to: usize = s.len();
    assert(s@.subrange(from as int, to as int) =~= body);
    while to > from && white(s[to - 1])
        invariant
            from <= to <= s@.len(),
            trim_end(body) == trim_end(s@.subrange(from as int, to as int)),
        decreases to,
    {
        assert(s@.subrange(from as int, to as int).drop_last() =~= s@.subrange(
            from as int,
            to - 1,
        ));
        to = to - 1;
    }
    slice_of(s, from, to)
}

/// The text after every leading copy of `p` has been taken off.
pub open spec fn strip_all(s: Seq<char>, p: Seq<char>) -> Seq<char>
    decreases s.len(),
{
    if p.len() > 0 && p.is_prefix_of(s) {
        strip_all(s.skip(p.len() as int), p)
    } else {
        s
    }
}

/// The text after every leading copy of `p` has been taken off.
pub fn stripped(s: &[char], p: &[char]) -> (r: Vec<char>)
    ensures
        r@ == strip_all(s@, p@),
{
    let mut rest = copy(s);
    while p.len() > 0 && starts_with(&rest, p)
        invariant
            strip_all(s@, p@) == strip_all(rest@, p@),
        decreases rest@.len(),
    {
        let next = slice_of(&rest, p.len(), rest.len());
        assert(next@ =~= rest@.skip(p@.len() as int));
        rest = next;
    }
    rest
}

// ---------------------------------------------------------------------------
// Joining and replacing
// ---------------------------------------------------------------------------

/// The texts one after the other, with `sep` between neighbours.
pub open spec fn join(v: Seq<Seq<char>>, sep: Seq<char>) -> Seq<char>
    decreases v.len(),
{
    if v.len() == 0 {
        Seq::empty()
    } else if v.len() == 1 {
        v[0]
    } else {
        join(v.drop_last(), sep) + sep + v.last()
    }
}

/// The strings one after the other, with `sep` between neighbours.
pub fn joined(v: &Vec<String>, sep: &str) -> (r: String)
    ensures
        r@ == join(strings(v@), sep@),
{
    let mut out = String::new();
    assert(strings(v@).take(0) =~= Seq::empty());
    for i in 0..v.len()
        invariant
            out@ == join(strings(v@).take(i as int), sep@),
    {
        assert(strings(v@).take(i + 1).drop_last() =~= strings(v@).take(i as int));
        if i > 0 {
            out.append(sep);
        }
        out.append(v[i].as_str());
        assert(out@ =~= join(strings(v@).take(i + 1), sep@));
    }
    assert(strings(v@).take(v@.len() as int) =~= strings(v@));
    out
}

/// The text with every `from` turned into `to`.
pub open spec fn replace_char(s: Seq<char>, from: char, to: char) -> Seq<char> {
    s.map_values(
        |c: char|
            if c == from {
                to
            } else {
                c
            },
    )
}

/// The text with every `from` turned into `to`.
pub fn replaced(s: &str, from: char, to: char) -> (r: String)
    ensures
        r@ == replace_char(s@, from, to),
{
    let cs = to_chars(s);
    let mut out = String::new();
    for i in 0..cs.len()
        invariant
            cs@ == s@,
            out@ == replace_char(s@, from, to).take(i as int),
    {
        out.push(
            if cs[i] == from {
                to
            } else {
                cs[i]
            },
        );
        assert(out@ =~= replace_char(s@, from, to).take(i + 1));
    }
    assert(out@ =~= replace_char(s@, from, to));
    out
}

/// The text filled up with blanks on the right to `width` characters.
pub open spec fn pad_right(s: Seq<char>, width: nat) -> Seq<char> {
    if s.len() >= width {
        s
    } else {
        s + Seq::new((width - s.len()) as nat, |i: int| ' ')
    }
}

/// The text filled up with blanks on the right to `width` characters.
pub fn padded(s: &str, width: usize) -> (r: String)
    ensures
        r@ == pad_right(s@, width as nat),
{
    let cs = to_chars(s);
    let mut out = s.to_owned();
    let mut n: usize = cs.len();
    while n < width
        invariant
            s@.len() <= n,
            n <= width || n == s@.len(),
            out@ =~= s@ + Seq::new((n - s@.len()) as nat, |i: int| ' '),
        decreases width - n,
    {
        out.push(' ');
        n = n + 1;
    }
    assert(out@ =~= pad_right(s@, width as nat));
    out
}

// ---------------------------------------------------------------------------
// Numbers
// ---------------------------------------------------------------------------

/// The digit of a value below sixteen.
pub open spec fn digit(d: int) -> char {
    if d < 10 {
        ('0' as int + d) as char
    } else {
        ('a' as int + (d - 10)) as char
    }
}

fn digit_of(d: u8) -> (r: char)
    requires
        d < 16,
    ensures
        r == digit(d as int),
{
    if d < 10 {
        (48u8 + d) as char
    } else {
        (87u8 + d) as char
    }
}

/// A number in decimal notation.
pub open spec fn decimal(n: nat) -> Seq<char>
    decreases n,
{
    if n < 10 {
        seq![digit(n as int)]
    } else {
        decimal(n / 10).push(digit((n % 10) as int))
    }
}

/// An integer in decimal notation, with a minus sign below zero.
pub open spec fn signed_decimal(n: int) -> Seq<char> {
    if n < 0 {
        seq!['-'] + decimal((-n) as nat)
    } else {
        decimal(n as nat)
    }
}

/// Appends `n` in decimal notation.
pub fn push_decimal(out: &mut String, n: u64)
    ensures
        final(out)@ == old(out)@ + decimal(n as nat),
    decreases n,
{
    if n >= 10 {
        push_decimal(out, n / 10);
    }
    out.push(digit_of((n % 10) as u8));
    assert(out@ =~= old(out)@ + decimal(n as nat));
}

/// `n` in decimal notation.
pub fn to_decimal(n: u64) -> (r: String)
    ensures
        r@ == decimal(n as nat),
{
    let mut out = String::new();
    push_decimal(&mut out, n);
    assert(out@ =~= decimal(n as nat));
    out
}

/// The `width` lowest hexadecimal digits of a number.
pub open spec fn hex(n: nat, width: nat) -> Seq<char>
    decreases width,
{
    if width == 0 {
        Seq::empty()
    } else {
        hex(n / 16, (width - 1) as nat).push(digit((n % 16) as int))
    }
}

/// Appends the `width` lowest hexadecimal digits of `n`.
pub fn push_hex(out: &mut String, n: u64, width: u8)
    ensures
        final(out)@ == old(out)@ + hex(n as nat, width as nat),
    decreases width,
{
    if width > 0 {
        push_hex(out, n / 16, width - 1);
        out.push(digit_of((n % 16) as u8));
    }
    assert(out@ =~= old(out)@ + hex(n as nat, width as nat));
}

/// The value of a hexadecimal digit of either case.
pub open spec fn hex_value(c: char) -> Option<nat> {
    if '0' <= c <= '9' {
        Some((c as int - '0' as int) as nat)
    } else if 'a' <= c <= 'f' {
        Some((c as int - 'a' as int + 10) as nat)
    } else if 'A' <= c <= 'F' {
        Some((c as int - 'A' as int + 10) as nat)
    } else {
        None
    }
}

fn hex_value_of(c: char) -> (r: Option<u64>)
    ensures
        r is Some == hex_value(c) is Some,
        r matches Some(d) ==> hex_value(c) == Some(d as nat) && d < 16,
{
    let n: u32 = c as u32;
    if '0' <= c && c <= '9' {
        Some((n - 48) as u64)
    } else if 'a' <= c && c <= 'f' {
        Some((n - 87) as u64)
    } else if 'A' <= c && c <= 'F' {
        Some((n - 55) as u64)
    } else {
        None
    }
}

/// The number that a text of hexadecimal digits denotes, `None` where another
/// character stands in it. The empty text denotes zero.
pub open spec fn hex_number(s: Seq<char>) -> Option<nat>
    decreases s.len(),
{
    if s.len() == 0 {
        Some(0)
    } else {
        match (hex_number(s.drop_last()), hex_value(s.last())) {
            (Some(n), Some(d)) => Some(n * 16 + d),
            _ => None,
        }
    }
}

/// The text without one leading plus sign.
pub open spec fn unsigned(s: Seq<char>) -> Seq<char> {
    if s.len() > 0 && s.first() == '+' {
        s.drop_first()
    } else {
        s
    }
}

/// The `u64` that a text denotes in base sixteen: digits of either case, at
/// least one, after an optional plus sign, and a value that fits.
pub open spec fn parse_hex(s: Seq<char>) -> Option<u64> {
    let digits = unsigned(s);
    match hex_number(digits) {
        Some(n) => if digits.len() > 0 && n <= u64::MAX {
            Some(n as u64)
        } else {
            None
        },
        None => None,
    }
}

/// What follows only ever makes the number larger, or undefined.
proof fn lemma_hex_prefix(s: Seq<char>, i: int)
    requires
        0 <= i <= s.len(),
    ensures
        hex_number(s) is Some ==> hex_number(s.take(i)) is Some && hex_number(s.take(i))->0
            <= hex_number(s)->0,
    decreases s.len() - i,
{
    if i < s.len() {
        lemma_hex_prefix(s, i + 1);
        assert(s.take(i + 1).drop_last() =~= s.take(i));
    } else {
        assert(s.take(i) =~= s);
    }
}

/// The `u64` that `s` denotes in base sixteen.
pub fn hex_to_u64(s: &[char]) -> (r: Option<u64>)
    ensures
        r == parse_hex(s@),
{
    let from: usize = if s.len() > 0 && s[0] == '+' {
        1
    } else {
        0
    };
    let ghost digits = s@.skip(from as int);
    assert(digits =~= unsigned(s@));
    if from == s.len() {
        return None;
    }
    let mut n: u64 = 0;
    assert(digits.take(0) =~= Seq::empty());
    for i in from..s.len()
        invariant
            from <= s@.len(),
            digits == s@.skip(from as int),
            digits == unsigned(s@),
            hex_number(digits.take(i - from)) == Some(n as nat),
    {
        let ghost k = i - from;
        assert(digits.take(k + 1).drop_last() =~= digits.take(k));
        assert(digits.take(k + 1).last() == s@[i as int]);
        proof {
            lemma_hex_prefix(digits, k + 1);
        }
        match hex_value_of(s[i]) {
            None => {
                return None;
            },
            Some(d) => {
                if n > (u64::MAX - d) / 16 {
                    assert(n * 16 + d > u64::MAX);
                    return None;
                }
                n = n * 16 + d;
            },
        }
    }
    assert(digits.take(s@.len() - from) =~= digits);
    Some(n)
}

// ---------------------------------------------------------------------------
// Paths
// ---------------------------------------------------------------------------

/// `name` below the directory `dir`, for a relative `name`.
pub open spec fn join_path(dir: Seq<char>, name: Seq<char>) -> Seq<char> {
    if dir.len() == 0 || dir.last() == '/' {
        dir + name
    } else {
        dir.push('/') + name
    }
}

/// `name` below the directory `dir`, for a relative `name`.
pub fn below(dir: &str, name: &str) -> (r: String)
    ensures
        r@ == join_path(dir@, name@),
{
    let cs = to_chars(dir);
    let mut out = dir.to_owned();
    if cs.len() > 0 && cs[cs.len() - 1] != '/' {
        out.push('/');
    }
    out.append(name);
    out
}

// ---------------------------------------------------------------------------
// Laws
// ---------------------------------------------------------------------------

/// No piece holds a separator.
pub proof fn law_pieces_clean(s: Seq<char>, sep: Separator, i: int, j: int)
    requires
        0 <= i < pieces(s, sep).len(),
        0 <= j < pieces(s, sep)[i].len(),
    ensures
        !sep.separates(pieces(s, sep)[i][j]),
    decreases s.len(),
{
    if s.len() > 0 {
        let before = pieces(s.drop_last(), sep);
        lemma_pieces_nonempty(s.drop_last(), sep);
        let last = before.len() - 1;
        if sep.separates(s.last()) {
            if i < before.len() {
                law_pieces_clean(s.drop_last(), sep, i, j);
            }
        } else if i < last || j < before.last().len() {
            law_pieces_clean(s.drop_last(), sep, i, j);
        }
    }
}

/// The pieces between the copies of a character, joined by it, are the text.
pub proof fn law_pieces_rejoin(s: Seq<char>, c: char)
    ensures
        join(pieces(s, Separator::Char(c)), seq![c]) == s,
    decreases s.len(),
{
    let sep = Separator::Char(c);
    if s.len() > 0 {
        let before = pieces(s.drop_last(), sep);
        let all = pieces(s, sep);
        law_pieces_rejoin(s.drop_last(), c);
        lemma_pieces_nonempty(s.drop_last(), sep);
        assert(s =~= s.drop_last().push(s.last()));
        if s.last() == c {
            assert(all.drop_last() =~= before);
            assert(join(all, seq![c]) =~= s.drop_last() + seq![c] + Seq::<char>::empty());
        } else {
            assert(all.drop_last() =~= before.drop_last());
            if before.len() > 1 {
                assert(join(all, seq![c]) =~= join(before, seq![c]).push(s.last()));
            } else {
                assert(all =~= seq![before[0].push(s.last())]);
            }
        }
    }
}

/// Words are not empty and hold no white space.
pub proof fn law_words_clean(s: Seq<char>, i: int, j: int)
    requires
        0 <= i < words(s).len(),
    ensures
        words(s)[i].len() > 0,
        0 <= j < words(s)[i].len() ==> !is_white(words(s)[i][j]),
{
    let all = pieces(s, Separator::White);
    let keep = |t: Seq<char>| t.len() > 0;
    all.lemma_filter_contains_rev(keep, words(s)[i]);
    let k = choose|k: int| 0 <= k < all.len() && all[k] == words(s)[i];
    all.lemma_filter_pred(keep, i);
    if 0 <= j < words(s)[i].len() {
        law_pieces_clean(s, Separator::White, k, j);
    }
}

/// A trimmed text neither begins nor ends with white space.
pub proof fn law_trim_clean(s: Seq<char>)
    ensures
        trim(s).len() > 0 ==> !is_white(trim(s).first()) && !is_white(trim(s).last()),
{
    lemma_trim_start_clean(s);
    lemma_trim_end_clean(trim_start(s));
}

proof fn lemma_trim_start_clean(s: Seq<char>)
    ensures
        trim_start(s).len() > 0 ==> !is_white(trim_start(s).first()),
    decreases s.len(),
{
    if s.len() > 0 && is_white(s.first()) {
        lemma_trim_start_clean(s.drop_first());
    }
}

proof fn lemma_trim_end_clean(s: Seq<char>)
    ensures
        trim_end(s).len() > 0 ==> !is_white(trim_end(s).last()) && trim_end(s).first()
            == s.first(),
    decreases s.len(),
{
    if s.len() > 0 && is_white(s.last()) {
        lemma_trim_end_clean(s.drop_last());
    }
}

/// Different numbers have different decimal notations.
pub proof fn law_decimal_injective(a: nat, b: nat)
    requires
        decimal(a) == decimal(b),
    ensures
        a == b,
    decreases a,
{
    lemma_digit_injective((a % 10) as int, (b % 10) as int);
    lemma_decimal_len(a / 10);
    lemma_decimal_len(b / 10);
    assert(decimal(a).last() == digit((a % 10) as int));
    assert(decimal(b).last() == digit((b % 10) as int));
    if a >= 10 && b >= 10 {
        assert(decimal(a).drop_last() =~= decimal(a / 10));
        assert(decimal(b).drop_last() =~= decimal(b / 10));
        law_decimal_injective(a / 10, b / 10);
    }
}

proof fn lemma_decimal_len(n: nat)
    ensures
        decimal(n).len() > 0,
        decimal(n).first() != '-',
    decreases n,
{
    if n >= 10 {
        lemma_decimal_len(n / 10);
    }
}

proof fn lemma_digit_injective(a: int, b: int)
    requires
        0 <= a < 10,
        0 <= b < 10,
    ensures
        digit(a) == digit(b) ==> a == b,
{
}

/// Different integers have different decimal notations.
pub proof fn law_signed_decimal_injective(a: int, b: int)
    requires
        signed_decimal(a) == signed_decimal(b),
    ensures
        a == b,
{
    let x = if a < 0 { (-a) as nat } else { a as nat };
    let y = if b < 0 { (-b) as nat } else { b as nat };
    lemma_decimal_len(x);
    lemma_decimal_len(y);
    if a < 0 && b < 0 {
        assert(decimal(x) =~= signed_decimal(a).drop_first());
        assert(decimal(y) =~= signed_decimal(b).drop_first());
    }
    assert(signed_decimal(a).first() == signed_decimal(b).first());
    law_decimal_injective(x, y);
}

/// An ascending listing of a set of names is the only one.
pub proof fn law_listing_unique(a: Seq<Seq<char>>, b: Seq<Seq<char>>, of: Set<Seq<char>>)
    requires
        ascending_listing(a, of),
        ascending_listing(b, of),
    ensures
        a == b,
{
    lemma_listing_prefix(a, b, of, a.len() as int);
    lemma_listing_prefix(b, a, of, b.len() as int);
    assert(a =~= b);
}

/// The first `n` names of one listing are the first `n` names of the other.
proof fn lemma_listing_prefix(a: Seq<Seq<char>>, b: Seq<Seq<char>>, of: Set<Seq<char>>, n: int)
    requires
        ascending_listing(a, of),
        ascending_listing(b, of),
        0 <= n <= a.len(),
    ensures
        n <= b.len(),
        forall|i: int| 0 <= i < n ==> a[i] == b[i],
    decreases n,
{
    if n > 0 {
        let k = n - 1;
        lemma_listing_prefix(a, b, of, k);
        assert(a.contains(a[k]));
        assert(of.contains(a[k]) && b.contains(a[k]));
        let p = choose|p: int| 0 <= p < b.len() && b[p] == a[k];
        if p < k {
            assert(a[p] == b[p]);
            assert(a[p] != a[k]);
        }
        assert(k < b.len());
        assert(b.contains(b[k]));
        assert(of.contains(b[k]) && a.contains(b[k]));
        let q = choose|q: int| 0 <= q < a.len() && a[q] == b[k];
        if q < k {
            assert(b[q] == a[q]);
            assert(b[q] != b[k]);
        }
        if p > k {
            assert(lex_le(b[k], b[p]) && b[k] != b[p]);
            if q > k {
                assert(lex_le(a[k], a[q]));
                lemma_lex_antisymmetric(a[k], b[k]);
            }
        }
    }
}

/// Sixteen hexadecimal digits denote the number they were written for.
pub proof fn law_hex_round_trip(n: u64)
    ensures
        parse_hex(hex(n as nat, 16)) == Some(n),
{
    lemma_hex_value(n as nat, 16);
    assert(hex_range(16) == 0x1_0000_0000_0000_0000) by {
        reveal_with_fuel(hex_range, 17);
    }
    let s = hex(n as nat, 16);
    lemma_hex_digits(n as nat, 16, 0);
    assert(unsigned(s) == s);
}

/// How many numbers `width` hexadecimal digits can denote.
pub open spec fn hex_range(width: nat) -> nat
    decreases width,
{
    if width == 0 {
        1
    } else {
        16 * hex_range((width - 1) as nat)
    }
}

proof fn lemma_digit_value(d: nat)
    requires
        d < 16,
    ensures
        hex_value(digit(d as int)) == Some(d),
        digit(d as int) != '+',
{
}

proof fn lemma_hex_digits(n: nat, width: nat, i: int)
    requires
        0 <= i < width,
    ensures
        hex(n, width).len() == width,
        hex(n, width)[i] != '+',
    decreases width,
{
    lemma_digit_value(n % 16);
    if width > 1 {
        lemma_hex_digits(n / 16, (width - 1) as nat, if i < width - 1 { i } else { 0 });
    } else {
        assert(hex(n / 16, 0).len() == 0);
    }
}

proof fn lemma_hex_value(n: nat, width: nat)
    ensures
        n < hex_range(width) ==> hex_number(hex(n, width)) == Some(n),
    decreases width,
{
    if width > 0 {
        let rest = hex(n / 16, (width - 1) as nat);
        lemma_hex_value(n / 16, (width - 1) as nat);
        lemma_digit_value(n % 16);
        assert(hex(n, width).drop_last() =~= rest);
    }
}

} // verus!
