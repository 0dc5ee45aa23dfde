//! Plain-text helpers: the string operations that the parsers and the
//! formatters are stated over, each on sequences of characters.

use vstd::prelude::*;

verus! {

// --- strings and vectors of characters ---------------------------------------

/// Trusted: `String::push` of the standard library. It appends one character
/// to the end and leaves the rest as it was.
pub assume_specification[ String::push ](s: &mut String, c: char)
    ensures
        final(s)@ == old(s)@.push(c),
;

/// The characters of `s`, in order.
pub fn chars_of(s: &str) -> (r: Vec<char>)
    ensures
        r@ == s@,
{
    let mut v: Vec<char> = Vec::new();
    for c in it: s.chars()
        invariant
            v@ == it.seq().take(it.index()),
            it.seq() == s@,
    {
        v.push(c);
        assert(it.seq().take(it.index() + 1) == it.seq().take(it.index()).push(c));
    }
    assert(s@.take(s@.len() as int) == s@);
    v
}

/// The string made of the characters `v`.
pub fn string_of(v: &Vec<char>) -> (r: String)
    ensures
        r@ == v@,
{
    let mut s = String::new();
    for i in 0..v.len()
        invariant
            s@ == v@.take(i as int),
    {
        s.push(v[i]);
        assert(v@.take(i + 1) == v@.take(i as int).push(v@[i as int]));
    }
    assert(v@.take(v@.len() as int) == v@);
    s
}

/// The characters of `v` from `from` up to (not including) `to`.
pub fn slice_of(v: &Vec<char>, from: usize, to: usize) -> (r: Vec<char>)
    requires
        from <= to <= v@.len(),
    ensures
        r@ == v@.subrange(from as int, to as int),
{
    let mut out: Vec<char> = Vec::new();
    let mut i: usize = from;
    while i < to
        invariant
            from <= i <= to <= v@.len(),
            out@ == v@.subrange(from as int, i as int),
        decreases to - i,
    {
        out.push(v[i]);
        assert(v@.subrange(from as int, i + 1) == v@.subrange(from as int, i as int).push(
            v@[i as int],
        ));
        i += 1;
    }
    out
}

/// A copy of an optional string.
pub fn copy_option(o: &Option<String>) -> (r: Option<String>)
    ensures
        r == *o,
{
    match o {
        Some(s) => Some(s.clone()),
        None => None,
    }
}

/// The texts that a vector of character vectors holds.
pub open spec fn texts(v: Seq<Vec<char>>) -> Seq<Seq<char>> {
    v.map_values(|x: Vec<char>| x@)
}

/// The texts that a vector of strings holds.
pub open spec fn strings(v: Seq<String>) -> Seq<Seq<char>> {
    v.map_values(|s: String| s@)
}

/// The texts that a vector of pairs of strings holds.
pub open spec fn string_pairs(v: Seq<(String, String)>) -> Seq<(Seq<char>, Seq<char>)> {
    v.map_values(|p: (String, String)| (p.0@, p.1@))
}

/// The text of an optional string.
pub open spec fn text_of(o: Option<String>) -> Option<Seq<char>> {
    match o {
        Some(s) => Some(s@),
        None => None,
    }
}

/// Whether two character vectors hold the same text.
pub fn same_chars(a: &Vec<char>, b: &Vec<char>) -> (r: bool)
    ensures
        r == (a@ == b@),
{
    if a.len() != b.len() {
        return false;
    }
    for i in 0..a.len()
        invariant
            a@.len() == b@.len(),
            forall|j: int| 0 <= j < i ==> a@[j] == b@[j],
    {
        if a[i] != b[i] {
            return false;
        }
    }
    assert(a@ == b@);
    true
}

/// Whether `a` comes before `b`: the order of the first characters that differ, a
/// text before every longer one that begins with it.
pub open spec fn before(a: Seq<char>, b: Seq<char>) -> bool
    decreases a.len(),
{
    if b.len() == 0 {
        false
    } else if a.len() == 0 {
        true
    } else if a[0] != b[0] {
        a[0] < b[0]
    } else {
        before(a.drop_first(), b.drop_first())
    }
}

/// Of two texts at most one comes before the other.
pub proof fn lemma_before_one_way(a: Seq<char>, b: Seq<char>)
    requires
        before(a, b),
    ensures
        !before(b, a),
    decreases a.len(),
{
    if a.len() > 0 && a[0] == b[0] {
        lemma_before_one_way(a.drop_first(), b.drop_first());
    }
}

/// "Not before" carries over: from `a` to `b` and from `b` to `c`, so from `a` to
/// `c`.
pub proof fn lemma_not_before_chain(a: Seq<char>, b: Seq<char>, c: Seq<char>)
    requires
        !before(a, b),
        !before(b, c),
    ensures
        !before(a, c),
    decreases a.len(),
{
    if a.len() > 0 && b.len() > 0 && c.len() > 0 && a[0] == b[0] && b[0] == c[0] {
        lemma_not_before_chain(a.drop_first(), b.drop_first(), c.drop_first());
    }
}

/// Whether the text of `x` comes before that of `y`.
pub fn chars_before(x: &Vec<char>, y: &Vec<char>) -> (r: bool)
    ensures
        r == before(x@, y@),
{
    let mut i: usize = 0;
    assert(x@.skip(0) == x@ && y@.skip(0) == y@);
    while i < x.len() && i < y.len()
        invariant
            i <= x@.len(),
            i <= y@.len(),
            before(x@, y@) == before(x@.skip(i as int), y@.skip(i as int)),
        decreases x@.len() - i,
    {
        if x[i] != y[i] {
            return x[i] < y[i];
        }
        assert(x@.skip(i as int).drop_first() == x@.skip(i + 1));
        assert(y@.skip(i as int).drop_first() == y@.skip(i + 1));
        i += 1;
    }
    i < y.len()
}

/// Whether the text of `a` comes before that of `b`.
pub fn is_before(a: &str, b: &str) -> (r: bool)
    ensures
        r == before(a@, b@),
{
    let x = chars_of(a);
    let y = chars_of(b);
    chars_before(&x, &y)
}

/// Whether two strings hold the same text.
pub fn same(a: &str, b: &str) -> (r: bool)
    ensures
        r == (a@ == b@),
{
    let x = chars_of(a);
    let y = chars_of(b);
    same_chars(&x, &y)
}

/// Whether the characters `v` spell `word`.
pub fn spells(v: &Vec<char>, word: &str) -> (r: bool)
    ensures
        r == (v@ == word@),
{
    let w = chars_of(word);
    same_chars(v, &w)
}

/// One text after the other.
pub fn join2(a: &str, b: &str) -> (r: String)
    ensures
        r@ == a@ + b@,
{
    let mut s = a.to_owned();
    s.append(b);
    s
}

/// Three texts, one after the other.
pub fn join3(a: &str, b: &str, c: &str) -> (r: String)
    ensures
        r@ == a@ + b@ + c@,
{
    let mut s = a.to_owned();
    s.append(b);
    s.append(c);
    s
}

// --- letter case -------------------------------------------------------------

/// `c` with an ASCII capital made small; every other character as it is.
pub open spec fn lower_char(c: char) -> char {
    if 'A' <= c <= 'Z' {
        (c as u32 + 32) as char
    } else {
        c
    }
}

/// `c` with a small ASCII letter made a capital; every other character as it is.
pub open spec fn upper_char(c: char) -> char {
    if 'a' <= c <= 'z' {
        (c as u32 - 32) as char
    } else {
        c
    }
}

/// `s` with its ASCII capitals made small.
pub open spec fn lower(s: Seq<char>) -> Seq<char> {
    s.map_values(|c: char| lower_char(c))
}

/// `s` with its small ASCII letters made capitals.
pub open spec fn upper(s: Seq<char>) -> Seq<char> {
    s.map_values(|c: char| upper_char(c))
}

/// Whether two texts differ at most in the case of ASCII letters.
pub open spec fn same_letters(a: Seq<char>, b: Seq<char>) -> bool {
    lower(a) == lower(b)
}

pub fn to_lower_char(c: char) -> (r: char)
    ensures
        r == lower_char(c),
{
    if 'A' <= c && c <= 'Z' {
        ((c as u8) + 32) as char
    } else {
        c
    }
}

pub fn to_upper_char(c: char) -> (r: char)
    ensures
        r == upper_char(c),
{
    if 'a' <= c && c <= 'z' {
        ((c as u8) - 32) as char
    } else {
        c
    }
}

/// The ASCII-lowercase form of `v`.
pub fn to_lower(v: &Vec<char>) -> (r: Vec<char>)
    ensures
        r@ == lower(v@),
{
    let mut out: Vec<char> = Vec::new();
    for i in 0..v.len()
        invariant
            out@ == lower(v@.take(i as int)),
    {
        out.push(to_lower_char(v[i]));
        assert(lower(v@.take(i + 1)) == lower(v@.take(i as int)).push(lower_char(v@[i as int])));
    }
    assert(v@.take(v@.len() as int) == v@);
    out
}

/// The ASCII-uppercase form of `v`.
pub fn to_upper(v: &Vec<char>) -> (r: Vec<char>)
    ensures
        r@ == upper(v@),
{
    let mut out: Vec<char> = Vec::new();
    for i in 0..v.len()
        invariant
            out@ == upper(v@.take(i as int)),
    {
        out.push(to_upper_char(v[i]));
        assert(upper(v@.take(i + 1)) == upper(v@.take(i as int)).push(upper_char(v@[i as int])));
    }
    assert(v@.take(v@.len() as int) == v@);
    out
}

/// Whether `v` spells `word`, whatever the case of the ASCII letters.
pub fn spells_any_case(v: &Vec<char>, word: &str) -> (r: bool)
    ensures
        r == same_letters(v@, word@),
{
    let w = chars_of(word);
    let x = to_lower(v);
    let y = to_lower(&w);
    same_chars(&x, &y)
}

// --- searching ---------------------------------------------------------------

/// Whether `word` stands in `s` at position `i`.
pub open spec fn stands_at(s: Seq<char>, i: int, word: Seq<char>) -> bool {
    0 <= i <= s.len() - word.len() && s.subrange(i, i + word.len()) == word
}

/// Whether `word` stands somewhere in `s`.
pub open spec fn has(s: Seq<char>, word: Seq<char>) -> bool {
    exists|i: int| stands_at(s, i, word)
}

/// Whether `word` stands somewhere in `v`.
pub fn contains(v: &Vec<char>, word: &str) -> (r: bool)
    ensures
        r == has(v@, word@),
{
    let w = chars_of(word);
    if w.len() > v.len() {
        return false;
    }
    let last: usize = v.len() - w.len();
    let mut i: usize = 0;
    while i <= last
        invariant
            w@ == word@,
            last + w@.len() <= usize::MAX,
            last == v@.len() - w@.len(),
            i <= last + 1,
            forall|j: int| 0 <= j < i ==> !stands_at(v@, j, w@),
        decreases last + 1 - i,
    {
        let piece = slice_of(v, i, i + w.len());
        if same_chars(&piece, &w) {
            assert(stands_at(v@, i as int, w@));
            return true;
        }
        if i == last {
            assert(forall|j: int| !stands_at(v@, j, w@));
            return false;
        }
        i += 1;
    }
    false
}

/// The position of the first character of `s` that `p` holds of, or `s.len()`.
pub open spec fn find(s: Seq<char>, p: spec_fn(char) -> bool) -> int
    decreases s.len(),
{
    if s.len() == 0 {
        0
    } else if p(s[0]) {
        0
    } else {
        1 + find(s.drop_first(), p)
    }
}

/// `find` by its defining property.
pub proof fn lemma_find(s: Seq<char>, p: spec_fn(char) -> bool, i: int)
    requires
        0 <= i <= s.len(),
        forall|j: int| 0 <= j < i ==> !p(#[trigger] s[j]),
        i == s.len() || p(s[i]),
    ensures
        find(s, p) == i,
    decreases s.len(),
{
    if s.len() > 0 && i > 0 {
        assert(forall|j: int| 0 <= j < s.len() - 1 ==> s.drop_first()[j] == s[j + 1]);
        lemma_find(s.drop_first(), p, i - 1);
    }
}

// --- white space -------------------------------------------------------------

/// The characters with the Unicode property `White_Space`.
pub open spec fn is_white(c: char) -> bool {
    ||| '\u{9}' <= c <= '\u{d}'
    ||| c == ' '
    ||| c == '\u{85}'
    ||| c == '\u{a0}'
    ||| c == '\u{1680}'
    ||| '\u{2000}' <= c <= '\u{200a}'
    ||| c == '\u{2028}'
    ||| c == '\u{2029}'
    ||| c == '\u{202f}'
    ||| c == '\u{205f}'
    ||| c == '\u{3000}'
}

pub open spec fn white() -> spec_fn(char) -> bool {
    |c: char| is_white(c)
}

pub open spec fn not_white() -> spec_fn(char) -> bool {
    |c: char| !is_white(c)
}

/// Whether `c` is white space.
pub fn is_space(c: char) -> (r: bool)
    ensures
        r == is_white(c),
{
    ('\u{9}' <= c && c <= '\u{d}') || c == ' ' || c == '\u{85}' || c == '\u{a0}' || c == '\u{1680}'
        || ('\u{2000}' <= c && c <= '\u{200a}') || c == '\u{2028}' || c == '\u{2029}' || c
        == '\u{202f}' || c == '\u{205f}' || c == '\u{3000}'
}

/// `s` without the white space in front.
pub open spec fn trim_start(s: Seq<char>) -> Seq<char> {
    s.skip(find(s, not_white()))
}

/// `s` without the white space behind.
pub open spec fn trim_end(s: Seq<char>) -> Seq<char>
    decreases s.len(),
{
    if s.len() > 0 && is_white(s.last()) {
        trim_end(s.drop_last())
    } else {
        s
    }
}

/// `s` without the white space in front and behind.
pub open spec fn trim(s: Seq<char>) -> Seq<char> {
    trim_end(trim_start(s))
}

/// `trim_end` by its defining property.
pub proof fn lemma_trim_end(s: Seq<char>, n: int)
    requires
        0 <= n <= s.len(),
        forall|j: int| n <= j < s.len() ==> is_white(#[trigger] s[j]),
        n == 0 || !is_white(s[n - 1]),
    ensures
        trim_end(s) == s.take(n),
    decreases s.len(),
{
    if n < s.len() {
        lemma_trim_end(s.drop_last(), n);
        assert(s.drop_last().take(n) == s.take(n));
    } else {
        assert(s.take(n) == s);
    }
}

/// `v` without the white space in front and behind.
pub fn trimmed(v: &Vec<char>) -> (r: Vec<char>)
    ensures
        r@ == trim(v@),
{
    let mut a: usize = 0;
    while a < v.len() && is_space(v[a])
        invariant
            a <= v@.len(),
            forall|j: int| 0 <= j < a ==> is_white(#[trigger] v@[j]),
        decreases v@.len() - a,
    {
        a += 1;
    }
    proof {
        lemma_find(v@, not_white(), a as int);
    }
    let mut b: usize = v.len();
    while b > a && is_space(v[b - 1])
        invariant
            a <= b <= v@.len(),
            forall|j: int| b <= j < v@.len() ==> is_white(#[trigger] v@[j]),
        decreases b,
    {
        b -= 1;
    }
    proof {
        let t = trim_start(v@);
        assert(t == v@.skip(a as int));
        lemma_trim_end(t, b - a);
        assert(t.take(b - a) == v@.subrange(a as int, b as int));
    }
    slice_of(v, a, b)
}

// --- splitting ---------------------------------------------------------------

pub open spec fn equals(c: char) -> spec_fn(char) -> bool {
    |x: char| x == c
}

/// The parts of `s` between the separators `c`; a text without one is its own
/// only part.
pub open spec fn split(s: Seq<char>, c: char) -> Seq<Seq<char>>
    decreases s.len(),
{
    let i = find(s, equals(c));
    if 0 <= i < s.len() {
        seq![s.take(i)] + split(s.skip(i + 1), c)
    } else {
        seq![s]
    }
}

/// A line without the carriage return that belongs to its line ending.
pub open spec fn without_return(s: Seq<char>) -> Seq<char> {
    if s.len() > 0 && s.last() == '\r' {
        s.drop_last()
    } else {
        s
    }
}

/// The lines of `s`. Each ends with `\n` or `\r\n`, which is left out; the last
/// one need not have an ending.
pub open spec fn lines(s: Seq<char>) -> Seq<Seq<char>>
    decreases s.len(),
{
    let i = find(s, equals('\n'));
    if s.len() == 0 {
        seq![]
    } else if 0 <= i < s.len() {
        seq![without_return(s.take(i))] + lines(s.skip(i + 1))
    } else {
        seq![s]
    }
}

/// The words of `s`: its longest stretches without white space.
pub open spec fn words(s: Seq<char>) -> Seq<Seq<char>>
    decreases s.len(),
{
    let i = find(s, white());
    if s.len() == 0 {
        seq![]
    } else if 0 < i <= s.len() {
        seq![s.take(i)] + words(s.skip(i))
    } else {
        words(s.drop_first())
    }
}

/// The parts before and behind the first `c`, if there is one.
pub open spec fn split_once(s: Seq<char>, c: char) -> Option<(Seq<char>, Seq<char>)> {
    let i = find(s, equals(c));
    if i < s.len() {
        Some((s.take(i), s.skip(i + 1)))
    } else {
        None
    }
}

/// The parts with `sep` between each two.
pub open spec fn joined(parts: Seq<Seq<char>>, sep: Seq<char>) -> Seq<char>
    decreases parts.len(),
{
    if parts.len() == 0 {
        seq![]
    } else if parts.len() == 1 {
        parts[0]
    } else {
        joined(parts.drop_last(), sep) + sep + parts.last()
    }
}

/// Where a piece without a `p` meets a character that `p` holds of.
pub proof fn lemma_find_after(cur: Seq<char>, c: char, rest: Seq<char>, p: spec_fn(char) -> bool)
    requires
        forall|j: int| 0 <= j < cur.len() ==> !p(#[trigger] cur[j]),
        p(c),
    ensures
        find(cur + seq![c] + rest, p) == cur.len(),
        (cur + seq![c] + rest).take(cur.len() as int) == cur,
        (cur + seq![c] + rest).skip(cur.len() as int + 1) == rest,
        (cur + seq![c] + rest).skip(cur.len() as int) == seq![c] + rest,
{
    let s = cur + seq![c] + rest;
    assert(forall|j: int| 0 <= j < cur.len() ==> s[j] == cur[j]);
    assert(s[cur.len() as int] == c);
    lemma_find(s, p, cur.len() as int);
    assert(s.take(cur.len() as int) == cur);
    assert(s.skip(cur.len() as int + 1) == rest);
    assert(s.skip(cur.len() as int) == seq![c] + rest);
}

/// What stays the same when one more piece has been set apart.
proof fn lemma_one_more(done: Seq<Vec<char>>, piece: Vec<char>, rest: Seq<Seq<char>>)
    ensures
        texts(done.push(piece)) + rest == texts(done) + (seq![piece@] + rest),
{
    assert(texts(done.push(piece)) == texts(done).push(piece@));
    assert(texts(done).push(piece@) + rest == texts(done) + (seq![piece@] + rest));
}

/// The parts of `v` between the separators `c`.
pub fn split_at(v: &Vec<char>, c: char) -> (r: Vec<Vec<char>>)
    ensures
        texts(r@) == split(v@, c),
{
    let mut out: Vec<Vec<char>> = Vec::new();
    let mut cur: Vec<char> = Vec::new();
    assert(texts(out@) + split(cur@ + v@.skip(0), c) == split(v@, c)) by {
        assert(cur@ + v@.skip(0) == v@);
        assert(texts(out@) + split(v@, c) == split(v@, c));
    }
    for i in 0..v.len()
        invariant
            texts(out@) + split(cur@ + v@.skip(i as int), c) == split(v@, c),
            forall|j: int| 0 <= j < cur@.len() ==> cur@[j] != c,
    {
        let x = v[i];
        let ghost rest = v@.skip(i + 1);
        assert(v@.skip(i as int) == seq![x] + rest);
        if x == c {
            proof {
                assert(cur@ + v@.skip(i as int) == cur@ + seq![c] + rest);
                lemma_find_after(cur@, c, rest, equals(c));
                lemma_one_more(out@, cur, split(rest, c));
            }
            out.push(cur);
            cur = Vec::new();
            assert(cur@ + rest == rest);
        } else {
            assert(cur@ + v@.skip(i as int) == cur@.push(x) + rest);
            cur.push(x);
        }
    }
    proof {
        assert(cur@ + v@.skip(v@.len() as int) == cur@);
        lemma_find(cur@, equals(c), cur@.len() as int);
        lemma_one_more(out@, cur, seq![]);
        assert(seq![cur@] + Seq::<Seq<char>>::empty() == seq![cur@]);
    }
    out.push(cur);
    assert(texts(out@) + Seq::<Seq<char>>::empty() == texts(out@));
    out
}

/// `v` without a carriage return at its end.
fn drop_return(v: Vec<char>) -> (r: Vec<char>)
    ensures
        r@ == without_return(v@),
{
    let mut v = v;
    if v.len() > 0 && v[v.len() - 1] == '\r' {
        v.pop();
    }
    v
}

/// The lines of `v`.
pub fn lines_of(v: &Vec<char>) -> (r: Vec<Vec<char>>)
    ensures
        texts(r@) == lines(v@),
{
    let mut out: Vec<Vec<char>> = Vec::new();
    let mut cur: Vec<char> = Vec::new();
    assert(texts(out@) + lines(cur@ + v@.skip(0)) == lines(v@)) by {
        assert(cur@ + v@.skip(0) == v@);
        assert(texts(out@) + lines(v@) == lines(v@));
    }
    for i in 0..v.len()
        invariant
            texts(out@) + lines(cur@ + v@.skip(i as int)) == lines(v@),
            forall|j: int| 0 <= j < cur@.len() ==> cur@[j] != '\n',
    {
        let x = v[i];
        let ghost rest = v@.skip(i + 1);
        assert(v@.skip(i as int) == seq![x] + rest);
        if x == '\n' {
            proof {
                assert(cur@ + v@.skip(i as int) == cur@ + seq!['\n'] + rest);
                lemma_find_after(cur@, '\n', rest, equals('\n'));
            }
            let line = drop_return(cur);
            proof {
                lemma_one_more(out@, line, lines(rest));
            }
            out.push(line);
            cur = Vec::new();
            assert(cur@ + rest == rest);
        } else {
            assert(cur@ + v@.skip(i as int) == cur@.push(x) + rest);
            cur.push(x);
        }
    }
    proof {
        assert(cur@ + v@.skip(v@.len() as int) == cur@);
        lemma_find(cur@, equals('\n'), cur@.len() as int);
        lemma_one_more(out@, cur, seq![]);
        assert(seq![cur@] + Seq::<Seq<char>>::empty() == seq![cur@]);
    }
    if cur.len() > 0 {
        out.push(cur);
    }
    assert(texts(out@) + Seq::<Seq<char>>::empty() == texts(out@));
    out
}

/// White space in front does not change the words.
pub proof fn lemma_words_skip(c: char, rest: Seq<char>)
    requires
        is_white(c),
    ensures
        words(seq![c] + rest) == words(rest),
{
    let s = seq![c] + rest;
    assert(s[0] == c);
    lemma_find(s, white(), 0);
    assert(s.drop_first() == rest);
}

/// The words of `v`.
pub fn words_of(v: &Vec<char>) -> (r: Vec<Vec<char>>)
    ensures
        texts(r@) == words(v@),
{
    let mut out: Vec<Vec<char>> = Vec::new();
    let mut cur: Vec<char> = Vec::new();
    assert(texts(out@) + words(cur@ + v@.skip(0)) == words(v@)) by {
        assert(cur@ + v@.skip(0) == v@);
        assert(texts(out@) + words(v@) == words(v@));
    }
    for i in 0..v.len()
        invariant
            texts(out@) + words(cur@ + v@.skip(i as int)) == words(v@),
            forall|j: int| 0 <= j < cur@.len() ==> !is_white(#[trigger] cur@[j]),
    {
        let x = v[i];
        let ghost rest = v@.skip(i + 1);
        assert(v@.skip(i as int) == seq![x] + rest);
        if is_space(x) {
            proof {
                lemma_words_skip(x, rest);
            }
            if cur.len() > 0 {
                proof {
                    assert(cur@ + v@.skip(i as int) == cur@ + seq![x] + rest);
                    lemma_find_after(cur@, x, rest, white());
                    lemma_one_more(out@, cur, words(rest));
                }
                out.push(cur);
                cur = Vec::new();
            } else {
                assert(cur@ + v@.skip(i as int) == seq![x] + rest);
            }
            assert(cur@ + rest == rest);
        } else {
            assert(cur@ + v@.skip(i as int) == cur@.push(x) + rest);
            cur.push(x);
        }
    }
    proof {
        assert(cur@ + v@.skip(v@.len() as int) == cur@);
        lemma_find(cur@, white(), cur@.len() as int);
        assert(cur@.take(cur@.len() as int) == cur@);
        assert(cur@.skip(cur@.len() as int) == Seq::<char>::empty());
        assert(words(Seq::<char>::empty()) == Seq::<Seq<char>>::empty());
        lemma_one_more(out@, cur, seq![]);
        assert(seq![cur@] + Seq::<Seq<char>>::empty() == seq![cur@]);
    }
    if cur.len() > 0 {
        out.push(cur);
    }
    assert(texts(out@) + Seq::<Seq<char>>::empty() == texts(out@));
    out
}

/// The parts before and behind the first `c`, if there is one.
pub fn halves(v: &Vec<char>, c: char) -> (r: Option<(Vec<char>, Vec<char>)>)
    ensures
        match r {
            Some(p) => split_once(v@, c) == Some((p.0@, p.1@)),
            None => split_once(v@, c) is None,
        },
{
    let mut i: usize = 0;
    while i < v.len() && v[i] != c
        invariant
            i <= v@.len(),
            forall|j: int| 0 <= j < i ==> v@[j] != c,
        decreases v@.len() - i,
    {
        i += 1;
    }
    proof {
        lemma_find(v@, equals(c), i as int);
    }
    if i < v.len() {
        let front = slice_of(v, 0, i);
        let back = slice_of(v, i + 1, v.len());
        assert(front@ == v@.take(i as int));
        assert(back@ == v@.skip(i + 1));
        Some((front, back))
    } else {
        None
    }
}

/// The parts `v[from..]` with a blank between each two.
pub fn join_words(v: &Vec<Vec<char>>, from: usize) -> (r: String)
    requires
        from <= v@.len(),
    ensures
        r@ == joined(texts(v@).skip(from as int), " "@),
{
    let mut s = String::new();
    let ghost all = texts(v@).skip(from as int);
    let mut i: usize = from;
    while i < v.len()
        invariant
            from <= i <= v@.len(),
            all == texts(v@).skip(from as int),
            s@ == joined(all.take(i - from), " "@),
        decreases v@.len() - i,
    {
        if i > from {
            s.append(" ");
        }
        let part = string_of(&v[i]);
        s.append(part.as_str());
        proof {
            let k = i - from;
            assert(all.take(k + 1).drop_last() == all.take(k));
            assert(all.take(k + 1).last() == v@[i as int]@);
            if k == 0 {
                assert(s@ == part@);
            }
        }
        i += 1;
    }
    assert(all.take(all.len() as int) == all);
    s
}

// --- numbers -----------------------------------------------------------------

/// The digit `d`, from `0` to `9` and on to `a` to `f`.
pub open spec fn digit(d: nat) -> char {
    if d < 10 {
        (d + 48) as char
    } else {
        (d + 87) as char
    }
}

/// `n` written in the base `b`.
pub open spec fn numeral(n: nat, b: nat) -> Seq<char>
    decreases n,
{
    if b < 2 || n < b {
        seq![digit(n)]
    } else {
        proof {
            assert(n / b < n) by (nonlinear_arith)
                requires
                    n > 0,
                    b >= 2,
            ;
        }
        numeral(n / b, b).push(digit(n % b))
    }
}

/// `n` written in decimal.
pub open spec fn decimal(n: nat) -> Seq<char> {
    numeral(n, 10)
}

/// `s` filled up in front with `fill` to `width` characters.
pub open spec fn pad_left(s: Seq<char>, width: nat, fill: char) -> Seq<char> {
    if s.len() < width {
        Seq::new((width - s.len()) as nat, |i: int| fill) + s
    } else {
        s
    }
}

/// `s` filled up behind with blanks to `width` characters.
pub open spec fn pad_right(s: Seq<char>, width: nat) -> Seq<char> {
    if s.len() < width {
        s + Seq::new((width - s.len()) as nat, |i: int| ' ')
    } else {
        s
    }
}

fn digit_char(d: u64) -> (r: char)
    requires
        d < 16,
    ensures
        r == digit(d as nat),
{
    if d < 10 {
        (d as u8 + 48) as char
    } else {
        (d as u8 + 87) as char
    }
}

/// `n` written in the base `b`.
pub fn to_numeral(n: u64, b: u64) -> (r: String)
    requires
        2 <= b <= 16,
    ensures
        r@ == numeral(n as nat, b as nat),
    decreases n,
{
    if n < b {
        let mut s = String::new();
        s.push(digit_char(n));
        assert(s@ == seq![digit(n as nat)]);
        s
    } else {
        assert(n / b < n) by (nonlinear_arith)
            requires
                n > 0,
                b >= 2,
        ;
        let mut s = to_numeral(n / b, b);
        s.push(digit_char(n % b));
        s
    }
}

/// `n` written in decimal.
pub fn to_decimal(n: u64) -> (r: String)
    ensures
        r@ == decimal(n as nat),
{
    to_numeral(n, 10)
}

/// `s` filled up in front with `fill` to `width` characters.
pub fn padded_left(s: &str, width: usize, fill: char) -> (r: String)
    ensures
        r@ == pad_left(s@, width as nat, fill),
{
    let n = s.unicode_len();
    if n >= width {
        return s.to_owned();
    }
    let mut out = String::new();
    let k: usize = width - n;
    for i in 0..k
        invariant
            out@ == Seq::new(i as nat, |j: int| fill),
    {
        out.push(fill);
        assert(Seq::new((i + 1) as nat, |j: int| fill) == Seq::new(i as nat, |j: int| fill).push(
            fill,
        ));
    }
    out.append(s);
    out
}

/// `v` filled up behind with blanks to `width` characters.
pub fn padded_right(v: &Vec<char>, width: usize) -> (r: Vec<char>)
    ensures
        r@ == pad_right(v@, width as nat),
{
    let mut out = slice_of(v, 0, v.len());
    assert(v@.subrange(0, v@.len() as int) == v@);
    let n: usize = v.len();
    if n >= width {
        return out;
    }
    let k: usize = width - n;
    for i in 0..k
        invariant
            out@ == v@ + Seq::new(i as nat, |j: int| ' '),
    {
        out.push(' ');
        assert(Seq::new((i + 1) as nat, |j: int| ' ') == Seq::new(i as nat, |j: int| ' ').push(' '));
        assert(out@ == v@ + Seq::new((i + 1) as nat, |j: int| ' '));
    }
    out
}

/// The value of a row of decimal digits.
pub open spec fn value(s: Seq<char>) -> nat
    decreases s.len(),
{
    if s.len() == 0 {
        0
    } else {
        value(s.drop_last()) * 10 + (s.last() as u32 - 48) as nat
    }
}

pub open spec fn all_digits(s: Seq<char>) -> bool {
    forall|i: int| 0 <= i < s.len() ==> '0' <= #[trigger] s[i] <= '9'
}

/// Whether `s` reads as a number of 32 bits: decimal digits, at least one, with
/// at most one `+` in front, and a value that fits.
pub open spec fn is_number(s: Seq<char>) -> bool {
    let d = if s.len() > 0 && s[0] == '+' {
        s.skip(1)
    } else {
        s
    };
    d.len() > 0 && all_digits(d) && value(d) <= u32::MAX
}

/// Whether `v` reads as a number of 32 bits.
pub fn reads_as_number(v: &Vec<char>) -> (r: bool)
    ensures
        r == is_number(v@),
{
    let from: usize = if v.len() > 0 && v[0] == '+' {
        1
    } else {
        0
    };
    let d = slice_of(v, from, v.len());
    assert(d@ == if from == 1 {
        v@.skip(1)
    } else {
        v@
    });
    if d.len() == 0 {
        return false;
    }
    let mut n: u64 = 0;
    let mut over: bool = false;
    for i in 0..d.len()
        invariant
            d@.len() > 0,
            d@ == if v@.len() > 0 && v@[0] == '+' {
                v@.skip(1)
            } else {
                v@
            },
            forall|j: int| 0 <= j < i ==> '0' <= #[trigger] d@[j] <= '9',
            over ==> value(d@.take(i as int)) > u32::MAX,
            !over ==> value(d@.take(i as int)) == n && n <= u32::MAX,
    {
        let c = d[i];
        if c < '0' || c > '9' {
            assert(!all_digits(d@)) by {
                assert(!('0' <= d@[i as int] && d@[i as int] <= '9'));
            }
            return false;
        }
        assert(d@.take(i + 1).drop_last() == d@.take(i as int));
        assert(d@.take(i + 1).last() == c);
        if !over {
            n = n * 10 + (c as u64 - 48);
            if n > 4294967295 {
                over = true;
            }
        }
    }
    assert(d@.take(d@.len() as int) == d@);
    !over
}

} // verus!
