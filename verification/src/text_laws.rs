//! What the text helpers do, told of texts put together from their parts.

use vstd::prelude::*;

use crate::text;

verus! {

/// Whether `c` does not occur in `s`.
pub open spec fn lacks(s: Seq<char>, c: char) -> bool {
    forall|i: int| 0 <= i < s.len() ==> #[trigger] s[i] != c
}

/// Whether `s` is nothing but white space.
pub open spec fn blank(s: Seq<char>) -> bool {
    forall|i: int| 0 <= i < s.len() ==> text::is_white(#[trigger] s[i])
}

/// Whether there is no white space in `s`.
pub open spec fn solid(s: Seq<char>) -> bool {
    forall|i: int| 0 <= i < s.len() ==> !text::is_white(#[trigger] s[i])
}

/// What `find` finds.
pub proof fn lemma_found(s: Seq<char>, p: spec_fn(char) -> bool)
    ensures
        0 <= text::find(s, p) <= s.len(),
        forall|j: int| 0 <= j < text::find(s, p) ==> !p(#[trigger] s[j]),
        text::find(s, p) < s.len() ==> p(s[text::find(s, p)]),
    decreases s.len(),
{
    if s.len() > 0 && !p(s[0]) {
        lemma_found(s.drop_first(), p);
        assert forall|j: int| 0 <= j < text::find(s, p) implies !p(#[trigger] s[j]) by {
            if j > 0 {
                assert(s.drop_first()[j - 1] == s[j]);
            }
        }
    }
}

// --- letter case ---------------------------------------------------------------

/// The small letters and their capitals go together, one by one; every other
/// character is its own small letter and its own capital.
pub proof fn letters_come_in_pairs(i: int, c: char)
    requires
        0 <= i < 26,
    ensures
        text::lower_char("ABCDEFGHIJKLMNOPQRSTUVWXYZ"@[i]) == "abcdefghijklmnopqrstuvwxyz"@[i],
        text::upper_char("abcdefghijklmnopqrstuvwxyz"@[i]) == "ABCDEFGHIJKLMNOPQRSTUVWXYZ"@[i],
        !"ABCDEFGHIJKLMNOPQRSTUVWXYZ"@.contains(c) ==> text::lower_char(c) == c,
        !"abcdefghijklmnopqrstuvwxyz"@.contains(c) ==> text::upper_char(c) == c,
{
    reveal_strlit("ABCDEFGHIJKLMNOPQRSTUVWXYZ");
    reveal_strlit("abcdefghijklmnopqrstuvwxyz");
    let small = "abcdefghijklmnopqrstuvwxyz"@;
    let big = "ABCDEFGHIJKLMNOPQRSTUVWXYZ"@;
    assert(small.len() == 26 && big.len() == 26);
    assert(small[i] as u32 == 97 + i && big[i] as u32 == 65 + i);
    if 'A' <= c <= 'Z' {
        assert(big[c as u32 - 65] == c);
    }
    if 'a' <= c <= 'z' {
        assert(small[c as u32 - 97] == c);
    }
}

/// Case is changed character by character, and two texts have the same letters
/// exactly if they do character by character.
pub proof fn case_is_changed_one_by_one(a: Seq<char>, b: Seq<char>, i: int)
    requires
        0 <= i < a.len(),
    ensures
        text::lower(a).len() == a.len(),
        text::upper(a).len() == a.len(),
        text::lower(a)[i] == text::lower_char(a[i]),
        text::upper(a)[i] == text::upper_char(a[i]),
        text::same_letters(a, b) <==> a.len() == b.len() && forall|j: int|
            0 <= j < a.len() ==> text::lower_char(#[trigger] a[j]) == text::lower_char(b[j]),
{
    if a.len() == b.len() && (forall|j: int|
        0 <= j < a.len() ==> text::lower_char(#[trigger] a[j]) == text::lower_char(b[j])) {
        assert(text::lower(a) =~= text::lower(b));
    }
    if text::same_letters(a, b) {
        assert(text::lower(a).len() == text::lower(b).len());
        assert forall|j: int| 0 <= j < a.len() implies text::lower_char(#[trigger] a[j])
            == text::lower_char(b[j]) by {
            assert(text::lower(a)[j] == text::lower(b)[j]);
        }
    }
}

// --- white space ---------------------------------------------------------------

/// The twenty-five characters that are white space.
pub open spec fn white_characters() -> Seq<u32> {
    seq![
        0x9u32,
        0xa,
        0xb,
        0xc,
        0xd,
        0x20,
        0x85,
        0xa0,
        0x1680,
        0x2000,
        0x2001,
        0x2002,
        0x2003,
        0x2004,
        0x2005,
        0x2006,
        0x2007,
        0x2008,
        0x2009,
        0x200a,
        0x2028,
        0x2029,
        0x202f,
        0x205f,
        0x3000,
    ]
}

/// Which characters are white space.
pub proof fn these_are_white_space(c: char)
    ensures
        text::is_white(c) <==> white_characters().contains(c as u32),
{
    let all = white_characters();
    let n = c as u32;
    assert(all.len() == 25);
    if text::is_white(c) {
        if n <= 0xd {
            assert(all[n - 9] == n);
        } else if n == 0x20 {
            assert(all[5] == n);
        } else if n == 0x85 {
            assert(all[6] == n);
        } else if n == 0xa0 {
            assert(all[7] == n);
        } else if n == 0x1680 {
            assert(all[8] == n);
        } else if n <= 0x200a {
            assert(all[n - 0x2000 + 9] == n);
        } else if n == 0x2028 {
            assert(all[20] == n);
        } else if n == 0x2029 {
            assert(all[21] == n);
        } else if n == 0x202f {
            assert(all[22] == n);
        } else if n == 0x205f {
            assert(all[23] == n);
        } else {
            assert(all[24] == n);
        }
    }
}

/// Trimming takes off the white space on both sides and nothing else.
pub proof fn trimming_takes_off_both_sides(front: Seq<char>, core: Seq<char>, back: Seq<char>)
    requires
        blank(front),
        blank(back),
        core.len() > 0,
        !text::is_white(core[0]),
        !text::is_white(core.last()),
    ensures
        text::trim(front + core + back) == core,
{
    let s = front + core + back;
    let n = front.len() as int;
    assert forall|j: int| 0 <= j < n implies !(text::not_white())(#[trigger] s[j]) by {
        assert(s[j] == front[j]);
    }
    assert(s[n] == core[0]);
    text::lemma_find(s, text::not_white(), n);
    let t = s.skip(n);
    assert(t == core + back);
    let m = core.len() as int;
    assert forall|j: int| m <= j < t.len() implies text::is_white(#[trigger] t[j]) by {
        assert(t[j] == back[j - m]);
    }
    assert(t[m - 1] == core.last());
    text::lemma_trim_end(t, m);
    assert(t.take(m) == core);
}

/// Of white space nothing is left.
pub proof fn trimming_leaves_nothing_of_white_space(s: Seq<char>)
    requires
        blank(s),
    ensures
        text::trim(s).len() == 0,
{
    text::lemma_find(s, text::not_white(), s.len() as int);
    assert(text::trim_start(s).len() == 0);
}

// --- splitting -----------------------------------------------------------------

/// A text is split at each separator: the part before the first one, then the parts
/// of the rest; a text without one is its own only part.
pub proof fn a_text_is_split_at_each_separator(part: Seq<char>, c: char, rest: Seq<char>)
    requires
        lacks(part, c),
    ensures
        text::split(part + seq![c] + rest, c) == seq![part] + text::split(rest, c),
        text::split(part, c) == seq![part],
{
    text::lemma_find_after(part, c, rest, text::equals(c));
    text::lemma_find(part, text::equals(c), part.len() as int);
}

/// The first part of a text that has more than one.
pub proof fn lemma_first_part(s: Seq<char>, c: char)
    requires
        text::split(s, c).len() > 1,
    ensures
        ({
            let a = text::split(s, c)[0];
            let rest = s.skip(a.len() as int + 1);
            &&& lacks(a, c)
            &&& s == a + seq![c] + rest
            &&& text::split(s, c).drop_first() == text::split(rest, c)
        }),
{
    lemma_found(s, text::equals(c));
    let i = text::find(s, text::equals(c));
    assert(i < s.len());
    let rest = s.skip(i + 1);
    assert((seq![s.take(i)] + text::split(rest, c))[0] == s.take(i));
    assert((seq![s.take(i)] + text::split(rest, c)).drop_first() == text::split(rest, c));
    assert(s == s.take(i) + seq![c] + rest);
    assert forall|j: int| 0 <= j < i implies #[trigger] s.take(i)[j] != c by {
        assert(s[j] == s.take(i)[j]);
    }
}

/// The two halves at the first separator.
pub proof fn a_text_is_halved_at_the_first_separator(front: Seq<char>, c: char, back: Seq<char>)
    requires
        lacks(front, c),
    ensures
        text::split_once(front + seq![c] + back, c) == Some((front, back)),
        text::split_once(front, c) is None,
{
    text::lemma_find_after(front, c, back, text::equals(c));
    text::lemma_find(front, text::equals(c), front.len() as int);
}

/// The lines of a text: each ends with a line feed, with or without a carriage
/// return before it; the last one need not have an ending.
pub proof fn a_text_is_its_lines(line: Seq<char>, rest: Seq<char>)
    requires
        lacks(line, '\n'),
        line.len() == 0 || line.last() != '\r',
    ensures
        text::lines(line + seq!['\n'] + rest) == seq![line] + text::lines(rest),
        text::lines(line + seq!['\r'] + seq!['\n'] + rest) == seq![line] + text::lines(rest),
        line.len() > 0 ==> text::lines(line) == seq![line],
        line.len() == 0 ==> text::lines(line).len() == 0,
{
    text::lemma_find_after(line, '\n', rest, text::equals('\n'));
    let ret = line + seq!['\r'];
    text::lemma_find_after(ret, '\n', rest, text::equals('\n'));
    assert(text::without_return(line) == line);
    assert(text::without_return(ret) == line);
    text::lemma_find(line, text::equals('\n'), line.len() as int);
}

/// The words of a text: white space stands between them and belongs to none.
pub proof fn a_text_is_its_words(word: Seq<char>, c: char, rest: Seq<char>)
    requires
        solid(word),
        word.len() > 0,
        text::is_white(c),
    ensures
        text::words(word + seq![c] + rest) == seq![word] + text::words(rest),
        text::words(word) == seq![word],
        text::words(seq![c] + rest) == text::words(rest),
        text::words(Seq::empty()).len() == 0,
{
    text::lemma_find_after(word, c, rest, text::white());
    text::lemma_words_skip(c, rest);
    text::lemma_find(word, text::white(), word.len() as int);
    assert(word.take(word.len() as int) == word);
    assert(word.skip(word.len() as int) == Seq::<char>::empty());
    assert(seq![word] + text::words(Seq::empty()) == seq![word]);
}

/// Joining puts the separator between each two parts.
pub proof fn joining_puts_the_separator_between(parts: Seq<Seq<char>>, last: Seq<char>, sep: Seq<char>)
    ensures
        text::joined(seq![], sep) == Seq::<char>::empty(),
        text::joined(seq![last], sep) == last,
        parts.len() > 0 ==> text::joined(parts.push(last), sep) == text::joined(parts, sep) + sep
            + last,
{
    if parts.len() > 0 {
        assert(parts.push(last).drop_last() == parts);
    }
}

/// A word stands in every text that is made with it, and in no other.
pub proof fn a_word_stands_in_what_is_made_with_it(s: Seq<char>, word: Seq<char>)
    ensures
        text::has(s, word) <==> exists|a: Seq<char>, b: Seq<char>|
            s == #[trigger] (a + word + b),
{
    if text::has(s, word) {
        let i = choose|i: int| text::stands_at(s, i, word);
        assert(s =~= s.take(i) + word + s.skip(i + word.len()));
    }
    if exists|a: Seq<char>, b: Seq<char>| s == #[trigger] (a + word + b) {
        let (a, b) = choose|a: Seq<char>, b: Seq<char>| s == #[trigger] (a + word + b);
        assert(s.subrange(a.len() as int, (a.len() + word.len()) as int) =~= word);
        assert(text::stands_at(s, a.len() as int, word));
    }
}

// --- numbers -------------------------------------------------------------------

/// The digits up to fifteen.
pub proof fn the_digits(d: nat)
    requires
        d < 16,
    ensures
        text::digit(d) == "0123456789abcdef"@[d as int],
{
    reveal_strlit("0123456789abcdef");
}

/// A row of digits read as a number: one more digit makes it ten times as much and
/// the digit more.
pub proof fn a_digit_more_is_ten_times_as_much(s: Seq<char>, d: nat)
    requires
        d < 10,
    ensures
        text::value(s.push("0123456789"@[d as int])) == 10 * text::value(s) + d,
        text::value(Seq::empty()) == 0,
{
    reveal_strlit("0123456789");
    assert(s.push("0123456789"@[d as int]).drop_last() == s);
}

/// A number written in decimal reads as that number, and has no zero in front but
/// the one of zero itself.
pub proof fn a_number_is_read_as_it_is_written(n: nat)
    ensures
        text::all_digits(text::decimal(n)),
        text::value(text::decimal(n)) == n,
        text::decimal(n).len() > 0,
        text::decimal(n)[0] == '0' ==> n == 0 && text::decimal(n).len() == 1,
    decreases n,
{
    reveal_with_fuel(text::value, 2);
    let s = text::decimal(n);
    if n < 10 {
        assert(s == seq![text::digit(n)]);
        assert(s.drop_last().len() == 0);
    } else {
        let front = text::decimal(n / 10);
        a_number_is_read_as_it_is_written(n / 10);
        assert(s == front.push(text::digit(n % 10)));
        assert(s.drop_last() == front);
        assert(s[0] == front[0]);
    }
}

/// What reads as a number of 32 bits: its digits, with a plus sign or without, and
/// nothing else.
pub proof fn what_reads_as_a_number(n: nat, s: Seq<char>, i: int)
    ensures
        text::is_number(text::decimal(n)) <==> n <= 4_294_967_295,
        text::is_number(seq!['+'] + text::decimal(n)) <==> n <= 4_294_967_295,
        !text::is_number(Seq::empty()),
        0 <= i < s.len() && !('0' <= s[i] <= '9') && !(i == 0 && s[i] == '+')
            ==> !text::is_number(s),
{
    a_number_is_read_as_it_is_written(n);
    let d = text::decimal(n);
    assert(d[0] != '+');
    assert((seq!['+'] + d).skip(1) == d);
    if 0 <= i < s.len() && !('0' <= s[i] <= '9') && !(i == 0 && s[i] == '+') {
        if s[0] == '+' {
            assert(s.skip(1)[i - 1] == s[i]);
        }
    }
}

/// Filling up adds the filling on its side only, up to the width and no further.
pub proof fn filling_up_keeps_the_text(s: Seq<char>, width: nat, fill: char, i: int)
    ensures
        ({
            let l = text::pad_left(s, width, fill);
            let r = text::pad_right(s, width);
            let n = if s.len() < width {
                width - s.len()
            } else {
                0
            };
            &&& l.len() == s.len() + n
            &&& l.skip(n) == s
            &&& 0 <= i < n ==> l[i] == fill
            &&& r.len() == s.len() + n
            &&& r.take(s.len() as int) == s
            &&& s.len() <= i < r.len() ==> r[i] == ' '
        }),
{
    let l = text::pad_left(s, width, fill);
    let r = text::pad_right(s, width);
    if s.len() < width {
        assert(l.skip(width - s.len()) =~= s);
        assert(r.take(s.len() as int) =~= s);
    } else {
        assert(l.skip(0) =~= s);
        assert(r.take(s.len() as int) =~= s);
    }
}

// --- order ---------------------------------------------------------------------

/// The first characters that differ decide which text comes first; a text comes
/// before what it begins.
pub proof fn the_first_difference_decides(
    same: Seq<char>,
    a: char,
    x: Seq<char>,
    b: char,
    y: Seq<char>,
)
    requires
        a != b,
    ensures
        text::before(same + seq![a] + x, same + seq![b] + y) <==> a < b,
        text::before(same, same + seq![b] + y),
        !text::before(same + seq![b] + y, same),
        !text::before(same, same),
    decreases same.len(),
{
    let p = same + seq![a] + x;
    let q = same + seq![b] + y;
    if same.len() > 0 {
        let rest = same.drop_first();
        the_first_difference_decides(rest, a, x, b, y);
        assert(p.drop_first() == rest + seq![a] + x);
        assert(q.drop_first() == rest + seq![b] + y);
    }
}

// --- many texts ----------------------------------------------------------------

/// The texts of many strings are theirs, one by one.
pub proof fn many_texts_are_told_one_by_one(
    v: Seq<String>,
    p: Seq<(String, String)>,
    c: Seq<Vec<char>>,
    i: int,
)
    ensures
        text::strings(v).len() == v.len(),
        text::string_pairs(p).len() == p.len(),
        text::texts(c).len() == c.len(),
        0 <= i < v.len() ==> text::strings(v)[i] == v[i]@,
        0 <= i < p.len() ==> text::string_pairs(p)[i] == (p[i].0@, p[i].1@),
        0 <= i < c.len() ==> text::texts(c)[i] == c[i]@,
{
}

} // verus!
