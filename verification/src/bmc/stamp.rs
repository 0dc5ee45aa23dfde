//! Date-times as a log writes them, `2024-10-27T02:59:59.25+02:00`, and the
//! instants that they name.

use vstd::prelude::*;

use crate::text;

verus! {

// --- the calendar --------------------------------------------------------------

pub open spec fn is_leap(year: int) -> bool {
    year % 4 == 0 && (year % 100 != 0 || year % 400 == 0)
}

pub open spec fn days_in_year(year: int) -> int {
    if is_leap(year) {
        366
    } else {
        365
    }
}

pub open spec fn days_in_month(year: int, month: int) -> int {
    if month == 2 {
        if is_leap(year) {
            29
        } else {
            28
        }
    } else if month == 4 || month == 6 || month == 9 || month == 11 {
        30
    } else {
        31
    }
}

/// The days from the beginning of the year 0 to the beginning of `year`.
pub open spec fn days_before_year(year: int) -> int
    decreases year,
{
    if year <= 0 {
        0
    } else {
        days_before_year(year - 1) + days_in_year(year - 1)
    }
}

/// The days from the beginning of `year` to the beginning of `month`.
pub open spec fn days_before_month(year: int, month: int) -> int
    decreases month,
{
    if month <= 1 {
        0
    } else {
        days_before_month(year, month - 1) + days_in_month(year, month - 1)
    }
}

pub open spec fn is_date(year: int, month: int, day: int) -> bool {
    0 <= year && 1 <= month <= 12 && 1 <= day <= days_in_month(year, month)
}

/// The days from the beginning of the year 0 to the given date.
pub open spec fn day_number(year: int, month: int, day: int) -> int {
    days_before_year(year) + days_before_month(year, month) + day - 1
}

/// Going from the numbers below `y` to those below `y + 1`, there is one more
/// multiple of `n` if `y` is one.
proof fn lemma_one_more_multiple(y: int, n: int)
    requires
        0 <= y,
        0 < n,
    ensures
        (y + n) / n == (y + n - 1) / n + if y % n == 0 {
            1int
        } else {
            0
        },
{
    let q = y / n;
    let r = y % n;
    vstd::arithmetic::div_mod::lemma_fundamental_div_mod(y, n);
    assert(n * q + n == n * (q + 1)) by (nonlinear_arith);
    vstd::arithmetic::div_mod::lemma_fundamental_div_mod_converse(y + n, n, q + 1, r);
    if r == 0 {
        vstd::arithmetic::div_mod::lemma_fundamental_div_mod_converse(y + n - 1, n, q, n - 1);
    } else {
        vstd::arithmetic::div_mod::lemma_fundamental_div_mod_converse(
            y + n - 1,
            n,
            q + 1,
            r - 1,
        );
    }
}

/// The days before a year: 365 for each year, and one for each leap year.
pub proof fn days_before_a_year_in_closed_form(year: int)
    requires
        0 <= year,
    ensures
        days_before_year(year) == 365 * year + (year + 3) / 4 - (year + 99) / 100 + (year + 399)
            / 400,
    decreases year,
{
    if year > 0 {
        let y = year - 1;
        days_before_a_year_in_closed_form(y);
        lemma_one_more_multiple(y, 4);
        lemma_one_more_multiple(y, 100);
        lemma_one_more_multiple(y, 400);
        assert(y % 400 == 0 ==> y % 100 == 0);
        assert(y % 100 == 0 ==> y % 4 == 0);
    }
}

proof fn lemma_days_before_month(year: int, month: int)
    requires
        1 <= month <= 13,
    ensures
        0 <= days_before_month(year, month) <= 31 * (month - 1),
    decreases month,
{
    if month > 1 {
        lemma_days_before_month(year, month - 1);
    }
}

proof fn lemma_months_fill_the_year(year: int)
    ensures
        days_before_month(year, 13) == days_in_year(year),
{
    reveal_with_fuel(days_before_month, 14);
}

proof fn lemma_later_month(year: int, a: int, b: int)
    requires
        1 <= a < b <= 13,
    ensures
        days_before_month(year, a) + days_in_month(year, a) <= days_before_month(year, b),
    decreases b - a,
{
    if a < b - 1 {
        lemma_later_month(year, a, b - 1);
    }
}

proof fn lemma_later_year(a: int, b: int)
    requires
        0 <= a < b,
    ensures
        days_before_year(a) + days_in_year(a) <= days_before_year(b),
    decreases b - a,
{
    if a < b - 1 {
        lemma_later_year(a, b - 1);
    }
}

/// A later date has a greater number.
pub proof fn later_dates_have_greater_numbers(y1: int, m1: int, d1: int, y2: int, m2: int, d2: int)
    requires
        is_date(y1, m1, d1),
        is_date(y2, m2, d2),
        y1 < y2 || (y1 == y2 && (m1 < m2 || (m1 == m2 && d1 < d2))),
    ensures
        day_number(y1, m1, d1) < day_number(y2, m2, d2),
{
    lemma_days_before_month(y2, m2);
    if y1 < y2 {
        lemma_later_year(y1, y2);
        lemma_later_month(y1, m1, 13);
        lemma_months_fill_the_year(y1);
    } else if m1 < m2 {
        lemma_later_month(y1, m1, m2);
    }
}

/// The day after a date has the next number, over the ends of months and years.
pub proof fn the_next_day_has_the_next_number(year: int, month: int, day: int)
    requires
        is_date(year, month, day),
    ensures
        ({
            let next = if day < days_in_month(year, month) {
                day_number(year, month, day + 1)
            } else if month < 12 {
                day_number(year, month + 1, 1)
            } else {
                day_number(year + 1, 1, 1)
            };
            next == day_number(year, month, day) + 1
        }),
{
    lemma_months_fill_the_year(year);
}

// --- instants ------------------------------------------------------------------

/// An instant: whole seconds since the beginning of the year 0, and the decimal
/// digits of the part of a second that has gone by since, without zeros at the
/// end.
pub struct Instant {
    pub seconds: i64,
    pub fraction: Vec<char>,
}

#[verifier::ext_equal]
pub struct InstantView {
    pub seconds: int,
    pub fraction: Seq<char>,
}

impl View for Instant {
    type V = InstantView;

    open spec fn view(&self) -> InstantView {
        InstantView { seconds: self.seconds as int, fraction: self.fraction@ }
    }
}

/// Whether `a` lies before `b`. Digits without zeros at the end are in the order of
/// the parts of a second that they write: see
/// [`fractions_go_by_their_values`].
pub open spec fn earlier(a: InstantView, b: InstantView) -> bool {
    a.seconds < b.seconds || (a.seconds == b.seconds && text::before(a.fraction, b.fraction))
}

/// Whether the characters of `s` from `i` up to `j` are digits.
pub open spec fn digits_at(s: Seq<char>, i: int, j: int) -> bool {
    text::all_digits(s.subrange(i, j))
}

pub open spec fn number_at(s: Seq<char>, i: int, j: int) -> int {
    text::value(s.subrange(i, j)) as int
}

/// The seconds on the clock that the first nineteen characters of `s` show, as in
/// `2024-10-27T02:59:59`. A leap second is the first second of the next minute.
pub open spec fn clock(s: Seq<char>) -> Option<int> {
    let shaped = {
        &&& s.len() >= 19
        &&& digits_at(s, 0, 4) && s[4] == '-'
        &&& digits_at(s, 5, 7) && s[7] == '-'
        &&& digits_at(s, 8, 10) && s[10] == 'T'
        &&& digits_at(s, 11, 13) && s[13] == ':'
        &&& digits_at(s, 14, 16) && s[16] == ':'
        &&& digits_at(s, 17, 19)
    };
    let (year, month, day) = (number_at(s, 0, 4), number_at(s, 5, 7), number_at(s, 8, 10));
    let (hour, minute, second) = (
        number_at(s, 11, 13),
        number_at(s, 14, 16),
        number_at(s, 17, 19),
    );
    if shaped && is_date(year, month, day) && hour <= 23 && minute <= 59 && second <= 60 {
        Some(((day_number(year, month, day) * 24 + hour) * 60 + minute) * 60 + second)
    } else {
        None
    }
}

/// How many seconds a clock is ahead of UTC: `Z`, or as in `+02:00`.
pub open spec fn zone(s: Seq<char>) -> Option<int> {
    if s == seq!['Z'] {
        Some(0)
    } else if s.len() == 6 && (s[0] == '+' || s[0] == '-') && digits_at(s, 1, 3) && s[3] == ':'
        && digits_at(s, 4, 6) && number_at(s, 1, 3) <= 23 && number_at(s, 4, 6) <= 59 {
        let ahead = (number_at(s, 1, 3) * 60 + number_at(s, 4, 6)) * 60;
        Some(
            if s[0] == '+' {
                ahead
            } else {
                -ahead
            },
        )
    } else {
        None
    }
}

pub open spec fn not_digit() -> spec_fn(char) -> bool {
    |c: char| !('0' <= c <= '9')
}

/// What follows the clock: the digits behind a point, at least one, if there is a
/// point, and the rest.
pub open spec fn split_fraction(s: Seq<char>) -> Option<(Seq<char>, Seq<char>)> {
    if s.len() > 0 && s[0] == '.' {
        let n = text::find(s.skip(1), not_digit());
        if n == 0 {
            None
        } else {
            Some((s.subrange(1, 1 + n), s.skip(1 + n)))
        }
    } else {
        Some((Seq::empty(), s))
    }
}

pub open spec fn without_zeros(s: Seq<char>) -> Seq<char>
    decreases s.len(),
{
    if s.len() > 0 && s.last() == '0' {
        without_zeros(s.drop_last())
    } else {
        s
    }
}

/// The instant that `s` names: date, `T`, time, a fraction of a second if there is
/// one, and `Z` or the distance from UTC.
pub open spec fn instant(s: Seq<char>) -> Option<InstantView> {
    match (clock(s), split_fraction(s.skip(19))) {
        (Some(local), Some((fraction, rest))) => match zone(rest) {
            Some(ahead) => Some(
                InstantView { seconds: local - ahead, fraction: without_zeros(fraction) },
            ),
            None => None,
        },
        _ => None,
    }
}

/// Of two instants at most one is earlier than the other.
pub proof fn lemma_earlier_one_way(a: InstantView, b: InstantView)
    requires
        earlier(a, b),
    ensures
        !earlier(b, a),
{
    if a.seconds == b.seconds {
        text::lemma_before_one_way(a.fraction, b.fraction);
    }
}

/// "Not earlier" carries over.
pub proof fn lemma_not_earlier_chain(a: InstantView, b: InstantView, c: InstantView)
    requires
        !earlier(a, b),
        !earlier(b, c),
    ensures
        !earlier(a, c),
{
    if a.seconds == b.seconds && b.seconds == c.seconds {
        text::lemma_not_before_chain(a.fraction, b.fraction, c.fraction);
    }
}

pub open spec fn ten_to(n: nat) -> int
    decreases n,
{
    if n == 0 {
        1
    } else {
        10 * ten_to((n - 1) as nat)
    }
}

/// The value of a row of digits by its first digit.
proof fn lemma_value_by_first(s: Seq<char>)
    requires
        s.len() > 0,
        text::all_digits(s),
    ensures
        text::value(s) == (s[0] as u32 - 48) * ten_to((s.len() - 1) as nat) + text::value(
            s.drop_first(),
        ),
        text::value(s.drop_first()) < ten_to((s.len() - 1) as nat),
    decreases s.len(),
{
    let front = s.drop_last();
    let d = s[0] as u32 - 48;
    if s.len() == 1 {
        assert(front == Seq::<char>::empty());
        assert(s.drop_first() == Seq::<char>::empty());
        assert(d * 1 == d);
    } else {
        lemma_value_by_first(front);
        let mid = front.drop_first();
        assert(s.drop_first().drop_last() == mid);
        assert(s.drop_first().last() == s.last());
        let t = ten_to((s.len() - 2) as nat);
        let v = text::value(mid);
        assert((d * t + v) * 10 == d * (10 * t) + v * 10) by (nonlinear_arith);
    }
}

proof fn lemma_value_positive(s: Seq<char>)
    requires
        s.len() > 0,
        text::all_digits(s),
        s.last() != '0',
    ensures
        text::value(s) > 0,
{
}

/// A smaller first digit makes a smaller fraction, whatever follows.
proof fn lemma_first_digit_decides(c: int, d: int, a: int, b: int, v: int, w: int)
    requires
        0 <= c < d,
        1 <= a,
        1 <= b,
        0 <= v < a,
        0 <= w,
    ensures
        (c * a + v) * (10 * b) < (d * b + w) * (10 * a),
{
    assert((c * a + v) * b < (c + 1) * (a * b)) by (nonlinear_arith)
        requires
            v < a,
            1 <= b,
    ;
    assert((c + 1) * (a * b) <= d * (a * b)) by (nonlinear_arith)
        requires
            c < d,
            1 <= a,
            1 <= b,
    ;
    assert(d * (a * b) <= (d * b + w) * a) by (nonlinear_arith)
        requires
            1 <= a,
            0 <= w,
    ;
    assert((c * a + v) * (10 * b) == 10 * ((c * a + v) * b)) by (nonlinear_arith);
    assert((d * b + w) * (10 * a) == 10 * ((d * b + w) * a)) by (nonlinear_arith);
}

proof fn lemma_ten_to_positive(n: nat)
    ensures
        ten_to(n) >= 1,
    decreases n,
{
    if n > 0 {
        lemma_ten_to_positive((n - 1) as nat);
    }
}

/// Of digits behind a point, without zeros at the end, those that come before are
/// those that write the smaller number: `x / 10^m < y / 10^n` for `m` digits `x`
/// and `n` digits `y`.
pub proof fn fractions_go_by_their_values(x: Seq<char>, y: Seq<char>)
    requires
        text::all_digits(x),
        text::all_digits(y),
        without_zeros(x) == x,
        without_zeros(y) == y,
    ensures
        text::before(x, y) <==> text::value(x) * ten_to(y.len()) < text::value(y) * ten_to(
            x.len(),
        ),
    decreases x.len(),
{
    if x.len() > 0 {
        lemma_no_zero_at_the_end(x);
    }
    if y.len() > 0 {
        lemma_no_zero_at_the_end(y);
    }
    lemma_ten_to_positive(x.len());
    lemma_ten_to_positive(y.len());
    if y.len() == 0 {
        assert(text::value(y) * ten_to(x.len()) == 0) by (nonlinear_arith)
            requires
                text::value(y) == 0,
        ;
        assert(text::value(x) * ten_to(y.len()) >= 0) by (nonlinear_arith)
            requires
                ten_to(y.len()) >= 1,
        ;
    } else if x.len() == 0 {
        lemma_value_positive(y);
        assert(text::value(x) * ten_to(y.len()) == 0) by (nonlinear_arith)
            requires
                text::value(x) == 0,
        ;
        assert(text::value(y) * ten_to(x.len()) > 0) by (nonlinear_arith)
            requires
                text::value(y) > 0,
                ten_to(x.len()) >= 1,
        ;
    } else {
        let a = ten_to((x.len() - 1) as nat);
        let b = ten_to((y.len() - 1) as nat);
        let c = x[0] as u32 - 48;
        let d = y[0] as u32 - 48;
        let v = text::value(x.drop_first()) as int;
        let w = text::value(y.drop_first()) as int;
        lemma_ten_to_positive((x.len() - 1) as nat);
        lemma_ten_to_positive((y.len() - 1) as nat);
        lemma_value_by_first(x);
        lemma_value_by_first(y);
        assert(text::value(x) * ten_to(y.len()) == (c * a + v) * (10 * b));
        assert(text::value(y) * ten_to(x.len()) == (d * b + w) * (10 * a));
        if c < d {
            lemma_first_digit_decides(c, d, a, b, v, w);
        } else if d < c {
            lemma_first_digit_decides(d, c, b, a, w, v);
        } else {
            let p = x.drop_first();
            let q = y.drop_first();
            if p.len() > 0 {
                assert(p.last() == x.last());
            }
            if q.len() > 0 {
                assert(q.last() == y.last());
            }
            fractions_go_by_their_values(p, q);
            assert((c * a + v) * (10 * b) == 10 * (c * (a * b)) + 10 * (v * b))
                by (nonlinear_arith);
            assert((c * b + w) * (10 * a) == 10 * (c * (a * b)) + 10 * (w * a))
                by (nonlinear_arith);
        }
    }
}

proof fn lemma_no_zero_at_the_end(s: Seq<char>)
    requires
        without_zeros(s) == s,
        s.len() > 0,
    ensures
        s.last() != '0',
{
    if s.last() == '0' {
        lemma_without_zeros_shortens(s.drop_last());
    }
}

proof fn lemma_without_zeros_shortens(s: Seq<char>)
    ensures
        without_zeros(s).len() <= s.len(),
    decreases s.len(),
{
    if s.len() > 0 && s.last() == '0' {
        lemma_without_zeros_shortens(s.drop_last());
    }
}

// --- writing -------------------------------------------------------------------

/// `n` with zeros in front up to `width` digits.
pub open spec fn written(n: nat, width: nat) -> Seq<char> {
    text::pad_left(text::decimal(n), width, '0')
}

/// The first nineteen characters of a date-time.
pub open spec fn stamped(
    year: nat,
    month: nat,
    day: nat,
    hour: nat,
    minute: nat,
    second: nat,
) -> Seq<char> {
    written(year, 4) + seq!['-'] + written(month, 2) + seq!['-'] + written(day, 2) + seq!['T']
        + written(hour, 2) + seq![':'] + written(minute, 2) + seq![':'] + written(second, 2)
}

/// A distance from UTC as it is written.
pub open spec fn distance(sign: char, hours: nat, minutes: nat) -> Seq<char> {
    seq![sign] + written(hours, 2) + seq![':'] + written(minutes, 2)
}

proof fn lemma_zeros_in_front(zeros: Seq<char>, s: Seq<char>)
    requires
        forall|i: int| 0 <= i < zeros.len() ==> #[trigger] zeros[i] == '0',
    ensures
        text::value(zeros + s) == text::value(s),
    decreases zeros.len() + s.len(),
{
    if s.len() > 0 {
        lemma_zeros_in_front(zeros, s.drop_last());
        assert((zeros + s).drop_last() == zeros + s.drop_last());
    } else if zeros.len() > 0 {
        lemma_zeros_in_front(zeros.drop_last(), s);
        assert(zeros + s == zeros);
        assert(zeros.drop_last() + s == zeros.drop_last());
    } else {
        assert(zeros + s == s);
    }
}

proof fn lemma_written(n: nat, width: nat)
    requires
        width == 2 && n < 100 || width == 4 && n < 10_000,
    ensures
        written(n, width).len() == width,
        text::all_digits(written(n, width)),
        text::value(written(n, width)) == n,
{
    reveal_with_fuel(text::numeral, 5);
    let d = text::decimal(n);
    crate::text_laws::a_number_is_read_as_it_is_written(n);
    assert(1 <= d.len() <= width);
    let zeros = Seq::new((width - d.len()) as nat, |i: int| '0');
    if d.len() < width {
        lemma_zeros_in_front(zeros, d);
        assert(written(n, width) == zeros + d);
    }
}

/// What a date-time is read as: its day, hour, minute and second, as much earlier as
/// its clock is ahead of UTC, and its fraction without the zeros at the end.
pub proof fn a_date_time_names_its_instant(
    year: nat,
    month: nat,
    day: nat,
    hour: nat,
    minute: nat,
    second: nat,
    fraction: Seq<char>,
    behind: Seq<char>,
)
    requires
        year <= 9999,
        is_date(year as int, month as int, day as int),
        hour <= 23,
        minute <= 59,
        second <= 60,
        fraction.len() > 0,
        text::all_digits(fraction),
        zone(behind) is Some,
    ensures
        ({
            let s = stamped(year, month, day, hour, minute, second);
            let seconds = day_number(year as int, month as int, day as int) * 86_400 + hour * 3_600
                + minute * 60 + second - zone(behind)->0;
            &&& instant(s + behind) == Some(InstantView { seconds, fraction: Seq::empty() })
            &&& instant(s + (seq!['.'] + fraction + behind)) == Some(
                InstantView { seconds, fraction: without_zeros(fraction) },
            )
        }),
{
    let s = stamped(year, month, day, hour, minute, second);
    lemma_written(year, 4);
    lemma_written(month, 2);
    lemma_written(day, 2);
    lemma_written(hour, 2);
    lemma_written(minute, 2);
    lemma_written(second, 2);
    assert(s.len() == 19);
    assert(behind.len() > 0 && behind[0] != '.' && !('0' <= behind[0] <= '9')) by {
        if behind == seq!['Z'] {
            assert(behind[0] == 'Z');
        }
    }
    let none = Seq::<char>::empty();
    assert(without_zeros(none) == none);
    let pointed = seq!['.'] + fraction + behind;
    lemma_clock_of_stamp(s, behind, year, month, day, hour, minute, second);
    lemma_clock_of_stamp(s, pointed, year, month, day, hour, minute, second);
    assert((s + behind).skip(19) == behind);
    assert((s + pointed).skip(19) == pointed);
    let digits = pointed.skip(1);
    let n = fraction.len() as int;
    assert(digits == fraction + behind);
    assert forall|j: int| 0 <= j < n implies !(not_digit())(#[trigger] digits[j]) by {
        assert(digits[j] == fraction[j]);
    }
    assert(digits[n] == behind[0]);
    text::lemma_find(digits, not_digit(), n);
    assert(pointed.subrange(1, 1 + n) == fraction);
    assert(pointed.skip(1 + n) == behind);
}

proof fn lemma_clock_of_stamp(
    s: Seq<char>,
    tail: Seq<char>,
    year: nat,
    month: nat,
    day: nat,
    hour: nat,
    minute: nat,
    second: nat,
)
    requires
        s == stamped(year, month, day, hour, minute, second),
        year <= 9999,
        is_date(year as int, month as int, day as int),
        hour <= 23,
        minute <= 59,
        second <= 60,
    ensures
        clock(s + tail) == Some(
            day_number(year as int, month as int, day as int) * 86_400 + hour * 3_600 + minute * 60
                + second,
        ),
{
    lemma_written(year, 4);
    lemma_written(month, 2);
    lemma_written(day, 2);
    lemma_written(hour, 2);
    lemma_written(minute, 2);
    lemma_written(second, 2);
    let t = s + tail;
    assert(t.subrange(0, 4) =~= written(year, 4));
    assert(t.subrange(5, 7) =~= written(month, 2));
    assert(t.subrange(8, 10) =~= written(day, 2));
    assert(t.subrange(11, 13) =~= written(hour, 2));
    assert(t.subrange(14, 16) =~= written(minute, 2));
    assert(t.subrange(17, 19) =~= written(second, 2));
    assert(t[4] == '-' && t[7] == '-' && t[10] == 'T' && t[13] == ':' && t[16] == ':');
}

/// What is written behind a time: `Z` is UTC, a plus sign how far the clock is ahead
/// of it and a minus sign how far it is behind.
pub proof fn the_distance_from_utc(hours: nat, minutes: nat)
    requires
        hours <= 23,
        minutes <= 59,
    ensures
        zone(seq!['Z']) == Some(0int),
        zone(distance('+', hours, minutes)) == Some((hours * 3_600 + minutes * 60) as int),
        zone(distance('-', hours, minutes)) == Some(-(hours * 3_600 + minutes * 60)),
{
    lemma_written(hours, 2);
    lemma_written(minutes, 2);
    lemma_distance('+', hours, minutes);
    lemma_distance('-', hours, minutes);
}

proof fn lemma_distance(sign: char, hours: nat, minutes: nat)
    requires
        hours <= 23,
        minutes <= 59,
    ensures
        ({
            let s = distance(sign, hours, minutes);
            &&& s.len() == 6
            &&& s[0] == sign && s[3] == ':'
            &&& s != seq!['Z']
            &&& digits_at(s, 1, 3) && number_at(s, 1, 3) == hours
            &&& digits_at(s, 4, 6) && number_at(s, 4, 6) == minutes
        }),
{
    lemma_written(hours, 2);
    lemma_written(minutes, 2);
    let s = distance(sign, hours, minutes);
    assert(s.len() == 6 && seq!['Z'].len() == 1);
    assert(s.subrange(1, 3) =~= written(hours, 2));
    assert(s.subrange(4, 6) =~= written(minutes, 2));
}

/// Nothing else names an instant: what does has the shape of a date-time, with a day
/// that its month has and a time that the clock shows.
pub proof fn only_a_date_time_names_an_instant(s: Seq<char>)
    requires
        instant(s) is Some,
    ensures
        s.len() >= 20,
        digits_at(s, 0, 4) && digits_at(s, 5, 7) && digits_at(s, 8, 10),
        digits_at(s, 11, 13) && digits_at(s, 14, 16) && digits_at(s, 17, 19),
        s[4] == '-' && s[7] == '-' && s[10] == 'T' && s[13] == ':' && s[16] == ':',
        1 <= number_at(s, 5, 7) <= 12,
        1 <= number_at(s, 8, 10) <= days_in_month(number_at(s, 0, 4), number_at(s, 5, 7)),
        number_at(s, 11, 13) <= 23,
        number_at(s, 14, 16) <= 59,
        number_at(s, 17, 19) <= 60,
        s.last() == 'Z' || (s[s.len() - 3] == ':' && (s[s.len() - 6] == '+' || s[s.len() - 6]
            == '-')),
{
    let behind = s.skip(19);
    let rest = (split_fraction(behind)->0).1;
    crate::text_laws::lemma_found(behind.skip(1), not_digit());
    assert(rest.len() > 0 && zone(rest) is Some) by {
        if rest == seq!['Z'] {
            assert(rest.len() == 1);
        }
    }
    let k = s.len() - rest.len();
    assert(rest == s.skip(k));
    if rest == seq!['Z'] {
        assert(rest[0] == 'Z');
        assert(s[k] == rest[0]);
    } else {
        assert(s[k] == rest[0] && s[k + 3] == rest[3]);
    }
}

/// The zeros at the end of a fraction, and only those, do not count.
pub proof fn zeros_at_the_end_do_not_count(s: Seq<char>, zeros: Seq<char>)
    requires
        s.len() == 0 || s.last() != '0',
        forall|i: int| 0 <= i < zeros.len() ==> #[trigger] zeros[i] == '0',
    ensures
        without_zeros(s + zeros) == s,
    decreases zeros.len(),
{
    if zeros.len() == 0 {
        assert(s + zeros == s);
    } else {
        zeros_at_the_end_do_not_count(s, zeros.drop_last());
        assert((s + zeros).drop_last() == s + zeros.drop_last());
    }
}

/// The lengths of the months: thirty days has September, April, June and November,
/// and February twenty-eight, in a leap year one more.
pub proof fn the_lengths_of_the_months(year: int, month: int)
    requires
        1 <= month <= 12,
    ensures
        month == 4 || month == 6 || month == 9 || month == 11 ==> days_in_month(year, month) == 30,
        month == 2 && year % 4 != 0 ==> days_in_month(year, month) == 28,
        month == 2 && year % 100 == 0 && year % 400 != 0 ==> days_in_month(year, month) == 28,
        month == 2 && year % 4 == 0 && year % 100 != 0 ==> days_in_month(year, month) == 29,
        month == 2 && year % 400 == 0 ==> days_in_month(year, month) == 29,
        month != 2 && month != 4 && month != 6 && month != 9 && month != 11 ==> days_in_month(
            year,
            month,
        ) == 31,
{
}

// --- reading -------------------------------------------------------------------

/// The number that up to four digits write.
fn read_number(v: &Vec<char>, from: usize, to: usize) -> (r: Option<i64>)
    requires
        from <= to <= v@.len(),
        to - from <= 4,
    ensures
        r is Some <==> digits_at(v@, from as int, to as int),
        r is Some ==> r->0 == number_at(v@, from as int, to as int),
        r is Some ==> 0 <= r->0 <= 9999,
        r is Some && to - from == 2 ==> r->0 <= 99,
{
    let d = text::slice_of(v, from, to);
    let mut n: i64 = 0;
    for i in 0..d.len()
        invariant
            d@ == v@.subrange(from as int, to as int),
            d@.len() <= 4,
            forall|j: int| 0 <= j < i ==> '0' <= #[trigger] d@[j] <= '9',
            n == text::value(d@.take(i as int)),
            i == 0 ==> n == 0,
            i == 1 ==> n <= 9,
            i == 2 ==> n <= 99,
            i == 3 ==> n <= 999,
            n <= 9999,
    {
        let c = d[i];
        if c < '0' || c > '9' {
            assert(!text::all_digits(d@)) by {
                assert(d@[i as int] == c);
            }
            return None;
        }
        assert(d@.take(i + 1).drop_last() == d@.take(i as int));
        assert(d@.take(i + 1).last() == c);
        n = n * 10 + (c as u32 - 48) as i64;
    }
    assert(d@.take(d@.len() as int) == d@);
    Some(n)
}

fn leap(year: i64) -> (r: bool)
    requires
        0 <= year,
    ensures
        r == is_leap(year as int),
{
    year % 4 == 0 && (year % 100 != 0 || year % 400 == 0)
}

fn month_days(year: i64, month: i64) -> (r: i64)
    requires
        0 <= year,
    ensures
        r == days_in_month(year as int, month as int),
{
    if month == 2 {
        if leap(year) {
            29
        } else {
            28
        }
    } else if month == 4 || month == 6 || month == 9 || month == 11 {
        30
    } else {
        31
    }
}

fn days_to(year: i64, month: i64, day: i64) -> (r: i64)
    requires
        is_date(year as int, month as int, day as int),
        year <= 9999,
    ensures
        r == day_number(year as int, month as int, day as int),
        0 <= r <= 4_000_000,
{
    let mut days: i64 = 365 * year + (year + 3) / 4 - (year + 99) / 100 + (year + 399) / 400;
    proof {
        days_before_a_year_in_closed_form(year as int);
    }
    let ghost start = days as int;
    let mut m: i64 = 1;
    while m < month
        invariant
            0 <= year,
            1 <= m <= month <= 12,
            0 <= start <= 3_660_000,
            days == start + days_before_month(year as int, m as int),
        decreases month - m,
    {
        proof {
            lemma_days_before_month(year as int, m as int);
        }
        days = days + month_days(year, m);
        m = m + 1;
    }
    proof {
        lemma_days_before_month(year as int, month as int);
    }
    days + day - 1
}

fn read_clock(v: &Vec<char>) -> (r: Option<i64>)
    ensures
        match r {
            Some(n) => clock(v@) == Some(n as int) && 0 <= n <= 400_000_000_000,
            None => clock(v@) is None,
        },
{
    if v.len() < 19 || v[4] != '-' || v[7] != '-' || v[10] != 'T' || v[13] != ':' || v[16] != ':' {
        return None;
    }
    match (
        read_number(v, 0, 4),
        read_number(v, 5, 7),
        read_number(v, 8, 10),
        read_number(v, 11, 13),
        read_number(v, 14, 16),
        read_number(v, 17, 19),
    ) {
        (Some(year), Some(month), Some(day), Some(hour), Some(minute), Some(second)) => {
            if month < 1 || month > 12 || day < 1 || day > month_days(year, month) || hour > 23
                || minute > 59 || second > 60 {
                None
            } else {
                let days: i64 = days_to(year, month, day);
                Some(((days * 24 + hour) * 60 + minute) * 60 + second)
            }
        },
        _ => None,
    }
}

fn read_zone(v: &Vec<char>) -> (r: Option<i64>)
    ensures
        match r {
            Some(n) => zone(v@) == Some(n as int) && -90_000 <= n <= 90_000,
            None => zone(v@) is None,
        },
{
    if v.len() == 1 && v[0] == 'Z' {
        assert(v@ == seq!['Z']);
        return Some(0);
    }
    assert(v@ != seq!['Z']) by {
        if v@ == seq!['Z'] {
            assert(v@.len() == 1 && v@[0] == 'Z');
        }
    }
    if v.len() != 6 || (v[0] != '+' && v[0] != '-') || v[3] != ':' {
        return None;
    }
    match (read_number(v, 1, 3), read_number(v, 4, 6)) {
        (Some(hours), Some(minutes)) => {
            if hours > 23 || minutes > 59 {
                None
            } else {
                let ahead: i64 = (hours * 60 + minutes) * 60;
                if v[0] == '+' {
                    Some(ahead)
                } else {
                    Some(-ahead)
                }
            }
        },
        _ => None,
    }
}

fn read_fraction(v: &Vec<char>) -> (r: Option<(Vec<char>, Vec<char>)>)
    ensures
        match r {
            Some((fraction, rest)) => split_fraction(v@) == Some((fraction@, rest@)),
            None => split_fraction(v@) is None,
        },
{
    if v.len() == 0 || v[0] != '.' {
        let rest = text::slice_of(v, 0, v.len());
        assert(rest@ == v@);
        return Some((Vec::new(), rest));
    }
    let mut i: usize = 1;
    while i < v.len() && '0' <= v[i] && v[i] <= '9'
        invariant
            1 <= i <= v@.len(),
            forall|j: int| 1 <= j < i ==> '0' <= #[trigger] v@[j] <= '9',
        decreases v@.len() - i,
    {
        i += 1;
    }
    proof {
        let behind = v@.skip(1);
        assert(forall|j: int| 0 <= j < behind.len() ==> behind[j] == v@[j + 1]);
        text::lemma_find(behind, not_digit(), i - 1);
    }
    if i == 1 {
        return None;
    }
    let fraction = text::slice_of(v, 1, i);
    let rest = text::slice_of(v, i, v.len());
    assert(rest@ == v@.skip(i as int));
    Some((fraction, rest))
}

fn drop_zeros(v: Vec<char>) -> (r: Vec<char>)
    ensures
        r@ == without_zeros(v@),
{
    let mut d = v;
    while d.len() > 0 && d[d.len() - 1] == '0'
        invariant
            without_zeros(d@) == without_zeros(v@),
        decreases d@.len(),
    {
        d.pop();
    }
    d
}

/// Read a date-time; `None` where it is none.
pub fn read_instant(s: &str) -> (r: Option<Instant>)
    ensures
        match r {
            Some(t) => instant(s@) == Some(t@),
            None => instant(s@) is None,
        },
{
    let v = text::chars_of(s);
    let local: i64 = match read_clock(&v) {
        Some(n) => n,
        None => {
            return None;
        },
    };
    let behind = text::slice_of(&v, 19, v.len());
    assert(behind@ == s@.skip(19));
    let (fraction, rest) = match read_fraction(&behind) {
        Some(parts) => parts,
        None => {
            return None;
        },
    };
    match read_zone(&rest) {
        Some(ahead) => Some(Instant { seconds: local - ahead, fraction: drop_zeros(fraction) }),
        None => None,
    }
}

/// Whether `a` lies before `b`.
pub fn is_earlier(a: &Instant, b: &Instant) -> (r: bool)
    ensures
        r == earlier(a@, b@),
{
    a.seconds < b.seconds || (a.seconds == b.seconds && text::chars_before(&a.fraction, &b.fraction))
}

} // verus!
