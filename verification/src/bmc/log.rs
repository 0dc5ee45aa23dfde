//! The order of an event log: newest first, by the instants that the entries'
//! times name. Times that name none come behind those that do; among themselves
//! they go by their text, so that an entry without a time comes last.

use vstd::prelude::*;

use super::stamp;
use super::{SelEntry, SelEntryView};
use crate::text;

verus! {

/// Whether the time `a` lies before the time `b`.
pub open spec fn older(a: Seq<char>, b: Seq<char>) -> bool {
    match (stamp::instant(a), stamp::instant(b)) {
        (Some(x), Some(y)) => stamp::earlier(x, y),
        (None, Some(_)) => true,
        (Some(_), None) => false,
        (None, None) => text::before(a, b),
    }
}

/// Whether neither of two times lies before the other.
pub open spec fn same_time(a: Seq<char>, b: Seq<char>) -> bool {
    !older(a, b) && !older(b, a)
}

proof fn lemma_older_one_way(a: Seq<char>, b: Seq<char>)
    requires
        older(a, b),
    ensures
        !older(b, a),
{
    match (stamp::instant(a), stamp::instant(b)) {
        (Some(x), Some(y)) => stamp::lemma_earlier_one_way(x, y),
        (None, None) => text::lemma_before_one_way(a, b),
        _ => {},
    }
}

proof fn lemma_not_older_chain(a: Seq<char>, b: Seq<char>, c: Seq<char>)
    requires
        !older(a, b),
        !older(b, c),
    ensures
        !older(a, c),
{
    match (stamp::instant(a), stamp::instant(b), stamp::instant(c)) {
        (Some(x), Some(y), Some(z)) => stamp::lemma_not_earlier_chain(x, y, z),
        (None, None, None) => text::lemma_not_before_chain(a, b, c),
        _ => {},
    }
}

/// Whether no entry's time lies before that of an entry behind it.
pub open spec fn in_order(log: Seq<SelEntryView>) -> bool {
    forall|i: int, j: int|
        0 <= i < j < log.len() ==> !older((#[trigger] log[i]).when, (#[trigger] log[j]).when)
}

/// Where an entry of the time `when` goes in `log`: behind all that are not older.
pub open spec fn place(log: Seq<SelEntryView>, when: Seq<char>) -> int
    decreases log.len(),
{
    if log.len() == 0 {
        0
    } else if older(log.last().when, when) {
        place(log.drop_last(), when)
    } else {
        log.len() as int
    }
}

/// The entries of `s`, newest first: each is put in its place among those ahead of
/// it in `s`.
pub open spec fn newest_first(s: Seq<SelEntryView>) -> Seq<SelEntryView>
    decreases s.len(),
{
    if s.len() == 0 {
        s
    } else {
        let log = newest_first(s.drop_last());
        log.insert(place(log, s.last().when), s.last())
    }
}

/// Where the entries that are not older than `when` end is its place.
proof fn lemma_is_place(log: Seq<SelEntryView>, when: Seq<char>, p: int)
    requires
        0 <= p <= log.len(),
        forall|i: int| 0 <= i < p ==> !older((#[trigger] log[i]).when, when),
        forall|i: int| p <= i < log.len() ==> older((#[trigger] log[i]).when, when),
    ensures
        place(log, when) == p,
    decreases log.len(),
{
    if p < log.len() {
        lemma_is_place(log.drop_last(), when, p);
    }
}

/// In a log in order, the entries that are not older than `when` are those ahead of
/// its place.
proof fn lemma_place_divides(log: Seq<SelEntryView>, when: Seq<char>)
    requires
        in_order(log),
    ensures
        0 <= place(log, when) <= log.len(),
        forall|i: int|
            0 <= i < place(log, when) ==> !older((#[trigger] log[i]).when, when),
        forall|i: int|
            place(log, when) <= i < log.len() ==> older((#[trigger] log[i]).when, when),
    decreases log.len(),
{
    if log.len() > 0 {
        if older(log.last().when, when) {
            lemma_place_divides(log.drop_last(), when);
            assert forall|i: int| 0 <= i < place(log, when) implies !older(
                (#[trigger] log[i]).when,
                when,
            ) by {
                assert(log.drop_last()[i] == log[i]);
            }
            assert forall|i: int| place(log, when) <= i < log.len() implies older(
                (#[trigger] log[i]).when,
                when,
            ) by {
                if i < log.len() - 1 {
                    assert(log.drop_last()[i] == log[i]);
                }
            }
        } else {
            assert forall|i: int| 0 <= i < log.len() implies !older(
                (#[trigger] log[i]).when,
                when,
            ) by {
                if i < log.len() - 1 {
                    lemma_not_older_chain(log[i].when, log.last().when, when);
                }
            }
        }
    }
}

/// An entry put in its place leaves the log in order.
proof fn lemma_stays_in_order(log: Seq<SelEntryView>, e: SelEntryView)
    requires
        in_order(log),
    ensures
        in_order(log.insert(place(log, e.when), e)),
{
    let p = place(log, e.when);
    let next = log.insert(p, e);
    lemma_place_divides(log, e.when);
    assert forall|i: int, j: int| 0 <= i < j < next.len() implies !older(
        (#[trigger] next[i]).when,
        (#[trigger] next[j]).when,
    ) by {
        if i == p {
            lemma_older_one_way(log[j - 1].when, e.when);
        }
    }
}

/// No entry's time lies before that of an entry behind it.
pub proof fn the_newest_comes_first(s: Seq<SelEntryView>)
    ensures
        in_order(newest_first(s)),
    decreases s.len(),
{
    if s.len() > 0 {
        the_newest_comes_first(s.drop_last());
        lemma_stays_in_order(newest_first(s.drop_last()), s.last());
    }
}

/// Behind a time that names no instant comes none that does.
pub proof fn times_that_name_no_instant_come_last(s: Seq<SelEntryView>, i: int, j: int)
    requires
        0 <= i < j < s.len(),
        stamp::instant(newest_first(s)[i].when) is None,
    ensures
        stamp::instant(newest_first(s)[j].when) is None,
{
    the_newest_comes_first(s);
    no_entry_is_lost(s);
}

/// Putting a log in order neither loses nor adds an entry.
pub proof fn no_entry_is_lost(s: Seq<SelEntryView>)
    ensures
        newest_first(s).len() == s.len(),
        newest_first(s).to_multiset() == s.to_multiset(),
    decreases s.len(),
{
    if s.len() > 0 {
        let log = newest_first(s.drop_last());
        no_entry_is_lost(s.drop_last());
        the_newest_comes_first(s.drop_last());
        lemma_place_divides(log, s.last().when);
        vstd::seq_lib::to_multiset_insert(log, place(log, s.last().when), s.last());
        s.drop_last().to_multiset_ensures();
        assert(s.drop_last().push(s.last()) == s);
    }
}

/// Whether an entry has the time `when`.
pub open spec fn has_time(when: Seq<char>) -> spec_fn(SelEntryView) -> bool {
    |e: SelEntryView| same_time(e.when, when)
}

/// The entries of the time `when`.
pub open spec fn of_time(s: Seq<SelEntryView>, when: Seq<char>) -> Seq<SelEntryView> {
    s.filter(has_time(when))
}

proof fn lemma_none_of_time(s: Seq<SelEntryView>, when: Seq<char>)
    requires
        forall|i: int| 0 <= i < s.len() ==> !same_time((#[trigger] s[i]).when, when),
    ensures
        of_time(s, when) == Seq::<SelEntryView>::empty(),
    decreases s.len(),
{
    reveal(Seq::filter);
    if s.len() > 0 {
        lemma_none_of_time(s.drop_last(), when);
    }
}

/// Entries of one time stay in the order in which they came.
pub proof fn entries_of_one_time_keep_their_order(s: Seq<SelEntryView>, when: Seq<char>)
    ensures
        of_time(newest_first(s), when) == of_time(s, when),
    decreases s.len(),
{
    reveal(Seq::filter);
    if s.len() > 0 {
        let p = has_time(when);
        let e = s.last();
        let log = newest_first(s.drop_last());
        let k = place(log, e.when);
        entries_of_one_time_keep_their_order(s.drop_last(), when);
        the_newest_comes_first(s.drop_last());
        lemma_place_divides(log, e.when);
        let one = seq![e];
        lemma_none_of_time(one.drop_last(), when);
        assert(log.insert(k, e) == log.take(k) + one + log.skip(k));
        assert(log == log.take(k) + log.skip(k));
        Seq::filter_distributes_over_add(log.take(k) + one, log.skip(k), p);
        Seq::filter_distributes_over_add(log.take(k), one, p);
        Seq::filter_distributes_over_add(log.take(k), log.skip(k), p);
        if same_time(e.when, when) {
            assert forall|i: int| 0 <= i < log.skip(k).len() implies !same_time(
                (#[trigger] log.skip(k)[i]).when,
                when,
            ) by {
                assert(log.skip(k)[i] == log[k + i]);
                if same_time(log[k + i].when, when) {
                    lemma_not_older_chain(log[k + i].when, when, e.when);
                }
            }
            lemma_none_of_time(log.skip(k), when);
        }
    }
}

/// A log whose times only grow comes out turned round.
pub proof fn growing_times_are_turned_round(s: Seq<SelEntryView>)
    requires
        forall|i: int, j: int|
            0 <= i < j < s.len() ==> older(
                (#[trigger] s[i]).when,
                (#[trigger] s[j]).when,
            ),
    ensures
        newest_first(s) == s.reverse(),
    decreases s.len(),
{
    if s.len() > 0 {
        let front = s.drop_last();
        growing_times_are_turned_round(front);
        lemma_is_place(front.reverse(), s.last().when, 0);
        assert(front.reverse().insert(0, s.last()) == s.reverse());
    }
}

/// A log that is in order already stays as it is.
pub proof fn a_log_in_order_is_kept(s: Seq<SelEntryView>)
    requires
        in_order(s),
    ensures
        newest_first(s) == s,
    decreases s.len(),
{
    if s.len() > 0 {
        let front = s.drop_last();
        a_log_in_order_is_kept(front);
        lemma_is_place(front, s.last().when, front.len() as int);
        assert(front.insert(front.len() as int, s.last()) == s);
    }
}

/// Whether the time `a` lies before the time `b`.
pub fn is_older(a: &str, b: &str) -> (r: bool)
    ensures
        r == older(a@, b@),
{
    match (stamp::read_instant(a), stamp::read_instant(b)) {
        (Some(x), Some(y)) => stamp::is_earlier(&x, &y),
        (None, Some(_)) => true,
        (Some(_), None) => false,
        (None, None) => text::is_before(a, b),
    }
}

/// The place of an entry of the time `when` in a log in order.
fn find_place(log: &Vec<SelEntry>, when: &str) -> (r: usize)
    requires
        in_order(super::entry_views(log@)),
    ensures
        r == place(super::entry_views(log@), when@),
{
    let ghost views = super::entry_views(log@);
    let mut low: usize = 0;
    let mut high: usize = log.len();
    proof {
        lemma_place_divides(views, when@);
    }
    while low < high
        invariant
            low <= high <= log@.len(),
            views == super::entry_views(log@),
            low <= place(views, when@) <= high,
            in_order(views),
        decreases high - low,
    {
        let mid: usize = low + (high - low) / 2;
        proof {
            lemma_place_divides(views, when@);
            assert(views[mid as int].when == log@[mid as int].when@);
        }
        if is_older(log[mid].when.as_str(), when) {
            high = mid;
        } else {
            low = mid + 1;
        }
    }
    low
}

/// Put a log in order, newest first.
pub fn put_in_order(entries: Vec<SelEntry>) -> (r: Vec<SelEntry>)
    ensures
        super::entry_views(r@) == newest_first(super::entry_views(entries@)),
{
    let ghost all = super::entry_views(entries@);
    let mut log: Vec<SelEntry> = Vec::new();
    assert(super::entry_views(log@) == newest_first(all.take(0)));
    for e in it: entries.into_iter()
        invariant
            it.seq() == entries@,
            all == super::entry_views(entries@),
            super::entry_views(log@) == newest_first(all.take(it.index())),
    {
        let ghost done = all.take(it.index());
        let ghost prior = log@;
        proof {
            the_newest_comes_first(done);
            lemma_place_divides(newest_first(done), e@.when);
            assert(all.take(it.index() + 1).drop_last() == done);
            assert(all.take(it.index() + 1).last() == e@);
        }
        let p: usize = find_place(&log, e.when.as_str());
        log.insert(p, e);
        assert(super::entry_views(log@) == super::entry_views(prior).insert(p as int, e@));
    }
    assert(all.take(all.len() as int) == all);
    log
}

/// Which of two times is the older: of two that name instants, the one with the
/// earlier second, or within a second the smaller part of it; one that names none is
/// older than one that does; of two that name none, the one whose text comes first.
pub proof fn which_time_is_older(a: Seq<char>, b: Seq<char>)
    ensures
        ({
            let x = stamp::instant(a);
            let y = stamp::instant(b);
            &&& x is Some && y is Some ==> {
                &&& x->0.seconds < y->0.seconds ==> older(a, b)
                &&& x->0.seconds > y->0.seconds ==> !older(a, b)
                &&& x->0.seconds == y->0.seconds ==> (older(a, b) <==> text::before(
                    x->0.fraction,
                    y->0.fraction,
                ))
            }
            &&& x is None && y is Some ==> older(a, b)
            &&& x is Some && y is None ==> !older(a, b)
            &&& x is None && y is None ==> (older(a, b) <==> text::before(a, b))
        }),
{
}

} // verus!
