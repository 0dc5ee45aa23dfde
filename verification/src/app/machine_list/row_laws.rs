//! What becomes of a row: how its MAC address is checked, what a result writes into
//! it, and how the status of an action comes and goes.

use vstd::prelude::*;

use super::model::{self, ListView, RowView, UpdateView};
use super::{Action, Effect, Modify, ModifyKind};
use crate::bmc::{BootAction, BootOverride, Health, PowerAction, PowerPollView, PowerState};
use crate::inventory::MachineView;
use crate::text;

verus! {

// --- the MAC address -----------------------------------------------------------

/// Whether `c` is one of the twenty-two hexadecimal digits.
pub open spec fn hex_digit() -> spec_fn(char) -> bool {
    |c: char| "0123456789abcdefABCDEF"@.contains(c)
}

proof fn lemma_hex_digit(c: char)
    ensures
        (hex_digit())(c) == model::is_hex(c),
{
    reveal_strlit("0123456789abcdefABCDEF");
    let all = "0123456789abcdefABCDEF"@;
    assert(all.len() == 22);
    if '0' <= c <= '9' {
        assert(all[c as u32 - 48] == c);
    } else if 'a' <= c <= 'f' {
        assert(all[c as u32 - 87] == c);
    } else if 'A' <= c <= 'F' {
        assert(all[c as u32 - 49] == c);
    }
}

proof fn lemma_mac_digits(s: Seq<char>)
    ensures
        model::mac_digits(s) == text::lower(s.filter(hex_digit())),
    decreases s.len(),
{
    reveal(Seq::filter);
    if s.len() > 0 {
        lemma_mac_digits(s.drop_last());
        lemma_hex_digit(s.last());
        let front = s.drop_last().filter(hex_digit());
        assert(text::lower(front.push(s.last())) == text::lower(front).push(
            text::lower_char(s.last()),
        ));
    } else {
        assert(text::lower(s) == s);
    }
}

proof fn lemma_mac_digits_add(a: Seq<char>, b: Seq<char>)
    ensures
        model::mac_digits(a + b) == model::mac_digits(a) + model::mac_digits(b),
    decreases b.len(),
{
    if b.len() == 0 {
        assert(a + b == a);
    } else {
        assert((a + b).drop_last() == a + b.drop_last());
        lemma_mac_digits_add(a, b.drop_last());
    }
}

/// A row is at odds with the inventory exactly if both MAC addresses are known and
/// their hexadecimal digits, all of them and in small letters, differ.
pub proof fn a_mismatch_is_a_difference_in_the_digits(row: RowView)
    ensures
        row.machine.mac is None || row.observed_mac is None ==> !row.mac_mismatch(),
        row.machine.mac is Some && row.observed_mac is Some ==> (row.mac_mismatch()
            <==> text::lower(row.machine.mac->0.filter(hex_digit())) != text::lower(
            row.observed_mac->0.filter(hex_digit()),
        )),
{
    if row.machine.mac is Some && row.observed_mac is Some {
        lemma_mac_digits(row.machine.mac->0);
        lemma_mac_digits(row.observed_mac->0);
    }
}

/// Two addresses that differ in one digit are at odds, wherever it stands: `a`, a
/// digit and `b` against `a`, another digit and `b`.
pub proof fn one_other_digit_is_a_mismatch(
    row: RowView,
    a: Seq<char>,
    x: char,
    y: char,
    b: Seq<char>,
)
    requires
        row.machine.mac == Some(a + seq![x] + b),
        row.observed_mac == Some(a + seq![y] + b),
        (hex_digit())(x),
        (hex_digit())(y),
        text::lower_char(x) != text::lower_char(y),
    ensures
        row.mac_mismatch(),
{
    lemma_hex_digit(x);
    lemma_hex_digit(y);
    lemma_mac_digits_add(a + seq![x], b);
    lemma_mac_digits_add(a + seq![y], b);
    let n = model::mac_digits(a).len() as int;
    assert((a + seq![x]).drop_last() == a);
    assert((a + seq![y]).drop_last() == a);
    let p = model::mac_digits(a + seq![x] + b);
    let q = model::mac_digits(a + seq![y] + b);
    assert(p[n] == text::lower_char(x));
    assert(q[n] == text::lower_char(y));
}

/// Neither what stands between the digits nor the case of a digit makes two
/// addresses differ.
pub proof fn the_way_of_writing_is_no_mismatch(
    row: RowView,
    a: Seq<char>,
    x: char,
    y: char,
    b: Seq<char>,
    c: Seq<char>,
    sep: char,
)
    requires
        !(hex_digit())(sep),
        (hex_digit())(x),
        (hex_digit())(y),
        text::lower_char(x) == text::lower_char(y),
        row.machine.mac == Some(a + seq![x] + b + c),
        row.observed_mac == Some(a + seq![y] + b + seq![sep] + c),
    ensures
        !row.mac_mismatch(),
{
    lemma_hex_digit(sep);
    lemma_hex_digit(x);
    lemma_hex_digit(y);
    lemma_mac_digits_add(a + seq![x] + b, c);
    lemma_mac_digits_add(a + seq![y] + b + seq![sep], c);
    lemma_mac_digits_add(a + seq![x], b);
    lemma_mac_digits_add(a + seq![y], b);
    assert((a + seq![x]).drop_last() == a);
    assert((a + seq![y]).drop_last() == a);
    assert((a + seq![y] + b + seq![sep]).drop_last() == a + seq![y] + b);
}

// --- what a result writes ------------------------------------------------------

/// A row starts out with what the inventory says and nothing polled; the poll
/// intervals are at least a second, and the cursor is on the first row.
pub proof fn a_list_starts_unpolled(
    machines: Seq<MachineView>,
    poll_secs: u64,
    health_secs: u64,
    demo: bool,
    enhanced: bool,
    i: int,
)
    requires
        0 <= i < machines.len(),
    ensures
        ({
            let list = ListView::initial(machines, poll_secs, health_secs, demo, enhanced);
            let row = list.rows[i];
            &&& list.rows.len() == machines.len()
            &&& row.machine == machines[i]
            &&& row.serial == machines[i].serial
            &&& row.observed_mac is None
            &&& row.reachable is None
            &&& row.power == PowerState::Unknown
            &&& row.health == Health::Unknown
            &&& row.boot == BootOverride::Unset
            &&& !row.fault && !row.identify && !row.marked
            &&& row.latency == 0
            &&& row.modify is None
            &&& list.selected == Some(0usize)
            &&& list.modal is None && list.hold is None && !list.console_pending
            &&& list.last_fire is None
            &&& list.demo == demo && list.enhanced == enhanced
            &&& poll_secs > 0 ==> list.power_interval_secs == poll_secs
            &&& poll_secs == 0 ==> list.power_interval_secs == 1
            &&& health_secs > 0 ==> list.health_interval_secs == health_secs
            &&& health_secs == 0 ==> list.health_interval_secs == 1
        }),
{
}

/// A power result that reached the BMC writes its power state, flags, boot override
/// and latency into the row, and its serial and MAC address where it has them. The
/// machine, its health and its mark stay.
pub proof fn a_reachable_poll_is_written_into_its_row(
    list: ListView,
    idx: usize,
    poll: PowerPollView,
    now: u128,
)
    requires
        idx < list.rows.len(),
        poll.reachable,
    ensures
        ({
            let row = list.rows[idx as int];
            let (next, e) = list.update(UpdateView::Power { idx, poll }, now);
            let new = next.rows[idx as int];
            &&& new.reachable == Some(true)
            &&& new.power == poll.power
            &&& new.fault == poll.fault
            &&& new.identify == poll.identify
            &&& new.boot == poll.boot
            &&& new.latency == poll.latency
            &&& poll.serial is Some ==> new.serial == poll.serial
            &&& poll.serial is None ==> new.serial == row.serial
            &&& poll.mac is Some ==> new.observed_mac == poll.mac
            &&& poll.mac is None ==> new.observed_mac == row.observed_mac
            &&& new.machine == row.machine
            &&& new.health == row.health
            &&& new.marked == row.marked
            &&& next == ListView { rows: next.rows, ..list }
            &&& e == seq![Effect::Redraw]
        }),
{
}

/// A power result that did not reach the BMC shows the row as unreachable and leaves
/// everything that was known of it.
pub proof fn an_unreachable_poll_only_says_so(
    list: ListView,
    idx: usize,
    poll: PowerPollView,
    now: u128,
)
    requires
        idx < list.rows.len(),
        !poll.reachable,
    ensures
        ({
            let row = list.rows[idx as int];
            let (next, e) = list.update(UpdateView::Power { idx, poll }, now);
            let new = next.rows[idx as int];
            &&& new.reachable == Some(false)
            &&& new.power == row.power
            &&& new.fault == row.fault
            &&& new.identify == row.identify
            &&& new.boot == row.boot
            &&& new.latency == row.latency
            &&& new.serial == row.serial
            &&& new.observed_mac == row.observed_mac
            &&& new.machine == row.machine
            &&& new.health == row.health
            &&& new.marked == row.marked
            &&& next == ListView { rows: next.rows, ..list }
            &&& e == seq![Effect::Redraw]
        }),
{
}

/// A health result writes the health into its row, and nothing else.
pub proof fn a_health_is_written_into_its_row(list: ListView, idx: usize, health: Health, now: u128)
    requires
        idx < list.rows.len(),
    ensures
        ({
            let (next, e) = list.update(UpdateView::Health { idx, health: Some(health) }, now);
            &&& next.rows == list.rows.update(
                idx as int,
                RowView { health, ..list.rows[idx as int] },
            )
            &&& next == ListView { rows: next.rows, ..list }
            &&& e == seq![Effect::Redraw]
        }),
{
}

/// Every result asks for a frame, as its last effect.
pub proof fn every_result_is_drawn(list: ListView, u: UpdateView, now: u128)
    ensures
        list.update(u, now).1.len() > 0,
        list.update(u, now).1.last() == Effect::Redraw,
{
}

/// A result for a row that is not there changes nothing.
pub proof fn a_result_without_a_row_changes_nothing(list: ListView, u: UpdateView, now: u128)
    requires
        match u {
            UpdateView::Power { idx, .. } => idx >= list.rows.len(),
            UpdateView::Health { idx, .. } => idx >= list.rows.len(),
            UpdateView::ActionDone { idx, .. } => idx >= list.rows.len(),
            UpdateView::ModifyExpire { idx, .. } => idx >= list.rows.len(),
            UpdateView::HoldTick { .. } => list.hold is None,
        },
    ensures
        list.update(u, now) == (list, seq![Effect::Redraw]),
{
}

// --- the status of an action ---------------------------------------------------

/// A finished action is shown at once: on and off as the power state, an override
/// as the boot override, and no override as none. Cycle and reset leave the power
/// state, and what an action is not about it does not change.
pub proof fn a_finished_action_shows_what_it_did(
    list: ListView,
    idx: usize,
    seq: u64,
    action: Action,
    now: u128,
)
    requires
        idx < list.rows.len(),
        list.rows[idx as int].modify is Some,
        list.rows[idx as int].modify->0.seq == seq,
    ensures
        ({
            let row = list.rows[idx as int];
            let done = UpdateView::ActionDone { idx, seq, action, error: None };
            let (next, e) = list.update(done, now);
            let new = next.rows[idx as int];
            &&& action == Action::Power(PowerAction::On) ==> new.power == PowerState::On
            &&& action == Action::Power(PowerAction::ForceOff) ==> new.power == PowerState::Off
            &&& action == Action::Power(PowerAction::SoftOff) ==> new.power == PowerState::Off
            &&& action == Action::Power(PowerAction::Cycle) ==> new.power == row.power
            &&& action == Action::Power(PowerAction::Reset) ==> new.power == row.power
            &&& action is Boot ==> new.power == row.power
            &&& action == Action::Boot(BootAction::Pxe) ==> new.boot == BootOverride::Pxe
            &&& action == Action::Boot(BootAction::Disk) ==> new.boot == BootOverride::Disk
            &&& action == Action::Boot(BootAction::Bios) ==> new.boot == BootOverride::Bios
            &&& action == Action::Boot(BootAction::Cd) ==> new.boot == BootOverride::Cd
            &&& action == Action::Boot(BootAction::Clear) ==> new.boot == BootOverride::Unset
            &&& action is Power ==> new.boot == row.boot
            &&& new == RowView { power: new.power, boot: new.boot, modify: new.modify, ..row }
            &&& new.modify == Some(
                Modify { kind: ModifyKind::Done, seq, lingered: false, refreshed: false },
            )
            &&& next == ListView { rows: next.rows, ..list }
        }),
{
}

/// A failed action changes nothing of its row but the status, which says so.
pub proof fn a_failed_action_shows_that_it_failed(
    list: ListView,
    idx: usize,
    seq: u64,
    action: Action,
    error: Seq<char>,
    now: u128,
)
    requires
        idx < list.rows.len(),
        list.rows[idx as int].modify is Some,
        list.rows[idx as int].modify->0.seq == seq,
    ensures
        ({
            let row = list.rows[idx as int];
            let done = UpdateView::ActionDone { idx, seq, action, error: Some(error) };
            let next = list.update(done, now).0;
            next.rows[idx as int] == RowView {
                modify: Some(
                    Modify { kind: ModifyKind::Failed, seq, lingered: false, refreshed: false },
                ),
                ..row
            }
        }),
{
}

/// After an action, finished or failed, the row is polled for its real state and its
/// status is timed; nothing else is started.
pub proof fn a_returned_action_polls_its_row_and_lingers(
    list: ListView,
    idx: usize,
    seq: u64,
    action: Action,
    error: Option<Seq<char>>,
    now: u128,
)
    requires
        idx < list.rows.len(),
        list.rows[idx as int].modify is Some,
        list.rows[idx as int].modify->0.seq == seq,
    ensures
        ({
            let row = list.rows[idx as int];
            let e = list.update(UpdateView::ActionDone { idx, seq, action, error }, now).1;
            e == seq![
                Effect::PollPower {
                    idx,
                    fetch_static: row.serial is None || (row.machine.mac is Some
                        && row.observed_mac is None),
                },
                Effect::Linger { idx, seq },
                Effect::Redraw,
            ]
        }),
{
    let e = list.update(UpdateView::ActionDone { idx, seq, action, error }, now).1;
    assert(e.len() == 3);
}

/// How a status goes away: a poll that lands after the action has come back counts
/// as its refresh, its own timer as its lingering, and with the second of the two the
/// status is lifted. A poll while the action is still under way does not count.
pub proof fn a_status_is_lifted_by_the_second_of_the_two(
    list: ListView,
    idx: usize,
    poll: PowerPollView,
    seq: u64,
    now: u128,
)
    requires
        idx < list.rows.len(),
        list.rows[idx as int].modify is Some,
        !(list.rows[idx as int].modify->0.lingered && list.rows[idx as int].modify->0.refreshed),
    ensures
        ({
            let m = list.rows[idx as int].modify->0;
            let polled = list.update(UpdateView::Power { idx, poll }, now).0.rows[idx as int];
            let timed = list.update(UpdateView::ModifyExpire { idx, seq }, now).0.rows[idx as int];
            &&& m.kind is Busy ==> polled.modify == Some(m)
            &&& !(m.kind is Busy) && m.lingered ==> polled.modify is None
            &&& !(m.kind is Busy) && !m.lingered ==> polled.modify == Some(
                Modify { refreshed: true, ..m },
            )
            &&& m.seq == seq && m.refreshed ==> timed.modify is None
            &&& m.seq == seq && !m.refreshed ==> timed.modify == Some(
                Modify { lingered: true, ..m },
            )
            &&& m.seq != seq ==> timed.modify == Some(m)
            &&& timed == RowView { modify: timed.modify, ..list.rows[idx as int] }
        }),
{
}

/// A poll of a row without a status leaves it without one, and so does a timer.
pub proof fn no_status_comes_from_nowhere(
    list: ListView,
    idx: usize,
    poll: PowerPollView,
    seq: u64,
    now: u128,
)
    requires
        idx < list.rows.len(),
        list.rows[idx as int].modify is None,
    ensures
        list.update(UpdateView::Power { idx, poll }, now).0.rows[idx as int].modify is None,
        list.update(UpdateView::ModifyExpire { idx, seq }, now).0.rows[idx as int]
            == list.rows[idx as int],
{
}

} // verus!
