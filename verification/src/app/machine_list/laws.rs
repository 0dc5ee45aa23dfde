//! What holds of the machine list as a whole.

use vstd::prelude::*;

use super::model::{self, ListView, RowView, UpdateView};
use super::{Action, Effect, ModalKind};
use crate::inventory::MachineView;
use crate::ratata::event::{Key, KeyKind, KeyPress};

verus! {

// --- the invariant -------------------------------------------------------------

proof fn lemma_marked(rows: Seq<RowView>)
    requires
        rows.len() <= usize::MAX,
    ensures
        model::marked_rows(rows).len() <= rows.len(),
        forall|k: int|
            0 <= k < model::marked_rows(rows).len() ==> {
                let i = #[trigger] model::marked_rows(rows)[k];
                i < rows.len() && rows[i as int].marked
            },
        forall|j: int, k: int|
            0 <= j < k < model::marked_rows(rows).len() ==> #[trigger] model::marked_rows(rows)[j]
                < #[trigger] model::marked_rows(rows)[k],
        forall|i: int|
            0 <= i < rows.len() && (#[trigger] rows[i]).marked ==> model::marked_rows(
                rows,
            ).contains(i as usize),
    decreases rows.len(),
{
    if rows.len() > 0 {
        let front = rows.drop_last();
        lemma_marked(front);
        let m = model::marked_rows(front);
        let n = model::marked_rows(rows);
        assert forall|i: int| 0 <= i < rows.len() && (#[trigger] rows[i]).marked implies n.contains(
            i as usize,
        ) by {
            if i < front.len() {
                assert(front[i].marked);
                let k = choose|k: int| 0 <= k < m.len() && m[k] == i as usize;
                assert(n[k] == i as usize);
            } else {
                assert(n[n.len() - 1] == i as usize);
            }
        }
    }
}

/// The targets are rows of the list.
pub proof fn lemma_targets(list: ListView)
    requires
        list.inv(),
    ensures
        forall|k: int|
            0 <= k < list.targets().len() ==> #[trigger] list.targets()[k] < list.rows.len(),
        forall|j: int, k: int|
            0 <= j < k < list.targets().len() ==> #[trigger] list.targets()[j]
                < #[trigger] list.targets()[k],
{
    lemma_marked(list.rows);
}

pub proof fn lemma_operations(rows: Seq<RowView>, targets: Seq<usize>, seq: u64)
    ensures
        model::operations(rows, targets, seq).len() <= targets.len(),
        forall|k: int|
            0 <= k < model::operations(rows, targets, seq).len() ==> {
                let i = (#[trigger] model::operations(rows, targets, seq)[k]).0;
                i < rows.len() && !rows[i as int].mac_mismatch() && targets.contains(i)
            },
    decreases targets.len(),
{
    if targets.len() > 0 {
        let front = targets.drop_last();
        lemma_operations(rows, front, seq);
        let ops = model::operations(rows, targets, seq);
        assert forall|k: int| 0 <= k < ops.len() implies {
            let i = (#[trigger] ops[k]).0;
            i < rows.len() && !rows[i as int].mac_mismatch() && targets.contains(i)
        } by {
            let i = ops[k].0;
            let before = model::operations(rows, front, seq);
            if k < before.len() {
                assert(before[k] == ops[k]);
                let j = choose|j: int| 0 <= j < front.len() && front[j] == i;
                assert(targets[j] == i);
            } else {
                assert(targets[targets.len() - 1] == i);
            }
        }
    }
}

pub proof fn lemma_all_busy(rows: Seq<RowView>, ops: Seq<(usize, u64)>)
    requires
        forall|k: int| 0 <= k < ops.len() ==> (#[trigger] ops[k]).0 < rows.len(),
    ensures
        model::all_busy(rows, ops).len() == rows.len(),
        forall|i: int|
            0 <= i < rows.len() ==> (RowView {
                modify: rows[i].modify,
                ..#[trigger] model::all_busy(rows, ops)[i]
            }) == rows[i],
        forall|i: int|
            0 <= i < rows.len() && (forall|k: int| 0 <= k < ops.len() ==> (#[trigger] ops[k]).0 != i)
                ==> #[trigger] model::all_busy(rows, ops)[i] == rows[i],
    decreases ops.len(),
{
    if ops.len() > 0 {
        let front = ops.drop_last();
        assert forall|k: int| 0 <= k < front.len() implies (#[trigger] front[k]).0 < rows.len() by {
            assert(front[k] == ops[k]);
        }
        lemma_all_busy(rows, front);
        assert(ops[ops.len() - 1] == ops.last());
        assert forall|i: int|
            0 <= i < rows.len() && (forall|k: int| 0 <= k < ops.len() ==> (#[trigger] ops[k]).0 != i) implies #[trigger] model::all_busy(
            rows,
            ops,
        )[i] == rows[i] by {
            assert forall|k: int| 0 <= k < front.len() implies (#[trigger] front[k]).0 != i by {
                assert(front[k] == ops[k]);
            }
            assert(model::all_busy(rows, front)[i] == rows[i]);
            assert(ops.last().0 != i);
        }
    }
}

proof fn commit_keeps_the_invariant(list: ListView, action: Action)
    requires
        list.inv(),
    ensures
        list.commit_action(action).0.inv(),
{
    if let Some(m) = list.modal {
        lemma_operations(list.rows, m.targets, list.seq);
        lemma_all_busy(list.rows, model::operations(list.rows, m.targets, list.seq));
    }
}

proof fn begin_keeps_the_invariant(list: ListView, action: Action, key: Key, now: u128)
    requires
        list.inv(),
        list.modal is Some,
        list.modal->0.kind.set().contains(action),
    ensures
        list.begin_action(action, key, now).0.inv(),
{
    commit_keeps_the_invariant(list, action);
}

proof fn modal_keys_keep_the_invariant(
    list: ListView,
    m: model::ModalView,
    code: Key,
    kind: KeyKind,
    now: u128,
)
    requires
        list.inv(),
        list.hold is None,
        list.modal == Some(m),
    ensures
        list.modal_key(m, code, kind, now).0.inv(),
{
    let actions = m.kind.set();
    model::lemma_wrap(m.cursor as int, 5);
    match code {
        Key::Char(ch) => {
            lemma_hotkey(actions, ch);
            let i = model::hotkey(actions, ch);
            if i < actions.len() {
                assert(actions.contains(actions[i]));
                begin_keeps_the_invariant(
                    list.set_modal_cursor(i as usize),
                    actions[i],
                    code,
                    now,
                );
            }
        },
        Key::Enter => {
            assert(actions.contains(actions[m.cursor as int]));
            begin_keeps_the_invariant(list, actions[m.cursor as int], Key::Enter, now);
        },
        _ => {},
    }
}

proof fn list_keys_keep_the_invariant(list: ListView, code: Key, kind: KeyKind)
    requires
        list.inv(),
        list.modal is None,
    ensures
        list.list_key(code, kind).0.inv(),
{
    lemma_targets(list);
    if list.rows.len() > 0 {
        model::lemma_wrap(list.selected->0 as int, list.rows.len() as int);
    }
}

/// Every step that a key causes keeps the invariant of the list.
pub proof fn keys_keep_the_invariant(list: ListView, key: KeyPress, now: u128)
    requires
        list.inv(),
    ensures
        list.key(key, now).0.inv(),
{
    match (list.hold, list.modal) {
        (Some(_), _) => {},
        (None, Some(m)) => {
            modal_keys_keep_the_invariant(list, m, key.code, key.kind, now);
        },
        (None, None) => {
            list_keys_keep_the_invariant(list.forget_fire(now), key.code, key.kind);
        },
    }
}

/// Every result of a task keeps the invariant of the list.
pub proof fn updates_keep_the_invariant(list: ListView, u: UpdateView, now: u128)
    requires
        list.inv(),
    ensures
        list.update(u, now).0.inv(),
{
    if let UpdateView::HoldTick { seq } = u {
        if let Some(h) = list.hold {
            commit_keeps_the_invariant(
                ListView { last_fire: Some((h.key, now)), ..list },
                h.action,
            );
        }
    }
}

proof fn lemma_hotkey(actions: Seq<Action>, ch: char)
    ensures
        0 <= model::hotkey(actions, ch) <= actions.len(),
        model::hotkey(actions, ch) < actions.len() ==> actions[model::hotkey(
            actions,
            ch,
        )].hotkey() == ch,
    decreases actions.len(),
{
    if actions.len() > 0 && actions[0].hotkey() != ch {
        lemma_hotkey(actions.drop_first(), ch);
    }
}

/// Something that happens to the list.
pub enum Input {
    Key { key: KeyPress, now: u128 },
    Update { update: UpdateView, now: u128 },
    ConsoleDone,
}

pub open spec fn step(list: ListView, input: Input) -> ListView {
    match input {
        Input::Key { key, now } => list.key(key, now).0,
        Input::Update { update, now } => list.update(update, now).0,
        Input::ConsoleDone => ListView { console_pending: false, ..list },
    }
}

/// The list after everything that happened to it.
pub open spec fn after(list: ListView, inputs: Seq<Input>) -> ListView
    decreases inputs.len(),
{
    if inputs.len() == 0 {
        list
    } else {
        step(after(list, inputs.drop_last()), inputs.last())
    }
}

/// Whatever happens to a list, its invariant holds, it has the same machines in
/// the same order, and its mode and its poll intervals stay.
pub proof fn a_list_keeps_its_machines_for_good(list: ListView, inputs: Seq<Input>)
    requires
        list.inv(),
    ensures
        after(list, inputs).inv(),
        after(list, inputs).rows.len() == list.rows.len(),
        forall|i: int|
            0 <= i < list.rows.len() ==> (#[trigger] after(list, inputs).rows[i]).machine
                == list.rows[i].machine,
        after(list, inputs).demo == list.demo,
        after(list, inputs).enhanced == list.enhanced,
        after(list, inputs).power_interval_secs == list.power_interval_secs,
        after(list, inputs).health_interval_secs == list.health_interval_secs,
    decreases inputs.len(),
{
    if inputs.len() > 0 {
        let mid = after(list, inputs.drop_last());
        a_list_keeps_its_machines_for_good(list, inputs.drop_last());
        match inputs.last() {
            Input::Key { key, now } => {
                keys_keep_the_invariant(mid, key, now);
                assert forall|i: int| 0 <= i < list.rows.len() implies (#[trigger] after(
                    list,
                    inputs,
                ).rows[i]).machine == list.rows[i].machine by {
                    keys_never_change_the_machines(mid, key, now, i);
                }
                key_keeps_the_settings(mid, key, now);
            },
            Input::Update { update, now } => {
                updates_keep_the_invariant(mid, update, now);
                assert forall|i: int| 0 <= i < list.rows.len() implies (#[trigger] after(
                    list,
                    inputs,
                ).rows[i]).machine == list.rows[i].machine by {
                    results_never_change_the_machines(mid, update, now, i);
                }
                update_keeps_the_settings(mid, update, now);
            },
            Input::ConsoleDone => {},
        }
    }
}

/// What no key and no result changes.
spec fn same_settings(list: ListView, next: ListView) -> bool {
    &&& next.demo == list.demo
    &&& next.enhanced == list.enhanced
    &&& next.power_interval_secs == list.power_interval_secs
    &&& next.health_interval_secs == list.health_interval_secs
    &&& next.rows.len() == list.rows.len()
}

proof fn list_key_keeps_the_settings(list: ListView, key: KeyPress)
    requires
        list.inv(),
    ensures
        same_settings(list, list.list_key(key.code, key.kind).0),
{
}

proof fn key_keeps_the_settings(list: ListView, key: KeyPress, now: u128)
    requires
        list.inv(),
    ensures
        same_settings(list, list.key(key, now).0),
{
    match (list.hold, list.modal) {
        (Some(_), _) => {},
        (None, Some(m)) => {
            modal_key_touches_only_the_status(list, m, key.code, key.kind, now);
        },
        (None, None) => {
            list_key_keeps_the_settings(list, key);
        },
    }
}

proof fn update_keeps_the_settings(list: ListView, u: UpdateView, now: u128)
    requires
        list.inv(),
    ensures
        same_settings(list, list.update(u, now).0),
{
    if let UpdateView::HoldTick { seq } = u {
        tick_keeps_rows(list, seq, now);
    }
}

/// A key event without the Control key.
pub open spec fn plain(code: Key, kind: KeyKind) -> KeyPress {
    KeyPress { code, kind, control: false }
}

// --- holding a key -------------------------------------------------------------

/// Whether a step starts an action on some row.
pub open spec fn starts_action(e: Seq<Effect>) -> bool {
    exists|k: int| 0 <= k < e.len() && #[trigger] e[k] is RunAction
}

/// A tick of the hold confirms the action exactly if the hold has been kept up
/// long enough; every other tick starts nothing and changes no row.
pub proof fn a_tick_confirms_only_a_kept_up_hold(list: ListView, seq: u64, now: u128)
    requires
        list.inv(),
    ensures
        list.fires(seq, now) ==> list.advance_hold(seq, now) == (ListView {
            last_fire: Some((list.hold->0.key, now)),
            ..list
        }).commit_action(list.hold->0.action),
        !list.fires(seq, now) ==> !starts_action(list.advance_hold(seq, now).1) && list.advance_hold(
            seq,
            now,
        ).0.rows == list.rows,
{
}

/// A hold that confirms an action was kept up: the key was still seen three
/// quarters of a second after it went down.
pub proof fn a_confirmed_hold_was_kept_up(list: ListView, seq: u64, now: u128)
    requires
        list.fires(seq, now),
    ensures
        list.hold is Some,
        now >= list.hold->0.started + super::HOLD_DURATION,
        list.hold->0.last_beat >= list.hold->0.started + (super::HOLD_DURATION
            - super::HEARTBEAT_TIMEOUT),
{
}

/// The list after ticks of a hold, each with its number and time.
pub open spec fn after_ticks(list: ListView, ticks: Seq<(u64, u128)>) -> ListView
    decreases ticks.len(),
{
    if ticks.len() == 0 {
        list
    } else {
        after_ticks(list, ticks.drop_last()).advance_hold(ticks.last().0, ticks.last().1).0
    }
}

/// A quick tap never completes: as long as the held key is not seen again after
/// it went down, no tick at any time starts an action or changes a row.
pub proof fn a_tap_never_confirms(list: ListView, ticks: Seq<(u64, u128)>, seq: u64, now: u128)
    requires
        list.inv(),
        list.hold is Some,
        list.hold->0.last_beat == list.hold->0.started,
    ensures
        after_ticks(list, ticks).rows == list.rows,
        !starts_action(after_ticks(list, ticks).advance_hold(seq, now).1),
        !after_ticks(list, ticks).fires(seq, now),
{
    lemma_tap(list, ticks);
    let mid = after_ticks(list, ticks);
    assert(!mid.fires(seq, now));
    assert(!starts_action(mid.advance_hold(seq, now).1));
}

proof fn lemma_tap(list: ListView, ticks: Seq<(u64, u128)>)
    requires
        list.inv(),
        list.hold is Some,
        list.hold->0.last_beat == list.hold->0.started,
    ensures
        after_ticks(list, ticks).rows == list.rows,
        after_ticks(list, ticks).hold is Some ==> after_ticks(list, ticks).hold->0.last_beat
            == after_ticks(list, ticks).hold->0.started,
    decreases ticks.len(),
{
    if ticks.len() > 0 {
        lemma_tap(list, ticks.drop_last());
    }
}

/// On enhanced terminals releasing the key cancels the hold, with Control or
/// without: the modal stays open, no row changes, and ticks that are still under
/// way do nothing more.
pub proof fn releasing_the_key_cancels(
    list: ListView,
    key: KeyPress,
    now: u128,
    seq: u64,
    later: u128,
)
    requires
        list.inv(),
        list.hold is Some,
        key.code == list.hold->0.key,
        key.kind is Release,
    ensures
        ({
            let (next, r) = list.key(key, now);
            &&& next == ListView { hold: None, ..list }
            &&& r == model::effects(seq![Effect::Redraw])
            &&& next.advance_hold(seq, later) == (next, Seq::<Effect>::empty())
        }),
{
}

/// On enhanced terminals no key starts an action by itself; only a tick of a
/// hold does.
pub proof fn no_key_starts_an_action_when_enhanced(
    list: ListView,
    key: KeyPress,
    now: u128,
)
    requires
        list.inv(),
        list.enhanced,
    ensures
        !starts_action(list.key(key, now).1.effects),
{
    let (next, r) = list.key(key, now);
    if let Some(m) = list.modal {
        if let Key::Char(ch) = key.code {
            lemma_hotkey(m.kind.set(), ch);
        }
    }
    assert forall|k: int| 0 <= k < r.effects.len() implies !(#[trigger] r.effects[k] is RunAction) by {
        let polls = model::power_polls(list.rows);
        if k < polls.len() {
            assert(polls[k] is PollPower);
        }
    }
}

/// On legacy terminals there is never a hold: a single press of Enter or of a
/// hotkey commits at once.
pub proof fn a_press_commits_at_once_on_legacy_terminals(list: ListView, now: u128, ch: char)
    requires
        list.inv(),
        !list.enhanced,
        list.modal is Some,
        list.hold is None,
    ensures
        ({
            let m = list.modal->0;
            let (next, r) = list.key(plain(Key::Enter, KeyKind::Press), now);
            next == list.commit_action(m.kind.set()[m.cursor as int]).0 && r.effects
                == list.commit_action(m.kind.set()[m.cursor as int]).1
        }),
        ({
            let m = list.modal->0;
            let i = model::hotkey(m.kind.set(), ch);
            let (next, r) = list.key(plain(Key::Char(ch), KeyKind::Press), now);
            i < m.kind.set().len() ==> next == list.commit_action(m.kind.set()[i]).0 && r.effects
                == list.commit_action(m.kind.set()[i]).1
        }),
{
    lemma_hotkey(list.modal->0.kind.set(), ch);
}

/// A terminal without key releases never holds.
pub proof fn legacy_terminals_never_hold(list: ListView, key: KeyPress, now: u128, u: UpdateView)
    requires
        list.inv(),
        !list.enhanced,
        list.hold is None,
    ensures
        list.key(key, now).0.hold is None,
        !list.key(key, now).0.enhanced,
        list.update(u, now).0.hold is None,
        !list.update(u, now).0.enhanced,
{
}

/// After a hold has confirmed its action, the key's lingering auto-repeat is
/// swallowed: it does not act on the list.
pub proof fn the_confirming_key_does_not_leak(
    list: ListView,
    seq: u64,
    fired: u128,
    key: KeyPress,
    now: u128,
)
    requires
        list.inv(),
        list.fires(seq, fired),
        key.code == list.hold->0.key,
        model::since(fired, now) < super::HEARTBEAT_TIMEOUT,
    ensures
        ({
            let next = list.advance_hold(seq, fired).0;
            next.key(key, now) == (next, model::nothing())
        }),
{
}

/// A hold is kept up by its own key alone: another key leaves it as it is or ends
/// it, and so does every result.
pub proof fn only_the_held_key_keeps_a_hold_up(
    list: ListView,
    key: KeyPress,
    u: UpdateView,
    now: u128,
)
    requires
        list.inv(),
        list.hold is Some,
    ensures
        ({
            let h = list.hold->0;
            let next = list.key(key, now).0.hold;
            &&& next is None || next == Some(h) || (key.code == h.key && !model::is_chord(key)
                && !(key.kind is Release) && next
                == Some(super::Hold { last_beat: now, ..h }))
            &&& key.kind is Press && key.code is Esc && key.code != h.key ==> next is None
            &&& list.update(u, now).0.hold is None || list.update(u, now).0.hold == Some(h)
        }),
{
}

proof fn lemma_begun_hold(list: ListView, action: Action, key: Key, now: u128)
    requires
        list.hold is None,
    ensures
        ({
            let next = list.begin_action(action, key, now).0.hold;
            next is Some ==> next->0.key == key && next->0.started == now && next->0.last_beat
                == now
        }),
{
}

/// A hold that a key leaves behind was there before, was kept up by that key, or
/// began with the press of it.
proof fn lemma_where_holds_come_from(list: ListView, key: KeyPress, now: u128)
    requires
        list.inv(),
        list.key(key, now).0.hold is Some,
    ensures
        ({
            let next = list.key(key, now).0.hold->0;
            ||| list.hold == Some(next)
            ||| list.hold is Some && key.code == next.key && !model::is_chord(key) && !(
            key.kind is Release) && next.last_beat == now && next.key == list.hold->0.key
                && next.started == list.hold->0.started
            ||| key.code == next.key && !model::is_chord(key) && key.kind is Press && next.started
                == now && next.last_beat == now
        }),
{
    match (list.hold, list.modal) {
        (Some(_), _) => {},
        (None, Some(m)) => {
            let actions = m.kind.set();
            match key.code {
                Key::Char(ch) => {
                    lemma_hotkey(actions, ch);
                    let i = model::hotkey(actions, ch);
                    if i < actions.len() {
                        lemma_begun_hold(
                            list.set_modal_cursor(i as usize),
                            actions[i],
                            key.code,
                            now,
                        );
                    }
                },
                Key::Enter => {
                    lemma_begun_hold(list, actions[m.cursor as int], Key::Enter, now);
                },
                _ => {},
            }
        },
        (None, None) => {},
    }
}

/// Whether `input` is an event of the key `code`, and no chord, at the time `t`: it
/// went down or stayed down.
pub open spec fn is_down(input: Input, code: Key, t: u128) -> bool {
    input matches Input::Key { key, now } && key.code == code && !(key.kind is Release)
        && !model::is_chord(key) && now == t
}

/// Whether the key `code`, and no chord, went down at the time `t`.
pub open spec fn is_press(input: Input, code: Key, t: u128) -> bool {
    input matches Input::Key { key, now } && key.code == code && key.kind is Press
        && !model::is_chord(key) && now == t
}

/// A hold goes back to events of its key: the press that it began with and the
/// last one that it was kept up by.
proof fn lemma_holds_go_back_to_keys(list: ListView, inputs: Seq<Input>)
    requires
        list.inv(),
        list.hold is None,
        after(list, inputs).hold is Some,
    ensures
        ({
            let h = after(list, inputs).hold->0;
            &&& exists|p: int|
                0 <= p < inputs.len() && is_press(#[trigger] inputs[p], h.key, h.started)
            &&& exists|q: int|
                0 <= q < inputs.len() && is_down(#[trigger] inputs[q], h.key, h.last_beat)
        }),
    decreases inputs.len(),
{
    if inputs.len() > 0 {
        let front = inputs.drop_last();
        let mid = after(list, front);
        a_list_keeps_its_machines_for_good(list, front);
        if mid.hold is Some {
            lemma_holds_go_back_to_keys(list, front);
            let g = mid.hold->0;
            let p = choose|p: int|
                0 <= p < front.len() && is_press(#[trigger] front[p], g.key, g.started);
            let q = choose|q: int|
                0 <= q < front.len() && is_down(#[trigger] front[q], g.key, g.last_beat);
            assert(is_press(inputs[p], g.key, g.started));
            assert(is_down(inputs[q], g.key, g.last_beat));
        }
        match inputs.last() {
            Input::Key { key, now } => {
                lemma_where_holds_come_from(mid, key, now);
                let n = inputs.len() - 1;
                assert(inputs[n] == inputs.last());
            },
            Input::Update { update, now } => {
                lemma_updates_begin_no_hold(mid, update, now);
            },
            Input::ConsoleDone => {},
        }
    }
}

proof fn lemma_updates_begin_no_hold(list: ListView, u: UpdateView, now: u128)
    ensures
        list.update(u, now).0.hold is None || list.update(u, now).0.hold == list.hold,
{
}

/// A stray keypress cannot start anything: on an enhanced terminal, whatever has
/// happened to a list since it was opened, a result that starts an action is a
/// tick at least a second and a half after a key was pressed, and that key was
/// still down three quarters of a second after the press.
pub proof fn an_action_takes_a_held_key(
    list: ListView,
    inputs: Seq<Input>,
    u: UpdateView,
    now: u128,
)
    requires
        list.inv(),
        list.enhanced,
        list.hold is None,
        starts_action(after(list, inputs).update(u, now).1),
    ensures
        exists|p: int, q: int, code: Key, pressed: u128, seen: u128|
            #![trigger is_press(inputs[p], code, pressed), is_down(inputs[q], code, seen)]
            0 <= p < inputs.len() && 0 <= q < inputs.len() && is_press(inputs[p], code, pressed)
                && is_down(inputs[q], code, seen) && now >= pressed + super::HOLD_DURATION && seen
                >= pressed + (super::HOLD_DURATION - super::HEARTBEAT_TIMEOUT),
{
    let mid = after(list, inputs);
    a_list_keeps_its_machines_for_good(list, inputs);
    let e = mid.update(u, now).1;
    let k = choose|k: int| 0 <= k < e.len() && #[trigger] e[k] is RunAction;
    assert(u is HoldTick);
    let seq = u->HoldTick_seq;
    let ticked = mid.advance_hold(seq, now).1;
    assert(e == ticked.push(Effect::Redraw));
    assert(k < ticked.len());
    assert(ticked[k] is RunAction);
    a_tick_confirms_only_a_kept_up_hold(mid, seq, now);
    assert(mid.fires(seq, now));
    a_confirmed_hold_was_kept_up(mid, seq, now);
    lemma_holds_go_back_to_keys(list, inputs);
    let h = mid.hold->0;
    let p = choose|p: int|
        0 <= p < inputs.len() && is_press(#[trigger] inputs[p], h.key, h.started);
    let q = choose|q: int|
        0 <= q < inputs.len() && is_down(#[trigger] inputs[q], h.key, h.last_beat);
    assert(is_press(inputs[p], h.key, h.started) && is_down(inputs[q], h.key, h.last_beat));
}

// --- which rows an action reaches ----------------------------------------------

/// The targets of a modal are the marked rows; if none is marked, the row under
/// the cursor.
pub proof fn targets_are_the_marked_rows_or_the_cursor(list: ListView)
    requires
        list.inv(),
    ensures
        forall|i: int|
            0 <= i < list.rows.len() && (#[trigger] list.rows[i]).marked ==> list.targets().contains(
                i as usize,
            ),
        (exists|i: int| 0 <= i < list.rows.len() && (#[trigger] list.rows[i]).marked) ==> forall|
            k: int,
        |
            0 <= k < list.targets().len() ==> list.rows[#[trigger] list.targets()[k] as int].marked,
        (forall|i: int| 0 <= i < list.rows.len() ==> !(#[trigger] list.rows[i]).marked)
            && list.rows.len() > 0 ==> list.targets() == seq![list.selected->0],
{
    lemma_marked(list.rows);
    let marked = model::marked_rows(list.rows);
    if marked.len() > 0 {
        assert(list.rows[marked[0] as int].marked);
    }
}

/// Committing an action starts it on the modal's targets whose MAC address is
/// not at odds with the inventory, and on no other row.
pub proof fn an_action_reaches_the_targets_without_a_mismatch(list: ListView, action: Action)
    requires
        list.inv(),
        list.modal is Some,
    ensures
        ({
            let (next, e) = list.commit_action(action);
            let m = list.modal->0;
            &&& forall|k: int|
                0 <= k < e.len() && #[trigger] e[k] is RunAction ==> {
                    let idx = e[k]->RunAction_idx;
                    &&& m.targets.contains(idx)
                    &&& !list.rows[idx as int].mac_mismatch()
                    &&& e[k]->action == action
                    &&& e[k]->persistent == m.persistent
                }
            &&& forall|t: int|
                0 <= t < m.targets.len() && !list.rows[#[trigger] m.targets[t] as int].mac_mismatch()
                    ==> exists|k: int|
                    0 <= k < e.len() && #[trigger] e[k] is RunAction && e[k]->RunAction_idx
                        == m.targets[t]
        }),
{
    let m = list.modal->0;
    let ops = model::operations(list.rows, m.targets, list.seq);
    let (next, e) = list.commit_action(action);
    lemma_operations(list.rows, m.targets, list.seq);
    lemma_operations_complete(list.rows, m.targets, list.seq);
    assert forall|k: int| 0 <= k < e.len() && #[trigger] e[k] is RunAction implies {
        let idx = e[k]->RunAction_idx;
        &&& m.targets.contains(idx)
        &&& !list.rows[idx as int].mac_mismatch()
        &&& e[k]->action == action
        &&& e[k]->persistent == m.persistent
    } by {
        assert(e[k] == model::runs(ops, action, m.persistent)[k - 1]);
        assert(ops[k - 1].0 == e[k]->RunAction_idx);
    }
    assert forall|t: int|
        0 <= t < m.targets.len() && !list.rows[#[trigger] m.targets[t] as int].mac_mismatch() implies exists|
        k: int,
    |
        0 <= k < e.len() && #[trigger] e[k] is RunAction && e[k]->RunAction_idx == m.targets[t] by {
        let j = choose|j: int| 0 <= j < ops.len() && (#[trigger] ops[j]).0 == m.targets[t];
        assert(e[j + 1] == model::runs(ops, action, m.persistent)[j]);
    }
}

/// Every target without a MAC mismatch has its operation.
pub proof fn lemma_operations_complete(rows: Seq<RowView>, targets: Seq<usize>, seq: u64)
    ensures
        forall|t: int|
            0 <= t < targets.len() && #[trigger] targets[t] < rows.len()
                && !rows[targets[t] as int].mac_mismatch() ==> exists|j: int|
                0 <= j < model::operations(rows, targets, seq).len() && (
                #[trigger] model::operations(rows, targets, seq)[j]).0 == targets[t],
    decreases targets.len(),
{
    if targets.len() > 0 {
        let front = targets.drop_last();
        lemma_operations_complete(rows, front, seq);
        let ops = model::operations(rows, targets, seq);
        let before = model::operations(rows, front, seq);
        assert forall|t: int|
            0 <= t < targets.len() && #[trigger] targets[t] < rows.len()
                && !rows[targets[t] as int].mac_mismatch() implies exists|j: int|
            0 <= j < ops.len() && (#[trigger] ops[j]).0 == targets[t] by {
            if t < front.len() {
                assert(front[t] == targets[t]);
                let j = choose|j: int| 0 <= j < before.len() && (#[trigger] before[j]).0 == front[t];
                assert(ops[j] == before[j]);
            } else {
                assert(ops[ops.len() - 1].0 == targets[t]);
            }
        }
    }
}

proof fn lemma_operation_number(rows: Seq<RowView>, targets: Seq<usize>, seq: u64, k: int)
    requires
        0 <= k < model::operations(rows, targets, seq).len(),
    ensures
        model::operations(rows, targets, seq)[k].1 == model::number_after(seq, k as nat),
    decreases targets.len(),
{
    let front = model::operations(rows, targets.drop_last(), seq);
    if k < front.len() {
        lemma_operation_number(rows, targets.drop_last(), seq, k);
    }
}

/// Every operation of one commit has a number of its own, so that a late result
/// or timer of one is never taken for another's.
pub proof fn operations_have_different_numbers(
    rows: Seq<RowView>,
    targets: Seq<usize>,
    seq: u64,
    j: int,
    k: int,
)
    requires
        targets.len() <= usize::MAX,
        0 <= j < k < model::operations(rows, targets, seq).len(),
    ensures
        model::operations(rows, targets, seq)[j].1 != model::operations(rows, targets, seq)[k].1,
{
    lemma_operations(rows, targets, seq);
    lemma_operation_number(rows, targets, seq, j);
    lemma_operation_number(rows, targets, seq, k);
    let m = 0x1_0000_0000_0000_0000int;
    let a = seq + j;
    let b = seq + k;
    assert(a % m != b % m) by (nonlinear_arith)
        requires
            a < b,
            b - a < m,
            m == 0x1_0000_0000_0000_0000int,
    ;
}

proof fn lemma_keys_run_safely(list: ListView, key: KeyPress, now: u128, k: int)
    requires
        list.inv(),
    ensures
        ({
            let e = list.key(key, now).1.effects;
            0 <= k < e.len() && e[k] is RunAction ==> safe_run(list, e[k])
        }),
{
    if let Some(m) = list.modal {
        let actions = m.kind.set();
        let c = actions[m.cursor as int];
        an_action_reaches_the_targets_without_a_mismatch(list, c);
        if let Key::Char(ch) = key.code {
            lemma_hotkey(actions, ch);
            let i = model::hotkey(actions, ch);
            if i < actions.len() {
                an_action_reaches_the_targets_without_a_mismatch(
                    list.set_modal_cursor(i as usize),
                    actions[i],
                );
            }
        }
    } else {
        let polls = model::power_polls(list.rows);
        if 0 <= k < polls.len() {
            assert(polls[k] is PollPower);
        }
    }
}

proof fn lemma_updates_run_safely(list: ListView, u: UpdateView, now: u128, k: int)
    requires
        list.inv(),
    ensures
        ({
            let e = list.update(u, now).1;
            0 <= k < e.len() && e[k] is RunAction ==> safe_run(list, e[k])
        }),
{
    if let Some(h) = list.hold {
        let fired = ListView { last_fire: Some((h.key, now)), ..list };
        an_action_reaches_the_targets_without_a_mismatch(fired, h.action);
    }
}

/// No action is ever started on a row with a MAC mismatch, whatever key or
/// result arrives, and only while the modal with that action is open; a
/// persistent action is always a boot override.
pub proof fn mismatched_rows_are_never_acted_on(
    list: ListView,
    key: KeyPress,
    now: u128,
    u: UpdateView,
    k: int,
)
    requires
        list.inv(),
    ensures
        ({
            let e = list.key(key, now).1.effects;
            0 <= k < e.len() && e[k] is RunAction ==> safe_run(list, e[k])
        }),
        ({
            let e = list.update(u, now).1;
            0 <= k < e.len() && e[k] is RunAction ==> safe_run(list, e[k])
        }),
{
    lemma_keys_run_safely(list, key, now, k);
    lemma_updates_run_safely(list, u, now, k);
}

/// An action that may be started in the state `list`.
pub open spec fn safe_run(list: ListView, e: Effect) -> bool {
    &&& list.modal is Some
    &&& list.modal->0.targets.contains(e->RunAction_idx)
    &&& list.modal->0.kind.set().contains(e->action)
    &&& !list.rows[e->RunAction_idx as int].mac_mismatch()
    &&& e->persistent ==> e->action is Boot
}

/// A serial console is never opened to a machine with a MAC mismatch or without
/// IPMI, and never while another console is pending.
pub proof fn a_console_is_opened_only_where_it_is_safe(
    list: ListView,
    key: KeyPress,
    now: u128,
)
    requires
        list.inv(),
        list.key(key, now).1.console is Some,
    ensures
        !list.console_pending,
        list.key(key, now).0.console_pending,
        list.selected is Some,
        ({
            let row = list.rows[list.selected->0 as int];
            !list.demo ==> !row.mac_mismatch() && row.machine.protocol is Ipmi && list.key(
                key,
                now,
            ).1.console == Some(model::sol_console(row.machine))
        }),
{
}

/// The arguments of a serial console are the same whatever the password is.
pub proof fn console_arguments_do_not_hold_the_password(a: MachineView, b: MachineView)
    requires
        (MachineView { password: b.password, ..a }) == b,
    ensures
        model::sol_console(a).request.program == model::sol_console(b).request.program,
        model::sol_console(a).request.args == model::sol_console(b).request.args,
        model::sol_console(a).request.note == model::sol_console(b).request.note,
{
}

// --- the modification status ---------------------------------------------------

/// A modification status is lifted only when both have happened: its own linger
/// timer ran out, and a poll landed after the action had finished. Keys lift
/// none.
pub proof fn a_status_waits_for_linger_and_refresh(
    list: ListView,
    u: UpdateView,
    now: u128,
    i: int,
)
    requires
        list.inv(),
        0 <= i < list.rows.len(),
        list.rows[i].modify is Some,
        list.update(u, now).0.rows[i].modify is None,
    ensures
        ({
            let m = list.rows[i].modify->0;
            &&& m.lingered || (u matches UpdateView::ModifyExpire { idx, seq } && idx == i && seq
                == m.seq)
            &&& m.refreshed || (u matches UpdateView::Power { idx, poll } && idx == i && !(
            m.kind is Busy))
        }),
{
    if let UpdateView::HoldTick { seq } = u {
        tick_keeps_rows(list, seq, now);
    }
}

proof fn tick_keeps_rows(list: ListView, seq: u64, now: u128)
    requires
        list.inv(),
    ensures
        ({
            let next = list.advance_hold(seq, now).0;
            &&& next.rows.len() == list.rows.len()
            &&& forall|i: int|
                0 <= i < list.rows.len() ==> (RowView {
                    modify: list.rows[i].modify,
                    ..#[trigger] next.rows[i]
                }) == list.rows[i]
            &&& forall|i: int|
                0 <= i < list.rows.len() && list.rows[i].modify is Some ==> (
                #[trigger] next.rows[i]).modify is Some
        }),
{
    if list.fires(seq, now) {
        commit_touches_only_the_status(
            ListView { last_fire: Some((list.hold->0.key, now)), ..list },
            list.hold->0.action,
        );
    }
}

proof fn commit_touches_only_the_status(list: ListView, action: Action)
    requires
        list.inv(),
    ensures
        ({
            let next = list.commit_action(action).0;
            &&& next.rows.len() == list.rows.len()
            &&& forall|i: int|
                0 <= i < list.rows.len() ==> (RowView {
                    modify: list.rows[i].modify,
                    ..#[trigger] next.rows[i]
                }) == list.rows[i]
            &&& forall|i: int|
                0 <= i < list.rows.len() && list.rows[i].modify is Some ==> (
                #[trigger] next.rows[i]).modify is Some
        }),
{
    if let Some(m) = list.modal {
        let ops = model::operations(list.rows, m.targets, list.seq);
        lemma_operations(list.rows, m.targets, list.seq);
        lemma_all_busy(list.rows, ops);
        lemma_busy_stays(list.rows, ops);
    }
}

proof fn lemma_busy_stays(rows: Seq<RowView>, ops: Seq<(usize, u64)>)
    requires
        forall|k: int| 0 <= k < ops.len() ==> (#[trigger] ops[k]).0 < rows.len(),
    ensures
        forall|i: int|
            0 <= i < rows.len() && rows[i].modify is Some ==> (#[trigger] model::all_busy(
                rows,
                ops,
            )[i]).modify is Some,
    decreases ops.len(),
{
    if ops.len() > 0 {
        let front = ops.drop_last();
        assert forall|k: int| 0 <= k < front.len() implies (#[trigger] front[k]).0 < rows.len() by {
            assert(front[k] == ops[k]);
        }
        lemma_busy_stays(rows, front);
        lemma_all_busy(rows, front);
        assert(ops[ops.len() - 1] == ops.last());
    }
}

/// What a commit leaves alone, an action begun from the modal leaves alone.
proof fn begin_touches_only_the_status(list: ListView, action: Action, key: Key, now: u128)
    requires
        list.inv(),
    ensures
        ({
            let next = list.begin_action(action, key, now).0;
            &&& next.rows.len() == list.rows.len()
            &&& next.selected == list.selected
            &&& next.console_pending == list.console_pending
            &&& forall|i: int|
                0 <= i < list.rows.len() ==> (RowView {
                    modify: list.rows[i].modify,
                    ..#[trigger] next.rows[i]
                }) == list.rows[i]
            &&& forall|i: int|
                0 <= i < list.rows.len() && list.rows[i].modify is Some ==> (
                #[trigger] next.rows[i]).modify is Some
        }),
{
    commit_touches_only_the_status(list, action);
}

proof fn modal_key_touches_only_the_status(
    list: ListView,
    m: model::ModalView,
    code: Key,
    kind: KeyKind,
    now: u128,
)
    requires
        list.inv(),
        list.modal == Some(m),
    ensures
        ({
            let next = list.modal_key(m, code, kind, now).0;
            &&& next.rows.len() == list.rows.len()
            &&& next.selected == list.selected
            &&& next.console_pending == list.console_pending
            &&& forall|i: int|
                0 <= i < list.rows.len() ==> (RowView {
                    modify: list.rows[i].modify,
                    ..#[trigger] next.rows[i]
                }) == list.rows[i]
            &&& forall|i: int|
                0 <= i < list.rows.len() && list.rows[i].modify is Some ==> (
                #[trigger] next.rows[i]).modify is Some
        }),
{
    let actions = m.kind.set();
    match code {
        Key::Char(ch) => {
            lemma_hotkey(actions, ch);
            let k = model::hotkey(actions, ch);
            if k < actions.len() {
                begin_touches_only_the_status(
                    list.set_modal_cursor(k as usize),
                    actions[k],
                    code,
                    now,
                );
            }
        },
        Key::Enter => {
            begin_touches_only_the_status(list, actions[m.cursor as int], Key::Enter, now);
        },
        _ => {},
    }
}

proof fn list_key_touches_only_marks(list: ListView, code: Key, kind: KeyKind, i: int)
    requires
        list.inv(),
        0 <= i < list.rows.len(),
    ensures
        ({
            let next = list.list_key(code, kind).0;
            &&& next.rows.len() == list.rows.len()
            &&& next.rows[i] == RowView { marked: next.rows[i].marked, ..list.rows[i] }
        }),
{
}

/// Keys lift no modification status.
pub proof fn keys_lift_no_status(list: ListView, key: KeyPress, now: u128, i: int)
    requires
        list.inv(),
        0 <= i < list.rows.len(),
        list.rows[i].modify is Some,
    ensures
        list.key(key, now).0.rows[i].modify is Some,
{
    match (list.hold, list.modal) {
        (Some(_), _) => {},
        (None, Some(m)) => {
            modal_key_touches_only_the_status(list, m, key.code, key.kind, now);
        },
        (None, None) => {
            list_key_touches_only_marks(list.forget_fire(now), key.code, key.kind, i);
        },
    }
}

/// A result that does not belong to the row's current modification is ignored.
pub proof fn a_stale_result_is_ignored(
    list: ListView,
    idx: usize,
    seq: u64,
    action: Action,
    error: Option<Seq<char>>,
    now: u128,
)
    requires
        idx < list.rows.len() ==> (list.rows[idx as int].modify is None
            || list.rows[idx as int].modify->0.seq != seq),
    ensures
        list.update(UpdateView::ActionDone { idx, seq, action, error }, now).0 == list,
{
}

/// A finished action shows at once what it is expected to have done, asks for a
/// fresh poll of the row, and lingers; a failed one changes nothing but the
/// status.
pub proof fn a_finished_action_is_shown_refreshed_and_lingers(
    list: ListView,
    idx: usize,
    action: Action,
    error: Option<Seq<char>>,
    now: u128,
)
    requires
        list.inv(),
        idx < list.rows.len(),
        list.rows[idx as int].modify is Some,
    ensures
        ({
            let row = list.rows[idx as int];
            let seq = row.modify->0.seq;
            let (next, e) = list.update(UpdateView::ActionDone { idx, seq, action, error }, now);
            let new = next.rows[idx as int];
            let ok = error is None;
            &&& ok ==> new.modify->0.kind is Done
            &&& !ok ==> new.modify->0.kind is Failed
            &&& !new.modify->0.lingered && !new.modify->0.refreshed
            &&& ok && action is Power ==> new.power == match action->Power_0.shown_after() {
                Some(p) => p,
                None => row.power,
            }
            &&& ok && action is Boot ==> new.boot == action->Boot_0.shown_after()
            &&& !ok ==> RowView { modify: row.modify, ..new } == row
            &&& e.contains(Effect::PollPower { idx, fetch_static: row.needs_static() })
            &&& e.contains(Effect::Linger { idx, seq })
        }),
{
    let row = list.rows[idx as int];
    let seq = row.modify->0.seq;
    let e = list.update(UpdateView::ActionDone { idx, seq, action, error }, now).1;
    assert(e[0] == Effect::PollPower { idx, fetch_static: row.needs_static() });
    assert(e[1] == Effect::Linger { idx, seq });
}

// --- polls ---------------------------------------------------------------------

/// An unreachable BMC leaves everything that was known of its row.
pub proof fn an_unreachable_poll_keeps_what_was_known(
    list: ListView,
    idx: usize,
    poll: crate::bmc::PowerPollView,
)
    requires
        list.inv(),
        idx < list.rows.len(),
        !poll.reachable,
    ensures
        ({
            let row = list.rows[idx as int];
            let new = list.apply_power(idx, poll).rows[idx as int];
            new == RowView { reachable: Some(false), modify: new.modify, ..row }
        }),
{
}

/// The serial and the observed MAC address, once known, are never forgotten: a
/// poll may replace them, but not with nothing.
pub proof fn static_fields_are_never_forgotten(list: ListView, u: UpdateView, now: u128, i: int)
    requires
        list.inv(),
        0 <= i < list.rows.len(),
    ensures
        list.rows[i].serial is Some ==> list.update(u, now).0.rows[i].serial is Some,
        list.rows[i].observed_mac is Some ==> list.update(u, now).0.rows[i].observed_mac is Some,
{
    if let UpdateView::HoldTick { seq } = u {
        tick_keeps_rows(list, seq, now);
    }
}

/// Once the static fields of a row are known they are not asked for again.
pub proof fn known_static_fields_are_not_asked_for_again(
    list: ListView,
    key: KeyPress,
    u: UpdateView,
    now: u128,
    i: int,
)
    requires
        list.inv(),
        0 <= i < list.rows.len(),
        !list.rows[i].needs_static(),
    ensures
        !list.update(u, now).0.rows[i].needs_static(),
        !list.key(key, now).0.rows[i].needs_static(),
{
    static_fields_are_never_forgotten(list, u, now, i);
    results_never_change_the_machines(list, u, now, i);
    keys_never_change_the_machines(list, key, now, i);
}

/// A health poll without a result changes nothing.
pub proof fn an_unknown_health_changes_nothing(list: ListView, idx: usize, now: u128)
    ensures
        list.update(UpdateView::Health { idx, health: None }, now).0 == list,
{
}

/// A result about one row leaves every other row as it was.
pub proof fn a_result_changes_only_its_row(list: ListView, u: UpdateView, now: u128, i: int)
    requires
        list.inv(),
        0 <= i < list.rows.len(),
        !(u is HoldTick),
        match u {
            UpdateView::Power { idx, .. } => idx != i,
            UpdateView::Health { idx, .. } => idx != i,
            UpdateView::ActionDone { idx, .. } => idx != i,
            UpdateView::ModifyExpire { idx, .. } => idx != i,
            UpdateView::HoldTick { .. } => true,
        },
    ensures
        list.update(u, now).0.rows[i] == list.rows[i],
{
}

/// No key adds, removes or replaces a machine, or changes what was polled.
pub proof fn keys_never_change_the_machines(
    list: ListView,
    key: KeyPress,
    now: u128,
    i: int,
)
    requires
        list.inv(),
        0 <= i < list.rows.len(),
    ensures
        list.key(key, now).0.rows.len() == list.rows.len(),
        ({
            let row = list.key(key, now).0.rows[i];
            row == RowView { marked: row.marked, modify: row.modify, ..list.rows[i] }
        }),
{
    match (list.hold, list.modal) {
        (Some(_), _) => {},
        (None, Some(m)) => {
            modal_key_touches_only_the_status(list, m, key.code, key.kind, now);
        },
        (None, None) => {
            list_key_touches_only_marks(list.forget_fire(now), key.code, key.kind, i);
        },
    }
}

/// No result adds, removes or replaces a machine, or changes a mark.
pub proof fn results_never_change_the_machines(list: ListView, u: UpdateView, now: u128, i: int)
    requires
        list.inv(),
        0 <= i < list.rows.len(),
    ensures
        list.update(u, now).0.rows.len() == list.rows.len(),
        list.update(u, now).0.rows[i].machine == list.rows[i].machine,
        list.update(u, now).0.rows[i].marked == list.rows[i].marked,
        list.update(u, now).0.selected == list.selected,
{
    if let UpdateView::HoldTick { seq } = u {
        tick_keeps_rows(list, seq, now);
    }
}

// --- the cursor, the marks and the modal ---------------------------------------

/// Down and up undo each other, also round the ends.
pub proof fn down_and_up_undo_each_other(list: ListView)
    requires
        list.inv(),
    ensures
        list.select_next().select_prev() == list,
        list.select_prev().select_next() == list,
{
    let n = list.rows.len() as int;
    if n > 0 {
        let i = list.selected->0 as int;
        model::lemma_wrap(i, n);
        let up = if i == 0 {
            n - 1
        } else {
            i - 1
        };
        let down = if i + 1 == n {
            0
        } else {
            i + 1
        };
        model::lemma_wrap(up, n);
        model::lemma_wrap(down, n);
    }
}

/// Marking a row twice leaves it as it was.
pub proof fn marking_twice_is_nothing(list: ListView)
    requires
        list.inv(),
    ensures
        list.toggle_mark().toggle_mark() == list,
{
    assert(list.toggle_mark().toggle_mark().rows =~= list.rows);
}

/// An open modal consumes every key: the cursor and the marks of the list stay
/// where they are, no detail view and no console opens.
pub proof fn the_modal_consumes_every_key(list: ListView, key: KeyPress, now: u128, i: int)
    requires
        list.inv(),
        list.modal is Some,
        0 <= i < list.rows.len(),
    ensures
        ({
            let (next, r) = list.key(key, now);
            &&& next.selected == list.selected
            &&& next.console_pending == list.console_pending
            &&& next.rows[i].marked == list.rows[i].marked
            &&& r.detail is None
            &&& r.console is None
        }),
{
    if list.hold is None {
        modal_key_touches_only_the_status(list, list.modal->0, key.code, key.kind, now);
    }
}

/// A character together with Control is no key of the modal: it moves nothing,
/// toggles nothing, begins and commits nothing, and leaves the modal open. During a
/// hold it does not keep the hold up, and all that it can do is to cancel it: by
/// letting go of the held key.
pub proof fn the_modal_swallows_control_keys(list: ListView, key: KeyPress, now: u128)
    requires
        list.modal is Some,
        model::is_chord(key),
    ensures
        list.hold is None ==> list.key(key, now) == (list, model::nothing()),
        list.hold is Some && !(key.kind is Release && key.code == list.hold->0.key) ==> list.key(
            key,
            now,
        ) == (list, model::nothing()),
        list.key(key, now).0.modal == list.modal,
        list.key(key, now).0.hold is None || list.key(key, now).0.hold == list.hold,
        !starts_action(list.key(key, now).1.effects),
{
}

/// Control makes a difference to characters only: any other key does the same with
/// it and without.
pub proof fn control_matters_to_characters_only(list: ListView, key: KeyPress, now: u128)
    requires
        !(key.code is Char),
    ensures
        list.key(key, now) == list.key(plain(key.code, key.kind), now),
{
}

/// Esc closes the modal, whether or not a key is held and with Control or without:
/// no row changes and no hold is left.
pub proof fn esc_closes_the_modal(list: ListView, key: KeyPress, now: u128)
    requires
        list.inv(),
        list.modal is Some,
        key.code is Esc,
        key.kind is Press,
    ensures
        ({
            let (next, r) = list.key(key, now);
            &&& next == ListView { modal: None, hold: None, ..list }
            &&& r == model::effects(seq![Effect::Redraw])
        }),
{
}

/// The hotkeys of a modal are all different, and none is a key that the modal
/// uses otherwise.
pub proof fn hotkeys_do_not_clash(kind: ModalKind, i: int, j: int)
    requires
        0 <= i < kind.set().len(),
        0 <= j < kind.set().len(),
    ensures
        kind.set()[i].hotkey() == kind.set()[j].hotkey() ==> i == j,
        kind.set()[i].hotkey() != 'j',
        kind.set()[i].hotkey() != 'k',
        kind.set()[i].hotkey() != 't',
        model::hotkey(kind.set(), kind.set()[i].hotkey()) == i,
{
    reveal_with_fuel(model::hotkey, 6);
    let s = kind.set();
    assert(s.drop_first()[0] == s[1]);
    assert(s.drop_first().drop_first()[0] == s[2]);
    assert(s.drop_first().drop_first().drop_first()[0] == s[3]);
    assert(s.drop_first().drop_first().drop_first().drop_first()[0] == s[4]);
}

} // verus!
