//! What each key does, told key by key.

use vstd::prelude::*;

use super::model::{self, ListView, RowView};
use super::{Action, Effect, Hold, ModalKind};
use crate::app::machine_detail::DetailTab;
use crate::bmc::{BootAction, PowerAction};
use crate::inventory::Protocol;
use crate::ratata::event::{Key, KeyKind, KeyPress};
use crate::text;

verus! {

// --- on the list ---------------------------------------------------------------

/// Whether a key goes to the list itself: no modal is open, no key is held, and it
/// is not the key that confirmed a hold within the last three quarters of a second.
pub open spec fn goes_to_the_list(list: ListView, key: KeyPress, now: u128) -> bool {
    &&& list.inv()
    &&& list.modal is None
    &&& list.hold is None
    &&& list.last_fire is Some && (list.last_fire->0).0 == key.code ==> now >= (list.last_fire->0).1
        + 750_000_000
}

/// Whether `a` is `b`, except that the memory of a confirmed hold may be gone once
/// three quarters of a second have passed.
pub open spec fn same_list(a: ListView, b: ListView, now: u128) -> bool {
    &&& a == (ListView { last_fire: a.last_fire, ..b })
    &&& a.last_fire == b.last_fire || (a.last_fire is None && now >= (b.last_fire->0).1
        + 750_000_000)
}

/// `j` and Down go one row down, `k` and Up one row up, each round the end, also
/// by auto-repeat.
pub proof fn the_cursor_moves_by_one(list: ListView, key: KeyPress, now: u128)
    requires
        goes_to_the_list(list, key, now),
        list.rows.len() > 0,
        key.kind is Press || key.kind is Repeat,
    ensures
        ({
            let (next, r) = list.key(key, now);
            let n = list.rows.len();
            let at = list.selected->0;
            let to = next.selected->0;
            &&& key.code == Key::Down || key.code == Key::Char('j') ==> {
                &&& same_list(next, ListView { selected: Some(to), ..list }, now)
                &&& at + 1 < n ==> to == at + 1
                &&& at + 1 == n ==> to == 0
                &&& r == model::effects(seq![Effect::Redraw])
            }
            &&& key.code == Key::Up || key.code == Key::Char('k') ==> {
                &&& same_list(next, ListView { selected: Some(to), ..list }, now)
                &&& at > 0 ==> to == at - 1
                &&& at == 0 ==> to == n - 1
                &&& r == model::effects(seq![Effect::Redraw])
            }
        }),
{
    model::lemma_wrap(list.selected->0 as int, list.rows.len() as int);
}

/// Space turns the mark of the row under the cursor, and that alone.
pub proof fn space_turns_the_mark_under_the_cursor(
    list: ListView,
    key: KeyPress,
    now: u128,
    i: int,
)
    requires
        goes_to_the_list(list, key, now),
        key.code == Key::Char(' '),
        key.kind is Press,
        0 <= i < list.rows.len(),
    ensures
        ({
            let (next, r) = list.key(key, now);
            &&& same_list(next, ListView { rows: next.rows, ..list }, now)
            &&& next.rows.len() == list.rows.len()
            &&& i == list.selected->0 ==> next.rows[i] == RowView {
                marked: !list.rows[i].marked,
                ..list.rows[i]
            }
            &&& i != list.selected->0 ==> next.rows[i] == list.rows[i]
            &&& r == model::effects(seq![Effect::Redraw])
        }),
{
}

/// `p` opens the power modal and `b` the boot modal, on the first entry and for the
/// next boot only. It acts on the marked rows, each once and from the top down; with
/// none marked, on the row under the cursor. It is labelled with the machine's name
/// or with how many there are.
pub proof fn p_and_b_open_a_modal_on_the_marks_or_the_cursor(
    list: ListView,
    key: KeyPress,
    now: u128,
)
    requires
        goes_to_the_list(list, key, now),
        list.rows.len() > 0,
        key.code == Key::Char('p') || key.code == Key::Char('b'),
        key.kind is Press,
    ensures
        ({
            let (next, r) = list.key(key, now);
            let m = next.modal->0;
            &&& next.modal is Some
            &&& same_list(next, ListView { modal: next.modal, ..list }, now)
            &&& m.kind == if key.code == Key::Char('p') {
                ModalKind::Power
            } else {
                ModalKind::Boot
            }
            &&& m.cursor == 0
            &&& !m.persistent
            &&& forall|i: int|
                0 <= i < list.rows.len() && (#[trigger] list.rows[i]).marked ==> m.targets.contains(
                    i as usize,
                )
            &&& (exists|i: int| 0 <= i < list.rows.len() && (#[trigger] list.rows[i]).marked)
                ==> forall|k: int|
                0 <= k < m.targets.len() ==> list.rows[#[trigger] m.targets[k] as int].marked
            &&& (forall|i: int| 0 <= i < list.rows.len() ==> !(#[trigger] list.rows[i]).marked)
                ==> m.targets == seq![list.selected->0]
            &&& forall|j: int, k: int|
                0 <= j < k < m.targets.len() ==> #[trigger] m.targets[j] < #[trigger] m.targets[k]
            &&& m.targets.len() == 1 ==> m.label == list.rows[m.targets[0] as int].machine.name
            &&& m.targets.len() > 1 ==> m.label == text::decimal(m.targets.len()) + " machines"@
            &&& r == model::effects(seq![Effect::Redraw])
        }),
{
    super::laws::targets_are_the_marked_rows_or_the_cursor(list);
    super::laws::lemma_targets(list);
}

/// `r` polls the power and the health of every row now. A power poll asks for the
/// static fields if the serial is not known, or if there is a MAC address to check
/// and none was seen.
pub proof fn r_polls_every_row(list: ListView, key: KeyPress, now: u128, i: int)
    requires
        goes_to_the_list(list, key, now),
        key.code == Key::Char('r'),
        key.kind is Press,
        0 <= i < list.rows.len(),
    ensures
        ({
            let (next, r) = list.key(key, now);
            let row = list.rows[i];
            &&& same_list(next, list, now)
            &&& r == model::effects(r.effects)
            &&& r.effects.len() == 2 * list.rows.len()
            &&& r.effects[i] == (Effect::PollPower {
                idx: i as usize,
                fetch_static: row.serial is None || (row.machine.mac is Some
                    && row.observed_mac is None),
            })
            &&& r.effects[list.rows.len() + i] == (Effect::PollHealth { idx: i as usize })
        }),
{
}

/// The polls of all rows, as the timers ask for them: one for each row, in order.
pub proof fn the_timers_poll_every_row(list: ListView, i: int)
    requires
        list.inv(),
        0 <= i < list.rows.len(),
    ensures
        ({
            let row = list.rows[i];
            &&& model::power_polls(list.rows).len() == list.rows.len()
            &&& model::health_polls(list.rows).len() == list.rows.len()
            &&& model::power_polls(list.rows)[i] == (Effect::PollPower {
                idx: i as usize,
                fetch_static: row.serial is None || (row.machine.mac is Some
                    && row.observed_mac is None),
            })
            &&& model::health_polls(list.rows)[i] == (Effect::PollHealth { idx: i as usize })
        }),
{
}

/// Enter opens the detail view of the machine under the cursor on its overview, `u`
/// on its users and `l` on its log.
pub proof fn enter_u_and_l_open_the_detail_view(list: ListView, key: KeyPress, now: u128)
    requires
        goes_to_the_list(list, key, now),
        list.rows.len() > 0,
        key.kind is Press,
        key.code == Key::Enter || key.code == Key::Char('u') || key.code == Key::Char('l'),
    ensures
        ({
            let (next, r) = list.key(key, now);
            let machine = list.rows[list.selected->0 as int].machine;
            &&& same_list(next, list, now)
            &&& r.effects.len() == 0
            &&& r.console is None
            &&& key.code == Key::Enter ==> r.detail == Some((machine, DetailTab::Overview))
            &&& key.code == Key::Char('u') ==> r.detail == Some((machine, DetailTab::Users))
            &&& key.code == Key::Char('l') ==> r.detail == Some((machine, DetailTab::Logs))
        }),
{
}

/// `c` opens the serial console of the machine under the cursor: its BMC is asked
/// over IPMI with the machine's own host and user, the password is handed over in
/// the environment, and a stale session of that machine is ended first.
pub proof fn c_opens_the_console_of_the_machine_under_the_cursor(
    list: ListView,
    key: KeyPress,
    now: u128,
)
    requires
        goes_to_the_list(list, key, now),
        list.rows.len() > 0,
        key.code == Key::Char('c'),
        key.kind is Press,
        !list.demo,
    ensures
        ({
            let (next, r) = list.key(key, now);
            let row = list.rows[list.selected->0 as int];
            let m = row.machine;
            let c = r.console->0;
            &&& r.effects.len() == 0
            &&& r.detail is None
            &&& r.console is Some <==> !list.console_pending && m.protocol == Protocol::Ipmi
                && !row.mac_mismatch()
            &&& same_list(
                next,
                ListView { console_pending: list.console_pending || r.console is Some, ..list },
                now,
            )
            &&& r.console is Some ==> {
                &&& c.request.program == "ipmitool"@
                &&& c.request.args == seq![
                    "-I"@,
                    "lanplus"@,
                    "-H"@,
                    m.host,
                    "-U"@,
                    m.username,
                    "-E"@,
                    "sol"@,
                    "activate"@,
                ]
                &&& c.request.envs == seq![("IPMI_PASSWORD"@, m.password)]
                &&& c.request.note == "Connecting to "@ + m.name
                    + " serial console — type '~.' to exit."@
                &&& c.preflight == Some(m)
            }
        }),
{
}

/// In demo mode `c` runs a placeholder shell instead, for any machine; it gets no
/// password and touches no BMC.
pub proof fn the_demo_console_is_a_shell(list: ListView, key: KeyPress, now: u128)
    requires
        goes_to_the_list(list, key, now),
        list.rows.len() > 0,
        key.code == Key::Char('c'),
        key.kind is Press,
        list.demo,
    ensures
        ({
            let (next, r) = list.key(key, now);
            let c = r.console->0;
            let name = list.rows[list.selected->0 as int].machine.name;
            &&& r.console is Some <==> !list.console_pending
            &&& same_list(next, ListView { console_pending: true, ..list }, now)
            &&& r.console is Some ==> {
                &&& c.request.program == "sh"@
                &&& c.request.args.len() == 2
                &&& c.request.args[0] == "-c"@
                &&& c.request.envs.len() == 0
                &&& c.request.note == "Console for "@ + name + " (demo — no real BMC)"@
                &&& c.preflight is None
            }
        }),
{
}

/// Why there is no console: the machine isn't managed over IPMI, or else the BMC
/// that answered isn't the configured one. In demo mode neither matters.
pub proof fn a_console_is_refused_for_a_reason(list: ListView)
    requires
        list.inv(),
        list.rows.len() > 0,
    ensures
        ({
            let row = list.rows[list.selected->0 as int];
            let why = list.console_refusal();
            &&& list.demo ==> why is None
            &&& !list.demo && row.machine.protocol == Protocol::Redfish ==> why == Some(
                super::ConsoleRefusal::NoSol,
            )
            &&& !list.demo && row.machine.protocol == Protocol::Ipmi && row.mac_mismatch() ==> why
                == Some(super::ConsoleRefusal::MacMismatch)
            &&& !list.demo && row.machine.protocol == Protocol::Ipmi && !row.mac_mismatch() ==> why
                is None
        }),
{
}

/// Every other key of the list does nothing, nor does a key that is let go, nor the
/// auto-repeat of a key that does not move the cursor.
pub proof fn the_list_has_no_other_keys(list: ListView, key: KeyPress, now: u128)
    requires
        goes_to_the_list(list, key, now),
        ({
            let moves = key.code == Key::Down || key.code == Key::Up || key.code == Key::Char('j')
                || key.code == Key::Char('k');
            let acts = key.code == Key::Enter || (key.code matches Key::Char(c) && " pbrulc"@.contains(
                c,
            ));
            ||| key.kind is Release
            ||| key.kind is Repeat && !moves
            ||| !moves && !acts
        }),
    ensures
        same_list(list.key(key, now).0, list, now),
        list.key(key, now).1 == model::nothing(),
{
    reveal_strlit(" pbrulc");
    let keys = " pbrulc"@;
    assert(keys[0] == ' ' && keys[1] == 'p' && keys[2] == 'b' && keys[3] == 'r' && keys[4] == 'u'
        && keys[5] == 'l' && keys[6] == 'c');
}

/// The key that confirmed a hold is swallowed for three quarters of a second: it
/// does nothing to a list without a modal.
pub proof fn the_key_that_confirmed_is_swallowed(list: ListView, key: KeyPress, now: u128)
    requires
        list.modal is None,
        list.hold is None,
        list.last_fire is Some,
        (list.last_fire->0).0 == key.code,
        now < (list.last_fire->0).1 + 750_000_000,
    ensures
        list.key(key, now) == (list, model::nothing()),
        list.suppressed(key.code, now),
{
}

// --- in the modal --------------------------------------------------------------

/// The letters of a modal's entries, in order.
pub open spec fn letters(kind: ModalKind) -> Seq<char> {
    match kind {
        ModalKind::Power => "osfcr"@,
        ModalKind::Boot => "pdbcn"@,
    }
}

/// What the entries of the modals are, in order, and their letters: on, soft-off,
/// force-off, cycle and reset; pxe, disk, bios, cd and no override.
pub proof fn the_entries_of_the_modals(kind: ModalKind, i: int)
    requires
        0 <= i < 5,
    ensures
        kind.set().len() == 5,
        letters(kind).len() == 5,
        kind.set()[i].hotkey() == letters(kind)[i],
        ModalKind::Power.set()[0] == Action::Power(PowerAction::On),
        ModalKind::Power.set()[1] == Action::Power(PowerAction::SoftOff),
        ModalKind::Power.set()[2] == Action::Power(PowerAction::ForceOff),
        ModalKind::Power.set()[3] == Action::Power(PowerAction::Cycle),
        ModalKind::Power.set()[4] == Action::Power(PowerAction::Reset),
        ModalKind::Boot.set()[0] == Action::Boot(BootAction::Pxe),
        ModalKind::Boot.set()[1] == Action::Boot(BootAction::Disk),
        ModalKind::Boot.set()[2] == Action::Boot(BootAction::Bios),
        ModalKind::Boot.set()[3] == Action::Boot(BootAction::Cd),
        ModalKind::Boot.set()[4] == Action::Boot(BootAction::Clear),
{
    reveal_strlit("osfcr");
    reveal_strlit("pdbcn");
}

/// Whether a key goes to an open modal: no key is held, and it is no character
/// together with Control.
pub open spec fn goes_to_the_modal(list: ListView, key: KeyPress) -> bool {
    &&& list.inv()
    &&& list.modal is Some
    &&& list.hold is None
    &&& !(key.control && key.code is Char)
}

/// `j` and Down go one entry down, `k` and Up one entry up, each round the end, also
/// by auto-repeat.
pub proof fn the_modal_cursor_moves_by_one(list: ListView, key: KeyPress, now: u128)
    requires
        goes_to_the_modal(list, key),
        key.kind is Press || key.kind is Repeat,
    ensures
        ({
            let (next, r) = list.key(key, now);
            let m = list.modal->0;
            let to = next.modal->0.cursor;
            &&& key.code == Key::Down || key.code == Key::Char('j') ==> {
                &&& next == ListView { modal: Some(model::ModalView { cursor: to, ..m }), ..list }
                &&& m.cursor < 4 ==> to == m.cursor + 1
                &&& m.cursor == 4 ==> to == 0
                &&& r == model::effects(seq![Effect::Redraw])
            }
            &&& key.code == Key::Up || key.code == Key::Char('k') ==> {
                &&& next == ListView { modal: Some(model::ModalView { cursor: to, ..m }), ..list }
                &&& m.cursor > 0 ==> to == m.cursor - 1
                &&& m.cursor == 0 ==> to == 4
                &&& r == model::effects(seq![Effect::Redraw])
            }
        }),
{
    model::lemma_wrap(list.modal->0.cursor as int, 5);
}

/// `t` turns a boot override between the next boot and every boot; in the power
/// modal it does nothing.
pub proof fn t_turns_the_persistence_of_a_boot_override(list: ListView, key: KeyPress, now: u128)
    requires
        goes_to_the_modal(list, key),
        key.code == Key::Char('t'),
        key.kind is Press,
    ensures
        ({
            let (next, r) = list.key(key, now);
            let m = list.modal->0;
            &&& m.kind == ModalKind::Boot ==> next == ListView {
                modal: Some(model::ModalView { persistent: !m.persistent, ..m }),
                ..list
            } && r == model::effects(seq![Effect::Redraw])
            &&& m.kind == ModalKind::Power ==> next == list && r == model::nothing()
        }),
{
    reveal_with_fuel(model::hotkey, 6);
}

/// Whether `next` is `list` with `action` held since `now` by the key `code`.
pub open spec fn holds(
    list: ListView,
    next: ListView,
    r: model::ReactionView,
    action: Action,
    code: Key,
    now: u128,
) -> bool {
    &&& next.hold == Some(
        Hold { action, key: code, seq: list.seq, started: now, last_beat: now },
    )
    &&& next.seq == if list.seq == u64::MAX {
        0
    } else {
        list.seq + 1
    }
    &&& next == ListView { modal: next.modal, hold: next.hold, seq: next.seq, ..list }
    &&& r.effects == seq![Effect::Redraw, Effect::HoldTicks { seq: list.seq }]
    &&& r.detail is None
    &&& r.console is None
}

/// On an enhanced terminal a press of Enter begins to hold the entry under the
/// cursor.
pub proof fn enter_holds_the_entry_under_the_cursor(list: ListView, key: KeyPress, now: u128)
    requires
        goes_to_the_modal(list, key),
        list.enhanced,
        key.code == Key::Enter,
        key.kind is Press,
    ensures
        ({
            let (next, r) = list.key(key, now);
            let m = list.modal->0;
            &&& holds(list, next, r, m.kind.set()[m.cursor as int], Key::Enter, now)
            &&& next.modal == list.modal
        }),
{
    lemma_next_number(list.seq);
}

/// On an enhanced terminal a press of an entry's letter puts the cursor on the entry
/// and begins to hold it.
pub proof fn a_letter_holds_its_entry(list: ListView, key: KeyPress, now: u128, i: int)
    requires
        goes_to_the_modal(list, key),
        list.enhanced,
        0 <= i < 5,
        key.code == Key::Char(letters(list.modal->0.kind)[i]),
        key.kind is Press,
    ensures
        ({
            let (next, r) = list.key(key, now);
            let m = list.modal->0;
            &&& holds(list, next, r, m.kind.set()[i], key.code, now)
            &&& next.modal == Some(model::ModalView { cursor: i as usize, ..m })
        }),
{
    lemma_next_number(list.seq);
    the_entries_of_the_modals(list.modal->0.kind, i);
    super::laws::hotkeys_do_not_clash(list.modal->0.kind, i, i);
}

proof fn lemma_next_number(seq: u64)
    ensures
        model::number_after(seq, 1) != seq,
        seq < u64::MAX ==> model::number_after(seq, 1) == seq + 1,
        seq == u64::MAX ==> model::number_after(seq, 1) == 0,
{
}

/// A modal has no other keys: any other key, a key that is let go and the
/// auto-repeat of a key that does not move the cursor do nothing.
pub proof fn the_modal_has_no_other_keys(list: ListView, key: KeyPress, now: u128)
    requires
        goes_to_the_modal(list, key),
        ({
            let moves = key.code == Key::Down || key.code == Key::Up || key.code == Key::Char('j')
                || key.code == Key::Char('k');
            let acts = key.code == Key::Enter || key.code == Key::Esc || key.code == Key::Char('t')
                || (key.code matches Key::Char(c) && letters(list.modal->0.kind).contains(c));
            ||| key.kind is Release
            ||| key.kind is Repeat && !moves
            ||| !moves && !acts
        }),
    ensures
        list.key(key, now) == (list, model::nothing()),
{
    let kind = list.modal->0.kind;
    the_entries_of_the_modals(kind, 0);
    if let Key::Char(c) = key.code {
        if !letters(kind).contains(c) {
            assert forall|i: int| 0 <= i < 5 implies kind.set()[i].hotkey() != c by {
                the_entries_of_the_modals(kind, i);
            }
            lemma_no_letter(kind.set(), c);
        }
    }
}

proof fn lemma_no_letter(actions: Seq<Action>, c: char)
    requires
        forall|i: int| 0 <= i < actions.len() ==> (#[trigger] actions[i]).hotkey() != c,
    ensures
        model::hotkey(actions, c) == actions.len(),
    decreases actions.len(),
{
    if actions.len() > 0 {
        assert(actions[0].hotkey() != c);
        lemma_no_letter(actions.drop_first(), c);
    }
}

// --- while a key is held -------------------------------------------------------

/// The auto-repeat of the held key keeps the hold up: it was last seen now. Nothing
/// else changes.
pub proof fn auto_repeat_keeps_a_hold_up(list: ListView, key: KeyPress, now: u128)
    requires
        list.hold is Some,
        key.code == list.hold->0.key,
        key.kind is Repeat || key.kind is Press,
        !(key.control && key.code is Char),
        !(key.code is Esc),
    ensures
        list.key(key, now) == (
            ListView { hold: Some(Hold { last_beat: now, ..list.hold->0 }), ..list },
            model::nothing(),
        ),
{
}

/// While a key is held every other key but Esc does nothing.
pub proof fn other_keys_do_nothing_during_a_hold(list: ListView, key: KeyPress, now: u128)
    requires
        list.hold is Some,
        key.code != list.hold->0.key,
        !(key.code is Esc && key.kind is Press),
    ensures
        list.key(key, now) == (list, model::nothing()),
{
}

/// Whether a hold confirms its action at a tick: it is the tick's own, it began at
/// least one and a half seconds ago, and the key was last seen at most three
/// quarters of a second ago.
pub proof fn a_hold_confirms_after_a_second_and_a_half(list: ListView, seq: u64, now: u128)
    requires
        list.hold is Some,
        now >= list.hold->0.last_beat,
        list.hold->0.last_beat >= list.hold->0.started,
    ensures
        list.fires(seq, now) <==> list.hold->0.seq == seq && now - list.hold->0.started
            >= 1_500_000_000 && now - list.hold->0.last_beat <= 750_000_000,
{
}

/// A tick of a hold whose key was not seen for three quarters of a second ends the
/// hold and leaves the modal open; one that comes too early only draws; one of
/// another hold does nothing.
pub proof fn a_tick_that_does_not_confirm(list: ListView, seq: u64, now: u128)
    requires
        list.hold is Some,
        now >= list.hold->0.last_beat,
        list.hold->0.last_beat >= list.hold->0.started,
    ensures
        ({
            let h = list.hold->0;
            let (next, e) = list.update(model::UpdateView::HoldTick { seq }, now);
            &&& h.seq == seq && now - h.last_beat > 750_000_000 ==> next == ListView {
                hold: None,
                ..list
            }
            &&& h.seq == seq && now - h.last_beat <= 750_000_000 && now - h.started < 1_500_000_000
                ==> next == list
            &&& h.seq != seq ==> next == list
        }),
{
}

/// What a confirmed action does: the modal closes, each target that has no MAC
/// mismatch runs the action and is busy with it, and no other row changes. The
/// held key is remembered.
pub proof fn a_confirmed_hold_runs_its_action(
    list: ListView,
    seq: u64,
    now: u128,
    i: int,
)
    requires
        list.inv(),
        list.fires(seq, now),
        0 <= i < list.rows.len(),
    ensures
        ({
            let h = list.hold->0;
            let m = list.modal->0;
            let (next, e) = list.update(model::UpdateView::HoldTick { seq }, now);
            &&& next.modal is None
            &&& next.hold is None
            &&& next.last_fire == Some((h.key, now))
            &&& next.selected == list.selected
            &&& m.targets.contains(i as usize) && !list.rows[i].mac_mismatch()
                ==> next.rows[i].modify is Some && next.rows[i] == RowView {
                modify: next.rows[i].modify,
                ..list.rows[i]
            } && next.rows[i].modify->0.kind is Busy && !next.rows[i].modify->0.lingered
                && !next.rows[i].modify->0.refreshed && e.contains(
                Effect::RunAction {
                    idx: i as usize,
                    seq: next.rows[i].modify->0.seq,
                    action: h.action,
                    persistent: m.persistent,
                },
            )
            &&& !m.targets.contains(i as usize) || list.rows[i].mac_mismatch() ==> next.rows[i]
                == list.rows[i]
        }),
{
    let h = list.hold->0;
    let fired = ListView { last_fire: Some((h.key, now)), ..list };
    a_committed_action_runs_on_its_targets(fired, h.action, i);
    let (next, e) = list.update(model::UpdateView::HoldTick { seq }, now);
    let ran = fired.commit_action(h.action).1;
    assert(e == ran.push(Effect::Redraw));
    let run = Effect::RunAction {
        idx: i as usize,
        seq: next.rows[i].modify->0.seq,
        action: h.action,
        persistent: list.modal->0.persistent,
    };
    if ran.contains(run) {
        let k = choose|k: int| 0 <= k < ran.len() && ran[k] == run;
        assert(e[k] == run);
    }
}

proof fn lemma_operations_ascend(rows: Seq<RowView>, targets: Seq<usize>, seq: u64)
    requires
        forall|j: int, k: int|
            0 <= j < k < targets.len() ==> #[trigger] targets[j] < #[trigger] targets[k],
    ensures
        forall|j: int, k: int|
            0 <= j < k < model::operations(rows, targets, seq).len() ==> (
            #[trigger] model::operations(rows, targets, seq)[j]).0 < (
            #[trigger] model::operations(rows, targets, seq)[k]).0,
    decreases targets.len(),
{
    if targets.len() > 0 {
        let front = targets.drop_last();
        let before = model::operations(rows, front, seq);
        let ops = model::operations(rows, targets, seq);
        lemma_operations_ascend(rows, front, seq);
        super::laws::lemma_operations(rows, front, seq);
        assert forall|j: int, k: int| 0 <= j < k < ops.len() implies (#[trigger] ops[j]).0 < (
        #[trigger] ops[k]).0 by {
            assert(ops[j] == before[j]);
            if k < before.len() {
                assert(ops[k] == before[k]);
            } else {
                assert(front.contains(before[j].0));
                let t = choose|t: int| 0 <= t < front.len() && front[t] == before[j].0;
                assert(targets[t] < targets[targets.len() - 1]);
            }
        }
    }
}

proof fn lemma_busy(rows: Seq<RowView>, ops: Seq<(usize, u64)>, j: int)
    requires
        0 <= j < ops.len(),
        forall|k: int| 0 <= k < ops.len() ==> (#[trigger] ops[k]).0 < rows.len(),
        forall|i: int, k: int| 0 <= i < k < ops.len() ==> (#[trigger] ops[i]).0 < (#[trigger] ops[k]).0,
    ensures
        model::all_busy(rows, ops)[ops[j].0 as int] == rows[ops[j].0 as int].busy(ops[j].1),
    decreases ops.len(),
{
    let front = ops.drop_last();
    assert(forall|k: int| 0 <= k < front.len() ==> front[k] == ops[k]);
    super::laws::lemma_all_busy(rows, front);
    if j < front.len() {
        lemma_busy(rows, front, j);
        assert(front[j].0 < ops.last().0);
    } else {
        assert forall|k: int| 0 <= k < front.len() implies (#[trigger] front[k]).0 != ops[j].0 by {
            assert(ops[k].0 < ops[j].0);
        }
    }
}

/// Committing an action closes the modal, makes each target without a MAC mismatch
/// busy and runs the action on it once and under the same number, and changes no other
/// row. Numbers are used up as they are given out.
pub proof fn a_committed_action_runs_on_its_targets(list: ListView, action: Action, i: int)
    requires
        list.inv(),
        list.modal is Some,
        0 <= i < list.rows.len(),
    ensures
        ({
            let m = list.modal->0;
            let (next, e) = list.commit_action(action);
            let row = next.rows[i];
            &&& next == ListView { rows: next.rows, modal: None, hold: None, seq: next.seq, ..list }
            &&& next.seq as int == (list.seq + (e.len() - 1)) % 0x1_0000_0000_0000_0000
            &&& e[0] == Effect::Redraw
            &&& forall|k: int| 1 <= k < e.len() ==> #[trigger] e[k] is RunAction
            &&& forall|j: int, k: int|
                1 <= j < k < e.len() ==> (#[trigger] e[j])->RunAction_idx < (
                #[trigger] e[k])->RunAction_idx
            &&& next.rows.len() == list.rows.len()
            &&& m.targets.contains(i as usize) && !list.rows[i].mac_mismatch() ==> {
                &&& row.modify is Some
                &&& row == RowView { modify: row.modify, ..list.rows[i] }
                &&& row.modify->0.kind is Busy
                &&& !row.modify->0.lingered
                &&& !row.modify->0.refreshed
                &&& e.contains(
                    Effect::RunAction {
                        idx: i as usize,
                        seq: row.modify->0.seq,
                        action,
                        persistent: m.persistent,
                    },
                )
            }
            &&& !m.targets.contains(i as usize) || list.rows[i].mac_mismatch() ==> row
                == list.rows[i]
        }),
{
    let m = list.modal->0;
    let ops = model::operations(list.rows, m.targets, list.seq);
    let (next, e) = list.commit_action(action);
    super::laws::lemma_operations(list.rows, m.targets, list.seq);
    super::laws::lemma_all_busy(list.rows, ops);
    lemma_operations_ascend(list.rows, m.targets, list.seq);
    super::laws::lemma_operations_complete(list.rows, m.targets, list.seq);
    let runs = model::runs(ops, action, m.persistent);
    assert forall|k: int| 0 <= k < ops.len() implies e[k + 1] == #[trigger] runs[k] by {}
    assert forall|k: int| 1 <= k < e.len() implies #[trigger] e[k] is RunAction by {
        assert(e[k] == runs[k - 1]);
    }
    assert forall|j: int, k: int| 1 <= j < k < e.len() implies (#[trigger] e[j])->RunAction_idx < (
    #[trigger] e[k])->RunAction_idx by {
        assert(e[j] == runs[j - 1] && e[k] == runs[k - 1]);
        assert(ops[j - 1].0 < ops[k - 1].0);
    }
    if m.targets.contains(i as usize) && !list.rows[i].mac_mismatch() {
        let t = choose|t: int| 0 <= t < m.targets.len() && m.targets[t] == i as usize;
        assert(m.targets[t] < list.rows.len());
        let j = choose|j: int| 0 <= j < ops.len() && (#[trigger] ops[j]).0 == m.targets[t];
        lemma_busy(list.rows, ops, j);
        assert(e[j + 1] == runs[j]);
    } else {
        assert forall|k: int| 0 <= k < ops.len() implies (#[trigger] ops[k]).0 != i by {
            assert(m.targets.contains(ops[k].0));
        }
    }
}

/// On a legacy terminal a press of Enter or of an entry's letter commits the entry at
/// once, without a hold.
pub proof fn a_legacy_press_runs_its_entry(list: ListView, key: KeyPress, now: u128, i: int)
    requires
        goes_to_the_modal(list, key),
        !list.enhanced,
        0 <= i < 5,
        key.kind is Press,
        key.code == Key::Char(letters(list.modal->0.kind)[i]) || (key.code == Key::Enter && i
            == list.modal->0.cursor),
    ensures
        list.key(key, now).0 == list.commit_action(list.modal->0.kind.set()[i]).0,
        list.key(key, now).1 == model::effects(
            list.commit_action(list.modal->0.kind.set()[i]).1,
        ),
{
    the_entries_of_the_modals(list.modal->0.kind, i);
    super::laws::hotkeys_do_not_clash(list.modal->0.kind, i, i);
}

// --- what a reaction is --------------------------------------------------------

/// A reaction of effects has those effects and nothing else; no reaction has none.
pub proof fn a_reaction_of_effects(e: Seq<Effect>)
    ensures
        model::effects(e).effects == e,
        model::effects(e).detail is None,
        model::effects(e).console is None,
        model::nothing().effects.len() == 0,
        model::nothing().detail is None,
        model::nothing().console is None,
{
}

// --- times ---------------------------------------------------------------------

/// The times of a hold and of a status, in nanoseconds. The key may be out of sight for
/// half the hold and no longer, so that a tap never confirms, and the ticks of a hold
/// go on beyond its end, so that a kept-up hold always does.
pub proof fn the_times_of_a_hold()
    ensures
        super::HOLD_DURATION == 1_500_000_000,
        2 * super::HEARTBEAT_TIMEOUT == super::HOLD_DURATION,
        super::HOLD_FRAME == 40_000_000,
        (super::HOLD_DURATION / super::HOLD_FRAME + 4) * super::HOLD_FRAME > super::HOLD_DURATION
            + super::HOLD_FRAME,
        super::MODIFY_LINGER == 5_000_000_000,
        super::MAX_CONCURRENT_POLLS == 16,
{
}

} // verus!
