//! The machine list, key by key.

use fishtank::app::cell::{centered_rect, Color, Rect, TEAL};
use fishtank::app::machine_detail::DetailTab;
use fishtank::app::machine_list::render::{
    action_color, action_label, action_line, action_short, render_row, truncate_start,
};
use fishtank::app::machine_list::{
    action_char, hold_frames, norm_mac, Action, ConsoleRefusal, Effect, MachineList, MachineListMsg, MachineRow,
    ModalKind, ModifyKind, Reaction, Update, HOLD_DURATION,
};
use fishtank::bmc::{
    BootAction, BootOverride, Health, PowerAction, PowerPoll, PowerState,
};
use fishtank::inventory::{Inventory, Machine};
use fishtank::ratata::{Key, KeyKind, KeyPress};

const MS: u128 = 1_000_000;

fn demo(enhanced: bool) -> MachineList {
    MachineList::new(Inventory::demo(), true, enhanced)
}

fn live(enhanced: bool) -> MachineList {
    MachineList::new(Inventory::demo(), false, enhanced)
}

fn empty() -> MachineList {
    MachineList::new(
        Inventory {
            machines: Vec::new(),
            poll_interval_secs: 0,
            health_interval_secs: 0,
        },
        false,
        true,
    )
}

fn plain(code: Key, kind: KeyKind) -> KeyPress {
    KeyPress {
        code,
        kind,
        control: false,
    }
}

fn control(c: char, kind: KeyKind) -> KeyPress {
    KeyPress {
        code: Key::Char(c),
        kind,
        control: true,
    }
}

fn press(list: &mut MachineList, code: Key, now: u128) -> Reaction {
    list.handle_key(plain(code, KeyKind::Press), now)
}

fn tap(list: &mut MachineList, c: char) -> Reaction {
    press(list, Key::Char(c), 0)
}

fn reachable(mac: Option<&str>) -> PowerPoll {
    let mut p = PowerPoll::reachable();
    p.power = PowerState::On;
    p.mac = mac.map(|s| s.to_string());
    p
}

fn runs(effects: &[Effect]) -> Vec<usize> {
    effects
        .iter()
        .filter_map(|e| match e {
            Effect::RunAction { idx, .. } => Some(*idx),
            _ => None,
        })
        .collect()
}

fn row(list: &MachineList, idx: usize) -> &MachineRow {
    list.row(idx).unwrap()
}

#[test]
fn a_new_list() {
    let list = demo(true);
    assert_eq!(list.row_count(), 8);
    assert_eq!(list.selected_idx(), Some(0));
    assert_eq!(list.power_interval_secs(), 30);
    assert_eq!(list.health_interval_secs(), 120);
    assert!(!list.is_capturing());
    assert!(list.row(8).is_none());
    let r = row(&list, 0);
    assert_eq!(r.reachable, None);
    assert_eq!(r.power, PowerState::Unknown);
    assert_eq!(r.boot, BootOverride::Unset);
    let list = empty();
    assert_eq!(list.selected_idx(), None);
    assert_eq!(list.power_interval_secs(), 1);
    assert_eq!(list.health_interval_secs(), 1);
}

#[test]
fn the_cursor_wraps() {
    let mut list = demo(true);
    press(&mut list, Key::Up, 0);
    assert_eq!(list.selected_idx(), Some(7));
    press(&mut list, Key::Down, 0);
    assert_eq!(list.selected_idx(), Some(0));
    for i in 1..20 {
        list.handle_key(plain(Key::Char('j'), KeyKind::Repeat), 0);
        assert_eq!(list.selected_idx(), Some(i % 8));
    }
    tap(&mut list, 'k');
    assert_eq!(list.selected_idx(), Some(18 % 8));
    list.handle_key(plain(Key::Down, KeyKind::Release), 0);
    assert_eq!(list.selected_idx(), Some(18 % 8));
}

#[test]
fn an_empty_list_ignores_everything() {
    let mut list = empty();
    for c in ['j', 'k', ' ', 'p', 'b', 'u', 'l', 'c', 'r'] {
        let r = tap(&mut list, c);
        assert!(r.msg.is_none() && r.console.is_none());
        assert!(!list.is_capturing());
    }
    assert_eq!(list.selected_idx(), None);
}

#[test]
fn marking_twice_is_nothing() {
    let mut list = demo(true);
    tap(&mut list, ' ');
    assert!(row(&list, 0).marked);
    tap(&mut list, ' ');
    assert!(!row(&list, 0).marked);
    list.handle_key(plain(Key::Char(' '), KeyKind::Repeat), 0);
    assert!(!row(&list, 0).marked);
}

#[test]
fn the_modal_targets_the_cursor_or_the_marks() {
    let mut list = demo(true);
    tap(&mut list, 'j');
    tap(&mut list, 'p');
    let m = list.modal().unwrap();
    assert_eq!(m.kind, ModalKind::Power);
    assert_eq!(m.targets, [1]);
    assert_eq!(m.label, "dc1-r01-node02");
    press(&mut list, Key::Esc, 0);
    assert!(!list.is_capturing());

    tap(&mut list, ' ');
    for _ in 0..3 {
        tap(&mut list, 'j');
    }
    tap(&mut list, ' ');
    tap(&mut list, 'j');
    tap(&mut list, 'b');
    let m = list.modal().unwrap();
    assert_eq!(m.kind, ModalKind::Boot);
    assert_eq!(m.targets, [1, 4]);
    assert_eq!(m.label, "2 machines");
    assert!(!m.persistent);
}

#[test]
fn the_modal_consumes_every_key() {
    let mut list = demo(true);
    tap(&mut list, 'p');
    for code in [
        Key::Char('q'),
        Key::Char(' '),
        Key::Char('u'),
        Key::Char('l'),
        Key::Char('b'),
        Key::PageDown,
        Key::F(1),
        Key::Other,
    ] {
        let r = press(&mut list, code, 0);
        assert!(r.effects.is_empty() && r.msg.is_none() && r.console.is_none());
        assert!(list.is_capturing());
        assert_eq!(list.selected_idx(), Some(0));
        assert!(!row(&list, 0).marked);
    }
}

#[test]
fn the_modal_cursor_wraps() {
    let mut list = demo(true);
    tap(&mut list, 'p');
    tap(&mut list, 'k');
    assert_eq!(list.modal().unwrap().cursor, 4);
    press(&mut list, Key::Down, 0);
    assert_eq!(list.modal().unwrap().cursor, 0);
    list.handle_key(plain(Key::Char('j'), KeyKind::Repeat), 0);
    assert_eq!(list.modal().unwrap().cursor, 1);
}

#[test]
fn persistence_is_for_boot_only() {
    let mut list = demo(true);
    tap(&mut list, 'p');
    assert!(tap(&mut list, 't').effects.is_empty());
    assert!(!list.modal().unwrap().persistent);
    press(&mut list, Key::Esc, 0);
    tap(&mut list, 'b');
    assert_eq!(tap(&mut list, 't').effects, [Effect::Redraw]);
    assert!(list.modal().unwrap().persistent);
    tap(&mut list, 't');
    assert!(!list.modal().unwrap().persistent);
}

#[test]
fn a_kept_up_hold_confirms() {
    let mut list = live(true);
    tap(&mut list, 'p');
    let r = press(&mut list, Key::Char('f'), 0);
    assert_eq!(r.effects, [Effect::Redraw, Effect::HoldTicks { seq: 0 }]);
    assert_eq!(list.modal().unwrap().cursor, 2);
    assert_eq!(list.hold().unwrap().action, Action::Power(PowerAction::ForceOff));
    // Auto-repeat after half a second, every 100 ms.
    let mut now = 500 * MS;
    while now < HOLD_DURATION {
        let e = list.handle_update(Update::HoldTick { seq: 0 }, now);
        assert!(runs(&e).is_empty());
        list.handle_key(plain(Key::Char('f'), KeyKind::Repeat), now);
        assert_eq!(list.hold_elapsed(now), Some(now));
        now += 100 * MS;
    }
    let e = list.handle_update(Update::HoldTick { seq: 0 }, now);
    assert_eq!(
        e,
        [
            Effect::Redraw,
            Effect::RunAction {
                idx: 0,
                seq: 1,
                action: Action::Power(PowerAction::ForceOff),
                persistent: false
            },
            Effect::Redraw,
        ]
    );
    assert!(!list.is_capturing());
    assert!(list.hold().is_none());
    assert_eq!(row(&list, 0).modify.unwrap().kind, ModifyKind::Busy);
    // The key that is still down is swallowed for a while.
    let r = list.handle_key(plain(Key::Char('f'), KeyKind::Repeat), now + 100 * MS);
    assert!(r.effects.is_empty());
}

#[test]
fn the_confirming_enter_does_not_open_the_detail_view() {
    let mut list = live(true);
    tap(&mut list, 'p');
    press(&mut list, Key::Enter, 0);
    list.handle_key(plain(Key::Enter, KeyKind::Repeat), 1000 * MS);
    let e = list.handle_update(Update::HoldTick { seq: 0 }, 1500 * MS);
    assert_eq!(runs(&e), [0]);
    assert!(list.is_suppressed(Key::Enter, 2249 * MS));
    assert!(!list.is_suppressed(Key::Enter, 2250 * MS));
    assert!(!list.is_suppressed(Key::Up, 1600 * MS));
    assert!(press(&mut list, Key::Enter, 1600 * MS).msg.is_none());
    assert!(press(&mut list, Key::Enter, 2249 * MS).msg.is_none());
    assert!(press(&mut list, Key::Enter, 2250 * MS).msg.is_some());
    assert!(press(&mut list, Key::Enter, 2251 * MS).msg.is_some());
}

#[test]
fn a_tap_never_confirms() {
    let mut list = live(true);
    tap(&mut list, 'p');
    press(&mut list, Key::Char('r'), 0);
    for frame in 0..hold_frames() {
        let e = list.handle_update(Update::HoldTick { seq: 0 }, frame * 40 * MS);
        assert!(runs(&e).is_empty());
    }
    assert!(list.hold().is_none());
    assert!(list.is_capturing());
    assert!(row(&list, 0).modify.is_none());
    assert_eq!(hold_frames(), 41);
}

#[test]
fn a_beat_at_the_very_edge() {
    // The key was last seen 750 ms ago: still held. One nanosecond more: not.
    for (late, fires) in [(0, true), (1, false)] {
        let mut list = live(true);
        tap(&mut list, 'p');
        press(&mut list, Key::Char('o'), 0);
        list.handle_key(plain(Key::Char('o'), KeyKind::Repeat), 750 * MS);
        let e = list.handle_update(Update::HoldTick { seq: 0 }, 1500 * MS + late);
        assert_eq!(!runs(&e).is_empty(), fires);
    }
}

#[test]
fn control_does_nothing_in_an_open_modal() {
    for enhanced in [true, false] {
        let mut list = live(enhanced);
        tap(&mut list, 'p');
        for c in ['c', 'o', 'j', 't'] {
            for kind in [KeyKind::Press, KeyKind::Repeat, KeyKind::Release] {
                let r = list.handle_key(control(c, kind), 5 * MS);
                assert!(r.effects.is_empty() && r.msg.is_none() && r.console.is_none());
                assert!(list.is_capturing() && list.hold().is_none());
                assert_eq!(list.modal().unwrap().cursor, 0);
            }
        }
        // The bare key acts: at once on a legacy keyboard, else it begins a hold.
        let r = tap(&mut list, 'c');
        assert_eq!(runs(&r.effects).is_empty(), enhanced);
        assert_eq!(list.hold().is_some(), enhanced);
    }
}

#[test]
fn control_is_never_the_held_key() {
    let mut list = live(true);
    tap(&mut list, 'b');
    press(&mut list, Key::Char('d'), 0);
    let r = list.handle_key(control('d', KeyKind::Repeat), 700 * MS);
    assert!(r.effects.is_empty());
    // Nothing kept the hold up: it ends without confirming.
    let e = list.handle_update(Update::HoldTick { seq: 0 }, 1500 * MS);
    assert!(runs(&e).is_empty());
    assert!(list.hold().is_none() && list.is_capturing());
}

#[test]
fn letting_go_with_control_down_cancels() {
    let mut list = live(true);
    tap(&mut list, 'p');
    press(&mut list, Key::Char('c'), 0);
    list.handle_key(plain(Key::Char('c'), KeyKind::Repeat), 1400 * MS);
    let r = list.handle_key(control('c', KeyKind::Release), 1450 * MS);
    assert_eq!(r.effects, [Effect::Redraw]);
    assert!(list.hold().is_none() && list.is_capturing());
    let e = list.handle_update(Update::HoldTick { seq: 0 }, 1500 * MS);
    assert!(runs(&e).is_empty());
    assert!(row(&list, 0).modify.is_none());
}

#[test]
fn control_changes_nothing_for_other_keys() {
    let with_control = |code: Key| KeyPress {
        code,
        kind: KeyKind::Press,
        control: true,
    };
    for held in [false, true] {
        let mut list = live(true);
        tap(&mut list, 'p');
        if held {
            press(&mut list, Key::Char('o'), 0);
        }
        let r = list.handle_key(with_control(Key::Esc), MS);
        assert_eq!(r.effects, [Effect::Redraw]);
        assert!(!list.is_capturing() && list.hold().is_none());
    }
    let mut list = live(true);
    tap(&mut list, 'b');
    list.handle_key(with_control(Key::Down), 0);
    assert_eq!(list.modal().unwrap().cursor, 1);
    list.handle_key(with_control(Key::Up), 0);
    assert_eq!(list.modal().unwrap().cursor, 0);
    list.handle_key(with_control(Key::Enter), 0);
    assert_eq!(list.hold().unwrap().key, Key::Enter);
}

#[test]
fn why_there_is_no_console() {
    let mut list = live(true);
    assert_eq!(list.console_refusal(), None);
    let mut poll = reachable(Some("00:00:00:00:00:00"));
    poll.power = PowerState::On;
    list.handle_update(Update::Power { idx: 0, poll }, 0);
    assert_eq!(list.console_refusal(), Some(ConsoleRefusal::MacMismatch));
    assert!(tap(&mut list, 'c').console.is_none());
    for _ in 0..3 {
        tap(&mut list, 'j');
    }
    assert_eq!(list.console_refusal(), Some(ConsoleRefusal::NoSol));
    assert!(tap(&mut list, 'c').console.is_none());
    assert_eq!(empty().console_refusal(), None);
    assert_eq!(demo(true).console_refusal(), None);
}

#[test]
fn releasing_or_escaping_ends_a_hold() {
    let mut list = live(true);
    tap(&mut list, 'b');
    press(&mut list, Key::Char('d'), 0);
    let r = list.handle_key(plain(Key::Char('x'), KeyKind::Release), 10);
    assert!(r.effects.is_empty() && list.hold().is_some());
    let r = list.handle_key(plain(Key::Char('d'), KeyKind::Release), 10);
    assert_eq!(r.effects, [Effect::Redraw]);
    assert!(list.hold().is_none() && list.is_capturing());
    press(&mut list, Key::Char('d'), 20);
    assert_eq!(list.hold().unwrap().seq, 1);
    // A stale tick does nothing but draw.
    let e = list.handle_update(Update::HoldTick { seq: 0 }, 30);
    assert_eq!(e, [Effect::Redraw]);
    assert!(list.hold().is_some());
    press(&mut list, Key::Esc, 40);
    assert!(!list.is_capturing() && list.hold().is_none());
}

#[test]
fn a_press_commits_at_once_on_legacy_terminals() {
    let mut list = live(false);
    tap(&mut list, 'b');
    tap(&mut list, 't');
    let r = press(&mut list, Key::Char('p'), 0);
    assert_eq!(
        r.effects,
        [
            Effect::Redraw,
            Effect::RunAction {
                idx: 0,
                seq: 0,
                action: Action::Boot(BootAction::Pxe),
                persistent: true
            }
        ]
    );
    assert!(!list.is_capturing());
}

#[test]
fn mismatched_rows_are_skipped() {
    let mut list = live(false);
    for _ in 0..3 {
        tap(&mut list, ' ');
        tap(&mut list, 'j');
    }
    let poll = reachable(Some("00:00:00:00:00:00"));
    list.handle_update(Update::Power { idx: 1, poll }, 0);
    assert!(row(&list, 1).mac_mismatch());
    tap(&mut list, 'p');
    assert_eq!(list.modal().unwrap().targets, [0, 1, 2]);
    let r = press(&mut list, Key::Enter, 0);
    assert_eq!(runs(&r.effects), [0, 2]);
    assert!(row(&list, 1).modify.is_none());
    assert_eq!(row(&list, 2).modify.unwrap().seq, 1);
}

#[test]
fn a_mac_is_compared_by_its_digits() {
    assert_eq!(norm_mac("90:5A:08:17:ae:01"), "905a0817ae01");
    let mut list = live(true);
    let poll = reachable(Some("90-5A-08-17-AE-01"));
    list.handle_update(Update::Power { idx: 0, poll }, 0);
    assert!(!row(&list, 0).mac_mismatch());
}

#[test]
fn consoles() {
    let mut list = demo(true);
    let c = tap(&mut list, 'c').console.unwrap();
    assert_eq!(c.request.program, "sh");
    assert_eq!(c.request.args[0], "-c");
    assert_eq!(
        c.request.args[1],
        "clear; printf '\\n  fishtank demo console for %s\\n  (no real BMC in --demo)\\n\\n' 'dc1-r01-node01'; printf '  Press Enter to return to fishtank…'; read _"
    );
    assert_eq!(c.request.note, "Console for dc1-r01-node01 (demo — no real BMC)");
    assert!(c.request.envs.is_empty() && c.preflight.is_none());
    assert!(tap(&mut list, 'c').console.is_none());
    list.console_done();
    assert!(tap(&mut list, 'c').console.is_some());

    let mut list = live(true);
    let c = tap(&mut list, 'c').console.unwrap();
    assert_eq!(
        c.request.args,
        ["-I", "lanplus", "-H", "10.130.128.10", "-U", "ADMIN", "-E", "sol", "activate"]
    );
    assert_eq!(c.request.envs[0].0, "IPMI_PASSWORD");
    assert_eq!(
        c.request.note,
        "Connecting to dc1-r01-node01 serial console — type '~.' to exit."
    );
    assert_eq!(c.preflight.unwrap().name, "dc1-r01-node01");
}

#[test]
fn no_console_without_ipmi_or_with_a_mismatch() {
    let mut list = live(true);
    for _ in 0..3 {
        tap(&mut list, 'j');
    }
    assert!(tap(&mut list, 'c').console.is_none());
    let mut list = live(true);
    let poll = reachable(Some("00:00:00:00:00:00"));
    list.handle_update(Update::Power { idx: 0, poll }, 0);
    assert!(tap(&mut list, 'c').console.is_none());
}

#[test]
fn details_open_on_their_tabs() {
    let mut list = demo(true);
    tap(&mut list, 'j');
    let tab_of = |r: Reaction| match r.msg {
        Some(MachineListMsg::OpenDetail(m, tab)) => (m.name, tab),
        None => panic!("no message"),
    };
    let name = "dc1-r01-node02".to_string();
    assert_eq!(
        tab_of(press(&mut list, Key::Enter, 0)),
        (name.clone(), DetailTab::Overview)
    );
    assert_eq!(tab_of(tap(&mut list, 'u')), (name.clone(), DetailTab::Users));
    assert_eq!(tab_of(tap(&mut list, 'l')), (name, DetailTab::Logs));
}

#[test]
fn a_refresh_polls_every_row() {
    let mut list = demo(true);
    let mut poll = reachable(Some("90:5a:08:17:ae:01"));
    poll.serial = Some("S".to_string());
    list.handle_update(Update::Power { idx: 0, poll }, 0);
    let r = tap(&mut list, 'r');
    assert_eq!(r.effects.len(), 16);
    assert_eq!(r.effects[0], Effect::PollPower { idx: 0, fetch_static: false });
    assert_eq!(r.effects[1], Effect::PollPower { idx: 1, fetch_static: true });
    assert_eq!(r.effects[8], Effect::PollHealth { idx: 0 });
    assert_eq!(list.poll_all_power().len(), 8);
    assert_eq!(list.poll_all_health().len(), 8);
}

#[test]
fn a_status_waits_for_linger_and_refresh() {
    for linger_first in [true, false] {
        let mut list = live(false);
        tap(&mut list, 'p');
        tap(&mut list, 's');
        let done = |ok: bool| Update::ActionDone {
            idx: 0,
            seq: 0,
            action: Action::Power(PowerAction::SoftOff),
            result: if ok { Ok(()) } else { Err("x".to_string()) },
        };
        // A poll during the action does not count as its refresh.
        list.handle_update(Update::Power { idx: 0, poll: reachable(None) }, 0);
        assert!(!row(&list, 0).modify.unwrap().refreshed);
        let e = list.handle_update(done(true), 0);
        assert_eq!(
            e,
            [
                Effect::PollPower { idx: 0, fetch_static: true },
                Effect::Linger { idx: 0, seq: 0 },
                Effect::Redraw
            ]
        );
        assert_eq!(row(&list, 0).modify.unwrap().kind, ModifyKind::Done);
        assert_eq!(row(&list, 0).power, PowerState::Off);
        let expire = Update::ModifyExpire { idx: 0, seq: 0 };
        let poll = Update::Power { idx: 0, poll: reachable(None) };
        let (a, b) = if linger_first { (expire, poll) } else { (poll, expire) };
        list.handle_update(Update::ModifyExpire { idx: 0, seq: 77 }, 0);
        assert!(!row(&list, 0).modify.unwrap().lingered);
        list.handle_update(a, 0);
        assert!(row(&list, 0).modify.is_some());
        list.handle_update(b, 0);
        assert!(row(&list, 0).modify.is_none());
    }
}

#[test]
fn failures_and_stale_results() {
    let mut list = live(false);
    tap(&mut list, 'b');
    tap(&mut list, 'd');
    let done = |seq: u64, ok: bool| Update::ActionDone {
        idx: 0,
        seq,
        action: Action::Boot(BootAction::Disk),
        result: if ok { Ok(()) } else { Err("x".to_string()) },
    };
    assert_eq!(list.handle_update(done(5, true), 0), [Effect::Redraw]);
    assert_eq!(row(&list, 0).boot, BootOverride::Unset);
    list.handle_update(done(0, false), 0);
    assert_eq!(row(&list, 0).modify.unwrap().kind, ModifyKind::Failed);
    assert_eq!(row(&list, 0).boot, BootOverride::Unset);
    list.handle_update(done(0, true), 0);
    assert_eq!(row(&list, 0).boot, BootOverride::Disk);
}

#[test]
fn an_unreachable_poll_keeps_what_was_known() {
    let mut list = live(true);
    let mut poll = reachable(Some("aa"));
    poll.serial = Some("S1".to_string());
    poll.fault = true;
    poll.latency = 5;
    list.handle_update(Update::Power { idx: 2, poll }, 0);
    let poll = PowerPoll::unreachable("gone".to_string());
    list.handle_update(Update::Power { idx: 2, poll }, 0);
    let r = row(&list, 2);
    assert_eq!(r.reachable, Some(false));
    assert_eq!(r.power, PowerState::On);
    assert_eq!(r.serial.as_deref(), Some("S1"));
    assert_eq!(r.observed_mac.as_deref(), Some("aa"));
    assert!(r.fault);
    assert_eq!(r.latency, 5);
    // A poll without static fields keeps the old ones.
    list.handle_update(Update::Power { idx: 2, poll: reachable(None) }, 0);
    assert_eq!(row(&list, 2).serial.as_deref(), Some("S1"));
    // Rows that are not there are ignored.
    list.handle_update(Update::Power { idx: 99, poll: reachable(None) }, 0);
    assert_eq!(list.row_count(), 8);
}

#[test]
fn health_changes_only_when_known() {
    let mut list = live(true);
    list.handle_update(Update::Health { idx: 0, health: Some(Health::Critical) }, 0);
    list.handle_update(Update::Health { idx: 0, health: None }, 0);
    assert_eq!(row(&list, 0).health, Health::Critical);
    assert_eq!(row(&list, 1).health, Health::Unknown);
}

#[test]
fn hotkeys_and_labels() {
    let hotkeys = |k: ModalKind| -> String { k.actions().iter().map(|&a| action_char(a)).collect() };
    assert_eq!(hotkeys(ModalKind::Power), "osfcr");
    assert_eq!(hotkeys(ModalKind::Boot), "pdbcn");
    assert_eq!(ModalKind::Power.title(), " Power ");
    assert_eq!(ModalKind::Boot.title(), " Boot ");
    let cycle = Action::Power(PowerAction::Cycle);
    assert_eq!(action_label(cycle), "cycle");
    assert_eq!(action_short(cycle), "cycle (cold)");
    assert_eq!(action_color(cycle), TEAL);
    assert_eq!(action_color(Action::Boot(BootAction::Clear)), Color::DarkGray);
    assert_eq!(action_color(Action::Boot(BootAction::Disk)), Color::White);
}

#[test]
fn a_held_row_fills_up() {
    let a = Action::Power(PowerAction::On);
    let line = action_line(a, true, None, 44);
    let text: String = line.iter().map(|c| c.text.as_str()).collect();
    assert_eq!(text, "> [o] on");
    assert!(line[0].bold && line[2].bold);
    let line = action_line(a, false, Some(4), 12);
    assert_eq!(line[0].text, "  [o");
    assert_eq!(line[0].bg, Some(Color::Green));
    assert_eq!(line[1].text, "] on    ");
    let line = action_line(a, false, Some(99), 4);
    assert_eq!(line[0].text, "  [o] on");
    assert_eq!(line[1].text, "");
}

#[test]
fn the_modal_as_drawn() {
    let mut list = demo(true);
    assert_eq!(list.modal_size(), None);
    assert!(list.render_modal(0, 44).is_none());
    tap(&mut list, 'b');
    tap(&mut list, 't');
    assert_eq!(list.modal_size(), Some((46, 12)));
    let (title, lines) = list.render_modal(0, 44).unwrap();
    assert_eq!(title, " Boot — Persistent ");
    let texts: Vec<String> = lines
        .iter()
        .map(|l| l.iter().map(|c| c.text.as_str()).collect())
        .collect();
    assert_eq!(
        texts,
        [
            "Target: dc1-r01-node01",
            "Apply:  Persistent   [t] once",
            "",
            "> [p] pxe (network)",
            "  [d] disk",
            "  [b] bios setup",
            "  [c] cd / dvd",
            "  [n] no override",
            "",
            "↑/↓ select · hold hotkey/Enter · Esc cancel",
        ]
    );
    let mut list = demo(false);
    tap(&mut list, 'p');
    assert_eq!(list.modal_size(), Some((46, 11)));
    let (title, lines) = list.render_modal(0, 44).unwrap();
    assert_eq!(title, " Power ");
    assert_eq!(lines.len(), 9);
    assert_eq!(lines[8][0].text, "↑/↓ select · hotkey/Enter confirm · Esc");
}

#[test]
fn a_hold_is_drawn_on_its_row() {
    let mut list = demo(true);
    tap(&mut list, 'p');
    press(&mut list, Key::Char('s'), 0);
    let (_, lines) = list.render_modal(10, 44).unwrap();
    assert_eq!(lines[3].len(), 2);
    assert_eq!(lines[3][0].text, "> [s] soft");
    assert_eq!(lines[3][0].bg, Some(Color::Yellow));
    assert_eq!(lines[2].len(), 3);
}

fn states(row: &MachineRow) -> Vec<String> {
    render_row(row).into_iter().map(|c| c.text).collect()
}

#[test]
fn states_of_a_row() {
    let machine: Machine = Inventory::demo().machines[0].clone();
    let mut r = MachineRow::new(machine);
    let s = states(&r);
    assert_eq!(s[0], " ");
    assert_eq!(s[5], "—");
    assert_eq!(s[6], "…");
    assert_eq!(s[8], "—");
    assert_eq!(s[10], "polling");
    r.reachable = Some(true);
    r.serial = Some("A-VERY-LONG-SERIAL-NUMBER".to_string());
    r.latency = 10_000_000_000;
    let s = states(&r);
    assert_eq!(s[5], "…G-SERIAL-NUMBER");
    assert_eq!(s[6], "?");
    assert_eq!(s[8], "·");
    assert_eq!(s[10], "ok");
    r.latency += 1;
    r.identify = true;
    r.marked = true;
    let s = states(&r);
    assert_eq!(s[0], "▶");
    assert_eq!(s[8], "ID");
    assert_eq!(s[10], "slow");
    r.observed_mac = Some("1".to_string());
    r.fault = true;
    let s = states(&r);
    assert_eq!(s[8], "FAULT");
    assert_eq!(s[10], "MAC MISMATCH");
    assert_eq!(render_row(&r)[4].fg, Some(Color::Red));
    r.reachable = Some(false);
    assert_eq!(states(&r)[10], "unreachable");
}

#[test]
fn truncation_keeps_the_end() {
    assert_eq!(truncate_start("abc", 3), "abc");
    assert_eq!(truncate_start("abcd", 3), "…cd");
    assert_eq!(truncate_start("ä€b", 2), "…b");
    assert_eq!(truncate_start("abc", 1), "…");
    assert_eq!(truncate_start("abc", 0), "…");
}

#[test]
fn centering() {
    let area = Rect { x: 2, y: 1, width: 80, height: 24 };
    assert_eq!(
        centered_rect(46, 11, area),
        Rect { x: 19, y: 7, width: 46, height: 11 }
    );
    let small = Rect { x: 0, y: 0, width: 10, height: 5 };
    assert_eq!(centered_rect(46, 11, small), small);
}

#[test]
fn whatever_happens_the_machines_stay() {
    let codes = [
        Key::Char('p'),
        Key::Char('b'),
        Key::Char('j'),
        Key::Char('k'),
        Key::Char(' '),
        Key::Char('t'),
        Key::Char('c'),
        Key::Char('s'),
        Key::Enter,
        Key::Esc,
        Key::Up,
        Key::Other,
    ];
    let kinds = [KeyKind::Press, KeyKind::Repeat, KeyKind::Release];
    let names: Vec<String> = Inventory::demo().machines.into_iter().map(|m| m.name).collect();
    for enhanced in [true, false] {
        let mut list = live(enhanced);
        let mut seed: u64 = 7;
        let mut next = |n: u64| -> u64 {
            seed = seed.wrapping_mul(6364136223846793005).wrapping_add(1442695040888963407);
            (seed >> 33) % n
        };
        for step in 0..20_000u128 {
            let now = step * 30 * MS;
            let idx = next(10) as usize;
            match next(8) {
                0 => {
                    let poll = if next(2) == 0 {
                        reachable(None)
                    } else {
                        PowerPoll::unreachable("x".to_string())
                    };
                    list.handle_update(Update::Power { idx, poll }, now);
                }
                1 => {
                    let seq = next(40);
                    list.handle_update(Update::ModifyExpire { idx, seq }, now);
                }
                2 => {
                    let seq = next(40);
                    let e = list.handle_update(Update::HoldTick { seq }, now);
                    assert!(enhanced || runs(&e).is_empty());
                }
                _ => {
                    let code = codes[next(12) as usize];
                    let kind = kinds[next(3) as usize];
                    let control = next(8) == 0;
                    let r = list.handle_key(KeyPress { code, kind, control }, now);
                    assert!(!enhanced || runs(&r.effects).is_empty());
                }
            }
            assert_eq!(list.row_count(), 8);
            assert!(list.selected_idx().unwrap() < 8);
            assert!(list.hold().is_none() || list.is_capturing());
            assert!(enhanced || list.hold().is_none());
            if let Some(m) = list.modal() {
                assert!(m.cursor < 5 && !m.targets.is_empty());
                assert!(m.kind == ModalKind::Boot || !m.persistent);
            }
        }
        for (i, name) in names.iter().enumerate() {
            assert_eq!(&row(&list, i).machine.name, name);
        }
    }
}
