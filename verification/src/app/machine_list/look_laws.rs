//! What the machine list looks like, column by column and line by line.

use vstd::prelude::*;

use super::model::{ListView, ModalView, RowView};
use super::render;
use super::{Action, ModalKind, ModifyKind};
use crate::app::cell::{CellView, Color};
use crate::bmc::{BootAction, BootOverride, Health, PowerAction, PowerState};
use crate::inventory::Protocol;
use crate::text;

verus! {

/// Whether a cell shows `text` in the given colour, if any, on the usual ground.
pub open spec fn shows(c: CellView, text: Seq<char>, fg: Option<Color>) -> bool {
    c.text == text && c.fg == fg && c.bg is None
}

// --- rows ----------------------------------------------------------------------

/// A row has eleven cells: mark, name, protocol, host, MAC address, serial, power,
/// health, flags, boot override and state. A marked row has an arrow and its name in
/// colour; the MAC address is red where it is at odds; what is not known is a dash.
pub proof fn the_left_columns_tell_what_the_machine_is(r: RowView)
    ensures
        ({
            let c = render::row_look(r);
            let m = r.machine;
            let mac = if m.mac is Some {
                m.mac->0
            } else {
                "—"@
            };
            let teal = Some(Color::Cyan);
            &&& c.len() == 11
            &&& r.marked ==> shows(c[0], "▶"@, teal) && shows(c[1], m.name, teal)
            &&& !r.marked ==> shows(c[0], " "@, None) && shows(c[1], m.name, None)
            &&& m.protocol == Protocol::Ipmi ==> shows(c[2], "ipmi"@, None)
            &&& m.protocol == Protocol::Redfish ==> shows(c[2], "redfish"@, None)
            &&& shows(c[3], m.host, None)
            &&& r.mac_mismatch() ==> shows(c[4], mac, Some(Color::Red))
            &&& !r.mac_mismatch() ==> shows(c[4], mac, None)
            &&& r.serial is None ==> shows(c[5], "—"@, None)
            &&& r.serial is Some && r.serial->0.len() <= 16 ==> shows(c[5], r.serial->0, None)
            &&& r.serial is Some && r.serial->0.len() > 16 ==> shows(
                c[5],
                "…"@ + r.serial->0.skip(r.serial->0.len() - 15),
                None,
            )
        }),
{
    reveal_strlit("—");
}

/// The power and the health of a machine that was reached, each in its colour; of one
/// that was not reached, or not asked yet, they are not shown.
pub proof fn the_power_and_health_columns(r: RowView)
    ensures
        ({
            let p = render::row_look(r)[6];
            let h = render::row_look(r)[7];
            &&& r.reachable == Some(true) ==> {
                &&& r.power == PowerState::On ==> shows(p, "on"@, Some(Color::Green))
                &&& r.power == PowerState::Off ==> shows(p, "off"@, Some(Color::Red))
                &&& r.power == PowerState::Unknown ==> shows(p, "?"@, Some(Color::DarkGray))
                &&& r.health == Health::Nominal ==> shows(h, "OK"@, Some(Color::Green))
                &&& r.health == Health::Warning ==> shows(h, "WARN"@, Some(Color::Yellow))
                &&& r.health == Health::Critical ==> shows(h, "CRIT"@, Some(Color::Red))
                &&& r.health == Health::Unknown ==> shows(h, "?"@, Some(Color::DarkGray))
            }
            &&& r.reachable == Some(false) ==> shows(p, "—"@, None) && shows(h, "—"@, None)
            &&& r.reachable is None ==> shows(p, "…"@, None) && shows(h, "…"@, None)
        }),
{
}

/// The flags of a machine that was reached: a fault before an identify LED before
/// neither. Its boot override is shown under its label, yellow for the network.
pub proof fn the_flags_and_boot_columns(r: RowView)
    ensures
        ({
            let f = render::row_look(r)[8];
            let b = render::row_look(r)[9];
            &&& r.reachable == Some(true) ==> {
                &&& r.fault ==> shows(f, "FAULT"@, Some(Color::Red)) && f.bold
                &&& !r.fault && r.identify ==> shows(f, "ID"@, Some(Color::Cyan))
                &&& !r.fault && !r.identify ==> shows(f, "·"@, Some(Color::DarkGray))
                &&& r.boot == BootOverride::Unset ==> shows(b, "—"@, Some(Color::DarkGray))
                &&& r.boot == BootOverride::Pxe ==> shows(b, "PXE"@, Some(Color::Yellow))
                &&& r.boot == BootOverride::Disk ==> shows(b, "disk"@, Some(Color::White))
                &&& r.boot == BootOverride::Bios ==> shows(b, "bios"@, Some(Color::White))
                &&& r.boot == BootOverride::Cd ==> shows(b, "cd"@, Some(Color::White))
                &&& r.boot == BootOverride::Other ==> shows(b, "set"@, Some(Color::White))
            }
            &&& r.reachable != Some(true) ==> shows(f, "—"@, None) && shows(b, "—"@, None)
        }),
{
}

/// The state of a row. An action that is under way or has just come back is shown
/// before all else; then whether the machine could be reached; then a MAC mismatch;
/// then an answer that took more than ten seconds.
pub proof fn the_state_column(r: RowView)
    ensures
        ({
            let s = render::row_look(r)[10];
            let m = r.modify->0;
            &&& r.modify is Some ==> {
                &&& m.kind == ModifyKind::Busy ==> shows(s, "modifying…"@, Some(Color::Yellow))
                &&& m.kind == ModifyKind::Done ==> shows(s, "modifying ✓"@, Some(Color::Green))
                &&& m.kind == ModifyKind::Failed ==> shows(s, "modify ✗"@, Some(Color::Red))
            }
            &&& r.modify is None ==> {
                &&& r.reachable is None ==> shows(s, "polling"@, Some(Color::Yellow))
                &&& r.reachable == Some(false) ==> shows(s, "unreachable"@, Some(Color::Red))
                &&& r.reachable == Some(true) && r.mac_mismatch() ==> shows(
                    s,
                    "MAC MISMATCH"@,
                    Some(Color::Red),
                )
                &&& r.reachable == Some(true) && !r.mac_mismatch() && r.latency > 10_000_000_000
                    ==> shows(s, "slow"@, Some(Color::Yellow))
                &&& r.reachable == Some(true) && !r.mac_mismatch() && r.latency <= 10_000_000_000
                    ==> shows(s, "ok"@, Some(Color::Green))
            }
        }),
{
}

/// The title of the table tells how many machines there are.
pub proof fn the_title_counts_the_machines(list: ListView)
    ensures
        list.table_title() == " Machines ("@ + text::decimal(list.rows.len()) + ") "@,
{
}

// --- the modal -----------------------------------------------------------------

/// What the entries of the modals are called, and their colours.
pub proof fn the_captions_of_the_entries(a: Action)
    ensures
        a == Action::Power(PowerAction::On) ==> a.caption() == "on"@ && a.tint() == Color::Green,
        a == Action::Power(PowerAction::SoftOff) ==> a.caption() == "soft-off"@ && a.tint()
            == Color::Yellow,
        a == Action::Power(PowerAction::ForceOff) ==> a.caption() == "force-off"@ && a.tint()
            == Color::Red,
        a == Action::Power(PowerAction::Cycle) ==> a.caption() == "cycle (cold)"@ && a.tint()
            == Color::Cyan,
        a == Action::Power(PowerAction::Reset) ==> a.caption() == "reset (warm)"@ && a.tint()
            == Color::Cyan,
        a == Action::Boot(BootAction::Pxe) ==> a.caption() == "pxe (network)"@ && a.tint()
            == Color::Yellow,
        a == Action::Boot(BootAction::Disk) ==> a.caption() == "disk"@ && a.tint() == Color::White,
        a == Action::Boot(BootAction::Bios) ==> a.caption() == "bios setup"@ && a.tint()
            == Color::White,
        a == Action::Boot(BootAction::Cd) ==> a.caption() == "cd / dvd"@ && a.tint()
            == Color::White,
        a == Action::Boot(BootAction::Clear) ==> a.caption() == "no override"@ && a.tint()
            == Color::DarkGray,
        a is Power ==> a.name() == a->Power_0.name(),
        a is Boot ==> a.name() == a->Boot_0.name(),
{
}

/// An entry that is not held: the cursor's arrow on the entry under the cursor and on
/// no other, the letter in brackets in the entry's colour, and what it is called.
pub proof fn an_entry_shows_its_letter_and_caption(a: Action, selected: bool, width: nat)
    ensures
        ({
            let c = render::action_look(a, selected, None, width);
            &&& c.len() == 3
            &&& selected ==> c[0].text == "> "@ && c[0].bold && c[2].bold
            &&& !selected ==> c[0].text == "  "@ && !c[0].bold && !c[2].bold
            &&& c[1].text == "["@ + seq![a.hotkey()] + "]"@
            &&& c[1].fg == Some(a.tint())
            &&& c[2].text == " "@ + a.caption()
        }),
{
}

/// The entry that is held shows a bar of the given length behind its text, and its
/// text does not change.
pub proof fn a_held_entry_fills_up(a: Action, selected: bool, n: usize, width: nat)
    ensures
        ({
            let c = render::action_look(a, selected, Some(n), width);
            let marker = if selected {
                "> "@
            } else {
                "  "@
            };
            let shown = marker + ("["@ + seq![a.hotkey()] + "]"@) + (" "@ + a.caption());
            let whole = c[0].text + c[1].text;
            &&& c.len() == 2
            &&& c[0].bg == Some(a.tint())
            &&& c[1].bg is None
            &&& whole.len() == if shown.len() < width {
                width
            } else {
                shown.len()
            }
            &&& whole.take(shown.len() as int) == shown
            &&& n <= whole.len() ==> c[0].text.len() == n
            &&& n > whole.len() ==> c[0].text == whole
        }),
{
    let marker = if selected {
        "> "@
    } else {
        "  "@
    };
    let shown = marker + ("["@ + seq![a.hotkey()] + "]"@) + (" "@ + a.caption());
    let c = render::action_look(a, selected, Some(n), width);
    let whole = c[0].text + c[1].text;
    render::a_held_row_keeps_its_text(a, selected, n, width);
    assert(whole =~= text::pad_right(shown, width));
    assert(whole.take(shown.len() as int) =~= shown);
    if n > whole.len() {
        assert(c[0].text =~= whole);
    }
}

/// The lines of the modal: its target, for boot how long the override lasts, then the
/// five entries in order, and a hint. The arrow stands on the entry under the cursor,
/// and the bar on the entry that is held.
pub proof fn the_lines_of_the_modal(
    m: ModalView,
    held: Option<Action>,
    fill: usize,
    width: nat,
    enhanced: bool,
    i: int,
)
    requires
        0 <= i < 5,
    ensures
        ({
            let lines = render::modal_look(m, held, fill, width, enhanced);
            let head: int = if m.kind == ModalKind::Boot {
                3
            } else {
                2
            };
            let a = m.kind.set()[i];
            &&& lines.len() == head + 7
            &&& lines[0][0].text == "Target: "@
            &&& lines[0][1].text == m.label
            &&& m.kind == ModalKind::Boot && m.persistent ==> lines[1][1].text == "Persistent"@
            &&& m.kind == ModalKind::Boot && !m.persistent ==> lines[1][1].text == "Once"@
            &&& m.kind == ModalKind::Boot && m.persistent ==> lines[1][4].text == " once"@
            &&& m.kind == ModalKind::Boot && !m.persistent ==> lines[1][4].text == " persistent"@
            &&& lines[head + i] == render::action_look(
                a,
                i == m.cursor,
                if held == Some(a) {
                    Some(fill)
                } else {
                    None
                },
                width,
            )
            &&& enhanced ==> lines[head + 6][0].text
                == "↑/↓ select · hold hotkey/Enter · Esc cancel"@
            &&& !enhanced ==> lines[head + 6][0].text
                == "↑/↓ select · hotkey/Enter confirm · Esc"@
        }),
{
    super::key_laws::the_entries_of_the_modals(m.kind, i);
}

/// The title of the modal tells which one it is, and for boot how long the override
/// lasts.
pub proof fn the_title_of_the_modal(m: ModalView)
    ensures
        m.kind == ModalKind::Power ==> render::modal_title(m) == " Power "@,
        m.kind == ModalKind::Boot && m.persistent ==> render::modal_title(m)
            == " Boot — Persistent "@,
        m.kind == ModalKind::Boot && !m.persistent ==> render::modal_title(m) == " Boot — Once "@,
{
}

/// The box of a modal is as high as its lines and its two borders.
pub proof fn the_box_holds_the_lines(
    m: ModalView,
    held: Option<Action>,
    fill: usize,
    width: nat,
    enhanced: bool,
)
    ensures
        render::box_size(m.kind).1 == render::modal_look(m, held, fill, width, enhanced).len() + 2,
        render::box_size(m.kind).0 == 46,
{
    the_lines_of_the_modal(m, held, fill, width, enhanced, 0);
}

/// The bar stands on the action of the hold; without a hold there is none.
pub proof fn the_bar_stands_on_the_held_action(list: ListView)
    ensures
        list.hold is Some ==> list.held_action() == Some(list.hold->0.action),
        list.hold is None ==> list.held_action() is None,
{
}

} // verus!
