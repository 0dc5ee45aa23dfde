//! What the machine list looks like: the cells of its rows and the lines of the
//! power/boot modal.

use vstd::prelude::*;

use super::model::{ListView, ModalView, RowView};
use super::{
    action_char, Action, MachineList, MachineRow, Modal, ModalKind, ModifyKind, SLOW_THRESHOLD,
};
use crate::app::cell::{self, Cell, CellView, Color, TEAL};
use crate::bmc::{BootAction, BootOverride, Health, PowerAction, PowerState};
use crate::text;

verus! {

/// Width of the Serial column (left-truncated when longer).
pub const SERIAL_W: u16 = 16;

// --- rows ----------------------------------------------------------------------

/// `s` cut down to `max` characters by leaving out its start, which an ellipsis
/// stands for.
pub open spec fn end_of(s: Seq<char>, max: nat) -> Seq<char> {
    if s.len() <= max {
        s
    } else {
        let keep = if max == 0 {
            0
        } else {
            max - 1
        };
        "…"@ + s.skip(s.len() - keep)
    }
}

pub fn truncate_start(s: &str, max: usize) -> (r: String)
    ensures
        r@ == end_of(s@, max as nat),
{
    let v = text::chars_of(s);
    let n = v.len();
    if n <= max {
        return s.to_owned();
    }
    let keep: usize = if max == 0 {
        0
    } else {
        max - 1
    };
    let tail = text::string_of(&text::slice_of(&v, n - keep, n));
    assert(s@.subrange(n - keep, n as int) == s@.skip(n - keep));
    text::join2("…", tail.as_str())
}

/// A truncated text fits its column and keeps its end.
pub proof fn truncation_keeps_the_end(s: Seq<char>, max: nat)
    requires
        max > 0,
    ensures
        end_of(s, max).len() <= max,
        s.len() <= max ==> end_of(s, max) == s,
        s.len() > max ==> end_of(s, max).len() == max && end_of(s, max).skip(1) == s.skip(
            s.len() - (max - 1),
        ),
{
    reveal_strlit("…");
    if s.len() > max {
        assert(end_of(s, max).skip(1) == s.skip(s.len() - (max - 1)));
    }
}

pub open spec fn power_look(p: PowerState) -> CellView {
    match p {
        PowerState::On => cell::tinted("on"@, Color::Green),
        PowerState::Off => cell::tinted("off"@, Color::Red),
        PowerState::Unknown => cell::tinted("?"@, Color::DarkGray),
    }
}

pub fn power_cell(p: PowerState) -> (r: Cell)
    ensures
        r@ == power_look(p),
{
    match p {
        PowerState::On => Cell::colored("on", Color::Green),
        PowerState::Off => Cell::colored("off", Color::Red),
        PowerState::Unknown => Cell::colored("?", Color::DarkGray),
    }
}

pub open spec fn health_look(h: Health) -> CellView {
    match h {
        Health::Nominal => cell::tinted("OK"@, Color::Green),
        Health::Warning => cell::tinted("WARN"@, Color::Yellow),
        Health::Critical => cell::tinted("CRIT"@, Color::Red),
        Health::Unknown => cell::tinted("?"@, Color::DarkGray),
    }
}

pub fn health_cell(h: Health) -> (r: Cell)
    ensures
        r@ == health_look(h),
{
    match h {
        Health::Nominal => Cell::colored("OK", Color::Green),
        Health::Warning => Cell::colored("WARN", Color::Yellow),
        Health::Critical => Cell::colored("CRIT", Color::Red),
        Health::Unknown => Cell::colored("?", Color::DarkGray),
    }
}

pub open spec fn flags_look(r: RowView) -> CellView {
    if r.reachable != Some(true) {
        cell::as_is("—"@)
    } else if r.fault {
        cell::strong("FAULT"@, Color::Red)
    } else if r.identify {
        cell::tinted("ID"@, Color::Cyan)
    } else {
        cell::tinted("·"@, Color::DarkGray)
    }
}

pub fn flags_cell(r: &MachineRow) -> (c: Cell)
    ensures
        c@ == flags_look(r@),
{
    if !matches!(r.reachable, Some(true)) {
        return Cell::plain("—");
    }
    if r.fault {
        Cell::bold("FAULT", Color::Red)
    } else if r.identify {
        Cell::colored("ID", Color::Cyan)
    } else {
        Cell::colored("·", Color::DarkGray)
    }
}

pub open spec fn boot_look(r: RowView) -> CellView {
    if r.reachable != Some(true) {
        cell::as_is("—"@)
    } else {
        cell::tinted(
            r.boot.name(),
            match r.boot {
                BootOverride::Pxe => Color::Yellow,
                BootOverride::Unset => Color::DarkGray,
                _ => Color::White,
            },
        )
    }
}

pub fn boot_cell(r: &MachineRow) -> (c: Cell)
    ensures
        c@ == boot_look(r@),
{
    if !matches!(r.reachable, Some(true)) {
        return Cell::plain("—");
    }
    let color = if r.boot == BootOverride::Pxe {
        Color::Yellow
    } else if r.boot.is_override() {
        Color::White
    } else {
        Color::DarkGray
    };
    Cell::colored(r.boot.short(), color)
}

/// The "State" column. A modification (modifying…/✓/✗) takes over while active,
/// hiding the live sync state; a MAC mismatch otherwise wins over ok/slow.
pub open spec fn state_look(r: RowView, mac_mismatch: bool) -> CellView {
    match r.modify {
        Some(m) => match m.kind {
            ModifyKind::Busy => cell::strong("modifying…"@, Color::Yellow),
            ModifyKind::Done => cell::strong("modifying ✓"@, Color::Green),
            ModifyKind::Failed => cell::strong("modify ✗"@, Color::Red),
        },
        None => match r.reachable {
            None => cell::tinted("polling"@, Color::Yellow),
            Some(false) => cell::tinted("unreachable"@, Color::Red),
            Some(true) => if mac_mismatch {
                cell::strong("MAC MISMATCH"@, Color::Red)
            } else if r.latency > SLOW_THRESHOLD {
                cell::tinted("slow"@, Color::Yellow)
            } else {
                cell::tinted("ok"@, Color::Green)
            },
        },
    }
}

/// A row with a MAC mismatch is flagged, unless a modification is being shown: in
/// its state and in the colour of its MAC address.
pub proof fn a_mismatched_row_is_flagged(r: RowView)
    requires
        r.mac_mismatch(),
    ensures
        row_look(r)[4].fg == Some(Color::Red),
        r.reachable == Some(true) && r.modify is None ==> row_look(r)[10] == cell::strong(
            "MAC MISMATCH"@,
            Color::Red,
        ),
{
}

pub fn state_cell(r: &MachineRow, mac_mismatch: bool) -> (c: Cell)
    ensures
        c@ == state_look(r@, mac_mismatch),
{
    if let Some(m) = r.modify {
        return match m.kind {
            ModifyKind::Busy => Cell::bold("modifying…", Color::Yellow),
            ModifyKind::Done => Cell::bold("modifying ✓", Color::Green),
            ModifyKind::Failed => Cell::bold("modify ✗", Color::Red),
        };
    }
    match r.reachable {
        None => Cell::colored("polling", Color::Yellow),
        Some(false) => Cell::colored("unreachable", Color::Red),
        Some(true) => if mac_mismatch {
            Cell::bold("MAC MISMATCH", Color::Red)
        } else if r.latency > SLOW_THRESHOLD {
            Cell::colored("slow", Color::Yellow)
        } else {
            Cell::colored("ok", Color::Green)
        },
    }
}

pub open spec fn or_dash(o: Option<Seq<char>>) -> Seq<char> {
    match o {
        Some(s) => s,
        None => "—"@,
    }
}

fn text_or_dash(o: &Option<String>) -> (r: String)
    ensures
        r@ == or_dash(text::text_of(*o)),
{
    match o {
        Some(s) => s.clone(),
        None => "—".to_owned(),
    }
}

/// The eleven cells of a row: marker, name, protocol, host, MAC, serial, power,
/// health, flags, boot and state.
pub open spec fn row_look(r: RowView) -> Seq<CellView> {
    let m = r.machine;
    seq![
        if r.marked {
            cell::tinted("▶"@, TEAL)
        } else {
            cell::as_is(" "@)
        },
        if r.marked {
            cell::tinted(m.name, TEAL)
        } else {
            cell::as_is(m.name)
        },
        cell::as_is(m.protocol.name()),
        cell::as_is(m.host),
        if r.mac_mismatch() {
            cell::tinted(or_dash(m.mac), Color::Red)
        } else {
            cell::as_is(or_dash(m.mac))
        },
        cell::as_is(end_of(or_dash(r.serial), SERIAL_W as nat)),
        match r.reachable {
            Some(true) => power_look(r.power),
            Some(false) => cell::as_is("—"@),
            None => cell::as_is("…"@),
        },
        match r.reachable {
            Some(true) => health_look(r.health),
            Some(false) => cell::as_is("—"@),
            None => cell::as_is("…"@),
        },
        flags_look(r),
        boot_look(r),
        state_look(r, r.mac_mismatch()),
    ]
}

pub fn render_row(r: &MachineRow) -> (cells: Vec<Cell>)
    ensures
        cell::cell_views(cells@) == row_look(r@),
{
    let m = &r.machine;
    let mismatch = r.mac_mismatch();
    let mut cells: Vec<Cell> = Vec::new();
    if r.marked {
        cells.push(Cell::colored("▶", TEAL));
        cells.push(Cell::colored(m.name.as_str(), TEAL));
    } else {
        cells.push(Cell::plain(" "));
        cells.push(Cell::plain(m.name.as_str()));
    }
    cells.push(Cell::plain(m.protocol.label()));
    cells.push(Cell::plain(m.host.as_str()));
    let mac_text = text_or_dash(&m.mac);
    if mismatch {
        cells.push(Cell::colored(mac_text.as_str(), Color::Red));
    } else {
        cells.push(Cell::plain(mac_text.as_str()));
    }
    let serial_text = text_or_dash(&r.serial);
    let serial = truncate_start(serial_text.as_str(), SERIAL_W as usize);
    cells.push(Cell::plain(serial.as_str()));
    match r.reachable {
        Some(true) => {
            cells.push(power_cell(r.power));
            cells.push(health_cell(r.health));
        },
        Some(false) => {
            cells.push(Cell::plain("—"));
            cells.push(Cell::plain("—"));
        },
        None => {
            cells.push(Cell::plain("…"));
            cells.push(Cell::plain("…"));
        },
    }
    cells.push(flags_cell(r));
    cells.push(boot_cell(r));
    cells.push(state_cell(r, mismatch));
    assert(cell::cell_views(cells@) =~= row_look(r@));
    cells
}

// --- actions -------------------------------------------------------------------

impl Action {
    pub open spec fn name(self) -> Seq<char> {
        match self {
            Action::Power(p) => p.name(),
            Action::Boot(b) => b.name(),
        }
    }

    pub open spec fn caption(self) -> Seq<char> {
        match self {
            Action::Power(PowerAction::On) => "on"@,
            Action::Power(PowerAction::SoftOff) => "soft-off"@,
            Action::Power(PowerAction::ForceOff) => "force-off"@,
            Action::Power(PowerAction::Cycle) => "cycle (cold)"@,
            Action::Power(PowerAction::Reset) => "reset (warm)"@,
            Action::Boot(BootAction::Pxe) => "pxe (network)"@,
            Action::Boot(BootAction::Disk) => "disk"@,
            Action::Boot(BootAction::Bios) => "bios setup"@,
            Action::Boot(BootAction::Cd) => "cd / dvd"@,
            Action::Boot(BootAction::Clear) => "no override"@,
        }
    }

    pub open spec fn tint(self) -> Color {
        match self {
            Action::Power(PowerAction::On) => Color::Green,
            Action::Power(PowerAction::SoftOff) => Color::Yellow,
            Action::Power(PowerAction::ForceOff) => Color::Red,
            Action::Power(PowerAction::Cycle) => TEAL,
            Action::Power(PowerAction::Reset) => TEAL,
            Action::Boot(BootAction::Pxe) => Color::Yellow,
            Action::Boot(BootAction::Clear) => Color::DarkGray,
            Action::Boot(_) => Color::White,
        }
    }
}

pub fn action_label(a: Action) -> (r: &'static str)
    ensures
        r@ == a.name(),
{
    match a {
        Action::Power(p) => p.label(),
        Action::Boot(b) => b.label(),
    }
}

pub fn action_short(a: Action) -> (r: &'static str)
    ensures
        r@ == a.caption(),
{
    match a {
        Action::Power(PowerAction::On) => "on",
        Action::Power(PowerAction::SoftOff) => "soft-off",
        Action::Power(PowerAction::ForceOff) => "force-off",
        Action::Power(PowerAction::Cycle) => "cycle (cold)",
        Action::Power(PowerAction::Reset) => "reset (warm)",
        Action::Boot(BootAction::Pxe) => "pxe (network)",
        Action::Boot(BootAction::Disk) => "disk",
        Action::Boot(BootAction::Bios) => "bios setup",
        Action::Boot(BootAction::Cd) => "cd / dvd",
        Action::Boot(BootAction::Clear) => "no override",
    }
}

pub fn action_color(a: Action) -> (r: Color)
    ensures
        r == a.tint(),
{
    match a {
        Action::Power(PowerAction::On) => Color::Green,
        Action::Power(PowerAction::SoftOff) => Color::Yellow,
        Action::Power(PowerAction::ForceOff) => Color::Red,
        Action::Power(PowerAction::Cycle) => TEAL,
        Action::Power(PowerAction::Reset) => TEAL,
        Action::Boot(BootAction::Pxe) => Color::Yellow,
        Action::Boot(BootAction::Clear) => Color::DarkGray,
        Action::Boot(_) => Color::White,
    }
}

// --- the modal -----------------------------------------------------------------

impl ModalKind {
    pub open spec fn heading(self) -> Seq<char> {
        match self {
            ModalKind::Power => " Power "@,
            ModalKind::Boot => " Boot "@,
        }
    }

    pub fn title(self) -> (r: &'static str)
        ensures
            r@ == self.heading(),
    {
        match self {
            ModalKind::Power => " Power ",
            ModalKind::Boot => " Boot ",
        }
    }
}

/// `[k]` for an action.
pub open spec fn key_label(a: Action) -> Seq<char> {
    "["@ + seq![a.hotkey()] + "]"@
}

fn hotkey_text(a: Action) -> (r: String)
    ensures
        r@ == key_label(a),
{
    let mut k = String::new();
    k.push(action_char(a));
    assert(k@ == seq![a.hotkey()]);
    text::join3("[", k.as_str(), "]")
}

/// The text of one modal action row as wide as the modal.
pub open spec fn action_field(a: Action, selected: bool, width: nat) -> Seq<char> {
    let marker = if selected {
        "> "@
    } else {
        "  "@
    };
    text::pad_right(marker + key_label(a) + (" "@ + a.caption()), width)
}

/// One modal action row: `> [k] label`, with `>` on the cursor row and the
/// hotkey `[k]` coloured by action. `fill` is there while this action is being
/// held: that many characters of the full-width bar are filled.
pub open spec fn action_look(a: Action, selected: bool, fill: Option<usize>, width: nat) -> Seq<
    CellView,
> {
    match fill {
        Some(n) => {
            let field = action_field(a, selected, width);
            let k = if n < field.len() {
                n as int
            } else {
                field.len() as int
            };
            seq![
                CellView {
                    text: field.take(k),
                    fg: Some(Color::Black),
                    bg: Some(a.tint()),
                    bold: false,
                },
                cell::tinted(field.skip(k), Color::White),
            ]
        },
        None => seq![
            if selected {
                cell::strong("> "@, TEAL)
            } else {
                cell::as_is("  "@)
            },
            cell::tinted(key_label(a), a.tint()),
            if selected {
                cell::strong(" "@ + a.caption(), Color::White)
            } else {
                cell::tinted(" "@ + a.caption(), Color::White)
            },
        ],
    }
}

pub fn action_line(a: Action, selected: bool, fill: Option<usize>, width: usize) -> (r: Vec<Cell>)
    ensures
        cell::cell_views(r@) == action_look(a, selected, fill, width as nat),
{
    let color = action_color(a);
    let marker = if selected {
        "> "
    } else {
        "  "
    };
    let key = hotkey_text(a);
    let label = text::join2(" ", action_short(a));
    let mut line: Vec<Cell> = Vec::new();
    match fill {
        Some(n) => {
            // The action colour fills behind the text across the full modal
            // width.
            let shown = text::join3(marker, key.as_str(), label.as_str());
            let field = text::padded_right(&text::chars_of(shown.as_str()), width);
            let k: usize = if n < field.len() {
                n
            } else {
                field.len()
            };
            let filled = text::string_of(&text::slice_of(&field, 0, k));
            let rest = text::string_of(&text::slice_of(&field, k, field.len()));
            assert(filled@ == field@.take(k as int));
            assert(rest@ == field@.skip(k as int));
            line.push(Cell { text: filled, fg: Some(Color::Black), bg: Some(color), bold: false });
            line.push(Cell::colored(rest.as_str(), Color::White));
        },
        None => {
            if selected {
                line.push(Cell::bold(marker, TEAL));
                line.push(Cell::colored(key.as_str(), color));
                line.push(Cell::bold(label.as_str(), Color::White));
            } else {
                line.push(Cell::plain(marker));
                line.push(Cell::colored(key.as_str(), color));
                line.push(Cell::colored(label.as_str(), Color::White));
            }
        },
    }
    assert(cell::cell_views(line@) =~= action_look(a, selected, fill, width as nat));
    line
}

/// The filled and the unfilled part of a held row make up the whole row.
pub proof fn a_held_row_keeps_its_text(a: Action, selected: bool, n: usize, width: nat)
    ensures
        action_look(a, selected, Some(n), width).len() == 2,
        action_look(a, selected, Some(n), width)[0].text + action_look(
            a,
            selected,
            Some(n),
            width,
        )[1].text == action_field(a, selected, width),
{
}

/// The title of the box. Boot tells how the override will apply.
pub open spec fn modal_title(m: ModalView) -> Seq<char> {
    match m.kind {
        ModalKind::Boot => if m.persistent {
            " Boot — Persistent "@
        } else {
            " Boot — Once "@
        },
        ModalKind::Power => m.kind.heading(),
    }
}

/// The lines above the actions: the target, and for boot how the override will
/// apply.
pub open spec fn modal_head(m: ModalView) -> Seq<Seq<CellView>> {
    let target = seq![cell::heavy("Target: "@), cell::as_is(m.label)];
    match m.kind {
        ModalKind::Power => seq![target, seq![cell::as_is(""@)]],
        ModalKind::Boot => seq![
            target,
            seq![
                cell::heavy("Apply:  "@),
                if m.persistent {
                    cell::strong("Persistent"@, Color::Yellow)
                } else {
                    cell::strong("Once"@, Color::Green)
                },
                cell::as_is("   "@),
                cell::tinted("[t]"@, TEAL),
                cell::tinted(
                    if m.persistent {
                        " once"@
                    } else {
                        " persistent"@
                    },
                    Color::DarkGray,
                ),
            ],
            seq![cell::as_is(""@)],
        ],
    }
}

/// The line of the action at `i`. The action that is being held shows its bar.
pub open spec fn modal_action(
    m: ModalView,
    held: Option<Action>,
    fill: usize,
    width: nat,
    i: int,
) -> Seq<CellView> {
    let a = m.kind.set()[i];
    action_look(
        a,
        i == m.cursor,
        if held == Some(a) {
            Some(fill)
        } else {
            None
        },
        width,
    )
}

pub open spec fn modal_hint(enhanced: bool) -> Seq<char> {
    if enhanced {
        "↑/↓ select · hold hotkey/Enter · Esc cancel"@
    } else {
        "↑/↓ select · hotkey/Enter confirm · Esc"@
    }
}

/// All lines of the modal.
pub open spec fn modal_look(
    m: ModalView,
    held: Option<Action>,
    fill: usize,
    width: nat,
    enhanced: bool,
) -> Seq<Seq<CellView>> {
    modal_head(m) + Seq::new(
        m.kind.set().len(),
        |i: int| modal_action(m, held, fill, width, i),
    ) + seq![
        seq![cell::as_is(""@)],
        seq![cell::tinted(modal_hint(enhanced), Color::DarkGray)],
    ]
}

fn line1(a: Cell) -> (r: Vec<Cell>)
    ensures
        cell::cell_views(r@) == seq![a@],
{
    let mut v: Vec<Cell> = Vec::new();
    v.push(a);
    assert(cell::cell_views(v@) =~= seq![a@]);
    v
}

fn modal_lines(
    m: &Modal,
    held: Option<Action>,
    fill: usize,
    width: usize,
    enhanced: bool,
) -> (lines: Vec<Vec<Cell>>)
    ensures
        cell::line_views(lines@) == modal_look(m@, held, fill, width as nat, enhanced),
{
    let mut lines: Vec<Vec<Cell>> = Vec::new();
    let mut target: Vec<Cell> = Vec::new();
    target.push(Cell::heavy("Target: "));
    target.push(Cell::plain(m.label.as_str()));
    assert(cell::cell_views(target@) =~= modal_head(m@)[0]);
    lines.push(target);
    if matches!(m.kind, ModalKind::Boot) {
        let mut apply: Vec<Cell> = Vec::new();
        apply.push(Cell::heavy("Apply:  "));
        if m.persistent {
            apply.push(Cell::bold("Persistent", Color::Yellow));
        } else {
            apply.push(Cell::bold("Once", Color::Green));
        }
        apply.push(Cell::plain("   "));
        apply.push(Cell::colored("[t]", TEAL));
        if m.persistent {
            apply.push(Cell::colored(" once", Color::DarkGray));
        } else {
            apply.push(Cell::colored(" persistent", Color::DarkGray));
        }
        assert(cell::cell_views(apply@) =~= modal_head(m@)[1]);
        lines.push(apply);
    }
    lines.push(line1(Cell::plain("")));
    let ghost head = lines@;
    assert(cell::line_views(head) =~= modal_head(m@));
    let actions = m.kind.actions();
    let ghost body = Seq::new(
        5,
        |i: int| modal_action(m@, held, fill, width as nat, i),
    );
    assert(cell::line_views(lines@) =~= cell::line_views(head) + body.take(0));
    for i in 0..5
        invariant
            actions@ == m.kind.set(),
            body == Seq::new(5, |i: int| modal_action(m@, held, fill, width as nat, i)),
            cell::line_views(lines@) == cell::line_views(head) + body.take(i as int),
    {
        let a = actions[i];
        let shown: Option<usize> = match held {
            Some(h) => if h == a {
                Some(fill)
            } else {
                None
            },
            None => None,
        };
        let line = action_line(a, i == m.cursor, shown, width);
        let ghost before = lines@;
        lines.push(line);
        assert(cell::line_views(lines@) =~= cell::line_views(before).push(body[i as int]));
        assert(body.take(i + 1) =~= body.take(i as int).push(body[i as int]));
        assert(cell::line_views(head) + body.take(i + 1) =~= (cell::line_views(head) + body.take(
            i as int,
        )).push(body[i as int]));
    }
    assert(body.take(5) =~= body);
    let ghost upper = lines@;
    lines.push(line1(Cell::plain("")));
    let hint = if enhanced {
        "↑/↓ select · hold hotkey/Enter · Esc cancel"
    } else {
        "↑/↓ select · hotkey/Enter confirm · Esc"
    };
    lines.push(line1(Cell::colored(hint, Color::DarkGray)));
    assert(cell::line_views(lines@) =~= cell::line_views(upper) + seq![
        seq![cell::as_is(""@)],
        seq![cell::tinted(modal_hint(enhanced), Color::DarkGray)],
    ]);
    assert(cell::line_views(lines@) =~= modal_look(m@, held, fill, width as nat, enhanced));
    lines
}

impl ListView {
    pub open spec fn held_action(self) -> Option<Action> {
        match self.hold {
            Some(h) => Some(h.action),
            None => None,
        }
    }

    pub open spec fn table_title(self) -> Seq<char> {
        " Machines ("@ + text::decimal(self.rows.len()) + ") "@
    }
}

/// The size of a modal's box.
pub open spec fn box_size(kind: ModalKind) -> (u16, u16) {
    (
        46u16,
        if kind is Boot {
            12u16
        } else {
            11u16
        },
    )
}

impl MachineList {
    /// The title of the table.
    pub fn title(&self) -> (r: String)
        ensures
            r@ == self@.table_title(),
    {
        let n = text::to_decimal(self.row_count() as u64);
        text::join3(" Machines (", n.as_str(), ") ")
    }

    /// The size of the modal's box, if it is open. Boot shows an extra "Apply:"
    /// line for the persistence toggle.
    pub fn modal_size(&self) -> (r: Option<(u16, u16)>)
        ensures
            r == match self@.modal {
                Some(m) => Some(
                    (
                        46u16,
                        if m.kind is Boot {
                            12u16
                        } else {
                            11u16
                        },
                    ),
                ),
                None => None,
            },
            r is Some <==> self@.modal is Some,
            r is Some ==> r->0 == box_size(self@.modal->0.kind),
    {
        match self.modal() {
            Some(m) => if matches!(m.kind, ModalKind::Boot) {
                Some((46, 12))
            } else {
                Some((46, 11))
            },
            None => None,
        }
    }

    /// The centered power/boot modal: a cursor list with per-row hotkeys
    /// (`> [k] label`). `width` is the inner width of its box, and `fill` how
    /// many characters of it the hold's bar fills.
    pub fn render_modal(&self, fill: usize, width: usize) -> (r: Option<(String, Vec<Vec<Cell>>)>)
        ensures
            match self@.modal {
                Some(m) => r is Some && (r->0).0@ == modal_title(m) && cell::line_views((r->0).1@)
                    == modal_look(m, self@.held_action(), fill, width as nat, self@.enhanced),
                None => r is None,
            },
    {
        match self.modal() {
            Some(m) => {
                let title = match m.kind {
                    ModalKind::Boot => if m.persistent {
                        " Boot — Persistent "
                    } else {
                        " Boot — Once "
                    },
                    ModalKind::Power => m.kind.title(),
                };
                let held = match self.hold() {
                    Some(h) => Some(h.action),
                    None => None,
                };
                let lines = modal_lines(m, held, fill, width, self.is_enhanced());
                Some((title.to_owned(), lines))
            },
            None => None,
        }
    }
}

} // verus!
