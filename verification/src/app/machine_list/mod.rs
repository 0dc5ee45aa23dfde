//! The machine-list view: fishtank's core component.
//!
//! Holds the inventory rows. Two background cadences poll the BMCs (power on the
//! frequent poll interval, health on the slower health interval); results patch
//! the matching row in place.
//!
//! Selection, power & boot control:
//! - `space` toggles the cursor row's membership in the active selection; marked
//!   rows show a teal `▶` marker and a teal name.
//! - `p` opens the power modal, `b` the boot modal. Both use the same widget: a
//!   cursor list with per-row hotkeys (`> [k] label`). Navigate with ↑/↓ (j/k);
//!   they act on the selection, falling back to the cursor row when nothing is
//!   marked.
//! - Confirming an action is **press-and-hold for 1.5s**: a coloured bar fills
//!   behind the label. Hold a row's hotkey (which also selects it), or move the
//!   cursor and hold Enter. In enhanced (kitty) terminals releasing the key
//!   early cancels; otherwise the fill is skipped and a single press commits.
//!   `Esc` cancels and the modal consumes every other key.
//! - Each acted row then runs `modifying… → modifying ✓` (or `modify ✗`), the
//!   ✓/✗ lingering 5s (hiding live state) before reverting. MAC-mismatch rows
//!   are skipped.
//!
//! The list is a state machine. Keys go into [`MachineList::handle_key`], results
//! of started tasks into [`MachineList::handle_update`]; both answer with what
//! the caller has to do next. Times are nanoseconds on one clock.

pub mod key_laws;
pub mod laws;
pub mod look_laws;
pub mod model;
pub mod render;
pub mod row_laws;

use vstd::prelude::*;

use crate::app::machine_detail::DetailTab;
use crate::bmc::ipmi;
use crate::bmc::{BootAction, BootOverride, Health, PowerAction, PowerPoll, PowerState};
use crate::inventory::{Inventory, Machine, MachineView, Protocol};
use crate::ratata::event::{Key, KeyKind, KeyPress};
use crate::ratata::runtime::ConsoleRequest;
use crate::text;
use model::{LaunchView, ListView, ReactionView, UpdateView};

verus! {

/// Max concurrent BMC polls/actions in flight.
pub const MAX_CONCURRENT_POLLS: usize = 16;

/// A power poll slower than this flips the row's state to "slow".
pub const SLOW_THRESHOLD: u128 = 10_000_000_000;

/// How long the `modifying ✓`/`modify ✗` result lingers before reverting.
pub const MODIFY_LINGER: u128 = 5_000_000_000;

/// Press-and-hold duration. The fill bar spans the full modal width and advances
/// smoothly over it.
pub const HOLD_DURATION: u128 = 1_500_000_000;

/// Animation frame interval of a hold.
pub const HOLD_FRAME: u128 = 40_000_000;

/// A hold is sustained by the key's auto-repeat acting as a heartbeat. If no
/// key event for the held key arrives within this window, the key is considered
/// released and the hold cancels. Must exceed a typical auto-repeat initial
/// delay yet stay well under the 1.5s fill so a quick tap can never complete.
pub const HEARTBEAT_TIMEOUT: u128 = 750_000_000;

/// An action issued from a modal: either a power control or a boot override.
/// Both share the same modal widget (a cursor list with per-row hotkeys), the
/// selection, the MAC-mismatch guard and the modify lifecycle.
#[derive(Debug, Clone, Copy, PartialEq, Eq, Structural)]
pub enum Action {
    Power(PowerAction),
    Boot(BootAction),
}

impl Action {
    pub open spec fn hotkey(self) -> char {
        match self {
            Action::Power(PowerAction::On) => 'o',
            Action::Power(PowerAction::SoftOff) => 's',
            Action::Power(PowerAction::ForceOff) => 'f',
            Action::Power(PowerAction::Cycle) => 'c',
            Action::Power(PowerAction::Reset) => 'r',
            Action::Boot(BootAction::Pxe) => 'p',
            Action::Boot(BootAction::Disk) => 'd',
            Action::Boot(BootAction::Bios) => 'b',
            Action::Boot(BootAction::Cd) => 'c',
            Action::Boot(BootAction::Clear) => 'n',
        }
    }
}

/// Whether a key event is a character together with Control.
fn chord(key: KeyPress) -> (r: bool)
    ensures
        r == model::is_chord(key),
{
    key.control && matches!(key.code, Key::Char(_))
}

/// Why a machine gets no serial console.
#[derive(Debug, Clone, Copy, PartialEq, Eq, Structural)]
pub enum ConsoleRefusal {
    /// The machine isn't managed over IPMI: there is no SOL.
    NoSol,
    /// The BMC that answered isn't the configured one.
    MacMismatch,
}

/// The hotkey letter for an action: shown as `[k]` and used to select+hold.
pub fn action_char(a: Action) -> (r: char)
    ensures
        r == a.hotkey(),
{
    match a {
        Action::Power(PowerAction::On) => 'o',
        Action::Power(PowerAction::SoftOff) => 's',
        Action::Power(PowerAction::ForceOff) => 'f',
        Action::Power(PowerAction::Cycle) => 'c',
        Action::Power(PowerAction::Reset) => 'r',
        Action::Boot(BootAction::Pxe) => 'p',
        Action::Boot(BootAction::Disk) => 'd',
        Action::Boot(BootAction::Bios) => 'b',
        Action::Boot(BootAction::Cd) => 'c',
        Action::Boot(BootAction::Clear) => 'n',
    }
}

/// Which modal is open: selects the action set and the title; the interaction
/// is identical for both.
#[derive(Debug, Clone, Copy, PartialEq, Eq, Structural)]
pub enum ModalKind {
    Power,
    Boot,
}

impl ModalKind {
    /// The actions, in the order shown in the modal.
    pub open spec fn set(self) -> Seq<Action> {
        match self {
            ModalKind::Power => seq![
                Action::Power(PowerAction::On),
                Action::Power(PowerAction::SoftOff),
                Action::Power(PowerAction::ForceOff),
                Action::Power(PowerAction::Cycle),
                Action::Power(PowerAction::Reset),
            ],
            ModalKind::Boot => seq![
                Action::Boot(BootAction::Pxe),
                Action::Boot(BootAction::Disk),
                Action::Boot(BootAction::Bios),
                Action::Boot(BootAction::Cd),
                Action::Boot(BootAction::Clear),
            ],
        }
    }

    /// The actions, in the order shown in the modal.
    pub fn actions(self) -> (r: [Action; 5])
        ensures
            r@ == self.set(),
    {
        let r = match self {
            ModalKind::Power => [
                Action::Power(PowerAction::On),
                Action::Power(PowerAction::SoftOff),
                Action::Power(PowerAction::ForceOff),
                Action::Power(PowerAction::Cycle),
                Action::Power(PowerAction::Reset),
            ],
            ModalKind::Boot => [
                Action::Boot(BootAction::Pxe),
                Action::Boot(BootAction::Disk),
                Action::Boot(BootAction::Bios),
                Action::Boot(BootAction::Cd),
                Action::Boot(BootAction::Clear),
            ],
        };
        assert(r@ == self.set());
        r
    }
}

/// Lifecycle of an in-progress / just-finished power modification on a row.
/// After it finishes (Done/Failed) the status lingers until BOTH the linger
/// timer fired (`lingered`) AND a fresh poll has landed (`refreshed`), so we
/// never snap back to a stale row before the new state is reflected.
#[derive(Debug, Clone, Copy, PartialEq, Eq, Structural)]
pub struct Modify {
    pub kind: ModifyKind,
    pub seq: u64,
    pub lingered: bool,
    pub refreshed: bool,
}

#[derive(Debug, Clone, Copy, PartialEq, Eq, Structural)]
pub enum ModifyKind {
    Busy,
    Done,
    Failed,
}

/// A machine plus its latest, independently-updated state.
#[derive(Debug)]
pub struct MachineRow {
    pub machine: Machine,
    pub serial: Option<String>,
    pub observed_mac: Option<String>,
    pub reachable: Option<bool>,
    pub power: PowerState,
    pub health: Health,
    /// How long the last successful power poll took, in nanoseconds.
    pub latency: u128,
    pub fault: bool,
    pub identify: bool,
    pub boot: BootOverride,
    pub marked: bool,
    pub modify: Option<Modify>,
}

/// A MAC address reduced to its hexadecimal digits.
pub fn norm_mac(s: &str) -> (r: String)
    ensures
        r@ == model::mac_digits(s@),
{
    let v = text::chars_of(s);
    let mut out = String::new();
    for i in 0..v.len()
        invariant
            out@ == model::mac_digits(v@.take(i as int)),
    {
        let c = v[i];
        assert(v@.take(i + 1).drop_last() == v@.take(i as int));
        if ('0' <= c && c <= '9') || ('a' <= c && c <= 'f') || ('A' <= c && c <= 'F') {
            out.push(text::to_lower_char(c));
        }
    }
    assert(v@.take(v@.len() as int) == v@);
    out
}

impl MachineRow {
    /// The row of a machine that has not been polled yet.
    pub fn new(machine: Machine) -> (r: Self)
        ensures
            r@ == model::fresh(machine@),
    {
        MachineRow {
            serial: text::copy_option(&machine.serial),
            observed_mac: None,
            reachable: None,
            power: PowerState::Unknown,
            health: Health::Unknown,
            latency: 0,
            fault: false,
            identify: false,
            boot: BootOverride::Unset,
            marked: false,
            modify: None,
            machine,
        }
    }

    /// Whether the BMC reported another MAC address than the inventory has,
    /// however the two are written.
    pub fn mac_mismatch(&self) -> (r: bool)
        ensures
            r == self@.mac_mismatch(),
    {
        match (&self.machine.mac, &self.observed_mac) {
            (Some(cfg), Some(obs)) => {
                let a = norm_mac(cfg.as_str());
                let b = norm_mac(obs.as_str());
                !text::same(a.as_str(), b.as_str())
            },
            _ => false,
        }
    }

    pub fn needs_static(&self) -> (r: bool)
        ensures
            r == self@.needs_static(),
    {
        self.serial.is_none() || (self.machine.mac.is_some() && self.observed_mac.is_none())
    }

    fn take_poll(&mut self, poll: PowerPoll)
        ensures
            final(self)@ == old(self)@.polled(poll@),
    {
        if poll.reachable {
            if poll.serial.is_some() {
                self.serial = poll.serial;
            }
            if poll.mac.is_some() {
                self.observed_mac = poll.mac;
            }
            self.reachable = Some(true);
            self.power = poll.power;
            self.latency = poll.latency;
            self.fault = poll.fault;
            self.identify = poll.identify;
            self.boot = poll.boot;
        } else {
            self.reachable = Some(false);
        }
        // A completed poll is the post-action "refresh" we wait for before
        // lifting a finished modify status.
        if let Some(m) = self.modify {
            if !matches!(m.kind, ModifyKind::Busy) {
                self.modify = Some(Modify { refreshed: true, ..m });
            }
        }
    }

    /// Mark the linger timer as elapsed for the matching modify generation.
    fn mark_lingered(&mut self, seq: u64)
        ensures
            final(self)@ == old(self)@.lingered(seq),
    {
        if let Some(m) = self.modify {
            if m.seq == seq {
                self.modify = Some(Modify { lingered: true, ..m });
            }
        }
    }

    /// Clear a finished modify status once both conditions hold: the linger
    /// timer elapsed AND a fresh poll has landed.
    fn clear_modify_if_ready(&mut self)
        ensures
            final(self)@ == old(self)@.settled(),
    {
        if let Some(m) = self.modify {
            if m.lingered && m.refreshed {
                self.modify = None;
            }
        }
    }

    fn set_busy(&mut self, seq: u64)
        ensures
            final(self)@ == old(self)@.busy(seq),
    {
        self.modify =
        Some(Modify { kind: ModifyKind::Busy, seq, lingered: false, refreshed: false });
    }

    /// Show what a finished action is expected to have done, and that it
    /// finished.
    fn take_result(&mut self, seq: u64, action: Action, ok: bool)
        ensures
            final(self)@ == old(self)@.acted(seq, action, ok),
    {
        if ok {
            match action {
                Action::Power(a) => {
                    if let Some(p) = a.optimistic_power() {
                        self.power = p;
                    }
                },
                Action::Boot(a) => {
                    self.boot = a.optimistic_boot();
                },
            }
        }
        let kind = if ok {
            ModifyKind::Done
        } else {
            ModifyKind::Failed
        };
        self.modify = Some(Modify { kind, seq, lingered: false, refreshed: false });
    }
}

/// The centered power/boot modal (which rows it targets).
#[derive(Debug)]
pub struct Modal {
    pub kind: ModalKind,
    pub targets: Vec<usize>,
    pub label: String,
    /// Highlighted entry (the `>` cursor).
    pub cursor: usize,
    /// Boot only: apply the override persistently (across reboots) vs next-boot.
    pub persistent: bool,
}

/// An in-progress press-and-hold on a modal action.
#[derive(Debug, Clone, Copy, PartialEq, Eq, Structural)]
pub struct Hold {
    pub action: Action,
    /// The key sustaining this hold: the action's hotkey, or Enter when the
    /// hold was started from the cursor row. Releasing/stopping it cancels.
    pub key: Key,
    pub seq: u64,
    /// When the hold began.
    pub started: u128,
    /// Last time we saw a key event for the held key (auto-repeat heartbeat).
    pub last_beat: u128,
}

/// A result coming back from a started task.
pub enum Update {
    Power { idx: usize, poll: PowerPoll },
    Health { idx: usize, health: Option<Health> },
    ActionDone { idx: usize, seq: u64, action: Action, result: Result<(), String> },
    ModifyExpire { idx: usize, seq: u64 },
    HoldTick { seq: u64 },
}

impl View for Update {
    type V = UpdateView;

    open spec fn view(&self) -> UpdateView {
        match self {
            Update::Power { idx, poll } => UpdateView::Power { idx: *idx, poll: poll@ },
            Update::Health { idx, health } => UpdateView::Health { idx: *idx, health: *health },
            Update::ActionDone { idx, seq, action, result } => UpdateView::ActionDone {
                idx: *idx,
                seq: *seq,
                action: *action,
                error: match result {
                    Ok(()) => None,
                    Err(e) => Some(e@),
                },
            },
            Update::ModifyExpire { idx, seq } => UpdateView::ModifyExpire { idx: *idx, seq: *seq },
            Update::HoldTick { seq } => UpdateView::HoldTick { seq: *seq },
        }
    }
}

/// Something for the caller to do.
#[derive(Debug, Clone, Copy, PartialEq, Eq, Structural)]
pub enum Effect {
    /// Draw the view again.
    Redraw,
    /// Poll the row's power state and report it as [`Update::Power`].
    PollPower { idx: usize, fetch_static: bool },
    /// Poll the row's health and report it as [`Update::Health`].
    PollHealth { idx: usize },
    /// Send [`hold_frames`] ticks, [`HOLD_FRAME`] apart, as [`Update::HoldTick`].
    HoldTicks { seq: u64 },
    /// Run the action on the row and report it as [`Update::ActionDone`].
    RunAction { idx: usize, seq: u64, action: Action, persistent: bool },
    /// Report [`Update::ModifyExpire`] after [`MODIFY_LINGER`].
    Linger { idx: usize, seq: u64 },
}

/// How many animation frames a hold gets: for a little past [`HOLD_DURATION`].
pub fn hold_frames() -> (r: u128)
    ensures
        r == HOLD_DURATION / HOLD_FRAME + 4,
        r == 41,
{
    HOLD_DURATION / HOLD_FRAME + 4
}

/// Upward messages to the root view.
pub enum MachineListMsg {
    /// Open the per-machine detail view for this machine, on the given tab.
    OpenDetail(Machine, DetailTab),
}

pub open spec fn message(m: Option<MachineListMsg>) -> Option<(MachineView, DetailTab)> {
    match m {
        Some(MachineListMsg::OpenDetail(m, t)) => Some((m@, t)),
        None => None,
    }
}

/// A console to be started.
pub struct ConsoleLaunch {
    pub request: ConsoleRequest,
    /// The machine whose stale session to end first (best-effort).
    pub preflight: Option<Machine>,
}

impl View for ConsoleLaunch {
    type V = LaunchView;

    open spec fn view(&self) -> LaunchView {
        LaunchView {
            request: self.request@,
            preflight: match self.preflight {
                Some(m) => Some(m@),
                None => None,
            },
        }
    }
}

/// What a key asks for.
pub struct Reaction {
    pub effects: Vec<Effect>,
    pub msg: Option<MachineListMsg>,
    pub console: Option<ConsoleLaunch>,
}

impl View for Reaction {
    type V = ReactionView;

    open spec fn view(&self) -> ReactionView {
        ReactionView {
            effects: self.effects@,
            detail: message(self.msg),
            console: match self.console {
                Some(c) => Some(c@),
                None => None,
            },
        }
    }
}

/// The machine list.
pub struct MachineList {
    rows: Vec<MachineRow>,
    modal: Option<Modal>,
    hold: Option<Hold>,
    selected: Option<usize>,
    /// The number of the next hold or modification.
    seq: u64,
    power_interval_secs: u64,
    health_interval_secs: u64,
    demo: bool,
    /// Enhanced (kitty) keyboard: key-release events are available, so power
    /// confirm is a true hold (releasing cancels). Otherwise it auto-completes.
    enhanced: bool,
    /// True while a console session is pending/active: gates re-launch so a
    /// held `c` (or rapid taps) can't queue repeated sessions.
    console_pending: bool,
    /// The key+time of the last hold that fired. Auto-repeat of that key keeps
    /// arriving briefly after the hold completes and the modal closes; we
    /// swallow it at the list level so e.g. holding Enter to confirm doesn't
    /// then open the detail page (and held `p`/`b`/`c` don't re-trigger).
    last_fire: Option<(Key, u128)>,
}

impl View for MachineList {
    type V = ListView;

    closed spec fn view(&self) -> ListView {
        ListView {
            rows: model::row_views(self.rows@),
            modal: model::modal_view(self.modal),
            hold: self.hold,
            selected: self.selected,
            seq: self.seq,
            power_interval_secs: self.power_interval_secs,
            health_interval_secs: self.health_interval_secs,
            demo: self.demo,
            enhanced: self.enhanced,
            console_pending: self.console_pending,
            last_fire: self.last_fire,
        }
    }
}

/// Putting one row in the place of another.
proof fn lemma_row_update(rows: Seq<MachineRow>, i: int, row: MachineRow)
    requires
        0 <= i < rows.len(),
    ensures
        model::row_views(rows.update(i, row)) == model::row_views(rows).update(i, row@),
{
    assert(model::row_views(rows.update(i, row)) == model::row_views(rows).update(i, row@));
}

fn next_number(seq: u64) -> (r: u64)
    ensures
        r == model::number_after(seq, 1),
{
    if seq == u64::MAX {
        0
    } else {
        seq + 1
    }
}

fn time_since(t: u128, now: u128) -> (r: u128)
    ensures
        r == model::since(t, now),
{
    if now >= t {
        now - t
    } else {
        0
    }
}

impl MachineList {
    pub fn new(inventory: Inventory, demo: bool, enhanced: bool) -> (r: Self)
        ensures
            r@ == ListView::initial(
                crate::inventory::machine_views(inventory.machines@),
                inventory.poll_interval_secs,
                inventory.health_interval_secs,
                demo,
                enhanced,
            ),
            r@.inv(),
    {
        let ghost all = inventory.machines@;
        let ghost views = crate::inventory::machine_views(all);
        let mut rows: Vec<MachineRow> = Vec::new();
        for m in it: inventory.machines.into_iter()
            invariant
                it.seq() == all,
                rows@.len() == it.index(),
                forall|j: int| 0 <= j < rows@.len() ==> (#[trigger] rows@[j])@ == model::fresh(
                    all[j]@,
                ),
        {
            rows.push(MachineRow::new(m));
        }
        let selected: Option<usize> = if rows.len() == 0 {
            None
        } else {
            Some(0)
        };
        let power_interval_secs: u64 = if inventory.poll_interval_secs < 1 {
            1
        } else {
            inventory.poll_interval_secs
        };
        let health_interval_secs: u64 = if inventory.health_interval_secs < 1 {
            1
        } else {
            inventory.health_interval_secs
        };
        assert(model::row_views(rows@) == views.map_values(|m: MachineView| model::fresh(m)));
        MachineList {
            rows,
            modal: None,
            hold: None,
            selected,
            seq: 0,
            power_interval_secs,
            health_interval_secs,
            demo,
            enhanced,
            console_pending: false,
            last_fire: None,
        }
    }

    // --- what the view shows ---------------------------------------------------

    pub fn row_count(&self) -> (r: usize)
        ensures
            r == self@.rows.len(),
    {
        self.rows.len()
    }

    pub fn row(&self, idx: usize) -> (r: Option<&MachineRow>)
        ensures
            idx >= self@.rows.len() ==> r is None,
            idx < self@.rows.len() ==> r is Some && r->0@ == self@.rows[idx as int],
    {
        if idx < self.rows.len() {
            Some(&self.rows[idx])
        } else {
            None
        }
    }

    /// True while the modal owns input: the parent must not act on globals
    /// (Ctrl+C / q) so the modal can consume every key.
    pub fn is_capturing(&self) -> (r: bool)
        ensures
            r == (self@.modal is Some),
    {
        self.modal.is_some()
    }

    pub fn selected_idx(&self) -> (r: Option<usize>)
        ensures
            r == self@.selected,
    {
        self.selected
    }

    /// The open modal.
    pub fn modal(&self) -> (r: Option<&Modal>)
        ensures
            match r {
                Some(m) => self@.modal == Some(m@),
                None => self@.modal is None,
            },
    {
        self.modal.as_ref()
    }

    /// The hold in progress.
    pub fn hold(&self) -> (r: Option<Hold>)
        ensures
            r == self@.hold,
    {
        self.hold
    }

    /// How long the hold in progress has been going on: its bar is filled by
    /// that part of [`HOLD_DURATION`].
    pub fn hold_elapsed(&self, now: u128) -> (r: Option<u128>)
        ensures
            match self@.hold {
                Some(h) => r is Some && r->0 == model::since(h.started, now),
                None => r is None,
            },
    {
        match self.hold {
            Some(h) => Some(time_since(h.started, now)),
            None => None,
        }
    }

    pub fn is_enhanced(&self) -> (r: bool)
        ensures
            r == self@.enhanced,
    {
        self.enhanced
    }

    pub fn power_interval_secs(&self) -> (r: u64)
        ensures
            r == self@.power_interval_secs,
    {
        self.power_interval_secs
    }

    pub fn health_interval_secs(&self) -> (r: u64)
        ensures
            r == self@.health_interval_secs,
    {
        self.health_interval_secs
    }

    // --- cursor and marks ------------------------------------------------------

    fn select_next(&mut self)
        requires
            old(self)@.inv(),
        ensures
            final(self)@ == old(self)@.select_next(),
    {
        let n = self.rows.len();
        if n == 0 {
            return;
        }
        let i: usize = match self.selected {
            Some(i) => if i + 1 == n {
                0
            } else {
                i + 1
            },
            None => 0,
        };
        proof {
            model::lemma_wrap(self.selected->0 as int, n as int);
        }
        self.selected = Some(i);
    }

    fn select_prev(&mut self)
        requires
            old(self)@.inv(),
        ensures
            final(self)@ == old(self)@.select_prev(),
    {
        let n = self.rows.len();
        if n == 0 {
            return;
        }
        let i: usize = match self.selected {
            Some(i) => if i == 0 {
                n - 1
            } else {
                i - 1
            },
            None => 0,
        };
        proof {
            model::lemma_wrap(self.selected->0 as int, n as int);
        }
        self.selected = Some(i);
    }

    fn toggle_mark(&mut self)
        ensures
            final(self)@ == old(self)@.toggle_mark(),
    {
        if let Some(idx) = self.selected {
            if idx < self.rows.len() {
                let ghost before = self.rows@;
                self.rows[idx].marked = !self.rows[idx].marked;
                proof {
                    lemma_row_update(before, idx as int, self.rows@[idx as int]);
                    assert(self.rows@ == before.update(idx as int, self.rows@[idx as int]));
                }
            }
        }
    }

    /// Ask the root to open the detail view (on `tab`) for the cursor row.
    fn open_detail(&self, tab: DetailTab) -> (r: Option<MachineListMsg>)
        ensures
            message(r) == self@.open_detail(tab),
    {
        match self.selected {
            Some(idx) => if idx < self.rows.len() {
                Some(MachineListMsg::OpenDetail(self.rows[idx].machine.clone(), tab))
            } else {
                None
            },
            None => None,
        }
    }
}

impl MachineList {
    // --- console (SOL) ---------------------------------------------------------

    /// Why the cursor row gets no serial console, if so.
    pub fn console_refusal(&self) -> (r: Option<ConsoleRefusal>)
        ensures
            r == self@.console_refusal(),
    {
        match self.selected {
            Some(idx) => if idx >= self.rows.len() || self.demo {
                None
            } else if !matches!(self.rows[idx].machine.protocol, Protocol::Ipmi) {
                Some(ConsoleRefusal::NoSol)
            } else if self.rows[idx].mac_mismatch() {
                Some(ConsoleRefusal::MacMismatch)
            } else {
                None
            },
            None => None,
        }
    }

    /// Launch the serial console for the cursor row (a single machine, not the
    /// multi-selection). The caller suspends the view and hands over the
    /// terminal, and calls [`MachineList::console_done`] when the session is
    /// over. In demo mode there's no BMC, so it runs a placeholder shell.
    fn launch_console(&mut self) -> (r: Option<ConsoleLaunch>)
        ensures
            match r {
                Some(c) => old(self)@.console() == Some(c@),
                None => old(self)@.console() is None,
            },
            final(self)@ == (ListView {
                console_pending: old(self)@.console_pending || r is Some,
                ..old(self)@
            }),
    {
        let idx: usize = match self.selected {
            Some(idx) => idx,
            None => {
                return None;
            },
        };
        if idx >= self.rows.len() {
            return None;
        }
        // Validate before reserving the single-console slot.
        if self.console_refusal().is_some() {
            return None;
        }
        // One session at a time: ignore launches while one is pending/active.
        if self.console_pending {
            return None;
        }
        self.console_pending = true;
        let m = &self.rows[idx].machine;
        let launch = if self.demo {
            demo_console(m)
        } else {
            sol_console(m)
        };
        Some(launch)
    }

    /// The console session is over; the next one may start.
    pub fn console_done(&mut self)
        requires
            old(self)@.inv(),
        ensures
            final(self)@ == (ListView { console_pending: false, ..old(self)@ }),
            final(self)@.inv(),
    {
        self.console_pending = false;
    }
}

fn demo_console(m: &Machine) -> (r: ConsoleLaunch)
    ensures
        r@ == model::demo_console(m@),
{
    let note = text::join3("Console for ", m.name.as_str(), " (demo — no real BMC)");
    let script = text::join3(
        "clear; printf '\\n  fishtank demo console for %s\\n  (no real BMC in --demo)\\n\\n' '",
        m.name.as_str(),
        "'; printf '  Press Enter to return to fishtank…'; read _",
    );
    let mut args: Vec<String> = Vec::new();
    args.push("-c".to_owned());
    args.push(script);
    let envs: Vec<(String, String)> = Vec::new();
    assert(text::strings(args@) == seq!["-c"@, script@]);
    assert(text::string_pairs(envs@) == Seq::<(Seq<char>, Seq<char>)>::empty());
    ConsoleLaunch {
        request: ConsoleRequest { program: "sh".to_owned(), args, envs, note },
        preflight: None,
    }
}

fn sol_console(m: &Machine) -> (r: ConsoleLaunch)
    ensures
        r@ == model::sol_console(m@),
{
    let note = text::join3("Connecting to ", m.name.as_str(), " serial console — type '~.' to exit.");
    let args = ipmi::ipmitool_args(m, ipmi::sol_activate());
    let mut envs: Vec<(String, String)> = Vec::new();
    envs.push(ipmi::environment(m));
    assert(text::string_pairs(envs@) == seq![("IPMI_PASSWORD"@, m@.password)]);
    ConsoleLaunch {
        request: ConsoleRequest { program: ipmi::program().to_owned(), args, envs, note },
        preflight: Some(m.clone()),
    }
}

/// The marked rows, from the top down.
fn marked_rows(rows: &Vec<MachineRow>) -> (r: Vec<usize>)
    ensures
        r@ == model::marked_rows(model::row_views(rows@)),
{
    let mut marked: Vec<usize> = Vec::new();
    let ghost all = model::row_views(rows@);
    for i in 0..rows.len()
        invariant
            all == model::row_views(rows@),
            marked@ == model::marked_rows(all.take(i as int)),
    {
        assert(all.take(i + 1).drop_last() == all.take(i as int));
        assert(all.take(i + 1).last() == rows@[i as int]@);
        if rows[i].marked {
            marked.push(i);
        }
    }
    assert(all.take(all.len() as int) == all);
    marked
}

impl MachineList {
    // --- modal / hold ----------------------------------------------------------

    fn open_modal(&mut self, kind: ModalKind)
        requires
            old(self)@.inv(),
        ensures
            final(self)@ == old(self)@.open_modal(kind),
    {
        // Act on the marked rows, or fall back to the highlighted (cursor) row
        // when nothing is marked.
        let mut targets = marked_rows(&self.rows);
        if targets.len() == 0 {
            match self.selected {
                Some(i) => {
                    targets.push(i);
                    assert(targets@ == seq![i]);
                },
                None => {
                    return;
                },
            }
        }
        assert(targets@ == self@.targets());
        let label = if targets.len() == 1 {
            let i: usize = targets[0];
            proof {
                laws::lemma_targets(self@);
            }
            self.rows[i].machine.name.clone()
        } else {
            let n = text::to_decimal(targets.len() as u64);
            text::join2(n.as_str(), " machines")
        };
        self.modal = Some(Modal { kind, targets, label, cursor: 0, persistent: false });
        self.hold = None;
    }

    /// Toggle the boot modal's persistent flag (once ⇄ persistent). Boot only;
    /// no-op while a hold is active.
    fn toggle_persistent(&mut self) -> (r: Vec<Effect>)
        ensures
            (final(self)@, r@) == old(self)@.toggle_persistent(),
    {
        let mut out: Vec<Effect> = Vec::new();
        if self.hold.is_none() {
            if let Some(m) = &mut self.modal {
                if matches!(m.kind, ModalKind::Boot) {
                    m.persistent = !m.persistent;
                    out.push(Effect::Redraw);
                }
            }
        }
        out
    }

    fn close_modal(&mut self)
        ensures
            final(self)@ == old(self)@.close_modal(),
    {
        self.modal = None;
        self.hold = None;
    }

    /// Move the modal cursor (wrapping), down or up. No-op while a hold is
    /// active.
    fn move_modal_cursor(&mut self, down: bool) -> (r: Vec<Effect>)
        requires
            old(self)@.inv(),
        ensures
            (final(self)@, r@) == old(self)@.move_modal_cursor(
                if down {
                    1
                } else {
                    -1
                },
            ),
    {
        let mut out: Vec<Effect> = Vec::new();
        if self.hold.is_none() {
            if let Some(m) = &mut self.modal {
                let n: usize = m.kind.actions().len();
                proof {
                    model::lemma_wrap(m.cursor as int, n as int);
                }
                m.cursor = if down {
                    if m.cursor + 1 == n {
                        0
                    } else {
                        m.cursor + 1
                    }
                } else if m.cursor == 0 {
                    n - 1
                } else {
                    m.cursor - 1
                };
                out.push(Effect::Redraw);
            }
        }
        out
    }

    /// Set the modal cursor to a specific row (used when a hotkey selects it).
    fn set_modal_cursor(&mut self, idx: usize)
        ensures
            final(self)@ == old(self)@.set_modal_cursor(idx),
    {
        if let Some(m) = &mut self.modal {
            let n: usize = m.kind.actions().len();
            m.cursor = if idx < n {
                idx
            } else {
                n - 1
            };
        }
    }

    /// Begin a press-and-hold on `action`, animating the fill bar. Stale ticks
    /// (after cancel/fire) are told apart by their number.
    fn start_hold(&mut self, action: Action, key: Key, now: u128) -> (r: Vec<Effect>)
        ensures
            (final(self)@, r@) == old(self)@.start_hold(action, key, now),
    {
        let seq: u64 = self.seq;
        self.seq = next_number(seq);
        self.hold = Some(Hold { action, key, seq, started: now, last_beat: now });
        let mut out: Vec<Effect> = Vec::new();
        out.push(Effect::Redraw);
        out.push(Effect::HoldTicks { seq });
        out
    }

    /// Cancel the active hold but keep the modal open (back to the action list).
    fn cancel_hold(&mut self) -> (r: Vec<Effect>)
        ensures
            (final(self)@, r@) == old(self)@.cancel_hold(),
    {
        self.hold = None;
        let mut out: Vec<Effect> = Vec::new();
        out.push(Effect::Redraw);
        out
    }

    /// Record an auto-repeat heartbeat for the active hold (key still held).
    fn beat(&mut self, now: u128)
        ensures
            final(self)@ == old(self)@.beat(now),
    {
        if let Some(h) = self.hold {
            self.hold = Some(Hold { last_beat: now, ..h });
        }
    }

    /// Whether `code` is the lingering auto-repeat of a key that just confirmed
    /// a hold (within [`HEARTBEAT_TIMEOUT`]).
    pub fn is_suppressed(&self, code: Key, now: u128) -> (r: bool)
        ensures
            r == self@.suppressed(code, now),
    {
        match self.last_fire {
            Some((key, t)) => time_since(t, now) < HEARTBEAT_TIMEOUT && key == code,
            None => false,
        }
    }

    /// Whether `code` is suppressed. Expired entries are cleared.
    fn suppress_after_fire(&mut self, code: Key, now: u128) -> (r: bool)
        ensures
            r == old(self)@.suppressed(code, now),
            final(self)@ == old(self)@.forget_fire(now),
    {
        let suppressed = self.is_suppressed(code, now);
        if let Some((_, t)) = self.last_fire {
            if time_since(t, now) >= HEARTBEAT_TIMEOUT {
                self.last_fire = None;
            }
        }
        suppressed
    }
}

/// The number that comes one after the `n`th after `seq`.
proof fn lemma_next_number(seq: u64, n: nat)
    ensures
        model::number_after(model::number_after(seq, n), 1) == model::number_after(seq, n + 1),
        model::number_after(seq, 0) == seq,
{
    let m = 0x1_0000_0000_0000_0000int;
    let a = (seq + n) % m;
    assert((a + 1) % m == (seq + n + 1) % m) by (nonlinear_arith)
        requires
            a == (seq + n) % m,
            m == 0x1_0000_0000_0000_0000int,
    ;
}

impl MachineList {
    /// Which of the targets an action reaches, each with a number of its own.
    fn operations(&mut self, targets: &Vec<usize>) -> (r: Vec<(usize, u64)>)
        ensures
            r@ == model::operations(old(self)@.rows, targets@, old(self)@.seq),
            final(self)@ == (ListView {
                seq: model::number_after(old(self)@.seq, r@.len()),
                ..old(self)@
            }),
            forall|k: int| 0 <= k < r@.len() ==> (#[trigger] r@[k]).0 < old(self)@.rows.len(),
    {
        let ghost before = self@;
        let mut ops: Vec<(usize, u64)> = Vec::new();
        proof {
            lemma_next_number(self.seq, 0);
        }
        for k in 0..targets.len()
            invariant
                ops@ == model::operations(before.rows, targets@.take(k as int), before.seq),
                self@ == (ListView {
                    seq: model::number_after(before.seq, ops@.len()),
                    ..before
                }),
                forall|j: int| 0 <= j < ops@.len() ==> (#[trigger] ops@[j]).0 < before.rows.len(),
        {
            let idx: usize = targets[k];
            assert(targets@.take(k + 1).drop_last() == targets@.take(k as int));
            assert(targets@.take(k + 1).last() == idx);
            if idx < self.rows.len() {
                assert(before.rows[idx as int] == self.rows@[idx as int]@);
                if !self.rows[idx].mac_mismatch() {
                    proof {
                        lemma_next_number(before.seq, ops@.len());
                    }
                    ops.push((idx, self.seq));
                    self.seq = next_number(self.seq);
                }
            }
        }
        assert(targets@.take(targets@.len() as int) == targets@);
        ops
    }

    /// Commit the modal's action against each (non-mismatched) target.
    fn commit_action(&mut self, action: Action) -> (r: Vec<Effect>)
        ensures
            final(self)@ == old(self)@.commit_action(action).0,
            r@ == old(self)@.commit_action(action).1,
    {
        let mut out: Vec<Effect> = Vec::new();
        let ghost before = self@;
        let modal = match self.modal.take() {
            Some(m) => m,
            None => {
                return out;
            },
        };
        self.hold = None;
        let persistent = modal.persistent;
        let ops = self.operations(&modal.targets);
        assert(ops@ == model::operations(before.rows, modal.targets@, before.seq));

        out.push(Effect::Redraw);
        let ghost numbered = self@;
        assert(numbered == (ListView {
            modal: None,
            hold: None,
            seq: model::number_after(before.seq, ops@.len()),
            ..before
        }));
        for k in 0..ops.len()
            invariant
                numbered.rows == before.rows,
                forall|j: int| 0 <= j < ops@.len() ==> (#[trigger] ops@[j]).0 < before.rows.len(),
                self@ == (ListView {
                    rows: model::all_busy(before.rows, ops@.take(k as int)),
                    ..numbered
                }),
                self@.rows.len() == before.rows.len(),
                out@ == seq![Effect::Redraw] + model::runs(
                    ops@.take(k as int),
                    action,
                    persistent,
                ),
        {
            let (idx, seq) = ops[k];
            let ghost rows = self.rows@;
            assert(ops@.take(k + 1).drop_last() == ops@.take(k as int));
            assert(ops@.take(k + 1).last() == ops@[k as int]);
            self.rows[idx].set_busy(seq);
            proof {
                lemma_row_update(rows, idx as int, self.rows@[idx as int]);
                assert(self.rows@ == rows.update(idx as int, self.rows@[idx as int]));
                assert(model::row_views(rows)[idx as int] == rows[idx as int]@);
                laws::lemma_all_busy(before.rows, ops@.take(k + 1));
                assert(model::runs(ops@.take(k + 1), action, persistent) == model::runs(
                    ops@.take(k as int),
                    action,
                    persistent,
                ).push(Effect::RunAction { idx, seq, action, persistent }));
            }
            out.push(Effect::RunAction { idx, seq, action, persistent });
        }
        assert(ops@.take(ops@.len() as int) == ops@);
        out
    }

    /// Confirm an action from the modal: a press-and-hold (with the fill
    /// animation) on enhanced terminals, or an immediate commit on legacy ones
    /// (no key-release events, so hold/animation is skipped). `key` is the key
    /// sustaining the hold: the action's hotkey, or Enter for the cursor row.
    fn begin_action(&mut self, action: Action, key: Key, now: u128) -> (r: Vec<Effect>)
        ensures
            (final(self)@, r@) == old(self)@.begin_action(action, key, now),
    {
        if self.enhanced {
            self.start_hold(action, key, now)
        } else {
            self.commit_action(action)
        }
    }

    fn advance_hold(&mut self, seq: u64, now: u128) -> (r: Vec<Effect>)
        ensures
            (final(self)@, r@) == old(self)@.advance_hold(seq, now),
    {
        let mut out: Vec<Effect> = Vec::new();
        let hold = match self.hold {
            Some(h) => h,
            None => {
                return out;
            },
        };
        if hold.seq != seq {
            return out;
        }
        // No recent auto-repeat: the key was released (or never sustained).
        // Cancel rather than auto-firing; this is what makes a tap safe even
        // on terminals that never deliver key-release events.
        if time_since(hold.last_beat, now) > HEARTBEAT_TIMEOUT {
            return self.cancel_hold();
        }
        if time_since(hold.started, now) >= HOLD_DURATION {
            // Hold complete: commit the action (this also closes the modal).
            // Remember the key so its lingering auto-repeat doesn't leak to the
            // list (Enter to detail, p to power, …) before the user lets go.
            self.last_fire = Some((hold.key, now));
            self.commit_action(hold.action)
        } else {
            out.push(Effect::Redraw);
            out
        }
    }

    // --- polling ---------------------------------------------------------------

    fn apply_power(&mut self, idx: usize, poll: PowerPoll)
        ensures
            final(self)@ == old(self)@.apply_power(idx, poll@),
    {
        if idx < self.rows.len() {
            let ghost before = self.rows@;
            self.rows[idx].take_poll(poll);
            self.rows[idx].clear_modify_if_ready();
            proof {
                lemma_row_update(before, idx as int, self.rows@[idx as int]);
                assert(self.rows@ == before.update(idx as int, self.rows@[idx as int]));
            }
        }
    }

    fn expire_modify(&mut self, idx: usize, seq: u64)
        ensures
            final(self)@ == old(self)@.expire(idx, seq),
    {
        if idx < self.rows.len() {
            let ghost before = self.rows@;
            self.rows[idx].mark_lingered(seq);
            self.rows[idx].clear_modify_if_ready();
            proof {
                lemma_row_update(before, idx as int, self.rows@[idx as int]);
                assert(self.rows@ == before.update(idx as int, self.rows@[idx as int]));
            }
        }
    }

    fn apply_health(&mut self, idx: usize, health: Option<Health>)
        ensures
            final(self)@ == old(self)@.apply_health(idx, health),
    {
        if let Some(h) = health {
            if idx < self.rows.len() {
                let ghost before = self.rows@;
                self.rows[idx].health = h;
                proof {
                    lemma_row_update(before, idx as int, self.rows@[idx as int]);
                    assert(self.rows@ == before.update(idx as int, self.rows@[idx as int]));
                }
            }
        }
    }

    fn modify_seq(&self, idx: usize) -> (r: Option<u64>)
        ensures
            r == if idx < self@.rows.len() && self@.rows[idx as int].modify is Some {
                Some(self@.rows[idx as int].modify->0.seq)
            } else {
                None
            },
    {
        if idx < self.rows.len() {
            match self.rows[idx].modify {
                Some(m) => Some(m.seq),
                None => None,
            }
        } else {
            None
        }
    }

    fn action_done(&mut self, idx: usize, seq: u64, action: Action, ok: bool) -> (r: Vec<Effect>)
        ensures
            (final(self)@, r@) == old(self)@.action_done(idx, seq, action, ok),
    {
        let mut out: Vec<Effect> = Vec::new();
        let current = self.modify_seq(idx);
        if let Some(s) = current {
            if s == seq {
                let ghost before = self.rows@;
                self.rows[idx].take_result(seq, action, ok);
                proof {
                    lemma_row_update(before, idx as int, self.rows@[idx as int]);
                    assert(self.rows@ == before.update(idx as int, self.rows@[idx as int]));
                }
                // Refresh so the result reflects real state, and start the
                // linger timer; the status clears only once BOTH have happened.
                let fetch_static = self.rows[idx].needs_static();
                out.push(Effect::PollPower { idx, fetch_static });
                out.push(Effect::Linger { idx, seq });
            }
        }
        out
    }

    /// Poll the power state of every row.
    pub fn poll_all_power(&self) -> (r: Vec<Effect>)
        ensures
            r@ == model::power_polls(self@.rows),
    {
        let mut out: Vec<Effect> = Vec::new();
        for idx in 0..self.rows.len()
            invariant
                out@.len() == idx,
                forall|j: int| 0 <= j < idx ==> out@[j] == model::power_polls(self@.rows)[j],
        {
            let fetch_static = self.rows[idx].needs_static();
            assert(self@.rows[idx as int] == self.rows@[idx as int]@);
            out.push(Effect::PollPower { idx, fetch_static });
        }
        assert(out@ == model::power_polls(self@.rows));
        out
    }

    /// Poll the health of every row.
    pub fn poll_all_health(&self) -> (r: Vec<Effect>)
        ensures
            r@ == model::health_polls(self@.rows),
    {
        let mut out: Vec<Effect> = Vec::new();
        for idx in 0..self.rows.len()
            invariant
                out@.len() == idx,
                forall|j: int| 0 <= j < idx ==> out@[j] == model::health_polls(self@.rows)[j],
        {
            out.push(Effect::PollHealth { idx });
        }
        assert(out@ == model::health_polls(self@.rows));
        out
    }
}

fn no_reaction() -> (r: Reaction)
    ensures
        r@ == model::nothing(),
{
    let effects: Vec<Effect> = Vec::new();
    Reaction { effects, msg: None, console: None }
}

fn only(effects: Vec<Effect>) -> (r: Reaction)
    ensures
        r@ == model::effects(effects@),
{
    Reaction { effects, msg: None, console: None }
}

fn redraw() -> (r: Reaction)
    ensures
        r@ == model::effects(seq![Effect::Redraw]),
{
    let mut effects: Vec<Effect> = Vec::new();
    effects.push(Effect::Redraw);
    Reaction { effects, msg: None, console: None }
}

fn tell(msg: Option<MachineListMsg>) -> (r: Reaction)
    ensures
        r@ == (ReactionView { detail: message(msg), ..model::nothing() }),
{
    let effects: Vec<Effect> = Vec::new();
    Reaction { effects, msg, console: None }
}

/// The position of the action with the hotkey `ch`.
fn find_hotkey(actions: &[Action; 5], ch: char) -> (r: Option<usize>)
    ensures
        match r {
            Some(i) => i == model::hotkey(actions@, ch) && i < 5,
            None => model::hotkey(actions@, ch) == 5,
        },
{
    let mut i: usize = 0;
    let ghost all = actions@;
    assert(all.skip(0) == all);
    while i < 5
        invariant
            i <= 5,
            all == actions@,
            all.len() == 5,
            model::hotkey(all, ch) == i + model::hotkey(all.skip(i as int), ch),
        decreases 5 - i,
    {
        assert(all.skip(i as int)[0] == all[i as int]);
        if action_char(actions[i]) == ch {
            return Some(i);
        }
        assert(all.skip(i as int).drop_first() == all.skip(i + 1));
        i += 1;
    }
    None
}

impl MachineList {
    // --- events ----------------------------------------------------------------

    /// Take in the result of a started task.
    pub fn handle_update(&mut self, update: Update, now: u128) -> (r: Vec<Effect>)
        requires
            old(self)@.inv(),
        ensures
            final(self)@ == old(self)@.update(update@, now).0,
            r@ == old(self)@.update(update@, now).1,
            final(self)@.inv(),
    {
        proof {
            laws::updates_keep_the_invariant(self@, update@, now);
        }
        let mut out: Vec<Effect> = match update {
            Update::Power { idx, poll } => {
                self.apply_power(idx, poll);
                Vec::new()
            },
            Update::Health { idx, health } => {
                self.apply_health(idx, health);
                Vec::new()
            },
            Update::HoldTick { seq } => self.advance_hold(seq, now),
            Update::ActionDone { idx, seq, action, result } => self.action_done(
                idx,
                seq,
                action,
                result.is_ok(),
            ),
            Update::ModifyExpire { idx, seq } => {
                self.expire_modify(idx, seq);
                Vec::new()
            },
        };
        out.push(Effect::Redraw);
        out
    }

    fn hold_key(&mut self, held: Key, key: KeyPress, now: u128) -> (r: Vec<Effect>)
        ensures
            (final(self)@, r@) == old(self)@.hold_key(held, key, now),
    {
        let mut out: Vec<Effect> = Vec::new();
        let release = matches!(key.kind, KeyKind::Release);
        let same = key.code == held;
        if release && same {
            // Clean cancel where the terminal reports key releases.
            return self.cancel_hold();
        }
        if matches!(key.kind, KeyKind::Press) && matches!(key.code, Key::Esc) {
            self.close_modal();
            out.push(Effect::Redraw);
        } else if !release && same && !chord(key) {
            // Auto-repeat heartbeat: the key is still held.
            self.beat(now);
        }
        out
    }

    fn modal_key(
        &mut self,
        modal_kind: ModalKind,
        cursor: usize,
        code: Key,
        kind: KeyKind,
        now: u128,
    ) -> (r: Vec<Effect>)
        requires
            old(self)@.inv(),
            old(self)@.modal is Some,
            old(self)@.modal->0.kind == modal_kind,
            old(self)@.modal->0.cursor == cursor,
        ensures
            (final(self)@, r@) == old(self)@.modal_key(old(self)@.modal->0, code, kind, now),
    {
        let actions = modal_kind.actions();
        let press = matches!(kind, KeyKind::Press);
        if matches!(kind, KeyKind::Release) {
            return Vec::new();
        }
        match code {
            Key::Down => self.move_modal_cursor(true),
            Key::Up => self.move_modal_cursor(false),
            // Enter confirms the cursor row (sustained by Enter).
            Key::Enter => if press {
                self.begin_action(actions[cursor], Key::Enter, now)
            } else {
                Vec::new()
            },
            Key::Esc => if press {
                self.close_modal();
                let mut out: Vec<Effect> = Vec::new();
                out.push(Effect::Redraw);
                out
            } else {
                Vec::new()
            },
            Key::Char(ch) => if ch == 'j' {
                self.move_modal_cursor(true)
            } else if ch == 'k' {
                self.move_modal_cursor(false)
            } else if !press {
                Vec::new()
            } else if ch == 't' {
                // Boot: toggle once ⇄ persistent.
                self.toggle_persistent()
            } else {
                // A hotkey both selects its row and starts its hold.
                match find_hotkey(&actions, ch) {
                    Some(i) => {
                        self.set_modal_cursor(i);
                        self.begin_action(actions[i], code, now)
                    },
                    None => Vec::new(),
                }
            },
            // Modal consumes every other key (no leak to parent).
            _ => Vec::new(),
        }
    }

    fn list_key(&mut self, code: Key, kind: KeyKind) -> (r: Reaction)
        requires
            old(self)@.inv(),
        ensures
            (final(self)@, r@) == old(self)@.list_key(code, kind),
    {
        let press = matches!(kind, KeyKind::Press);
        if matches!(kind, KeyKind::Release) {
            return no_reaction();
        }
        match code {
            Key::Down => {
                self.select_next();
                redraw()
            },
            Key::Up => {
                self.select_prev();
                redraw()
            },
            Key::Enter => if press {
                tell(self.open_detail(DetailTab::Overview))
            } else {
                no_reaction()
            },
            Key::Char(ch) => if ch == 'j' {
                self.select_next();
                redraw()
            } else if ch == 'k' {
                self.select_prev();
                redraw()
            } else if !press {
                no_reaction()
            } else if ch == ' ' {
                self.toggle_mark();
                redraw()
            } else if ch == 'p' {
                self.open_modal(ModalKind::Power);
                redraw()
            } else if ch == 'b' {
                self.open_modal(ModalKind::Boot);
                redraw()
            } else if ch == 'r' {
                let mut polls = self.poll_all_power();
                let mut health = self.poll_all_health();
                polls.append(&mut health);
                only(polls)
            } else if ch == 'u' {
                tell(self.open_detail(DetailTab::Users))
            } else if ch == 'l' {
                tell(self.open_detail(DetailTab::Logs))
            } else if ch == 'c' {
                let effects: Vec<Effect> = Vec::new();
                let console = self.launch_console();
                Reaction { effects, msg: None, console }
            } else {
                no_reaction()
            },
            _ => no_reaction(),
        }
    }

    /// Take in a key. An open modal has no use for characters with Control and
    /// consumes them, so that Ctrl+C is not taken for the hotkey `c`.
    pub fn handle_key(&mut self, key: KeyPress, now: u128) -> (r: Reaction)
        requires
            old(self)@.inv(),
        ensures
            final(self)@ == old(self)@.key(key, now).0,
            r@ == old(self)@.key(key, now).1,
            final(self)@.inv(),
    {
        proof {
            laws::keys_keep_the_invariant(self@, key, now);
        }
        if let Some(h) = self.hold {
            let e = self.hold_key(h.key, key, now);
            return only(e);
        }
        let open = match &self.modal {
            Some(m) => Some((m.kind, m.cursor)),
            None => None,
        };
        if let Some((modal_kind, cursor)) = open {
            if chord(key) {
                return no_reaction();
            }
            let e = self.modal_key(modal_kind, cursor, key.code, key.kind, now);
            return only(e);
        }
        if self.suppress_after_fire(key.code, now) {
            // Lingering auto-repeat of the key that just confirmed a hold:
            // swallow it so it doesn't act on the list.
            no_reaction()
        } else {
            self.list_key(key.code, key.kind)
        }
    }
}

} // verus!
