//! What the machine list is and what each of its operations does, on
//! mathematical values.

use vstd::prelude::*;

use super::{
    Action, ConsoleRefusal, Effect, Hold, MachineRow, Modal, ModalKind, Modify, ModifyKind,
    HEARTBEAT_TIMEOUT, HOLD_DURATION,
};
use crate::app::machine_detail::DetailTab;
use crate::bmc::{BootOverride, Health, PowerPollView, PowerState};
use crate::inventory::MachineView;
use crate::ratata::event::{Key, KeyKind, KeyPress};
use crate::ratata::runtime::ConsoleView;
use crate::text;

verus! {

// --- rows ----------------------------------------------------------------------

/// A [`MachineRow`] with its texts.
pub struct RowView {
    pub machine: MachineView,
    pub serial: Option<Seq<char>>,
    pub observed_mac: Option<Seq<char>>,
    pub reachable: Option<bool>,
    pub power: PowerState,
    pub health: Health,
    pub latency: u128,
    pub fault: bool,
    pub identify: bool,
    pub boot: BootOverride,
    pub marked: bool,
    pub modify: Option<Modify>,
}

impl View for MachineRow {
    type V = RowView;

    open spec fn view(&self) -> RowView {
        RowView {
            machine: self.machine@,
            serial: text::text_of(self.serial),
            observed_mac: text::text_of(self.observed_mac),
            reachable: self.reachable,
            power: self.power,
            health: self.health,
            latency: self.latency,
            fault: self.fault,
            identify: self.identify,
            boot: self.boot,
            marked: self.marked,
            modify: self.modify,
        }
    }
}

/// The rows of a vector, by their views.
pub open spec fn row_views(rows: Seq<MachineRow>) -> Seq<RowView> {
    rows.map_values(|r: MachineRow| r@)
}

pub open spec fn is_hex(c: char) -> bool {
    '0' <= c <= '9' || 'a' <= c <= 'f' || 'A' <= c <= 'F'
}

/// The hexadecimal digits of a MAC address, in small letters: what is left when
/// the way it is written no longer matters.
pub open spec fn mac_digits(s: Seq<char>) -> Seq<char>
    decreases s.len(),
{
    if s.len() == 0 {
        s
    } else if is_hex(s.last()) {
        mac_digits(s.drop_last()).push(text::lower_char(s.last()))
    } else {
        mac_digits(s.drop_last())
    }
}

/// A row as it is before anything has been polled.
pub open spec fn fresh(machine: MachineView) -> RowView {
    RowView {
        machine,
        serial: machine.serial,
        observed_mac: None,
        reachable: None,
        power: PowerState::Unknown,
        health: Health::Unknown,
        latency: 0,
        fault: false,
        identify: false,
        boot: BootOverride::Unset,
        marked: false,
        modify: None,
    }
}

impl RowView {
    /// Whether the BMC reported another MAC address than the inventory has.
    pub open spec fn mac_mismatch(self) -> bool {
        match (self.machine.mac, self.observed_mac) {
            (Some(cfg), Some(obs)) => mac_digits(cfg) != mac_digits(obs),
            _ => false,
        }
    }

    /// Whether the next power poll should ask for the static fields too.
    pub open spec fn needs_static(self) -> bool {
        self.serial is None || (self.machine.mac is Some && self.observed_mac is None)
    }

    /// The row after a completed poll. An unreachable BMC leaves what was last
    /// known. Either way the poll is the refresh that a finished modification
    /// waits for.
    pub open spec fn polled(self, poll: PowerPollView) -> RowView {
        let row = if poll.reachable {
            RowView {
                serial: if poll.serial is Some {
                    poll.serial
                } else {
                    self.serial
                },
                observed_mac: if poll.mac is Some {
                    poll.mac
                } else {
                    self.observed_mac
                },
                reachable: Some(true),
                power: poll.power,
                latency: poll.latency,
                fault: poll.fault,
                identify: poll.identify,
                boot: poll.boot,
                ..self
            }
        } else {
            RowView { reachable: Some(false), ..self }
        };
        match self.modify {
            Some(m) => if m.kind is Busy {
                row
            } else {
                RowView { modify: Some(Modify { refreshed: true, ..m }), ..row }
            },
            None => row,
        }
    }

    /// The row after the linger timer of the modification `seq` ran out.
    pub open spec fn lingered(self, seq: u64) -> RowView {
        match self.modify {
            Some(m) => if m.seq == seq {
                RowView { modify: Some(Modify { lingered: true, ..m }), ..self }
            } else {
                self
            },
            None => self,
        }
    }

    /// The row with its finished modification lifted, once both conditions hold:
    /// the linger timer elapsed and a fresh poll has landed.
    pub open spec fn settled(self) -> RowView {
        match self.modify {
            Some(m) => if m.lingered && m.refreshed {
                RowView { modify: None, ..self }
            } else {
                self
            },
            None => self,
        }
    }

    /// The row with what `action` is expected to have done.
    pub open spec fn optimistic(self, action: Action) -> RowView {
        match action {
            Action::Power(a) => match a.shown_after() {
                Some(p) => RowView { power: p, ..self },
                None => self,
            },
            Action::Boot(a) => RowView { boot: a.shown_after(), ..self },
        }
    }

    /// The row after the action `seq` came back.
    pub open spec fn acted(self, seq: u64, action: Action, ok: bool) -> RowView {
        let row = if ok {
            self.optimistic(action)
        } else {
            self
        };
        RowView {
            modify: Some(
                Modify {
                    kind: if ok {
                        ModifyKind::Done
                    } else {
                        ModifyKind::Failed
                    },
                    seq,
                    lingered: false,
                    refreshed: false,
                },
            ),
            ..row
        }
    }

    /// The row with the action `seq` under way.
    pub open spec fn busy(self, seq: u64) -> RowView {
        RowView {
            modify: Some(
                Modify { kind: ModifyKind::Busy, seq, lingered: false, refreshed: false },
            ),
            ..self
        }
    }
}

// --- the modal -----------------------------------------------------------------

/// A [`Modal`] with its texts.
pub struct ModalView {
    pub kind: ModalKind,
    pub targets: Seq<usize>,
    pub label: Seq<char>,
    pub cursor: usize,
    pub persistent: bool,
}

impl View for Modal {
    type V = ModalView;

    open spec fn view(&self) -> ModalView {
        ModalView {
            kind: self.kind,
            targets: self.targets@,
            label: self.label@,
            cursor: self.cursor,
            persistent: self.persistent,
        }
    }
}

pub open spec fn modal_view(m: Option<Modal>) -> Option<ModalView> {
    match m {
        Some(m) => Some(m@),
        None => None,
    }
}

/// The marked rows, from the top down.
pub open spec fn marked_rows(rows: Seq<RowView>) -> Seq<usize>
    decreases rows.len(),
{
    if rows.len() == 0 {
        seq![]
    } else if rows.last().marked {
        marked_rows(rows.drop_last()).push((rows.len() - 1) as usize)
    } else {
        marked_rows(rows.drop_last())
    }
}

/// The position of the action with the hotkey `ch` among `actions`, or their
/// number.
pub open spec fn hotkey(actions: Seq<Action>, ch: char) -> int
    decreases actions.len(),
{
    if actions.len() == 0 {
        0
    } else if actions[0].hotkey() == ch {
        0
    } else {
        1 + hotkey(actions.drop_first(), ch)
    }
}

// --- committing an action ------------------------------------------------------

/// The number that comes `n` after `seq`, from the end back to zero.
pub open spec fn number_after(seq: u64, n: nat) -> u64 {
    ((seq + n) % 0x1_0000_0000_0000_0000) as u64
}

/// The rows that an action on `targets` reaches, each with the number of its
/// modification: those whose MAC address is not at odds with the inventory.
pub open spec fn operations(rows: Seq<RowView>, targets: Seq<usize>, seq: u64) -> Seq<(usize, u64)>
    decreases targets.len(),
{
    if targets.len() == 0 {
        seq![]
    } else {
        let front = operations(rows, targets.drop_last(), seq);
        let i = targets.last();
        if i < rows.len() && !rows[i as int].mac_mismatch() {
            front.push((i, number_after(seq, front.len())))
        } else {
            front
        }
    }
}

/// The rows with the operations under way.
pub open spec fn all_busy(rows: Seq<RowView>, ops: Seq<(usize, u64)>) -> Seq<RowView>
    decreases ops.len(),
{
    if ops.len() == 0 {
        rows
    } else {
        let front = all_busy(rows, ops.drop_last());
        let (i, seq) = ops.last();
        front.update(i as int, front[i as int].busy(seq))
    }
}

/// One run of `action` for each operation.
pub open spec fn runs(ops: Seq<(usize, u64)>, action: Action, persistent: bool) -> Seq<Effect> {
    ops.map_values(
        |op: (usize, u64)| Effect::RunAction { idx: op.0, seq: op.1, action, persistent },
    )
}

/// One power poll for each row.
pub open spec fn power_polls(rows: Seq<RowView>) -> Seq<Effect> {
    Seq::new(
        rows.len(),
        |i: int| Effect::PollPower { idx: i as usize, fetch_static: rows[i].needs_static() },
    )
}

/// One health poll for each row.
pub open spec fn health_polls(rows: Seq<RowView>) -> Seq<Effect> {
    Seq::new(rows.len(), |i: int| Effect::PollHealth { idx: i as usize })
}

/// Stepping round a circle of `n`.
pub proof fn lemma_wrap(x: int, n: int)
    requires
        0 <= x < n,
    ensures
        x % n == x,
        n % n == 0,
        (-1int) % n == n - 1,
        x + 1 < n ==> (x + 1) % n == x + 1,
        x > 0 ==> (x - 1) % n == x - 1,
{
    vstd::arithmetic::div_mod::lemma_small_mod(x as nat, n as nat);
    vstd::arithmetic::div_mod::lemma_mod_self_0(n);
    assert((-1int) % n == n - 1) by (nonlinear_arith)
        requires
            n > 0,
    ;
    if x + 1 < n {
        vstd::arithmetic::div_mod::lemma_small_mod((x + 1) as nat, n as nat);
    }
    if x > 0 {
        vstd::arithmetic::div_mod::lemma_small_mod((x - 1) as nat, n as nat);
    }
}

// --- the list ------------------------------------------------------------------

/// The state of the machine list.
pub struct ListView {
    pub rows: Seq<RowView>,
    pub modal: Option<ModalView>,
    pub hold: Option<Hold>,
    pub selected: Option<usize>,
    pub seq: u64,
    pub power_interval_secs: u64,
    pub health_interval_secs: u64,
    pub demo: bool,
    pub enhanced: bool,
    pub console_pending: bool,
    pub last_fire: Option<(Key, u128)>,
}

/// What a step asks the outside world to do.
pub struct ReactionView {
    pub effects: Seq<Effect>,
    /// The machine and tab to open the detail view for.
    pub detail: Option<(MachineView, DetailTab)>,
    pub console: Option<LaunchView>,
}

/// A console to be started.
pub struct LaunchView {
    pub request: ConsoleView,
    /// The machine whose stale session to end first.
    pub preflight: Option<MachineView>,
}

/// Whether a key event is a chord: a character together with Control. It shares
/// its letter with a hotkey but is another key.
pub open spec fn is_chord(key: KeyPress) -> bool {
    key.control && key.code is Char
}

pub open spec fn nothing() -> ReactionView {
    ReactionView { effects: seq![], detail: None, console: None }
}

pub open spec fn effects(e: Seq<Effect>) -> ReactionView {
    ReactionView { effects: e, detail: None, console: None }
}

/// What arrives from the tasks that were started.
pub enum UpdateView {
    Power { idx: usize, poll: PowerPollView },
    Health { idx: usize, health: Option<Health> },
    /// `error` is what the action failed with; it is not shown.
    ActionDone { idx: usize, seq: u64, action: Action, error: Option<Seq<char>> },
    ModifyExpire { idx: usize, seq: u64 },
    HoldTick { seq: u64 },
}

pub open spec fn at_least_one(secs: u64) -> u64 {
    if secs < 1 {
        1
    } else {
        secs
    }
}

/// The time from `t` to `now`; none if the clock stands before `t`.
pub open spec fn since(t: u128, now: u128) -> int {
    if now >= t {
        now - t
    } else {
        0
    }
}

/// The console for a machine in demo mode: a placeholder shell.
pub open spec fn demo_console(m: MachineView) -> LaunchView {
    LaunchView {
        request: ConsoleView {
            program: "sh"@,
            args: seq![
                "-c"@,
                "clear; printf '\\n  fishtank demo console for %s\\n  (no real BMC in --demo)\\n\\n' '"@
                    + m.name + "'; printf '  Press Enter to return to fishtank…'; read _"@,
            ],
            envs: seq![],
            note: "Console for "@ + m.name + " (demo — no real BMC)"@,
        },
        preflight: None,
    }
}

/// The serial console of a machine. A stale session is ended first, as there can
/// be one session per BMC. The password goes into the environment.
pub open spec fn sol_console(m: MachineView) -> LaunchView {
    LaunchView {
        request: ConsoleView {
            program: "ipmitool"@,
            args: crate::bmc::ipmi::arguments(m.host, m.username, seq!["sol"@, "activate"@]),
            envs: seq![("IPMI_PASSWORD"@, m.password)],
            note: "Connecting to "@ + m.name + " serial console — type '~.' to exit."@,
        },
        preflight: Some(m),
    }
}

impl ListView {
    /// The list as it starts out.
    pub open spec fn initial(
        machines: Seq<MachineView>,
        poll_interval_secs: u64,
        health_interval_secs: u64,
        demo: bool,
        enhanced: bool,
    ) -> ListView {
        ListView {
            rows: machines.map_values(|m: MachineView| fresh(m)),
            modal: None,
            hold: None,
            selected: if machines.len() == 0 {
                None
            } else {
                Some(0)
            },
            seq: 0,
            power_interval_secs: at_least_one(poll_interval_secs),
            health_interval_secs: at_least_one(health_interval_secs),
            demo,
            enhanced,
            console_pending: false,
            last_fire: None,
        }
    }

    /// What holds of every list: the cursor is on a row if there is one; an open
    /// modal targets rows, each once, and its cursor is on an entry; a hold
    /// belongs to an open modal.
    pub open spec fn inv(self) -> bool {
        &&& self.rows.len() <= usize::MAX
        &&& self.selected is None <==> self.rows.len() == 0
        &&& self.selected is Some ==> self.selected->0 < self.rows.len()
        &&& self.modal is Some ==> self.modal_inv(self.modal->0)
        &&& self.hold is Some ==> self.modal is Some && self.modal->0.kind.set().contains(
            self.hold->0.action,
        )
    }

    pub open spec fn modal_inv(self, m: ModalView) -> bool {
        &&& m.targets.len() > 0
        &&& forall|i: int| 0 <= i < m.targets.len() ==> #[trigger] m.targets[i] < self.rows.len()
        &&& forall|i: int, j: int|
            0 <= i < j < m.targets.len() ==> #[trigger] m.targets[i] < #[trigger] m.targets[j]
        &&& m.cursor < m.kind.set().len()
        &&& m.kind is Power ==> !m.persistent
    }

    // The cursor.

    pub open spec fn select_next(self) -> ListView {
        if self.rows.len() == 0 {
            self
        } else {
            ListView {
                selected: Some(
                    match self.selected {
                        Some(i) => ((i + 1) % self.rows.len() as int) as usize,
                        None => 0,
                    },
                ),
                ..self
            }
        }
    }

    pub open spec fn select_prev(self) -> ListView {
        if self.rows.len() == 0 {
            self
        } else {
            ListView {
                selected: Some(
                    match self.selected {
                        Some(i) => ((i - 1) % self.rows.len() as int) as usize,
                        None => 0,
                    },
                ),
                ..self
            }
        }
    }

    pub open spec fn with_row(self, idx: usize, row: RowView) -> ListView {
        ListView { rows: self.rows.update(idx as int, row), ..self }
    }

    pub open spec fn toggle_mark(self) -> ListView {
        match self.selected {
            Some(i) => if i < self.rows.len() {
                let row = self.rows[i as int];
                self.with_row(i, RowView { marked: !row.marked, ..row })
            } else {
                self
            },
            None => self,
        }
    }

    /// The machine under the cursor, for the detail view.
    pub open spec fn open_detail(self, tab: DetailTab) -> Option<(MachineView, DetailTab)> {
        match self.selected {
            Some(i) => if i < self.rows.len() {
                Some((self.rows[i as int].machine, tab))
            } else {
                None
            },
            None => None,
        }
    }

    /// Why the cursor row gets no serial console, if so.
    pub open spec fn console_refusal(self) -> Option<ConsoleRefusal> {
        match self.selected {
            Some(i) => if i >= self.rows.len() || self.demo {
                None
            } else if !(self.rows[i as int].machine.protocol is Ipmi) {
                Some(ConsoleRefusal::NoSol)
            } else if self.rows[i as int].mac_mismatch() {
                Some(ConsoleRefusal::MacMismatch)
            } else {
                None
            },
            None => None,
        }
    }

    /// The console for the machine under the cursor. There is none for a machine
    /// without IPMI or with another MAC address than the inventory's (in demo
    /// mode neither matters), nor while another one is pending.
    pub open spec fn console(self) -> Option<LaunchView> {
        match self.selected {
            Some(i) => if i < self.rows.len() {
                let row = self.rows[i as int];
                if self.console_pending {
                    None
                } else if self.demo {
                    Some(demo_console(row.machine))
                } else if row.machine.protocol is Ipmi && !row.mac_mismatch() {
                    Some(sol_console(row.machine))
                } else {
                    None
                }
            } else {
                None
            },
            None => None,
        }
    }

    // The modal.

    /// The rows that a modal opened now would act on: the marked ones, or the
    /// one under the cursor when none is marked.
    pub open spec fn targets(self) -> Seq<usize> {
        let marked = marked_rows(self.rows);
        if marked.len() > 0 {
            marked
        } else {
            match self.selected {
                Some(i) => seq![i],
                None => seq![],
            }
        }
    }

    pub open spec fn target_label(self) -> Seq<char> {
        let t = self.targets();
        if t.len() == 1 {
            self.rows[t[0] as int].machine.name
        } else {
            text::decimal(t.len()) + " machines"@
        }
    }

    pub open spec fn open_modal(self, kind: ModalKind) -> ListView {
        if self.targets().len() == 0 {
            self
        } else {
            ListView {
                modal: Some(
                    ModalView {
                        kind,
                        targets: self.targets(),
                        label: self.target_label(),
                        cursor: 0,
                        persistent: false,
                    },
                ),
                hold: None,
                ..self
            }
        }
    }

    pub open spec fn close_modal(self) -> ListView {
        ListView { modal: None, hold: None, ..self }
    }

    pub open spec fn toggle_persistent(self) -> (ListView, Seq<Effect>) {
        match self.modal {
            Some(m) => if self.hold is None && m.kind is Boot {
                (
                    ListView {
                        modal: Some(ModalView { persistent: !m.persistent, ..m }),
                        ..self
                    },
                    seq![Effect::Redraw],
                )
            } else {
                (self, seq![])
            },
            None => (self, seq![]),
        }
    }

    pub open spec fn move_modal_cursor(self, delta: int) -> (ListView, Seq<Effect>) {
        match self.modal {
            Some(m) => if self.hold is None {
                (
                    ListView {
                        modal: Some(
                            ModalView {
                                cursor: ((m.cursor + delta) % m.kind.set().len() as int) as usize,
                                ..m
                            },
                        ),
                        ..self
                    },
                    seq![Effect::Redraw],
                )
            } else {
                (self, seq![])
            },
            None => (self, seq![]),
        }
    }

    pub open spec fn set_modal_cursor(self, idx: usize) -> ListView {
        match self.modal {
            Some(m) => ListView {
                modal: Some(
                    ModalView {
                        cursor: if idx < m.kind.set().len() {
                            idx
                        } else {
                            (m.kind.set().len() - 1) as usize
                        },
                        ..m
                    },
                ),
                ..self
            },
            None => self,
        }
    }

    // Holding a key.

    pub open spec fn start_hold(self, action: Action, key: Key, now: u128) -> (
        ListView,
        Seq<Effect>,
    ) {
        (
            ListView {
                hold: Some(Hold { action, key, seq: self.seq, started: now, last_beat: now }),
                seq: number_after(self.seq, 1),
                ..self
            },
            seq![Effect::Redraw, Effect::HoldTicks { seq: self.seq }],
        )
    }

    pub open spec fn cancel_hold(self) -> (ListView, Seq<Effect>) {
        (ListView { hold: None, ..self }, seq![Effect::Redraw])
    }

    pub open spec fn beat(self, now: u128) -> ListView {
        match self.hold {
            Some(h) => ListView { hold: Some(Hold { last_beat: now, ..h }), ..self },
            None => self,
        }
    }

    /// Whether `code` is the lingering auto-repeat of the key that just confirmed
    /// a hold.
    pub open spec fn suppressed(self, code: Key, now: u128) -> bool {
        match self.last_fire {
            Some((key, t)) => since(t, now) < HEARTBEAT_TIMEOUT && key == code,
            None => false,
        }
    }

    /// The list without the memory of a confirmed hold that is too old to matter.
    pub open spec fn forget_fire(self, now: u128) -> ListView {
        match self.last_fire {
            Some((_, t)) => if since(t, now) < HEARTBEAT_TIMEOUT {
                self
            } else {
                ListView { last_fire: None, ..self }
            },
            None => self,
        }
    }

    /// Whether the hold has been kept up long enough to confirm the action: it
    /// began at least [`HOLD_DURATION`] ago, and the key was seen within
    /// [`HEARTBEAT_TIMEOUT`].
    pub open spec fn fires(self, seq: u64, now: u128) -> bool {
        match self.hold {
            Some(h) => h.seq == seq && since(h.last_beat, now) <= HEARTBEAT_TIMEOUT && since(
                h.started,
                now,
            ) >= HOLD_DURATION,
            None => false,
        }
    }

    pub open spec fn advance_hold(self, seq: u64, now: u128) -> (ListView, Seq<Effect>) {
        match self.hold {
            Some(h) => if h.seq != seq {
                (self, seq![])
            } else if since(h.last_beat, now) > HEARTBEAT_TIMEOUT {
                self.cancel_hold()
            } else if since(h.started, now) >= HOLD_DURATION {
                ListView { last_fire: Some((h.key, now)), ..self }.commit_action(h.action)
            } else {
                (self, seq![Effect::Redraw])
            },
            None => (self, seq![]),
        }
    }

    pub open spec fn commit_action(self, action: Action) -> (ListView, Seq<Effect>) {
        match self.modal {
            Some(m) => {
                let ops = operations(self.rows, m.targets, self.seq);
                (
                    ListView {
                        rows: all_busy(self.rows, ops),
                        modal: None,
                        hold: None,
                        seq: number_after(self.seq, ops.len()),
                        ..self
                    },
                    seq![Effect::Redraw] + runs(ops, action, m.persistent),
                )
            },
            None => (self, seq![]),
        }
    }

    pub open spec fn begin_action(self, action: Action, key: Key, now: u128) -> (
        ListView,
        Seq<Effect>,
    ) {
        if self.enhanced {
            self.start_hold(action, key, now)
        } else {
            self.commit_action(action)
        }
    }

    // What comes back.

    pub open spec fn apply_power(self, idx: usize, poll: PowerPollView) -> ListView {
        if idx < self.rows.len() {
            self.with_row(idx, self.rows[idx as int].polled(poll).settled())
        } else {
            self
        }
    }

    pub open spec fn apply_health(self, idx: usize, health: Option<Health>) -> ListView {
        match health {
            Some(h) => if idx < self.rows.len() {
                self.with_row(idx, RowView { health: h, ..self.rows[idx as int] })
            } else {
                self
            },
            None => self,
        }
    }

    pub open spec fn action_done(self, idx: usize, seq: u64, action: Action, ok: bool) -> (
        ListView,
        Seq<Effect>,
    ) {
        if idx < self.rows.len() && self.rows[idx as int].modify is Some
            && self.rows[idx as int].modify->0.seq == seq {
            let row = self.rows[idx as int].acted(seq, action, ok);
            (
                self.with_row(idx, row),
                seq![
                    Effect::PollPower { idx, fetch_static: row.needs_static() },
                    Effect::Linger { idx, seq },
                ],
            )
        } else {
            (self, seq![])
        }
    }

    pub open spec fn expire(self, idx: usize, seq: u64) -> ListView {
        if idx < self.rows.len() {
            self.with_row(idx, self.rows[idx as int].lingered(seq).settled())
        } else {
            self
        }
    }

    pub open spec fn update(self, u: UpdateView, now: u128) -> (ListView, Seq<Effect>) {
        let (next, e) = match u {
            UpdateView::Power { idx, poll } => (self.apply_power(idx, poll), seq![]),
            UpdateView::Health { idx, health } => (self.apply_health(idx, health), seq![]),
            UpdateView::HoldTick { seq } => self.advance_hold(seq, now),
            UpdateView::ActionDone { idx, seq, action, error } => self.action_done(
                idx,
                seq,
                action,
                error is None,
            ),
            UpdateView::ModifyExpire { idx, seq } => (self.expire(idx, seq), seq![]),
        };
        (next, e.push(Effect::Redraw))
    }

    // Keys.

    /// A key while one is held. Letting go of the held key cancels, with Control or
    /// without; a chord does not keep it up.
    pub open spec fn hold_key(self, held: Key, key: KeyPress, now: u128) -> (
        ListView,
        Seq<Effect>,
    ) {
        if key.kind is Release && key.code == held {
            self.cancel_hold()
        } else if key.kind is Press && key.code is Esc {
            (self.close_modal(), seq![Effect::Redraw])
        } else if !(key.kind is Release) && key.code == held && !is_chord(key) {
            (self.beat(now), seq![])
        } else {
            (self, seq![])
        }
    }

    /// A key that is no chord while the modal is open and none is held.
    pub open spec fn modal_key(self, m: ModalView, code: Key, kind: KeyKind, now: u128) -> (
        ListView,
        Seq<Effect>,
    ) {
        let press = kind is Press;
        if kind is Release {
            (self, seq![])
        } else {
            match code {
                Key::Down => self.move_modal_cursor(1),
                Key::Up => self.move_modal_cursor(-1),
                Key::Enter if press => self.begin_action(
                    m.kind.set()[m.cursor as int],
                    Key::Enter,
                    now,
                ),
                Key::Esc if press => (self.close_modal(), seq![Effect::Redraw]),
                Key::Char(ch) => if ch == 'j' {
                    self.move_modal_cursor(1)
                } else if ch == 'k' {
                    self.move_modal_cursor(-1)
                } else if ch == 't' && press {
                    self.toggle_persistent()
                } else if press && hotkey(m.kind.set(), ch) < m.kind.set().len() {
                    let i = hotkey(m.kind.set(), ch);
                    self.set_modal_cursor(i as usize).begin_action(m.kind.set()[i], code, now)
                } else {
                    (self, seq![])
                },
                _ => (self, seq![]),
            }
        }
    }

    /// A key that goes to the list itself.
    pub open spec fn list_key(self, code: Key, kind: KeyKind) -> (ListView, ReactionView) {
        let press = kind is Press;
        let redraw = effects(seq![Effect::Redraw]);
        if kind is Release {
            (self, nothing())
        } else {
            match code {
                Key::Down => (self.select_next(), redraw),
                Key::Up => (self.select_prev(), redraw),
                Key::Enter if press => (
                    self,
                    ReactionView { detail: self.open_detail(DetailTab::Overview), ..nothing() },
                ),
                Key::Char(ch) => if ch == 'j' {
                    (self.select_next(), redraw)
                } else if ch == 'k' {
                    (self.select_prev(), redraw)
                } else if !press {
                    (self, nothing())
                } else if ch == ' ' {
                    (self.toggle_mark(), redraw)
                } else if ch == 'p' {
                    (self.open_modal(ModalKind::Power), redraw)
                } else if ch == 'b' {
                    (self.open_modal(ModalKind::Boot), redraw)
                } else if ch == 'r' {
                    (self, effects(power_polls(self.rows) + health_polls(self.rows)))
                } else if ch == 'u' {
                    (
                        self,
                        ReactionView { detail: self.open_detail(DetailTab::Users), ..nothing() },
                    )
                } else if ch == 'l' {
                    (
                        self,
                        ReactionView { detail: self.open_detail(DetailTab::Logs), ..nothing() },
                    )
                } else if ch == 'c' {
                    (
                        ListView {
                            console_pending: self.console_pending || self.console() is Some,
                            ..self
                        },
                        ReactionView { console: self.console(), ..nothing() },
                    )
                } else {
                    (self, nothing())
                },
                _ => (self, nothing()),
            }
        }
    }

    pub open spec fn key(self, key: KeyPress, now: u128) -> (ListView, ReactionView) {
        match (self.hold, self.modal) {
            (Some(h), _) => {
                let (next, e) = self.hold_key(h.key, key, now);
                (next, effects(e))
            },
            (None, Some(m)) => if is_chord(key) {
                (self, nothing())
            } else {
                let (next, e) = self.modal_key(m, key.code, key.kind, now);
                (next, effects(e))
            },
            (None, None) => if self.suppressed(key.code, now) {
                (self, nothing())
            } else {
                self.forget_fire(now).list_key(key.code, key.kind)
            },
        }
    }
}

} // verus!
