//! BMC backends and the shared poll types.
//!
//! Polling is split into two cadences: the frequent, cheap liveness/boot-state
//! probe ([`poll_power`]) and the slower sensor read ([`poll_health`]). Which
//! backend runs is decided by the machine's protocol, or forced to the mock
//! backend in demo mode ([`backend`]).
//!
//! Times are counted in nanoseconds.

pub mod ipmi;
pub mod ipmi_laws;
pub mod laws;
pub mod log;
pub mod mock;
pub mod redfish;
pub mod redfish_laws;
pub mod stamp;

use vstd::prelude::*;

use crate::inventory::{Machine, Protocol};
use crate::text::{self, join3, to_decimal};

verus! {

/// Overall per-poll budget in seconds. Exceeding it is treated as a failure
/// (unreachable for a power poll; no health update for a health poll).
pub const POLL_TIMEOUT_SECS: u64 = 60;

/// Power state of the host behind a BMC.
#[derive(Debug, Clone, Copy, PartialEq, Eq, Structural)]
pub enum PowerState {
    On,
    Off,
    Unknown,
}

/// Aggregated health summary.
#[derive(Debug, Clone, Copy, PartialEq, Eq, Structural)]
pub enum Health {
    Nominal,
    Warning,
    Critical,
    Unknown,
}

impl Health {
    pub open spec fn level(self) -> int {
        match self {
            Health::Nominal => 0,
            Health::Unknown => 1,
            Health::Warning => 2,
            Health::Critical => 3,
        }
    }

    pub open spec fn worse(self, other: Health) -> Health {
        if other.level() > self.level() {
            other
        } else {
            self
        }
    }

    /// Severity ordering for "take the worst sensor" aggregation.
    pub fn rank(self) -> (r: u8)
        ensures
            r == self.level(),
    {
        match self {
            Health::Nominal => 0,
            Health::Unknown => 1,
            Health::Warning => 2,
            Health::Critical => 3,
        }
    }

    /// The more severe of the two.
    pub fn worst(self, other: Health) -> (r: Health)
        ensures
            r == self.worse(other),
    {
        if other.rank() > self.rank() {
            other
        } else {
            self
        }
    }
}

/// Taking the worst of several states does not depend on how often or in what
/// order they are looked at, and never goes below any of them.
pub proof fn worst_is_a_maximum(a: Health, b: Health, c: Health)
    ensures
        a.worse(b) == a || a.worse(b) == b,
        a.worse(b).level() >= a.level(),
        a.worse(b).level() >= b.level(),
        a.worse(a) == a,
        a.worse(b) == b.worse(a),
        a.worse(b).worse(c) == a.worse(b.worse(c)),
        Health::Nominal.worse(a) == a,
        Health::Critical.worse(a) == Health::Critical,
{
}

/// A power control action the operator can request on a machine. There are
/// several ways to "turn off" / restart: a hard cut vs. a graceful ACPI request.
#[derive(Debug, Clone, Copy, PartialEq, Eq, Structural)]
pub enum PowerAction {
    /// Power on.
    On,
    /// Hard power off (pull the power, no OS involvement).
    ForceOff,
    /// Graceful ACPI shutdown request (asks the OS to power down).
    SoftOff,
    /// Power cycle (off, then on).
    Cycle,
    /// Hard reset (warm reset without a full power cut).
    Reset,
}

impl PowerAction {
    pub open spec fn name(self) -> Seq<char> {
        match self {
            PowerAction::On => "on"@,
            PowerAction::ForceOff => "force-off"@,
            PowerAction::SoftOff => "soft-off"@,
            PowerAction::Cycle => "cycle"@,
            PowerAction::Reset => "reset"@,
        }
    }

    pub open spec fn verb(self) -> Seq<char> {
        match self {
            PowerAction::On => "on"@,
            PowerAction::ForceOff => "off"@,
            PowerAction::SoftOff => "soft"@,
            PowerAction::Cycle => "cycle"@,
            PowerAction::Reset => "reset"@,
        }
    }

    pub open spec fn reset_type(self) -> Seq<char> {
        match self {
            PowerAction::On => "On"@,
            PowerAction::ForceOff => "ForceOff"@,
            PowerAction::SoftOff => "GracefulShutdown"@,
            PowerAction::Cycle => "PowerCycle"@,
            PowerAction::Reset => "ForceRestart"@,
        }
    }

    pub open spec fn shown_after(self) -> Option<PowerState> {
        match self {
            PowerAction::On => Some(PowerState::On),
            PowerAction::ForceOff | PowerAction::SoftOff => Some(PowerState::Off),
            PowerAction::Cycle | PowerAction::Reset => None,
        }
    }

    /// Human label for prompts and messages.
    pub fn label(self) -> (r: &'static str)
        ensures
            r@ == self.name(),
    {
        match self {
            PowerAction::On => "on",
            PowerAction::ForceOff => "force-off",
            PowerAction::SoftOff => "soft-off",
            PowerAction::Cycle => "cycle",
            PowerAction::Reset => "reset",
        }
    }

    /// `ipmitool chassis power <verb>`.
    pub fn ipmi_verb(self) -> (r: &'static str)
        ensures
            r@ == self.verb(),
    {
        match self {
            PowerAction::On => "on",
            PowerAction::ForceOff => "off",
            PowerAction::SoftOff => "soft",
            PowerAction::Cycle => "cycle",
            PowerAction::Reset => "reset",
        }
    }

    /// Redfish `ComputerSystem.Reset` `ResetType`.
    pub fn redfish_reset_type(self) -> (r: &'static str)
        ensures
            r@ == self.reset_type(),
    {
        match self {
            PowerAction::On => "On",
            PowerAction::ForceOff => "ForceOff",
            PowerAction::SoftOff => "GracefulShutdown",
            PowerAction::Cycle => "PowerCycle",
            PowerAction::Reset => "ForceRestart",
        }
    }

    /// The power state to optimistically show right after issuing the action
    /// (the next poll confirms). `None` for actions whose end state is the same
    /// or ambiguous (cycle/reset end up On but transiently off).
    pub fn optimistic_power(self) -> (r: Option<PowerState>)
        ensures
            r == self.shown_after(),
    {
        match self {
            PowerAction::On => Some(PowerState::On),
            PowerAction::ForceOff | PowerAction::SoftOff => Some(PowerState::Off),
            PowerAction::Cycle | PowerAction::Reset => None,
        }
    }
}

/// A one-time boot-device override (e.g. "next boot from PXE"), as used during
/// provisioning. `Unset` means no override is set.
#[derive(Debug, Clone, Copy, PartialEq, Eq, Structural)]
pub enum BootOverride {
    Unset,
    Pxe,
    Disk,
    Bios,
    Cd,
    /// Some other override is set that we don't have a short name for.
    Other,
}

impl BootOverride {
    pub open spec fn name(self) -> Seq<char> {
        match self {
            BootOverride::Unset => "—"@,
            BootOverride::Pxe => "PXE"@,
            BootOverride::Disk => "disk"@,
            BootOverride::Bios => "bios"@,
            BootOverride::Cd => "cd"@,
            BootOverride::Other => "set"@,
        }
    }

    /// Short column label.
    pub fn short(self) -> (r: &'static str)
        ensures
            r@ == self.name(),
    {
        match self {
            BootOverride::Unset => "—",
            BootOverride::Pxe => "PXE",
            BootOverride::Disk => "disk",
            BootOverride::Bios => "bios",
            BootOverride::Cd => "cd",
            BootOverride::Other => "set",
        }
    }

    pub fn is_override(self) -> (r: bool)
        ensures
            r == !(self is Unset),
    {
        !matches!(self, BootOverride::Unset)
    }
}

/// A next-boot override the operator can apply from the boot modal. Like power
/// actions, these are issued against a selection and confirmed with a hold.
#[derive(Debug, Clone, Copy, PartialEq, Eq, Structural)]
pub enum BootAction {
    /// Boot from the network (PXE) on the next boot.
    Pxe,
    /// Boot from local disk on the next boot.
    Disk,
    /// Enter BIOS/firmware setup on the next boot.
    Bios,
    /// Boot from CD/DVD / virtual media on the next boot.
    Cd,
    /// Clear any override (boot normally).
    Clear,
}

impl BootAction {
    pub open spec fn name(self) -> Seq<char> {
        match self {
            BootAction::Pxe => "pxe"@,
            BootAction::Disk => "disk"@,
            BootAction::Bios => "bios"@,
            BootAction::Cd => "cd"@,
            BootAction::Clear => "clear"@,
        }
    }

    pub open spec fn device(self) -> Seq<char> {
        match self {
            BootAction::Pxe => "pxe"@,
            BootAction::Disk => "disk"@,
            BootAction::Bios => "bios"@,
            BootAction::Cd => "cdrom"@,
            BootAction::Clear => "none"@,
        }
    }

    pub open spec fn target(self) -> Option<Seq<char>> {
        match self {
            BootAction::Pxe => Some("Pxe"@),
            BootAction::Disk => Some("Hdd"@),
            BootAction::Bios => Some("BiosSetup"@),
            BootAction::Cd => Some("Cd"@),
            BootAction::Clear => None,
        }
    }

    pub open spec fn shown_after(self) -> BootOverride {
        match self {
            BootAction::Pxe => BootOverride::Pxe,
            BootAction::Disk => BootOverride::Disk,
            BootAction::Bios => BootOverride::Bios,
            BootAction::Cd => BootOverride::Cd,
            BootAction::Clear => BootOverride::Unset,
        }
    }

    /// Human label for prompts and messages.
    pub fn label(self) -> (r: &'static str)
        ensures
            r@ == self.name(),
    {
        match self {
            BootAction::Pxe => "pxe",
            BootAction::Disk => "disk",
            BootAction::Bios => "bios",
            BootAction::Cd => "cd",
            BootAction::Clear => "clear",
        }
    }

    /// `ipmitool chassis bootdev <dev>` device name (`none` clears the override).
    pub fn ipmi_bootdev(self) -> (r: &'static str)
        ensures
            r@ == self.device(),
    {
        match self {
            BootAction::Pxe => "pxe",
            BootAction::Disk => "disk",
            BootAction::Bios => "bios",
            BootAction::Cd => "cdrom",
            BootAction::Clear => "none",
        }
    }

    /// Redfish `Boot/BootSourceOverrideTarget`; `None` means clear the override.
    pub fn redfish_target(self) -> (r: Option<&'static str>)
        ensures
            match r {
                Some(t) => self.target() == Some(t@),
                None => self.target() is None,
            },
    {
        match self {
            BootAction::Pxe => Some("Pxe"),
            BootAction::Disk => Some("Hdd"),
            BootAction::Bios => Some("BiosSetup"),
            BootAction::Cd => Some("Cd"),
            BootAction::Clear => None,
        }
    }

    /// The boot override to optimistically display right after issuing (the next
    /// poll confirms).
    pub fn optimistic_boot(self) -> (r: BootOverride)
        ensures
            r == self.shown_after(),
    {
        match self {
            BootAction::Pxe => BootOverride::Pxe,
            BootAction::Disk => BootOverride::Disk,
            BootAction::Bios => BootOverride::Bios,
            BootAction::Cd => BootOverride::Cd,
            BootAction::Clear => BootOverride::Unset,
        }
    }
}

/// One entry from the BMC's System Event Log (SEL). `severity` reuses [`Health`]
/// for colouring (Nominal/Warning/Critical, Unknown when undetermined).
#[derive(Debug, Clone)]
pub struct SelEntry {
    /// Record id as the BMC reports it (decimal or hex).
    pub id: String,
    /// Timestamp text (may be "Pre-Init" / blank when the BMC clock is unset).
    pub when: String,
    /// Sensor name the event came from.
    pub sensor: String,
    /// Human-readable event description (including assert/deassert direction).
    pub text: String,
    pub severity: Health,
}

/// The texts of a [`SelEntry`].
pub struct SelEntryView {
    pub id: Seq<char>,
    pub when: Seq<char>,
    pub sensor: Seq<char>,
    pub text: Seq<char>,
    pub severity: Health,
}

impl View for SelEntry {
    type V = SelEntryView;

    open spec fn view(&self) -> SelEntryView {
        SelEntryView {
            id: self.id@,
            when: self.when@,
            sensor: self.sensor@,
            text: self.text@,
            severity: self.severity,
        }
    }
}

/// The entries of a vector, by their views.
pub open spec fn entry_views(v: Seq<SelEntry>) -> Seq<SelEntryView> {
    v.map_values(|e: SelEntry| e@)
}

/// The entries in the opposite order.
pub fn reversed(v: Vec<SelEntry>) -> (r: Vec<SelEntry>)
    ensures
        r@ == v@.reverse(),
        entry_views(r@) == entry_views(v@).reverse(),
{
    let mut v = v;
    let ghost all = v@;
    let mut r: Vec<SelEntry> = Vec::new();
    while v.len() > 0
        invariant
            v@.len() <= all.len(),
            v@ == all.take(v@.len() as int),
            r@ == all.skip(v@.len() as int).reverse(),
        decreases v@.len(),
    {
        let ghost n = v@.len() as int;
        if let Some(e) = v.pop() {
            r.push(e);
        }
        assert(r@ == all.skip(n - 1).reverse());
    }
    assert(all.skip(0) == all);
    assert(entry_views(r@) == entry_views(all).reverse());
    r
}

/// A BMC user account (for the detail view's Users tab).
#[derive(Debug, Clone)]
pub struct BmcUser {
    /// Slot/account id.
    pub id: String,
    pub name: String,
    /// Channel privilege limit / role (e.g. ADMINISTRATOR, OPERATOR, USER).
    pub privilege: String,
    /// Whether the account is enabled (IPMI messaging on / Redfish Enabled).
    pub enabled: bool,
}

/// The texts of a [`BmcUser`].
pub struct BmcUserView {
    pub id: Seq<char>,
    pub name: Seq<char>,
    pub privilege: Seq<char>,
    pub enabled: bool,
}

impl View for BmcUser {
    type V = BmcUserView;

    open spec fn view(&self) -> BmcUserView {
        BmcUserView {
            id: self.id@,
            name: self.name@,
            privilege: self.privilege@,
            enabled: self.enabled,
        }
    }
}

/// The accounts of a vector, by their views.
pub open spec fn user_views(v: Seq<BmcUser>) -> Seq<BmcUserView> {
    v.map_values(|u: BmcUser| u@)
}

/// An ordered list of `(label, value)` facts for the detail view's Overview tab.
pub type Overview = Vec<(String, String)>;

/// One fact, left out where there is nothing to say.
pub open spec fn fact(label: Seq<char>, val: Option<Seq<char>>) -> Seq<(Seq<char>, Seq<char>)> {
    match val {
        Some(v) => if text::trim(v).len() > 0 {
            seq![(label, text::trim(v))]
        } else {
            seq![]
        },
        None => seq![],
    }
}

/// Add a fact, trimmed, unless there is nothing to say.
pub fn push_fact(ov: &mut Overview, label: &str, val: Option<String>)
    ensures
        text::string_pairs(final(ov)@) == text::string_pairs(old(ov)@) + fact(label@, text::text_of(val)),
{
    let ghost before = ov@;
    match val {
        Some(v) => {
            let v = text::trimmed(&text::chars_of(v.as_str()));
            if v.len() > 0 {
                ov.push((label.to_owned(), text::string_of(&v)));
                assert(text::string_pairs(ov@) == text::string_pairs(before).push((label@, v@)));
                assert(text::string_pairs(before) + seq![(label@, v@)] == text::string_pairs(before).push(
                    (label@, v@),
                ));
            } else {
                assert(text::string_pairs(before) + Seq::<(Seq<char>, Seq<char>)>::empty()
                    == text::string_pairs(before));
            }
        },
        None => {
            assert(text::string_pairs(before) + Seq::<(Seq<char>, Seq<char>)>::empty() == text::string_pairs(
                before,
            ));
        },
    }
}

/// Result of a power/liveness poll (the frequent one). Beyond power, the single
/// `chassis status` call also yields fault flags and the identify-LED state for
/// free; the boot override is one extra cheap call.
#[derive(Debug, Clone)]
pub struct PowerPoll {
    pub reachable: bool,
    pub power: PowerState,
    /// Any chassis fault flag set (power/cooling/drive/overload).
    pub fault: bool,
    /// Identify (locate) LED is on or blinking.
    pub identify: bool,
    pub boot: BootOverride,
    /// Static fields, only set when the poll was asked to fetch them (once).
    pub serial: Option<String>,
    pub mac: Option<String>,
    /// How long the poll took, in nanoseconds.
    pub latency: u128,
    pub error: Option<String>,
}

/// The values of a [`PowerPoll`], with its texts.
pub struct PowerPollView {
    pub reachable: bool,
    pub power: PowerState,
    pub fault: bool,
    pub identify: bool,
    pub boot: BootOverride,
    pub serial: Option<Seq<char>>,
    pub mac: Option<Seq<char>>,
    pub latency: u128,
    pub error: Option<Seq<char>>,
}

impl View for PowerPoll {
    type V = PowerPollView;

    open spec fn view(&self) -> PowerPollView {
        PowerPollView {
            reachable: self.reachable,
            power: self.power,
            fault: self.fault,
            identify: self.identify,
            boot: self.boot,
            serial: text::text_of(self.serial),
            mac: text::text_of(self.mac),
            latency: self.latency,
            error: text::text_of(self.error),
        }
    }
}

/// A poll that reached the BMC and has learned nothing yet.
pub open spec fn reached() -> PowerPollView {
    PowerPollView {
        reachable: true,
        power: PowerState::Unknown,
        fault: false,
        identify: false,
        boot: BootOverride::Unset,
        serial: None,
        mac: None,
        latency: 0,
        error: None,
    }
}

/// A poll that did not reach the BMC, and why.
pub open spec fn not_reached(err: Seq<char>) -> PowerPollView {
    PowerPollView { reachable: false, error: Some(err), ..reached() }
}

impl PowerPoll {
    pub fn reachable() -> (r: Self)
        ensures
            r@ == reached(),
    {
        PowerPoll {
            reachable: true,
            power: PowerState::Unknown,
            fault: false,
            identify: false,
            boot: BootOverride::Unset,
            serial: None,
            mac: None,
            latency: 0,
            error: None,
        }
    }

    pub fn unreachable(err: String) -> (r: Self)
        ensures
            r@ == not_reached(err@),
            r.error == Some(err),
    {
        PowerPoll {
            reachable: false,
            power: PowerState::Unknown,
            fault: false,
            identify: false,
            boot: BootOverride::Unset,
            serial: None,
            mac: None,
            latency: 0,
            error: Some(err),
        }
    }
}

// --- dispatch and budget -------------------------------------------------------

/// Which implementation answers for a machine.
#[derive(Debug, Clone, Copy, PartialEq, Eq, Structural)]
pub enum Backend {
    Mock,
    Ipmi,
    Redfish,
}

/// The backend that serves `protocol`: the mock in demo mode, else the
/// protocol's own.
pub open spec fn backend_of(protocol: Protocol, demo: bool) -> Backend {
    if demo {
        Backend::Mock
    } else {
        match protocol {
            Protocol::Ipmi => Backend::Ipmi,
            Protocol::Redfish => Backend::Redfish,
        }
    }
}

/// The backend to run for `machine`.
pub fn backend(machine: &Machine, demo: bool) -> (r: Backend)
    ensures
        r == backend_of(machine.protocol, demo),
{
    if demo {
        Backend::Mock
    } else {
        match machine.protocol {
            Protocol::Ipmi => Backend::Ipmi,
            Protocol::Redfish => Backend::Redfish,
        }
    }
}

/// What a poll that ran over its budget is reported as.
pub open spec fn timeout_note() -> Seq<char> {
    "timeout after "@ + text::decimal(POLL_TIMEOUT_SECS as nat) + "s"@
}

fn timeout_text() -> (r: String)
    ensures
        r@ == timeout_note(),
{
    let secs = to_decimal(POLL_TIMEOUT_SECS);
    join3("timeout after ", secs.as_str(), "s")
}

/// A poll without the static fields.
pub open spec fn without_static(p: PowerPollView) -> PowerPollView {
    PowerPollView { serial: None, mac: None, ..p }
}

/// What a power poll comes to. `outcome` is what the backend found, if it did in
/// time.
pub open spec fn finished(
    outcome: Option<PowerPollView>,
    elapsed: u128,
    fetch_static: bool,
) -> PowerPollView {
    let found = match outcome {
        Some(p) => p,
        None => not_reached(timeout_note()),
    };
    let timed = if found.latency == 0 {
        PowerPollView { latency: elapsed, ..found }
    } else {
        found
    };
    if fetch_static {
        timed
    } else {
        without_static(timed)
    }
}

/// Finish a power poll. `outcome` is what the backend found, `None` if it ran
/// over the budget; `elapsed` is the measured time, which stands in for a
/// latency that the backend left at zero. A backend may find the static fields
/// on its way; they are handed on only when `fetch_static` asked for them.
pub fn poll_power(outcome: Option<PowerPoll>, elapsed: u128, fetch_static: bool) -> (r: PowerPoll)
    ensures
        ({
            let found = match outcome {
                Some(p) => p@,
                None => not_reached(timeout_note()),
            };
            let timed = if found.latency == 0 {
                PowerPollView { latency: elapsed, ..found }
            } else {
                found
            };
            r@ == if fetch_static {
                timed
            } else {
                without_static(timed)
            }
        }),
        !fetch_static ==> r@.serial is None && r@.mac is None,
        r@ == finished(
            match outcome {
                Some(p) => Some(p@),
                None => None,
            },
            elapsed,
            fetch_static,
        ),
{
    let mut poll = match outcome {
        Some(p) => p,
        None => PowerPoll::unreachable(timeout_text()),
    };
    if poll.latency == 0 {
        poll.latency = elapsed;
    }
    if !fetch_static {
        poll.serial = None;
        poll.mac = None;
    }
    poll
}

/// What a health poll comes to.
pub open spec fn finished_health(outcome: Option<Option<Health>>) -> Option<Health> {
    match outcome {
        Some(found) => found,
        None => None,
    }
}

/// Finish a health poll. `outcome` is `None` if the backend ran over the
/// budget. A result of `None` means that the health couldn't be determined.
pub fn poll_health(outcome: Option<Option<Health>>) -> (r: Option<Health>)
    ensures
        r == match outcome {
            Some(found) => found,
            None => None,
        },
        r == finished_health(outcome),
{
    match outcome {
        Some(found) => found,
        None => None,
    }
}

/// What any other call to a backend comes to.
pub open spec fn budgeted<T>(outcome: Option<Result<T, Seq<char>>>) -> Result<T, Seq<char>> {
    match outcome {
        Some(found) => found,
        None => Err(timeout_note()),
    }
}

/// A result with the text of its error.
pub open spec fn told<T>(r: Result<T, String>) -> Result<T, Seq<char>> {
    match r {
        Ok(v) => Ok(v),
        Err(e) => Err(e@),
    }
}

/// Finish any other call to a backend. `outcome` is `None` if it ran over the
/// budget, which is an error of its own.
pub fn within_budget<T>(outcome: Option<Result<T, String>>) -> (r: Result<T, String>)
    ensures
        match outcome {
            Some(found) => r == found,
            None => r is Err && r->Err_0@ == timeout_note(),
        },
        told(r) == budgeted(
            match outcome {
                Some(found) => Some(told(found)),
                None => None,
            },
        ),
{
    match outcome {
        Some(found) => found,
        None => Err(timeout_text()),
    }
}

} // verus!
