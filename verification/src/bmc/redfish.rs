//! Redfish backend: what the BMC's REST API is asked over HTTPS and what its
//! JSON answers mean.
//!
//! Secondary to IPMI for now: it fetches the first system and reads PowerState /
//! SerialNumber / Status.Health. Self-signed BMC certificates are accepted when
//! the machine is marked `insecure`. Both poll types reuse the same system GET
//! (it's cheap), so unlike IPMI there's no real power/health cost asymmetry.
//!
//! An answer is read once into a plain document ([`System`], [`Account`],
//! [`Entry`]), and everything else works on those.

use vstd::prelude::*;

use super::{
    log, BmcUser, BmcUserView, BootAction, BootOverride, Health, Overview, PowerAction, PowerPoll,
    PowerPollView, PowerState, SelEntry, SelEntryView,
};
use crate::inventory::{Machine, MachineView};
use crate::text;

verus! {

// --- JSON values ---------------------------------------------------------------

/// Trusted: a parsed JSON document, `serde_json::Value`. What it holds is told by
/// the names below; nothing else is known of it.
#[verifier::external_type_specification]
#[verifier::external_body]
pub struct ExValue(serde_json::Value);

/// The strings in a JSON document, by the JSON pointers to them.
pub uninterp spec fn json_strings(v: serde_json::Value) -> Map<Seq<char>, Seq<char>>;

/// The truth values in a JSON document, by the JSON pointers to them.
pub uninterp spec fn json_bools(v: serde_json::Value) -> Map<Seq<char>, bool>;

/// The natural numbers of 64 bits in a JSON document, by the JSON pointers to
/// them.
pub uninterp spec fn json_naturals(v: serde_json::Value) -> Map<Seq<char>, u64>;

/// The numbers in a JSON document, each written out as a floating-point number,
/// by the JSON pointers to them.
pub uninterp spec fn json_numbers(v: serde_json::Value) -> Map<Seq<char>, Seq<char>>;

/// The lengths of the arrays in a JSON document, by the JSON pointers to them.
pub uninterp spec fn json_arrays(v: serde_json::Value) -> Map<Seq<char>, usize>;

/// What `m` has at `pointer`.
pub open spec fn at<V>(m: Map<Seq<char>, V>, pointer: Seq<char>) -> Option<V> {
    if m.dom().contains(pointer) {
        Some(m[pointer])
    } else {
        None
    }
}

/// Trusted: `Value::pointer` and `Value::as_str` of serde_json. The string that
/// the JSON pointer leads to; none if it leads nowhere or to something else.
#[verifier::external_body]
fn string_at(v: &serde_json::Value, pointer: &str) -> (r: Option<String>)
    ensures
        text::text_of(r) == at(json_strings(*v), pointer@),
{
    v.pointer(pointer).and_then(|x| x.as_str()).map(|s| s.to_string())
}

/// Trusted: `Value::pointer` and `Value::as_bool` of serde_json. The truth value
/// that the JSON pointer leads to; none if it leads nowhere or to something else.
#[verifier::external_body]
fn bool_at(v: &serde_json::Value, pointer: &str) -> (r: Option<bool>)
    ensures
        r == at(json_bools(*v), pointer@),
{
    v.pointer(pointer).and_then(|x| x.as_bool())
}

/// Trusted: `Value::pointer` and `Value::as_u64` of serde_json. The number that
/// the JSON pointer leads to; none if it leads nowhere or to something that is no
/// natural number of 64 bits.
#[verifier::external_body]
fn natural_at(v: &serde_json::Value, pointer: &str) -> (r: Option<u64>)
    ensures
        r == at(json_naturals(*v), pointer@),
{
    v.pointer(pointer).and_then(|x| x.as_u64())
}

/// Trusted: `Value::pointer` and `Value::as_f64` of serde_json, and how the
/// standard library writes the number. None if the pointer leads nowhere or to
/// something that is no number.
#[verifier::external_body]
fn number_at(v: &serde_json::Value, pointer: &str) -> (r: Option<String>)
    ensures
        text::text_of(r) == at(json_numbers(*v), pointer@),
{
    v.pointer(pointer).and_then(|x| x.as_f64()).map(|g| g.to_string())
}

/// Trusted: `Value::pointer` and `Value::as_array` of serde_json. The length of
/// the array that the JSON pointer leads to; none if it leads nowhere or to
/// something else.
#[verifier::external_body]
fn array_at(v: &serde_json::Value, pointer: &str) -> (r: Option<usize>)
    ensures
        r == at(json_arrays(*v), pointer@),
{
    v.pointer(pointer).and_then(|x| x.as_array()).map(|a| a.len())
}

// --- documents -----------------------------------------------------------------

/// What is read of a system object.
pub struct System {
    /// `@odata.id`: the path of the object itself.
    pub odata_id: Option<String>,
    pub power_state: Option<String>,
    /// `Status/Health`.
    pub health: Option<String>,
    pub location_indicator: Option<bool>,
    pub indicator_led: Option<String>,
    pub serial_number: Option<String>,
    pub boot_enabled: Option<String>,
    pub boot_target: Option<String>,
    /// The path of the `ComputerSystem.Reset` action.
    pub reset_target: Option<String>,
    pub manufacturer: Option<String>,
    pub model: Option<String>,
    pub sku: Option<String>,
    pub bios_version: Option<String>,
    pub cpu_model: Option<String>,
    pub cpu_count: Option<u64>,
    /// The memory size in GiB, written out.
    pub memory_gib: Option<String>,
}

/// The texts of a [`System`].
pub struct SystemView {
    pub odata_id: Option<Seq<char>>,
    pub power_state: Option<Seq<char>>,
    pub health: Option<Seq<char>>,
    pub location_indicator: Option<bool>,
    pub indicator_led: Option<Seq<char>>,
    pub serial_number: Option<Seq<char>>,
    pub boot_enabled: Option<Seq<char>>,
    pub boot_target: Option<Seq<char>>,
    pub reset_target: Option<Seq<char>>,
    pub manufacturer: Option<Seq<char>>,
    pub model: Option<Seq<char>>,
    pub sku: Option<Seq<char>>,
    pub bios_version: Option<Seq<char>>,
    pub cpu_model: Option<Seq<char>>,
    pub cpu_count: Option<u64>,
    pub memory_gib: Option<Seq<char>>,
}

impl View for System {
    type V = SystemView;

    open spec fn view(&self) -> SystemView {
        SystemView {
            odata_id: text::text_of(self.odata_id),
            power_state: text::text_of(self.power_state),
            health: text::text_of(self.health),
            location_indicator: self.location_indicator,
            indicator_led: text::text_of(self.indicator_led),
            serial_number: text::text_of(self.serial_number),
            boot_enabled: text::text_of(self.boot_enabled),
            boot_target: text::text_of(self.boot_target),
            reset_target: text::text_of(self.reset_target),
            manufacturer: text::text_of(self.manufacturer),
            model: text::text_of(self.model),
            sku: text::text_of(self.sku),
            bios_version: text::text_of(self.bios_version),
            cpu_model: text::text_of(self.cpu_model),
            cpu_count: self.cpu_count,
            memory_gib: text::text_of(self.memory_gib),
        }
    }
}

/// Where each part of a system object stands in its JSON document.
pub open spec fn system_in(v: serde_json::Value) -> SystemView {
    let s = json_strings(v);
    SystemView {
        odata_id: at(s, "/@odata.id"@),
        power_state: at(s, "/PowerState"@),
        health: at(s, "/Status/Health"@),
        location_indicator: at(json_bools(v), "/LocationIndicatorActive"@),
        indicator_led: at(s, "/IndicatorLED"@),
        serial_number: at(s, "/SerialNumber"@),
        boot_enabled: at(s, "/Boot/BootSourceOverrideEnabled"@),
        boot_target: at(s, "/Boot/BootSourceOverrideTarget"@),
        reset_target: at(s, "/Actions/#ComputerSystem.Reset/target"@),
        manufacturer: at(s, "/Manufacturer"@),
        model: at(s, "/Model"@),
        sku: at(s, "/SKU"@),
        bios_version: at(s, "/BiosVersion"@),
        cpu_model: at(s, "/ProcessorSummary/Model"@),
        cpu_count: at(json_naturals(v), "/ProcessorSummary/Count"@),
        memory_gib: at(json_numbers(v), "/MemorySummary/TotalSystemMemoryGiB"@),
    }
}

impl System {
    /// Read a system object.
    pub fn read(v: &serde_json::Value) -> (r: System)
        ensures
            r@ == system_in(*v),
    {
        System {
            odata_id: string_at(v, "/@odata.id"),
            power_state: string_at(v, "/PowerState"),
            health: string_at(v, "/Status/Health"),
            location_indicator: bool_at(v, "/LocationIndicatorActive"),
            indicator_led: string_at(v, "/IndicatorLED"),
            serial_number: string_at(v, "/SerialNumber"),
            boot_enabled: string_at(v, "/Boot/BootSourceOverrideEnabled"),
            boot_target: string_at(v, "/Boot/BootSourceOverrideTarget"),
            reset_target: string_at(v, "/Actions/#ComputerSystem.Reset/target"),
            manufacturer: string_at(v, "/Manufacturer"),
            model: string_at(v, "/Model"),
            sku: string_at(v, "/SKU"),
            bios_version: string_at(v, "/BiosVersion"),
            cpu_model: string_at(v, "/ProcessorSummary/Model"),
            cpu_count: natural_at(v, "/ProcessorSummary/Count"),
            memory_gib: number_at(v, "/MemorySummary/TotalSystemMemoryGiB"),
        }
    }
}

/// What is read of an account object.
pub struct Account {
    pub user_name: Option<String>,
    pub id: Option<String>,
    pub role_id: Option<String>,
    pub enabled: Option<bool>,
}

/// The texts of an [`Account`].
pub struct AccountView {
    pub user_name: Option<Seq<char>>,
    pub id: Option<Seq<char>>,
    pub role_id: Option<Seq<char>>,
    pub enabled: Option<bool>,
}

impl View for Account {
    type V = AccountView;

    open spec fn view(&self) -> AccountView {
        AccountView {
            user_name: text::text_of(self.user_name),
            id: text::text_of(self.id),
            role_id: text::text_of(self.role_id),
            enabled: self.enabled,
        }
    }
}

pub open spec fn account_in(v: serde_json::Value) -> AccountView {
    AccountView {
        user_name: at(json_strings(v), "/UserName"@),
        id: at(json_strings(v), "/Id"@),
        role_id: at(json_strings(v), "/RoleId"@),
        enabled: at(json_bools(v), "/Enabled"@),
    }
}

impl Account {
    /// Read an account object.
    pub fn read(v: &serde_json::Value) -> (r: Account)
        ensures
            r@ == account_in(*v),
    {
        Account {
            user_name: string_at(v, "/UserName"),
            id: string_at(v, "/Id"),
            role_id: string_at(v, "/RoleId"),
            enabled: bool_at(v, "/Enabled"),
        }
    }
}

/// What is read of an event log entry.
pub struct Entry {
    pub severity: Option<String>,
    pub id: Option<String>,
    pub created: Option<String>,
    pub sensor_type: Option<String>,
    pub message: Option<String>,
}

/// The texts of an [`Entry`].
pub struct EntryView {
    pub severity: Option<Seq<char>>,
    pub id: Option<Seq<char>>,
    pub created: Option<Seq<char>>,
    pub sensor_type: Option<Seq<char>>,
    pub message: Option<Seq<char>>,
}

impl View for Entry {
    type V = EntryView;

    open spec fn view(&self) -> EntryView {
        EntryView {
            severity: text::text_of(self.severity),
            id: text::text_of(self.id),
            created: text::text_of(self.created),
            sensor_type: text::text_of(self.sensor_type),
            message: text::text_of(self.message),
        }
    }
}

/// The JSON pointer to the `i`th member of a collection, before what comes in it.
pub open spec fn member(i: nat) -> Seq<char> {
    "/Members/"@ + text::decimal(i)
}

pub open spec fn entry_in(v: serde_json::Value, i: nat) -> EntryView {
    let s = json_strings(v);
    EntryView {
        severity: at(s, member(i) + "/Severity"@),
        id: at(s, member(i) + "/Id"@),
        created: at(s, member(i) + "/Created"@),
        sensor_type: at(s, member(i) + "/SensorType"@),
        message: at(s, member(i) + "/Message"@),
    }
}

fn member_string(v: &serde_json::Value, i: usize, key: &str) -> (r: Option<String>)
    ensures
        text::text_of(r) == at(json_strings(*v), member(i as nat) + key@),
{
    let n = text::to_decimal(i as u64);
    let p = text::join3("/Members/", n.as_str(), key);
    string_at(v, p.as_str())
}

impl Entry {
    /// Read the `i`th member of an event log collection.
    pub fn read(v: &serde_json::Value, i: usize) -> (r: Entry)
        ensures
            r@ == entry_in(*v, i as nat),
    {
        Entry {
            severity: member_string(v, i, "/Severity"),
            id: member_string(v, i, "/Id"),
            created: member_string(v, i, "/Created"),
            sensor_type: member_string(v, i, "/SensorType"),
            message: member_string(v, i, "/Message"),
        }
    }
}

// --- addresses -----------------------------------------------------------------

/// The address that all of a machine's Redfish paths start from.
pub open spec fn base_of(m: MachineView) -> Seq<char> {
    m.scheme + "://"@ + m.host + match m.port {
        Some(p) => ":"@ + text::decimal(p as nat),
        None => ""@,
    }
}

pub fn base_url(machine: &Machine) -> (r: String)
    ensures
        r@ == base_of(machine@),
{
    let mut url = text::join3(machine.scheme.as_str(), "://", machine.host.as_str());
    match machine.port {
        Some(p) => {
            let n = text::to_decimal(p as u64);
            let port = text::join2(":", n.as_str());
            url.append(port.as_str());
        },
        None => {
            url.append("");
        },
    }
    url
}

/// The address of a path on the machine.
pub fn url(machine: &Machine, path: &str) -> (r: String)
    ensures
        r@ == base_of(machine@) + path@,
{
    let base = base_url(machine);
    text::join2(base.as_str(), path)
}

/// The address of the collection of systems.
pub open spec fn systems_address(m: MachineView) -> Seq<char> {
    base_of(m) + "/redfish/v1/Systems"@
}

/// The address of the collection of accounts.
pub open spec fn accounts_address(m: MachineView) -> Seq<char> {
    base_of(m) + "/redfish/v1/AccountService/Accounts"@
}

/// The collection of systems.
pub fn systems_url(machine: &Machine) -> (r: String)
    ensures
        r@ == base_of(machine@) + "/redfish/v1/Systems"@,
        r@ == systems_address(machine@),
{
    url(machine, "/redfish/v1/Systems")
}

/// The collection of accounts.
pub fn accounts_url(machine: &Machine) -> (r: String)
    ensures
        r@ == base_of(machine@) + "/redfish/v1/AccountService/Accounts"@,
        r@ == accounts_address(machine@),
{
    url(machine, "/redfish/v1/AccountService/Accounts")
}

/// The address of the first system in the reply to [`systems_url`].
pub fn first_system(machine: &Machine, collection: &serde_json::Value) -> (r: Result<
    String,
    String,
>)
    ensures
        match at(json_strings(*collection), "/Members/0/@odata.id"@) {
            Some(path) => r is Ok && r->Ok_0@ == base_of(machine@) + path,
            None => r is Err && r->Err_0@ == "no systems in Redfish collection"@,
        },
{
    let link = string_at(collection, "/Members/0/@odata.id");
    first_link(machine, link)
}

/// The address that a system's link leads to.
pub fn first_link(machine: &Machine, link: Option<String>) -> (r: Result<String, String>)
    ensures
        match link {
            Some(path) => r is Ok && r->Ok_0@ == base_of(machine@) + path@,
            None => r is Err && r->Err_0@ == "no systems in Redfish collection"@,
        },
{
    match link {
        Some(path) => Ok(url(machine, path.as_str())),
        None => Err("no systems in Redfish collection".to_owned()),
    }
}

// --- polls ---------------------------------------------------------------------

pub open spec fn power_in(sys: SystemView) -> PowerState {
    match sys.power_state {
        Some(s) => if s == "On"@ {
            PowerState::On
        } else if s == "Off"@ {
            PowerState::Off
        } else {
            PowerState::Unknown
        },
        None => PowerState::Unknown,
    }
}

fn option_is(o: &Option<String>, word: &str) -> (r: bool)
    ensures
        r == (text::text_of(*o) == Some(word@)),
{
    match o {
        Some(s) => text::same(s.as_str(), word),
        None => false,
    }
}

pub fn parse_power(sys: &System) -> (r: PowerState)
    ensures
        r == power_in(sys@),
{
    if option_is(&sys.power_state, "On") {
        PowerState::On
    } else if option_is(&sys.power_state, "Off") {
        PowerState::Off
    } else {
        PowerState::Unknown
    }
}

/// The state that a severity names, as systems and log entries spell it.
pub open spec fn severity_named(s: Option<Seq<char>>) -> Health {
    match s {
        Some(s) => if s == "OK"@ {
            Health::Nominal
        } else if s == "Warning"@ {
            Health::Warning
        } else if s == "Critical"@ {
            Health::Critical
        } else {
            Health::Unknown
        },
        None => Health::Unknown,
    }
}

fn parse_severity(s: &Option<String>) -> (r: Health)
    ensures
        r == severity_named(text::text_of(*s)),
{
    if option_is(s, "OK") {
        Health::Nominal
    } else if option_is(s, "Warning") {
        Health::Warning
    } else if option_is(s, "Critical") {
        Health::Critical
    } else {
        Health::Unknown
    }
}

pub fn parse_health(sys: &System) -> (r: Health)
    ensures
        r == severity_named(sys@.health),
{
    parse_severity(&sys.health)
}

/// The boot override of a system. There is none unless
/// `BootSourceOverrideEnabled` is Once/Continuous.
pub open spec fn boot_in(sys: SystemView) -> BootOverride {
    if sys.boot_enabled != Some("Once"@) && sys.boot_enabled != Some("Continuous"@) {
        BootOverride::Unset
    } else {
        match sys.boot_target {
            Some(t) => if t == "Pxe"@ {
                BootOverride::Pxe
            } else if t == "Hdd"@ {
                BootOverride::Disk
            } else if t == "BiosSetup"@ {
                BootOverride::Bios
            } else if t == "Cd"@ {
                BootOverride::Cd
            } else if t == "None"@ {
                BootOverride::Unset
            } else {
                BootOverride::Other
            },
            None => BootOverride::Unset,
        }
    }
}

pub fn parse_boot(sys: &System) -> (r: BootOverride)
    ensures
        r == boot_in(sys@),
{
    if !option_is(&sys.boot_enabled, "Once") && !option_is(&sys.boot_enabled, "Continuous") {
        return BootOverride::Unset;
    }
    if option_is(&sys.boot_target, "Pxe") {
        BootOverride::Pxe
    } else if option_is(&sys.boot_target, "Hdd") {
        BootOverride::Disk
    } else if option_is(&sys.boot_target, "BiosSetup") {
        BootOverride::Bios
    } else if option_is(&sys.boot_target, "Cd") {
        BootOverride::Cd
    } else if sys.boot_target.is_none() || option_is(&sys.boot_target, "None") {
        BootOverride::Unset
    } else {
        BootOverride::Other
    }
}

/// What a power poll makes of a system. The BMC's MAC address is not on the
/// system object, so it stays unknown and MAC verification is IPMI-only.
pub open spec fn poll_of(sys: SystemView) -> PowerPollView {
    PowerPollView {
        power: power_in(sys),
        fault: sys.health == Some("Warning"@) || sys.health == Some("Critical"@),
        identify: sys.location_indicator == Some(true) || sys.indicator_led == Some("Lit"@)
            || sys.indicator_led == Some("Blinking"@),
        boot: boot_in(sys),
        serial: sys.serial_number,
        ..super::reached()
    }
}

pub fn poll_power(system: Result<System, String>) -> (r: PowerPoll)
    ensures
        r@ == match system {
            Ok(sys) => poll_of(sys@),
            Err(e) => super::not_reached(e@),
        },
{
    match system {
        Ok(sys) => {
            let mut poll = PowerPoll::reachable();
            poll.power = parse_power(&sys);
            poll.fault = option_is(&sys.health, "Warning") || option_is(&sys.health, "Critical");
            poll.identify = matches!(sys.location_indicator, Some(true)) || option_is(
                &sys.indicator_led,
                "Lit",
            ) || option_is(&sys.indicator_led, "Blinking");
            poll.boot = parse_boot(&sys);
            poll.serial = sys.serial_number;
            poll
        },
        Err(e) => PowerPoll::unreachable(e),
    }
}

pub fn poll_health(system: Result<System, String>) -> (r: Option<Health>)
    ensures
        r == match system {
            Ok(sys) => Some(severity_named(sys@.health)),
            Err(_) => None,
        },
{
    match system {
        Ok(sys) => Some(parse_health(&sys)),
        Err(_) => None,
    }
}

// --- actions -------------------------------------------------------------------

/// A JSON object to send. Its fields are strings; where `object` is given, they
/// stand in an object of that name.
pub struct Request {
    pub url: String,
    pub object: Option<String>,
    pub fields: Vec<(String, String)>,
}

/// The texts of a [`Request`].
pub struct RequestView {
    pub url: Seq<char>,
    pub object: Option<Seq<char>>,
    pub fields: Seq<(Seq<char>, Seq<char>)>,
}

impl View for Request {
    type V = RequestView;

    open spec fn view(&self) -> RequestView {
        RequestView {
            url: self.url@,
            object: text::text_of(self.object),
            fields: text::string_pairs(self.fields@),
        }
    }
}

/// What to POST for a power action, or why there is nothing to.
pub open spec fn power_request(m: MachineView, sys: SystemView, action: PowerAction) -> Result<
    RequestView,
    Seq<char>,
> {
    match sys.reset_target {
        None => Err("no reset action on system"@),
        Some(target) => Ok(
            RequestView {
                url: base_of(m) + target,
                object: None,
                fields: seq![("ResetType"@, action.reset_type())],
            },
        ),
    }
}

/// Whether a request is the one that `want` asks for, or the error is its error.
pub open spec fn requests(r: Result<Request, String>, want: Result<RequestView, Seq<char>>) -> bool {
    match want {
        Ok(w) => r matches Ok(q) && q@ == w,
        Err(w) => r matches Err(e) && e@ == w,
    }
}

/// Issue a power action via the system's `ComputerSystem.Reset` action: what to
/// POST.
pub fn power(machine: &Machine, system: Result<System, String>, action: PowerAction) -> (r: Result<
    Request,
    String,
>)
    ensures
        match system {
            Err(e) => r == Err::<Request, String>(e),
            Ok(sys) => match sys@.reset_target {
                None => r is Err && r->Err_0@ == "no reset action on system"@,
                Some(target) => r is Ok && r->Ok_0@ == (RequestView {
                    url: base_of(machine@) + target,
                    object: None,
                    fields: seq![("ResetType"@, action.reset_type())],
                }),
            },
        },
        system matches Ok(sys) ==> requests(r, power_request(machine@, sys@, action)),
{
    let sys = match system {
        Ok(sys) => sys,
        Err(e) => {
            return Err(e);
        },
    };
    match sys.reset_target {
        None => Err("no reset action on system".to_owned()),
        Some(target) => {
            let mut fields: Vec<(String, String)> = Vec::new();
            fields.push(("ResetType".to_owned(), action.redfish_reset_type().to_owned()));
            assert(text::string_pairs(fields@) =~= seq![("ResetType"@, action.reset_type())]);
            Ok(Request { url: url(machine, target.as_str()), object: None, fields })
        },
    }
}

/// The `Boot` object that sets or clears an override.
pub open spec fn boot_fields(action: BootAction, persistent: bool) -> Seq<(Seq<char>, Seq<char>)> {
    match action.target() {
        Some(t) => seq![
            (
                "BootSourceOverrideEnabled"@,
                if persistent {
                    "Continuous"@
                } else {
                    "Once"@
                },
            ),
            ("BootSourceOverrideTarget"@, t),
        ],
        None => seq![("BootSourceOverrideEnabled"@, "Disabled"@)],
    }
}

/// What to PATCH for a boot action, or why there is nothing to.
pub open spec fn boot_request(
    m: MachineView,
    sys: SystemView,
    action: BootAction,
    persistent: bool,
) -> Result<RequestView, Seq<char>> {
    match sys.odata_id {
        None => Err("system has no @odata.id"@),
        Some(target) => Ok(
            RequestView {
                url: base_of(m) + target,
                object: Some("Boot"@),
                fields: boot_fields(action, persistent),
            },
        ),
    }
}

/// Set a boot override by PATCHing the system's `Boot` object: what to send.
/// `persistent` uses `Continuous` (sticks across reboots) instead of `Once`.
pub fn set_boot(
    machine: &Machine,
    system: Result<System, String>,
    action: BootAction,
    persistent: bool,
) -> (r: Result<Request, String>)
    ensures
        match system {
            Err(e) => r == Err::<Request, String>(e),
            Ok(sys) => match sys@.odata_id {
                None => r is Err && r->Err_0@ == "system has no @odata.id"@,
                Some(target) => r is Ok && r->Ok_0@ == (RequestView {
                    url: base_of(machine@) + target,
                    object: Some("Boot"@),
                    fields: boot_fields(action, persistent),
                }),
            },
        },
        system matches Ok(sys) ==> requests(r, boot_request(machine@, sys@, action, persistent)),
{
    let sys = match system {
        Ok(sys) => sys,
        Err(e) => {
            return Err(e);
        },
    };
    match sys.odata_id {
        None => Err("system has no @odata.id".to_owned()),
        Some(target) => {
            let mut fields: Vec<(String, String)> = Vec::new();
            match action.redfish_target() {
                Some(t) => {
                    let enabled = if persistent {
                        "Continuous"
                    } else {
                        "Once"
                    };
                    fields.push(("BootSourceOverrideEnabled".to_owned(), enabled.to_owned()));
                    fields.push(("BootSourceOverrideTarget".to_owned(), t.to_owned()));
                },
                None => {
                    fields.push(("BootSourceOverrideEnabled".to_owned(), "Disabled".to_owned()));
                },
            }
            assert(text::string_pairs(fields@) =~= boot_fields(action, persistent));
            Ok(
                Request {
                    url: url(machine, target.as_str()),
                    object: Some("Boot".to_owned()),
                    fields,
                },
            )
        },
    }
}

// --- overview, users, event log ------------------------------------------------

/// The overview facts of a system, in the order in which they are shown.
pub open spec fn overview_of(sys: SystemView) -> Seq<(Seq<char>, Seq<char>)> {
    super::fact("Power"@, sys.power_state) + super::fact("Vendor"@, sys.manufacturer)
        + super::fact("Model"@, sys.model) + super::fact("Serial"@, sys.serial_number)
        + super::fact("SKU"@, sys.sku) + super::fact("BIOS"@, sys.bios_version) + super::fact(
        "Health"@,
        sys.health,
    ) + super::fact("CPU Model"@, sys.cpu_model) + match sys.cpu_count {
        Some(n) => seq![("CPU Count"@, text::decimal(n as nat))],
        None => seq![],
    } + match sys.memory_gib {
        Some(g) => seq![("Memory"@, g + " GiB"@)],
        None => seq![],
    }
}

fn push_always(ov: &mut Overview, label: &str, value: String)
    ensures
        text::string_pairs(final(ov)@) == text::string_pairs(old(ov)@) + seq![(label@, value@)],
{
    let ghost before = ov@;
    ov.push((label.to_owned(), value));
    assert(text::string_pairs(ov@) =~= text::string_pairs(before) + seq![(label@, value@)]);
}

/// Gather Overview facts from the Redfish system object.
pub fn overview(system: Result<System, String>) -> (r: Result<Overview, String>)
    ensures
        match system {
            Err(e) => r == Err::<Overview, String>(e),
            Ok(sys) => r is Ok && text::string_pairs(r->Ok_0@) == overview_of(sys@),
        },
{
    let sys = match system {
        Ok(sys) => sys,
        Err(e) => {
            return Err(e);
        },
    };
    let ghost want = sys@;
    let mut ov: Overview = Vec::new();
    assert(text::string_pairs(ov@) + super::fact("Power"@, want.power_state) =~= super::fact(
        "Power"@,
        want.power_state,
    ));
    super::push_fact(&mut ov, "Power", sys.power_state);
    super::push_fact(&mut ov, "Vendor", sys.manufacturer);
    super::push_fact(&mut ov, "Model", sys.model);
    super::push_fact(&mut ov, "Serial", sys.serial_number);
    super::push_fact(&mut ov, "SKU", sys.sku);
    super::push_fact(&mut ov, "BIOS", sys.bios_version);
    super::push_fact(&mut ov, "Health", sys.health);
    super::push_fact(&mut ov, "CPU Model", sys.cpu_model);
    let ghost upper = text::string_pairs(ov@);
    match sys.cpu_count {
        Some(n) => {
            push_always(&mut ov, "CPU Count", text::to_decimal(n));
        },
        None => {
            assert(upper + Seq::<(Seq<char>, Seq<char>)>::empty() =~= upper);
        },
    }
    let ghost counted = text::string_pairs(ov@);
    match sys.memory_gib {
        Some(g) => {
            push_always(&mut ov, "Memory", text::join2(g.as_str(), " GiB"));
        },
        None => {
            assert(counted + Seq::<(Seq<char>, Seq<char>)>::empty() =~= counted);
        },
    }
    Ok(ov)
}

/// The links of the first `n` members of a collection that have one, in order.
pub open spec fn links_in(s: Map<Seq<char>, Seq<char>>, n: nat) -> Seq<Seq<char>>
    decreases n,
{
    if n == 0 {
        seq![]
    } else {
        let front = links_in(s, (n - 1) as nat);
        match at(s, member((n - 1) as nat) + "/@odata.id"@) {
            Some(link) => front.push(link),
            None => front,
        }
    }
}

/// The paths of the accounts in the reply to [`accounts_url`].
pub fn account_links(collection: &serde_json::Value) -> (r: Result<Vec<String>, String>)
    ensures
        match at(json_arrays(*collection), "/Members"@) {
            Some(n) => r is Ok && text::strings(r->Ok_0@) == links_in(
                json_strings(*collection),
                n as nat,
            ),
            None => r is Err && r->Err_0@ == "Accounts collection has no Members"@,
        },
{
    let n: usize = match array_at(collection, "/Members") {
        Some(n) => n,
        None => {
            return Err("Accounts collection has no Members".to_owned());
        },
    };
    let ghost s = json_strings(*collection);
    let mut links: Vec<String> = Vec::new();
    assert(text::strings(links@) =~= links_in(s, 0));
    for i in 0..n
        invariant
            s == json_strings(*collection),
            text::strings(links@) == links_in(s, i as nat),
    {
        let ghost before = links@;
        match member_string(collection, i, "/@odata.id") {
            Some(link) => {
                links.push(link);
                assert(text::strings(links@) =~= text::strings(before).push(link@));
            },
            None => {},
        }
        assert(links_in(s, (i + 1) as nat) == match at(s, member(i as nat) + "/@odata.id"@) {
            Some(link) => links_in(s, i as nat).push(link),
            None => links_in(s, i as nat),
        });
    }
    Ok(links)
}

pub open spec fn or_blank(o: Option<Seq<char>>) -> Seq<char> {
    match o {
        Some(s) => s,
        None => ""@,
    }
}

fn text_or_blank(o: Option<String>) -> (r: String)
    ensures
        r@ == or_blank(text::text_of(o)),
{
    match o {
        Some(s) => s,
        None => "".to_owned(),
    }
}

/// The account that an account object describes; one without a name is none.
pub open spec fn user_of(a: AccountView) -> Option<BmcUserView> {
    if or_blank(a.user_name).len() == 0 {
        None
    } else {
        Some(
            BmcUserView {
                id: or_blank(a.id),
                name: or_blank(a.user_name),
                privilege: or_blank(a.role_id),
                enabled: a.enabled == Some(true),
            },
        )
    }
}

pub fn account_user(a: Account) -> (r: Option<BmcUser>)
    ensures
        match r {
            Some(u) => user_of(a@) == Some(u@),
            None => user_of(a@) is None,
        },
{
    let name = text_or_blank(a.user_name);
    if name.as_str().unicode_len() == 0 {
        return None;
    }
    Some(
        BmcUser {
            id: text_or_blank(a.id),
            name,
            privilege: text_or_blank(a.role_id),
            enabled: matches!(a.enabled, Some(true)),
        },
    )
}

pub open spec fn account_views(v: Seq<Option<Account>>) -> Seq<Option<AccountView>> {
    v.map_values(
        |a: Option<Account>|
            match a {
                Some(a) => Some(a@),
                None => None,
            },
    )
}

/// The accounts among the fetched objects, in order.
pub open spec fn users_of(v: Seq<Option<AccountView>>) -> Seq<BmcUserView>
    decreases v.len(),
{
    if v.len() == 0 {
        seq![]
    } else {
        let front = users_of(v.drop_last());
        match v.last() {
            Some(a) => match user_of(a) {
                Some(u) => front.push(u),
                None => front,
            },
            None => front,
        }
    }
}

/// List accounts. `accounts` holds what became of each link of
/// [`account_links`]: the account object, or `None` where it could not be
/// fetched; such a one is skipped.
pub fn users(accounts: Vec<Option<Account>>) -> (r: Vec<BmcUser>)
    ensures
        super::user_views(r@) == users_of(account_views(accounts@)),
{
    let ghost all = account_views(accounts@);
    let mut users: Vec<BmcUser> = Vec::new();
    assert(super::user_views(users@) =~= users_of(all.take(0)));
    for a in it: accounts.into_iter()
        invariant
            it.seq() == accounts@,
            all == account_views(accounts@),
            super::user_views(users@) == users_of(all.take(it.index())),
    {
        let ghost before = users@;
        assert(all.take(it.index() + 1).drop_last() =~= all.take(it.index()));
        assert(all.take(it.index() + 1).last() == all[it.index()]);
        if let Some(a) = a {
            match account_user(a) {
                Some(u) => {
                    users.push(u);
                    assert(super::user_views(users@) =~= super::user_views(before).push(u@));
                },
                None => {},
            }
        }
    }
    assert(all.take(all.len() as int) =~= all);
    users
}

/// The address of a system's event log, or why there is none.
pub open spec fn log_address(m: MachineView, sys: SystemView) -> Result<Seq<char>, Seq<char>> {
    match sys.odata_id {
        None => Err("system has no @odata.id"@),
        Some(path) => Ok(base_of(m) + path + "/LogServices/SEL/Entries"@),
    }
}

/// The address of the system's event log.
pub fn sel_url(machine: &Machine, system: Result<System, String>) -> (r: Result<String, String>)
    ensures
        match system {
            Err(e) => r == Err::<String, String>(e),
            Ok(sys) => match sys@.odata_id {
                None => r is Err && r->Err_0@ == "system has no @odata.id"@,
                Some(path) => r is Ok && r->Ok_0@ == base_of(machine@) + path
                    + "/LogServices/SEL/Entries"@,
            },
        },
        system matches Ok(sys) ==> match log_address(machine@, sys@) {
            Ok(address) => r matches Ok(a) && a@ == address,
            Err(error) => r matches Err(e) && e@ == error,
        },
{
    match system {
        Err(e) => Err(e),
        Ok(sys) => match sys.odata_id {
            None => Err("system has no @odata.id".to_owned()),
            Some(path) => {
                let system_url = url(machine, path.as_str());
                Ok(text::join2(system_url.as_str(), "/LogServices/SEL/Entries"))
            },
        },
    }
}

/// The event that a log entry describes.
pub open spec fn event_of(e: EntryView) -> SelEntryView {
    SelEntryView {
        id: or_blank(e.id),
        when: or_blank(e.created),
        sensor: or_blank(e.sensor_type),
        text: or_blank(e.message),
        severity: severity_named(e.severity),
    }
}

pub fn entry_event(e: Entry) -> (r: SelEntry)
    ensures
        r@ == event_of(e@),
{
    SelEntry {
        severity: parse_severity(&e.severity),
        id: text_or_blank(e.id),
        when: text_or_blank(e.created),
        sensor: text_or_blank(e.sensor_type),
        text: text_or_blank(e.message),
    }
}

/// The events of the members of a log, in the collection's order.
pub open spec fn events_in(collection: serde_json::Value, n: nat) -> Seq<SelEntryView> {
    Seq::new(n, |i: int| event_of(entry_in(collection, i as nat)))
}

/// The SEL in the reply to [`sel_url`], newest first by the instants that the
/// members' times name; entries whose time names none come last. Entries of one time
/// stay in the collection's order.
pub fn sel_list(collection: &serde_json::Value) -> (r: Result<Vec<SelEntry>, String>)
    ensures
        match at(json_arrays(*collection), "/Members"@) {
            Some(n) => {
                &&& r is Ok
                &&& super::entry_views(r->Ok_0@) == log::newest_first(
                    events_in(*collection, n as nat),
                )
                &&& log::in_order(super::entry_views(r->Ok_0@))
                &&& super::entry_views(r->Ok_0@).to_multiset() == events_in(
                    *collection,
                    n as nat,
                ).to_multiset()
            },
            None => r is Err && r->Err_0@ == "SEL collection has no Members"@,
        },
{
    let n: usize = match array_at(collection, "/Members") {
        Some(n) => n,
        None => {
            return Err("SEL collection has no Members".to_owned());
        },
    };
    let mut entries: Vec<SelEntry> = Vec::new();
    for i in 0..n
        invariant
            entries@.len() == i,
            forall|j: int|
                0 <= j < i ==> (#[trigger] entries@[j])@ == event_of(
                    entry_in(*collection, j as nat),
                ),
    {
        entries.push(entry_event(Entry::read(collection, i)));
    }
    assert(super::entry_views(entries@) =~= events_in(*collection, n as nat));
    proof {
        log::the_newest_comes_first(events_in(*collection, n as nat));
        log::no_entry_is_lost(events_in(*collection, n as nat));
    }
    Ok(log::put_in_order(entries))
}

/// What is set is what a later poll shows: a system that reports the fields of a
/// request to set a boot override has the override that the action is shown with
/// until then, and the cleared one has none.
pub proof fn a_set_override_is_read_back(sys: SystemView, action: BootAction, persistent: bool)
    requires
        sys.boot_enabled == Some(boot_fields(action, persistent)[0].1),
        action.target() is Some ==> sys.boot_target == Some(boot_fields(action, persistent)[1].1),
    ensures
        boot_in(sys) == action.shown_after(),
{
    reveal_strlit("Once");
    reveal_strlit("Continuous");
    reveal_strlit("Disabled");
    reveal_strlit("Pxe");
    reveal_strlit("Hdd");
    reveal_strlit("BiosSetup");
    reveal_strlit("Cd");
    reveal_strlit("None");
    assert("Disabled"@.len() == 8);
    assert("Once"@.len() == 4);
    assert("Continuous"@.len() == 10);
    assert("Pxe"@[0] == 'P');
    assert("Hdd"@[0] == 'H');
    assert("BiosSetup"@[0] == 'B');
    assert("Cd"@[0] == 'C');
}

} // verus!
