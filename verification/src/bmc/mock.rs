//! Mock backend for demo mode: deterministic fake statuses, no hardware.
//!
//! Values are derived from the host string so a given demo machine always
//! renders the same way (stable for screenshots), while the set as a whole
//! exercises every visual state: on/off, ok/warn/crit, slow, unreachable, and
//! MAC-mismatch rows.
//!
//! Each answer comes with a delay of its own, in milliseconds, so that the
//! states before it are briefly visible.

use vstd::prelude::*;

use super::{
    BmcUser, BmcUserView, BootAction, BootOverride, Health, Overview, PowerAction, PowerPoll,
    PowerPollView, PowerState, SelEntry, SelEntryView,
};
use crate::inventory::{Machine, MachineView};
use crate::text;

verus! {

/// The bytes folded into one number of 32 bits.
pub open spec fn folded(bytes: Seq<u8>) -> u32
    decreases bytes.len(),
{
    if bytes.len() == 0 {
        0
    } else {
        ((folded(bytes.drop_last()) * 31 + bytes.last()) % 0x1_0000_0000) as u32
    }
}

/// The number that everything about a machine is derived from.
pub open spec fn seed_of(host: Seq<char>) -> u32 {
    folded(vstd::utf8::encode_utf8(host))
}

pub fn seed(machine: &Machine) -> (r: u32)
    ensures
        r == seed_of(machine@.host),
{
    let bytes = machine.host.as_str().as_bytes();
    let mut a: u32 = 0;
    for i in 0..bytes.len()
        invariant
            a == folded(bytes@.take(i as int)),
    {
        assert(bytes@.take(i + 1).drop_last() == bytes@.take(i as int));
        a = ((a as u64 * 31 + bytes[i] as u64) % 0x1_0000_0000) as u32;
    }
    assert(bytes@.take(bytes@.len() as int) == bytes@);
    a
}

pub open spec fn no_route() -> Seq<char> {
    "no route to host (demo)"@
}

/// What a demo machine replies that would answer with `answer`: one in five cannot
/// be reached.
pub open spec fn reply<T>(m: MachineView, answer: T) -> Result<T, Seq<char>> {
    if seed_of(m.host) % 5 == 0 {
        Err(no_route())
    } else {
        Ok(answer)
    }
}

/// The serial number of a demo machine.
pub open spec fn serial_of(seed: u32) -> Seq<char> {
    "OD"@ + text::pad_left(text::decimal((seed % 1_000_000) as nat), 6, '0') + "S"@
}

fn serial(seed: u32) -> (r: String)
    ensures
        r@ == serial_of(seed),
{
    let n = text::to_decimal((seed % 1_000_000) as u64);
    let digits = text::padded_left(n.as_str(), 6, '0');
    text::join3("OD", digits.as_str(), "S")
}

/// What a power poll of a demo machine finds. One in five is unreachable, one
/// bucket reports a wrong MAC address, and some look slow without taking that
/// long; faults, identify LEDs and boot overrides are sprinkled in.
pub open spec fn power_of(m: MachineView) -> PowerPollView {
    let seed = seed_of(m.host);
    if seed % 5 == 0 {
        super::not_reached(no_route())
    } else {
        PowerPollView {
            reachable: true,
            power: if seed % 3 == 0 {
                PowerState::Off
            } else {
                PowerState::On
            },
            serial: Some(serial_of(seed)),
            mac: if seed % 8 == 0 {
                Some("00:00:00:00:00:00"@)
            } else {
                m.mac
            },
            latency: if seed % 6 == 0 {
                12_000_000_000
            } else {
                ((20 + seed % 80) * 1_000_000) as u128
            },
            fault: seed % 4 == 0,
            identify: seed % 9 == 0,
            boot: if seed % 7 == 0 {
                BootOverride::Pxe
            } else if seed % 7 == 3 {
                BootOverride::Disk
            } else {
                BootOverride::Unset
            },
            error: None,
        }
    }
}

pub fn poll_power(machine: &Machine) -> (r: PowerPoll)
    ensures
        r@ == power_of(machine@),
{
    let seed: u32 = seed(machine);
    if seed % 5 == 0 {
        return PowerPoll::unreachable("no route to host (demo)".to_owned());
    }
    let mut poll = PowerPoll::reachable();
    poll.power = if seed % 3 == 0 {
        PowerState::Off
    } else {
        PowerState::On
    };
    poll.serial = Some(serial(seed));
    poll.mac = if seed % 8 == 0 {
        Some("00:00:00:00:00:00".to_owned())
    } else {
        text::copy_option(&machine.mac)
    };
    poll.latency = if seed % 6 == 0 {
        12_000_000_000
    } else {
        (20 + (seed % 80) as u128) * 1_000_000
    };
    poll.fault = seed % 4 == 0;
    poll.identify = seed % 9 == 0;
    poll.boot = match seed % 7 {
        0 => BootOverride::Pxe,
        3 => BootOverride::Disk,
        _ => BootOverride::Unset,
    };
    poll
}

/// How long a demo power poll takes, in milliseconds.
pub fn power_delay(machine: &Machine) -> (r: u64)
    ensures
        r == 150 + seed_of(machine@.host) % 600,
{
    150 + (seed(machine) % 600) as u64
}

pub open spec fn health_of(m: MachineView) -> Health {
    let k = seed_of(m.host) % 7;
    if k == 0 {
        Health::Critical
    } else if k == 1 || k == 2 {
        Health::Warning
    } else {
        Health::Nominal
    }
}

pub fn poll_health(machine: &Machine) -> (r: Option<Health>)
    ensures
        r == Some(health_of(machine@)),
{
    Some(
        match seed(machine) % 7 {
            0 => Health::Critical,
            1 | 2 => Health::Warning,
            _ => Health::Nominal,
        },
    )
}

/// How long a demo action takes, in milliseconds.
pub const ACTION_DELAY: u64 = 250;

/// Pretend to issue a power action: always succeeds.
pub fn power(_machine: &Machine, _action: PowerAction) -> (r: Result<(), String>)
    ensures
        r is Ok,
{
    Ok(())
}

/// Pretend to set a boot override: always succeeds.
pub fn set_boot(_machine: &Machine, _action: BootAction) -> (r: Result<(), String>)
    ensures
        r is Ok,
{
    Ok(())
}

/// How long fetching the overview or the users of a demo machine takes, in
/// milliseconds.
pub fn fetch_delay(machine: &Machine) -> (r: u64)
    ensures
        r == 100 + seed_of(machine@.host) % 250,
{
    100 + (seed(machine) % 250) as u64
}

pub open spec fn model_name(k: int) -> Seq<char> {
    if k == 0 {
        "X11DPT-B"@
    } else if k == 1 {
        "X12STH-F"@
    } else {
        "H12SSL-i"@
    }
}

pub open spec fn cpu_name(k: int) -> Seq<char> {
    if k == 0 {
        "2× Xeon Gold 6330"@
    } else if k == 1 {
        "2× Xeon Silver 4314"@
    } else {
        "1× EPYC 7443P"@
    }
}

pub open spec fn memory_size(k: int) -> Seq<char> {
    if k == 0 {
        "256 GiB"@
    } else if k == 1 {
        "512 GiB"@
    } else if k == 2 {
        "128 GiB"@
    } else {
        "1024 GiB"@
    }
}

/// The overview facts of a demo machine.
pub open spec fn overview_of(m: MachineView) -> Seq<(Seq<char>, Seq<char>)> {
    let seed = seed_of(m.host);
    seq![
        (
            "Power"@,
            if seed % 3 == 0 {
                "off"@
            } else {
                "on"@
            },
        ),
        ("Vendor"@, "Supermicro (demo)"@),
        ("Product"@, model_name((seed % 3) as int)),
        ("Serial"@, serial_of(seed)),
        (
            "BMC Firmware"@,
            "1."@ + text::decimal((seed % 9) as nat) + "."@ + text::decimal((seed % 90) as nat),
        ),
        ("BIOS"@, "3."@ + text::decimal((seed % 6) as nat)),
        ("IPMI Version"@, "2.0"@),
        ("CPU"@, cpu_name((seed % 3) as int)),
        ("Memory"@, memory_size((seed % 4) as int)),
        (
            "BMC MAC"@,
            match m.mac {
                Some(mac) => mac,
                None => "—"@,
            },
        ),
        ("BMC IP"@, m.host),
    ]
}

fn fact(label: &str, value: &str) -> (r: (String, String))
    ensures
        r.0@ == label@,
        r.1@ == value@,
{
    (label.to_owned(), value.to_owned())
}

pub open spec fn overview_reply(m: MachineView) -> Result<Seq<(Seq<char>, Seq<char>)>, Seq<char>> {
    reply(m, overview_of(m))
}

/// Synthesize deterministic Overview facts.
pub fn overview(machine: &Machine) -> (r: Result<Overview, String>)
    ensures
        match overview_reply(machine@) {
            Ok(answer) => r matches Ok(v) && text::string_pairs(v@) == answer,
            Err(error) => r matches Err(e) && e@ == error,
        },
{
    let seed: u32 = seed(machine);
    if seed % 5 == 0 {
        return Err("no route to host (demo)".to_owned());
    }
    let mut ov: Overview = Vec::new();
    ov.push(
        fact(
            "Power",
            if seed % 3 == 0 {
                "off"
            } else {
                "on"
            },
        ),
    );
    ov.push(fact("Vendor", "Supermicro (demo)"));
    ov.push(
        fact(
            "Product",
            match seed % 3 {
                0 => "X11DPT-B",
                1 => "X12STH-F",
                _ => "H12SSL-i",
            },
        ),
    );
    ov.push(("Serial".to_owned(), serial(seed)));
    let major = text::to_decimal((seed % 9) as u64);
    let minor = text::to_decimal((seed % 90) as u64);
    let mut firmware = text::join3("1.", major.as_str(), ".");
    firmware.append(minor.as_str());
    ov.push(("BMC Firmware".to_owned(), firmware));
    let bios = text::to_decimal((seed % 6) as u64);
    ov.push(("BIOS".to_owned(), text::join2("3.", bios.as_str())));
    ov.push(fact("IPMI Version", "2.0"));
    ov.push(
        fact(
            "CPU",
            match seed % 3 {
                0 => "2× Xeon Gold 6330",
                1 => "2× Xeon Silver 4314",
                _ => "1× EPYC 7443P",
            },
        ),
    );
    ov.push(
        fact(
            "Memory",
            match seed % 4 {
                0 => "256 GiB",
                1 => "512 GiB",
                2 => "128 GiB",
                _ => "1024 GiB",
            },
        ),
    );
    ov.push(
        fact(
            "BMC MAC",
            match &machine.mac {
                Some(mac) => mac.as_str(),
                None => "—",
            },
        ),
    );
    ov.push(fact("BMC IP", machine.host.as_str()));
    assert(text::string_pairs(ov@) =~= overview_of(machine@));
    Ok(ov)
}

pub open spec fn account(
    id: Seq<char>,
    name: Seq<char>,
    privilege: Seq<char>,
    enabled: bool,
) -> BmcUserView {
    BmcUserView { id, name, privilege, enabled }
}

/// The accounts of a demo machine; every other machine has a disabled one.
pub open spec fn users_of(seed: u32) -> Seq<BmcUserView> {
    let users = seq![
        account("2"@, "ADMIN"@, "ADMINISTRATOR"@, true),
        account("3"@, "operator"@, "OPERATOR"@, true),
        account("4"@, "monitor"@, "USER"@, true),
    ];
    if seed % 2 == 0 {
        users.push(account("5"@, "svc-disabled"@, "NO ACCESS"@, false))
    } else {
        users
    }
}

fn user(id: &str, name: &str, privilege: &str, enabled: bool) -> (r: BmcUser)
    ensures
        r@ == account(id@, name@, privilege@, enabled),
{
    BmcUser {
        id: id.to_owned(),
        name: name.to_owned(),
        privilege: privilege.to_owned(),
        enabled,
    }
}

pub open spec fn users_reply(m: MachineView) -> Result<Seq<BmcUserView>, Seq<char>> {
    reply(m, users_of(seed_of(m.host)))
}

/// Synthesize a deterministic user list.
pub fn users(machine: &Machine) -> (r: Result<Vec<BmcUser>, String>)
    ensures
        match users_reply(machine@) {
            Ok(answer) => r matches Ok(v) && super::user_views(v@) == answer,
            Err(error) => r matches Err(e) && e@ == error,
        },
{
    let seed: u32 = seed(machine);
    if seed % 5 == 0 {
        return Err("no route to host (demo)".to_owned());
    }
    let mut users: Vec<BmcUser> = Vec::new();
    users.push(user("2", "ADMIN", "ADMINISTRATOR", true));
    users.push(user("3", "operator", "OPERATOR", true));
    users.push(user("4", "monitor", "USER", true));
    if seed % 2 == 0 {
        users.push(user("5", "svc-disabled", "NO ACCESS", false));
    }
    assert(super::user_views(users@) =~= users_of(seed));
    Ok(users)
}

/// The events that a demo log repeats: severity, sensor and text.
pub open spec fn sample(k: int) -> (Health, Seq<char>, Seq<char>) {
    if k == 0 {
        (Health::Nominal, "Power Unit"@, "Power on (asserted)"@)
    } else if k == 1 {
        (Health::Warning, "Temperature"@, "Upper Non-critical going high (asserted)"@)
    } else if k == 2 {
        (Health::Critical, "Power Supply"@, "Failure detected (asserted)"@)
    } else if k == 3 {
        (Health::Nominal, "System Event"@, "OEM boot event (asserted)"@)
    } else if k == 4 {
        (Health::Critical, "Memory"@, "Uncorrectable ECC (asserted)"@)
    } else if k == 5 {
        (Health::Warning, "Fan"@, "Lower Non-critical going low (asserted)"@)
    } else {
        (Health::Nominal, "Temperature"@, "Upper Critical going high (deasserted)"@)
    }
}

fn sample_at(k: u64) -> (r: (Health, &'static str, &'static str))
    ensures
        r.0 == sample(k as int).0,
        r.1@ == sample(k as int).1,
        r.2@ == sample(k as int).2,
{
    match k {
        0 => (Health::Nominal, "Power Unit", "Power on (asserted)"),
        1 => (Health::Warning, "Temperature", "Upper Non-critical going high (asserted)"),
        2 => (Health::Critical, "Power Supply", "Failure detected (asserted)"),
        3 => (Health::Nominal, "System Event", "OEM boot event (asserted)"),
        4 => (Health::Critical, "Memory", "Uncorrectable ECC (asserted)"),
        5 => (Health::Warning, "Fan", "Lower Non-critical going low (asserted)"),
        _ => (Health::Nominal, "Temperature", "Upper Critical going high (deasserted)"),
    }
}

/// A number of at least two decimal digits.
pub open spec fn two_digits(n: nat) -> Seq<char> {
    text::pad_left(text::decimal(n), 2, '0')
}

fn to_two_digits(n: u64) -> (r: String)
    ensures
        r@ == two_digits(n as nat),
{
    let d = text::to_decimal(n);
    text::padded_left(d.as_str(), 2, '0')
}

/// The `i`th record of a demo log, the oldest first.
pub open spec fn record(seed: u32, i: nat) -> SelEntryView {
    let (severity, sensor, event) = sample(((seed + i) % 7) as int);
    SelEntryView {
        id: text::decimal(i + 1),
        when: "06/"@ + two_digits(1 + i % 27) + "/2026 "@ + (two_digits((8 + i) % 24) + ":"@
            + two_digits((i * 7) % 60)) + (":"@ + two_digits((i * 13) % 60)),
        sensor: sensor + " #0x"@ + text::pad_left(text::numeral(0x30 + i, 16), 2, '0'),
        text: event,
        severity,
    }
}

fn make_record(seed: u32, i: u64) -> (r: SelEntry)
    requires
        i < 1000,
    ensures
        r@ == record(seed, i as nat),
{
    let (severity, sensor, event) = sample_at((seed as u64 + i) % 7);
    let day = to_two_digits(1 + i % 27);
    let hour = to_two_digits((8 + i) % 24);
    let minute = to_two_digits((i * 7) % 60);
    let second = to_two_digits((i * 13) % 60);
    let clock = text::join3(hour.as_str(), ":", minute.as_str());
    let secs = text::join2(":", second.as_str());
    let mut when = text::join3("06/", day.as_str(), "/2026 ");
    when.append(clock.as_str());
    when.append(secs.as_str());
    let n = text::to_numeral(0x30 + i, 16);
    let number = text::padded_left(n.as_str(), 2, '0');
    SelEntry {
        id: text::to_decimal(i + 1),
        when,
        sensor: text::join3(sensor, " #0x", number.as_str()),
        text: event.to_owned(),
        severity,
    }
}

/// The log of a demo machine, the oldest record first.
pub open spec fn log_of(seed: u32) -> Seq<SelEntryView> {
    Seq::new((5 + seed % 10) as nat, |i: int| record(seed, i as nat))
}

/// How long fetching the log of a demo machine takes, in milliseconds.
pub fn log_delay(machine: &Machine) -> (r: u64)
    ensures
        r == 120 + seed_of(machine@.host) % 300,
{
    120 + (seed(machine) % 300) as u64
}

pub open spec fn log_reply(m: MachineView) -> Result<Seq<SelEntryView>, Seq<char>> {
    reply(m, log_of(seed_of(m.host)).reverse())
}

/// Synthesize a deterministic SEL, newest first. Unreachable demo rows error,
/// mirroring the list, so the detail view exercises that path too.
pub fn sel_list(machine: &Machine) -> (r: Result<Vec<SelEntry>, String>)
    ensures
        match log_reply(machine@) {
            Ok(answer) => r matches Ok(v) && super::entry_views(v@) == answer,
            Err(error) => r matches Err(e) && e@ == error,
        },
{
    let seed: u32 = seed(machine);
    if seed % 5 == 0 {
        return Err("no route to host (demo)".to_owned());
    }
    let count: u64 = 5 + (seed % 10) as u64;
    let mut entries: Vec<SelEntry> = Vec::new();
    for i in 0..count
        invariant
            count == 5 + seed % 10,
            entries@.len() == i,
            forall|j: int| 0 <= j < i ==> (#[trigger] entries@[j])@ == record(seed, j as nat),
    {
        entries.push(make_record(seed, i));
    }
    assert(super::entry_views(entries@) =~= log_of(seed));
    Ok(super::reversed(entries))
}

/// A demo machine answers the same way in every view: the power poll, the
/// overview, the users and the log fail together and with one error, and the
/// overview tells the power state and the serial that the poll found.
pub proof fn the_demo_is_consistent(m: MachineView)
    ensures
        power_of(m).reachable <==> overview_reply(m) is Ok,
        power_of(m).reachable <==> users_reply(m) is Ok,
        power_of(m).reachable <==> log_reply(m) is Ok,
        !power_of(m).reachable ==> {
            &&& power_of(m).error == Some(overview_reply(m)->Err_0)
            &&& power_of(m).error == Some(users_reply(m)->Err_0)
            &&& power_of(m).error == Some(log_reply(m)->Err_0)
        },
        power_of(m).reachable ==> {
            let facts = overview_reply(m)->Ok_0;
            &&& facts[0].1 == if power_of(m).power is On {
                "on"@
            } else {
                "off"@
            }
            &&& power_of(m).serial == Some(facts[3].1)
        },
{
}

/// The log of a demo machine is numbered from one and shows the last number first.
pub proof fn the_demo_log_counts_down(m: MachineView, i: int)
    requires
        log_reply(m) is Ok,
        0 <= i < log_reply(m)->Ok_0.len(),
    ensures
        ({
            let log = log_reply(m)->Ok_0;
            &&& 5 <= log.len() <= 14
            &&& log[i].id == text::decimal((log.len() - i) as nat)
        }),
{
}

/// The accounts of a demo machine: an administrator, an operator and a user, all
/// enabled, and on every other machine one that is not.
pub proof fn the_demo_accounts(m: MachineView)
    requires
        users_reply(m) is Ok,
    ensures
        ({
            let u = users_reply(m)->Ok_0;
            &&& 3 <= u.len() <= 4
            &&& u[0].privilege == "ADMINISTRATOR"@ && u[0].enabled
            &&& u[1].privilege == "OPERATOR"@ && u[1].enabled
            &&& u[2].privilege == "USER"@ && u[2].enabled
            &&& u.len() == 4 ==> !u[3].enabled
            &&& u.len() == 4 <==> seed_of(m.host) % 2 == 0
        }),
{
}

} // verus!
