//! Machine inventory: the list of BMCs fishtank polls.
//!
//! The inventory document gives machines and defaults; here the defaults are
//! folded in. fishtank does no decryption or secret management of its own:
//! that is left to whatever produces the inventory.

use vstd::prelude::*;

use crate::text::{self, copy_option};

verus! {

/// Default power/boot-state poll interval if the inventory doesn't set one.
pub const DEFAULT_POLL_INTERVAL_SECS: u64 = 30;

/// Default health (sensor) poll interval. Health changes slowly and the read is
/// expensive over IPMI, so it runs on a slower beat than the power poll.
pub const DEFAULT_HEALTH_INTERVAL_SECS: u64 = 120;

/// Which protocol to use when talking to a machine's BMC.
#[derive(Debug, Clone, Copy, PartialEq, Eq, Structural)]
pub enum Protocol {
    Ipmi,
    Redfish,
}

impl Protocol {
    pub open spec fn name(self) -> Seq<char> {
        match self {
            Protocol::Ipmi => "ipmi"@,
            Protocol::Redfish => "redfish"@,
        }
    }

    /// The protocol's name as it is shown and as the inventory spells it.
    pub fn label(self) -> (r: &'static str)
        ensures
            r@ == self.name(),
    {
        match self {
            Protocol::Ipmi => "ipmi",
            Protocol::Redfish => "redfish",
        }
    }
}

/// A fully-resolved machine, ready to poll (defaults already folded in).
#[derive(Debug)]
pub struct Machine {
    pub name: String,
    pub protocol: Protocol,
    /// BMC IP or hostname.
    pub host: String,
    /// BMC MAC address, if known from the inventory.
    pub mac: Option<String>,
    /// Serial known from the inventory; otherwise discovered by polling.
    pub serial: Option<String>,
    pub username: String,
    pub password: String,
    // Redfish-only knobs:
    pub scheme: String,
    pub port: Option<u16>,
    pub insecure: bool,
}

/// The texts and settings of a [`Machine`].
pub struct MachineView {
    pub name: Seq<char>,
    pub protocol: Protocol,
    pub host: Seq<char>,
    pub mac: Option<Seq<char>>,
    pub serial: Option<Seq<char>>,
    pub username: Seq<char>,
    pub password: Seq<char>,
    pub scheme: Seq<char>,
    pub port: Option<u16>,
    pub insecure: bool,
}

impl View for Machine {
    type V = MachineView;

    open spec fn view(&self) -> MachineView {
        MachineView {
            name: self.name@,
            protocol: self.protocol,
            host: self.host@,
            mac: text::text_of(self.mac),
            serial: text::text_of(self.serial),
            username: self.username@,
            password: self.password@,
            scheme: self.scheme@,
            port: self.port,
            insecure: self.insecure,
        }
    }
}

impl Clone for Machine {
    fn clone(&self) -> (r: Self)
        ensures
            r == *self,
    {
        Machine {
            name: self.name.clone(),
            protocol: self.protocol,
            host: self.host.clone(),
            mac: copy_option(&self.mac),
            serial: copy_option(&self.serial),
            username: self.username.clone(),
            password: self.password.clone(),
            scheme: self.scheme.clone(),
            port: self.port,
            insecure: self.insecure,
        }
    }
}

/// The resolved inventory handed to the app.
#[derive(Debug)]
pub struct Inventory {
    pub machines: Vec<Machine>,
    /// How often to poll power/boot-state.
    pub poll_interval_secs: u64,
    /// How often to poll health (sensors): slower, the read is expensive.
    pub health_interval_secs: u64,
}

/// The machines of a vector, by their views.
pub open spec fn machine_views(v: Seq<Machine>) -> Seq<MachineView> {
    v.map_values(|m: Machine| m@)
}

// --- Raw (on-the-wire) shapes ----------------------------------------------

/// The inventory document as it is written.
#[derive(Debug)]
pub struct RawConfig {
    pub defaults: Defaults,
    pub machines: Vec<RawMachine>,
}

/// Settings folded into every machine that does not set its own.
#[derive(Debug)]
pub struct Defaults {
    pub username: Option<String>,
    pub password: Option<String>,
    pub poll_interval_secs: Option<u64>,
    pub health_interval_secs: Option<u64>,
    pub insecure: Option<bool>,
}

/// One machine as the document gives it.
#[derive(Debug)]
pub struct RawMachine {
    pub name: String,
    pub protocol: Protocol,
    pub host: String,
    pub mac: Option<String>,
    pub serial: Option<String>,
    pub username: Option<String>,
    pub password: Option<String>,
    pub scheme: Option<String>,
    pub port: Option<u16>,
    pub insecure: Option<bool>,
}

/// The first of the two that is set, else the last resort.
pub open spec fn first_set<T>(own: Option<T>, default: Option<T>, last: T) -> T {
    match (own, default) {
        (Some(v), _) => v,
        (None, Some(v)) => v,
        (None, None) => last,
    }
}

/// A machine with the defaults folded in: its own setting wins, then the
/// document's default, then the built-in one.
pub open spec fn resolved(m: RawMachine, d: Defaults) -> MachineView {
    MachineView {
        name: m.name@,
        protocol: m.protocol,
        host: m.host@,
        mac: text::text_of(m.mac),
        serial: text::text_of(m.serial),
        username: first_set(text::text_of(m.username), text::text_of(d.username), "ADMIN"@),
        password: first_set(text::text_of(m.password), text::text_of(d.password), Seq::empty()),
        scheme: first_set(text::text_of(m.scheme), None, "https"@),
        port: m.port,
        insecure: first_set(m.insecure, d.insecure, false),
    }
}

/// A machine's own settings win over the document's defaults, and what neither
/// sets has its built-in value.
pub proof fn own_settings_beat_defaults(m: RawMachine, d: Defaults)
    ensures
        m.username is Some ==> resolved(m, d).username == m.username->0@,
        m.username is None && d.username is Some ==> resolved(m, d).username == d.username->0@,
        m.username is None && d.username is None ==> resolved(m, d).username == "ADMIN"@,
        m.password is Some ==> resolved(m, d).password == m.password->0@,
        m.password is None && d.password is Some ==> resolved(m, d).password == d.password->0@,
        m.scheme is None ==> resolved(m, d).scheme == "https"@,
        m.insecure is Some ==> resolved(m, d).insecure == m.insecure->0,
        m.insecure is None && d.insecure is None ==> !resolved(m, d).insecure,
{
}

/// What a machine does not share with others is taken as the document gives it, and
/// the two settings that the defaults can give too fall back to them.
pub proof fn a_machine_is_what_the_document_gives(m: RawMachine, d: Defaults)
    ensures
        ({
            let r = resolved(m, d);
            &&& r.name == m.name@
            &&& r.protocol == m.protocol
            &&& r.host == m.host@
            &&& m.mac is Some ==> r.mac == Some(m.mac->0@)
            &&& m.mac is None ==> r.mac is None
            &&& m.serial is Some ==> r.serial == Some(m.serial->0@)
            &&& m.serial is None ==> r.serial is None
            &&& r.port == m.port
            &&& m.scheme is Some ==> r.scheme == m.scheme->0@
            &&& m.password is None && d.password is None ==> r.password.len() == 0
            &&& m.insecure is None && d.insecure is Some ==> r.insecure == d.insecure->0
        }),
{
}

/// How often the power is polled, in seconds.
pub open spec fn power_seconds(d: Defaults) -> u64 {
    first_set(d.poll_interval_secs, None, DEFAULT_POLL_INTERVAL_SECS)
}

/// How often the health is polled, in seconds.
pub open spec fn health_seconds(d: Defaults) -> u64 {
    first_set(d.health_interval_secs, None, DEFAULT_HEALTH_INTERVAL_SECS)
}

/// The poll intervals are those of the document; where it gives none, half a minute
/// for the power and two minutes for the health.
pub proof fn the_poll_intervals(d: Defaults)
    ensures
        d.poll_interval_secs is Some ==> power_seconds(d) == d.poll_interval_secs->0,
        d.poll_interval_secs is None ==> power_seconds(d) == 30,
        d.health_interval_secs is Some ==> health_seconds(d) == d.health_interval_secs->0,
        d.health_interval_secs is None ==> health_seconds(d) == 120,
{
}

fn fold_text(own: Option<String>, default: &Option<String>, last: &str) -> (r: String)
    ensures
        r@ == first_set(text::text_of(own), text::text_of(*default), last@),
{
    match own {
        Some(s) => s,
        None => match default {
            Some(s) => s.clone(),
            None => last.to_owned(),
        },
    }
}

fn resolve(m: RawMachine, d: &Defaults) -> (r: Machine)
    ensures
        r@ == resolved(m, *d),
{
    proof {
        reveal_strlit("");
    }
    let insecure = match m.insecure {
        Some(b) => b,
        None => match d.insecure {
            Some(b) => b,
            None => false,
        },
    };
    let password = fold_text(m.password, &d.password, "");
    assert(""@ == Seq::<char>::empty());
    Machine {
        username: fold_text(m.username, &d.username, "ADMIN"),
        password,
        scheme: fold_text(m.scheme, &None, "https"),
        insecure,
        name: m.name,
        protocol: m.protocol,
        host: m.host,
        mac: m.mac,
        serial: m.serial,
        port: m.port,
    }
}

/// One machine of the built-in demo inventory.
pub open spec fn demo_machine(
    name: Seq<char>,
    protocol: Protocol,
    host: Seq<char>,
    mac: Seq<char>,
) -> MachineView {
    MachineView {
        name,
        protocol,
        host,
        mac: Some(mac),
        serial: None,
        username: "ADMIN"@,
        password: Seq::empty(),
        scheme: "https"@,
        port: None,
        insecure: true,
    }
}

/// The machines of the built-in demo inventory.
pub open spec fn demo_machines() -> Seq<MachineView> {
    seq![
        demo_machine("dc1-r01-node01"@, Protocol::Ipmi, "10.130.128.10"@, "90:5a:08:17:ae:01"@),
        demo_machine("dc1-r01-node02"@, Protocol::Ipmi, "10.130.128.11"@, "90:5a:08:17:ae:02"@),
        demo_machine("dc1-r01-node03"@, Protocol::Ipmi, "10.130.128.12"@, "90:5a:08:17:ae:03"@),
        demo_machine("dc1-r02-node01"@, Protocol::Redfish, "10.130.129.10"@, "90:5a:08:17:bf:01"@),
        demo_machine("dc1-r02-node02"@, Protocol::Redfish, "10.130.129.11"@, "90:5a:08:17:bf:02"@),
        demo_machine("dc2-r01-node01"@, Protocol::Ipmi, "10.131.128.10"@, "90:5a:08:18:ae:01"@),
        demo_machine("dc2-r01-node02"@, Protocol::Ipmi, "10.131.128.13"@, "90:5a:08:18:ae:02"@),
        demo_machine("dc2-r01-node03"@, Protocol::Ipmi, "10.131.128.14"@, "90:5a:08:18:ae:03"@),
    ]
}

/// The demo has eight machines of both protocols, each with a MAC address to check and
/// a serial to discover, and no credentials worth keeping.
pub proof fn the_demo_inventory(i: int)
    requires
        0 <= i < 8,
    ensures
        ({
            let m = demo_machines()[i];
            &&& demo_machines().len() == 8
            &&& m.protocol == Protocol::Redfish <==> i == 3 || i == 4
            &&& m.mac is Some
            &&& m.serial is None
            &&& m.username == "ADMIN"@
            &&& m.password.len() == 0
            &&& m.scheme == "https"@
            &&& m.port is None
        }),
{
}

fn make_demo(name: &str, protocol: Protocol, host: &str, mac: &str) -> (r: Machine)
    ensures
        r@ == demo_machine(name@, protocol, host@, mac@),
{
    Machine {
        name: name.to_owned(),
        protocol,
        host: host.to_owned(),
        mac: Some(mac.to_owned()),
        serial: None,
        username: "ADMIN".to_owned(),
        password: String::new(),
        scheme: "https".to_owned(),
        port: None,
        insecure: true,
    }
}

impl Inventory {
    /// Resolves an inventory document: every machine in order with the defaults
    /// folded in, and the two poll intervals.
    pub fn from_raw(raw: RawConfig) -> (r: Self)
        ensures
            machine_views(r.machines@) == raw.machines@.map_values(
                |m: RawMachine| resolved(m, raw.defaults),
            ),
            r.poll_interval_secs == first_set(
                raw.defaults.poll_interval_secs,
                None,
                DEFAULT_POLL_INTERVAL_SECS,
            ),
            r.health_interval_secs == first_set(
                raw.defaults.health_interval_secs,
                None,
                DEFAULT_HEALTH_INTERVAL_SECS,
            ),
            r.poll_interval_secs == power_seconds(raw.defaults),
            r.health_interval_secs == health_seconds(raw.defaults),
            r.machines@.len() == raw.machines@.len(),
    {
        let d = raw.defaults;
        let ghost all = raw.machines@;
        let ghost want = all.map_values(|m: RawMachine| resolved(m, d));
        let mut machines: Vec<Machine> = Vec::new();
        for m in it: raw.machines.into_iter()
            invariant
                it.seq() == all,
                want == all.map_values(|m: RawMachine| resolved(m, d)),
                machine_views(machines@) == want.take(it.index()),
        {
            let one = resolve(m, &d);
            machines.push(one);
            assert(machine_views(machines@) == want.take(it.index()).push(one@));
            assert(want.take(it.index() + 1) == want.take(it.index()).push(want[it.index()]));
        }
        assert(want.take(want.len() as int) == want);
        Inventory {
            machines,
            poll_interval_secs: d.poll_interval_secs.unwrap_or(DEFAULT_POLL_INTERVAL_SECS),
            health_interval_secs: d.health_interval_secs.unwrap_or(DEFAULT_HEALTH_INTERVAL_SECS),
        }
    }

    /// A built-in fake inventory for the demo mode.
    pub fn demo() -> (r: Self)
        ensures
            machine_views(r.machines@) == demo_machines(),
            r.poll_interval_secs == DEFAULT_POLL_INTERVAL_SECS,
            r.health_interval_secs == DEFAULT_HEALTH_INTERVAL_SECS,
    {
        let mut machines: Vec<Machine> = Vec::new();
        machines.push(
            make_demo("dc1-r01-node01", Protocol::Ipmi, "10.130.128.10", "90:5a:08:17:ae:01"),
        );
        machines.push(
            make_demo("dc1-r01-node02", Protocol::Ipmi, "10.130.128.11", "90:5a:08:17:ae:02"),
        );
        machines.push(
            make_demo("dc1-r01-node03", Protocol::Ipmi, "10.130.128.12", "90:5a:08:17:ae:03"),
        );
        machines.push(
            make_demo("dc1-r02-node01", Protocol::Redfish, "10.130.129.10", "90:5a:08:17:bf:01"),
        );
        machines.push(
            make_demo("dc1-r02-node02", Protocol::Redfish, "10.130.129.11", "90:5a:08:17:bf:02"),
        );
        machines.push(
            make_demo("dc2-r01-node01", Protocol::Ipmi, "10.131.128.10", "90:5a:08:18:ae:01"),
        );
        machines.push(
            make_demo("dc2-r01-node02", Protocol::Ipmi, "10.131.128.13", "90:5a:08:18:ae:02"),
        );
        machines.push(
            make_demo("dc2-r01-node03", Protocol::Ipmi, "10.131.128.14", "90:5a:08:18:ae:03"),
        );
        assert(machine_views(machines@) == demo_machines());
        Inventory {
            machines,
            poll_interval_secs: DEFAULT_POLL_INTERVAL_SECS,
            health_interval_secs: DEFAULT_HEALTH_INTERVAL_SECS,
        }
    }
}

// --- Finding the document ----------------------------------------------------

/// Whether the inventory path stands for standard input.
pub fn reads_stdin(path: &str) -> (r: bool)
    ensures
        r == (path@ == "-"@),
{
    text::same(path, "-")
}

/// A directory that is searched for an inventory.
#[derive(Debug, Clone, Copy, PartialEq, Eq, Structural)]
pub enum SearchDir {
    /// The current directory.
    Current,
    /// The config directory.
    Config,
}

/// The places to look for an inventory, as directory and file name, in order:
/// the current directory before the config directory, JSON5 before JSON.
pub open spec fn places() -> Seq<(SearchDir, Seq<char>)> {
    seq![
        (SearchDir::Current, "fishtank-machines.json5"@),
        (SearchDir::Current, "fishtank-machines.json"@),
        (SearchDir::Config, "fishtank-machines.json5"@),
        (SearchDir::Config, "fishtank-machines.json"@),
    ]
}

/// The current directory is searched before the config directory, and in each the
/// JSON5 file is looked for before the JSON file.
pub proof fn the_order_of_the_places(i: int)
    requires
        0 <= i < 4,
    ensures
        places().len() == 4,
        i < 2 <==> places()[i].0 == SearchDir::Current,
        i >= 2 <==> places()[i].0 == SearchDir::Config,
        i % 2 == 0 ==> places()[i].1 == "fishtank-machines.json5"@,
        i % 2 == 1 ==> places()[i].1 == "fishtank-machines.json"@,
{
}

/// The places to look for an inventory that no path was given for, in order.
pub fn candidates() -> (r: Vec<(SearchDir, &'static str)>)
    ensures
        r@.map_values(|p: (SearchDir, &'static str)| (p.0, p.1@)) == places(),
{
    let mut v: Vec<(SearchDir, &'static str)> = Vec::new();
    v.push((SearchDir::Current, "fishtank-machines.json5"));
    v.push((SearchDir::Current, "fishtank-machines.json"));
    v.push((SearchDir::Config, "fishtank-machines.json5"));
    v.push((SearchDir::Config, "fishtank-machines.json"));
    assert(v@.map_values(|p: (SearchDir, &'static str)| (p.0, p.1@)) == places());
    v
}

/// Which of the places to take: the first that `is_file` marks, if any.
pub fn discover(is_file: &Vec<bool>) -> (r: Option<usize>)
    ensures
        match r {
            Some(i) => i < is_file@.len() && is_file@[i as int] && forall|j: int|
                0 <= j < i ==> !(#[trigger] is_file@[j]),
            None => forall|j: int| 0 <= j < is_file@.len() ==> !(#[trigger] is_file@[j]),
        },
{
    for i in 0..is_file.len()
        invariant
            forall|j: int| 0 <= j < i ==> !(#[trigger] is_file@[j]),
    {
        if is_file[i] {
            return Some(i);
        }
    }
    None
}

} // verus!
