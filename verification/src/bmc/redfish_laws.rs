//! What the documents of a Redfish service mean and what is sent to it.

use vstd::prelude::*;

use super::ipmi_laws;
use super::redfish::{self, AccountView, EntryView, SystemView};
use super::{BootAction, BootOverride, Health, PowerAction, PowerState};
use crate::inventory::MachineView;
use crate::text;

verus! {

// --- documents -----------------------------------------------------------------

/// Where the parts of a system stand in its document; what is not there, or is of
/// another kind, is none.
pub proof fn a_system_is_read_from_its_places(v: serde_json::Value)
    ensures
        ({
            let s = redfish::json_strings(v);
            let sys = redfish::system_in(v);
            &&& found(s, "/@odata.id"@, sys.odata_id)
            &&& found(s, "/PowerState"@, sys.power_state)
            &&& found(s, "/Status/Health"@, sys.health)
            &&& found(redfish::json_bools(v), "/LocationIndicatorActive"@, sys.location_indicator)
            &&& found(s, "/IndicatorLED"@, sys.indicator_led)
            &&& found(s, "/SerialNumber"@, sys.serial_number)
            &&& found(s, "/Boot/BootSourceOverrideEnabled"@, sys.boot_enabled)
            &&& found(s, "/Boot/BootSourceOverrideTarget"@, sys.boot_target)
            &&& found(s, "/Actions/#ComputerSystem.Reset/target"@, sys.reset_target)
            &&& found(s, "/Manufacturer"@, sys.manufacturer)
            &&& found(s, "/Model"@, sys.model)
            &&& found(s, "/SKU"@, sys.sku)
            &&& found(s, "/BiosVersion"@, sys.bios_version)
            &&& found(s, "/ProcessorSummary/Model"@, sys.cpu_model)
            &&& found(redfish::json_naturals(v), "/ProcessorSummary/Count"@, sys.cpu_count)
            &&& found(
                redfish::json_numbers(v),
                "/MemorySummary/TotalSystemMemoryGiB"@,
                sys.memory_gib,
            )
        }),
{
}

/// Whether `o` is what `m` has at `place`, and none if it has nothing there.
pub open spec fn found<V>(m: Map<Seq<char>, V>, place: Seq<char>, o: Option<V>) -> bool {
    &&& o is Some <==> m.dom().contains(place)
    &&& o is Some ==> o->0 == m[place]
}

/// Where the parts of an account and of a log entry stand in their documents. The
/// `i`th entry of a log is the `i`th member of its collection.
pub proof fn accounts_and_entries_are_read_from_their_places(v: serde_json::Value, i: nat)
    ensures
        ({
            let s = redfish::json_strings(v);
            let a = redfish::account_in(v);
            let e = redfish::entry_in(v, i);
            let at = "/Members/"@ + text::decimal(i);
            &&& found(s, "/UserName"@, a.user_name)
            &&& found(s, "/Id"@, a.id)
            &&& found(s, "/RoleId"@, a.role_id)
            &&& found(redfish::json_bools(v), "/Enabled"@, a.enabled)
            &&& found(s, at + "/Severity"@, e.severity)
            &&& found(s, at + "/Id"@, e.id)
            &&& found(s, at + "/Created"@, e.created)
            &&& found(s, at + "/SensorType"@, e.sensor_type)
            &&& found(s, at + "/Message"@, e.message)
        }),
{
}

/// The address of a machine: its scheme and host, and its port if it has one.
pub proof fn the_address_of_a_machine(m: MachineView)
    ensures
        m.port is None ==> redfish::base_of(m) == m.scheme + "://"@ + m.host,
        m.port is Some ==> redfish::base_of(m) == m.scheme + "://"@ + m.host + ":"@
            + text::decimal(m.port->0 as nat),
{
    reveal_strlit("");
    reveal_strlit(":");
    assert(m.scheme + "://"@ + m.host + ""@ =~= m.scheme + "://"@ + m.host);
    if m.port is Some {
        let n = text::decimal(m.port->0 as nat);
        assert(m.scheme + "://"@ + m.host + (":"@ + n) =~= m.scheme + "://"@ + m.host + ":"@ + n);
    }
}

/// The two collections that a service is asked for stand at the machine's own
/// address.
pub proof fn the_collections_of_a_machine(m: MachineView)
    requires
        m.port is None,
    ensures
        redfish::systems_address(m) == m.scheme + "://"@ + m.host + "/redfish/v1/Systems"@,
        redfish::accounts_address(m) == m.scheme + "://"@ + m.host
            + "/redfish/v1/AccountService/Accounts"@,
{
    the_address_of_a_machine(m);
}

// --- polls ---------------------------------------------------------------------

/// The power of a system is what it says, On or Off; anything else tells nothing.
pub proof fn a_system_says_its_power(sys: SystemView)
    ensures
        redfish::power_in(sys) == PowerState::On <==> sys.power_state == Some("On"@),
        redfish::power_in(sys) == PowerState::Off <==> sys.power_state == Some("Off"@),
{
    reveal_strlit("On");
    reveal_strlit("Off");
    assert("On"@.len() == 2 && "Off"@.len() == 3);
}

/// The three words of health and severity; anything else tells nothing.
pub proof fn the_words_of_severity(s: Option<Seq<char>>)
    ensures
        redfish::severity_named(s) == Health::Nominal <==> s == Some("OK"@),
        redfish::severity_named(s) == Health::Warning <==> s == Some("Warning"@),
        redfish::severity_named(s) == Health::Critical <==> s == Some("Critical"@),
{
    reveal_strlit("OK");
    reveal_strlit("Warning");
    reveal_strlit("Critical");
    assert("OK"@.len() == 2 && "Warning"@.len() == 7 && "Critical"@.len() == 8);
}

/// The override of a system is the one that its target names, as long as it is
/// enabled, for the next boot or for every boot; else there is none.
pub proof fn an_enabled_target_is_an_override(sys: SystemView)
    ensures
        ({
            let on = sys.boot_enabled == Some("Once"@) || sys.boot_enabled == Some(
                "Continuous"@,
            );
            let t = sys.boot_target;
            let boot = redfish::boot_in(sys);
            &&& boot == BootOverride::Pxe <==> on && t == Some("Pxe"@)
            &&& boot == BootOverride::Disk <==> on && t == Some("Hdd"@)
            &&& boot == BootOverride::Bios <==> on && t == Some("BiosSetup"@)
            &&& boot == BootOverride::Cd <==> on && t == Some("Cd"@)
            &&& boot == BootOverride::Unset <==> !on || t is None || t == Some("None"@)
        }),
{
    reveal_strlit("Pxe");
    reveal_strlit("Hdd");
    reveal_strlit("BiosSetup");
    reveal_strlit("Cd");
    reveal_strlit("None");
    assert("Pxe"@[0] == 'P' && "Hdd"@[0] == 'H' && "BiosSetup"@[0] == 'B' && "Cd"@[0] == 'C');
    assert("None"@[0] == 'N');
}

/// What a poll makes of a system: its power and override, a fault if its health is a
/// warning or critical, identify if its indicator is active, lit or blinking, and its
/// serial. It has no MAC address and no error.
pub proof fn a_poll_of_a_system(sys: SystemView)
    ensures
        ({
            let p = redfish::poll_of(sys);
            &&& p.reachable
            &&& p.power == redfish::power_in(sys)
            &&& p.boot == redfish::boot_in(sys)
            &&& p.fault <==> sys.health == Some("Warning"@) || sys.health == Some("Critical"@)
            &&& p.identify <==> sys.location_indicator == Some(true) || sys.indicator_led == Some(
                "Lit"@,
            ) || sys.indicator_led == Some("Blinking"@)
            &&& p.serial == sys.serial_number
            &&& p.mac is None
            &&& p.error is None
            &&& p.latency == 0
        }),
{
}

// --- requests ------------------------------------------------------------------

/// A power action is sent to the system's own reset address, with its own word; a
/// system without one cannot be reset.
pub proof fn a_power_action_is_sent_to_the_reset_address(
    m: MachineView,
    sys: SystemView,
    action: PowerAction,
)
    ensures
        ({
            let r = redfish::power_request(m, sys, action);
            let q = r->Ok_0;
            &&& r is Ok <==> sys.reset_target is Some
            &&& r is Err ==> r->Err_0 == "no reset action on system"@
            &&& r is Ok ==> {
                &&& q.url == redfish::base_of(m) + sys.reset_target->0
                &&& q.object is None
                &&& q.fields.len() == 1
                &&& q.fields[0].0 == "ResetType"@
                &&& action == PowerAction::On ==> q.fields[0].1 == "On"@
                &&& action == PowerAction::ForceOff ==> q.fields[0].1 == "ForceOff"@
                &&& action == PowerAction::SoftOff ==> q.fields[0].1 == "GracefulShutdown"@
                &&& action == PowerAction::Cycle ==> q.fields[0].1 == "PowerCycle"@
                &&& action == PowerAction::Reset ==> q.fields[0].1 == "ForceRestart"@
            }
        }),
{
}

/// A boot action is sent to the system itself, as its `Boot` object; a system without
/// an address cannot be set.
pub proof fn a_boot_action_is_sent_to_the_system(
    m: MachineView,
    sys: SystemView,
    action: BootAction,
    persistent: bool,
)
    ensures
        ({
            let r = redfish::boot_request(m, sys, action, persistent);
            let q = r->Ok_0;
            &&& r is Ok <==> sys.odata_id is Some
            &&& r is Err ==> r->Err_0 == "system has no @odata.id"@
            &&& r is Ok ==> {
                &&& q.url == redfish::base_of(m) + sys.odata_id->0
                &&& q.object == Some("Boot"@)
                &&& q.fields == redfish::boot_fields(action, persistent)
            }
        }),
{
}

/// The event log stands below the system.
pub proof fn the_log_stands_below_the_system(m: MachineView, sys: SystemView)
    ensures
        redfish::log_address(m, sys) is Ok <==> sys.odata_id is Some,
        sys.odata_id is Some ==> redfish::log_address(m, sys)->Ok_0 == redfish::base_of(m)
            + sys.odata_id->0 + "/LogServices/SEL/Entries"@,
        sys.odata_id is None ==> redfish::log_address(m, sys)->Err_0 == "system has no @odata.id"@,
{
}

// --- overview, users, event log ------------------------------------------------

/// The overview tells each fact under its label.
pub proof fn the_overview_tells_each_fact(sys: SystemView)
    ensures
        ({
            let ov = redfish::overview_of(sys);
            &&& ipmi_laws::tells(ov, "Power"@, sys.power_state)
            &&& ipmi_laws::tells(ov, "Vendor"@, sys.manufacturer)
            &&& ipmi_laws::tells(ov, "Model"@, sys.model)
            &&& ipmi_laws::tells(ov, "Serial"@, sys.serial_number)
            &&& ipmi_laws::tells(ov, "SKU"@, sys.sku)
            &&& ipmi_laws::tells(ov, "BIOS"@, sys.bios_version)
            &&& ipmi_laws::tells(ov, "Health"@, sys.health)
            &&& ipmi_laws::tells(ov, "CPU Model"@, sys.cpu_model)
            &&& sys.cpu_count is Some ==> ov.contains(
                ("CPU Count"@, text::decimal(sys.cpu_count->0 as nat)),
            )
            &&& sys.memory_gib is Some ==> ov.contains(("Memory"@, sys.memory_gib->0 + " GiB"@))
        }),
{
    let labels = seq![
        "Power"@,
        "Vendor"@,
        "Model"@,
        "Serial"@,
        "SKU"@,
        "BIOS"@,
        "Health"@,
        "CPU Model"@,
    ];
    let values = seq![
        sys.power_state,
        sys.manufacturer,
        sys.model,
        sys.serial_number,
        sys.sku,
        sys.bios_version,
        sys.health,
        sys.cpu_model,
    ];
    reveal_with_fuel(ipmi_laws::facts_of, 9);
    let facts = ipmi_laws::facts_of(labels, values, 8);
    let count = match sys.cpu_count {
        Some(n) => seq![("CPU Count"@, text::decimal(n as nat))],
        None => seq![],
    };
    let memory = match sys.memory_gib {
        Some(g) => seq![("Memory"@, g + " GiB"@)],
        None => seq![],
    };
    let ov = redfish::overview_of(sys);
    assert(ov =~= facts + count + memory);
    assert forall|k: int| 0 <= k < 8 implies ipmi_laws::tells(ov, #[trigger] labels[k], values[k]) by {
        ipmi_laws::lemma_facts_of(labels, values, 8, k);
        ipmi_laws::lemma_still_tells(facts, count, labels[k], values[k]);
        ipmi_laws::lemma_still_tells(facts + count, memory, labels[k], values[k]);
    }
    assert(labels[0] == "Power"@ && labels[1] == "Vendor"@ && labels[2] == "Model"@);
    assert(labels[3] == "Serial"@ && labels[4] == "SKU"@ && labels[5] == "BIOS"@);
    assert(labels[6] == "Health"@ && labels[7] == "CPU Model"@);
    if sys.cpu_count is Some {
        assert(ov[facts.len() as int] == count[0]);
    }
    if sys.memory_gib is Some {
        assert(ov[(facts.len() + count.len()) as int] == memory[0]);
    }
}

/// An account has the number, name and role of its document, and is enabled only if
/// the document says so. One without a name is none.
pub proof fn an_account_is_what_its_document_says(a: AccountView)
    ensures
        ({
            let named = a.user_name is Some && a.user_name->0.len() > 0;
            let u = redfish::user_of(a)->0;
            &&& redfish::user_of(a) is Some <==> named
            &&& named ==> {
                &&& u.name == a.user_name->0
                &&& a.id is Some ==> u.id == a.id->0
                &&& a.id is None ==> u.id.len() == 0
                &&& a.role_id is Some ==> u.privilege == a.role_id->0
                &&& a.role_id is None ==> u.privilege.len() == 0
                &&& u.enabled <==> a.enabled == Some(true)
            }
        }),
{
    reveal_strlit("");
}

/// The accounts come one by one in the order of their documents; a document that is
/// missing or without a name is left out.
pub proof fn accounts_come_one_by_one(
    v: Seq<Option<AccountView>>,
    last: Option<AccountView>,
)
    ensures
        ({
            let all = redfish::users_of(v.push(last));
            let front = redfish::users_of(v);
            &&& last is None ==> all == front
            &&& last is Some && redfish::user_of(last->0) is None ==> all == front
            &&& last is Some && redfish::user_of(last->0) is Some ==> all == front.push(
                redfish::user_of(last->0)->0,
            )
            &&& redfish::users_of(seq![]).len() == 0
        }),
{
    assert(v.push(last).drop_last() == v);
}

/// The links of a collection are those of its members, in their order; a member
/// without one is left out.
pub proof fn links_come_one_by_one(s: Map<Seq<char>, Seq<char>>, n: nat)
    ensures
        ({
            let place = "/Members/"@ + text::decimal(n) + "/@odata.id"@;
            let all = redfish::links_in(s, n + 1);
            let front = redfish::links_in(s, n);
            &&& s.dom().contains(place) ==> all == front.push(s[place])
            &&& !s.dom().contains(place) ==> all == front
            &&& redfish::links_in(s, 0).len() == 0
        }),
{
}

/// An event has the number, time, sensor and message of its entry, blank where the
/// entry has none, and its severity.
pub proof fn an_event_is_what_its_entry_says(e: EntryView)
    ensures
        ({
            let v = redfish::event_of(e);
            &&& e.id is Some ==> v.id == e.id->0
            &&& e.id is None ==> v.id.len() == 0
            &&& e.created is Some ==> v.when == e.created->0
            &&& e.created is None ==> v.when.len() == 0
            &&& e.sensor_type is Some ==> v.sensor == e.sensor_type->0
            &&& e.sensor_type is None ==> v.sensor.len() == 0
            &&& e.message is Some ==> v.text == e.message->0
            &&& e.message is None ==> v.text.len() == 0
            &&& v.severity == Health::Nominal <==> e.severity == Some("OK"@)
            &&& v.severity == Health::Warning <==> e.severity == Some("Warning"@)
            &&& v.severity == Health::Critical <==> e.severity == Some("Critical"@)
        }),
{
    reveal_strlit("");
    the_words_of_severity(e.severity);
}

/// The events of a log are those of its members, each in its place.
pub proof fn each_member_is_an_event(collection: serde_json::Value, n: nat, i: int)
    requires
        0 <= i < n,
    ensures
        redfish::events_in(collection, n).len() == n,
        redfish::events_in(collection, n)[i] == redfish::event_of(
            redfish::entry_in(collection, i as nat),
        ),
{
}

} // verus!
