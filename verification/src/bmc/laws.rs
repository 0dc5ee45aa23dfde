//! What the words of the backends mean and what becomes of a poll.

use vstd::prelude::*;

use super::{
    Backend, BootAction, BootOverride, Health, PowerAction, PowerPollView, PowerState,
};
use crate::inventory::Protocol;
use crate::text;

verus! {

// --- health --------------------------------------------------------------------

/// From harmless to severe: nominal, unknown, warning, critical. Of two states the
/// one further along this row is the worse.
pub proof fn the_order_of_severity(a: Health, b: Health)
    ensures
        ({
            let row = seq![Health::Nominal, Health::Unknown, Health::Warning, Health::Critical];
            &&& forall|i: int, j: int|
                0 <= i < j < 4 ==> (#[trigger] row[i]).worse(#[trigger] row[j]) == row[j]
                    && row[j].worse(row[i]) == row[j] && row[i].level() < row[j].level()
            &&& a == b ==> a.worse(b) == a
        }),
{
}

// --- power actions -------------------------------------------------------------

/// The words that `ipmitool chassis power` has for the actions: one of its own for
/// each.
pub proof fn the_ipmi_words_of_the_power_actions(a: PowerAction, b: PowerAction)
    ensures
        a == PowerAction::On ==> super::ipmi::power_command(a) == seq![
            "chassis"@,
            "power"@,
            "on"@,
        ],
        a == PowerAction::ForceOff ==> super::ipmi::power_command(a) == seq![
            "chassis"@,
            "power"@,
            "off"@,
        ],
        a == PowerAction::SoftOff ==> super::ipmi::power_command(a) == seq![
            "chassis"@,
            "power"@,
            "soft"@,
        ],
        a == PowerAction::Cycle ==> super::ipmi::power_command(a) == seq![
            "chassis"@,
            "power"@,
            "cycle"@,
        ],
        a == PowerAction::Reset ==> super::ipmi::power_command(a) == seq![
            "chassis"@,
            "power"@,
            "reset"@,
        ],
        a.verb() == super::ipmi::power_command(a)[2],
        a != b ==> super::ipmi::power_command(a) != super::ipmi::power_command(b),
{
    reveal_strlit("on");
    reveal_strlit("off");
    reveal_strlit("soft");
    reveal_strlit("cycle");
    reveal_strlit("reset");
    let p = super::ipmi::power_command(a);
    let q = super::ipmi::power_command(b);
    assert("on"@.len() == 2 && "off"@.len() == 3 && "soft"@.len() == 4);
    assert("cycle"@[0] == 'c' && "reset"@[0] == 'r');
    if a != b {
        assert(p[2] != q[2]);
    }
}

/// The `ResetType` of the actions over Redfish: one of its own for each.
pub proof fn the_redfish_words_of_the_power_actions(a: PowerAction, b: PowerAction)
    ensures
        a == PowerAction::On ==> a.reset_type() == "On"@,
        a == PowerAction::ForceOff ==> a.reset_type() == "ForceOff"@,
        a == PowerAction::SoftOff ==> a.reset_type() == "GracefulShutdown"@,
        a == PowerAction::Cycle ==> a.reset_type() == "PowerCycle"@,
        a == PowerAction::Reset ==> a.reset_type() == "ForceRestart"@,
        a != b ==> a.reset_type() != b.reset_type(),
{
    reveal_strlit("On");
    reveal_strlit("ForceOff");
    reveal_strlit("GracefulShutdown");
    reveal_strlit("PowerCycle");
    reveal_strlit("ForceRestart");
    assert("On"@.len() == 2 && "ForceOff"@.len() == 8 && "GracefulShutdown"@.len() == 16);
    assert("PowerCycle"@.len() == 10 && "ForceRestart"@.len() == 12);
}

/// The names that the actions are shown under, and what is shown of the power right
/// after each.
pub proof fn the_names_of_the_power_actions(a: PowerAction, b: PowerAction)
    ensures
        a == PowerAction::On ==> a.name() == "on"@ && a.shown_after() == Some(PowerState::On),
        a == PowerAction::ForceOff ==> a.name() == "force-off"@ && a.shown_after() == Some(
            PowerState::Off,
        ),
        a == PowerAction::SoftOff ==> a.name() == "soft-off"@ && a.shown_after() == Some(
            PowerState::Off,
        ),
        a == PowerAction::Cycle ==> a.name() == "cycle"@ && a.shown_after() is None,
        a == PowerAction::Reset ==> a.name() == "reset"@ && a.shown_after() is None,
        a != b ==> a.name() != b.name(),
{
    reveal_strlit("on");
    reveal_strlit("force-off");
    reveal_strlit("soft-off");
    reveal_strlit("cycle");
    reveal_strlit("reset");
    assert("on"@.len() == 2 && "force-off"@.len() == 9 && "soft-off"@.len() == 8);
    assert("cycle"@[0] == 'c' && "reset"@[0] == 'r');
}

// --- boot overrides ------------------------------------------------------------

/// The devices that `ipmitool chassis bootdev` has for the boot actions: one of its
/// own for each. Only a device that is set can be set for good.
pub proof fn the_ipmi_words_of_the_boot_actions(a: BootAction, b: BootAction, persistent: bool)
    ensures
        a == BootAction::Pxe ==> super::ipmi::boot_command(a, persistent)[2] == "pxe"@,
        a == BootAction::Disk ==> super::ipmi::boot_command(a, persistent)[2] == "disk"@,
        a == BootAction::Bios ==> super::ipmi::boot_command(a, persistent)[2] == "bios"@,
        a == BootAction::Cd ==> super::ipmi::boot_command(a, persistent)[2] == "cdrom"@,
        a == BootAction::Clear ==> super::ipmi::boot_command(a, persistent)[2] == "none"@,
        super::ipmi::boot_command(a, persistent)[0] == "chassis"@,
        super::ipmi::boot_command(a, persistent)[1] == "bootdev"@,
        super::ipmi::boot_command(a, false).len() == 3,
        super::ipmi::boot_command(BootAction::Clear, true).len() == 3,
        a != BootAction::Clear ==> super::ipmi::boot_command(a, true) == super::ipmi::boot_command(
            a,
            false,
        ).push("options=persistent"@),
        a != b ==> super::ipmi::boot_command(a, persistent)[2] != super::ipmi::boot_command(
            b,
            persistent,
        )[2],
{
    reveal_strlit("pxe");
    reveal_strlit("disk");
    reveal_strlit("bios");
    reveal_strlit("cdrom");
    reveal_strlit("none");
    assert("pxe"@.len() == 3 && "cdrom"@.len() == 5);
    assert("disk"@[0] == 'd' && "bios"@[0] == 'b' && "none"@[0] == 'n');
}

/// What a boot action sends over Redfish: the target and whether it is for the next
/// boot or for every boot; clearing disables the override and names no target.
pub proof fn the_redfish_words_of_the_boot_actions(a: BootAction, b: BootAction, persistent: bool)
    ensures
        ({
            let fields = super::redfish::boot_fields(a, persistent);
            let enabled = fields[0];
            let target = fields[1];
            &&& enabled.0 == "BootSourceOverrideEnabled"@
            &&& a == BootAction::Clear ==> fields.len() == 1 && enabled.1 == "Disabled"@
            &&& a != BootAction::Clear ==> {
                &&& fields.len() == 2
                &&& persistent ==> enabled.1 == "Continuous"@
                &&& !persistent ==> enabled.1 == "Once"@
                &&& target.0 == "BootSourceOverrideTarget"@
                &&& a == BootAction::Pxe ==> target.1 == "Pxe"@
                &&& a == BootAction::Disk ==> target.1 == "Hdd"@
                &&& a == BootAction::Bios ==> target.1 == "BiosSetup"@
                &&& a == BootAction::Cd ==> target.1 == "Cd"@
            }
            &&& a != b ==> a.target() != b.target()
        }),
{
    reveal_strlit("Pxe");
    reveal_strlit("Hdd");
    reveal_strlit("BiosSetup");
    reveal_strlit("Cd");
    assert("Pxe"@[0] == 'P' && "Hdd"@[0] == 'H' && "BiosSetup"@[0] == 'B' && "Cd"@[0] == 'C');
}

/// The names that the boot actions are shown under, and what is shown as the override
/// right after each.
pub proof fn the_names_of_the_boot_actions(a: BootAction, b: BootAction)
    ensures
        a == BootAction::Pxe ==> a.name() == "pxe"@ && a.shown_after() == BootOverride::Pxe,
        a == BootAction::Disk ==> a.name() == "disk"@ && a.shown_after() == BootOverride::Disk,
        a == BootAction::Bios ==> a.name() == "bios"@ && a.shown_after() == BootOverride::Bios,
        a == BootAction::Cd ==> a.name() == "cd"@ && a.shown_after() == BootOverride::Cd,
        a == BootAction::Clear ==> a.name() == "clear"@ && a.shown_after() == BootOverride::Unset,
        a != b ==> a.name() != b.name() && a.shown_after() != b.shown_after(),
{
    reveal_strlit("pxe");
    reveal_strlit("disk");
    reveal_strlit("bios");
    reveal_strlit("cd");
    reveal_strlit("clear");
    assert("pxe"@.len() == 3 && "cd"@.len() == 2 && "clear"@.len() == 5);
    assert("disk"@[0] == 'd' && "bios"@[0] == 'b');
}

/// The column labels of the overrides: one of its own for each.
pub proof fn the_labels_of_the_overrides(a: BootOverride, b: BootOverride)
    ensures
        a == BootOverride::Unset ==> a.name() == "—"@,
        a == BootOverride::Pxe ==> a.name() == "PXE"@,
        a == BootOverride::Disk ==> a.name() == "disk"@,
        a == BootOverride::Bios ==> a.name() == "bios"@,
        a == BootOverride::Cd ==> a.name() == "cd"@,
        a == BootOverride::Other ==> a.name() == "set"@,
        a != b ==> a.name() != b.name(),
{
    reveal_strlit("—");
    reveal_strlit("PXE");
    reveal_strlit("disk");
    reveal_strlit("bios");
    reveal_strlit("cd");
    reveal_strlit("set");
    assert("—"@.len() == 1 && "cd"@.len() == 2);
    assert("PXE"@[0] == 'P' && "set"@[0] == 's' && "disk"@[0] == 'd' && "bios"@[0] == 'b');
    assert("PXE"@.len() == 3 && "set"@.len() == 3 && "disk"@.len() == 4 && "bios"@.len() == 4);
}

// --- dispatch and polls --------------------------------------------------------

/// Demo mode touches no BMC; else each machine is asked over its own protocol.
pub proof fn each_machine_is_asked_over_its_protocol(protocol: Protocol, demo: bool)
    ensures
        demo <==> super::backend_of(protocol, demo) == Backend::Mock,
        !demo && protocol == Protocol::Ipmi ==> super::backend_of(protocol, demo) == Backend::Ipmi,
        !demo && protocol == Protocol::Redfish ==> super::backend_of(protocol, demo)
            == Backend::Redfish,
{
}

/// A fresh poll knows nothing yet; one that failed knows only why.
pub proof fn a_poll_starts_out_knowing_nothing(err: Seq<char>)
    ensures
        super::reached().reachable,
        super::reached().error is None,
        !super::not_reached(err).reachable,
        super::not_reached(err).error == Some(err),
        forall|p: PowerPollView|
            (p == super::reached() || p == super::not_reached(err)) ==> {
                &&& (#[trigger] p.power) == PowerState::Unknown
                &&& !p.fault && !p.identify
                &&& p.boot == BootOverride::Unset
                &&& p.serial is None && p.mac is None
                &&& p.latency == 0
            },
{
}

/// What a finished poll hands on, field by field: all that the backend found; the
/// measured time where the backend told none; the serial and the MAC address only if
/// they were asked for. Without an answer in time it is unreachable and says so.
pub proof fn a_finished_poll_hands_on_what_was_found(
    outcome: Option<PowerPollView>,
    elapsed: u128,
    fetch_static: bool,
)
    ensures
        ({
            let r = super::finished(outcome, elapsed, fetch_static);
            let p = outcome->0;
            &&& outcome is Some ==> {
                &&& r.reachable == p.reachable
                &&& r.power == p.power
                &&& r.fault == p.fault
                &&& r.identify == p.identify
                &&& r.boot == p.boot
                &&& r.error == p.error
                &&& fetch_static ==> r.serial == p.serial && r.mac == p.mac
                &&& p.latency > 0 ==> r.latency == p.latency
                &&& p.latency == 0 ==> r.latency == elapsed
            }
            &&& outcome is None ==> {
                &&& !r.reachable
                &&& r.error == Some("timeout after 60s"@)
                &&& r.latency == elapsed
            }
            &&& !fetch_static ==> r.serial is None && r.mac is None
        }),
{
    reveal_strlit("timeout after ");
    reveal_strlit("s");
    reveal_strlit("timeout after 60s");
    reveal_with_fuel(text::numeral, 3);
    assert(text::decimal(60) =~= seq!['6', '0']);
    assert(super::timeout_note() =~= "timeout after 60s"@);
}

/// A fact is shown trimmed under its label; what is blank is left out.
pub proof fn a_fact_is_trimmed_or_left_out(label: Seq<char>, val: Seq<char>)
    ensures
        text::trim(val).len() > 0 ==> super::fact(label, Some(val)) == seq![
            (label, text::trim(val)),
        ],
        text::trim(val).len() == 0 ==> super::fact(label, Some(val)).len() == 0,
        super::fact(label, None).len() == 0,
{
}

/// A call that was answered in time comes to its answer; one that was not comes to an
/// error that says so, and a health that was not told in time stays untold.
pub proof fn an_answer_in_time_is_handed_on<T>(answer: Result<T, Seq<char>>, health: Option<Health>)
    ensures
        super::budgeted(Some(answer)) == answer,
        super::budgeted::<T>(None) == Err::<T, Seq<char>>("timeout after 60s"@),
        super::finished_health(Some(health)) == health,
        super::finished_health(None) is None,
{
    a_finished_poll_hands_on_what_was_found(None, 0, false);
}

/// The view of an optional text is the text, if it is there.
pub proof fn an_optional_text_is_its_text(s: String)
    ensures
        text::text_of(Some(s)) == Some(s@),
        text::text_of(None) is None,
{
}

} // verus!
