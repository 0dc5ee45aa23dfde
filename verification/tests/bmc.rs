//! The shared poll types.

use fishtank::bmc::{
    backend, poll_health, poll_power, within_budget, Backend, BootAction, BootOverride, Health,
    PowerAction, PowerPoll, PowerState,
};
use fishtank::inventory::Inventory;

#[test]
fn the_worst_health_wins() {
    let all = [
        Health::Nominal,
        Health::Unknown,
        Health::Warning,
        Health::Critical,
    ];
    for (i, a) in all.into_iter().enumerate() {
        assert_eq!(a.rank(), i as u8);
        for (j, b) in all.into_iter().enumerate() {
            assert_eq!(a.worst(b), all[i.max(j)]);
        }
    }
}

#[test]
fn names_of_power_actions() {
    assert_eq!(PowerAction::On.label(), "on");
    assert_eq!(PowerAction::ForceOff.ipmi_verb(), "off");
    assert_eq!(PowerAction::SoftOff.redfish_reset_type(), "GracefulShutdown");
    assert_eq!(PowerAction::Cycle.redfish_reset_type(), "PowerCycle");
    assert_eq!(PowerAction::Reset.redfish_reset_type(), "ForceRestart");
    assert_eq!(PowerAction::SoftOff.optimistic_power(), Some(PowerState::Off));
    assert_eq!(PowerAction::On.optimistic_power(), Some(PowerState::On));
    assert_eq!(PowerAction::Reset.optimistic_power(), None);
}

#[test]
fn names_of_boot_overrides() {
    assert_eq!(BootOverride::Unset.short(), "—");
    assert_eq!(BootOverride::Pxe.short(), "PXE");
    assert_eq!(BootOverride::Other.short(), "set");
    assert!(!BootOverride::Unset.is_override());
    assert!(BootOverride::Other.is_override());
    assert_eq!(BootAction::Cd.ipmi_bootdev(), "cdrom");
    assert_eq!(BootAction::Clear.ipmi_bootdev(), "none");
    assert_eq!(BootAction::Disk.redfish_target(), Some("Hdd"));
    assert_eq!(BootAction::Clear.redfish_target(), None);
    assert_eq!(BootAction::Clear.optimistic_boot(), BootOverride::Unset);
    assert_eq!(BootAction::Bios.optimistic_boot(), BootOverride::Bios);
    assert_eq!(BootAction::Bios.label(), "bios");
}

#[test]
fn the_protocol_picks_the_backend() {
    let inv = Inventory::demo();
    assert_eq!(backend(&inv.machines[0], false), Backend::Ipmi);
    assert_eq!(backend(&inv.machines[3], false), Backend::Redfish);
    assert_eq!(backend(&inv.machines[3], true), Backend::Mock);
}

#[test]
fn a_poll_over_budget_is_unreachable() {
    let p = poll_power(None, 7, true);
    assert!(!p.reachable);
    assert_eq!(p.error.as_deref(), Some("timeout after 60s"));
    assert_eq!(p.latency, 7);
    assert_eq!(poll_health(None), None);
    assert_eq!(poll_health(Some(None)), None);
    assert_eq!(poll_health(Some(Some(Health::Warning))), Some(Health::Warning));
    let r: Result<u8, String> = within_budget(None);
    assert_eq!(r, Err("timeout after 60s".to_string()));
    assert_eq!(within_budget(Some(Ok::<u8, String>(3))), Ok(3));
}

#[test]
fn a_backend_that_measures_keeps_its_latency() {
    let mut p = PowerPoll::reachable();
    p.latency = 12;
    assert_eq!(poll_power(Some(p), 99, false).latency, 12);
    assert_eq!(poll_power(Some(PowerPoll::reachable()), 99, true).latency, 99);
    assert_eq!(PowerPoll::unreachable("x".to_string()).error.as_deref(), Some("x"));
}

#[test]
fn static_fields_are_read_when_asked_for() {
    let poll = || {
        let mut p = PowerPoll::reachable();
        p.power = PowerState::On;
        p.serial = Some("S1".to_string());
        p.mac = Some("90:5a:08:17:ae:01".to_string());
        p
    };
    let asked = poll_power(Some(poll()), 5, true);
    assert_eq!(asked.serial.as_deref(), Some("S1"));
    assert_eq!(asked.mac.as_deref(), Some("90:5a:08:17:ae:01"));
    let not_asked = poll_power(Some(poll()), 5, false);
    assert_eq!((not_asked.serial, not_asked.mac), (None, None));
    assert!(not_asked.reachable);
    assert_eq!(not_asked.power, PowerState::On);
    assert_eq!(not_asked.latency, 5);
}
