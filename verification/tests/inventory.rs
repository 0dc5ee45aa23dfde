//! Resolving and finding the inventory.

use fishtank::inventory::{
    candidates, discover, reads_stdin, Defaults, Inventory, Protocol, RawConfig, RawMachine,
    SearchDir,
};

fn raw(name: &str) -> RawMachine {
    RawMachine {
        name: name.to_string(),
        protocol: Protocol::Redfish,
        host: "h".to_string(),
        mac: None,
        serial: None,
        username: None,
        password: None,
        scheme: None,
        port: None,
        insecure: None,
    }
}

fn no_defaults() -> Defaults {
    Defaults {
        username: None,
        password: None,
        poll_interval_secs: None,
        health_interval_secs: None,
        insecure: None,
    }
}

#[test]
fn built_in_values_fill_the_gaps() {
    let inv = Inventory::from_raw(RawConfig {
        defaults: no_defaults(),
        machines: vec![raw("a")],
    });
    let m = &inv.machines[0];
    assert_eq!(m.username, "ADMIN");
    assert_eq!(m.password, "");
    assert_eq!(m.scheme, "https");
    assert_eq!(m.port, None);
    assert!(!m.insecure);
    assert_eq!(inv.poll_interval_secs, 30);
    assert_eq!(inv.health_interval_secs, 120);
}

#[test]
fn own_settings_beat_defaults() {
    let mut own = raw("own");
    own.username = Some("me".to_string());
    own.password = Some("mine".to_string());
    own.insecure = Some(false);
    own.scheme = Some("http".to_string());
    own.port = Some(8443);
    let inv = Inventory::from_raw(RawConfig {
        defaults: Defaults {
            username: Some("root".to_string()),
            password: Some("pw".to_string()),
            poll_interval_secs: Some(5),
            health_interval_secs: Some(50),
            insecure: Some(true),
        },
        machines: vec![own, raw("plain")],
    });
    assert_eq!(inv.machines[0].username, "me");
    assert_eq!(inv.machines[0].password, "mine");
    assert!(!inv.machines[0].insecure);
    assert_eq!(inv.machines[0].scheme, "http");
    assert_eq!(inv.machines[0].port, Some(8443));
    assert_eq!(inv.machines[1].name, "plain");
    assert_eq!(inv.machines[1].username, "root");
    assert_eq!(inv.machines[1].password, "pw");
    assert!(inv.machines[1].insecure);
    assert_eq!(inv.machines[1].scheme, "https");
    assert_eq!(inv.poll_interval_secs, 5);
    assert_eq!(inv.health_interval_secs, 50);
}

#[test]
fn the_demo_inventory() {
    let inv = Inventory::demo();
    assert_eq!(inv.machines.len(), 8);
    assert_eq!(inv.machines[3].name, "dc1-r02-node01");
    assert_eq!(inv.machines[3].protocol, Protocol::Redfish);
    assert_eq!(inv.machines[7].host, "10.131.128.14");
    assert_eq!(inv.machines[7].mac.as_deref(), Some("90:5a:08:18:ae:03"));
}

#[test]
fn the_first_file_that_is_there_is_taken() {
    assert_eq!(
        candidates(),
        [
            (SearchDir::Current, "fishtank-machines.json5"),
            (SearchDir::Current, "fishtank-machines.json"),
            (SearchDir::Config, "fishtank-machines.json5"),
            (SearchDir::Config, "fishtank-machines.json"),
        ]
    );
    assert_eq!(discover(&vec![false, false, true, true]), Some(2));
    assert_eq!(discover(&vec![false; 4]), None);
    assert!(reads_stdin("-"));
    assert!(!reads_stdin("/dev/stdin"));
}

#[test]
fn protocol_names() {
    assert_eq!(Protocol::Ipmi.label(), "ipmi");
    assert_eq!(Protocol::Redfish.label(), "redfish");
}
