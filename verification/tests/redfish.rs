//! Redfish documents as BMCs send them, and what is read out of them.

use fishtank::bmc::redfish::{
    account_links, account_user, accounts_url, base_url, first_system, overview, parse_boot,
    parse_health, parse_power, poll_health, poll_power, power, sel_list, sel_url, set_boot,
    systems_url, users, Account, System,
};
use fishtank::bmc::{BootAction, BootOverride, Health, PowerAction, PowerState};
use fishtank::inventory::{Inventory, Machine};

fn json(s: &str) -> serde_json::Value {
    serde_json::from_str(s).unwrap()
}

fn machine() -> Machine {
    let mut m = Inventory::demo().machines[3].clone();
    m.host = "bmc".to_string();
    m.port = Some(8443);
    m
}

const SYSTEM: &str = r##"{
    "@odata.id": "/redfish/v1/Systems/1",
    "PowerState": "On",
    "SerialNumber": "S123",
    "Manufacturer": " ACME ",
    "Model": "Box",
    "SKU": "  ",
    "BiosVersion": "3.4",
    "Status": { "Health": "Warning" },
    "IndicatorLED": "Blinking",
    "Boot": {
        "BootSourceOverrideEnabled": "Once",
        "BootSourceOverrideTarget": "BiosSetup"
    },
    "Actions": { "#ComputerSystem.Reset": { "target": "/reset" } },
    "ProcessorSummary": { "Model": "Xeon", "Count": 2 },
    "MemorySummary": { "TotalSystemMemoryGiB": 384 }
}"##;

fn system(s: &str) -> Result<System, String> {
    Ok(System::read(&json(s)))
}

fn unreachable() -> Result<System, String> {
    Err("connection refused".to_string())
}

#[test]
fn a_full_system() {
    let p = poll_power(system(SYSTEM));
    assert!(p.reachable && p.fault && p.identify);
    assert_eq!(p.power, PowerState::On);
    assert_eq!(p.boot, BootOverride::Bios);
    assert_eq!(p.serial.as_deref(), Some("S123"));
    assert_eq!(p.mac, None);
    assert_eq!(poll_health(system(SYSTEM)), Some(Health::Warning));
}

#[test]
fn an_empty_system() {
    let p = poll_power(system("{}"));
    assert!(p.reachable && !p.fault && !p.identify);
    assert_eq!(p.power, PowerState::Unknown);
    assert_eq!(p.boot, BootOverride::Unset);
    assert_eq!(p.serial, None);
    assert_eq!(poll_health(system("[]")), Some(Health::Unknown));
}

#[test]
fn values_of_another_type_are_none() {
    let sys = System::read(&json(
        r#"{"PowerState": 1, "LocationIndicatorActive": "yes", "SerialNumber": null,
            "ProcessorSummary": {"Count": -1}, "MemorySummary": {"TotalSystemMemoryGiB": "x"}}"#,
    ));
    assert_eq!(sys.power_state, None);
    assert_eq!(sys.location_indicator, None);
    assert_eq!(sys.serial_number, None);
    assert_eq!(sys.cpu_count, None);
    assert_eq!(sys.memory_gib, None);
}

#[test]
fn an_unreachable_service() {
    let p = poll_power(unreachable());
    assert!(!p.reachable);
    assert_eq!(p.error.as_deref(), Some("connection refused"));
    assert_eq!(poll_health(unreachable()), None);
    assert_eq!(overview(unreachable()).unwrap_err(), "connection refused");
}

#[test]
fn power_and_health_words() {
    let power_of = |s: &str| parse_power(&System::read(&json(&format!(r#"{{"PowerState":"{s}"}}"#))));
    assert_eq!(power_of("On"), PowerState::On);
    assert_eq!(power_of("Off"), PowerState::Off);
    assert_eq!(power_of("on"), PowerState::Unknown);
    let health_of = |s: &str| {
        parse_health(&System::read(&json(&format!(
            r#"{{"Status":{{"Health":"{s}"}}}}"#
        ))))
    };
    assert_eq!(health_of("OK"), Health::Nominal);
    assert_eq!(health_of("Critical"), Health::Critical);
    assert_eq!(health_of("ok"), Health::Unknown);
    let lit = poll_power(system(r#"{"LocationIndicatorActive": true}"#));
    assert!(lit.identify);
    let critical = poll_power(system(r#"{"Status":{"Health":"Critical"}}"#));
    assert!(critical.fault);
}

#[test]
fn boot_overrides_need_to_be_enabled() {
    let of = |enabled: &str, target: &str| {
        parse_boot(&System::read(&json(&format!(
            r#"{{"Boot":{{"BootSourceOverrideEnabled":"{enabled}","BootSourceOverrideTarget":"{target}"}}}}"#
        ))))
    };
    assert_eq!(of("Once", "Pxe"), BootOverride::Pxe);
    assert_eq!(of("Continuous", "Hdd"), BootOverride::Disk);
    assert_eq!(of("Once", "Cd"), BootOverride::Cd);
    assert_eq!(of("Once", "None"), BootOverride::Unset);
    assert_eq!(of("Once", "Usb"), BootOverride::Other);
    assert_eq!(of("Disabled", "Pxe"), BootOverride::Unset);
    let no_target = System::read(&json(r#"{"Boot":{"BootSourceOverrideEnabled":"Once"}}"#));
    assert_eq!(parse_boot(&no_target), BootOverride::Unset);
}

#[test]
fn addresses() {
    let mut m = machine();
    assert_eq!(base_url(&m), "https://bmc:8443");
    assert_eq!(systems_url(&m), "https://bmc:8443/redfish/v1/Systems");
    assert_eq!(
        accounts_url(&m),
        "https://bmc:8443/redfish/v1/AccountService/Accounts"
    );
    m.port = None;
    assert_eq!(base_url(&m), "https://bmc");
    let coll = json(r#"{"Members":[{"@odata.id":"/redfish/v1/Systems/1"}]}"#);
    assert_eq!(
        first_system(&m, &coll),
        Ok("https://bmc/redfish/v1/Systems/1".to_string())
    );
    assert_eq!(
        first_system(&m, &json(r#"{"Members":[]}"#)),
        Err("no systems in Redfish collection".to_string())
    );
    assert_eq!(
        sel_url(&m, system(SYSTEM)),
        Ok("https://bmc/redfish/v1/Systems/1/LogServices/SEL/Entries".to_string())
    );
    assert_eq!(
        sel_url(&m, system("{}")),
        Err("system has no @odata.id".to_string())
    );
    assert_eq!(sel_url(&m, unreachable()), Err("connection refused".to_string()));
}

fn pairs(v: &[(String, String)]) -> Vec<(&str, &str)> {
    v.iter().map(|(a, b)| (a.as_str(), b.as_str())).collect()
}

#[test]
fn power_requests() {
    let m = machine();
    let r = power(&m, system(SYSTEM), PowerAction::SoftOff).ok().unwrap();
    assert_eq!(r.url, "https://bmc:8443/reset");
    assert_eq!(r.object, None);
    assert_eq!(pairs(&r.fields), [("ResetType", "GracefulShutdown")]);
    assert_eq!(
        power(&m, system("{}"), PowerAction::On).err().unwrap(),
        "no reset action on system"
    );
    assert_eq!(
        power(&m, unreachable(), PowerAction::On).err().unwrap(),
        "connection refused"
    );
}

#[test]
fn boot_requests_are_read_back() {
    let m = machine();
    for action in [
        BootAction::Pxe,
        BootAction::Disk,
        BootAction::Bios,
        BootAction::Cd,
        BootAction::Clear,
    ] {
        for persistent in [false, true] {
            let r = set_boot(&m, system(SYSTEM), action, persistent).ok().unwrap();
            assert_eq!(r.url, "https://bmc:8443/redfish/v1/Systems/1");
            assert_eq!(r.object.as_deref(), Some("Boot"));
            let body: Vec<String> = r
                .fields
                .iter()
                .map(|(k, v)| format!(r#""{k}":"{v}""#))
                .collect();
            let doc = format!(r#"{{"Boot":{{{}}}}}"#, body.join(","));
            assert_eq!(
                parse_boot(&System::read(&json(&doc))),
                action.optimistic_boot()
            );
        }
    }
    let r = set_boot(&m, system(SYSTEM), BootAction::Pxe, true).ok().unwrap();
    assert_eq!(
        pairs(&r.fields),
        [
            ("BootSourceOverrideEnabled", "Continuous"),
            ("BootSourceOverrideTarget", "Pxe")
        ]
    );
    let r = set_boot(&m, system(SYSTEM), BootAction::Clear, true).ok().unwrap();
    assert_eq!(pairs(&r.fields), [("BootSourceOverrideEnabled", "Disabled")]);
    assert_eq!(
        set_boot(&m, system("{}"), BootAction::Pxe, false).err().unwrap(),
        "system has no @odata.id"
    );
}

#[test]
fn overview_facts() {
    let ov = overview(system(SYSTEM)).unwrap();
    assert_eq!(
        pairs(&ov),
        [
            ("Power", "On"),
            ("Vendor", "ACME"),
            ("Model", "Box"),
            ("Serial", "S123"),
            ("BIOS", "3.4"),
            ("Health", "Warning"),
            ("CPU Model", "Xeon"),
            ("CPU Count", "2"),
            ("Memory", "384 GiB"),
        ]
    );
    let half = overview(system(r#"{"MemorySummary":{"TotalSystemMemoryGiB":1.5}}"#)).unwrap();
    assert_eq!(pairs(&half), [("Memory", "1.5 GiB")]);
    assert!(overview(system("{}")).unwrap().is_empty());
}

#[test]
fn accounts() {
    let coll = json(
        r#"{"Members":[{"@odata.id":"/a/1"},{},{"@odata.id":7},{"@odata.id":"/a/4"}]}"#,
    );
    assert_eq!(
        account_links(&coll),
        Ok(vec!["/a/1".to_string(), "/a/4".to_string()])
    );
    assert_eq!(
        account_links(&json("{}")),
        Err("Accounts collection has no Members".to_string())
    );
    let read = |s: &str| Some(Account::read(&json(s)));
    let u = users(vec![
        read(r#"{"UserName":"root","Id":"1","RoleId":"Administrator","Enabled":true}"#),
        None,
        read(r#"{"UserName":"","Id":"2"}"#),
        read(r#"{"UserName":"guest"}"#),
    ]);
    assert_eq!(u.len(), 2);
    assert_eq!(u[0].id, "1");
    assert_eq!(u[0].privilege, "Administrator");
    assert!(u[0].enabled);
    assert_eq!(u[1].name, "guest");
    assert_eq!(u[1].id, "");
    assert!(!u[1].enabled);
    assert!(account_user(Account::read(&json("[]"))).is_none());
}

#[test]
fn log_entries() {
    let coll = json(
        r#"{"Members":[
            {"Id":"9","Created":"2024","SensorType":"Fan","Message":"stopped","Severity":"Critical"},
            {"Severity":"OK"},
            {"Severity":"Warning","Message":"hot"},
            {"Severity":"Odd"},
            5
        ]}"#,
    );
    let e = sel_list(&coll).unwrap();
    assert_eq!(e.len(), 5);
    assert_eq!(e[0].id, "9");
    assert_eq!(e[0].when, "2024");
    assert_eq!(e[0].sensor, "Fan");
    assert_eq!(e[0].text, "stopped");
    let severities: Vec<Health> = e.iter().map(|x| x.severity).collect();
    assert_eq!(
        severities,
        [
            Health::Critical,
            Health::Nominal,
            Health::Warning,
            Health::Unknown,
            Health::Unknown
        ]
    );
    assert_eq!(e[4].text, "");
    assert_eq!(
        sel_list(&json(r#"{"Members":{}}"#)).unwrap_err(),
        "SEL collection has no Members"
    );
}

fn log(created: &[&str]) -> Vec<(String, String)> {
    let members: Vec<String> = created
        .iter()
        .enumerate()
        .map(|(i, t)| format!(r#"{{"Id":"{i}","Created":"{t}"}}"#))
        .collect();
    let coll = json(&format!(r#"{{"Members":[{}]}}"#, members.join(",")));
    let entries = sel_list(&coll).unwrap();
    entries.into_iter().map(|e| (e.id, e.when)).collect()
}

#[test]
fn the_log_is_newest_first() {
    let ids = |created: &[&str]| {
        let all: Vec<String> = log(created).into_iter().map(|e| e.0).collect();
        all.join(" ")
    };
    // Oldest first is turned round, newest first stays.
    let grows = [
        "2023-12-31T23:59:59Z",
        "2024-01-01T00:00:00Z",
        "2024-01-01T00:00:01Z",
        "2024-02-01T00:00:00Z",
    ];
    assert_eq!(ids(&grows), "3 2 1 0");
    let shrinks: Vec<&str> = grows.iter().rev().copied().collect();
    assert_eq!(ids(&shrinks), "0 1 2 3");
    // Entries of one time keep their order, and those without one come last.
    assert_eq!(ids(&["2024", "2025", "2024", "", "2025", "2024"]), "1 4 0 2 5 3");
    assert_eq!(ids(&["", "", ""]), "0 1 2");
    // The instants decide, not the texts: the clock goes back an hour, a fraction
    // follows, and two zones name one instant.
    assert_eq!(
        ids(&["2024-10-27T02:59:59+02:00", "2024-10-27T02:00:01+01:00"]),
        "1 0"
    );
    assert_eq!(ids(&["2024-10-27T02:00:00Z", "2024-10-27T02:00:00.5Z"]), "1 0");
    assert_eq!(
        ids(&["2024-10-27T02:00:00Z", "2024-10-27T04:00:00.00+02:00", "2024-10-26T20:30:00-05:30"]),
        "0 1 2"
    );
    // Times that name no instant come behind, by their text.
    assert_eq!(
        ids(&["0000-00-00T00:00:00Z", "yesterday", "1999-12-31T23:59:60Z", ""]),
        "2 1 0 3"
    );
    assert_eq!(ids(&[]), "");
}

#[test]
fn a_long_log_agrees_with_a_stable_sort() {
    let times: Vec<String> = (0..200u32)
        .map(|i| format!("2024-01-{:02}", 1 + i.wrapping_mul(7919) % 28))
        .collect();
    let created: Vec<&str> = times.iter().map(|t| t.as_str()).collect();
    let mut want: Vec<(String, String)> = times
        .iter()
        .enumerate()
        .map(|(i, t)| (i.to_string(), t.clone()))
        .collect();
    want.sort_by(|a, b| b.1.cmp(&a.1));
    assert_eq!(log(&created), want);
}
