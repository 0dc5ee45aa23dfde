//! The demo: eight machines that show every state.

use fishtank::app::machine_list::render::render_row;
use fishtank::app::machine_list::{MachineList, Update};
use fishtank::bmc::{mock, poll_power, BootAction, PowerAction};
use fishtank::inventory::Inventory;

/// Name, protocol, host, MAC, serial, power, health, flags, boot and state.
const DEMO: [&str; 8] = [
    "dc1-r01-node01 ipmi 10.130.128.10 90:5a:08:17:ae:01 OD381957S on CRIT · PXE ok",
    "dc1-r01-node02 ipmi 10.130.128.11 90:5a:08:17:ae:02 OD381958S off WARN ID — slow",
    "dc1-r01-node03 ipmi 10.130.128.12 90:5a:08:17:ae:03 OD381959S on WARN · — ok",
    "dc1-r02-node01 redfish 10.130.129.10 90:5a:08:17:bf:01 OD411748S off OK FAULT — slow",
    "dc1-r02-node02 redfish 10.130.129.11 90:5a:08:17:bf:02 OD411749S on CRIT · PXE ok",
    "dc2-r01-node01 ipmi 10.131.128.10 90:5a:08:18:ae:01 OD192292S off CRIT FAULT PXE slow",
    "dc2-r01-node02 ipmi 10.131.128.13 90:5a:08:18:ae:02 — — — — — unreachable",
    "dc2-r01-node03 ipmi 10.131.128.14 90:5a:08:18:ae:03 OD192296S on OK FAULT — MAC MISMATCH",
];

#[test]
fn the_demo_table() {
    let inv = Inventory::demo();
    let machines = Inventory::demo().machines;
    let mut list = MachineList::new(inv, true, true);
    assert_eq!(list.title(), " Machines (8) ");
    for (idx, m) in machines.iter().enumerate() {
        let poll = poll_power(Some(mock::poll_power(m)), 1, true);
        list.handle_update(Update::Power { idx, poll }, 0);
        let health = mock::poll_health(m);
        list.handle_update(Update::Health { idx, health }, 0);
    }
    for (idx, want) in DEMO.iter().enumerate() {
        let cells = render_row(list.row(idx).unwrap());
        let shown: Vec<&str> = cells[1..].iter().map(|c| c.text.as_str()).collect();
        assert_eq!(&shown.join(" "), want);
    }
}

#[test]
fn the_seed_folds_the_host() {
    let mut m = Inventory::demo().machines[0].clone();
    for host in ["", "a", "ab", "10.130.128.10", "grün"] {
        m.host = host.to_string();
        let want = host
            .bytes()
            .fold(0u32, |a, b| a.wrapping_mul(31).wrapping_add(b as u32));
        assert_eq!(mock::seed(&m), want);
        assert_eq!(mock::power_delay(&m), 150 + (want % 600) as u64);
        assert_eq!(mock::fetch_delay(&m), 100 + (want % 250) as u64);
        assert_eq!(mock::log_delay(&m), 120 + (want % 300) as u64);
    }
}

#[test]
fn the_demo_answers_the_same_in_every_view() {
    for m in Inventory::demo().machines {
        let poll = mock::poll_power(&m);
        assert_eq!(poll.reachable, mock::overview(&m).is_ok());
        assert_eq!(poll.reachable, mock::users(&m).is_ok());
        assert_eq!(poll.reachable, mock::sel_list(&m).is_ok());
        if poll.reachable {
            let ov = mock::overview(&m).unwrap();
            assert_eq!(ov.len(), 11);
            assert_eq!(Some(ov[3].1.clone()), poll.serial);
            assert_eq!(ov[10], ("BMC IP".to_string(), m.host.clone()));
        } else {
            assert_eq!(poll.error.as_deref(), Some("no route to host (demo)"));
            assert_eq!(mock::sel_list(&m).unwrap_err(), "no route to host (demo)");
        }
        assert_eq!(mock::power(&m, PowerAction::On), Ok(()));
        assert_eq!(mock::set_boot(&m, BootAction::Pxe), Ok(()));
    }
}

#[test]
fn the_demo_log_is_newest_first() {
    let m = &Inventory::demo().machines[0];
    let seed = mock::seed(m) as usize;
    let log = mock::sel_list(m).unwrap();
    assert_eq!(log.len(), 5 + seed % 10);
    let ids: Vec<usize> = log.iter().map(|e| e.id.parse().unwrap()).collect();
    let want: Vec<usize> = (1..=log.len()).rev().collect();
    assert_eq!(ids, want);
    let oldest = log.last().unwrap();
    assert_eq!(oldest.when, "06/01/2026 08:00:00");
    assert!(oldest.sensor.ends_with(" #0x30"));
    let next = &log[log.len() - 2];
    assert_eq!(next.when, "06/02/2026 09:07:13");
    assert!(next.sensor.ends_with(" #0x31"));
}

#[test]
fn the_demo_overview_of_the_first_machine() {
    let m = &Inventory::demo().machines[0];
    let ov = mock::overview(m).unwrap();
    let seed = mock::seed(m);
    assert_eq!(ov[0].1, "on");
    assert_eq!(ov[2].1, ["X11DPT-B", "X12STH-F", "H12SSL-i"][(seed % 3) as usize]);
    assert_eq!(ov[4].1, format!("1.{}.{}", seed % 9, seed % 90));
    assert_eq!(ov[5].1, format!("3.{}", seed % 6));
    assert_eq!(ov[8].1, format!("{} GiB", [256, 512, 128, 1024][(seed % 4) as usize]));
    let users = mock::users(m).unwrap();
    assert_eq!(users.len(), if seed % 2 == 0 { 4 } else { 3 });
    assert_eq!(users[0].name, "ADMIN");
}
