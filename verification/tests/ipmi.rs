//! `ipmitool` output as the BMCs print it, and what is read out of it.

use fishtank::bmc::ipmi::{
    environment, ipmitool, ipmitool_args, overview, parse_boot, parse_fault, parse_field,
    parse_health, parse_identify, parse_power, parse_sel, parse_serial, parse_users, poll_health,
    power, program, sdr_list, sel_list, sel_severity, set_boot, sol_deactivate, users,
    CommandOutput, PowerProbe,
};
use fishtank::bmc::{BootAction, BootOverride, Health, PowerAction, PowerState};
use fishtank::inventory::{Inventory, Machine};

// Realistic `ipmitool chassis bootparam get 5` output: the boot flags are a
// bulleted block, so the selector key arrives as "   - Boot Device Selector".
const BOOTPARAM_PXE: &str = "\
Boot parameter version: 1
Boot parameter 5 is valid/unlocked
Boot parameter data: 8004000000
 Boot Flags :
   - Boot Flag Valid
   - Options apply to only next boot
   - BIOS PC Compatible (legacy) boot
   - Boot Device Selector : Force PXE
   - Console Redirection control : System Default";

const BOOTPARAM_NONE: &str = "\
 Boot Flags :
   - Boot Flag Valid
   - Boot Device Selector : No override";

const BOOTPARAM_INVALID: &str = "\
 Boot Flags :
   - Boot Flag Invalid
   - Boot Device Selector : Force PXE";

#[test]
fn parses_bulleted_boot_selector() {
    assert_eq!(parse_boot(BOOTPARAM_PXE), BootOverride::Pxe);
    assert_eq!(parse_boot(BOOTPARAM_NONE), BootOverride::Unset);
}

#[test]
fn invalid_flags_mean_no_override() {
    // Selector still reads PXE, but the flags are marked invalid.
    assert_eq!(parse_boot(BOOTPARAM_INVALID), BootOverride::Unset);
}

const SEL_OUT: &str = "\
   1 | 01/15/2024 | 09:12:34 | Power Unit #0xc8 | Power off/down | Asserted
   2 | 01/15/2024 | 09:13:01 | Temperature #0x01 | Upper Critical going high | Asserted
   3 | Pre-Init Time-stamp | Memory #0x12 | Uncorrectable ECC | Asserted
SEL has no more entries";

#[test]
fn parses_sel_records_newest_first_after_reverse() {
    let mut e = parse_sel(SEL_OUT);
    assert_eq!(e.len(), 3);
    // parse_sel preserves record order; sel_list reverses for display.
    assert_eq!(e[0].id, "1");
    assert_eq!(e[1].sensor, "Temperature #0x01");
    assert_eq!(e[1].severity, Health::Critical);
    assert_eq!(e[2].when, "Pre-Init Time-stamp");
    assert_eq!(e[2].severity, Health::Critical); // uncorrectable ECC
    assert!(e[0].text.contains("(asserted)"));
    e.reverse();
    assert_eq!(e[0].id, "3");
}

const USER_LIST: &str = "\
ID  Name             Callin  Link Auth  IPMI Msg   Channel Priv Limit
1                    true    false      false      Unknown (0x00)
2   ADMIN            true    true       true       ADMINISTRATOR
3   operator         true    true       true       OPERATOR
4                    true    false      false      NO ACCESS";

#[test]
fn parses_user_list_skipping_empty_slots() {
    let u = parse_users(USER_LIST);
    assert_eq!(u.len(), 2);
    assert_eq!(u[0].id, "2");
    assert_eq!(u[0].name, "ADMIN");
    assert_eq!(u[0].privilege, "ADMINISTRATOR");
    assert!(u[0].enabled);
    assert_eq!(u[1].name, "operator");
    assert_eq!(u[1].privilege, "OPERATOR");
}

#[test]
fn sel_deassert_is_ok() {
    let e = parse_sel(
        "  5 | 01/15/2024 | 10:00:00 | Temperature #0x01 | Upper Critical going high | Deasserted",
    );
    assert_eq!(e.len(), 1);
    assert_eq!(e[0].severity, Health::Nominal);
}

#[test]
fn parse_field_handles_plain_and_bulleted_keys() {
    assert_eq!(
        parse_field("System Power : on", "System Power").as_deref(),
        Some("on")
    );
    assert_eq!(
        parse_field(
            "   - Boot Device Selector : Force PXE",
            "Boot Device Selector"
        )
        .as_deref(),
        Some("Force PXE")
    );
}

#[test]
fn a_field_without_a_value_is_passed_over() {
    assert_eq!(
        parse_field("Serial :\r\nserial: X1 : 2\n", "SERIAL").as_deref(),
        Some("X1 : 2")
    );
    assert_eq!(parse_field("Serial", "Serial"), None);
    assert_eq!(parse_field("", "Serial"), None);
    assert_eq!(
        parse_field("* - Key : v\n•Key: w", "Key").as_deref(),
        Some("w")
    );
}

const CHASSIS: &str = "\
System Power         : on
Power Overload       : false
Power Interlock      : inactive
Main Power Fault     : false
Power Control Fault  : false
Drive Fault          : TRUE
Cooling/Fan Fault    : false
Chassis Identify State : Indefinite On";

#[test]
fn reads_the_chassis_status() {
    assert_eq!(parse_power(CHASSIS), PowerState::On);
    assert!(parse_fault(CHASSIS));
    assert!(parse_identify(CHASSIS));
    assert_eq!(parse_power("System Power : Off"), PowerState::Off);
    assert_eq!(parse_power("System Power : ?"), PowerState::Unknown);
    assert_eq!(parse_power("Chassis Power is ON"), PowerState::On);
    assert_eq!(parse_power("Chassis Power is off"), PowerState::Off);
    assert_eq!(parse_power(""), PowerState::Unknown);
    assert!(!parse_fault("Drive Fault : false"));
    assert!(!parse_identify("Chassis Identify State : Off"));
    assert!(!parse_identify(""));
}

#[test]
fn every_boot_selector_has_its_override() {
    let of = |sel: &str| parse_boot(&format!(" - Boot Device Selector : {sel}"));
    assert_eq!(of("Force Boot from default Hard-Drive"), BootOverride::Disk);
    assert_eq!(of("Force boot, hard drive"), BootOverride::Disk);
    assert_eq!(of("Force Boot into BIOS Setup"), BootOverride::Bios);
    assert_eq!(of("Force Boot from CD/DVD"), BootOverride::Cd);
    assert_eq!(of("Force Boot from Floppy"), BootOverride::Other);
    assert_eq!(parse_boot("nothing to see"), BootOverride::Unset);
}

#[test]
fn the_product_serial_goes_before_the_board_serial() {
    assert_eq!(
        parse_serial("Board Serial : B1\nProduct Serial : P1").as_deref(),
        Some("P1")
    );
    assert_eq!(parse_serial("Board Serial : B1").as_deref(), Some("B1"));
    assert_eq!(parse_serial("no such thing"), None);
}

#[test]
fn a_record_without_direction_has_no_parenthesis() {
    let e = parse_sel("1 | t | s | Fan warning\n2 | t | s");
    assert_eq!(e.len(), 1);
    assert_eq!(e[0].text, "Fan warning");
    assert_eq!(e[0].severity, Health::Warning);
    let e = parse_sel("a | d | t | s | ev | Asserted | more");
    assert_eq!(e[0].when, "d t");
    assert_eq!(e[0].text, "ev (asserted)");
}

#[test]
fn severities() {
    assert_eq!(sel_severity("Predictive thing", "Asserted"), Health::Warning);
    assert_eq!(sel_severity("Drive Fault", ""), Health::Critical);
    assert_eq!(sel_severity("Drive Fault", "deasserted"), Health::Nominal);
    assert_eq!(sel_severity("System Boot", "Asserted"), Health::Unknown);
}

#[test]
fn users_that_are_no_accounts() {
    assert!(parse_users("x ADMIN true true true USER").is_empty());
    assert!(parse_users("2 ADMIN true true USER").is_empty());
    assert!(parse_users("4294967296 A true true true USER").is_empty());
    let u = parse_users("+7 bob FALSE true False NO  ACCESS");
    assert_eq!(u[0].id, "+7");
    assert_eq!(u[0].privilege, "NO ACCESS");
    assert!(!u[0].enabled);
}

#[test]
fn health_is_the_worst_sensor() {
    let sdr = "CPU | 40 degrees C | ok\nFAN1 | no reading | ns\nPS | 0x01 | nc\n";
    assert_eq!(parse_health(sdr), Health::Warning);
    assert_eq!(parse_health("A | 1 | ok"), Health::Nominal);
    assert_eq!(parse_health("A | 1 | NR\nB | 1 | ok"), Health::Critical);
    assert_eq!(parse_health("A | 1 | ns\nB"), Health::Unknown);
    assert_eq!(poll_health(Ok(sdr.to_string())), Some(Health::Warning));
    assert_eq!(poll_health(Err("x".to_string())), None);
}

fn machine() -> Machine {
    let mut m = Inventory::demo().machines[0].clone();
    m.host = "10.0.0.9".to_string();
    m.username = "root".to_string();
    m.password = "hunter2".to_string();
    m
}

#[test]
fn the_password_goes_into_the_environment_only() {
    let m = machine();
    let args = ipmitool_args(&m, sdr_list());
    assert_eq!(program(), "ipmitool");
    assert_eq!(
        args,
        ["-I", "lanplus", "-H", "10.0.0.9", "-U", "root", "-E", "sdr", "list"]
    );
    assert!(!args.contains(&"hunter2".to_string()));
    assert_eq!(
        environment(&m),
        ("IPMI_PASSWORD".to_string(), "hunter2".to_string())
    );
}

#[test]
fn what_a_run_amounts_to() {
    let run = |success, out: &[u8], err: &[u8]| {
        ipmitool(Ok(CommandOutput {
            success,
            stdout: out.to_vec(),
            stderr: err.to_vec(),
        }))
    };
    assert_eq!(run(true, "grün".as_bytes(), b"noise"), Ok("grün".to_string()));
    assert_eq!(run(true, b"a\xffb", b""), Ok("a\u{fffd}b".to_string()));
    assert_eq!(
        run(false, b"out", b"\n  Error: no such host \nmore\n"),
        Err("Error: no such host ".to_string())
    );
    assert_eq!(run(false, b"", b" \n"), Err("ipmitool error".to_string()));
    assert_eq!(
        ipmitool(Err("no such file".to_string())),
        Err("failed to run ipmitool: no such file".to_string())
    );
}

#[test]
fn subcommands() {
    assert_eq!(power(PowerAction::SoftOff), ["chassis", "power", "soft"]);
    assert_eq!(sol_deactivate(), ["sol", "deactivate"]);
    assert_eq!(
        set_boot(BootAction::Cd, true),
        ["chassis", "bootdev", "cdrom", "options=persistent"]
    );
    assert_eq!(set_boot(BootAction::Cd, false), ["chassis", "bootdev", "cdrom"]);
    assert_eq!(set_boot(BootAction::Clear, true), ["chassis", "bootdev", "none"]);
}

#[test]
fn a_full_probe_asks_four_things() {
    let mut probe = PowerProbe::new(true);
    let mut asked: Vec<String> = Vec::new();
    let replies = [
        CHASSIS.to_string(),
        BOOTPARAM_PXE.to_string(),
        "Product Serial : S1".to_string(),
        "MAC Address : aa:bb".to_string(),
    ];
    for reply in replies {
        asked.push(probe.command().unwrap().join(" "));
        probe.feed(Ok(reply));
    }
    assert_eq!(probe.command(), None);
    assert_eq!(
        asked,
        ["chassis status", "chassis bootparam get 5", "fru", "lan print 1"]
    );
    assert!(probe.poll.reachable);
    assert_eq!(probe.poll.power, PowerState::On);
    assert!(probe.poll.fault && probe.poll.identify);
    assert_eq!(probe.poll.boot, BootOverride::Pxe);
    assert_eq!(probe.poll.serial.as_deref(), Some("S1"));
    assert_eq!(probe.poll.mac.as_deref(), Some("aa:bb"));
    assert_eq!(probe.poll.error, None);
}

#[test]
fn a_short_probe_and_a_failed_one() {
    let mut probe = PowerProbe::new(false);
    probe.feed(Ok("System Power : off".to_string()));
    probe.feed(Err("timeout".to_string()));
    assert_eq!(probe.command(), None);
    assert!(probe.poll.reachable);
    assert_eq!(probe.poll.power, PowerState::Off);
    assert_eq!(probe.poll.boot, BootOverride::Unset);

    let mut probe = PowerProbe::new(true);
    probe.feed(Err("no route".to_string()));
    assert_eq!(probe.command(), None);
    assert!(!probe.poll.reachable);
    assert_eq!(probe.poll.error.as_deref(), Some("no route"));
}

#[test]
fn overview_leaves_out_what_nobody_tells() {
    let ok = |s: &str| -> Result<String, String> { Ok(s.to_string()) };
    let err = || -> Result<String, String> { Err("down".to_string()) };
    let ov = overview(
        ok("Firmware Revision : 1.2\nManufacturer Name : ACME"),
        ok("Product Name : Box"),
        err(),
        ok("System Power : on"),
    )
    .unwrap();
    let ov: Vec<(&str, &str)> = ov.iter().map(|(k, v)| (k.as_str(), v.as_str())).collect();
    assert_eq!(
        ov,
        [
            ("Power", "on"),
            ("Vendor", "ACME"),
            ("Product", "Box"),
            ("BMC Firmware", "1.2")
        ]
    );
    assert_eq!(
        overview(err(), ok("x"), ok("y"), ok("z")),
        Err("down".to_string())
    );
}

#[test]
fn the_newest_event_comes_first() {
    let e = sel_list(Ok(SEL_OUT.to_string())).unwrap();
    let ids: Vec<&str> = e.iter().map(|e| e.id.as_str()).collect();
    assert_eq!(ids, ["3", "2", "1"]);
    assert_eq!(sel_list(Err("x".to_string())).unwrap_err(), "x");
    assert_eq!(users(Ok(USER_LIST.to_string())).unwrap().len(), 2);
    assert_eq!(users(Err("x".to_string())).unwrap_err(), "x");
}
