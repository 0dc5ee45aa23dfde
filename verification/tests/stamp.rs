//! Date-times and the instants that they name.

use fishtank::bmc::log::is_older;
use fishtank::bmc::stamp::{is_earlier, read_instant};

fn seconds(s: &str) -> i64 {
    read_instant(s).unwrap().seconds
}

fn fraction(s: &str) -> String {
    read_instant(s).unwrap().fraction.into_iter().collect()
}

#[test]
fn seconds_since_the_year_zero() {
    assert_eq!(seconds("0000-01-01T00:00:00Z"), 0);
    assert_eq!(seconds("0001-01-01T00:00:00Z"), 366 * 86_400);
    // The Unix epoch and a known time after it.
    let epoch = seconds("1970-01-01T00:00:00Z");
    assert_eq!(epoch, 719_528 * 86_400);
    assert_eq!(seconds("2001-09-09T01:46:40Z") - epoch, 1_000_000_000);
    assert_eq!(seconds("2038-01-19T03:14:07Z") - epoch, 2_147_483_647);
    assert_eq!(seconds("9999-12-31T23:59:59Z") - epoch, 253_402_300_799);
}

#[test]
fn leap_days_and_leap_seconds() {
    for year in ["2024", "2000", "0000", "0400"] {
        assert!(read_instant(&format!("{year}-02-29T00:00:00Z")).is_some());
    }
    for year in ["2023", "1900", "2100"] {
        assert!(read_instant(&format!("{year}-02-29T00:00:00Z")).is_none());
    }
    assert_eq!(
        seconds("2016-12-31T23:59:60Z"),
        seconds("2017-01-01T00:00:00Z")
    );
    assert_eq!(
        seconds("2024-03-01T00:00:00Z") - seconds("2024-02-29T23:59:59Z"),
        1
    );
}

#[test]
fn every_day_follows_the_last() {
    let days = [31, 28, 31, 30, 31, 30, 31, 31, 30, 31, 30, 31];
    let mut last = seconds("1899-12-31T12:00:00Z");
    for year in 1900..=2101 {
        let leap = year % 4 == 0 && (year % 100 != 0 || year % 400 == 0);
        for (m, days) in days.iter().enumerate() {
            let days = if m == 1 && leap { 29 } else { *days };
            for day in 1..=days {
                let now = seconds(&format!("{year}-{:02}-{day:02}T12:00:00Z", m + 1));
                assert_eq!(now - last, 86_400);
                last = now;
            }
        }
    }
}

#[test]
fn zones() {
    let utc = seconds("2024-10-27T00:00:00Z");
    assert_eq!(seconds("2024-10-27T00:00:00+00:00"), utc);
    assert_eq!(seconds("2024-10-27T00:00:00-00:00"), utc);
    assert_eq!(seconds("2024-10-27T02:00:00+02:00"), utc);
    assert_eq!(seconds("2024-10-26T18:30:00-05:30"), utc);
    assert_eq!(seconds("2024-10-27T23:59:00+23:59"), utc);
}

#[test]
fn fractions() {
    assert_eq!(fraction("2024-10-27T00:00:00Z"), "");
    assert_eq!(fraction("2024-10-27T00:00:00.000Z"), "");
    assert_eq!(fraction("2024-10-27T00:00:00.2500+01:00"), "25");
    assert_eq!(fraction("2024-10-27T00:00:00.05Z"), "05");
    let at = |f: &str| read_instant(&format!("2024-10-27T00:00:00{f}Z")).unwrap();
    let grows = ["", ".0001", ".05", ".1", ".10000000000000000000000001", ".9", ".95"];
    for (i, a) in grows.iter().enumerate() {
        for (j, b) in grows.iter().enumerate() {
            assert_eq!(is_earlier(&at(a), &at(b)), i < j);
        }
    }
    assert!(!is_earlier(&at(".5"), &at(".50")) && !is_earlier(&at(".50"), &at(".5")));
}

#[test]
fn what_is_no_date_time() {
    for s in [
        "",
        "2024",
        "2024-10-27",
        "2024-10-27T00:00:00",
        "2024-10-27T00:00:00.Z",
        "2024-10-27T00:00:00.5",
        "2024-10-27T00:00:00z",
        "2024-10-27t00:00:00Z",
        "2024-10-27 00:00:00Z",
        "2024-10-27T00:00:00ZZ",
        "2024-10-27T00:00:00+2:00",
        "2024-10-27T00:00:00+0200",
        "2024-10-27T00:00:00+24:00",
        "2024-10-27T00:00:00+00:60",
        "2024-10-27T00:00:00*01:00",
        "2024-10-27T24:00:00Z",
        "2024-10-27T00:60:00Z",
        "2024-10-27T00:00:61Z",
        "2024-00-27T00:00:00Z",
        "2024-13-27T00:00:00Z",
        "2024-10-00T00:00:00Z",
        "2024-10-32T00:00:00Z",
        "2024-11-31T00:00:00Z",
        "0000-00-00T00:00:00Z",
        "2O24-10-27T00:00:00Z",
        "+024-10-27T00:00:00Z",
    ] {
        assert!(read_instant(s).is_none(), "{s}");
    }
}

#[test]
fn which_time_is_older() {
    assert!(is_older("2024-10-27T02:59:59+02:00", "2024-10-27T02:00:01+01:00"));
    assert!(!is_older("2024-10-27T02:00:01+01:00", "2024-10-27T02:59:59+02:00"));
    assert!(is_older("2024-10-27T00:00:00Z", "2024-10-27T00:00:00.5Z"));
    assert!(is_older("never", "0000-01-01T00:00:00Z"));
    assert!(!is_older("0000-01-01T00:00:00Z", "never"));
    assert!(is_older("", "never"));
    assert!(!is_older("never", "never"));
}
