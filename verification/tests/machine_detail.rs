//! The detail view, key by key.

use fishtank::app::cell::Color;
use fishtank::app::machine_detail::{
    into_load, sel_row, user_row, DetailTab, Fetched, Load, MachineDetail, MachineDetailMsg,
};
use fishtank::bmc::{BmcUser, Health, SelEntry};
use fishtank::inventory::Inventory;
use fishtank::ratata::{Key, KeyKind};

fn detail(tab: DetailTab) -> MachineDetail {
    MachineDetail::new(Inventory::demo().machines[0].clone(), true, tab)
}

fn press(d: &mut MachineDetail, code: Key) -> (bool, Option<DetailTab>, bool) {
    let r = d.handle_key(code, KeyKind::Press);
    (r.redraw, r.fetch, r.msg == Some(MachineDetailMsg::Close))
}

fn entry(id: &str, severity: Health) -> SelEntry {
    SelEntry {
        id: id.to_string(),
        when: String::new(),
        sensor: "Fan".to_string(),
        text: "stopped".to_string(),
        severity,
    }
}

fn log(n: usize) -> Fetched {
    Fetched::Logs(Ok((0..n).map(|i| entry(&i.to_string(), Health::Nominal)).collect()))
}

#[test]
fn tabs_are_fetched_lazily() {
    let mut d = detail(DetailTab::Overview);
    assert_eq!(d.ensure_fetched(DetailTab::Overview), Some(DetailTab::Overview));
    assert_eq!(d.ensure_fetched(DetailTab::Overview), None);
    assert_eq!(press(&mut d, Key::F(2)), (true, Some(DetailTab::Users), false));
    assert_eq!(press(&mut d, Key::F(1)), (true, None, false));
    assert_eq!(press(&mut d, Key::F(2)), (true, None, false));
    assert_eq!(press(&mut d, Key::Char('r')), (true, Some(DetailTab::Users), false));
    assert_eq!(press(&mut d, Key::F(4)), (false, None, false));
    assert!(d.is_idle(DetailTab::Logs));
    let r = d.handle_key(Key::F(3), KeyKind::Repeat);
    assert!(!r.redraw && d.is_idle(DetailTab::Logs));
}

#[test]
fn scrolling_stays_on_the_table() {
    let mut d = detail(DetailTab::Logs);
    press(&mut d, Key::Down);
    assert_eq!(d.selected, 0);
    d.apply(log(25));
    assert_eq!(d.current_len(), 25);
    press(&mut d, Key::Up);
    assert_eq!(d.selected, 0);
    press(&mut d, Key::PageDown);
    press(&mut d, Key::PageDown);
    assert_eq!(d.selected, 20);
    press(&mut d, Key::PageDown);
    assert_eq!(d.selected, 24);
    press(&mut d, Key::Char('j'));
    assert_eq!(d.selected, 24);
    press(&mut d, Key::Char('k'));
    assert_eq!(d.selected, 23);
    press(&mut d, Key::PageUp);
    assert_eq!(d.selected, 13);
    press(&mut d, Key::Char('g'));
    assert_eq!(d.selected, 0);
    press(&mut d, Key::Char('G'));
    assert_eq!(d.selected, 24);
    // The data shrinks: the drawn selection moves to the last row.
    d.apply(log(3));
    assert_eq!(d.drawn_selection(), 2);
    press(&mut d, Key::Up);
    assert_eq!(d.selected, 1);
    // Switching goes back to the top.
    press(&mut d, Key::F(1));
    assert_eq!(d.selected, 0);
}

#[test]
fn leaving() {
    let mut d = detail(DetailTab::Users);
    assert_eq!(press(&mut d, Key::Esc), (false, None, true));
    assert_eq!(press(&mut d, Key::Char('q')), (false, None, true));
    assert_eq!(press(&mut d, Key::Char('x')), (false, None, false));
    let r = d.handle_key(Key::Char('q'), KeyKind::Release);
    assert!(r.msg.is_none());
    let r = d.handle_key(Key::Esc, KeyKind::Repeat);
    assert!(r.msg.is_none());
}

#[test]
fn placeholders() {
    let mut d = detail(DetailTab::Users);
    let shown = |d: &MachineDetail| d.placeholder().map(|c| (c.text, c.fg));
    assert_eq!(shown(&d), Some(("Loading…".to_string(), Some(Color::Yellow))));
    d.apply(Fetched::Users(Err("boom".to_string())));
    assert_eq!(shown(&d), Some(("Error: boom".to_string(), Some(Color::Red))));
    d.apply(Fetched::Users(Ok(Vec::new())));
    assert_eq!(shown(&d), Some(("No users.".to_string(), Some(Color::DarkGray))));
    d.apply(log(0));
    press(&mut d, Key::F(3));
    assert_eq!(shown(&d).unwrap().0, "No SEL entries.");
    d.apply(log(2));
    assert_eq!(shown(&d), None);
    assert_eq!(d.render().len(), 2);
    d.apply(Fetched::Overview(Ok(Vec::new())));
    press(&mut d, Key::F(1));
    assert_eq!(shown(&d).unwrap().0, "No data.");
    assert!(d.render().is_empty());
}

#[test]
fn a_fetch_fills_its_own_tab_only() {
    let mut d = detail(DetailTab::Overview);
    d.apply(log(3));
    assert!(d.is_idle(DetailTab::Overview) && d.is_idle(DetailTab::Users));
    assert_eq!(d.current_len(), 0);
    let facts = vec![("Power".to_string(), "on".to_string())];
    d.apply(Fetched::Overview(Ok(facts)));
    assert_eq!(d.current_len(), 1);
    let rows = d.render();
    assert_eq!(rows[0][0].text, "Power");
    assert_eq!(rows[0][1].fg, Some(Color::White));
}

#[test]
fn header_lines() {
    let d = detail(DetailTab::Users);
    let info: String = d.info_line().iter().map(|c| c.text.clone()).collect();
    assert_eq!(info, " dc1-r01-node01   ipmi  10.130.128.10");
    let bar = d.tab_bar();
    let text: String = bar.iter().map(|c| c.text.clone()).collect();
    assert_eq!(text, " F1 Overview   F2 Users   F3 Logs  ");
    assert!(!bar[0].bold && bar[2].bold);
    assert_eq!(d.body_title(), " Users ");
    assert_eq!(DetailTab::Logs.fkey(), 3);
}

#[test]
fn user_rows() {
    let user = |privilege: &str, enabled: bool| BmcUser {
        id: "2".to_string(),
        name: "bob".to_string(),
        privilege: privilege.to_string(),
        enabled,
    };
    let r = user_row(&user("Administrator", true));
    assert_eq!(r[0].text, "  2");
    assert_eq!(r[2].fg, Some(Color::Red));
    assert_eq!(r[3].text, "yes");
    assert_eq!(user_row(&user("operator", true))[2].fg, Some(Color::Yellow));
    assert_eq!(user_row(&user("USER", true))[2].fg, Some(Color::Green));
    let r = user_row(&user("NO ACCESS", false));
    assert_eq!(r[2].fg, Some(Color::DarkGray));
    assert_eq!(r[3].text, "no");
}

#[test]
fn event_rows() {
    let r = sel_row(&entry("", Health::Critical));
    let texts: Vec<&str> = r.iter().map(|c| c.text.as_str()).collect();
    assert_eq!(texts, ["CRIT", "  —", "—", "Fan", "stopped"]);
    assert!(r[0].bold);
    assert_eq!(sel_row(&entry("1234", Health::Unknown))[1].text, "1234");
    assert_eq!(sel_row(&entry("1", Health::Unknown))[0].text, "·");
    assert_eq!(sel_row(&entry("1", Health::Warning))[0].fg, Some(Color::Yellow));
}

#[test]
fn loads() {
    assert!(matches!(into_load::<u8>(Ok(1)), Load::Loaded(1)));
    assert!(matches!(into_load::<u8>(Err("e".to_string())), Load::Error(_)));
}
