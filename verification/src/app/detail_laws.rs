//! What each key of the detail view does and what the view looks like.

use vstd::prelude::*;

use super::cell::{CellView, Color};
use super::machine_detail::{self, DetailTab, DetailView, FetchedView, LoadView, MachineDetailMsg};
use super::machine_list::look_laws;
use crate::bmc::{BmcUserView, Health, SelEntryView};
use crate::inventory::{MachineView, Protocol};
use crate::ratata::event::{Key, KeyKind};
use crate::text;

verus! {

// --- keys ----------------------------------------------------------------------

/// Whether the data of a tab has not been asked for.
pub open spec fn untouched(d: DetailView, tab: DetailTab) -> bool {
    match tab {
        DetailTab::Overview => d.overview == LoadView::<Seq<(Seq<char>, Seq<char>)>>::Idle,
        DetailTab::Users => d.users == LoadView::<Seq<BmcUserView>>::Idle,
        DetailTab::Logs => d.logs == LoadView::<Seq<SelEntryView>>::Idle,
    }
}

/// Whether the data of a tab is on its way.
pub open spec fn under_way(d: DetailView, tab: DetailTab) -> bool {
    match tab {
        DetailTab::Overview => d.overview == LoadView::<Seq<(Seq<char>, Seq<char>)>>::Loading,
        DetailTab::Users => d.users == LoadView::<Seq<BmcUserView>>::Loading,
        DetailTab::Logs => d.logs == LoadView::<Seq<SelEntryView>>::Loading,
    }
}

/// Whether two views have the same data.
pub open spec fn same_data(a: DetailView, b: DetailView) -> bool {
    a.overview == b.overview && a.users == b.users && a.logs == b.logs
}

/// F1, F2 and F3 show the overview, the users and the log, from the top. What has not
/// been asked for yet is fetched, and nothing else.
pub proof fn the_function_keys_show_the_tabs(d: DetailView, n: u8)
    requires
        1 <= n <= 3,
    ensures
        ({
            let (next, redraw, fetch, msg) = d.key(Key::F(n), KeyKind::Press);
            let tab = if n == 1 {
                DetailTab::Overview
            } else if n == 2 {
                DetailTab::Users
            } else {
                DetailTab::Logs
            };
            &&& next.tab == tab
            &&& next.selected == 0
            &&& next.machine == d.machine && next.demo == d.demo
            &&& redraw
            &&& msg is None
            &&& untouched(d, tab) ==> fetch == Some(tab) && under_way(next, tab)
            &&& !untouched(d, tab) ==> fetch is None && same_data(next, d)
            &&& tab != DetailTab::Overview ==> next.overview == d.overview
            &&& tab != DetailTab::Users ==> next.users == d.users
            &&& tab != DetailTab::Logs ==> next.logs == d.logs
        }),
{
}

/// How many rows the shown tab has: as many as its data, if that is there.
pub proof fn the_rows_are_the_data(d: DetailView)
    ensures
        d.tab == DetailTab::Overview && d.overview is Loaded ==> d.rows() == d.overview->Loaded_0.len(),
        d.tab == DetailTab::Users && d.users is Loaded ==> d.rows() == d.users->Loaded_0.len(),
        d.tab == DetailTab::Logs && d.logs is Loaded ==> d.rows() == d.logs->Loaded_0.len(),
        d.tab == DetailTab::Overview && !(d.overview is Loaded) ==> d.rows() == 0,
        d.tab == DetailTab::Users && !(d.users is Loaded) ==> d.rows() == 0,
        d.tab == DetailTab::Logs && !(d.logs is Loaded) ==> d.rows() == 0,
{
}

/// `j` and Down go one row down, `k` and Up one up, the page keys ten, also by
/// auto-repeat; `g` goes to the first row and `G` to the last. None goes beyond the
/// ends, and none changes anything else.
pub proof fn the_scroll_keys(d: DetailView, code: Key, kind: KeyKind)
    requires
        0 < d.rows() <= usize::MAX,
        d.selected < d.rows(),
        kind is Press || kind is Repeat,
    ensures
        ({
            let (next, redraw, fetch, msg) = d.key(code, kind);
            let at = d.selected as int;
            let last = d.rows() - 1;
            let to = next.selected as int;
            let moved = next == DetailView { selected: next.selected, ..d } && redraw
                && fetch is None && msg is None;
            &&& code == Key::Down || code == Key::Char('j') ==> moved && to == if at < last {
                at + 1
            } else {
                last
            }
            &&& code == Key::Up || code == Key::Char('k') ==> moved && to == if at > 0 {
                at - 1
            } else {
                0
            }
            &&& code == Key::PageDown ==> moved && to == if at + 10 < last {
                at + 10
            } else {
                last
            }
            &&& code == Key::PageUp ==> moved && to == if at > 10 {
                at - 10
            } else {
                0
            }
            &&& code == Key::Char('g') && kind is Press ==> moved && to == 0
            &&& code == Key::Char('G') && kind is Press ==> moved && to == last
        }),
{
}

/// Where there is nothing to scroll, scrolling does nothing.
pub proof fn an_empty_table_does_not_scroll(d: DetailView, code: Key, kind: KeyKind)
    requires
        d.rows() == 0,
        code == Key::Down || code == Key::Up || code == Key::PageDown || code == Key::PageUp || (
        code matches Key::Char(c) && (c == 'j' || c == 'k' || c == 'g' || c == 'G')),
    ensures
        d.key(code, kind).0 == d,
        d.key(code, kind).2 is None,
        d.key(code, kind).3 is None,
{
}

/// `r` fetches the shown tab again; `q` and Esc leave.
pub proof fn refresh_and_leave(d: DetailView, code: Key)
    ensures
        ({
            let (next, redraw, fetch, msg) = d.key(code, KeyKind::Press);
            &&& code == Key::Char('r') ==> {
                &&& fetch == Some(d.tab)
                &&& under_way(next, d.tab)
                &&& next.tab == d.tab && next.selected == d.selected
                &&& d.tab != DetailTab::Overview ==> next.overview == d.overview
                &&& d.tab != DetailTab::Users ==> next.users == d.users
                &&& d.tab != DetailTab::Logs ==> next.logs == d.logs
                &&& redraw && msg is None
            }
            &&& code == Key::Char('q') || code == Key::Esc ==> next == d && fetch is None && msg
                == Some(MachineDetailMsg::Close)
        }),
{
}

/// The detail view has no other keys: any other key, a key that is let go and the
/// auto-repeat of a key that does not scroll do nothing.
pub proof fn the_detail_view_has_no_other_keys(d: DetailView, code: Key, kind: KeyKind)
    requires
        ({
            let scrolls = code == Key::Down || code == Key::Up || code == Key::PageDown || code
                == Key::PageUp || code == Key::Char('j') || code == Key::Char('k');
            let acts = code == Key::Esc || code == Key::F(1) || code == Key::F(2) || code
                == Key::F(3) || code == Key::Char('g') || code == Key::Char('G') || code
                == Key::Char('r') || code == Key::Char('q');
            ||| kind is Release
            ||| kind is Repeat && !scrolls
            ||| !scrolls && !acts
        }),
    ensures
        d.key(code, kind) == (d, false, None::<DetailTab>, None::<MachineDetailMsg>),
{
}

/// What was fetched for a tab is what the tab has from then on.
pub proof fn a_fetch_fills_its_tab(d: DetailView, f: FetchedView)
    ensures
        f is Overview ==> d.apply(f).overview == f->Overview_0,
        f is Users ==> d.apply(f).users == f->Users_0,
        f is Logs ==> d.apply(f).logs == f->Logs_0,
{
}

/// A detail view opens on the tab that was asked for, with nothing fetched yet.
pub proof fn a_detail_view_opens_on_its_tab(m: MachineView, demo: bool, tab: DetailTab)
    ensures
        ({
            let d = DetailView::start(m, demo, tab);
            &&& d.machine == m
            &&& d.demo == demo
            &&& d.tab == tab
            &&& d.selected == 0
            &&& untouched(d, DetailTab::Overview)
            &&& untouched(d, DetailTab::Users)
            &&& untouched(d, DetailTab::Logs)
            &&& d.ensure_fetched(tab).1 == Some(tab)
            &&& under_way(d.ensure_fetched(tab).0, tab)
        }),
{
}

// --- looks ---------------------------------------------------------------------

/// The identity line tells the machine's name, protocol and host.
pub proof fn the_identity_line(m: MachineView)
    ensures
        ({
            let c = machine_detail::info_look(m);
            let protocol = if m.protocol == Protocol::Ipmi {
                "ipmi"@
            } else {
                "redfish"@
            };
            &&& c.len() == 2
            &&& c[0].text == " "@ + m.name + " "@
            &&& c[1].text == "  "@ + protocol + "  "@ + m.host
        }),
{
}

/// The tab bar names the three tabs with their keys, and highlights the one that is
/// shown and no other.
pub proof fn the_tab_bar(shown: DetailTab)
    ensures
        ({
            let c = machine_detail::bar_look(shown);
            &&& c.len() == 6
            &&& c[0].text == " F1 Overview "@
            &&& c[2].text == " F2 Users "@
            &&& c[4].text == " F3 Logs "@
            &&& c[0].bg is Some <==> shown == DetailTab::Overview
            &&& c[2].bg is Some <==> shown == DetailTab::Users
            &&& c[4].bg is Some <==> shown == DetailTab::Logs
        }),
{
    reveal_strlit(" F");
    reveal_strlit(" ");
    reveal_strlit("Overview");
    reveal_strlit("Users");
    reveal_strlit("Logs");
    reveal_strlit(" F1 Overview ");
    reveal_strlit(" F2 Users ");
    reveal_strlit(" F3 Logs ");
    assert(text::decimal(1) =~= seq!['1']);
    assert(text::decimal(2) =~= seq!['2']);
    assert(text::decimal(3) =~= seq!['3']);
    let c = machine_detail::bar_look(shown);
    assert(c[0].text =~= " F1 Overview "@);
    assert(c[2].text =~= " F2 Users "@);
    assert(c[4].text =~= " F3 Logs "@);
}

/// A row of the user table: number, name, privilege in its colour, and whether the
/// account is enabled.
pub proof fn the_columns_of_a_user(u: BmcUserView)
    ensures
        ({
            let c = machine_detail::user_look(u);
            let p = text::upper(u.privilege);
            let admin = p == "ADMINISTRATOR"@;
            let operator = p == "OPERATOR"@;
            let user = p == "USER"@;
            &&& c.len() == 4
            &&& c[0].text == text::pad_left(u.id, 3, ' ')
            &&& c[1].text == u.name
            &&& c[2].text == u.privilege
            &&& admin ==> c[2].fg == Some(Color::Red)
            &&& operator ==> c[2].fg == Some(Color::Yellow)
            &&& user ==> c[2].fg == Some(Color::Green)
            &&& !admin && !operator && !user ==> c[2].fg == Some(Color::DarkGray)
            &&& u.enabled ==> look_laws::shows(c[3], "yes"@, Some(Color::Green))
            &&& !u.enabled ==> look_laws::shows(c[3], "no"@, Some(Color::DarkGray))
        }),
{
    reveal_strlit("ADMINISTRATOR");
    reveal_strlit("OPERATOR");
    reveal_strlit("USER");
    assert("ADMINISTRATOR"@.len() == 13 && "OPERATOR"@.len() == 8 && "USER"@.len() == 4);
}

/// A row of the event log: severity in its colour, number, time, sensor and text. A
/// missing number or time is a dash.
pub proof fn the_columns_of_an_event(e: SelEntryView)
    ensures
        ({
            let c = machine_detail::entry_look(e);
            let dash = |s: Seq<char>| {
                if s.len() == 0 {
                    "—"@
                } else {
                    s
                }
            };
            &&& c.len() == 5
            &&& e.severity == Health::Nominal ==> look_laws::shows(c[0], "OK"@, Some(Color::Green))
            &&& e.severity == Health::Warning ==> look_laws::shows(
                c[0],
                "WARN"@,
                Some(Color::Yellow),
            )
            &&& e.severity == Health::Critical ==> look_laws::shows(c[0], "CRIT"@, Some(Color::Red))
            &&& e.severity == Health::Unknown ==> look_laws::shows(
                c[0],
                "·"@,
                Some(Color::DarkGray),
            )
            &&& c[1].text == text::pad_left(dash(e.id), 3, ' ')
            &&& c[2].text == dash(e.when)
            &&& c[3].text == e.sensor
            &&& c[4].text == e.text
        }),
{
}

/// A row of the overview: the label and the value.
pub proof fn the_columns_of_a_fact(f: (Seq<char>, Seq<char>))
    ensures
        machine_detail::fact_look(f).len() == 2,
        machine_detail::fact_look(f)[0].text == f.0,
        machine_detail::fact_look(f)[1].text == f.1,
{
}

/// The table shows the data of the shown tab, item by item in its order.
pub proof fn the_table_shows_the_data_in_order(d: DetailView, i: int)
    requires
        0 <= i < d.rows(),
    ensures
        d.table().len() == d.rows(),
        d.tab == DetailTab::Overview ==> d.table()[i] == machine_detail::fact_look(
            d.overview->Loaded_0[i],
        ),
        d.tab == DetailTab::Users ==> d.table()[i] == machine_detail::user_look(
            d.users->Loaded_0[i],
        ),
        d.tab == DetailTab::Logs ==> d.table()[i] == machine_detail::entry_look(
            d.logs->Loaded_0[i],
        ),
{
}

/// Whether `p` is what stands in place of a table whose data is `l`.
pub open spec fn stands_for<T>(p: Option<CellView>, l: LoadView<Seq<T>>, empty: Seq<char>) -> bool {
    match l {
        LoadView::Idle | LoadView::Loading => p is Some && look_laws::shows(
            p->0,
            "Loading…"@,
            Some(Color::Yellow),
        ),
        LoadView::Error(e) => p is Some && look_laws::shows(
            p->0,
            "Error: "@ + e,
            Some(Color::Red),
        ),
        LoadView::Loaded(v) => if v.len() == 0 {
            p is Some && look_laws::shows(p->0, empty, Some(Color::DarkGray))
        } else {
            p is None
        },
    }
}

/// Without data the view says why: it is being fetched, it could not be, or there is
/// none.
pub proof fn a_view_without_data_says_why(d: DetailView)
    ensures
        d.tab == DetailTab::Overview ==> stands_for(d.placeholder(), d.overview, "No data."@),
        d.tab == DetailTab::Users ==> stands_for(d.placeholder(), d.users, "No users."@),
        d.tab == DetailTab::Logs ==> stands_for(d.placeholder(), d.logs, "No SEL entries."@),
{
}

/// The outcome of a fetch is what is loaded, or the error.
pub proof fn a_fetch_loads_or_fails<T>(r: Result<T, String>)
    ensures
        r is Ok ==> machine_detail::loaded(r) == machine_detail::Load::Loaded(r->Ok_0),
        r is Err ==> machine_detail::loaded(r) == machine_detail::Load::<T>::Error(r->Err_0),
{
}

/// What a tab shows of its data: an error with its text, and the items one by one.
pub proof fn a_tab_shows_what_was_loaded(
    facts: crate::bmc::Overview,
    users: Vec<crate::bmc::BmcUser>,
    log: Vec<crate::bmc::SelEntry>,
    error: String,
    i: int,
)
    ensures
        machine_detail::overview_load(machine_detail::Load::Error(error)) == LoadView::<
            Seq<(Seq<char>, Seq<char>)>,
        >::Error(error@),
        machine_detail::users_load(machine_detail::Load::Error(error)) == LoadView::<
            Seq<BmcUserView>,
        >::Error(error@),
        machine_detail::logs_load(machine_detail::Load::Error(error)) == LoadView::<
            Seq<SelEntryView>,
        >::Error(error@),
        ({
            let f = machine_detail::overview_load(machine_detail::Load::Loaded(facts))->Loaded_0;
            let u = machine_detail::users_load(machine_detail::Load::Loaded(users))->Loaded_0;
            let e = machine_detail::logs_load(machine_detail::Load::Loaded(log))->Loaded_0;
            &&& f.len() == facts@.len() && u.len() == users@.len() && e.len() == log@.len()
            &&& 0 <= i < f.len() ==> f[i] == (facts@[i].0@, facts@[i].1@)
            &&& 0 <= i < u.len() ==> u[i] == users@[i]@
            &&& 0 <= i < e.len() ==> e[i] == log@[i]@
        }),
{
}

} // verus!
