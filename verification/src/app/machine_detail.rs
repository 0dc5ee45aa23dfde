//! The per-machine detail view: a tabbed page.
//!
//! Tabs (switch with F1/F2/F3): **Overview** (assorted system facts),
//! **Users** (BMC accounts + privileges), **Logs** (the SEL event log,
//! newest-first, severity-coloured). Opened from the list with `Enter`
//! (Overview), `u` (Users) or `l` (Logs). Each tab fetches its data lazily on
//! first view; `r` refetches the current tab. `j`/`k` (and arrows / PageUp-Down
//! / `g`/`G`) scroll; `q` or `Esc` returns to the list (which keeps polling in
//! the background).

use vstd::prelude::*;

use crate::app::cell::{self, Cell, CellView, Color, TEAL};
use crate::bmc::{BmcUser, BmcUserView, Health, Overview, SelEntry, SelEntryView};
use crate::inventory::{Machine, MachineView};
use crate::ratata::event::{Key, KeyKind};
use crate::text;

verus! {

/// Which detail tab is shown (also the F-key order).
#[derive(Debug, Clone, Copy, PartialEq, Eq, Structural)]
pub enum DetailTab {
    Overview,
    Users,
    Logs,
}

impl DetailTab {
    pub open spec fn name(self) -> Seq<char> {
        match self {
            DetailTab::Overview => "Overview"@,
            DetailTab::Users => "Users"@,
            DetailTab::Logs => "Logs"@,
        }
    }

    pub open spec fn number(self) -> u8 {
        match self {
            DetailTab::Overview => 1,
            DetailTab::Users => 2,
            DetailTab::Logs => 3,
        }
    }

    pub fn label(self) -> (r: &'static str)
        ensures
            r@ == self.name(),
    {
        match self {
            DetailTab::Overview => "Overview",
            DetailTab::Users => "Users",
            DetailTab::Logs => "Logs",
        }
    }

    /// F-key index (1-based) used both as the shortcut and the tab-bar label.
    pub fn fkey(self) -> (r: u8)
        ensures
            r == self.number(),
    {
        match self {
            DetailTab::Overview => 1,
            DetailTab::Users => 2,
            DetailTab::Logs => 3,
        }
    }
}

/// Lazy-load state for one tab's data.
pub enum Load<T> {
    Idle,
    Loading,
    Loaded(T),
    Error(String),
}

/// A [`Load`] of mathematical values.
pub enum LoadView<T> {
    Idle,
    Loading,
    Loaded(T),
    Error(Seq<char>),
}

/// The load state that the result of a fetch leads to.
pub open spec fn loaded<T>(r: Result<T, String>) -> Load<T> {
    match r {
        Ok(v) => Load::Loaded(v),
        Err(e) => Load::Error(e),
    }
}

pub fn into_load<T>(r: Result<T, String>) -> (l: Load<T>)
    ensures
        l == loaded(r),
{
    match r {
        Ok(v) => Load::Loaded(v),
        Err(e) => Load::Error(e),
    }
}

/// Upward message: the user asked to leave the detail view.
#[derive(Debug, Clone, Copy, PartialEq, Eq, Structural)]
pub enum MachineDetailMsg {
    Close,
}

/// Result of a per-tab fetch.
pub enum Fetched {
    Overview(Result<Overview, String>),
    Users(Result<Vec<BmcUser>, String>),
    Logs(Result<Vec<SelEntry>, String>),
}

pub open spec fn overview_load(l: Load<Overview>) -> LoadView<Seq<(Seq<char>, Seq<char>)>> {
    match l {
        Load::Idle => LoadView::Idle,
        Load::Loading => LoadView::Loading,
        Load::Loaded(v) => LoadView::Loaded(text::string_pairs(v@)),
        Load::Error(e) => LoadView::Error(e@),
    }
}

pub open spec fn users_load(l: Load<Vec<BmcUser>>) -> LoadView<Seq<BmcUserView>> {
    match l {
        Load::Idle => LoadView::Idle,
        Load::Loading => LoadView::Loading,
        Load::Loaded(v) => LoadView::Loaded(crate::bmc::user_views(v@)),
        Load::Error(e) => LoadView::Error(e@),
    }
}

pub open spec fn logs_load(l: Load<Vec<SelEntry>>) -> LoadView<Seq<SelEntryView>> {
    match l {
        Load::Idle => LoadView::Idle,
        Load::Loading => LoadView::Loading,
        Load::Loaded(v) => LoadView::Loaded(crate::bmc::entry_views(v@)),
        Load::Error(e) => LoadView::Error(e@),
    }
}

/// The result of a fetch, on mathematical values.
pub enum FetchedView {
    Overview(LoadView<Seq<(Seq<char>, Seq<char>)>>),
    Users(LoadView<Seq<BmcUserView>>),
    Logs(LoadView<Seq<SelEntryView>>),
}

impl View for Fetched {
    type V = FetchedView;

    open spec fn view(&self) -> FetchedView {
        match self {
            Fetched::Overview(r) => FetchedView::Overview(overview_load(loaded(*r))),
            Fetched::Users(r) => FetchedView::Users(users_load(loaded(*r))),
            Fetched::Logs(r) => FetchedView::Logs(logs_load(loaded(*r))),
        }
    }
}

/// The detail view of one machine.
pub struct MachineDetail {
    pub machine: Machine,
    pub demo: bool,
    pub tab: DetailTab,
    pub overview: Load<Overview>,
    pub users: Load<Vec<BmcUser>>,
    pub logs: Load<Vec<SelEntry>>,
    /// The selected row. Shared across tabs; reset to the top when switching.
    pub selected: usize,
}

/// A [`MachineDetail`] on mathematical values.
pub struct DetailView {
    pub machine: MachineView,
    pub demo: bool,
    pub tab: DetailTab,
    pub overview: LoadView<Seq<(Seq<char>, Seq<char>)>>,
    pub users: LoadView<Seq<BmcUserView>>,
    pub logs: LoadView<Seq<SelEntryView>>,
    pub selected: usize,
}

impl View for MachineDetail {
    type V = DetailView;

    open spec fn view(&self) -> DetailView {
        DetailView {
            machine: self.machine@,
            demo: self.demo,
            tab: self.tab,
            overview: overview_load(self.overview),
            users: users_load(self.users),
            logs: logs_load(self.logs),
            selected: self.selected,
        }
    }
}

/// What a key asks for.
pub struct DetailReaction {
    pub redraw: bool,
    /// The tab whose data to fetch.
    pub fetch: Option<DetailTab>,
    pub msg: Option<MachineDetailMsg>,
}

impl<T> LoadView<Seq<T>> {
    /// How many items are there to show.
    pub open spec fn count(self) -> nat {
        match self {
            LoadView::Loaded(v) => v.len(),
            _ => 0,
        }
    }

    /// What stands in place of the items while there are none to show.
    pub open spec fn placeholder(self, empty_msg: Seq<char>) -> Option<CellView> {
        match self {
            LoadView::Idle | LoadView::Loading => Some(cell::tinted("Loading…"@, Color::Yellow)),
            LoadView::Error(e) => Some(cell::tinted("Error: "@ + e, Color::Red)),
            LoadView::Loaded(v) => if v.len() == 0 {
                Some(cell::tinted(empty_msg, Color::DarkGray))
            } else {
                None
            },
        }
    }
}

/// `i` brought into `0 .. n`.
pub open spec fn clamped(i: int, n: nat) -> usize {
    if i < 0 {
        0
    } else if i >= n {
        (n - 1) as usize
    } else {
        i as usize
    }
}

impl DetailView {
    pub open spec fn start(machine: MachineView, demo: bool, tab: DetailTab) -> DetailView {
        DetailView {
            machine,
            demo,
            tab,
            overview: LoadView::Idle,
            users: LoadView::Idle,
            logs: LoadView::Idle,
            selected: 0,
        }
    }

    /// Number of selectable rows in the active tab.
    pub open spec fn rows(self) -> nat {
        match self.tab {
            DetailTab::Overview => self.overview.count(),
            DetailTab::Users => self.users.count(),
            DetailTab::Logs => self.logs.count(),
        }
    }

    pub open spec fn idle(self, tab: DetailTab) -> bool {
        match tab {
            DetailTab::Overview => self.overview is Idle,
            DetailTab::Users => self.users is Idle,
            DetailTab::Logs => self.logs is Idle,
        }
    }

    pub open spec fn loading(self, tab: DetailTab) -> DetailView {
        match tab {
            DetailTab::Overview => DetailView { overview: LoadView::Loading, ..self },
            DetailTab::Users => DetailView { users: LoadView::Loading, ..self },
            DetailTab::Logs => DetailView { logs: LoadView::Loading, ..self },
        }
    }

    /// Fetch a tab's data if it hasn't been asked for yet.
    pub open spec fn ensure_fetched(self, tab: DetailTab) -> (DetailView, Option<DetailTab>) {
        if self.idle(tab) {
            (self.loading(tab), Some(tab))
        } else {
            (self, None)
        }
    }

    pub open spec fn switch_tab(self, tab: DetailTab) -> (DetailView, Option<DetailTab>) {
        DetailView { tab, selected: 0, ..self }.ensure_fetched(tab)
    }

    pub open spec fn refetch_current(self) -> (DetailView, Option<DetailTab>) {
        (self.loading(self.tab), Some(self.tab))
    }

    pub open spec fn apply(self, f: FetchedView) -> DetailView {
        match f {
            FetchedView::Overview(l) => DetailView { overview: l, ..self },
            FetchedView::Users(l) => DetailView { users: l, ..self },
            FetchedView::Logs(l) => DetailView { logs: l, ..self },
        }
    }

    /// The view with the row `i` selected, or the nearest one that is there.
    pub open spec fn select(self, i: int) -> DetailView {
        if self.rows() == 0 {
            self
        } else {
            DetailView { selected: clamped(i, self.rows()), ..self }
        }
    }

    /// What a key does: the view after it, whether to draw it, what to fetch, and
    /// whether to leave.
    pub open spec fn key(self, code: Key, kind: KeyKind) -> (
        DetailView,
        bool,
        Option<DetailTab>,
        Option<MachineDetailMsg>,
    ) {
        let press = kind is Press;
        let unhandled = (self, false, None::<DetailTab>, None::<MachineDetailMsg>);
        if kind is Release {
            unhandled
        } else {
            match code {
                Key::F(n) => if press && n == 1 {
                    let (d, f) = self.switch_tab(DetailTab::Overview);
                    (d, true, f, None)
                } else if press && n == 2 {
                    let (d, f) = self.switch_tab(DetailTab::Users);
                    (d, true, f, None)
                } else if press && n == 3 {
                    let (d, f) = self.switch_tab(DetailTab::Logs);
                    (d, true, f, None)
                } else {
                    unhandled
                },
                Key::Down => (self.select(self.selected + 1), true, None, None),
                Key::Up => (self.select(self.selected - 1), true, None, None),
                Key::PageDown => (self.select(self.selected + 10), true, None, None),
                Key::PageUp => (self.select(self.selected - 10), true, None, None),
                Key::Esc if press => (self, false, None, Some(MachineDetailMsg::Close)),
                Key::Char(c) => if c == 'j' {
                    (self.select(self.selected + 1), true, None, None)
                } else if c == 'k' {
                    (self.select(self.selected - 1), true, None, None)
                } else if !press {
                    unhandled
                } else if c == 'g' {
                    (self.select(0), true, None, None)
                } else if c == 'G' {
                    (self.select(usize::MAX as int), true, None, None)
                } else if c == 'r' {
                    let (d, f) = self.refetch_current();
                    (d, true, f, None)
                } else if c == 'q' {
                    (self, false, None, Some(MachineDetailMsg::Close))
                } else {
                    unhandled
                },
                _ => unhandled,
            }
        }
    }
}

impl MachineDetail {
    pub fn new(machine: Machine, demo: bool, tab: DetailTab) -> (r: Self)
        ensures
            r@ == DetailView::start(machine@, demo, tab),
    {
        MachineDetail {
            machine,
            demo,
            tab,
            overview: Load::Idle,
            users: Load::Idle,
            logs: Load::Idle,
            selected: 0,
        }
    }

    /// Number of selectable rows in the active tab (for scroll clamping).
    pub fn current_len(&self) -> (r: usize)
        ensures
            r == self@.rows(),
    {
        match self.tab {
            DetailTab::Overview => match &self.overview {
                Load::Loaded(v) => v.len(),
                _ => 0,
            },
            DetailTab::Users => match &self.users {
                Load::Loaded(v) => v.len(),
                _ => 0,
            },
            DetailTab::Logs => match &self.logs {
                Load::Loaded(v) => v.len(),
                _ => 0,
            },
        }
    }

    pub fn is_idle(&self, tab: DetailTab) -> (r: bool)
        ensures
            r == self@.idle(tab),
    {
        match tab {
            DetailTab::Overview => matches!(self.overview, Load::Idle),
            DetailTab::Users => matches!(self.users, Load::Idle),
            DetailTab::Logs => matches!(self.logs, Load::Idle),
        }
    }

    fn set_loading(&mut self, tab: DetailTab)
        ensures
            final(self)@ == old(self)@.loading(tab),
    {
        match tab {
            DetailTab::Overview => {
                self.overview = Load::Loading;
            },
            DetailTab::Users => {
                self.users = Load::Loading;
            },
            DetailTab::Logs => {
                self.logs = Load::Loading;
            },
        }
    }

    /// Fetch a tab's data if it hasn't been loaded yet: the result is the tab to
    /// fetch.
    pub fn ensure_fetched(&mut self, tab: DetailTab) -> (r: Option<DetailTab>)
        ensures
            (final(self)@, r) == old(self)@.ensure_fetched(tab),
    {
        if self.is_idle(tab) {
            self.set_loading(tab);
            Some(tab)
        } else {
            None
        }
    }

    fn switch_tab(&mut self, tab: DetailTab) -> (r: Option<DetailTab>)
        ensures
            (final(self)@, r) == old(self)@.switch_tab(tab),
    {
        self.tab = tab;
        self.selected = 0;
        self.ensure_fetched(tab)
    }

    fn refetch_current(&mut self) -> (r: Option<DetailTab>)
        ensures
            (final(self)@, r) == old(self)@.refetch_current(),
    {
        let tab = self.tab;
        self.set_loading(tab);
        Some(tab)
    }

    /// Take in fetched data.
    pub fn apply(&mut self, fetched: Fetched)
        ensures
            final(self)@ == old(self)@.apply(fetched@),
    {
        match fetched {
            Fetched::Overview(r) => {
                self.overview = into_load(r);
            },
            Fetched::Users(r) => {
                self.users = into_load(r);
            },
            Fetched::Logs(r) => {
                self.logs = into_load(r);
            },
        }
    }

    fn move_selection(&mut self, down: bool, by: usize)
        ensures
            final(self)@ == old(self)@.select(
                if down {
                    old(self)@.selected + by
                } else {
                    old(self)@.selected - by
                },
            ),
    {
        let n = self.current_len();
        if n == 0 {
            return;
        }
        let last: usize = n - 1;
        let cur: usize = self.selected;
        self.selected = if down {
            if cur >= last || last - cur <= by {
                last
            } else {
                cur + by
            }
        } else {
            let up: usize = if cur < by {
                0
            } else {
                cur - by
            };
            if up > last {
                last
            } else {
                up
            }
        };
    }

    fn select_index(&mut self, idx: usize)
        ensures
            final(self)@ == old(self)@.select(idx as int),
    {
        let n = self.current_len();
        if n == 0 {
            return;
        }
        self.selected = if idx < n {
            idx
        } else {
            n - 1
        };
    }

    /// The row to highlight. A selection beyond the end of the table (its data
    /// may have shrunk) moves to the last row.
    pub fn drawn_selection(&mut self) -> (r: usize)
        ensures
            final(self)@ == old(self)@.select(old(self)@.selected as int),
            r == final(self)@.selected,
    {
        let i: usize = self.selected;
        self.select_index(i);
        self.selected
    }

    /// Take in a key.
    pub fn handle_key(&mut self, code: Key, kind: KeyKind) -> (r: DetailReaction)
        ensures
            (final(self)@, r.redraw, r.fetch, r.msg) == old(self)@.key(code, kind),
    {
        let press = matches!(kind, KeyKind::Press);
        if matches!(kind, KeyKind::Release) {
            return DetailReaction { redraw: false, fetch: None, msg: None };
        }
        let mut fetch: Option<DetailTab> = None;
        match code {
            Key::F(n) => if press && n == 1 {
                fetch = self.switch_tab(DetailTab::Overview);
            } else if press && n == 2 {
                fetch = self.switch_tab(DetailTab::Users);
            } else if press && n == 3 {
                fetch = self.switch_tab(DetailTab::Logs);
            } else {
                return DetailReaction { redraw: false, fetch: None, msg: None };
            },
            Key::Down => self.move_selection(true, 1),
            Key::Up => self.move_selection(false, 1),
            Key::PageDown => self.move_selection(true, 10),
            Key::PageUp => self.move_selection(false, 10),
            Key::Esc => {
                let msg = if press {
                    Some(MachineDetailMsg::Close)
                } else {
                    None
                };
                return DetailReaction { redraw: false, fetch: None, msg };
            },
            Key::Char(c) => if c == 'j' {
                self.move_selection(true, 1);
            } else if c == 'k' {
                self.move_selection(false, 1);
            } else if !press {
                return DetailReaction { redraw: false, fetch: None, msg: None };
            } else if c == 'g' {
                self.select_index(0);
            } else if c == 'G' {
                self.select_index(usize::MAX);
            } else if c == 'r' {
                fetch = self.refetch_current();
            } else if c == 'q' {
                let msg = Some(MachineDetailMsg::Close);
                return DetailReaction { redraw: false, fetch: None, msg };
            } else {
                // Don't redraw on unhandled keys.
                return DetailReaction { redraw: false, fetch: None, msg: None };
            },
            _ => {
                return DetailReaction { redraw: false, fetch: None, msg: None };
            },
        }
        DetailReaction { redraw: true, fetch, msg: None }
    }
}

// --- laws ----------------------------------------------------------------------

/// A tab is fetched on its first view and not again until `r` asks for it: a
/// switch to a tab fetches exactly if the tab was idle, and leaves it no longer
/// idle.
pub proof fn a_tab_is_fetched_on_its_first_view_only(d: DetailView, tab: DetailTab)
    ensures
        d.switch_tab(tab).1 == if d.idle(tab) {
            Some(tab)
        } else {
            None
        },
        !d.switch_tab(tab).0.idle(tab),
        d.switch_tab(tab).0.switch_tab(tab).1 is None,
        d.switch_tab(tab).0.tab == tab,
        d.switch_tab(tab).0.selected == 0,
{
}

/// No key makes a tab idle again, and a tab is fetched only when a key first
/// shows it or refreshes it; then it is loading.
pub proof fn what_is_fetched_is_loading(d: DetailView, code: Key, kind: KeyKind, tab: DetailTab)
    ensures
        !d.idle(tab) ==> !d.key(code, kind).0.idle(tab),
        d.key(code, kind).2 == Some(tab) ==> tab == d.key(code, kind).0.tab && !d.key(
            code,
            kind,
        ).0.idle(tab) && d.key(code, kind).0.rows() == 0,
{
}

/// Data that arrives for one tab leaves the others, the shown tab and the
/// selection alone.
pub proof fn a_fetch_fills_its_own_tab_only(d: DetailView, f: FetchedView)
    ensures
        d.apply(f).tab == d.tab,
        d.apply(f).selected == d.selected,
        d.apply(f).machine == d.machine,
        !(f is Overview) ==> d.apply(f).overview == d.overview,
        !(f is Users) ==> d.apply(f).users == d.users,
        !(f is Logs) ==> d.apply(f).logs == d.logs,
{
}

/// Scrolling stays on the table: a key that moves the selection of a table with
/// rows leaves it on one of them.
pub proof fn scrolling_stays_on_the_table(d: DetailView, code: Key, kind: KeyKind)
    requires
        d.rows() > 0,
        d.rows() <= usize::MAX,
        d.selected < d.rows(),
    ensures
        d.key(code, kind).0.rows() > 0 ==> d.key(code, kind).0.selected < d.key(
            code,
            kind,
        ).0.rows(),
{
}

/// A drawn table highlights one of its rows, whatever was selected before.
pub proof fn a_drawn_table_highlights_a_row(d: DetailView)
    requires
        d.rows() > 0,
        d.rows() <= usize::MAX,
    ensures
        d.select(d.selected as int).selected < d.rows(),
        d.selected < d.rows() ==> d.select(d.selected as int) == d,
{
}

// --- rendering -----------------------------------------------------------------

/// The machine identity line.
pub open spec fn info_look(m: MachineView) -> Seq<CellView> {
    seq![
        CellView {
            text: " "@ + m.name + " "@,
            fg: Some(Color::Black),
            bg: Some(TEAL),
            bold: true,
        },
        cell::as_is("  "@ + m.protocol.name() + "  "@ + m.host),
    ]
}

/// One entry of the tab bar and the blank behind it.
pub open spec fn tab_look(t: DetailTab, shown: DetailTab) -> Seq<CellView> {
    let label = " F"@ + text::decimal(t.number() as nat) + " "@ + (t.name() + " "@);
    seq![
        if t == shown {
            CellView { text: label, fg: Some(Color::Black), bg: Some(TEAL), bold: true }
        } else {
            cell::tinted(label, Color::Gray)
        },
        cell::as_is(" "@),
    ]
}

pub open spec fn bar_look(shown: DetailTab) -> Seq<CellView> {
    tab_look(DetailTab::Overview, shown) + tab_look(DetailTab::Users, shown) + tab_look(
        DetailTab::Logs,
        shown,
    )
}

fn tab_cell(t: DetailTab, shown: DetailTab) -> (r: Cell)
    ensures
        r@ == tab_look(t, shown)[0],
{
    let n = text::to_decimal(t.fkey() as u64);
    let front = text::join3(" F", n.as_str(), " ");
    let back = text::join2(t.label(), " ");
    let label = text::join2(front.as_str(), back.as_str());
    if t == shown {
        Cell { text: label, fg: Some(Color::Black), bg: Some(TEAL), bold: true }
    } else {
        Cell { text: label, fg: Some(Color::Gray), bg: None, bold: false }
    }
}

pub open spec fn priv_color(privilege: Seq<char>) -> Color {
    let p = text::upper(privilege);
    if p == "ADMINISTRATOR"@ {
        Color::Red
    } else if p == "OPERATOR"@ {
        Color::Yellow
    } else if p == "USER"@ {
        Color::Green
    } else {
        Color::DarkGray
    }
}

pub open spec fn user_look(u: BmcUserView) -> Seq<CellView> {
    seq![
        cell::tinted(text::pad_left(u.id, 3, ' '), Color::DarkGray),
        cell::tinted(u.name, Color::White),
        cell::tinted(u.privilege, priv_color(u.privilege)),
        if u.enabled {
            cell::tinted("yes"@, Color::Green)
        } else {
            cell::tinted("no"@, Color::DarkGray)
        },
    ]
}

pub fn user_row(u: &BmcUser) -> (r: Vec<Cell>)
    ensures
        cell::cell_views(r@) == user_look(u@),
{
    let p = text::to_upper(&text::chars_of(u.privilege.as_str()));
    let color = if text::spells(&p, "ADMINISTRATOR") {
        Color::Red
    } else if text::spells(&p, "OPERATOR") {
        Color::Yellow
    } else if text::spells(&p, "USER") {
        Color::Green
    } else {
        Color::DarkGray
    };
    let id = text::padded_left(u.id.as_str(), 3, ' ');
    let mut cells: Vec<Cell> = Vec::new();
    cells.push(Cell::colored(id.as_str(), Color::DarkGray));
    cells.push(Cell::colored(u.name.as_str(), Color::White));
    cells.push(Cell::colored(u.privilege.as_str(), color));
    if u.enabled {
        cells.push(Cell::colored("yes", Color::Green));
    } else {
        cells.push(Cell::colored("no", Color::DarkGray));
    }
    assert(cell::cell_views(cells@) =~= user_look(u@));
    cells
}

pub open spec fn severity_look(h: Health) -> CellView {
    match h {
        Health::Nominal => cell::strong("OK"@, Color::Green),
        Health::Warning => cell::strong("WARN"@, Color::Yellow),
        Health::Critical => cell::strong("CRIT"@, Color::Red),
        Health::Unknown => cell::strong("·"@, Color::DarkGray),
    }
}

pub open spec fn dash_if_empty(s: Seq<char>) -> Seq<char> {
    if s.len() == 0 {
        "—"@
    } else {
        s
    }
}

fn or_dash(s: &String) -> (r: String)
    ensures
        r@ == dash_if_empty(s@),
{
    if s.as_str().unicode_len() == 0 {
        "—".to_owned()
    } else {
        s.clone()
    }
}

/// One SEL row: a colour-coded severity tag, id, timestamp, sensor and text.
pub open spec fn entry_look(e: SelEntryView) -> Seq<CellView> {
    seq![
        severity_look(e.severity),
        cell::tinted(text::pad_left(dash_if_empty(e.id), 3, ' '), Color::DarkGray),
        cell::tinted(dash_if_empty(e.when), Color::DarkGray),
        cell::tinted(e.sensor, Color::White),
        cell::as_is(e.text),
    ]
}

pub fn sel_row(e: &SelEntry) -> (r: Vec<Cell>)
    ensures
        cell::cell_views(r@) == entry_look(e@),
{
    let mut cells: Vec<Cell> = Vec::new();
    cells.push(
        match e.severity {
            Health::Nominal => Cell::bold("OK", Color::Green),
            Health::Warning => Cell::bold("WARN", Color::Yellow),
            Health::Critical => Cell::bold("CRIT", Color::Red),
            Health::Unknown => Cell::bold("·", Color::DarkGray),
        },
    );
    let when = or_dash(&e.when);
    let id = or_dash(&e.id);
    let id = text::padded_left(id.as_str(), 3, ' ');
    cells.push(Cell::colored(id.as_str(), Color::DarkGray));
    cells.push(Cell::colored(when.as_str(), Color::DarkGray));
    cells.push(Cell::colored(e.sensor.as_str(), Color::White));
    cells.push(Cell::plain(e.text.as_str()));
    assert(cell::cell_views(cells@) =~= entry_look(e@));
    cells
}

pub open spec fn fact_look(f: (Seq<char>, Seq<char>)) -> Seq<CellView> {
    seq![cell::tinted(f.0, Color::DarkGray), cell::tinted(f.1, Color::White)]
}

pub fn overview_row(f: &(String, String)) -> (r: Vec<Cell>)
    ensures
        cell::cell_views(r@) == fact_look((f.0@, f.1@)),
{
    let mut cells: Vec<Cell> = Vec::new();
    cells.push(Cell::colored(f.0.as_str(), Color::DarkGray));
    cells.push(Cell::colored(f.1.as_str(), Color::White));
    assert(cell::cell_views(cells@) =~= fact_look((f.0@, f.1@)));
    cells
}

impl DetailView {
    /// What stands in place of the table while there is none to show.
    pub open spec fn placeholder(self) -> Option<CellView> {
        match self.tab {
            DetailTab::Overview => self.overview.placeholder("No data."@),
            DetailTab::Users => self.users.placeholder("No users."@),
            DetailTab::Logs => self.logs.placeholder("No SEL entries."@),
        }
    }

    /// The rows of the active tab's table.
    pub open spec fn table(self) -> Seq<Seq<CellView>> {
        match self.tab {
            DetailTab::Overview => match self.overview {
                LoadView::Loaded(v) => v.map_values(|f: (Seq<char>, Seq<char>)| fact_look(f)),
                _ => seq![],
            },
            DetailTab::Users => match self.users {
                LoadView::Loaded(v) => v.map_values(|u: BmcUserView| user_look(u)),
                _ => seq![],
            },
            DetailTab::Logs => match self.logs {
                LoadView::Loaded(v) => v.map_values(|e: SelEntryView| entry_look(e)),
                _ => seq![],
            },
        }
    }
}

/// The placeholder of one tab, or `None` when its data is loaded and non-empty.
fn placeholder_or_data<T>(load: &Load<Vec<T>>, empty_msg: &str) -> (r: Option<Cell>)
    ensures
        match *load {
            Load::Idle | Load::Loading => r is Some && r->0@ == cell::tinted(
                "Loading…"@,
                Color::Yellow,
            ),
            Load::Error(e) => r is Some && r->0@ == cell::tinted("Error: "@ + e@, Color::Red),
            Load::Loaded(v) => if v@.len() == 0 {
                r is Some && r->0@ == cell::tinted(empty_msg@, Color::DarkGray)
            } else {
                r is None
            },
        },
{
    match load {
        Load::Idle | Load::Loading => Some(Cell::colored("Loading…", Color::Yellow)),
        Load::Error(e) => {
            let msg = text::join2("Error: ", e.as_str());
            Some(Cell::colored(msg.as_str(), Color::Red))
        },
        Load::Loaded(v) => if v.len() == 0 {
            Some(Cell::colored(empty_msg, Color::DarkGray))
        } else {
            None
        },
    }
}

impl MachineDetail {
    /// The machine identity line.
    pub fn info_line(&self) -> (r: Vec<Cell>)
        ensures
            cell::cell_views(r@) == info_look(self@.machine),
    {
        let m = &self.machine;
        let mut cells: Vec<Cell> = Vec::new();
        cells.push(
            Cell {
                text: text::join3(" ", m.name.as_str(), " "),
                fg: Some(Color::Black),
                bg: Some(TEAL),
                bold: true,
            },
        );
        let mut rest = text::join3("  ", m.protocol.label(), "  ");
        rest.append(m.host.as_str());
        cells.push(Cell::plain(rest.as_str()));
        assert(cell::cell_views(cells@) =~= info_look(m@));
        cells
    }

    /// The tab bar.
    pub fn tab_bar(&self) -> (r: Vec<Cell>)
        ensures
            cell::cell_views(r@) == bar_look(self@.tab),
    {
        let mut cells: Vec<Cell> = Vec::new();
        cells.push(tab_cell(DetailTab::Overview, self.tab));
        cells.push(Cell::plain(" "));
        cells.push(tab_cell(DetailTab::Users, self.tab));
        cells.push(Cell::plain(" "));
        cells.push(tab_cell(DetailTab::Logs, self.tab));
        cells.push(Cell::plain(" "));
        assert(cell::cell_views(cells@) =~= bar_look(self.tab));
        cells
    }

    /// The title of the body's box.
    pub fn body_title(&self) -> (r: String)
        ensures
            r@ == " "@ + self@.tab.name() + " "@,
    {
        text::join3(" ", self.tab.label(), " ")
    }

    /// What to show in place of the active tab's table: the Loading/Error/empty
    /// placeholder, or `None` when its data is there.
    pub fn placeholder(&self) -> (r: Option<Cell>)
        ensures
            match r {
                Some(c) => self@.placeholder() == Some(c@),
                None => self@.placeholder() is None,
            },
    {
        match self.tab {
            DetailTab::Overview => placeholder_or_data(&self.overview, "No data."),
            DetailTab::Users => placeholder_or_data(&self.users, "No users."),
            DetailTab::Logs => placeholder_or_data(&self.logs, "No SEL entries."),
        }
    }

    /// The rows of the active tab's table.
    pub fn render(&self) -> (r: Vec<Vec<Cell>>)
        ensures
            cell::line_views(r@) == self@.table(),
    {
        let mut rows: Vec<Vec<Cell>> = Vec::new();
        match self.tab {
            DetailTab::Overview => {
                if let Load::Loaded(v) = &self.overview {
                    for i in 0..v.len()
                        invariant
                            rows@.len() == i,
                            forall|j: int|
                                0 <= j < i ==> cell::cell_views((#[trigger] rows@[j])@)
                                    == fact_look((v@[j].0@, v@[j].1@)),
                    {
                        rows.push(overview_row(&v[i]));
                    }
                }
            },
            DetailTab::Users => {
                if let Load::Loaded(v) = &self.users {
                    for i in 0..v.len()
                        invariant
                            rows@.len() == i,
                            forall|j: int|
                                0 <= j < i ==> cell::cell_views((#[trigger] rows@[j])@)
                                    == user_look(v@[j]@),
                    {
                        rows.push(user_row(&v[i]));
                    }
                }
            },
            DetailTab::Logs => {
                if let Load::Loaded(v) = &self.logs {
                    for i in 0..v.len()
                        invariant
                            rows@.len() == i,
                            forall|j: int|
                                0 <= j < i ==> cell::cell_views((#[trigger] rows@[j])@)
                                    == entry_look(v@[j]@),
                    {
                        rows.push(sel_row(&v[i]));
                    }
                }
            },
        }
        assert(cell::line_views(rows@) =~= self@.table());
        rows
    }
}

} // verus!
