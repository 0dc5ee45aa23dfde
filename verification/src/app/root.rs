//! Root component: hosts the machine list and an optional per-machine detail
//! view, swapping between them.
//!
//! The machine list is mounted once and kept alive for the whole session (it
//! keeps polling in the background). When the list emits
//! [`MachineListMsg::OpenDetail`], a detail view becomes the active view; when it
//! closes (or its task ends) we fall back to the list. The root owns global key
//! handling (Ctrl+C / q to quit), forwards other input to the active child, and
//! draws a one-line header above the body.

use vstd::prelude::*;

use super::cell::{self, Cell, CellView, Color, TEAL};
use super::machine_detail::{MachineDetail, MachineDetailMsg};
use super::machine_list::MachineListMsg;
use crate::ratata::event::{Event, Key, KeyKind};
use crate::ratata::tui::KeyboardMode;

verus! {

/// The root's own state.
#[derive(Debug, Clone, Copy, PartialEq, Eq, Structural)]
pub struct AppRoot {
    pub keyboard_mode: KeyboardMode,
    pub demo: bool,
    /// True while the detail view is the active (drawn / focused) body.
    pub showing_detail: bool,
}

/// The view that gets input and is drawn.
#[derive(Debug, Clone, Copy, PartialEq, Eq, Structural)]
pub enum ActiveView {
    List,
    Detail,
}

/// What becomes of an input event.
#[derive(Debug, Clone, Copy, PartialEq, Eq, Structural)]
pub enum Route {
    /// The app ends.
    Quit,
    /// The event trickles down to a view; `redraw` asks for a frame besides.
    Forward { to: ActiveView, redraw: bool },
}

/// What becomes of a message from the machine list.
pub enum ListOutcome {
    /// The list has ended, and the app with it.
    Quit,
    /// This detail view is shown from now on, in place of one that may be there.
    Open(MachineDetail),
}

impl AppRoot {
    /// Whether the event is one of the keys that quit the app: Ctrl+C anywhere,
    /// `q` on the list. While the list's modal captures input, none is.
    pub open spec fn quits(self, ev: Event, list_capturing: bool) -> bool {
        &&& ev matches Event::Key(k)
        &&& k.kind is Press
        &&& self.showing_detail || !list_capturing
        &&& (k.code == Key::Char('c') && k.control) || (k.code == Key::Char('q')
            && !self.showing_detail)
    }

    pub open spec fn active(self) -> ActiveView {
        if self.showing_detail {
            ActiveView::Detail
        } else {
            ActiveView::List
        }
    }

    pub open spec fn route(self, ev: Event, list_capturing: bool) -> Route {
        if self.quits(ev, list_capturing) {
            Route::Quit
        } else {
            Route::Forward { to: self.active(), redraw: ev is Resize }
        }
    }

    /// The root after the list asked for a detail view.
    pub open spec fn with_detail(self) -> AppRoot {
        AppRoot { showing_detail: true, ..self }
    }

    /// The root after the detail view closed.
    pub open spec fn without_detail(self) -> AppRoot {
        AppRoot { showing_detail: false, ..self }
    }

    pub fn new(keyboard_mode: KeyboardMode, demo: bool) -> (r: Self)
        ensures
            r == (AppRoot { keyboard_mode, demo, showing_detail: false }),
    {
        AppRoot { keyboard_mode, demo, showing_detail: false }
    }

    /// Whether key releases are reported, so that actions are confirmed by
    /// holding a key.
    pub fn enhanced(&self) -> (r: bool)
        ensures
            r == (self.keyboard_mode is Enhanced),
    {
        matches!(self.keyboard_mode, KeyboardMode::Enhanced)
    }

    pub fn active_view(&self) -> (r: ActiveView)
        ensures
            r == self.active(),
    {
        if self.showing_detail {
            ActiveView::Detail
        } else {
            ActiveView::List
        }
    }

    /// What to do with an input event. `list_capturing` tells whether the list's
    /// power/boot modal captures input (irrelevant while the detail view is up).
    pub fn handle_event(&self, ev: &Event, list_capturing: bool) -> (r: Route)
        ensures
            r == self.route(*ev, list_capturing),
    {
        let capturing = !self.showing_detail && list_capturing;
        if let Event::Key(k) = ev {
            if matches!(k.kind, KeyKind::Press) && !capturing {
                let ctrl_c = k.code == Key::Char('c') && k.control;
                // Ctrl+C always quits; bare `q` only on the list view (in the
                // detail view it's forwarded and means "back").
                let q_quit = k.code == Key::Char('q') && !self.showing_detail;
                if ctrl_c || q_quit {
                    return Route::Quit;
                }
            }
        }
        let redraw = matches!(ev, Event::Resize(_, _));
        Route::Forward { to: self.active_view(), redraw }
    }

    /// Take in a message from the list; `None` means that its task ended.
    pub fn handle_list_msg(&mut self, msg: Option<MachineListMsg>) -> (r: ListOutcome)
        ensures
            match msg {
                None => r is Quit && *final(self) == *old(self),
                Some(MachineListMsg::OpenDetail(machine, tab)) => {
                    &&& r matches ListOutcome::Open(d)
                    &&& d@ == super::machine_detail::DetailView::start(
                        machine@,
                        old(self).demo,
                        tab,
                    )
                    &&& *final(self) == (AppRoot { showing_detail: true, ..*old(self) })
                    &&& *final(self) == old(self).with_detail()
                },
            },
    {
        match msg {
            None => ListOutcome::Quit,
            Some(MachineListMsg::OpenDetail(machine, tab)) => {
                self.showing_detail = true;
                ListOutcome::Open(MachineDetail::new(machine, self.demo, tab))
            },
        }
    }

    /// The detail view asked to close, or its task ended: back to the list.
    pub fn handle_detail_msg(&mut self, _msg: MachineDetailMsg)
        ensures
            *final(self) == (AppRoot { showing_detail: false, ..*old(self) }),
            *final(self) == old(self).without_detail(),
    {
        self.showing_detail = false;
    }
}

/// The keys that the header names.
pub open spec fn hint(view: ActiveView) -> Seq<char> {
    match view {
        ActiveView::Detail => "  F1/F2/F3 tabs · j/k scroll · r refresh · q/Esc back · ^C quit"@,
        ActiveView::List => "  j/k nav · Space sel · p power · b boot · Enter detail · u users · l logs · c console · q quit"@,
    }
}

pub open spec fn header_look(view: ActiveView) -> Seq<CellView> {
    seq![
        CellView {
            text: " fishtank "@,
            fg: Some(Color::Black),
            bg: Some(Color::Cyan),
            bold: true,
        },
        cell::as_is(hint(view)),
    ]
}

impl AppRoot {
    /// The one-line header above the body.
    pub fn header(&self) -> (r: Vec<Cell>)
        ensures
            cell::cell_views(r@) == header_look(self.active()),
    {
        let hint = match self.active_view() {
            ActiveView::Detail => "  F1/F2/F3 tabs · j/k scroll · r refresh · q/Esc back · ^C quit",
            ActiveView::List => "  j/k nav · Space sel · p power · b boot · Enter detail · u users · l logs · c console · q quit",
        };
        let mut cells: Vec<Cell> = Vec::new();
        cells.push(
            Cell {
                text: " fishtank ".to_owned(),
                fg: Some(Color::Black),
                bg: Some(TEAL),
                bold: true,
            },
        );
        cells.push(Cell::plain(hint));
        assert(cell::cell_views(cells@) =~= header_look(self.active()));
        cells
    }
}

/// While the list's modal is open every event goes to the list; on the detail
/// view a bare `q` goes to the detail view. Nothing but a pressed key quits, and
/// an event that does not quit reaches exactly the active view.
pub proof fn events_go_to_the_active_view(root: AppRoot, ev: Event, list_capturing: bool)
    ensures
        !root.showing_detail && list_capturing ==> root.route(ev, list_capturing)
            == (Route::Forward { to: ActiveView::List, redraw: ev is Resize }),
        root.showing_detail && (ev matches Event::Key(k) && k.code == Key::Char('q')) ==> root.route(
            ev,
            list_capturing,
        ) == (Route::Forward { to: ActiveView::Detail, redraw: false }),
        !(ev is Key) ==> root.route(ev, list_capturing) == (Route::Forward {
            to: root.active(),
            redraw: ev is Resize,
        }),
        root.route(ev, list_capturing) matches Route::Forward { to, redraw } ==> to
            == root.active(),
{
}

/// The keys that quit: Ctrl+C wherever one is, and `q` on the list; neither while
/// the list's modal is open, and only when the key goes down.
pub proof fn these_keys_quit(root: AppRoot, ev: Event, list_capturing: bool)
    ensures
        ({
            let k = ev->Key_0;
            let down = ev is Key && k.kind is Press;
            let ctrl_c = down && k.code == Key::Char('c') && k.control;
            let q = down && k.code == Key::Char('q');
            let quit = root.route(ev, list_capturing) == Route::Quit;
            &&& root.showing_detail ==> (quit <==> ctrl_c)
            &&& !root.showing_detail && !list_capturing ==> (quit <==> ctrl_c || q)
            &&& !root.showing_detail && list_capturing ==> !quit
        }),
{
}

/// Input goes to the detail view while it is up, and to the list otherwise.
pub proof fn the_view_that_is_up_gets_the_input(root: AppRoot)
    ensures
        root.active() == ActiveView::Detail <==> root.showing_detail,
        root.active() == ActiveView::List <==> !root.showing_detail,
{
}

/// The header names the keys of the view that is up.
pub proof fn the_header_names_the_keys(view: ActiveView)
    ensures
        header_look(view).len() == 2,
        header_look(view)[0].text == " fishtank "@,
        view == ActiveView::Detail ==> header_look(view)[1].text
            == "  F1/F2/F3 tabs · j/k scroll · r refresh · q/Esc back · ^C quit"@,
        view == ActiveView::List ==> header_look(view)[1].text
            == "  j/k nav · Space sel · p power · b boot · Enter detail · u users · l logs · c console · q quit"@,
{
}

/// Opening a detail view brings it up, and closing it goes back to the list; the mode
/// stays.
pub proof fn opening_and_closing_the_detail_view(root: AppRoot)
    ensures
        root.with_detail().active() == ActiveView::Detail,
        root.without_detail().active() == ActiveView::List,
        root.with_detail().demo == root.demo,
        root.without_detail().demo == root.demo,
        root.with_detail().keyboard_mode == root.keyboard_mode,
        root.without_detail().keyboard_mode == root.keyboard_mode,
{
}

} // verus!
