//! The root and the terminal's decisions.

use fishtank::app::machine_detail::{DetailTab, MachineDetailMsg};
use fishtank::app::machine_list::MachineListMsg;
use fishtank::app::root::{ActiveView, AppRoot, ListOutcome, Route};
use fishtank::inventory::Inventory;
use fishtank::ratata::runtime::{
    console_banner, console_result, frame_delay, run_local, wait_prompt, ChildExit, LoopEvent,
    LoopExit, LoopStep, RootEnd,
};
use fishtank::ratata::tui::{keyboard_mode, stop, wants_enhancement, StopStep};
use fishtank::ratata::{Event, Key, KeyKind, KeyPress, KeyboardMode};

fn key(code: Key, control: bool) -> Event {
    Event::Key(KeyPress {
        code,
        kind: KeyKind::Press,
        control,
    })
}

fn to_list(redraw: bool) -> Route {
    Route::Forward {
        to: ActiveView::List,
        redraw,
    }
}

fn to_detail(redraw: bool) -> Route {
    Route::Forward {
        to: ActiveView::Detail,
        redraw,
    }
}

#[test]
fn keys_that_quit() {
    let root = AppRoot::new(KeyboardMode::Enhanced, true);
    assert!(root.enhanced());
    let q = key(Key::Char('q'), false);
    let ctrl_c = key(Key::Char('c'), true);
    let c = key(Key::Char('c'), false);
    assert_eq!(root.handle_event(&q, false), Route::Quit);
    assert_eq!(root.handle_event(&ctrl_c, false), Route::Quit);
    assert_eq!(root.handle_event(&c, false), to_list(false));
    // The modal captures everything.
    assert_eq!(root.handle_event(&q, true), to_list(false));
    assert_eq!(root.handle_event(&ctrl_c, true), to_list(false));
    let released = Event::Key(KeyPress {
        code: Key::Char('q'),
        kind: KeyKind::Release,
        control: false,
    });
    assert_eq!(root.handle_event(&released, false), to_list(false));
    assert_eq!(root.handle_event(&Event::Resize(80, 24), false), to_list(true));
    assert_eq!(root.handle_event(&Event::FocusLost, true), to_list(false));
}

#[test]
fn the_detail_view_comes_and_goes() {
    let mut root = AppRoot::new(KeyboardMode::Legacy, true);
    assert!(!root.enhanced());
    let m = Inventory::demo().machines[2].clone();
    match root.handle_list_msg(Some(MachineListMsg::OpenDetail(m, DetailTab::Logs))) {
        ListOutcome::Open(d) => {
            assert_eq!(d.machine.name, "dc1-r01-node03");
            assert_eq!(d.tab, DetailTab::Logs);
            assert!(d.demo);
        }
        ListOutcome::Quit => panic!("quit"),
    }
    assert_eq!(root.active_view(), ActiveView::Detail);
    assert_eq!(root.header()[1].text.trim_start().split(' ').next(), Some("F1/F2/F3"));
    // `q` means "back" here, and a capturing list does not matter.
    assert_eq!(root.handle_event(&key(Key::Char('q'), false), true), to_detail(false));
    assert_eq!(root.handle_event(&key(Key::Char('c'), true), true), Route::Quit);
    assert_eq!(root.handle_event(&Event::Resize(1, 1), false), to_detail(true));
    root.handle_detail_msg(MachineDetailMsg::Close);
    assert_eq!(root.active_view(), ActiveView::List);
    assert_eq!(root.header()[0].text, " fishtank ");
    assert!(root.header()[1].text.ends_with("q quit"));
    assert!(matches!(root.handle_list_msg(None), ListOutcome::Quit));
}

#[test]
fn the_frame_rate_is_a_cap() {
    assert_eq!(frame_delay(0, 16), 16);
    assert_eq!(frame_delay(10, 16), 6);
    assert_eq!(frame_delay(16, 16), 0);
    assert_eq!(frame_delay(99, 16), 0);
}

#[test]
fn console_texts() {
    assert_eq!(console_banner(""), None);
    assert_eq!(console_banner("hi").as_deref(), Some("\r\nhi\r\n\r\n"));
    assert_eq!(console_result(ChildExit::Success), Ok(()));
    assert_eq!(
        console_result(ChildExit::Failure("exit status: 1".to_string())),
        Err("console exited (exit status: 1)".to_string())
    );
    assert_eq!(
        console_result(ChildExit::NotRun("no such file".to_string())),
        Err("console error: no such file".to_string())
    );
    assert_eq!(wait_prompt("x"), "\r\nx — press Enter to return…\r\n");
}

#[test]
fn keyboard_negotiation() {
    assert!(wants_enhancement(true, None));
    assert!(wants_enhancement(false, Some(true)));
    assert!(!wants_enhancement(false, Some(false)));
    assert!(!wants_enhancement(false, None));
    assert_eq!(keyboard_mode(true, true), KeyboardMode::Enhanced);
    assert_eq!(keyboard_mode(true, false), KeyboardMode::Legacy);
    assert_eq!(keyboard_mode(false, true), KeyboardMode::Legacy);
}

#[test]
fn the_input_pump_is_stopped_step_by_step() {
    assert_eq!(stop(1), StopStep::Wait);
    assert_eq!(stop(50), StopStep::Wait);
    assert_eq!(stop(51), StopStep::Abort);
    assert_eq!(stop(100), StopStep::Abort);
    assert_eq!(stop(101), StopStep::GiveUp);
}

#[test]
fn the_render_loop() {
    match run_local(LoopEvent::RootEnded(RootEnd::Panicked("boom".to_string())), 16) {
        LoopStep::Exit {
            why: LoopExit::Failed(msg),
            await_root,
        } => {
            assert_eq!(msg, "root component panicked: boom");
            assert!(!await_root);
        }
        _ => panic!("goes on"),
    }
    for end in [RootEnd::Finished, RootEnd::Cancelled] {
        assert!(matches!(
            run_local(LoopEvent::RootEnded(end), 16),
            LoopStep::Exit {
                why: LoopExit::Clean,
                await_root: false
            }
        ));
    }
    assert!(matches!(
        run_local(LoopEvent::RedrawRequested { since_last: 10 }, 16),
        LoopStep::Draw { delay: 6 }
    ));
    assert!(matches!(
        run_local(LoopEvent::Drawn { ok: true }, 16),
        LoopStep::Wait
    ));
    assert!(matches!(
        run_local(LoopEvent::Drawn { ok: false }, 16),
        LoopStep::Exit {
            why: LoopExit::DrawFailed,
            await_root: true
        }
    ));
    assert!(matches!(run_local(LoopEvent::Input, 16), LoopStep::Forward));
    assert!(matches!(
        run_local(LoopEvent::ConsoleRequested, 16),
        LoopStep::RunConsole
    ));
}
