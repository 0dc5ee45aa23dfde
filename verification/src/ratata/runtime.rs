//! What the render loop and the console hand-over decide.

use vstd::prelude::*;

use crate::text;

verus! {

/// A request to suspend the terminal view and hand the real terminal to an
/// interactive child process, then come back when it exits.
pub struct ConsoleRequest {
    /// Program to run (e.g. `"ipmitool"`).
    pub program: String,
    pub args: Vec<String>,
    /// Extra environment for the child (e.g. `IPMI_PASSWORD`), kept out of the
    /// arguments.
    pub envs: Vec<(String, String)>,
    /// One-line note printed before launch (e.g. how to exit the console).
    pub note: String,
}

/// The texts of a [`ConsoleRequest`].
pub struct ConsoleView {
    pub program: Seq<char>,
    pub args: Seq<Seq<char>>,
    pub envs: Seq<(Seq<char>, Seq<char>)>,
    pub note: Seq<char>,
}

impl View for ConsoleRequest {
    type V = ConsoleView;

    open spec fn view(&self) -> ConsoleView {
        ConsoleView {
            program: self.program@,
            args: text::strings(self.args@),
            envs: text::string_pairs(self.envs@),
            note: self.note@,
        }
    }
}

/// How long to wait before the next frame, in nanoseconds. The frame rate is a
/// cap: two frames are at least `frame_min` apart.
pub fn frame_delay(elapsed: u128, frame_min: u128) -> (r: u128)
    ensures
        elapsed < frame_min ==> elapsed + r == frame_min,
        elapsed >= frame_min ==> r == 0,
{
    if elapsed < frame_min {
        frame_min - elapsed
    } else {
        0
    }
}

/// How the root component's task ended.
pub enum RootEnd {
    Finished,
    Cancelled,
    /// It panicked; the text describes how.
    Panicked(String),
}

/// What ends the render loop.
pub enum LoopExit {
    /// The root component is done.
    Clean,
    /// The root component failed, with this message.
    Failed(String),
    /// A frame could not be drawn.
    DrawFailed,
}

/// What wakes the render loop.
pub enum LoopEvent {
    RootEnded(RootEnd),
    /// Someone asked for a frame, this long after the last one.
    RedrawRequested { since_last: u128 },
    /// A frame has been drawn, or could not be.
    Drawn { ok: bool },
    /// Input for the component tree.
    Input,
    /// A console asks for the terminal.
    ConsoleRequested,
}

/// What the render loop does next.
pub enum LoopStep {
    /// Leave the loop. `await_root` tells whether the root's task is still to be
    /// waited for: a task that has ended must not be polled again.
    Exit { why: LoopExit, await_root: bool },
    /// Draw a frame after waiting this long.
    Draw { delay: u128 },
    /// Wait for the next event.
    Wait,
    /// Hand the input to the root component.
    Forward,
    /// Leave the terminal view, run the console, come back and draw at once.
    RunConsole,
}

/// A [`LoopStep`] with its texts. `failure` is the message of a root that failed.
pub enum StepView {
    Exit { failure: Option<Seq<char>>, drawn: bool, await_root: bool },
    Draw { delay: int },
    Wait,
    Forward,
    RunConsole,
}

impl View for LoopStep {
    type V = StepView;

    open spec fn view(&self) -> StepView {
        match self {
            LoopStep::Exit { why, await_root } => StepView::Exit {
                failure: match why {
                    LoopExit::Failed(msg) => Some(msg@),
                    _ => None,
                },
                drawn: !(why is DrawFailed),
                await_root: *await_root,
            },
            LoopStep::Draw { delay } => StepView::Draw { delay: *delay as int },
            LoopStep::Wait => StepView::Wait,
            LoopStep::Forward => StepView::Forward,
            LoopStep::RunConsole => StepView::RunConsole,
        }
    }
}

/// What the render loop does next.
pub open spec fn next_step(event: LoopEvent, frame_min: u128) -> StepView {
    match event {
        LoopEvent::RootEnded(end) => StepView::Exit {
            failure: match end {
                RootEnd::Panicked(e) => Some("root component panicked: "@ + e@),
                _ => None,
            },
            drawn: true,
            await_root: false,
        },
        LoopEvent::RedrawRequested { since_last } => StepView::Draw {
            delay: if since_last < frame_min {
                frame_min - since_last
            } else {
                0
            },
        },
        LoopEvent::Drawn { ok } => if ok {
            StepView::Wait
        } else {
            StepView::Exit { failure: None, drawn: false, await_root: true }
        },
        LoopEvent::Input => StepView::Forward,
        LoopEvent::ConsoleRequested => StepView::RunConsole,
    }
}

/// The loop ends with its root, with the panic of a root that panicked, and when a
/// frame cannot be drawn; nothing else ends it. A root that has ended is not waited
/// for again, one that is still there is.
pub proof fn what_ends_the_render_loop(event: LoopEvent, frame_min: u128)
    ensures
        ({
            let step = next_step(event, frame_min);
            &&& step is Exit <==> event is RootEnded || event == (LoopEvent::Drawn { ok: false })
            &&& step is Exit ==> (step->await_root <==> !(event is RootEnded))
            &&& step is Exit ==> (step->drawn <==> event is RootEnded)
            &&& step is Exit ==> (step->failure is Some <==> event is RootEnded
                && event->RootEnded_0 is Panicked)
            &&& event is RootEnded && event->RootEnded_0 is Panicked ==> step->failure == Some(
                "root component panicked: "@ + event->RootEnded_0->Panicked_0@,
            )
        }),
{
}

/// Each request for a frame is drawn, never sooner than `frame_min` after the last
/// frame and at once if that is over; input is forwarded, and a console is run.
pub proof fn what_keeps_the_render_loop_going(since_last: u128, frame_min: u128)
    ensures
        ({
            let step = next_step(LoopEvent::RedrawRequested { since_last }, frame_min);
            &&& step is Draw
            &&& step->delay >= 0
            &&& since_last + step->delay >= frame_min
            &&& step->delay > 0 ==> since_last + step->delay == frame_min
        }),
        next_step(LoopEvent::Input, frame_min) == StepView::Forward,
        next_step(LoopEvent::ConsoleRequested, frame_min) == StepView::RunConsole,
        next_step(LoopEvent::Drawn { ok: true }, frame_min) == StepView::Wait,
{
}

/// The render loop: it draws on demand, at most once per `frame_min`.
pub fn run_local(event: LoopEvent, frame_min: u128) -> (r: LoopStep)
    ensures
        match event {
            LoopEvent::RootEnded(RootEnd::Panicked(e)) => {
                &&& r matches LoopStep::Exit { why: LoopExit::Failed(msg), await_root }
                &&& msg@ == "root component panicked: "@ + e@
                &&& !await_root
            },
            LoopEvent::RootEnded(_) => r == (LoopStep::Exit {
                why: LoopExit::Clean,
                await_root: false,
            }),
            LoopEvent::RedrawRequested { since_last } => {
                &&& r matches LoopStep::Draw { delay }
                &&& since_last < frame_min ==> since_last + delay == frame_min
                &&& since_last >= frame_min ==> delay == 0
            },
            LoopEvent::Drawn { ok } => if ok {
                r == LoopStep::Wait
            } else {
                r == (LoopStep::Exit { why: LoopExit::DrawFailed, await_root: true })
            },
            LoopEvent::Input => r == LoopStep::Forward,
            LoopEvent::ConsoleRequested => r == LoopStep::RunConsole,
        },
        r@ == next_step(event, frame_min),
{
    match event {
        LoopEvent::RootEnded(end) => match end {
            RootEnd::Panicked(e) => {
                let msg = text::join2("root component panicked: ", e.as_str());
                LoopStep::Exit { why: LoopExit::Failed(msg), await_root: false }
            },
            _ => LoopStep::Exit { why: LoopExit::Clean, await_root: false },
        },
        LoopEvent::RedrawRequested { since_last } => LoopStep::Draw {
            delay: frame_delay(since_last, frame_min),
        },
        LoopEvent::Drawn { ok } => if ok {
            LoopStep::Wait
        } else {
            LoopStep::Exit { why: LoopExit::DrawFailed, await_root: true }
        },
        LoopEvent::Input => LoopStep::Forward,
        LoopEvent::ConsoleRequested => LoopStep::RunConsole,
    }
}

/// What is printed on the terminal before the child starts, if there is a note.
/// Explicit CR+LF and a leading CR: the program before may have left the cursor
/// in the middle of a line.
pub fn console_banner(note: &str) -> (r: Option<String>)
    ensures
        note@.len() == 0 ==> r is None,
        note@.len() > 0 ==> r is Some && r->0@ == "\r\n"@ + note@ + "\r\n\r\n"@,
{
    if note.unicode_len() == 0 {
        None
    } else {
        Some(text::join3("\r\n", note, "\r\n\r\n"))
    }
}

/// How the console's child process ended.
pub enum ChildExit {
    Success,
    /// It ran and failed; the text describes its exit status.
    Failure(String),
    /// It could not be run.
    NotRun(String),
}

/// The result of a console session: what is reported, and shown to the operator
/// until they press Enter, where it was no success.
pub fn console_result(exit: ChildExit) -> (r: Result<(), String>)
    ensures
        match exit {
            ChildExit::Success => r is Ok,
            ChildExit::Failure(s) => r is Err && r->Err_0@ == "console exited ("@ + s@ + ")"@,
            ChildExit::NotRun(e) => r is Err && r->Err_0@ == "console error: "@ + e@,
        },
{
    match exit {
        ChildExit::Success => Ok(()),
        ChildExit::Failure(s) => Err(text::join3("console exited (", s.as_str(), ")")),
        ChildExit::NotRun(e) => Err(text::join2("console error: ", e.as_str())),
    }
}

/// What the operator reads before the view is drawn again.
pub fn wait_prompt(msg: &str) -> (r: String)
    ensures
        r@ == "\r\n"@ + msg@ + " — press Enter to return…\r\n"@,
{
    text::join3("\r\n", msg, " — press Enter to return…\r\n")
}

} // verus!
