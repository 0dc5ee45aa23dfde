//! Keyboard negotiation and the shutdown of the input pump.

use vstd::prelude::*;

verus! {

/// Which keyboard input encoding is in effect for this session.
///
/// The two modes encode the same physical keypress differently, so key
/// handling must branch on this rather than guess:
/// - `Legacy`: Shift+letter arrives as the capital character, and key releases
///   are not reported.
/// - `Enhanced`: the kitty keyboard protocol, with press, repeat and release.
#[derive(Debug, Clone, Copy, PartialEq, Eq, Structural)]
pub enum KeyboardMode {
    Legacy,
    Enhanced,
}

/// Whether to ask for the enhanced protocol: it is forced, or the terminal
/// answered that it supports it. `supported` is `None` where it did not answer.
pub fn wants_enhancement(forced: bool, supported: Option<bool>) -> (r: bool)
    ensures
        r == (forced || supported == Some(true)),
{
    forced || matches!(supported, Some(true))
}

/// The keyboard input mode negotiated: enhanced if it was asked for and the
/// terminal took the request.
pub fn keyboard_mode(wanted: bool, pushed: bool) -> (r: KeyboardMode)
    ensures
        r == if wanted && pushed {
            KeyboardMode::Enhanced
        } else {
            KeyboardMode::Legacy
        },
{
    if wanted && pushed {
        KeyboardMode::Enhanced
    } else {
        KeyboardMode::Legacy
    }
}

/// What to do with an input pump that has not ended yet.
#[derive(Debug, Clone, Copy, PartialEq, Eq, Structural)]
pub enum StopStep {
    /// Give it more time.
    Wait,
    /// Abort it, and go on waiting.
    Abort,
    /// Abort it and give up on it.
    GiveUp,
}

/// What to do after `waited` milliseconds of waiting for the input pump.
pub fn stop(waited: u32) -> (r: StopStep)
    ensures
        r is Wait <==> waited <= 50,
        r is Abort <==> 50 < waited <= 100,
        r is GiveUp <==> waited > 100,
{
    if waited > 100 {
        StopStep::GiveUp
    } else if waited > 50 {
        StopStep::Abort
    } else {
        StopStep::Wait
    }
}

} // verus!
