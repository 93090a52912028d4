//! Presenting a frame again while the swapchain is still drawing.

use vstd::prelude::*;

verus! {

/// The error of a swapchain that is still drawing.
pub const WAS_STILL_DRAWING: u32 = 0x887A_000A;

/// How often a failed frame is presented again.
pub const MAX_RETRIES: u32 = 6;

/// The first pause, in milliseconds.
pub const FIRST_PAUSE: u32 = 2;

/// The longest pause, in milliseconds.
pub const LONGEST_PAUSE: u32 = 32;

/// What to do after a frame was presented.
#[derive(Debug, Clone, Copy, PartialEq, Eq, Structural)]
pub enum PresentStep {
    /// It is on the screen.
    Done,
    /// Wait this many milliseconds and present it again.
    Retry(u32),
    /// Give up with this error.
    Fail(u32),
}

/// The pause before a retry: each twice as long as the one before, up to the longest.
pub open spec fn pause(retry: nat) -> nat
    decreases retry,
{
    if retry == 0 {
        FIRST_PAUSE as nat
    } else {
        let twice = pause((retry - 1) as nat) * 2;
        if twice < LONGEST_PAUSE {
            twice
        } else {
            LONGEST_PAUSE as nat
        }
    }
}

/// The pauses stay between the first and the longest.
pub proof fn pause_bounds(retry: nat)
    ensures
        FIRST_PAUSE <= pause(retry) <= LONGEST_PAUSE,
    decreases retry,
{
    if retry > 0 {
        pause_bounds((retry - 1) as nat);
    }
}

/// The pauses are 2, 4, 8, 16 and then 32 milliseconds.
pub proof fn pause_values()
    ensures
        pause(0) == 2,
        pause(1) == 4,
        pause(2) == 8,
        pause(3) == 16,
        pause(4) == 32,
        pause(5) == 32,
{
    reveal_with_fuel(pause, 6);
}

/// What to do when presenting a frame ended in this way, after so many retries. The first
/// failure is always retried; a retry only while the swapchain is still drawing, and not
/// too often.
pub open spec fn step_after(retries: nat, error: Option<u32>) -> PresentStep {
    match error {
        None => PresentStep::Done,
        Some(code) => if retries < MAX_RETRIES && (retries == 0 || code == WAS_STILL_DRAWING) {
            PresentStep::Retry(pause(retries) as u32)
        } else {
            PresentStep::Fail(code)
        },
    }
}

/// A frame is presented again at most six times, with pauses that double from two up to
/// thirty-two milliseconds. The first time any error will do, later only that the
/// swapchain is still drawing; a failure that is not retried is handed on as it is.
pub proof fn presenting_again(retries: nat, code: u32)
    ensures
        step_after(retries, None) == PresentStep::Done,
        step_after(0, Some(code)) == PresentStep::Retry(2),
        step_after(1, Some(0x887A_000Au32)) == PresentStep::Retry(4),
        step_after(2, Some(0x887A_000Au32)) == PresentStep::Retry(8),
        step_after(3, Some(0x887A_000Au32)) == PresentStep::Retry(16),
        step_after(4, Some(0x887A_000Au32)) == PresentStep::Retry(32),
        step_after(5, Some(0x887A_000Au32)) == PresentStep::Retry(32),
        retries >= 6 ==> step_after(retries, Some(code)) == PresentStep::Fail(code),
        retries > 0 && code != 0x887A_000Au32 ==> step_after(retries, Some(code))
            == PresentStep::Fail(code),
{
    pause_values();
}

/// The retries of one frame.
#[derive(Debug)]
pub struct PresentRetry {
    retries: u32,
    backoff_ms: u32,
}

impl PresentRetry {
    /// How often the frame was presented again.
    pub closed spec fn count(&self) -> nat {
        self.retries as nat
    }

    /// The next pause goes with the number of retries.
    pub closed spec fn wf(&self) -> bool {
        self.retries <= MAX_RETRIES && self.backoff_ms == pause(self.retries as nat)
    }

    /// A frame that was not presented yet.
    pub fn new() -> (r: Self)
        ensures
            r.wf(),
            r.count() == 0,
    {
        PresentRetry { retries: 0, backoff_ms: FIRST_PAUSE }
    }

    /// Decides on the outcome of presenting the frame: `error` is the error code, if
    /// it failed. The first failure is always retried; a retry only while the
    /// swapchain is still drawing, and not too often.
    pub fn presented(&mut self, error: Option<u32>) -> (r: PresentStep)
        requires
            old(self).wf(),
        ensures
            final(self).wf(),
            r == step_after(old(self).count(), error),
            final(self).count() == if r is Retry {
                old(self).count() + 1
            } else {
                old(self).count()
            },
    {
        match error {
            None => PresentStep::Done,
            Some(code) => {
                proof {
                    pause_bounds(self.retries as nat);
                }
                if self.retries < MAX_RETRIES && (self.retries == 0 || code == WAS_STILL_DRAWING) {
                    let wait: u32 = self.backoff_ms;
                    self.retries = self.retries + 1;
                    let twice: u32 = self.backoff_ms * 2;
                    self.backoff_ms = if twice < LONGEST_PAUSE {
                        twice
                    } else {
                        LONGEST_PAUSE
                    };
                    PresentStep::Retry(wait)
                } else {
                    PresentStep::Fail(code)
                }
            },
        }
    }
}

} // verus!
