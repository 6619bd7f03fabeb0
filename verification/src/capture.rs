//! Capture planning: which display to grab and after what delay.

use vstd::prelude::*;

verus! {

/// A timer shorter than this many milliseconds is lengthened.
pub const SHORT_TIMER_MS: u64 = 1000;

/// What a short timer is lengthened by, in milliseconds, so that the
/// capturing window is out of the way before the grab.
pub const HIDE_ALLOWANCE_MS: u64 = 350;

/// A capture to carry out off the interactive thread: wait, then grab the
/// display.
#[derive(Clone, Copy, PartialEq, Eq, Structural, Debug)]
pub struct CaptureRequest {
    /// Index of the display among those enumerated.
    pub display: usize,
    /// How long to wait before the grab, in milliseconds.
    pub delay_ms: u64,
}

/// Why a capture was not started, or was dropped.
#[derive(Clone, Copy, PartialEq, Eq, Structural, Debug)]
pub enum CaptureError {
    /// The display index names none of the enumerated displays.
    InvalidDisplay,
}

/// The delay before a grab for a timer setting: a timer under one second is
/// lengthened by the hide allowance, a longer one is used as it is.
pub open spec fn capture_delay(timer_ms: u64) -> u64 {
    if timer_ms < SHORT_TIMER_MS {
        (timer_ms + HIDE_ALLOWANCE_MS) as u64
    } else {
        timer_ms
    }
}

/// Computes the delay before a grab for a timer setting.
pub fn capture_delay_ms(timer_ms: u64) -> (res: u64)
    ensures
        res == capture_delay(timer_ms),
{
    if timer_ms < SHORT_TIMER_MS {
        timer_ms + HIDE_ALLOWANCE_MS
    } else {
        timer_ms
    }
}

/// Plans a capture of display `display` out of `display_count` enumerated
/// displays, to be taken after `delay_ms` milliseconds. The delay is used as
/// it is given. An index that names no display is refused before anything is
/// dispatched.
pub fn plan_capture(display: usize, display_count: usize, delay_ms: u64) -> (res: Result<
    CaptureRequest,
    CaptureError,
>)
    ensures
        display < display_count ==> res == Ok::<CaptureRequest, CaptureError>(
            CaptureRequest { display, delay_ms },
        ),
        display >= display_count ==> res == Err::<CaptureRequest, CaptureError>(
            CaptureError::InvalidDisplay,
        ),
{
    if display < display_count {
        Ok(CaptureRequest { display, delay_ms })
    } else {
        Err(CaptureError::InvalidDisplay)
    }
}

/// Resolves the display again once the delay has passed, against the
/// displays enumerated then. A display that has vanished in the meantime
/// ends the capture: nothing is grabbed and nothing delivered.
pub fn resolve_display(request: CaptureRequest, display_count: usize) -> (res: Result<
    usize,
    CaptureError,
>)
    ensures
        request.display < display_count ==> res == Ok::<usize, CaptureError>(request.display),
        request.display >= display_count ==> res == Err::<usize, CaptureError>(
            CaptureError::InvalidDisplay,
        ),
{
    if request.display < display_count {
        Ok(request.display)
    } else {
        Err(CaptureError::InvalidDisplay)
    }
}

} // verus!
