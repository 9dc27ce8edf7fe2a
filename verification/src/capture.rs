//! The screenshot retry rule: a capture that comes out blank (a tiny PNG)
//! is taken again a few times before the daemon gives up.
use vstd::prelude::*;
use vstd::string::*;
use crate::text::concat2;

verus! {

/// PNG files smaller than this many bytes are taken to be blank.
pub const MIN_PNG_SIZE: u64 = 1024;
/// How many times a blank capture is retried.
pub const BLANK_SCREENSHOT_MAX_RETRIES: u32 = 3;
/// The pause before each retry, in milliseconds.
pub const BLANK_SCREENSHOT_RETRY_DELAY_MS: u64 = 500;

/// Whether a capture whose file has `size` bytes is blank; a file whose
/// size cannot be read is not treated as blank.
pub fn is_blank_size(size: Option<u64>) -> (r: bool)
    ensures
        r == (size matches Some(n) && n < MIN_PNG_SIZE),
{
    match size {
        Some(n) => n < MIN_PNG_SIZE,
        None => false,
    }
}

/// What to do after a capture attempt.
#[derive(Clone, Copy, PartialEq, Eq, Structural)]
pub enum CaptureStep {
    /// The capture is good: return it.
    Accept,
    /// The capture is blank: delete its file, wait, and capture again.
    DiscardAndRetry,
    /// The last allowed capture is blank as well: report failure.
    GiveUp,
}

/// The step after attempt `attempt` (0 for the first capture) came out
/// blank or not.
pub fn after_capture(attempt: u32, blank: bool) -> (r: CaptureStep)
    requires
        attempt <= BLANK_SCREENSHOT_MAX_RETRIES,
    ensures
        !blank ==> r == CaptureStep::Accept,
        blank && attempt < BLANK_SCREENSHOT_MAX_RETRIES ==> r == CaptureStep::DiscardAndRetry,
        blank && attempt == BLANK_SCREENSHOT_MAX_RETRIES ==> r == CaptureStep::GiveUp,
{
    if !blank {
        CaptureStep::Accept
    } else if attempt < BLANK_SCREENSHOT_MAX_RETRIES {
        CaptureStep::DiscardAndRetry
    } else {
        CaptureStep::GiveUp
    }
}

/// The message when every capture came out blank.
pub fn blank_failure_message() -> (r: String)
    ensures
        r@ == "Screenshot appears blank after 3 retries (file < 1024B). The window may not be fully rendered yet."@,
{
    String::from_str("Screenshot appears blank after 3 retries (file < 1024B). The window may not be fully rendered yet.")
}

/// The message when an app has no window to capture.
pub fn window_not_found_message(app: &str) -> (r: String)
    ensures
        r@ == "Window not found for app: "@ + app@,
{
    concat2("Window not found for app: ", app)
}

} // verus!
