use agent_computer::capture::{
    after_capture, blank_failure_message, is_blank_size, window_not_found_message, CaptureStep, BLANK_SCREENSHOT_MAX_RETRIES,
};

#[test]
fn blank_capture_sizes() {
    assert!(is_blank_size(Some(0)));
    assert!(is_blank_size(Some(1023)));
    assert!(!is_blank_size(Some(1024)));
    assert!(!is_blank_size(None));
}

#[test]
fn blank_captures_retry_then_give_up() {
    let mut attempt = 0;
    let mut steps = Vec::new();
    loop {
        let step = after_capture(attempt, true);
        steps.push(step);
        if step != CaptureStep::DiscardAndRetry {
            break;
        }
        attempt += 1;
    }
    assert_eq!(steps.len() as u32, BLANK_SCREENSHOT_MAX_RETRIES + 1);
    assert!(steps.last() == Some(&CaptureStep::GiveUp));
    assert!(after_capture(0, false) == CaptureStep::Accept);
    assert!(after_capture(3, false) == CaptureStep::Accept);
    assert_eq!(
        blank_failure_message(),
        "Screenshot appears blank after 3 retries (file < 1024B). The window may not be fully rendered yet."
    );
    assert_eq!(window_not_found_message("Notes"), "Window not found for app: Notes");
}
