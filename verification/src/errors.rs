//! Error reports with a machine-readable code, a message and a suggestion,
//! worded for an automated agent that drives the desktop.
use vstd::prelude::*;
use vstd::string::*;
use crate::text::{concat2, concat3, decimal, format_decimal, join, join_strings, views};

verus! {

/// The code of an unknown element reference.
pub const REF_NOT_FOUND: &'static str = "REF_NOT_FOUND";
/// The code of a reference whose element can no longer be located.
pub const REF_STALE: &'static str = "REF_STALE";
/// The code used when no snapshot has produced references yet.
pub const NO_REF_MAP: &'static str = "NO_REF_MAP";
/// The code of an unknown application.
pub const APP_NOT_FOUND: &'static str = "APP_NOT_FOUND";
/// The code of a missing window.
pub const WINDOW_NOT_FOUND: &'static str = "WINDOW_NOT_FOUND";
/// The code of a missing system permission.
pub const PERMISSION_DENIED: &'static str = "PERMISSION_DENIED";
/// The code of a snapshot that ran out of time.
pub const TIMEOUT: &'static str = "TIMEOUT";
/// The code of an accessibility API failure.
pub const AX_ERROR: &'static str = "AX_ERROR";
/// The code of an input simulation failure.
pub const INPUT_ERROR: &'static str = "INPUT_ERROR";
/// The code of a malformed or unknown command.
pub const INVALID_COMMAND: &'static str = "INVALID_COMMAND";
/// The code of an internal daemon failure.
pub const DAEMON_ERROR: &'static str = "DAEMON_ERROR";
/// The code of an app without a DevTools endpoint.
pub const CDP_NOT_AVAILABLE: &'static str = "CDP_NOT_AVAILABLE";
/// The code of a DevTools protocol failure.
pub const CDP_ERROR: &'static str = "CDP_ERROR";

/// An error as reported to the client.
pub struct ErrorInfo {
    pub code: String,
    pub message: String,
    pub suggestion: Option<String>,
}

/// The abstract content of an error report.
pub struct ErrorInfoView {
    pub code: Seq<char>,
    pub message: Seq<char>,
    pub suggestion: Option<Seq<char>>,
}

impl View for ErrorInfo {
    type V = ErrorInfoView;

    open spec fn view(&self) -> ErrorInfoView {
        ErrorInfoView {
            code: self.code@,
            message: self.message@,
            suggestion: crate::text::opt_view(self.suggestion),
        }
    }
}

/// The report with the given code, message and suggestion.
pub open spec fn report(code: Seq<char>, message: Seq<char>, suggestion: Option<Seq<char>>) -> ErrorInfoView {
    ErrorInfoView { code, message, suggestion }
}

/// The report of an unknown element reference.
pub open spec fn ref_not_found_report(ref_id: Seq<char>) -> ErrorInfoView {
    report(
        REF_NOT_FOUND@,
        "Element @"@ + ref_id + " not found. The UI may have changed."@,
        Some("Run `snapshot` to refresh element references."@),
    )
}

/// The report given when no snapshot has produced references yet.
pub open spec fn no_ref_map_report() -> ErrorInfoView {
    report(
        NO_REF_MAP@,
        "No element references available."@,
        Some("Run `snapshot -i` first to discover interactive elements."@),
    )
}

/// The report of a malformed or unknown command.
pub open spec fn invalid_command_report(detail: Seq<char>) -> ErrorInfoView {
    report(INVALID_COMMAND@, "Invalid command: "@ + detail, Some("Run `agent-computer --help` for usage."@))
}

/// The report of an internal daemon failure.
pub open spec fn daemon_error_report(detail: Seq<char>) -> ErrorInfoView {
    report(DAEMON_ERROR@, "Daemon error: "@ + detail, None)
}

/// An element reference that the current map does not hold.
pub fn ref_not_found(ref_id: &str) -> (r: ErrorInfo)
    ensures
        r@ == ref_not_found_report(ref_id@),
{
    ErrorInfo {
        code: String::from_str(REF_NOT_FOUND),
        message: concat3("Element @", ref_id, " not found. The UI may have changed."),
        suggestion: Some(String::from_str("Run `snapshot` to refresh element references.")),
    }
}

/// An element reference whose element can no longer be located.
pub fn ref_stale(ref_id: &str) -> (r: ErrorInfo)
    ensures
        r@ == report(
            REF_STALE@,
            "Element @"@ + ref_id@ + " existed but can no longer be located."@,
            Some("Run `snapshot` to refresh element references."@),
        ),
{
    ErrorInfo {
        code: String::from_str(REF_STALE),
        message: concat3("Element @", ref_id, " existed but can no longer be located."),
        suggestion: Some(String::from_str("Run `snapshot` to refresh element references.")),
    }
}

/// No snapshot has produced element references yet.
pub fn no_ref_map() -> (r: ErrorInfo)
    ensures
        r@ == no_ref_map_report(),
{
    ErrorInfo {
        code: String::from_str(NO_REF_MAP),
        message: String::from_str("No element references available."),
        suggestion: Some(String::from_str("Run `snapshot -i` first to discover interactive elements.")),
    }
}

/// An application that could not be found; lists the running apps when any are known.
pub fn app_not_found(name: &str, suggestions: &[String]) -> (r: ErrorInfo)
    ensures
        r@ == report(
            APP_NOT_FOUND@,
            if suggestions@.len() == 0 {
                "Application '"@ + name@ + "' not found."@
            } else {
                "Application '"@ + name@ + "' not found. Running apps: "@ + join(views(suggestions@), ", "@)
            },
            Some("Check the app name and try again."@),
        ),
{
    let msg = if suggestions.len() == 0 {
        concat3("Application '", name, "' not found.")
    } else {
        let mut m = concat3("Application '", name, "' not found. Running apps: ");
        let joined = join_strings(suggestions, ", ");
        m.append(joined.as_str());
        m
    };
    ErrorInfo {
        code: String::from_str(APP_NOT_FOUND),
        message: msg,
        suggestion: Some(String::from_str("Check the app name and try again.")),
    }
}

/// The accessibility permission has not been granted.
pub fn permission_denied_accessibility() -> (r: ErrorInfo)
    ensures
        r@ == report(
            PERMISSION_DENIED@,
            "Accessibility permission required."@,
            Some("Grant access in System Settings → Privacy & Security → Accessibility."@),
        ),
{
    ErrorInfo {
        code: String::from_str(PERMISSION_DENIED),
        message: String::from_str("Accessibility permission required."),
        suggestion: Some(String::from_str("Grant access in System Settings → Privacy & Security → Accessibility.")),
    }
}

/// The screen recording permission has not been granted.
pub fn permission_denied_screen_recording() -> (r: ErrorInfo)
    ensures
        r@ == report(
            PERMISSION_DENIED@,
            "Screen Recording permission required."@,
            Some("Grant access in System Settings → Privacy & Security → Screen Recording."@),
        ),
{
    ErrorInfo {
        code: String::from_str(PERMISSION_DENIED),
        message: String::from_str("Screen Recording permission required."),
        suggestion: Some(String::from_str("Grant access in System Settings → Privacy & Security → Screen Recording.")),
    }
}

/// A snapshot ran out of time after `partial_count` of about `total_estimate` elements.
pub fn timeout(partial_count: usize, total_estimate: usize) -> (r: ErrorInfo)
    ensures
        r@ == report(
            TIMEOUT@,
            "Snapshot timed out. Returning partial results ("@ + decimal(partial_count as nat)
                + " of ~"@ + decimal(total_estimate as nat) + " elements)."@,
            Some("Try `snapshot -d 5` to reduce depth."@),
        ),
{
    let partial = format_decimal(partial_count as u64);
    let total = format_decimal(total_estimate as u64);
    let mut m = concat3("Snapshot timed out. Returning partial results (", partial.as_str(), " of ~");
    m.append(total.as_str());
    m.append(" elements).");
    ErrorInfo {
        code: String::from_str(TIMEOUT),
        message: m,
        suggestion: Some(String::from_str("Try `snapshot -d 5` to reduce depth.")),
    }
}

/// An accessibility API failure.
pub fn ax_error(detail: &str) -> (r: ErrorInfo)
    ensures
        r@ == report(
            AX_ERROR@,
            "Accessibility API error: "@ + detail@,
            Some("This may be a transient issue. Try again, or check that the target app is responsive."@),
        ),
{
    ErrorInfo {
        code: String::from_str(AX_ERROR),
        message: concat2("Accessibility API error: ", detail),
        suggestion: Some(String::from_str("This may be a transient issue. Try again, or check that the target app is responsive.")),
    }
}

/// An input simulation failure.
pub fn input_error(detail: &str) -> (r: ErrorInfo)
    ensures
        r@ == report(
            INPUT_ERROR@,
            "Input simulation error: "@ + detail@,
            Some("Check that Accessibility permission is granted."@),
        ),
{
    ErrorInfo {
        code: String::from_str(INPUT_ERROR),
        message: concat2("Input simulation error: ", detail),
        suggestion: Some(String::from_str("Check that Accessibility permission is granted.")),
    }
}

/// A malformed or unknown command.
pub fn invalid_command(detail: &str) -> (r: ErrorInfo)
    ensures
        r@ == invalid_command_report(detail@),
{
    ErrorInfo {
        code: String::from_str(INVALID_COMMAND),
        message: concat2("Invalid command: ", detail),
        suggestion: Some(String::from_str("Run `agent-computer --help` for usage.")),
    }
}

/// An internal daemon failure; it carries no suggestion.
pub fn daemon_error(detail: &str) -> (r: ErrorInfo)
    ensures
        r@ == daemon_error_report(detail@),
{
    ErrorInfo {
        code: String::from_str(DAEMON_ERROR),
        message: concat2("Daemon error: ", detail),
        suggestion: None,
    }
}

/// An app that runs without a DevTools endpoint.
pub fn cdp_not_available(app_name: &str) -> (r: ErrorInfo)
    ensures
        r@ == report(
            CDP_NOT_AVAILABLE@,
            app_name@ + " does not have CDP (Chrome DevTools Protocol) enabled."@,
            Some("Run `agent-computer open --with-cdp "@ + app_name@ + "` to relaunch with rich UI support."@),
        ),
{
    ErrorInfo {
        code: String::from_str(CDP_NOT_AVAILABLE),
        message: concat2(app_name, " does not have CDP (Chrome DevTools Protocol) enabled."),
        suggestion: Some(concat3("Run `agent-computer open --with-cdp ", app_name, "` to relaunch with rich UI support.")),
    }
}

/// A DevTools protocol failure.
pub fn cdp_error(detail: &str) -> (r: ErrorInfo)
    ensures
        r@ == report(
            CDP_ERROR@,
            "CDP error: "@ + detail@,
            Some("Check that the browser/app is running and CDP port is accessible."@),
        ),
{
    ErrorInfo {
        code: String::from_str(CDP_ERROR),
        message: concat2("CDP error: ", detail),
        suggestion: Some(String::from_str("Check that the browser/app is running and CDP port is accessible.")),
    }
}

} // verus!
