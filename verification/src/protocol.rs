//! The messages exchanged between the command-line client and the daemon:
//! request options, the arguments of each command and the data each answer
//! carries.
use vstd::prelude::*;

verus! {

/// Options that ride along with a request.
pub struct RequestOptions {
    pub timeout: Option<u64>,
    pub json: Option<bool>,
    pub verbose: Option<bool>,
}

/// Arguments of `snapshot`.
pub struct SnapshotArgs {
    /// Only interactive elements, with references (on unless turned off).
    pub interactive: bool,
    pub compact: bool,
    pub depth: Option<u32>,
    pub app: Option<String>,
    /// CSS selector scoping a browser snapshot.
    pub selector: Option<String>,
}

/// Arguments of `fill`: the element and the text that replaces its content.
pub struct FillArgs {
    pub ref_id: String,
    pub text: String,
    pub app: Option<String>,
}

/// Arguments of `type`: the text, typed into an element or the focus.
pub struct TypeArgs {
    pub ref_id: Option<String>,
    pub text: String,
    pub app: Option<String>,
}

/// Arguments of `press`: a key and its modifiers.
pub struct PressArgs {
    pub key: String,
    pub modifiers: Option<Vec<String>>,
    pub app: Option<String>,
}

/// Arguments of `scroll`.
pub struct ScrollArgs {
    pub direction: String,
    pub amount: Option<i32>,
    pub ref_id: Option<String>,
    pub app: Option<String>,
}

/// Arguments of `screenshot`.
pub struct ScreenshotArgs {
    pub full: bool,
    pub app: Option<String>,
}

/// Arguments of `open`.
pub struct OpenArgs {
    pub target: String,
    pub with_cdp: bool,
    pub background: bool,
}

/// Arguments of `get`.
pub struct GetArgs {
    pub what: String,
    pub ref_id: Option<String>,
    pub app: Option<String>,
}

/// Arguments of `wait`.
pub struct WaitArgs {
    /// An element reference or a number of milliseconds.
    pub ref_or_ms: Option<String>,
    /// A page load state to wait for.
    pub load: Option<String>,
    pub app: Option<String>,
}

/// The answer to `snapshot`.
pub struct SnapshotData {
    pub text: String,
    pub ref_count: i32,
    pub app: String,
    pub window: Option<String>,
    /// Profiling report, present in verbose mode.
    pub profile: Option<String>,
}

/// The answer to `fill`.
pub struct FillData {
    pub ref_id: String,
    pub text: String,
}

/// The answer to `type`.
pub struct TypeData {
    pub ref_id: Option<String>,
    pub text: String,
}

/// The answer to `press`.
pub struct PressData {
    pub key: String,
    pub modifiers: Vec<String>,
}

/// The answer to `scroll`.
pub struct ScrollData {
    pub direction: String,
    pub amount: i32,
}

/// The answer to `open`.
pub struct OpenData {
    pub app: String,
    pub pid: i32,
    pub was_running: bool,
    pub cdp_port: Option<u16>,
}

/// The answer to `get apps`.
pub struct GetAppsData {
    pub apps: Vec<AppInfo>,
}

/// The answer to `get text`.
pub struct GetTextData {
    pub ref_id: Option<String>,
    pub text: String,
}

/// The answer to `wait`.
pub struct WaitData {
    pub waited_ms: u64,
}

/// An element's role and label.
pub struct ElementInfo {
    pub role: String,
    pub label: Option<String>,
}

/// A running GUI application.
pub struct AppInfo {
    pub name: String,
    pub pid: i32,
    pub is_active: bool,
}

} // verus!
