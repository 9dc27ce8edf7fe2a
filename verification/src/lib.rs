//! Verified core of a desktop-automation agent for macOS: element reference
//! maps and their routing, app detection, snapshot formatting, the daemon's
//! request decisions, the browser-bridge command lines and sessions, input
//! plans, the command-line rules, the client's output lines, and the
//! reading of what system tools print.
pub mod text;
pub mod errors;
pub mod types;
pub mod protocol;
pub mod refmap;
pub mod cdp;
pub mod detector;
pub mod snapshot;
pub mod cli;
pub mod connection;
pub mod input;
pub mod launch;
pub mod sessions;
pub mod browser;
pub mod daemon;
pub mod workspace;
pub mod output;
pub mod sysout;
pub mod capture;
