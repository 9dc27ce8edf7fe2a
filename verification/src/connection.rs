//! Why talking to the daemon failed, and how each failure is reported.
use vstd::prelude::*;
use vstd::string::*;
use crate::text::concat2;

verus! {

/// A failure to reach the daemon or to exchange a message with it.
pub enum ConnectionError {
    DaemonNotFound,
    DaemonStartTimeout,
    ConnectionFailed(String),
    ConnectionClosed,
    WriteFailed(String),
    EncodingFailed(String),
    DecodingFailed(String),
}

/// The text reported for a connection failure.
pub open spec fn connection_message(e: ConnectionError) -> Seq<char> {
    match e {
        ConnectionError::DaemonNotFound => "Could not find agent-desktop-daemon binary. Make sure it's in the same directory as agent-desktop or on your PATH."@,
        ConnectionError::DaemonStartTimeout => "Daemon did not start within 5 seconds. Check if another instance is running or if there are permission issues."@,
        ConnectionError::ConnectionFailed(d) => "Failed to connect to daemon socket: "@ + d@,
        ConnectionError::ConnectionClosed => "Daemon closed the connection unexpectedly."@,
        ConnectionError::WriteFailed(d) => "Failed to send data to daemon: "@ + d@,
        ConnectionError::EncodingFailed(d) => "Failed to encode request as JSON: "@ + d@,
        ConnectionError::DecodingFailed(d) => "Failed to decode response from daemon: "@ + d@,
    }
}

impl ConnectionError {
    /// The text reported for this failure.
    pub fn message(&self) -> (r: String)
        ensures
            r@ == connection_message(*self),
    {
        match self {
            ConnectionError::DaemonNotFound => String::from_str(
                "Could not find agent-desktop-daemon binary. Make sure it's in the same directory as agent-desktop or on your PATH.",
            ),
            ConnectionError::DaemonStartTimeout => String::from_str(
                "Daemon did not start within 5 seconds. Check if another instance is running or if there are permission issues.",
            ),
            ConnectionError::ConnectionFailed(d) => concat2("Failed to connect to daemon socket: ", d.as_str()),
            ConnectionError::ConnectionClosed => String::from_str("Daemon closed the connection unexpectedly."),
            ConnectionError::WriteFailed(d) => concat2("Failed to send data to daemon: ", d.as_str()),
            ConnectionError::EncodingFailed(d) => concat2("Failed to encode request as JSON: ", d.as_str()),
            ConnectionError::DecodingFailed(d) => concat2("Failed to decode response from daemon: ", d.as_str()),
        }
    }
}

} // verus!
