//! How servers announce themselves on the local network and how clients find
//! them: the texts that go over the wire and the choices made around them.
use vstd::prelude::*;

pub mod informip;
pub mod dedector_server;
pub mod clock_server;
pub mod dedector_client;

verus! {

/// How long a client waits before it confirms an announcement again.
pub const RECONFIRMATIONTIME_IN_MS: u64 = 1200;

/// How long a server waits for a confirmation before it drops a client.
pub const TIMEOUT_CONFIRM_IN_MS: u64 = 5000;

/// A datagram that a service sends again and again to announce itself.
pub struct Announcement {
    /// The bytes of the datagram, as text.
    pub payload: String,
    /// The UDP port that the datagram is sent to.
    pub port: u16,
    /// The pause between two rounds of sending, in milliseconds.
    pub interval_ms: u64,
}

} // verus!
