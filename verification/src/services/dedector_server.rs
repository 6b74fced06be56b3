//! The service by which a broadcaster tells clients where its stream comes from.
use vstd::prelude::*;
use super::Announcement;
use super::informip::{announcement_message, spec_announcement, ANNOUNCE_INTERVAL_MS, BROADCAST_PORT};

verus! {

/// The announcement that tells the clients where the stream of the server
/// comes from: `micast-dj|{server_address}|{tcp_port}|` and a line break, sent
/// to the broadcast address of every IPv4 interface on [`BROADCAST_PORT`]
/// every five seconds.
pub fn service(server_address: &str, tcp_port: u32) -> (a: Announcement)
    ensures
        a.payload@ == spec_announcement(server_address@, tcp_port as nat),
        a.port == BROADCAST_PORT,
        a.interval_ms == ANNOUNCE_INTERVAL_MS,
{
    Announcement {
        payload: announcement_message(server_address, tcp_port),
        port: BROADCAST_PORT,
        interval_ms: ANNOUNCE_INTERVAL_MS,
    }
}

} // verus!
