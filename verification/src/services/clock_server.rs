//! The service by which a clock server makes itself known.
use vstd::prelude::*;
use super::Announcement;
use super::informip::ANNOUNCE_INTERVAL_MS;
use crate::text::str_eq;

verus! {

/// The port that the clock announcement is sent from and to.
pub const CLOCK_ANNOUNCE_PORT: u16 = 5015;

/// The text of the clock announcement.
pub open spec fn spec_clock_payload() -> Seq<char> {
    seq!['m', 'i', 'c', 'a', 's', 't', '-', 'd', 'j']
}

/// The announcement of a clock server: the text `micast-dj`, sent to the
/// limited broadcast address on [`CLOCK_ANNOUNCE_PORT`] every five seconds.
pub fn service() -> (a: Announcement)
    ensures
        a.payload@ == spec_clock_payload(),
        a.port == CLOCK_ANNOUNCE_PORT,
        a.interval_ms == ANNOUNCE_INTERVAL_MS,
{
    proof {
        reveal_strlit("micast-dj");
    }
    let payload = String::from_str("micast-dj");
    assert(payload@ =~= spec_clock_payload());
    Announcement { payload, port: CLOCK_ANNOUNCE_PORT, interval_ms: ANNOUNCE_INTERVAL_MS }
}

/// Whether a datagram heard on [`CLOCK_ANNOUNCE_PORT`] is the announcement of
/// a clock server.
pub fn is_clock_announcement(data: &str) -> (r: bool)
    ensures
        r == (data@ == spec_clock_payload()),
{
    proof {
        reveal_strlit("micast-dj");
    }
    assert("micast-dj"@ =~= spec_clock_payload());
    str_eq(data, "micast-dj")
}

} // verus!
