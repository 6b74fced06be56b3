//! The choices of the client that listens for clock servers.
use vstd::prelude::*;

verus! {

/// The port on which a discovered clock server serves its time.
pub const CLOCK_PORT: u16 = 8555;

/// How long a listener thread needs to wind down after it was told to stop, in
/// nanoseconds.
pub const WIND_DOWN_NANOS: u128 = 2_000_000_000;

/// How many whole milliseconds a restarted listener still waits for the old
/// one, `elapsed_nanos` after it was told to stop.
pub open spec fn spec_restart_wait_ms(elapsed_nanos: nat) -> nat {
    if elapsed_nanos < WIND_DOWN_NANOS {
        ((WIND_DOWN_NANOS - elapsed_nanos) / 1_000_000) as nat
    } else {
        0
    }
}

/// The wait before the listener is started again: what is left of two seconds
/// since it was stopped, in whole milliseconds, and nothing once they are over.
pub fn restart_wait_ms(elapsed_nanos: u128) -> (ms: u64)
    ensures
        ms == spec_restart_wait_ms(elapsed_nanos as nat),
{
    if elapsed_nanos < WIND_DOWN_NANOS {
        let rest: u128 = (WIND_DOWN_NANOS - elapsed_nanos) / 1_000_000;
        assert(rest <= 2000);
        rest as u64
    } else {
        0
    }
}

/// Where the clock of a server that was heard from is served: its address,
/// written out, and [`CLOCK_PORT`].
pub fn clock_endpoint(address: String) -> (r: (String, u16))
    ensures
        r.0@ == address@,
        r.1 == CLOCK_PORT,
{
    (address, CLOCK_PORT)
}

} // verus!
