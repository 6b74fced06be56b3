//! The decisions of the local player, which plays the raw stream of a
//! broadcaster on this machine.
use vstd::prelude::*;
use crate::text::{decimal, push_decimal};

verus! {

/// The caps of the raw audio that the local player reads, at `rate` samples a
/// second: `audio/x-raw,rate=(int){rate},channels=(int)2,format=(string)S16LE,layout=(str)interleaved`.
pub open spec fn spec_raw_audio_caps(rate: nat) -> Seq<char> {
    seq!['a', 'u', 'd', 'i', 'o', '/', 'x', '-', 'r', 'a', 'w', ',', 'r', 'a', 't', 'e', '=', '(',
        'i', 'n', 't', ')'] + decimal(rate) + seq![',', 'c', 'h', 'a', 'n', 'n', 'e', 'l', 's', '=',
        '(', 'i', 'n', 't', ')', '2', ',', 'f', 'o', 'r', 'm', 'a', 't', '=', '(', 's', 't', 'r', 'i',
        'n', 'g', ')', 'S', '1', '6', 'L', 'E', ',', 'l', 'a', 'y', 'o', 'u', 't', '=', '(', 's', 't',
        'r', ')', 'i', 'n', 't', 'e', 'r', 'l', 'e', 'a', 'v', 'e', 'd']
}

/// The caps of the raw audio that the local player reads at `rate` samples a second.
pub fn raw_audio_caps(rate: u32) -> (c: String)
    ensures
        c@ == spec_raw_audio_caps(rate as nat),
{
    proof {
        reveal_strlit("audio/x-raw,rate=(int)");
        reveal_strlit(",channels=(int)2,format=(string)S16LE,layout=(str)interleaved");
    }
    let mut c = String::from_str("audio/x-raw,rate=(int)");
    push_decimal(&mut c, rate as u64);
    c.append(",channels=(int)2,format=(string)S16LE,layout=(str)interleaved");
    assert(c@ =~= spec_raw_audio_caps(rate as nat));
    c
}

/// What the local player's pipeline reported, as far as its recovery cares.
pub enum LocalEvent {
    /// The stream ended.
    EndOfStream,
    /// The TCP client could not open the stream.
    StreamNotOpened,
    /// The TCP client failed in another way.
    StreamFailed,
    /// An element of the audio output failed.
    OutputFailed,
    /// Another element failed.
    Other,
}

/// How long the local player waits before it restarts its pipeline after the
/// stream ended or failed, in milliseconds; none where it does not restart.
/// At the end of the stream it restarts at once.
pub fn restart_delay_ms(error: LocalEvent) -> (d: Option<u64>)
    ensures
        d == (match error {
            LocalEvent::EndOfStream => Some(0u64),
            LocalEvent::StreamNotOpened => Some(500u64),
            LocalEvent::OutputFailed => Some(1000u64),
            _ => None,
        }),
{
    match error {
        LocalEvent::EndOfStream => Some(0),
        LocalEvent::StreamNotOpened => Some(500),
        LocalEvent::OutputFailed => Some(1000),
        _ => None,
    }
}

} // verus!
