//! The decisions of the playback client: which clock and server it follows,
//! which output it plays to, and how its receiving pipeline is laid out.
use vstd::prelude::*;
use crate::text::{chars_of, contains_chars, contains_seq, str_eq};
use crate::services::dedector_client::CLOCK_PORT;

pub mod local_player;

verus! {

/// Latency of the playback when none is given, in milliseconds.
pub const LATENCY: i32 = 700;

/// Sample rate of the playback when none is given.
pub const DEFAULT_AUDIO_RATE: i32 = 44100;

/// `alsasink`, the output element a player starts with.
pub open spec fn alsasink() -> Seq<char> {
    seq!['a', 'l', 's', 'a', 's', 'i', 'n', 'k']
}

/// `autoaudiosink`, the output element used when no device is named.
pub open spec fn autoaudiosink() -> Seq<char> {
    seq!['a', 'u', 't', 'o', 'a', 'u', 'd', 'i', 'o', 's', 'i', 'n', 'k']
}

/// `127.0.0.1`: a clock address that means "use the given clock, look for no other".
pub open spec fn localhost() -> Seq<char> {
    seq!['1', '2', '7', '.', '0', '.', '0', '.', '1']
}

/// `0.0.0.0`: a clock address that means "find the clock by its announcement".
pub open spec fn any_address() -> Seq<char> {
    seq!['0', '.', '0', '.', '0', '.', '0']
}

/// `recv_rtp_src`, the name that the pads carrying received RTP hold.
pub open spec fn rtp_receive_pad() -> Seq<char> {
    seq!['r', 'e', 'c', 'v', '_', 'r', 't', 'p', '_', 's', 'r', 'c']
}

/// `rtp_eingang`, the element that receives the RTP stream.
pub open spec fn rtp_input() -> Seq<char> {
    seq!['r', 't', 'p', '_', 'e', 'i', 'n', 'g', 'a', 'n', 'g']
}

fn alsasink_string() -> (s: String)
    ensures
        s@ == alsasink(),
{
    proof {
        reveal_strlit("alsasink");
    }
    let s = String::from_str("alsasink");
    assert(s@ =~= alsasink());
    s
}

/// Whether the player looks for a clock server by its announcement before it
/// starts: it does unless it was given the local clock.
pub fn uses_clock_discovery(clock_address: &str) -> (r: bool)
    ensures
        r == (clock_address@ != localhost()),
{
    proof {
        reveal_strlit("127.0.0.1");
    }
    assert("127.0.0.1"@ =~= localhost());
    !str_eq(clock_address, "127.0.0.1")
}

/// The address passed to the pipeline as the RTCP receiver: the clock server
/// the player found, or else the stream server.
pub fn rtcp_target(server_ip: &str, discovered: &Option<(String, u16)>) -> (t: String)
    ensures
        t@ == (match discovered {
            Some(d) => d.0@,
            None => server_ip@,
        }),
{
    match discovered {
        Some(d) => d.0.clone(),
        None => String::from_str(server_ip),
    }
}

/// The clock the player starts with: the one it found, or else the one it was given.
pub fn initial_clock(clock_address: (&str, i32), discovered: &Option<(String, u16)>) -> (c: (
    String,
    i32,
))
    ensures
        c.0@ == (match discovered {
            Some(d) => d.0@,
            None => clock_address.0@,
        }),
        c.1 == (match discovered {
            Some(d) => d.1 as i32,
            None => clock_address.1,
        }),
{
    match discovered {
        Some(d) => (d.0.clone(), d.1 as i32),
        None => (String::from_str(clock_address.0), clock_address.1),
    }
}

/// The UDP ports of the receiving pipeline: RTP on `rtp_port`, RTCP from the
/// server on the next one, RTCP to the server on the one after.
pub fn pipeline_ports(rtp_port: i32) -> (p: (i32, i32, i32))
    requires
        rtp_port <= i32::MAX - 2,
    ensures
        p.0 == rtp_port,
        p.1 == rtp_port + 1,
        p.2 == rtp_port + 2,
{
    (rtp_port, rtp_port + 1, rtp_port + 2)
}

/// The latency of the jitter buffer: the one given, or [`LATENCY`], as a `u32`.
pub fn jitter_latency(latency: Option<i32>) -> (l: u32)
    ensures
        l == (match latency {
            Some(v) => v,
            None => LATENCY,
        }) as u32,
{
    match latency {
        Some(v) => v as u32,
        None => LATENCY as u32,
    }
}

/// The port of the clock server: the one given, or the one clock servers
/// serve on by default.
pub fn clock_port(port: Option<i32>) -> (p: i32)
    ensures
        p == (match port {
            Some(v) => v,
            None => CLOCK_PORT as i32,
        }),
{
    match port {
        Some(v) => v,
        None => CLOCK_PORT as i32,
    }
}

/// The sample rate of the playback: the one given, or [`DEFAULT_AUDIO_RATE`].
pub fn audio_rate(rate: Option<i32>) -> (r: i32)
    ensures
        r == (match rate {
            Some(v) => v,
            None => DEFAULT_AUDIO_RATE,
        }),
{
    match rate {
        Some(v) => v,
        None => DEFAULT_AUDIO_RATE,
    }
}

/// The output element of a new player and the device it is set to: `alsasink`
/// on the named device, or `autoaudiosink` where no device is named.
pub fn output_sink(audio_device: Option<String>) -> (s: (String, Option<String>))
    ensures
        s.0@ == (if audio_device is Some { alsasink() } else { autoaudiosink() }),
        s.1 == audio_device,
{
    match audio_device {
        Some(d) => (alsasink_string(), Some(d)),
        None => {
            proof {
                reveal_strlit("autoaudiosink");
            }
            let e = String::from_str("autoaudiosink");
            assert(e@ =~= autoaudiosink());
            (e, None)
        },
    }
}

/// Whether a new pad of the RTP bin carries received RTP and is to be linked
/// to the depayloader.
pub fn is_rtp_receive_pad(name: &str) -> (r: bool)
    ensures
        r == contains_seq(name@, rtp_receive_pad()),
{
    let n = chars_of(name);
    let pat: Vec<char> = vec!['r', 'e', 'c', 'v', '_', 'r', 't', 'p', '_', 's', 'r', 'c'];
    assert(pat@ =~= rtp_receive_pad());
    contains_chars(&n, &pat)
}

/// Whether an error from an element makes the player restart its pipeline:
/// only one from the element that receives the RTP stream does.
pub fn restarts_after_error(element_name: &str) -> (r: bool)
    ensures
        r == (element_name@ == rtp_input()),
{
    proof {
        reveal_strlit("rtp_eingang");
    }
    assert("rtp_eingang"@ =~= rtp_input());
    str_eq(element_name, "rtp_eingang")
}

/// The server a player is told to follow: none where it is to search for one,
/// which `0.0.0.0` asks for.
pub fn sender_address(server_address: &str) -> (a: Option<String>)
    ensures
        server_address@ == any_address() ==> a is None,
        server_address@ != any_address() ==> (a matches Some(s) && s@ == server_address@),
{
    proof {
        reveal_strlit("0.0.0.0");
    }
    assert("0.0.0.0"@ =~= any_address());
    if str_eq(server_address, "0.0.0.0") {
        None
    } else {
        Some(String::from_str(server_address))
    }
}

/// The address a player sends RTCP to and takes its clock from: the server it
/// was told to follow, else the sender of the announcement it heard, else the
/// local machine.
pub fn search_for_ip(sender_clock_address: Option<String>, heard_from: Option<String>) -> (a: String)
    ensures
        a@ == (match sender_clock_address {
            Some(s) => s@,
            None => match heard_from {
                Some(h) => h@,
                None => localhost(),
            },
        }),
{
    match sender_clock_address {
        Some(s) => s,
        None => match heard_from {
            Some(h) => h,
            None => {
                proof {
                    reveal_strlit("127.0.0.1");
                }
                let l = String::from_str("127.0.0.1");
                assert(l@ =~= localhost());
                l
            },
        },
    }
}

/// Whether a player confirms itself to the host its RTCP goes to: not to the
/// local machine, and not to `0.0.0.0`.
pub fn confirms_to(host: &str) -> (r: bool)
    ensures
        r == (host@ != localhost() && host@ != any_address()),
{
    proof {
        reveal_strlit("127.0.0.1");
        reveal_strlit("0.0.0.0");
    }
    assert("127.0.0.1"@ =~= localhost());
    assert("0.0.0.0"@ =~= any_address());
    !str_eq(host, "127.0.0.1") && !str_eq(host, "0.0.0.0")
}

/// What the player plays and where it plays it to.
pub struct PlayerState {
    /// The device of the output element, such as `hw:0,0`.
    pub current_output_device: String,
    /// The output element, such as `alsasink`.
    pub current_output_element: String,
    /// The address the stream is received from.
    pub current_server_ip: String,
}

/// The device a change of output sets: the one named, or `alsasink`.
pub open spec fn device_or_default(device: Option<Seq<char>>) -> Seq<char> {
    match device {
        Some(d) => d,
        None => alsasink(),
    }
}

/// Whether a change of output to `element` on `device` is skipped, the
/// output being `cur_element` on `cur_device`.
pub open spec fn output_change_skipped(
    cur_device: Seq<char>,
    cur_element: Seq<char>,
    element: Seq<char>,
    device: Option<Seq<char>>,
) -> bool {
    cur_device == device_or_default(device) && cur_element == element
}

/// Whether a change of server to `address` is skipped, the stream being
/// received from `current`.
pub open spec fn server_change_skipped(current: Seq<char>, address: Seq<char>) -> bool {
    current == address
}

/// Whether a change of clock to `address` is skipped, the clock being at `current`.
pub open spec fn clock_change_skipped(current: Seq<char>, address: Seq<char>) -> bool {
    current == address && address != any_address()
}

/// The view of an optional string slice.
pub open spec fn opt_view(device: Option<&str>) -> Option<Seq<char>> {
    match device {
        Some(d) => Some(d@),
        None => None,
    }
}

impl PlayerState {
    /// The state of a new player: `alsasink` on the device given, or on no
    /// device, receiving from `server_ip`.
    pub fn new(server_ip: &str, audio_device: Option<&str>) -> (s: PlayerState)
        ensures
            s.current_output_element@ == alsasink(),
            s.current_output_device@ == (match audio_device {
                Some(d) => d@,
                None => Seq::<char>::empty(),
            }),
            s.current_server_ip@ == server_ip@,
    {
        let device = match audio_device {
            Some(d) => String::from_str(d),
            None => String::new(),
        };
        PlayerState {
            current_output_device: device,
            current_output_element: alsasink_string(),
            current_server_ip: String::from_str(server_ip),
        }
    }

    /// Whether the stream is to be received from another server; a change to
    /// the current one is skipped.
    pub fn server_differs(&self, address: &str) -> (r: bool)
        ensures
            r == !server_change_skipped(self.current_server_ip@, address@),
    {
        !str_eq(self.current_server_ip.as_str(), address)
    }

    /// Records that the stream is now received from `address`.
    pub fn set_server(&mut self, address: &str)
        ensures
            final(self).current_server_ip@ == address@,
            final(self).current_output_device@ == old(self).current_output_device@,
            final(self).current_output_element@ == old(self).current_output_element@,
    {
        self.current_server_ip = String::from_str(address);
    }

    /// Whether a change of output changes anything: it does unless both the
    /// element and the device (`alsasink` where none is named) are the current ones.
    pub fn output_differs(&self, element: &str, device: Option<&str>) -> (r: bool)
        ensures
            r == !output_change_skipped(
                self.current_output_device@,
                self.current_output_element@,
                element@,
                opt_view(device),
            ),
    {
        let same_device = match device {
            Some(d) => str_eq(self.current_output_device.as_str(), d),
            None => {
                proof {
                    reveal_strlit("alsasink");
                }
                assert("alsasink"@ =~= alsasink());
                str_eq(self.current_output_device.as_str(), "alsasink")
            },
        };
        !(same_device && str_eq(self.current_output_element.as_str(), element))
    }

    /// Records the new output: `element` on the named device, or on `alsasink`.
    pub fn set_output(&mut self, element: &str, device: Option<&str>)
        ensures
            final(self).current_output_device@ == device_or_default(opt_view(device)),
            final(self).current_output_element@ == element@,
            final(self).current_server_ip@ == old(self).current_server_ip@,
    {
        self.current_output_device = match device {
            Some(d) => String::from_str(d),
            None => alsasink_string(),
        };
        self.current_output_element = String::from_str(element);
    }
}

/// What a change of clock asks the player to do.
pub enum ClockStep {
    /// Nothing: the clock is the current one.
    Keep,
    /// Listen for a clock server's announcement and then call
    /// [`ClockSettings::clock_discovered`].
    Discover,
    /// Follow the clock at this address and port.
    Use(String, i32),
}

/// The clock the player follows.
pub struct ClockSettings {
    /// The address of the clock server.
    pub address: String,
    /// The port of the clock server.
    pub port: i32,
}

impl ClockSettings {
    /// The clock of a new player.
    pub fn new(address: &str, port: i32) -> (c: ClockSettings)
        ensures
            c.address@ == address@,
            c.port == port,
    {
        ClockSettings { address: String::from_str(address), port }
    }

    /// A change of clock to `address`, on `port` or the current port.
    ///
    /// The same address as now is no change, whatever the port, unless it is
    /// `0.0.0.0`; that address asks for the clock to be found by its
    /// announcement. Any other address is followed at once, and recorded with
    /// the port where one is given.
    pub fn change_clock(&mut self, address: &str, port: Option<i32>) -> (step: ClockStep)
        ensures
            clock_change_skipped(old(self).address@, address@) ==> (step is Keep && *final(self)
                == *old(self)),
            address@ == any_address() ==> (step is Discover && *final(self) == *old(self)),
            (old(self).address@ != address@ && address@ != any_address()) ==> ({
                let p = match port {
                    Some(p) => p,
                    None => old(self).port,
                };
                &&& step matches ClockStep::Use(a, q) && a@ == address@ && q == p
                &&& final(self).address@ == address@
                &&& final(self).port == p
            }),
    {
        proof {
            reveal_strlit("0.0.0.0");
        }
        assert("0.0.0.0"@ =~= any_address());
        let is_any = str_eq(address, "0.0.0.0");
        if str_eq(self.address.as_str(), address) && !is_any {
            return ClockStep::Keep;
        }
        if is_any {
            return ClockStep::Discover;
        }
        let p = match port {
            Some(p) => p,
            None => self.port,
        };
        self.address = String::from_str(address);
        self.port = p;
        ClockStep::Use(String::from_str(address), p)
    }

    /// What the player does with the answer of a search for a clock server: it
    /// follows a clock found at another address or port, and records it.
    pub fn clock_discovered(&mut self, found: Option<(String, u16)>) -> (r: Option<(String, i32)>)
        ensures
            match found {
                None => r is None && *final(self) == *old(self),
                Some(f) => if f.0@ != old(self).address@ || f.1 as i32 != old(self).port {
                    &&& r matches Some(c) && c.0@ == f.0@ && c.1 == f.1 as i32
                    &&& final(self).address@ == f.0@
                    &&& final(self).port == f.1 as i32
                } else {
                    r is None && *final(self) == *old(self)
                },
            },
    {
        match found {
            None => None,
            Some(f) => {
                let (address, port) = f;
                if !str_eq(address.as_str(), self.address.as_str()) || port as i32 != self.port {
                    self.address = address.clone();
                    self.port = port as i32;
                    Some((address, port as i32))
                } else {
                    None
                }
            },
        }
    }
}

/// A change of output, of server, or of clock to the one that was just set is
/// skipped: after `set_output(element, device)`, `set_server(server)` or a
/// change of clock to `address` that followed it, the same change again asks
/// for nothing.
pub proof fn lemma_repeated_change_skipped(
    element: Seq<char>,
    device: Option<Seq<char>>,
    server: Seq<char>,
    address: Seq<char>,
)
    requires
        address != any_address(),
    ensures
        output_change_skipped(device_or_default(device), element, element, device),
        server_change_skipped(server, server),
        clock_change_skipped(address, address),
{
}

/// A change of output is skipped only when both the element and the device
/// stay: naming another device is a change even with the same element, and
/// another element is a change even on the same device; with no device named
/// the device asked for is `alsasink`.
pub proof fn lemma_output_change(
    cur_device: Seq<char>,
    cur_element: Seq<char>,
    element: Seq<char>,
    device: Option<Seq<char>>,
)
    ensures
        (device matches Some(d) && d != cur_device) ==> !output_change_skipped(
            cur_device,
            cur_element,
            element,
            device,
        ),
        element != cur_element ==> !output_change_skipped(cur_device, cur_element, element, device),
        (device matches Some(d) && d == cur_device && element == cur_element)
            ==> output_change_skipped(cur_device, cur_element, element, device),
        (device is None) ==> (output_change_skipped(cur_device, cur_element, element, device) <==> (
        cur_device == alsasink() && cur_element == element)),
{
}

/// A change of server is skipped exactly when the address is the current
/// one, character for character; any other address, a part of the current
/// one among them, is a change.
pub proof fn lemma_server_change(current: Seq<char>, address: Seq<char>)
    ensures
        server_change_skipped(current, address) <==> current == address,
        address.len() != current.len() ==> !server_change_skipped(current, address),
{
}

} // verus!
