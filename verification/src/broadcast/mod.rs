//! The decisions of the broadcast side: the play queue, the life of its
//! items and spots, the fallback stream, and where the mix is played to.
use vstd::prelude::*;
use crate::text::str_eq;
use crate::player::localhost;

pub mod item;
pub mod queue;
pub mod spots;
pub mod fallback;
pub mod methods;

verus! {

/// Where the mix of a broadcast goes.
#[derive(Debug, Clone)]
pub enum OutputMode {
    /// To a sound card of this machine, on the named device or the default one.
    Local(Option<String>),
    /// To the network, through the RTP server.
    Network,
}

/// Whether two optional device names are the same.
pub open spec fn same_device(a: Option<String>, b: Option<String>) -> bool {
    match (a, b) {
        (None, None) => true,
        (Some(x), Some(y)) => x@ == y@,
        _ => false,
    }
}

/// Whether two outputs are the same.
pub open spec fn same_output(a: OutputMode, b: OutputMode) -> bool {
    match (a, b) {
        (OutputMode::Network, OutputMode::Network) => true,
        (OutputMode::Local(x), OutputMode::Local(y)) => same_device(x, y),
        _ => false,
    }
}

impl PartialEq for OutputMode {
    fn eq(&self, other: &OutputMode) -> (r: bool) {
        match (self, other) {
            (OutputMode::Network, OutputMode::Network) => true,
            (OutputMode::Local(x), OutputMode::Local(y)) => match (x, y) {
                (None, None) => true,
                (Some(a), Some(b)) => str_eq(a.as_str(), b.as_str()),
                _ => false,
            },
            _ => false,
        }
    }
}

impl vstd::std_specs::cmp::PartialEqSpecImpl for OutputMode {
    open spec fn obeys_eq_spec() -> bool {
        true
    }

    open spec fn eq_spec(&self, other: &OutputMode) -> bool {
        same_output(*self, *other)
    }
}

/// What a switch of output asks of the pipeline.
pub enum SwitchPlan {
    /// Nothing: the output does not change.
    Nothing,
    /// Attach the RTP server, and detach the local output where there is one.
    ToNetwork,
    /// Put a local output on this device in place of the current local one.
    ReplaceLocal(Option<String>),
    /// Attach a local output on this device, and detach the RTP server.
    ToLocal(Option<String>),
}

/// The output a broadcast plays to.
pub struct OutputState {
    pub current: OutputMode,
}

/// A copy of an optional device name.
fn copy_device(d: &Option<String>) -> (c: Option<String>)
    ensures
        same_device(c, *d),
{
    match d {
        Some(s) => Some(s.clone()),
        None => None,
    }
}

impl Default for OutputMode {
    /// The output a broadcast plays to when none is named: the default local device.
    fn default() -> (m: OutputMode)
        ensures
            m matches OutputMode::Local(d) && d is None,
    {
        OutputMode::Local(None)
    }
}

impl OutputState {
    /// A broadcast that starts playing to `current`.
    pub fn new(current: OutputMode) -> (s: OutputState)
        ensures
            s.current == current,
    {
        OutputState { current }
    }

    /// Switches to `new_output` and says what the pipeline has to do for it:
    /// nothing where the output stays the same; from a local output to another
    /// device, the local output is replaced; from the network to a local
    /// output, the local output is attached and the network detached; to the
    /// network from anything else, the RTP server is attached and a local
    /// output detached. The new output is recorded in every case.
    pub fn switch_output(&mut self, new_output: OutputMode) -> (plan: SwitchPlan)
        ensures
            same_output(final(self).current, new_output),
            same_output(old(self).current, new_output) ==> plan is Nothing,
            !same_output(old(self).current, new_output) ==> match new_output {
                OutputMode::Network => plan is ToNetwork,
                OutputMode::Local(d) => match old(self).current {
                    OutputMode::Local(_) => plan matches SwitchPlan::ReplaceLocal(e) && same_device(
                        e,
                        d,
                    ),
                    OutputMode::Network => plan matches SwitchPlan::ToLocal(e) && same_device(e, d),
                },
            },
    {
        let plan = match &new_output {
            OutputMode::Network => match &self.current {
                OutputMode::Network => SwitchPlan::Nothing,
                OutputMode::Local(_) => SwitchPlan::ToNetwork,
            },
            OutputMode::Local(device) => match &self.current {
                OutputMode::Local(current_device) => {
                    let same = match (device, current_device) {
                        (None, None) => true,
                        (Some(x), Some(y)) => str_eq(x.as_str(), y.as_str()),
                        _ => false,
                    };
                    if same {
                        SwitchPlan::Nothing
                    } else {
                        SwitchPlan::ReplaceLocal(copy_device(device))
                    }
                },
                OutputMode::Network => SwitchPlan::ToLocal(copy_device(device)),
            },
        };
        self.current = new_output;
        plan
    }
}

/// Being the same output is an equivalence: a switch to a copy of the output
/// that was switched to last asks nothing of the pipeline.
pub proof fn lemma_same_output_equivalence(a: OutputMode, b: OutputMode, c: OutputMode)
    ensures
        same_output(a, a),
        same_output(a, b) ==> same_output(b, a),
        same_output(a, b) && same_output(b, c) ==> same_output(a, c),
{
}

/// Two local outputs are the same output exactly when their device names are
/// equal as whole texts, or both unset; a named device is never the default
/// one, and a local output is never the network.
pub proof fn lemma_local_outputs(x: String, y: String)
    ensures
        same_output(OutputMode::Local(Some(x)), OutputMode::Local(Some(y))) <==> x@ == y@,
        same_output(OutputMode::Local(None), OutputMode::Local(None)),
        !same_output(OutputMode::Local(None), OutputMode::Local(Some(x))),
        !same_output(OutputMode::Local(Some(x)), OutputMode::Local(None)),
        !same_output(OutputMode::Network, OutputMode::Local(Some(x))),
        !same_output(OutputMode::Local(Some(x)), OutputMode::Network),
        !same_output(OutputMode::Network, OutputMode::Local(None)),
        same_output(OutputMode::Network, OutputMode::Network),
{
}

/// The port on which the RTP server of a broadcast listens for the RTCP
/// reports of its clients: two above the port it streams from.
pub fn rtcp_listen_port(start_port: u32) -> (p: i32)
    requires
        (start_port as i32) <= i32::MAX - 2,
    ensures
        p == start_port as i32 + 2,
{
    start_port as i32 + 2
}

/// The port on which the broadcaster serves its network clock.
pub const NET_CLOCK_PORT: u16 = 8555;

/// Where the RTP server sends its packets.
pub struct UdpDestinations {
    /// Hosts and ports that RTP goes to.
    pub rtp: Vec<(String, i32)>,
    /// Hosts and ports that RTCP goes to.
    pub rtcp: Vec<(String, i32)>,
}

fn localhost_string() -> (s: String)
    ensures
        s@ == localhost(),
{
    proof {
        reveal_strlit("127.0.0.1");
    }
    let s = String::from_str("127.0.0.1");
    assert(s@ =~= localhost());
    s
}

/// The destinations that adding the client `address` on `port` gives the RTP
/// server: RTP to the client and to this machine on `port`, RTCP to this
/// machine on the port after it.
pub fn client_destinations(address: &str, port: u32) -> (d: UdpDestinations)
    requires
        (port as i32) < i32::MAX,
    ensures
        d.rtp@.len() == 2,
        d.rtp@[0].0@ == address@,
        d.rtp@[0].1 == port as i32,
        d.rtp@[1].0@ == localhost(),
        d.rtp@[1].1 == port as i32,
        d.rtcp@.len() == 1,
        d.rtcp@[0].0@ == localhost(),
        d.rtcp@[0].1 == port as i32 + 1,
{
    let p = port as i32;
    let rtp = vec![(String::from_str(address), p), (localhost_string(), p)];
    let rtcp = vec![(localhost_string(), p + 1)];
    UdpDestinations { rtp, rtcp }
}

/// A broadcast as it is set up: the output it plays to, the client its RTP
/// server sends to, where its RTP and RTCP go, the port it hears RTCP on,
/// and the port of its network clock.
pub struct Broadcast {
    pub output: OutputState,
    /// The client that the RTP server is given at the start.
    pub rtp_client: (String, u32),
    pub destinations: UdpDestinations,
    pub rtcp_listen_port: i32,
    pub clock_port: u16,
    /// Whether a local output is attached at the start; otherwise the RTP
    /// server is.
    pub local_output: bool,
}

impl Broadcast {
    /// Sets up a broadcast that streams from `start_port` and plays to
    /// `current_output`: the RTP server gets this machine on `start_port` as
    /// its client, so RTP goes to `127.0.0.1:start_port` and RTCP to
    /// `127.0.0.1` on the port after it; it hears RTCP two ports above
    /// `start_port`; the clock is served on [`NET_CLOCK_PORT`]; a local output
    /// is attached exactly when `current_output` is local.
    pub fn new(start_port: u32, current_output: OutputMode) -> (b: Broadcast)
        requires
            (start_port as i32) <= i32::MAX - 2,
        ensures
            b.output.current == current_output,
            b.rtp_client.0@ == localhost(),
            b.rtp_client.1 == start_port,
            b.destinations.rtp@.len() == 2,
            b.destinations.rtp@[0].0@ == localhost(),
            b.destinations.rtp@[0].1 == start_port as i32,
            b.destinations.rtp@[1].0@ == localhost(),
            b.destinations.rtp@[1].1 == start_port as i32,
            b.destinations.rtcp@.len() == 1,
            b.destinations.rtcp@[0].0@ == localhost(),
            b.destinations.rtcp@[0].1 == start_port as i32 + 1,
            b.rtcp_listen_port == start_port as i32 + 2,
            b.clock_port == NET_CLOCK_PORT,
            b.local_output == (current_output is Local),
    {
        let local_output = match &current_output {
            OutputMode::Local(_) => true,
            OutputMode::Network => false,
        };
        let client = localhost_string();
        let destinations = client_destinations(client.as_str(), start_port);
        Broadcast {
            output: OutputState::new(current_output),
            rtp_client: (client, start_port),
            destinations,
            rtcp_listen_port: rtcp_listen_port(start_port),
            clock_port: NET_CLOCK_PORT,
            local_output,
        }
    }
}

} // verus!
