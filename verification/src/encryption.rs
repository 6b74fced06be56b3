//! The names and keys with which the RTP bin is set up for SRTP.
use vstd::prelude::*;
use crate::text::{decimal, push_decimal};

verus! {

/// The master key material that both ends of a stream share.
pub const RTP_KEY: &'static str = "disou§fH398zJKMh&ufvgoih2u9hgsduihf!/&§$(§())2389dsiub;GT_Z2DFG9h=83F98h";

/// The master key identifier material that both ends of a stream share.
pub const RTP_MKI: &'static str = "fhiuh/289hsdHRDhsdiuh)nv2938hv9fhiuhsdgh28793h&/z7hf27893h87h87v7654rScx";

/// Which side of the protection an element takes.
#[derive(Clone, Copy, PartialEq, Eq, Structural)]
pub enum DeOrEncoder {
    Encoder,
    Decoder,
}

/// Which kind of packets an element protects.
#[derive(Clone, Copy, PartialEq, Eq, Structural)]
pub enum RTPorRTCP {
    Rtp,
    Rtcp,
}

/// `encoder` or `decoder`.
pub open spec fn coder_name(c: DeOrEncoder) -> Seq<char> {
    match c {
        DeOrEncoder::Encoder => seq!['e', 'n', 'c', 'o', 'd', 'e', 'r'],
        DeOrEncoder::Decoder => seq!['d', 'e', 'c', 'o', 'd', 'e', 'r'],
    }
}

/// `rtp` or `rtcp`.
pub open spec fn packet_name(p: RTPorRTCP) -> Seq<char> {
    match p {
        RTPorRTCP::Rtp => seq!['r', 't', 'p'],
        RTPorRTCP::Rtcp => seq!['r', 't', 'c', 'p'],
    }
}

/// The signal of the RTP bin that asks for such an element: `request-{packets}-{side}`.
pub open spec fn spec_signal_name(p: RTPorRTCP, c: DeOrEncoder) -> Seq<char> {
    seq!['r', 'e', 'q', 'u', 'e', 's', 't', '-'] + packet_name(p) + seq!['-'] + coder_name(c)
}

/// The sink pad that an encoder is asked for: `{packets}_sink_{session}`.
pub open spec fn spec_sink_pad_name(p: RTPorRTCP, session: nat) -> Seq<char> {
    packet_name(p) + seq!['_', 's', 'i', 'n', 'k', '_'] + decimal(session)
}

impl DeOrEncoder {
    /// The name of the side, as it stands in signal names.
    pub fn to_string(self) -> (s: String)
        ensures
            s@ == coder_name(self),
    {
        match self {
            DeOrEncoder::Encoder => {
                proof {
                    reveal_strlit("encoder");
                }
                let s = String::from_str("encoder");
                assert(s@ =~= coder_name(self));
                s
            },
            DeOrEncoder::Decoder => {
                proof {
                    reveal_strlit("decoder");
                }
                let s = String::from_str("decoder");
                assert(s@ =~= coder_name(self));
                s
            },
        }
    }
}

impl RTPorRTCP {
    /// The name of the kind of packets, as it stands in signal and pad names.
    pub fn to_string(self) -> (s: String)
        ensures
            s@ == packet_name(self),
    {
        match self {
            RTPorRTCP::Rtp => {
                proof {
                    reveal_strlit("rtp");
                }
                let s = String::from_str("rtp");
                assert(s@ =~= packet_name(self));
                s
            },
            RTPorRTCP::Rtcp => {
                proof {
                    reveal_strlit("rtcp");
                }
                let s = String::from_str("rtcp");
                assert(s@ =~= packet_name(self));
                s
            },
        }
    }
}

/// The signal of the RTP bin that asks for an element protecting packets `p` on side `c`.
pub fn signal_name(p: RTPorRTCP, c: DeOrEncoder) -> (s: String)
    ensures
        s@ == spec_signal_name(p, c),
{
    proof {
        reveal_strlit("request-");
        reveal_strlit("-");
    }
    let mut s = String::from_str("request-");
    let pn = p.to_string();
    s.append(pn.as_str());
    s.append("-");
    let cn = c.to_string();
    s.append(cn.as_str());
    assert(s@ =~= spec_signal_name(p, c));
    s
}

/// The sink pad that an encoder for packets `p` of `session` is asked for.
pub fn encoder_sink_pad(p: RTPorRTCP, session: u32) -> (s: String)
    ensures
        s@ == spec_sink_pad_name(p, session as nat),
{
    proof {
        reveal_strlit("_sink_");
    }
    let mut s = p.to_string();
    s.append("_sink_");
    push_decimal(&mut s, session as u64);
    assert(s@ =~= spec_sink_pad_name(p, session as nat));
    s
}

/// The elements a client asks for: an RTP decoder, an RTCP encoder and an RTCP decoder.
pub fn client_signals() -> (v: Vec<(RTPorRTCP, DeOrEncoder)>)
    ensures
        v@ == seq![
            (RTPorRTCP::Rtp, DeOrEncoder::Decoder),
            (RTPorRTCP::Rtcp, DeOrEncoder::Encoder),
            (RTPorRTCP::Rtcp, DeOrEncoder::Decoder),
        ],
{
    let v = vec![
        (RTPorRTCP::Rtp, DeOrEncoder::Decoder),
        (RTPorRTCP::Rtcp, DeOrEncoder::Encoder),
        (RTPorRTCP::Rtcp, DeOrEncoder::Decoder),
    ];
    assert(v@ =~= seq![
        (RTPorRTCP::Rtp, DeOrEncoder::Decoder),
        (RTPorRTCP::Rtcp, DeOrEncoder::Encoder),
        (RTPorRTCP::Rtcp, DeOrEncoder::Decoder),
    ]);
    v
}

/// The elements a server asks for: both sides for both kinds of packets.
pub fn server_signals() -> (v: Vec<(RTPorRTCP, DeOrEncoder)>)
    ensures
        v@ == seq![
            (RTPorRTCP::Rtp, DeOrEncoder::Encoder),
            (RTPorRTCP::Rtp, DeOrEncoder::Decoder),
            (RTPorRTCP::Rtcp, DeOrEncoder::Encoder),
            (RTPorRTCP::Rtcp, DeOrEncoder::Decoder),
        ],
{
    let v = vec![
        (RTPorRTCP::Rtp, DeOrEncoder::Encoder),
        (RTPorRTCP::Rtp, DeOrEncoder::Decoder),
        (RTPorRTCP::Rtcp, DeOrEncoder::Encoder),
        (RTPorRTCP::Rtcp, DeOrEncoder::Decoder),
    ];
    assert(v@ =~= seq![
        (RTPorRTCP::Rtp, DeOrEncoder::Encoder),
        (RTPorRTCP::Rtp, DeOrEncoder::Decoder),
        (RTPorRTCP::Rtcp, DeOrEncoder::Encoder),
        (RTPorRTCP::Rtcp, DeOrEncoder::Decoder),
    ]);
    v
}

/// UTF-8 takes at least one byte for every character.
pub proof fn lemma_encoding_len(chars: Seq<char>)
    ensures
        vstd::utf8::encode_utf8(chars).len() >= chars.len(),
    decreases chars.len(),
{
    if chars.len() > 0 {
        lemma_encoding_len(chars.drop_first());
    }
}

/// Bytes 5 up to 35 of the UTF-8 encoding of `s`.
fn key_window(s: &str) -> (k: Vec<u8>)
    requires
        vstd::utf8::encode_utf8(s@).len() >= 35,
    ensures
        k@ == vstd::utf8::encode_utf8(s@).subrange(5, 35),
{
    let b = s.as_bytes();
    let mut k: Vec<u8> = Vec::new();
    let mut i: usize = 5;
    while i < 35
        invariant
            5 <= i <= 35,
            b@ == vstd::utf8::encode_utf8(s@),
            b@.len() >= 35,
            k@ == b@.subrange(5, i as int),
        decreases 35 - i,
    {
        k.push(b[i]);
        i = i + 1;
        assert(k@ =~= b@.subrange(5, i as int));
    }
    k
}

/// The key and the key identifier of the SRTP elements: bytes 5 up to 35 of
/// the UTF-8 encodings of [`RTP_KEY`] and [`RTP_MKI`].
pub fn key_and_mki() -> (r: (Vec<u8>, Vec<u8>))
    ensures
        r.0@ == vstd::utf8::encode_utf8(RTP_KEY@).subrange(5, 35),
        r.1@ == vstd::utf8::encode_utf8(RTP_MKI@).subrange(5, 35),
{
    proof {
        reveal_strlit("disou§fH398zJKMh&ufvgoih2u9hgsduihf!/&§$(§())2389dsiub;GT_Z2DFG9h=83F98h");
        reveal_strlit("fhiuh/289hsdHRDhsdiuh)nv2938hv9fhiuhsdgh28793h&/z7hf27893h87h87v7654rScx");
        lemma_encoding_len(RTP_KEY@);
        lemma_encoding_len(RTP_MKI@);
    }
    (key_window(RTP_KEY), key_window(RTP_MKI))
}

} // verus!
