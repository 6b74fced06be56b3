//! The announcement a server broadcasts, the confirmation a client sends back,
//! and the interfaces the broadcast goes out on.
use vstd::prelude::*;
use crate::text::{
    chars_of, contains_chars, contains_seq, decimal, free_of, is_digit, lemma_decimal_value,
    lemma_digits_free, lemma_split_append_free, lemma_split_pair, lemma_split_push_sep, push_decimal,
    split_on,
};

verus! {

/// The UDP port that servers announce themselves on.
pub const BROADCAST_PORT: u16 = 5889;

/// The UDP port that clients send their confirmations to.
pub const CONFIRMATION_PORT: u16 = 5887;

/// The pause between two rounds of announcements, in milliseconds.
pub const ANNOUNCE_INTERVAL_MS: u64 = 5000;

/// `micast-dj|{address}|{port}|` and a line break.
pub open spec fn spec_announcement(address: Seq<char>, port: nat) -> Seq<char> {
    seq!['m', 'i', 'c', 'a', 's', 't', '-', 'd', 'j', '|'] + address + seq!['|'] + decimal(port)
        + seq!['|', '\n']
}

/// `mirror|` and a line break.
pub open spec fn spec_confirmation() -> Seq<char> {
    seq!['m', 'i', 'r', 'r', 'o', 'r', '|', '\n']
}

/// The text of the announcement of a stream that comes from `address` on `port`.
pub fn announcement_message(address: &str, port: u32) -> (m: String)
    ensures
        m@ == spec_announcement(address@, port as nat),
{
    proof {
        reveal_strlit("micast-dj|");
        reveal_strlit("|");
        reveal_strlit("|\n");
    }
    let mut m = String::from_str("micast-dj|");
    m.append(address);
    m.append("|");
    push_decimal(&mut m, port as u64);
    m.append("|\n");
    assert(m@ =~= spec_announcement(address@, port as nat));
    m
}

/// The text a client sends back to confirm an announcement.
pub fn confirmation_message() -> (m: String)
    ensures
        m@ == spec_confirmation(),
{
    proof {
        reveal_strlit("mirror|\n");
    }
    let m = String::from_str("mirror|\n");
    assert(m@ =~= spec_confirmation());
    m
}

/// The address a confirmation goes to: `{server_ip}:` and [`CONFIRMATION_PORT`].
pub fn confirmation_target(server_ip: &str) -> (t: String)
    ensures
        t@ == server_ip@.push(':') + decimal(CONFIRMATION_PORT as nat),
{
    proof {
        reveal_strlit(":");
    }
    let mut t = String::from_str(server_ip);
    t.append(":");
    push_decimal(&mut t, CONFIRMATION_PORT as u64);
    assert(t@ =~= server_ip@.push(':') + decimal(CONFIRMATION_PORT as nat));
    t
}

/// A network interface of this machine, as far as announcements care.
pub struct NetInterface {
    /// The name of the interface, such as `eth0` or `lo`.
    pub name: String,
    /// The octets of its IPv4 address; none for an interface of another family.
    pub ipv4: Option<(u8, u8, u8, u8)>,
}

/// Whether an IPv4 address lies in `127.0.0.0/8`, as `Ipv4Addr::is_loopback` answers.
pub open spec fn is_loopback(octets: (u8, u8, u8, u8)) -> bool {
    octets.0 == 127
}

/// Whether announcements go out on an interface: it has an IPv4 address, and
/// it is not a loopback interface, that is, its name holds no `lo` or its
/// address is no loopback address.
pub open spec fn takes_part(name: Seq<char>, ipv4: Option<(u8, u8, u8, u8)>) -> bool {
    match ipv4 {
        None => false,
        Some(o) => !contains_seq(name, seq!['l', 'o']) || !is_loopback(o),
    }
}

/// The broadcast address of the `/24` network an address lies in.
pub open spec fn spec_broadcast_address(o: (u8, u8, u8, u8)) -> (u8, u8, u8, u8) {
    (o.0, o.1, o.2, 255u8)
}

/// The broadcast addresses that announcements go to, one for each interface
/// that takes part, in the order of the interfaces.
pub open spec fn spec_targets(ifaces: Seq<NetInterface>) -> Seq<(u8, u8, u8, u8)>
    decreases ifaces.len(),
{
    if ifaces.len() == 0 {
        Seq::empty()
    } else {
        let rest = spec_targets(ifaces.drop_last());
        let last = ifaces.last();
        if takes_part(last.name@, last.ipv4) {
            rest.push(spec_broadcast_address(last.ipv4->0))
        } else {
            rest
        }
    }
}

/// The broadcast address of the `/24` network that `o` lies in: its last octet set to 255.
pub fn broadcast_address(o: (u8, u8, u8, u8)) -> (b: (u8, u8, u8, u8))
    ensures
        b == spec_broadcast_address(o),
{
    (o.0, o.1, o.2, 255u8)
}

/// Whether announcements go out on `iface`.
pub fn takes_part_in_announcements(iface: &NetInterface) -> (r: bool)
    ensures
        r == takes_part(iface.name@, iface.ipv4),
{
    match iface.ipv4 {
        None => false,
        Some(o) => {
            let name = chars_of(iface.name.as_str());
            let lo: Vec<char> = vec!['l', 'o'];
            assert(lo@ =~= seq!['l', 'o']);
            !contains_chars(&name, &lo) || o.0 != 127
        },
    }
}

/// The broadcast addresses that announcements go to over `ifaces`.
pub fn announce_targets(ifaces: &Vec<NetInterface>) -> (t: Vec<(u8, u8, u8, u8)>)
    ensures
        t@ == spec_targets(ifaces@),
{
    let mut t: Vec<(u8, u8, u8, u8)> = Vec::new();
    let mut i: usize = 0;
    assert(ifaces@.subrange(0, 0) =~= Seq::<NetInterface>::empty());
    while i < ifaces.len()
        invariant
            i <= ifaces@.len(),
            t@ == spec_targets(ifaces@.subrange(0, i as int)),
        decreases ifaces@.len() - i,
    {
        let iface = &ifaces[i];
        assert(ifaces@.subrange(0, i + 1).drop_last() =~= ifaces@.subrange(0, i as int));
        if takes_part_in_announcements(iface) {
            match iface.ipv4 {
                Some(o) => {
                    t.push(broadcast_address(o));
                },
                None => {},
            }
        }
        i = i + 1;
    }
    assert(ifaces@.subrange(0, ifaces@.len() as int) =~= ifaces@);
    t
}

/// The stream address in a datagram: the text between its first and its
/// second `|`, or up to its end where there is no second one; none for a
/// datagram without `|`, which is no announcement.
pub fn try_announced_address(data: &str) -> (a: Option<String>)
    ensures
        split_on(data@, '|').len() < 2 ==> a is None,
        split_on(data@, '|').len() >= 2 ==> (a matches Some(s) && s@ == split_on(data@, '|')[1]),
{
    let n = data.unicode_len();
    let mut seps: usize = 0;
    let mut start: usize = 0;
    let mut end: usize = 0;
    let mut i: usize = 0;
    assert(data@.subrange(0, 0) =~= Seq::<char>::empty());
    while i < n
        invariant
            n == data@.len(),
            i <= n,
            seps <= i,
            split_on(data@.subrange(0, i as int), '|').len() == seps + 1,
            seps >= 1 ==> start <= i,
            seps >= 2 ==> start <= end <= i,
            seps == 1 ==> split_on(data@.subrange(0, i as int), '|')[1] == data@.subrange(
                start as int,
                i as int,
            ),
            seps >= 2 ==> split_on(data@.subrange(0, i as int), '|')[1] == data@.subrange(
                start as int,
                end as int,
            ),
        decreases n - i,
    {
        let c = data.get_char(i);
        let ghost before = data@.subrange(0, i as int);
        let ghost after = data@.subrange(0, i + 1);
        assert(after.drop_last() =~= before);
        assert(after.last() == c);
        if c == '|' {
            if seps == 0 {
                start = i + 1;
            } else if seps == 1 {
                end = i;
            }
            seps = seps + 1;
        } else if seps == 1 {
            assert(data@.subrange(start as int, i + 1) =~= data@.subrange(start as int, i as int).push(c));
        }
        i = i + 1;
    }
    assert(data@.subrange(0, n as int) =~= data@);
    if seps == 0 {
        return None;
    }
    let stop = if seps == 1 { n } else { end };
    Some(String::from_str(data.substring_char(start, stop)))
}

/// The stream address in an announcement: the text between its first and its
/// second `|`, or up to its end where there is no second one.
pub fn announced_address(data: &str) -> (a: String)
    requires
        split_on(data@, '|').len() >= 2,
    ensures
        a@ == split_on(data@, '|')[1],
{
    match try_announced_address(data) {
        Some(a) => a,
        None => {
            proof {
                assert(false);
            }
            String::new()
        },
    }
}

/// A client reads back from an announcement the address that the server put
/// into it, for every address without a `|` and every port.
pub proof fn lemma_announcement_roundtrip(address: Seq<char>, port: nat)
    requires
        free_of(address, '|'),
    ensures
        split_on(spec_announcement(address, port), '|').len() >= 2,
        split_on(spec_announcement(address, port), '|')[1] == address,
{
    let head = seq!['m', 'i', 'c', 'a', 's', 't', '-', 'd', 'j'];
    let digits = decimal(port);
    let tail = seq!['\n'];
    assert(free_of(head, '|'));
    assert(free_of(tail, '|'));
    lemma_decimal_value(port);
    assert(!is_digit('|'));
    lemma_digits_free(digits, '|');
    let s1 = head.push('|') + address;
    lemma_split_pair(head, address, '|');
    let s2 = s1.push('|');
    lemma_split_push_sep(s1, '|');
    let s3 = s2 + digits;
    lemma_split_append_free(s2, digits, '|');
    let s4 = s3.push('|');
    lemma_split_push_sep(s3, '|');
    let s5 = s4 + tail;
    lemma_split_append_free(s4, tail, '|');
    assert(s5 =~= spec_announcement(address, port));
}

} // verus!
