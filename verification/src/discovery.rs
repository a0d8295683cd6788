//! LAN peer discovery over UDP broadcast.
//!
//! Discovery packets use their own magic-prefixed format, distinct from the
//! application codec: 8 magic bytes, the announcing node's application port
//! (2 bytes big-endian), then a length-prefixed name. Each node periodically
//! broadcasts an announce to every subnet broadcast address and replies
//! directly to any announce it hears from another name, so discovery becomes
//! bidirectional in one round trip.

use vstd::prelude::*;
use vstd::utf8::encode_utf8;

use crate::node::NetAddr;
use crate::util::{be16, bytes_range, push_bytes, read_be16, str_eq, str_of_bytes, u16_be_bytes};

verus! {

/// UDP port the discovery protocol listens and broadcasts on.
pub const DISCOVERY_PORT: u16 = 7891;

/// How often announcements go out, in milliseconds.
pub const ANNOUNCE_INTERVAL_MS: u64 = 5000;

/// The 8 magic bytes that open every discovery packet.
pub open spec fn magic() -> Seq<u8> {
    seq![0x41u8, 0x43u8, 0x4du8, 0x53u8, 0x57u8, 0x52u8, 0x4du8, 0x48u8]
}

/// The exact bytes of an announce packet.
pub open spec fn dm_encode(name: Seq<char>, port: u16) -> Seq<u8> {
    magic() + u16_be_bytes(port) + seq![encode_utf8(name).len() as u8] + encode_utf8(name)
}

/// The parse of a discovery datagram: the announced name and port, or
/// nothing when the packet is too short, lacks the magic prefix, or cuts the
/// name off. Trailing bytes are ignored.
pub open spec fn dm_decode(b: Seq<u8>) -> Option<(Seq<char>, u16)> {
    if b.len() < 11 || b.subrange(0, 8) != magic() {
        None
    } else {
        let port = be16(b[8], b[9]);
        let n = b[10] as int;
        if b.len() < 11 + n {
            None
        } else {
            Some((str_of_bytes(b.subrange(11, 11 + n)), port))
        }
    }
}

/// Discovery announcement: the sender's name and application port.
#[derive(Debug, Clone)]
pub struct DiscoveryMessage {
    pub name: String,
    pub port: u16,
}

impl DiscoveryMessage {
    /// Serialize the announcement; the wire holds exactly `dm_encode` of it.
    pub fn to_bytes(&self) -> (r: Vec<u8>)
        requires
            encode_utf8(self.name@).len() <= 255,
        ensures
            r@ == dm_encode(self.name@, self.port),
            dm_decode(r@) == Some((self.name@, self.port)),
    {
        let mut buf: Vec<u8> = Vec::new();
        buf.push(0x41);
        buf.push(0x43);
        buf.push(0x4d);
        buf.push(0x53);
        buf.push(0x57);
        buf.push(0x52);
        buf.push(0x4d);
        buf.push(0x48);
        crate::util::push_be16(&mut buf, self.port);
        let nb = self.name.as_str().as_bytes();
        buf.push(nb.len() as u8);
        push_bytes(&mut buf, nb);
        proof {
            assert(buf@ =~= dm_encode(self.name@, self.port));
            lemma_discovery_roundtrip(self.name@, self.port);
        }
        buf
    }

    /// Parse one discovery datagram; exactly the packets `dm_decode` accepts
    /// come back as messages.
    pub fn from_bytes(data: &[u8]) -> (r: Option<Self>)
        ensures
            match r {
                Some(m) => dm_decode(data@) == Some((m.name@, m.port)),
                None => dm_decode(data@) is None,
            },
    {
        if data.len() < 11 {
            return None;
        }
        if data[0] != 0x41 || data[1] != 0x43 || data[2] != 0x4d || data[3] != 0x53 || data[4]
            != 0x57 || data[5] != 0x52 || data[6] != 0x4d || data[7] != 0x48 {
            proof {
                assert(data@.subrange(0, 8) != magic());
            }
            return None;
        }
        proof {
            assert(data@.subrange(0, 8) =~= magic());
        }
        let port = read_be16(data, 8);
        let n = data[10] as usize;
        if data.len() < 11 + n {
            return None;
        }
        let nbytes = bytes_range(data, 11, 11 + n);
        let name = crate::util::string_of_bytes(&nbytes);
        Some(DiscoveryMessage { name, port })
    }
}

/// Round trip of the discovery format: every announce whose name fits the
/// length prefix decodes from its own encoding.
pub proof fn lemma_discovery_roundtrip(name: Seq<char>, port: u16)
    requires
        encode_utf8(name).len() <= 255,
    ensures
        dm_decode(dm_encode(name, port)) == Some((name, port)),
{
    let e = dm_encode(name, port);
    let en = encode_utf8(name);
    let n = en.len() as int;
    assert(e.len() == 11 + n);
    assert(e.subrange(0, 8) =~= magic());
    assert(e[8] == u16_be_bytes(port)[0]);
    assert(e[9] == u16_be_bytes(port)[1]);
    crate::util::lemma_be16_roundtrip(port);
    assert(e[10] == n as u8);
    assert(e.subrange(11, 11 + n) =~= en);
    vstd::utf8::encode_utf8_valid_utf8(name);
    vstd::utf8::encode_utf8_decode_utf8(name);
}

/// A packet without the magic prefix never decodes.
pub proof fn lemma_wrong_magic_decodes_none(b: Seq<u8>)
    requires
        b.len() >= 8,
        b.subrange(0, 8) != magic(),
    ensures
        dm_decode(b) is None,
{
}

/// A peer learned from a discovery announce: its name, and its application
/// endpoint built from the sender's IP and the announced port.
#[derive(Debug, Clone)]
pub struct DiscoveredPeer {
    pub name: String,
    pub addr: NetAddr,
}

/// Decide what one inbound discovery datagram means: an announce from a name
/// other than ours yields the discovered peer (the sender's IP with the
/// announced application port) and the address to send the unicast reply to
/// (the sender's IP on the discovery port). Our own announcements and
/// unparseable packets yield nothing.
pub fn handle_discovery_datagram(
    our_name: &str,
    data: &[u8],
    sender_ip_hi: u64,
    sender_ip_lo: u64,
) -> (r: Option<(DiscoveredPeer, NetAddr)>)
    ensures
        match r {
            Some(pr) => {
                &&& dm_decode(data@) matches Some((n, p)) && n == pr.0.name@ && n != our_name@
                    && pr.0.addr == (NetAddr { ip_hi: sender_ip_hi, ip_lo: sender_ip_lo, port: p })
                &&& pr.1 == (NetAddr {
                    ip_hi: sender_ip_hi,
                    ip_lo: sender_ip_lo,
                    port: DISCOVERY_PORT,
                })
            },
            None => dm_decode(data@) is None || (dm_decode(data@) matches Some((n, _)) && n
                == our_name@),
        },
{
    match DiscoveryMessage::from_bytes(data) {
        Some(msg) => {
            if str_eq(msg.name.as_str(), our_name) {
                return None;
            }
            let peer_addr = NetAddr { ip_hi: sender_ip_hi, ip_lo: sender_ip_lo, port: msg.port };
            let reply_addr = NetAddr {
                ip_hi: sender_ip_hi,
                ip_lo: sender_ip_lo,
                port: DISCOVERY_PORT,
            };
            Some((DiscoveredPeer { name: msg.name, addr: peer_addr }, reply_addr))
        }
        None => None,
    }
}

/// One network interface's IPv4 facts, as plain numbers.
#[derive(Debug, Clone, Copy)]
pub struct IfaceV4 {
    /// Whether this is a loopback interface
    pub loopback: bool,
    /// The interface's IPv4 address
    pub ip: u32,
    /// The broadcast address the system reports for it, if any
    pub broadcast: Option<u32>,
}

/// The all-ones limited broadcast address.
pub const LIMITED_BROADCAST: u32 = 0xFFFF_FFFF;

/// The IPv4 loopback address.
pub const LOCALHOST_V4: u32 = 0x7F00_0001;

/// The broadcast address one interface contributes: what the system reports,
/// or the address with a /24 host part of all ones.
pub open spec fn iface_broadcast(f: IfaceV4) -> u32 {
    match f.broadcast {
        Some(b) => b,
        None => f.ip | 0xff,
    }
}

/// An interface that takes part in discovery: not loopback, and matching the
/// configured bind address unless every interface is in play.
pub open spec fn iface_eligible(f: IfaceV4, bind_ip: u32) -> bool {
    !f.loopback && (bind_ip == 0 || f.ip == bind_ip)
}

/// Broadcast addresses collected left to right from the eligible interfaces,
/// without duplicates, on top of those already in `acc`.
pub open spec fn collect_broadcasts(ifaces: Seq<IfaceV4>, bind_ip: u32, acc: Seq<u32>) -> Seq<u32>
    decreases ifaces.len(),
{
    if ifaces.len() == 0 {
        acc
    } else {
        let f = ifaces[0];
        let acc2 = if !iface_eligible(f, bind_ip) {
            acc
        } else {
            if acc.contains(iface_broadcast(f)) {
                acc
            } else {
                acc.push(iface_broadcast(f))
            }
        };
        collect_broadcasts(ifaces.drop_first(), bind_ip, acc2)
    }
}

/// Where announcements are sent: each eligible interface's broadcast address
/// once, the limited broadcast address when no interface qualifies, and the
/// loopback address always, last.
pub open spec fn broadcast_targets(ifaces: Seq<IfaceV4>, bind_ip: u32) -> Seq<u32> {
    let c = collect_broadcasts(ifaces, bind_ip, Seq::empty());
    let c2 = if c.len() == 0 {
        seq![LIMITED_BROADCAST]
    } else {
        c
    };
    c2.push(LOCALHOST_V4)
}

/// Compute the set of broadcast addresses to announce to, from the system's
/// interface list and the configured bind address (zero to use them all).
#[verifier::loop_isolation(false)]
pub fn broadcast_addresses(ifaces: &Vec<IfaceV4>, bind_ip: u32) -> (r: Vec<u32>)
    ensures
        r@ == broadcast_targets(ifaces@, bind_ip),
{
    let mut acc: Vec<u32> = Vec::new();
    let mut i: usize = 0;
    proof {
        assert(ifaces@.skip(0) =~= ifaces@);
        assert(acc@ =~= Seq::<u32>::empty());
    }
    while i < ifaces.len()
        invariant
            i <= ifaces@.len(),
            collect_broadcasts(ifaces@, bind_ip, Seq::empty()) == collect_broadcasts(
                ifaces@.skip(i as int),
                bind_ip,
                acc@,
            ),
        decreases ifaces@.len() - i,
    {
        let f = ifaces[i];
        proof {
            assert(ifaces@.skip(i as int)[0] == f);
            assert(ifaces@.skip(i as int).drop_first() =~= ifaces@.skip(i as int + 1));
        }
        let eligible = !f.loopback && (bind_ip == 0 || f.ip == bind_ip);
        if eligible {
            let b = match f.broadcast {
                Some(x) => x,
                None => f.ip | 0xff,
            };
            let mut dup: bool = false;
            let mut k: usize = 0;
            while k < acc.len()
                invariant
                    k <= acc@.len(),
                    dup == exists|j: int| 0 <= j < k && acc@[j] == b,
                decreases acc@.len() - k,
            {
                if acc[k] == b {
                    dup = true;
                }
                k += 1;
            }
            proof {
                assert(dup == acc@.contains(b));
            }
            if !dup {
                acc.push(b);
            }
        }
        i += 1;
    }
    proof {
        assert(ifaces@.skip(ifaces@.len() as int) =~= Seq::<IfaceV4>::empty());
    }
    if acc.len() == 0 {
        acc.push(LIMITED_BROADCAST);
        proof {
            assert(acc@ =~= seq![LIMITED_BROADCAST]);
        }
    }
    acc.push(LOCALHOST_V4);
    acc
}

} // verus!
