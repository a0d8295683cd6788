//! Peer table and liveness bookkeeping of a network node.
//!
//! The node state owns the live peer list (ordered by insertion, one entry
//! per address), the permanent set of addresses ever connected to, the
//! grace-period map of recently departed addresses, and the video reassembly
//! buffers. Time enters every liveness decision as an explicit millisecond
//! reading, so each rule here is stated and proved exactly.

use vstd::prelude::*;

use crate::codec::Message;
use crate::fragment::{
    concat_slots, FragmentBuffer, FRAGMENT_TTL_MS,
};
use crate::lz4::lz4_unblock;

verus! {

/// How long a live peer may stay silent before pruning removes it.
pub const PEER_TIMEOUT_MS: u64 = 30000;

/// Grace period after a peer leaves before discovery may re-add it.
pub const LEAVE_GRACE_MS: u64 = 2000;

/// A socket address as plain numbers: the IP in two 64-bit halves (an IPv4
/// address occupies the low bits of `ip_lo` with `ip_hi` zero) and the port.
#[derive(Debug, Clone, Copy, PartialEq, Eq, Hash, Structural)]
pub struct NetAddr {
    pub ip_hi: u64,
    pub ip_lo: u64,
    pub port: u16,
}

/// A connected peer.
#[derive(Debug, Clone)]
pub struct Peer {
    /// Peer's display name
    pub name: String,
    /// Peer's socket address
    pub addr: NetAddr,
    /// When we last heard from this peer, in milliseconds on the node's clock
    pub last_seen: u64,
}

/// Milliseconds elapsed from `then` to `now`, zero if `then` lies ahead.
pub open spec fn sat_dur(now: u64, then: u64) -> int {
    if now >= then {
        now - then
    } else {
        0
    }
}

/// A peer whose silence has reached the timeout.
pub open spec fn peer_expired(p: Peer, now: u64, timeout_ms: u64) -> bool {
    sat_dur(now, p.last_seen) >= timeout_ms
}

/// A departure still inside the grace period.
pub open spec fn left_fresh(left_at: u64, now: u64) -> bool {
    sat_dur(now, left_at) < LEAVE_GRACE_MS
}

/// A reassembly buffer still inside its time-to-live.
pub open spec fn buf_fresh(b: FragmentBuffer, now: u64) -> bool {
    sat_dur(now, b.received_at) < FRAGMENT_TTL_MS
}

/// The buffer that collects fragments of one frame from one peer.
pub open spec fn key_match(b: FragmentBuffer, from: Seq<char>, frame_id: u8) -> bool {
    b.from@ == from && b.frame_id == frame_id
}

/// `n` empty fragment slots.
pub open spec fn empty_slots(n: int) -> Seq<Option<Seq<u8>>> {
    Seq::new(n as nat, |i: int| None)
}

/// Slots after storing `d` at `idx`; an index out of range changes nothing.
pub open spec fn slots_added(slots: Seq<Option<Seq<u8>>>, idx: int, d: Seq<u8>) -> Seq<
    Option<Seq<u8>>,
> {
    if 0 <= idx < slots.len() {
        slots.update(idx, Some(d))
    } else {
        slots
    }
}

/// Every slot holds a fragment.
pub open spec fn all_some(slots: Seq<Option<Seq<u8>>>) -> bool {
    forall|i: int| 0 <= i < slots.len() ==> slots[i] is Some
}

/// Milliseconds elapsed from `then` to `now`, zero if `then` lies ahead.
pub fn ms_since(now: u64, then: u64) -> (r: u64)
    ensures
        r == sat_dur(now, then),
{
    if now >= then {
        now - then
    } else {
        0
    }
}

/// Network node state for peer-to-peer communication. The socket itself
/// lives with the caller; this state records what the protocol must remember.
pub struct NetworkNode {
    /// This node's display name
    pub name: String,
    /// The local bind address
    pub local_addr: NetAddr,
    /// The public address learned from STUN, once known
    pub public_addr: Option<NetAddr>,
    /// Live peers, in insertion order
    pub peers: Vec<Peer>,
    /// Every address ever connected to; survives peer removal
    pub known_addrs: Vec<NetAddr>,
    /// Addresses that recently sent Leave, with the departure time
    pub recently_left: Vec<(NetAddr, u64)>,
    /// Reassembly buffers, keyed by sender name and frame id
    pub fragment_buffers: Vec<FragmentBuffer>,
}

impl NetworkNode {
    /// A fresh node with no peers and no history.
    pub fn new(name: String, local_addr: NetAddr) -> (r: Self)
        ensures
            r.name == name,
            r.local_addr == local_addr,
            r.public_addr is None,
            r.peers@ == Seq::<Peer>::empty(),
            r.known_addrs@ == Seq::<NetAddr>::empty(),
            r.recently_left@ == Seq::<(NetAddr, u64)>::empty(),
            r.fragment_buffers@ == Seq::<FragmentBuffer>::empty(),
    {
        NetworkNode {
            name,
            local_addr,
            public_addr: None,
            peers: Vec::new(),
            known_addrs: Vec::new(),
            recently_left: Vec::new(),
            fragment_buffers: Vec::new(),
        }
    }

    /// Record the public address discovered for this node.
    pub fn set_public_addr(&mut self, addr: NetAddr)
        ensures
            final(self).public_addr == Some(addr),
            final(self).name == old(self).name,
            final(self).local_addr == old(self).local_addr,
            final(self).peers == old(self).peers,
            final(self).known_addrs == old(self).known_addrs,
            final(self).recently_left == old(self).recently_left,
            final(self).fragment_buffers == old(self).fragment_buffers,
    {
        self.public_addr = Some(addr);
    }

    /// Upsert a peer: its own addresses are suppressed; a known address gets
    /// the new name and a fresh `last_seen`; a new address is appended and
    /// permanently remembered.
    #[verifier::loop_isolation(false)]
    pub fn add_peer(&mut self, name: String, addr: NetAddr, now: u64)
        ensures
            final(self).name == old(self).name,
            final(self).local_addr == old(self).local_addr,
            final(self).public_addr == old(self).public_addr,
            final(self).recently_left == old(self).recently_left,
            final(self).fragment_buffers == old(self).fragment_buffers,
            (old(self).public_addr == Some(addr) || addr == old(self).local_addr) ==> *final(self)
                == *old(self),
            !(old(self).public_addr == Some(addr) || addr == old(self).local_addr) ==> {
                &&& final(self).known_addrs@ == if old(self).known_addrs@.contains(addr) {
                    old(self).known_addrs@
                } else {
                    old(self).known_addrs@.push(addr)
                }
                &&& (forall|j: int|
                    0 <= j < old(self).peers@.len() && (#[trigger] old(self).peers@[j]).addr
                        == addr && (forall|k: int|
                        0 <= k < j ==> (#[trigger] old(self).peers@[k]).addr != addr) ==> final(self).peers@ == old(self).peers@.update(
                        j,
                        Peer { name, addr, last_seen: now },
                    ))
                &&& ((forall|j: int|
                    0 <= j < old(self).peers@.len() ==> (#[trigger] old(self).peers@[j]).addr
                        != addr) ==> final(self).peers@ == old(self).peers@.push(
                    Peer { name, addr, last_seen: now },
                ))
            },
    {
        let is_self = match &self.public_addr {
            Some(p) => *p == addr,
            None => false,
        };
        if is_self || addr == self.local_addr {
            return ;
        }
        let mut known: bool = false;
        let mut i: usize = 0;
        while i < self.known_addrs.len()
            invariant
                i <= self.known_addrs@.len(),
                known == exists|j: int| 0 <= j < i && self.known_addrs@[j] == addr,
            decreases self.known_addrs@.len() - i,
        {
            if self.known_addrs[i] == addr {
                known = true;
            }
            i += 1;
        }
        proof {
            assert(known == old(self).known_addrs@.contains(addr));
        }
        if !known {
            self.known_addrs.push(addr);
        }
        let ghost known_now = self.known_addrs@;
        let mut k: usize = 0;
        while k < self.peers.len()
            invariant
                k <= self.peers@.len(),
                forall|j: int| 0 <= j < k ==> (#[trigger] self.peers@[j]).addr != addr,
                self.peers == old(self).peers,
                self.known_addrs@ == known_now,
                same_identity(*self, *old(self)),
                self.recently_left == old(self).recently_left,
                self.fragment_buffers == old(self).fragment_buffers,
            decreases self.peers@.len() - k,
        {
            if self.peers[k].addr == addr {
                self.peers[k] = Peer { name, addr, last_seen: now };
                return ;
            }
            k += 1;
        }
        self.peers.push(Peer { name, addr, last_seen: now });
    }

    /// Delete a peer and note the departure time for the grace period.
    #[verifier::loop_isolation(false)]
    pub fn remove_peer(&mut self, addr: NetAddr, now: u64)
        ensures
            final(self).name == old(self).name,
            final(self).local_addr == old(self).local_addr,
            final(self).public_addr == old(self).public_addr,
            final(self).known_addrs == old(self).known_addrs,
            final(self).fragment_buffers == old(self).fragment_buffers,
            final(self).peers@ == old(self).peers@.filter(|p: Peer| p.addr != addr),
            (forall|j: int|
                0 <= j < old(self).recently_left@.len() && (#[trigger] old(
                    self,
                ).recently_left@[j]).0 == addr && (forall|k: int|
                    0 <= k < j ==> (#[trigger] old(self).recently_left@[k]).0 != addr) ==> final(self).recently_left@ == old(self).recently_left@.update(j, (addr, now))),
            ((forall|j: int|
                0 <= j < old(self).recently_left@.len() ==> (#[trigger] old(
                    self,
                ).recently_left@[j]).0 != addr) ==> final(self).recently_left@ == old(
                self,
            ).recently_left@.push((addr, now))),
    {
        let mut kept: Vec<Peer> = Vec::new();
        let mut old_peers: Vec<Peer> = Vec::new();
        core::mem::swap(&mut self.peers, &mut old_peers);
        proof {
            assert(old_peers.len() == old_peers@.len());
        }
        let ghost orig = old_peers@;
        let ghost pred = |p: Peer| p.addr != addr;
        let mut done: usize = 0;
        while old_peers.len() > 0
            invariant
                done + old_peers@.len() == orig.len(),
                old_peers@ == orig.skip(done as int),
                kept@ == orig.take(done as int).filter(pred),
            decreases old_peers@.len(),
        {
            let p = old_peers.remove(0);
            proof {
                assert(p == orig[done as int]);
                assert(orig.take(done as int + 1).drop_last() =~= orig.take(done as int));
                assert(orig.take(done as int + 1) =~= orig.take(done as int).push(p));
                crate::util::lemma_filter_push(orig.take(done as int), pred, p);
                assert(old_peers@ =~= orig.skip(done as int + 1));
            }
            if p.addr != addr {
                kept.push(p);
            }
            done += 1;
        }
        proof {
            assert(orig.take(orig.len() as int) =~= orig);
        }
        core::mem::swap(&mut self.peers, &mut kept);
        let mut k: usize = 0;
        while k < self.recently_left.len()
            invariant
                k <= self.recently_left@.len(),
                forall|j: int| 0 <= j < k ==> (#[trigger] self.recently_left@[j]).0 != addr,
                self.recently_left == old(self).recently_left,
                same_identity(*self, *old(self)),
                self.known_addrs == old(self).known_addrs,
                self.fragment_buffers == old(self).fragment_buffers,
                self.peers@ == old(self).peers@.filter(|p: Peer| p.addr != addr),
            decreases self.recently_left@.len() - k,
        {
            if self.recently_left[k].0 == addr {
                self.recently_left[k] = (addr, now);
                return ;
            }
            k += 1;
        }
        self.recently_left.push((addr, now));
    }

    /// Remove and return every peer whose silence has reached `timeout_ms`;
    /// all others stay, in order and untouched.
    #[verifier::loop_isolation(false)]
    pub fn prune_peers(&mut self, now: u64, timeout_ms: u64) -> (r: Vec<Peer>)
        ensures
            final(self).name == old(self).name,
            final(self).local_addr == old(self).local_addr,
            final(self).public_addr == old(self).public_addr,
            final(self).known_addrs == old(self).known_addrs,
            final(self).recently_left == old(self).recently_left,
            final(self).fragment_buffers == old(self).fragment_buffers,
            final(self).peers@ == old(self).peers@.filter(
                |p: Peer| !peer_expired(p, now, timeout_ms),
            ),
            r@ == old(self).peers@.filter(|p: Peer| peer_expired(p, now, timeout_ms)),
    {
        let mut kept: Vec<Peer> = Vec::new();
        let mut pruned: Vec<Peer> = Vec::new();
        let mut old_peers: Vec<Peer> = Vec::new();
        core::mem::swap(&mut self.peers, &mut old_peers);
        proof {
            assert(old_peers.len() == old_peers@.len());
        }
        let ghost orig = old_peers@;
        let ghost keep_pred = |p: Peer| !peer_expired(p, now, timeout_ms);
        let ghost drop_pred = |p: Peer| peer_expired(p, now, timeout_ms);
        let mut done: usize = 0;
        while old_peers.len() > 0
            invariant
                done + old_peers@.len() == orig.len(),
                old_peers@ == orig.skip(done as int),
                kept@ == orig.take(done as int).filter(keep_pred),
                pruned@ == orig.take(done as int).filter(drop_pred),
            decreases old_peers@.len(),
        {
            let p = old_peers.remove(0);
            proof {
                assert(p == orig[done as int]);
                assert(orig.take(done as int + 1) =~= orig.take(done as int).push(p));
                crate::util::lemma_filter_push(orig.take(done as int), keep_pred, p);
                crate::util::lemma_filter_push(orig.take(done as int), drop_pred, p);
                assert(old_peers@ =~= orig.skip(done as int + 1));
            }
            if ms_since(now, p.last_seen) >= timeout_ms {
                pruned.push(p);
            } else {
                kept.push(p);
            }
            done += 1;
        }
        proof {
            assert(orig.take(orig.len() as int) =~= orig);
        }
        core::mem::swap(&mut self.peers, &mut kept);
        pruned
    }

    /// The list of connected peers.
    pub fn peers(&self) -> (r: &Vec<Peer>)
        ensures
            r@ == self.peers@,
    {
        &self.peers
    }

    /// The number of connected peers.
    pub fn peer_count(&self) -> (r: usize)
        ensures
            r == self.peers@.len(),
    {
        self.peers.len()
    }

    /// Whether a live, unexpired peer exists at this address.
    pub fn has_peer(&self, addr: NetAddr, now: u64, timeout_ms: u64) -> (r: bool)
        ensures
            r == exists|i: int|
                0 <= i < self.peers@.len() && (#[trigger] self.peers@[i]).addr == addr
                    && !peer_expired(self.peers@[i], now, timeout_ms),
    {
        let mut i: usize = 0;
        while i < self.peers.len()
            invariant
                i <= self.peers@.len(),
                forall|j: int|
                    0 <= j < i ==> !((#[trigger] self.peers@[j]).addr == addr && !peer_expired(
                        self.peers@[j],
                        now,
                        timeout_ms,
                    )),
            decreases self.peers@.len() - i,
        {
            if self.peers[i].addr == addr && ms_since(now, self.peers[i].last_seen) < timeout_ms {
                return true;
            }
            i += 1;
        }
        false
    }

    /// Whether this address was ever connected to.
    pub fn knows_peer(&self, addr: NetAddr) -> (r: bool)
        ensures
            r == self.known_addrs@.contains(addr),
    {
        let mut i: usize = 0;
        while i < self.known_addrs.len()
            invariant
                i <= self.known_addrs@.len(),
                forall|j: int| 0 <= j < i ==> self.known_addrs@[j] != addr,
            decreases self.known_addrs@.len() - i,
        {
            if self.known_addrs[i] == addr {
                return true;
            }
            i += 1;
        }
        false
    }

    /// Whether this address left within the grace period; entries older than
    /// the grace window are evicted on the way.
    #[verifier::loop_isolation(false)]
    pub fn recently_left(&mut self, addr: NetAddr, now: u64) -> (r: bool)
        ensures
            final(self).name == old(self).name,
            final(self).local_addr == old(self).local_addr,
            final(self).public_addr == old(self).public_addr,
            final(self).known_addrs == old(self).known_addrs,
            final(self).peers == old(self).peers,
            final(self).fragment_buffers == old(self).fragment_buffers,
            final(self).recently_left@ == old(self).recently_left@.filter(
                |e: (NetAddr, u64)| left_fresh(e.1, now),
            ),
            r == exists|i: int|
                0 <= i < final(self).recently_left@.len() && (#[trigger] final(self).recently_left@[i]).0 == addr,
    {
        let mut kept: Vec<(NetAddr, u64)> = Vec::new();
        let mut old_left: Vec<(NetAddr, u64)> = Vec::new();
        core::mem::swap(&mut self.recently_left, &mut old_left);
        proof {
            assert(old_left.len() == old_left@.len());
        }
        let ghost orig = old_left@;
        let ghost pred = |e: (NetAddr, u64)| left_fresh(e.1, now);
        let mut done: usize = 0;
        while old_left.len() > 0
            invariant
                done + old_left@.len() == orig.len(),
                old_left@ == orig.skip(done as int),
                kept@ == orig.take(done as int).filter(pred),
            decreases old_left@.len(),
        {
            let e = old_left.remove(0);
            proof {
                assert(e == orig[done as int]);
                assert(orig.take(done as int + 1) =~= orig.take(done as int).push(e));
                crate::util::lemma_filter_push(orig.take(done as int), pred, e);
                assert(old_left@ =~= orig.skip(done as int + 1));
            }
            if ms_since(now, e.1) < LEAVE_GRACE_MS {
                kept.push(e);
            }
            done += 1;
        }
        proof {
            assert(orig.take(orig.len() as int) =~= orig);
        }
        core::mem::swap(&mut self.recently_left, &mut kept);
        let mut i: usize = 0;
        while i < self.recently_left.len()
            invariant
                i <= self.recently_left@.len(),
                forall|j: int| 0 <= j < i ==> (#[trigger] self.recently_left@[j]).0 != addr,
                self.recently_left@ == old(self).recently_left@.filter(
                    |e: (NetAddr, u64)| left_fresh(e.1, now),
                ),
            decreases self.recently_left@.len() - i,
        {
            if self.recently_left[i].0 == addr {
                return true;
            }
            i += 1;
        }
        false
    }

    /// Refresh `last_seen` of the peer at this address, if it is connected.
    #[verifier::loop_isolation(false)]
    pub fn touch_peer(&mut self, addr: NetAddr, now: u64)
        ensures
            final(self).name == old(self).name,
            final(self).local_addr == old(self).local_addr,
            final(self).public_addr == old(self).public_addr,
            final(self).known_addrs == old(self).known_addrs,
            final(self).recently_left == old(self).recently_left,
            final(self).fragment_buffers == old(self).fragment_buffers,
            (forall|j: int|
                0 <= j < old(self).peers@.len() && (#[trigger] old(self).peers@[j]).addr == addr
                    && (forall|k: int|
                    0 <= k < j ==> (#[trigger] old(self).peers@[k]).addr != addr) ==> final(self).peers@ == old(self).peers@.update(
                    j,
                    Peer {
                        name: old(self).peers@[j].name,
                        addr: old(self).peers@[j].addr,
                        last_seen: now,
                    },
                )),
            ((forall|j: int|
                0 <= j < old(self).peers@.len() ==> (#[trigger] old(self).peers@[j]).addr != addr)
                ==> final(self).peers == old(self).peers),
    {
        let mut k: usize = 0;
        while k < self.peers.len()
            invariant
                k <= self.peers@.len(),
                forall|j: int| 0 <= j < k ==> (#[trigger] self.peers@[j]).addr != addr,
                self.peers == old(self).peers,
                same_identity(*self, *old(self)),
                self.known_addrs == old(self).known_addrs,
                self.recently_left == old(self).recently_left,
                self.fragment_buffers == old(self).fragment_buffers,
            decreases self.peers@.len() - k,
        {
            if self.peers[k].addr == addr {
                let name = self.peers[k].name.clone();
                proof {
                    assert(self.peers@[k as int].name@ == name@);
                }
                self.peers[k] = Peer { name, addr, last_seen: now };
                return ;
            }
            k += 1;
        }
    }

    /// The chat message this node broadcasts for the given text.
    pub fn chat_message(&self, text: &str) -> (r: Message)
        ensures
            r matches Message::Chat { from, text: t } && from@ == self.name@ && t@ == text@,
    {
        Message::Chat { from: self.name.clone(), text: text.to_owned() }
    }

    /// The join message this node sends when connecting to a peer.
    pub fn join_message(&self) -> (r: Message)
        ensures
            r matches Message::Join { name } && name@ == self.name@,
    {
        Message::Join { name: self.name.clone() }
    }

    /// Whether a reassembly buffer exists for this sender and frame id.
    pub fn has_fragment_buffer(&self, from: &String, frame_id: u8) -> (r: bool)
        ensures
            r == exists|i: int|
                0 <= i < self.fragment_buffers@.len() && key_match(
                    #[trigger] self.fragment_buffers@[i],
                    from@,
                    frame_id,
                ),
    {
        let mut i: usize = 0;
        while i < self.fragment_buffers.len()
            invariant
                i <= self.fragment_buffers@.len(),
                forall|j: int|
                    0 <= j < i ==> !key_match(#[trigger] self.fragment_buffers@[j], from@, frame_id),
            decreases self.fragment_buffers@.len() - i,
        {
            if self.fragment_buffers[i].from == *from && self.fragment_buffers[i].frame_id
                == frame_id {
                return true;
            }
            i += 1;
        }
        false
    }
}

impl NetworkNode {
    /// No buffer in `bufs` collects fragments for this sender and frame id.
    pub open spec fn no_buffer_for(bufs: Seq<FragmentBuffer>, from: Seq<char>, frame_id: u8) -> bool {
        forall|i: int| 0 <= i < bufs.len() ==> !key_match(#[trigger] bufs[i], from, frame_id)
    }

    /// The result is the video frame reassembled from the given slots.
    pub open spec fn reassembled_frame(
        r: Option<Message>,
        from: Seq<char>,
        width: u16,
        height: u16,
        slots1: Seq<Option<Seq<u8>>>,
    ) -> bool {
        r matches Some(m) && (m matches Message::VideoFrame {
            from: f,
            width: w,
            height: h,
            pixels: px,
        } && f@ == from && w == width && h == height && px@ == lz4_unblock(
            concat_slots(slots1),
        ).unwrap())
    }

    /// What one fragment does when no buffer for its frame exists yet: a
    /// fresh buffer takes the fragment; if that already completes the frame
    /// and it decompresses, the frame is returned and nothing is kept, else
    /// the buffer is appended.
    pub open spec fn fresh_buffer_step(
        purged: Seq<FragmentBuffer>,
        from: Seq<char>,
        width: u16,
        height: u16,
        frame_id: u8,
        fragment_idx: u8,
        total_fragments: u8,
        data: Seq<u8>,
        now: u64,
        r: Option<Message>,
        final_bufs: Seq<FragmentBuffer>,
    ) -> bool {
        let slots1 = slots_added(empty_slots(total_fragments as int), fragment_idx as int, data);
        if all_some(slots1) && lz4_unblock(concat_slots(slots1)) is Some {
            &&& Self::reassembled_frame(r, from, width, height, slots1)
            &&& final_bufs == purged
        } else {
            &&& r is None
            &&& final_bufs.len() == purged.len() + 1
            &&& (forall|i: int| 0 <= i < purged.len() ==> final_bufs[i] == purged[i])
            &&& key_match(final_bufs.last(), from, frame_id)
            &&& final_bufs.last().slots() == slots1
            &&& final_bufs.last().width == width
            &&& final_bufs.last().height == height
            &&& final_bufs.last().total_fragments == total_fragments
            &&& final_bufs.last().received_at == now
        }
    }

    /// What one fragment does to the existing buffer at index `j`: the slot
    /// is filled; if the buffer is then complete and its joined bytes
    /// decompress, the frame is returned and the buffer removed, else the
    /// buffer stays with the slot filled and everything else untouched.
    pub open spec fn existing_buffer_step(
        purged: Seq<FragmentBuffer>,
        j: int,
        from: Seq<char>,
        width: u16,
        height: u16,
        fragment_idx: u8,
        data: Seq<u8>,
        r: Option<Message>,
        final_bufs: Seq<FragmentBuffer>,
    ) -> bool {
        let slots1 = slots_added(purged[j].slots(), fragment_idx as int, data);
        if all_some(slots1) && lz4_unblock(concat_slots(slots1)) is Some {
            &&& Self::reassembled_frame(r, from, width, height, slots1)
            &&& final_bufs == purged.remove(j)
        } else {
            &&& r is None
            &&& final_bufs.len() == purged.len()
            &&& (forall|i: int| 0 <= i < purged.len() && i != j ==> final_bufs[i] == purged[i])
            &&& final_bufs[j].slots() == slots1
            &&& final_bufs[j].from == purged[j].from
            &&& final_bufs[j].frame_id == purged[j].frame_id
            &&& final_bufs[j].width == purged[j].width
            &&& final_bufs[j].height == purged[j].height
            &&& final_bufs[j].total_fragments == purged[j].total_fragments
            &&& final_bufs[j].received_at == purged[j].received_at
        }
    }

    /// Store one arriving video fragment and hand back the whole frame once
    /// its last fragment is in.
    ///
    /// Buffers older than the time-to-live are purged first, complete or not.
    /// The fragment then lands in the buffer for `(from, frame_id)`, created
    /// on first contact; if that fills the buffer and the joined bytes
    /// decompress, the buffer is consumed and the reassembled `VideoFrame`
    /// returned. Everything else - a late fragment for a purged frame, a
    /// duplicate for a frame already handed out, a slot still missing, or a
    /// payload that does not decompress - yields no message.
    #[verifier::loop_isolation(false)]
    pub fn process_fragment(
        &mut self,
        from: String,
        width: u16,
        height: u16,
        frame_id: u8,
        fragment_idx: u8,
        total_fragments: u8,
        data: Vec<u8>,
        now: u64,
    ) -> (r: Option<Message>)
        ensures
            same_identity(*final(self), *old(self)),
            final(self).peers == old(self).peers,
            final(self).known_addrs == old(self).known_addrs,
            final(self).recently_left == old(self).recently_left,
            ({
                let purged = old(self).fragment_buffers@.filter(
                    |b: FragmentBuffer| buf_fresh(b, now),
                );
                &&& (Self::no_buffer_for(purged, from@, frame_id) ==> Self::fresh_buffer_step(
                    purged,
                    from@,
                    width,
                    height,
                    frame_id,
                    fragment_idx,
                    total_fragments,
                    data@,
                    now,
                    r,
                    final(self).fragment_buffers@,
                ))
                &&& (forall|j: int|
                    0 <= j < purged.len() && key_match(#[trigger] purged[j], from@, frame_id) && (
                    forall|k: int|
                        0 <= k < j ==> !key_match(#[trigger] purged[k], from@, frame_id))
                        ==> Self::existing_buffer_step(
                        purged,
                        j,
                        from@,
                        width,
                        height,
                        fragment_idx,
                        data@,
                        r,
                        final(self).fragment_buffers@,
                    ))
            }),
    {
        let ghost pred = |b: FragmentBuffer| buf_fresh(b, now);
        let mut kept: Vec<FragmentBuffer> = Vec::new();
        let mut old_bufs: Vec<FragmentBuffer> = Vec::new();
        core::mem::swap(&mut self.fragment_buffers, &mut old_bufs);
        proof {
            assert(old_bufs.len() == old_bufs@.len());
        }
        let ghost orig = old_bufs@;
        let mut done: usize = 0;
        while old_bufs.len() > 0
            invariant
                done + old_bufs@.len() == orig.len(),
                old_bufs@ == orig.skip(done as int),
                kept@ == orig.take(done as int).filter(pred),
            decreases old_bufs@.len(),
        {
            let b = old_bufs.remove(0);
            proof {
                assert(b == orig[done as int]);
                assert(orig.take(done as int + 1) =~= orig.take(done as int).push(b));
                crate::util::lemma_filter_push(orig.take(done as int), pred, b);
                assert(old_bufs@ =~= orig.skip(done as int + 1));
            }
            if ms_since(now, b.received_at) < FRAGMENT_TTL_MS {
                kept.push(b);
            }
            done += 1;
        }
        proof {
            assert(orig.take(orig.len() as int) =~= orig);
        }
        core::mem::swap(&mut self.fragment_buffers, &mut kept);
        let ghost purged = self.fragment_buffers@;

        let mut found: Option<usize> = None;
        let mut i: usize = 0;
        while i < self.fragment_buffers.len() && found.is_none()
            invariant
                i <= purged.len(),
                self.fragment_buffers@ == purged,
                match found {
                    Some(j) => j == i && 0 <= i < purged.len() && key_match(
                        purged[i as int],
                        from@,
                        frame_id,
                    ) && (forall|k: int|
                        0 <= k < i ==> !key_match(#[trigger] purged[k], from@, frame_id)),
                    None => forall|k: int|
                        0 <= k < i ==> !key_match(#[trigger] purged[k], from@, frame_id),
                },
            decreases purged.len() - i, (if found is None { 1int } else { 0int }),
        {
            if self.fragment_buffers[i].from == from && self.fragment_buffers[i].frame_id
                == frame_id {
                found = Some(i);
            } else {
                i += 1;
            }
        }
        match found {
            None => {
                let ghost slots1 = slots_added(
                    empty_slots(total_fragments as int),
                    fragment_idx as int,
                    data@,
                );
                let mut nb = FragmentBuffer::new(
                    from.clone(),
                    width,
                    height,
                    frame_id,
                    total_fragments,
                    now,
                );
                proof {
                    assert(nb.slots() =~= empty_slots(total_fragments as int));
                }
                nb.add_fragment(fragment_idx, data);
                proof {
                    assert(nb.slots() == slots1);
                    assert(nb.complete() == all_some(slots1));
                }
                let complete = nb.is_complete();
                if complete {
                    match nb.reassemble() {
                        Some(pixels) => {
                            proof {
                                assert(lz4_unblock(concat_slots(slots1)) is Some);
                            }
                            return Some(Message::VideoFrame { from, width, height, pixels });
                        }
                        None => {
                            proof {
                                assert(!(all_some(slots1) && lz4_unblock(
                                    concat_slots(slots1),
                                ) is Some));
                            }
                        }
                    }
                }
                self.fragment_buffers.push(nb);
                proof {
                    assert(self.fragment_buffers@.last() == nb);
                }
                None
            }
            Some(j) => {
                let ghost slots1 = slots_added(
                    purged[j as int].slots(),
                    fragment_idx as int,
                    data@,
                );
                let buf = &mut self.fragment_buffers[j];
                proof {
                    assert(*buf == purged[j as int]);
                }
                buf.add_fragment(fragment_idx, data);
                proof {
                    assert(self.fragment_buffers@ == purged.update(j as int, *final(buf)));
                    assert(self.fragment_buffers@[j as int].slots() == slots1);
                    assert(self.fragment_buffers@[j as int].complete() == all_some(slots1));
                }
                let complete = self.fragment_buffers[j].is_complete();
                let mut pixels_opt: Option<Vec<u8>> = None;
                if complete {
                    pixels_opt = self.fragment_buffers[j].reassemble();
                }
                match pixels_opt {
                    Some(pixels) => {
                        proof {
                            assert(all_some(slots1) && lz4_unblock(concat_slots(slots1)) is Some);
                        }
                        self.fragment_buffers.remove(j);
                        proof {
                            assert(self.fragment_buffers@ =~= purged.remove(j as int));
                        }
                        Some(Message::VideoFrame { from, width, height, pixels })
                    }
                    None => {
                        proof {
                            assert(!(all_some(slots1) && lz4_unblock(
                                concat_slots(slots1),
                            ) is Some));
                        }
                        None
                    }
                }
            }
        }
    }
}


/// The node fields that no peer-table operation ever touches.
pub open spec fn same_identity(cur: NetworkNode, orig: NetworkNode) -> bool {
    &&& cur.name == orig.name
    &&& cur.local_addr == orig.local_addr
    &&& cur.public_addr == orig.public_addr
}

} // verus!
