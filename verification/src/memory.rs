//! The in-memory packet exchange between the resolver and the real network:
//! packets that arrive for a local address wait in a queue of their own
//! until a socket bound there reads them, first in, first out.

use std::collections::VecDeque;
use vstd::prelude::*;
use vstd::slice::slice_to_vec;

use crate::addr::SockAddr;

verus! {

/// How the exchange of one packet ended.
#[derive(Clone, Copy, Debug, PartialEq, Eq, Structural)]
pub enum PacketResult {
    Success,
    Failed,
    Risk,
}

/// A datagram moving between a local socket and a remote one, with the
/// name that it asks about where that is known.
#[derive(Clone, Debug)]
pub enum Packet {
    Udp { local_addr: SockAddr, remote_addr: SockAddr, buffer: Vec<u8>, query: Option<Vec<u8>> },
}

impl Packet {
    pub open spec fn spec_local_addr(&self) -> SockAddr {
        match self {
            Packet::Udp { local_addr, .. } => *local_addr,
        }
    }

    pub open spec fn spec_remote_addr(&self) -> SockAddr {
        match self {
            Packet::Udp { remote_addr, .. } => *remote_addr,
        }
    }

    pub open spec fn spec_buffer(&self) -> Seq<u8> {
        match self {
            Packet::Udp { buffer, .. } => buffer@,
        }
    }

    pub fn local_addr(&self) -> (r: SockAddr)
        ensures
            r == self.spec_local_addr(),
    {
        match self {
            Packet::Udp { local_addr, .. } => *local_addr,
        }
    }

    /// The packet that a socket bound at `local` sends to `target`, and
    /// the number of bytes that it reports as sent.
    pub fn outgoing(local: SockAddr, target: SockAddr, buf: &[u8]) -> (r: (Packet, usize))
        ensures
            r.0.spec_local_addr() == local,
            r.0.spec_remote_addr() == target,
            r.0.spec_buffer() == buf@,
            r.0 matches Packet::Udp { query, .. } && query is None,
            r.1 == buf@.len(),
    {
        let p = Packet::Udp { local_addr: local, remote_addr: target, buffer: slice_to_vec(buf), query: None };
        (p, buf.len())
    }
}

/// Why a queued packet could not be handed over.
#[derive(Clone, Copy, Debug, PartialEq, Eq, Structural)]
pub enum RecvError {
    /// The packet is longer than the buffer: the buffer holds its first
    /// bytes, the rest is lost.
    BufferTooSmall,
}

/// What a read hands over of a packet of `packet` bytes into a buffer
/// that held `buf`: the packet's bytes over the buffer's first bytes, as
/// far as they fit.
pub open spec fn copied_over(buf: Seq<u8>, packet: Seq<u8>) -> Seq<u8> {
    if packet.len() <= buf.len() {
        packet + buf.subrange(packet.len() as int, buf.len() as int)
    } else {
        packet.subrange(0, buf.len() as int)
    }
}

/// Copies `src` over the front of `dst`, as `write_all` on a byte slice
/// does: the whole of `src` where it fits, else as much as fits and an
/// error.
pub fn write_all_into(dst: &mut [u8], src: &[u8]) -> (r: Result<(), RecvError>)
    ensures
        final(dst)@ == copied_over(old(dst)@, src@),
        r is Ok <==> src@.len() <= old(dst)@.len(),
{
    let n = if src.len() <= dst.len() {
        src.len()
    } else {
        dst.len()
    };
    let mut i: usize = 0;
    while i < n
        invariant
            n <= src.len(),
            n <= dst.len(),
            n == src.len() || n == dst.len(),
            dst.len() == old(dst).len(),
            i <= n,
            forall|j: int| 0 <= j < i ==> dst@[j] == src@[j],
            forall|j: int| i <= j < dst.len() ==> dst@[j] == old(dst)@[j],
        decreases n - i,
    {
        dst[i] = src[i];
        i = i + 1;
    }
    assert(dst@ =~= copied_over(old(dst)@, src@));
    if n < src.len() {
        Err(RecvError::BufferTooSmall)
    } else {
        Ok(())
    }
}

struct Slot {
    addr: SockAddr,
    queue: VecDeque<Packet>,
}

spec fn distinct_addrs(s: Seq<Slot>) -> bool {
    forall|i: int, j: int|
        0 <= i < s.len() && 0 <= j < s.len() && i != j ==> #[trigger] s[i].addr != #[trigger] s[j].addr
}

spec fn slot_at(s: Seq<Slot>, a: SockAddr, i: int) -> bool {
    0 <= i < s.len() && s[i].addr == a
}

spec fn queues_of(s: Seq<Slot>) -> Map<SockAddr, Seq<Packet>> {
    Map::new(
        |a: SockAddr| exists|i: int| slot_at(s, a, i),
        |a: SockAddr| s[choose|i: int| slot_at(s, a, i)].queue@,
    )
}

proof fn lemma_slot(s: Seq<Slot>, i: int)
    requires
        distinct_addrs(s),
        0 <= i < s.len(),
    ensures
        queues_of(s).contains_key(s[i].addr),
        queues_of(s)[s[i].addr] == s[i].queue@,
{
    let a = s[i].addr;
    assert(slot_at(s, a, i));
    let j = choose|j: int| slot_at(s, a, j);
    assert(slot_at(s, a, j));
    if j != i {
        assert(s[i].addr != s[j].addr);
    }
}

proof fn lemma_slot_update(s: Seq<Slot>, i: int, t: Slot)
    requires
        distinct_addrs(s),
        0 <= i < s.len(),
        t.addr == s[i].addr,
    ensures
        distinct_addrs(s.update(i, t)),
        queues_of(s.update(i, t)) == queues_of(s).insert(t.addr, t.queue@),
{
    let s2 = s.update(i, t);
    assert forall|a: int, b: int|
        0 <= a < s2.len() && 0 <= b < s2.len() && a != b implies #[trigger] s2[a].addr
        != #[trigger] s2[b].addr by {
        assert(s2[a].addr == s[a].addr);
        assert(s2[b].addr == s[b].addr);
    }
    let m = queues_of(s).insert(t.addr, t.queue@);
    assert forall|k: SockAddr| #[trigger] queues_of(s2).contains_key(k) <==> m.contains_key(k) by {
        if m.contains_key(k) {
            if k == t.addr {
                assert(slot_at(s2, k, i));
            } else {
                let j = choose|j: int| slot_at(s, k, j);
                assert(slot_at(s2, k, j));
            }
        }
        if queues_of(s2).contains_key(k) {
            let j = choose|j: int| slot_at(s2, k, j);
            assert(slot_at(s, k, j));
        }
    }
    assert forall|k: SockAddr| #[trigger] queues_of(s2).contains_key(k) implies queues_of(s2)[k]
        == m[k] by {
        let j = choose|j: int| slot_at(s2, k, j);
        assert(slot_at(s2, k, j));
        lemma_slot(s2, j);
        if j != i {
            lemma_slot(s, j);
        }
    }
    assert(queues_of(s2) =~= m);
}

proof fn lemma_slot_push(s: Seq<Slot>, t: Slot)
    requires
        distinct_addrs(s),
        !queues_of(s).contains_key(t.addr),
    ensures
        distinct_addrs(s.push(t)),
        queues_of(s.push(t)) == queues_of(s).insert(t.addr, t.queue@),
{
    let s2 = s.push(t);
    let n = s.len() as int;
    assert forall|a: int, b: int|
        0 <= a < s2.len() && 0 <= b < s2.len() && a != b implies #[trigger] s2[a].addr
        != #[trigger] s2[b].addr by {
        if a == n {
            assert(!slot_at(s, t.addr, b));
        } else if b == n {
            assert(!slot_at(s, t.addr, a));
        } else {
            assert(s2[a] == s[a]);
            assert(s2[b] == s[b]);
        }
    }
    let m = queues_of(s).insert(t.addr, t.queue@);
    assert forall|k: SockAddr| #[trigger] queues_of(s2).contains_key(k) <==> m.contains_key(k) by {
        if m.contains_key(k) {
            if k == t.addr {
                assert(slot_at(s2, k, n));
            } else {
                let j = choose|j: int| slot_at(s, k, j);
                assert(slot_at(s2, k, j));
            }
        }
        if queues_of(s2).contains_key(k) {
            let j = choose|j: int| slot_at(s2, k, j);
            if j < n {
                assert(slot_at(s, k, j));
            }
        }
    }
    assert forall|k: SockAddr| #[trigger] queues_of(s2).contains_key(k) implies queues_of(s2)[k]
        == m[k] by {
        let j = choose|j: int| slot_at(s2, k, j);
        assert(slot_at(s2, k, j));
        lemma_slot(s2, j);
        if j < n {
            assert(s2[j] == s[j]);
            lemma_slot(s, j);
        }
    }
    assert(queues_of(s2) =~= m);
}

/// The packets waiting for each local address that has received any.
pub struct MemoryState {
    slots: Vec<Slot>,
}

/// The queue of `a`, empty where `a` has none.
pub open spec fn queue_or_empty(m: Map<SockAddr, Seq<Packet>>, a: SockAddr) -> Seq<Packet> {
    if m.contains_key(a) {
        m[a]
    } else {
        Seq::empty()
    }
}

/// The queues after `p` arrives: it waits behind the packets already
/// queued for its local address.
pub open spec fn after_deliver(m: Map<SockAddr, Seq<Packet>>, p: Packet) -> Map<SockAddr, Seq<Packet>> {
    m.insert(p.spec_local_addr(), queue_or_empty(m, p.spec_local_addr()).push(p))
}

/// The packet that a read for `a` takes, if any.
pub open spec fn next_for(m: Map<SockAddr, Seq<Packet>>, a: SockAddr) -> Option<Packet> {
    if queue_or_empty(m, a).len() > 0 {
        Some(queue_or_empty(m, a)[0])
    } else {
        None
    }
}

/// The queues after a read for `a`.
pub open spec fn after_take(m: Map<SockAddr, Seq<Packet>>, a: SockAddr) -> Map<SockAddr, Seq<Packet>> {
    if queue_or_empty(m, a).len() > 0 {
        m.insert(a, queue_or_empty(m, a).drop_first())
    } else {
        m
    }
}

impl View for MemoryState {
    type V = Map<SockAddr, Seq<Packet>>;

    closed spec fn view(&self) -> Map<SockAddr, Seq<Packet>> {
        queues_of(self.slots@)
    }
}

impl MemoryState {
    #[verifier::type_invariant]
    spec fn addrs_unique(self) -> bool {
        distinct_addrs(self.slots@)
    }

    pub fn new() -> (r: MemoryState)
        ensures
            r@ == Map::<SockAddr, Seq<Packet>>::empty(),
    {
        let r = MemoryState { slots: Vec::new() };
        assert(r@ =~= Map::<SockAddr, Seq<Packet>>::empty());
        r
    }

    fn find(&self, addr: SockAddr) -> (r: Option<usize>)
        ensures
            match r {
                Some(i) => i < self.slots.len() && self.slots@[i as int].addr == addr
                    && self@.contains_key(addr) && self@[addr] == self.slots@[i as int].queue@,
                None => !self@.contains_key(addr),
            },
    {
        proof {
            use_type_invariant(self);
        }
        let mut i: usize = 0;
        while i < self.slots.len()
            invariant
                i <= self.slots.len(),
                distinct_addrs(self.slots@),
                forall|j: int| 0 <= j < i ==> self.slots@[j].addr != addr,
            decreases self.slots.len() - i,
        {
            if self.slots[i].addr == addr {
                proof {
                    lemma_slot(self.slots@, i as int);
                }
                return Some(i);
            }
            i = i + 1;
        }
        None
    }

    /// The number of packets waiting for `addr`.
    pub fn pending(&self, addr: SockAddr) -> (r: usize)
        ensures
            r == queue_or_empty(self@, addr).len(),
    {
        match self.find(addr) {
            Some(i) => self.slots[i].queue.len(),
            None => 0,
        }
    }

    /// Queues a packet behind those already waiting for its local address.
    pub fn deliver(&mut self, packet: Packet)
        ensures
            final(self)@ == after_deliver(old(self)@, packet),
    {
        proof {
            use_type_invariant(&*self);
        }
        let addr = packet.local_addr();
        let at = self.find(addr);
        let ghost q0 = queue_or_empty(self@, addr);
        let mut slots: Vec<Slot> = Vec::new();
        std::mem::swap(&mut slots, &mut self.slots);
        match at {
            Some(i) => {
                let ghost before = slots@;
                let mut queue: VecDeque<Packet> = VecDeque::new();
                std::mem::swap(&mut queue, &mut slots[i].queue);
                queue.push_back(packet);
                let t = Slot { addr, queue };
                proof {
                    lemma_slot_update(before, i as int, t);
                }
                slots.set(i, t);
                assert(slots@ =~= before.update(i as int, t));
            },
            None => {
                let mut queue: VecDeque<Packet> = VecDeque::new();
                queue.push_back(packet);
                let t = Slot { addr, queue };
                assert(t.queue@ =~= q0.push(packet));
                proof {
                    lemma_slot_push(slots@, t);
                }
                slots.push(t);
            },
        }
        self.slots = slots;
    }

    /// Takes the oldest packet waiting for `addr`, if there is one.
    pub fn pop(&mut self, addr: SockAddr) -> (r: Option<Packet>)
        ensures
            r == next_for(old(self)@, addr),
            final(self)@ == after_take(old(self)@, addr),
    {
        proof {
            use_type_invariant(&*self);
        }
        let at = self.find(addr);
        match at {
            None => None,
            Some(i) => {
                if self.slots[i].queue.len() == 0 {
                    return None;
                }
                let mut slots: Vec<Slot> = Vec::new();
                std::mem::swap(&mut slots, &mut self.slots);
                let ghost before = slots@;
                let mut queue: VecDeque<Packet> = VecDeque::new();
                std::mem::swap(&mut queue, &mut slots[i].queue);
                let p = queue.pop_front();
                let t = Slot { addr, queue };
                proof {
                    lemma_slot_update(before, i as int, t);
                }
                slots.set(i, t);
                assert(slots@ =~= before.update(i as int, t));
                self.slots = slots;
                p
            },
        }
    }

    /// Reads the oldest packet waiting for `addr` into `buf`: its length
    /// and sender where it fits, else an error (the packet is taken either
    /// way). `None` where nothing waits, and then nothing changes.
    pub fn recv_from(&mut self, addr: SockAddr, buf: &mut [u8]) -> (r: Option<
        Result<(usize, SockAddr), RecvError>,
    >)
        ensures
            final(self)@ == after_take(old(self)@, addr),
            next_for(old(self)@, addr) is None ==> r is None && final(buf)@ == old(buf)@,
            next_for(old(self)@, addr) matches Some(p) ==> {
                &&& final(buf)@ == copied_over(old(buf)@, p.spec_buffer())
                &&& r == (if p.spec_buffer().len() <= old(buf)@.len() {
                    Some(Ok::<(usize, SockAddr), RecvError>((p.spec_buffer().len() as usize, p.spec_remote_addr())))
                } else {
                    Some(Err::<(usize, SockAddr), RecvError>(RecvError::BufferTooSmall))
                })
            },
    {
        match self.pop(addr) {
            None => None,
            Some(Packet::Udp { remote_addr, buffer, .. }) => {
                match write_all_into(buf, buffer.as_slice()) {
                    Ok(()) => Some(Ok((buffer.len(), remote_addr))),
                    Err(e) => Some(Err(e)),
                }
            },
        }
    }
}

/// A read for one address takes only from that address's queue: the
/// packet it takes is the oldest of that queue, which loses exactly that
/// packet, and every other address keeps its queue as it was.
pub proof fn law_take_touches_only_its_queue(m: Map<SockAddr, Seq<Packet>>, a: SockAddr, b: SockAddr)
    ensures
        b != a ==> queue_or_empty(after_take(m, a), b) == queue_or_empty(m, b),
        b != a ==> next_for(after_take(m, a), b) == next_for(m, b),
        queue_or_empty(m, a).len() > 0 ==> queue_or_empty(after_take(m, a), a) == queue_or_empty(
            m,
            a,
        ).subrange(1, queue_or_empty(m, a).len() as int) && next_for(m, a) == Some(
            queue_or_empty(m, a)[0],
        ),
        queue_or_empty(m, a).len() == 0 ==> after_take(m, a) == m && next_for(m, a) is None,
        after_take(m, a).dom().subset_of(m.dom()),
{
}

/// Packets for one local address are read in the order they arrived: a
/// packet that arrives behind others does not change which packet is read
/// next, and a packet that arrives at an empty queue is the next one read.
/// Arrivals for other addresses leave the queue alone.
pub proof fn law_first_in_first_out(m: Map<SockAddr, Seq<Packet>>, p: Packet, other: SockAddr)
    ensures
        next_for(m, p.spec_local_addr()) is Some ==> next_for(after_deliver(m, p), p.spec_local_addr())
            == next_for(m, p.spec_local_addr()) && after_take(after_deliver(m, p), p.spec_local_addr())
            == after_deliver(after_take(m, p.spec_local_addr()), p),
        next_for(m, p.spec_local_addr()) is None ==> next_for(after_deliver(m, p), p.spec_local_addr())
            == Some(p) && queue_or_empty(
            after_take(after_deliver(m, p), p.spec_local_addr()),
            p.spec_local_addr(),
        ).len() == 0,
        other != p.spec_local_addr() ==> queue_or_empty(after_deliver(m, p), other) == queue_or_empty(
            m,
            other,
        ) && next_for(after_deliver(m, p), other) == next_for(m, other),
{
    let a = p.spec_local_addr();
    let q = queue_or_empty(m, a);
    if q.len() > 0 {
        assert(q.push(p).drop_first() =~= q.drop_first().push(p));
        assert(after_take(after_deliver(m, p), a) =~= after_deliver(after_take(m, a), p));
    }
}

} // verus!
