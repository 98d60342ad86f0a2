//! The pending-query pool: sockets awaiting an upstream DNS reply, each
//! with the original tunnel request attached so the reply can be
//! re-addressed, bounded in size and evicted by age.
//!
//! Each entry carries an explicit key, unique among live entries and
//! strictly increasing along the queue, which the serving loop uses as its
//! poller tag; entries also carry their admission time, kept nondecreasing
//! along the queue so eviction is a prefix scan.

use std::collections::VecDeque;
use vstd::prelude::*;

verus! {

/// The pool's capacity: at most this many upstream queries in flight.
pub const DNS_MAXIMUM_WAITING: usize = 1024;

/// Age, in seconds, past which a pending query is purged.
pub const DNS_TIMEOUT_SEC: u128 = 10;

/// An upstream UDP socket of the platform's socket library. Opaque here:
/// the library stores and hands out such sockets but never reads them; all
/// socket I/O is the embedding program's.
#[verifier::external_type_specification]
#[verifier::external_body]
pub struct ExSocket(socket2::Socket);

/// One pending upstream query: the socket the query went out on, the raw
/// request packet it came from, and the admission timestamp in
/// milliseconds. `key` is the pool-assigned poller tag.
pub struct WaitingOnSocketPacket {
    pub socket: socket2::Socket,
    pub packet: Vec<u8>,
    pub time: u128,
    pub key: u64,
}

impl WaitingOnSocketPacket {
    /// A pending entry created `now`; its key is assigned on admission.
    pub fn new(socket: socket2::Socket, packet: Vec<u8>, now: u128) -> (r:
        WaitingOnSocketPacket)
        ensures
            r.packet@ == packet@,
            r.time == now,
            r.key == 0,
    {
        WaitingOnSocketPacket { socket, packet, time: now, key: 0 }
    }

    /// Whole seconds this entry has waited, by a clock reading of `now`; a
    /// clock that moved backwards reads as no age at all.
    pub fn age_seconds(&self, now: u128) -> (r: u128)
        ensures
            r == spec_age(now, self.time),
    {
        if now >= self.time {
            (now - self.time) / 1000
        } else {
            0
        }
    }
}

/// Whole seconds between an admission at `t` and a clock reading of `now`.
pub open spec fn spec_age(now: u128, t: u128) -> int {
    if now >= t {
        (now - t) / 1000
    } else {
        0
    }
}

/// The queue after dropping every leading entry older than the timeout,
/// stopping at the first young-enough entry.
pub open spec fn spec_purge(s: Seq<WaitingOnSocketPacket>, now: u128) -> Seq<
    WaitingOnSocketPacket,
>
    decreases s.len(),
{
    if s.len() == 0 {
        s
    } else if spec_age(now, s[0].time) > DNS_TIMEOUT_SEC {
        spec_purge(s.subrange(1, s.len() as int), now)
    } else {
        s
    }
}

/// The bounded, age-evicting queue of pending upstream queries.
pub struct WospList {
    pub list: VecDeque<WaitingOnSocketPacket>,
    pub next_key: u64,
}

impl WospList {
    /// Everything the pool maintains: the size bound, keys unique and
    /// strictly increasing front to back (and all below the next free key),
    /// and admission times nondecreasing front to back.
    pub open spec fn wf(&self) -> bool {
        &&& self.list@.len() <= DNS_MAXIMUM_WAITING
        &&& forall|i: int, j: int|
            0 <= i < j < self.list@.len() ==> self.list@[i].key < self.list@[j].key
        &&& forall|i: int| 0 <= i < self.list@.len() ==> self.list@[i].key < self.next_key
        &&& forall|i: int, j: int|
            0 <= i < j < self.list@.len() ==> self.list@[i].time <= self.list@[j].time
    }

    /// An empty pool.
    pub fn new() -> (r: WospList)
        ensures
            r.wf(),
            r.list@.len() == 0,
    {
        WospList { list: VecDeque::new(), next_key: 0 }
    }

    /// Admits one pending query: if the pool is full the oldest entry — the
    /// front, which holds the smallest key and the smallest admission time —
    /// is dropped first; then every leading entry older than the timeout is
    /// purged; then the entry is appended with a fresh key, which is
    /// returned as its poller tag. Right after admission the pool is within
    /// its bound and no resident entry is older than the timeout. An entry
    /// whose clock reading lags the queue is recorded with the queue's
    /// latest time, keeping times nondecreasing. In the never-reached case
    /// that the key space is exhausted, the pool restarts empty.
    pub fn add(&mut self, wosp: WaitingOnSocketPacket, now: u128) -> (key: u64)
        requires
            old(self).wf(),
            spec_age(now, wosp.time) <= DNS_TIMEOUT_SEC,
        ensures
            final(self).wf(),
            1 <= final(self).list@.len() <= DNS_MAXIMUM_WAITING,
            forall|i: int|
                0 <= i < final(self).list@.len() ==> spec_age(
                    now,
                    final(self).list@[i].time,
                ) <= DNS_TIMEOUT_SEC,
            final(self).list@.last().key == key,
            final(self).list@.last().packet@ == wosp.packet@,
            old(self).next_key != u64::MAX ==> ({
                let kept = spec_purge(
                    if old(self).list@.len() >= DNS_MAXIMUM_WAITING {
                        old(self).list@.subrange(1, old(self).list@.len() as int)
                    } else {
                        old(self).list@
                    },
                    now,
                );
                final(self).list@.drop_last() == kept && key == old(self).next_key
            }),
            old(self).list@.len() >= DNS_MAXIMUM_WAITING && old(self).next_key != u64::MAX
                ==> forall|i: int|
                0 <= i < final(self).list@.len() ==> final(self).list@[i].key != old(
                    self,
                ).list@[0].key,
    {
        let ghost wtime = wosp.time;
        if self.next_key == u64::MAX {
            self.list.clear();
            self.next_key = 0;
        }
        if self.list.len() >= DNS_MAXIMUM_WAITING {
            self.list.pop_front();
        }
        let ghost trimmed = self.list@;
        let ghost mut dropped: int = 0;
        loop
            invariant
                self.next_key < u64::MAX,
                self.list@.len() < DNS_MAXIMUM_WAITING,
                forall|i: int, j: int|
                    0 <= i < j < self.list@.len() ==> self.list@[i].key < self.list@[j].key,
                forall|i: int| 0 <= i < self.list@.len() ==> self.list@[i].key < self.next_key,
                forall|i: int, j: int|
                    0 <= i < j < self.list@.len() ==> self.list@[i].time <= self.list@[j].time,
                spec_purge(trimmed, now) == spec_purge(self.list@, now),
                0 <= dropped <= trimmed.len(),
                self.list@ == trimmed.subrange(dropped, trimmed.len() as int),
                old(self).next_key != u64::MAX ==> self.next_key == old(self).next_key,
            ensures
                self.next_key < u64::MAX,
                self.list@.len() < DNS_MAXIMUM_WAITING,
                forall|i: int, j: int|
                    0 <= i < j < self.list@.len() ==> self.list@[i].key < self.list@[j].key,
                forall|i: int| 0 <= i < self.list@.len() ==> self.list@[i].key < self.next_key,
                forall|i: int, j: int|
                    0 <= i < j < self.list@.len() ==> self.list@[i].time <= self.list@[j].time,
                self.list@ == spec_purge(trimmed, now),
                0 <= dropped <= trimmed.len(),
                self.list@ == trimmed.subrange(dropped, trimmed.len() as int),
                old(self).next_key != u64::MAX ==> self.next_key == old(self).next_key,
            decreases self.list@.len(),
        {
            let drop_front = if self.list.len() > 0 {
                self.list[0].age_seconds(now) > DNS_TIMEOUT_SEC
            } else {
                false
            };
            if !drop_front {
                break;
            }
            let ghost pre = self.list@;
            self.list.pop_front();
            proof {
                assert(self.list@ =~= pre.subrange(1, pre.len() as int));
                dropped = dropped + 1;
                assert(self.list@ =~= trimmed.subrange(dropped, trimmed.len() as int));
            }
        }
        let mut entry = wosp;
        entry.key = self.next_key;
        let llen = self.list.len();
        if llen > 0 {
            let back_time = self.list[llen - 1].time;
            if back_time > entry.time {
                entry.time = back_time;
            }
        }
        let key = self.next_key;
        self.next_key = self.next_key + 1;
        self.list.push_back(entry);
        proof {
            let ol = old(self).list@;
            assert(self.list@.drop_last() =~= spec_purge(trimmed, now));
            lemma_purge_young(trimmed, now);
            let last = self.list@.last();
            assert(last.time >= wtime);
            if now >= last.time {
                vstd::arithmetic::div_mod::lemma_div_is_ordered(
                    (now - last.time) as int,
                    (now - wtime) as int,
                    1000,
                );
            }
            assert(spec_age(now, last.time) <= DNS_TIMEOUT_SEC);
            if old(self).next_key != u64::MAX {
                if ol.len() >= DNS_MAXIMUM_WAITING {
                    assert(trimmed =~= ol.subrange(1, ol.len() as int));
                    assert forall|i: int| 0 <= i < self.list@.len() implies self.list@[i].key
                        != ol[0].key by {
                        if i < self.list@.len() - 1 {
                            assert(self.list@[i] == trimmed[dropped + i]);
                            assert(trimmed[dropped + i] == ol[dropped + i + 1]);
                            assert(ol[0].key < ol[dropped + i + 1].key);
                        } else {
                            assert(self.list@[i].key == old(self).next_key);
                            assert(ol[0].key < old(self).next_key);
                        }
                    }
                } else {
                    assert(trimmed =~= ol);
                }
            }
        }
        key
    }

    /// Removes and returns the entry whose key matches a reported readiness
    /// tag; nothing, and no change, if no live entry carries that key — the
    /// caller treats that as a protocol invariant violation.
    pub fn take_by_key(&mut self, key: u64) -> (r: Option<WaitingOnSocketPacket>)
        requires
            old(self).wf(),
        ensures
            final(self).wf(),
            match r {
                Some(w) => w.key == key && (exists|i: int|
                    0 <= i < old(self).list@.len() && old(self).list@[i] == w
                        && final(self).list@ == old(self).list@.remove(i)),
                None => final(self).list@ == old(self).list@ && final(self).next_key == old(
                    self,
                ).next_key && forall|i: int|
                    0 <= i < old(self).list@.len() ==> old(self).list@[i].key != key,
            },
    {
        let n = self.list.len();
        let mut i: usize = 0;
        while i < n
            invariant
                i <= n,
                n == self.list@.len(),
                self.wf(),
                self.list@ == old(self).list@,
                self.next_key == old(self).next_key,
                forall|j: int| 0 <= j < i ==> self.list@[j].key != key,
            decreases n - i,
        {
            if self.list[i].key == key {
                let w = self.list.remove(i);
                match w {
                    Some(w) => {
                        proof {
                            assert forall|a: int, b: int|
                                0 <= a < b < self.list@.len() implies self.list@[a].key
                                < self.list@[b].key && self.list@[a].time
                                <= self.list@[b].time by {
                                assert(self.list@ == old(self).list@.remove(i as int));
                            }
                        }
                        return Some(w);
                    },
                    None => {
                        return None;
                    },
                }
            }
            i += 1;
        }
        None
    }

    /// How many queries are pending.
    pub fn len(&self) -> (r: usize)
        ensures
            r == self.list@.len(),
    {
        self.list.len()
    }
}

/// After a purge, every remaining entry is within the timeout, provided
/// times are nondecreasing.
proof fn lemma_purge_young(s: Seq<WaitingOnSocketPacket>, now: u128)
    requires
        forall|i: int, j: int| 0 <= i < j < s.len() ==> s[i].time <= s[j].time,
    ensures
        forall|i: int|
            0 <= i < spec_purge(s, now).len() ==> spec_age(now, spec_purge(s, now)[i].time)
                <= DNS_TIMEOUT_SEC,
        spec_purge(s, now).len() <= s.len(),
    decreases s.len(),
{
    if s.len() > 0 && spec_age(now, s[0].time) > DNS_TIMEOUT_SEC {
        lemma_purge_young(s.subrange(1, s.len() as int), now);
    } else if s.len() > 0 {
        assert forall|i: int| 0 <= i < s.len() implies spec_age(now, s[i].time)
            <= DNS_TIMEOUT_SEC by {
            assert(s[0].time <= s[i].time || i == 0);
            if now >= s[i].time {
                vstd::arithmetic::div_mod::lemma_div_is_ordered(
                    (now - s[i].time) as int,
                    (now - s[0].time) as int,
                    1000,
                );
            }
        }
    }
}

/// The front of a well-formed pool is its oldest entry: it holds the
/// smallest key and the smallest admission time, so capacity eviction —
/// which drops the front — always removes the entry with the smallest
/// creation timestamp first.
pub proof fn lemma_front_is_oldest(p: &WospList)
    requires
        p.wf(),
        p.list@.len() > 0,
    ensures
        forall|i: int| 0 <= i < p.list@.len() ==> p.list@[0].time <= #[trigger] p.list@[i].time,
        forall|i: int| 0 <= i < p.list@.len() ==> p.list@[0].key <= #[trigger] p.list@[i].key,
{
}

} // verus!
