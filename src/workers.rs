//! The statistics worker: turns successive samples of the kernel's per-peer
//! byte counters into non-negative deltas, skipping a peer for one cycle when
//! its counters went backwards (a reset), and the model of the store's
//! accumulation of those deltas.

use vstd::prelude::*;

use crate::wireguard::{keys_equal, Peer};

verus! {

/// A delta emitted for one peer in one cycle: public key, transmitted and
/// received bytes since the previous sample.
pub type Delta = ([u8; 32], u64, u64);

/// The counters last sampled for a key, or zero for a key never seen.
pub open spec fn baseline(prev: Map<Seq<u8>, (u64, u64)>, k: Seq<u8>) -> (u64, u64) {
    if prev.contains_key(k) {
        prev[k]
    } else {
        (0, 0)
    }
}

/// Whether a sample went below its baseline in either direction.
pub open spec fn is_reset(base: (u64, u64), tx: u64, rx: u64) -> bool {
    base.0 > tx || base.1 > rx
}

/// The remembered counters after a cycle over `peers`: each sampled key maps
/// to its latest sample.
pub open spec fn cycle_prev(prev: Map<Seq<u8>, (u64, u64)>, peers: Seq<Peer>) -> Map<
    Seq<u8>,
    (u64, u64),
>
    decreases peers.len(),
{
    if peers.len() == 0 {
        prev
    } else {
        let p = peers.last();
        cycle_prev(prev, peers.drop_last()).insert(p.public_key@, (p.tx, p.rx))
    }
}

/// The deltas emitted by a cycle over `peers`, in sampling order.
pub open spec fn cycle_deltas(prev: Map<Seq<u8>, (u64, u64)>, peers: Seq<Peer>) -> Seq<Delta>
    decreases peers.len(),
{
    if peers.len() == 0 {
        seq![]
    } else {
        let p = peers.last();
        let earlier = cycle_deltas(prev, peers.drop_last());
        let b = baseline(cycle_prev(prev, peers.drop_last()), p.public_key@);
        if is_reset(b, p.tx, p.rx) {
            earlier
        } else {
            earlier.push((p.public_key, (p.tx - b.0) as u64, (p.rx - b.1) as u64))
        }
    }
}

/// The store's totals after adding one delta (a row is created on first
/// observation of a key).
pub open spec fn add_delta(totals: Map<Seq<u8>, (int, int)>, d: Delta) -> Map<Seq<u8>, (int, int)> {
    let k = d.0@;
    let base = if totals.contains_key(k) {
        totals[k]
    } else {
        (0int, 0int)
    };
    totals.insert(k, (base.0 + d.1, base.1 + d.2))
}

/// The store's totals after adding a batch of deltas in one transaction.
pub open spec fn accumulate(totals: Map<Seq<u8>, (int, int)>, deltas: Seq<Delta>) -> Map<
    Seq<u8>,
    (int, int),
>
    decreases deltas.len(),
{
    if deltas.len() == 0 {
        totals
    } else {
        add_delta(accumulate(totals, deltas.drop_last()), deltas.last())
    }
}

/// Whether the stored totals equal the remembered samples, key for key.
pub open spec fn totals_match(totals: Map<Seq<u8>, (int, int)>, prev: Map<Seq<u8>, (u64, u64)>) -> bool {
    &&& totals.dom() == prev.dom()
    &&& forall|k| #[trigger] prev.contains_key(k) ==> totals[k] == (prev[k].0 as int, prev[k].1 as int)
}

/// The sampling state of the statistics worker.
pub struct Stats {
    prev: Vec<Delta>,
    seen: Ghost<Map<Seq<u8>, (u64, u64)>>,
    id: String,
}

impl View for Stats {
    type V = Map<Seq<u8>, (u64, u64)>;

    /// The counters last sampled, by public key.
    closed spec fn view(&self) -> Map<Seq<u8>, (u64, u64)> {
        self.seen@
    }
}

impl Stats {
    /// Name of the sampled interface.
    pub closed spec fn interface_name(&self) -> String {
        self.id
    }

    /// Name of the sampled interface.
    pub fn id(&self) -> (r: &String)
        ensures
            *r == self.interface_name(),
    {
        &self.id
    }

    pub closed spec fn wf(&self) -> bool {
        &&& forall|i: int|
            0 <= i < self.prev@.len() ==> {
                &&& self.seen@.contains_key(#[trigger] self.prev@[i].0@)
                &&& self.seen@[self.prev@[i].0@] == (self.prev@[i].1, self.prev@[i].2)
            }
        &&& forall|k: Seq<u8>|
            #[trigger] self.seen@.contains_key(k) ==> exists|i: int|
                0 <= i < self.prev@.len() && #[trigger] self.prev@[i].0@ == k
        &&& forall|i: int, j: int|
            0 <= i < self.prev@.len() && 0 <= j < self.prev@.len() && i != j ==> #[trigger] self.prev@[i].0@
                != #[trigger] self.prev@[j].0@
    }

    /// A worker for the interface `id` that has sampled nothing yet.
    pub fn new(id: String) -> (r: Stats)
        ensures
            r.wf(),
            r@ == Map::<Seq<u8>, (u64, u64)>::empty(),
            r.interface_name() == id,
    {
        Stats { prev: Vec::new(), seen: Ghost(Map::empty()), id }
    }

    /// Records the sample `(tx, rx)` for `key` and returns its baseline.
    fn observe(&mut self, key: &[u8; 32], tx: u64, rx: u64) -> (b: (u64, u64))
        requires
            old(self).wf(),
        ensures
            final(self).wf(),
            b == baseline(old(self)@, key@),
            final(self)@ == old(self)@.insert(key@, (tx, rx)),
            final(self).interface_name() == old(self).interface_name(),
    {
        let mut i: usize = 0;
        while i < self.prev.len()
            invariant
                self.wf(),
                *self == *old(self),
                i <= self.prev@.len(),
                forall|j: int| 0 <= j < i ==> self.prev@[j].0@ != key@,
            decreases self.prev@.len() - i,
        {
            if keys_equal(&self.prev[i].0, key) {
                let b = (self.prev[i].1, self.prev[i].2);
                let ghost old_prev = self.prev@;
                self.prev.set(i, (*key, tx, rx));
                self.seen = Ghost(self.seen@.insert(key@, (tx, rx)));
                proof {
                    assert forall|k: Seq<u8>| #[trigger] self.seen@.contains_key(k) implies exists|j: int|
                        0 <= j < self.prev@.len() && #[trigger] self.prev@[j].0@ == k by {
                        if k != key@ {
                            let j = choose|j: int| 0 <= j < old_prev.len() && #[trigger] old_prev[j].0@ == k;
                            assert(self.prev@[j].0@ == k);
                        } else {
                            assert(self.prev@[i as int].0@ == k);
                        }
                    }
                    assert forall|j: int| 0 <= j < self.prev@.len() implies {
                        &&& self.seen@.contains_key(#[trigger] self.prev@[j].0@)
                        &&& self.seen@[self.prev@[j].0@] == (self.prev@[j].1, self.prev@[j].2)
                    } by {
                        if j != i {
                            assert(old_prev[j].0@ != old_prev[i as int].0@);
                        }
                    }
                }
                return b;
            }
            i = i + 1;
        }
        let ghost old_prev = self.prev@;
        proof {
            if self.seen@.contains_key(key@) {
                let j = choose|j: int| 0 <= j < old_prev.len() && #[trigger] old_prev[j].0@ == key@;
                assert(false);
            }
        }
        self.prev.push((*key, tx, rx));
        self.seen = Ghost(self.seen@.insert(key@, (tx, rx)));
        proof {
            assert forall|k: Seq<u8>| #[trigger] self.seen@.contains_key(k) implies exists|j: int|
                0 <= j < self.prev@.len() && #[trigger] self.prev@[j].0@ == k by {
                if k != key@ {
                    let j = choose|j: int| 0 <= j < old_prev.len() && #[trigger] old_prev[j].0@ == k;
                    assert(self.prev@[j].0@ == k);
                } else {
                    assert(self.prev@[old_prev.len() as int].0@ == k);
                }
            }
        }
        (0, 0)
    }

    /// One sampling cycle over the peers the kernel reported: remembers each
    /// peer's counters and returns the deltas to add to the store. A peer whose
    /// counters went below the remembered ones contributes no delta this cycle.
    pub fn cycle(&mut self, peers: &Vec<Peer>) -> (changes: Vec<Delta>)
        requires
            old(self).wf(),
        ensures
            final(self).wf(),
            final(self)@ == cycle_prev(old(self)@, peers@),
            changes@ == cycle_deltas(old(self)@, peers@),
            final(self).interface_name() == old(self).interface_name(),
    {
        let mut changes: Vec<Delta> = Vec::new();
        let mut i: usize = 0;
        while i < peers.len()
            invariant
                self.wf(),
                i <= peers@.len(),
                self@ == cycle_prev(old(self)@, peers@.take(i as int)),
                changes@ == cycle_deltas(old(self)@, peers@.take(i as int)),
                self.interface_name() == old(self).interface_name(),
            decreases peers@.len() - i,
        {
            let p = &peers[i];
            proof {
                assert(peers@.take(i + 1).drop_last() =~= peers@.take(i as int));
                assert(peers@.take(i + 1).last() == peers@[i as int]);
            }
            let b = self.observe(&p.public_key, p.tx, p.rx);
            if b.0 > p.tx || b.1 > p.rx {
            } else {
                changes.push((p.public_key, p.tx - b.0, p.rx - b.1));
            }
            i = i + 1;
        }
        proof {
            assert(peers@.take(peers@.len() as int) =~= peers@);
        }
        changes
    }
}

/// Adding any batch of deltas keeps every stored key and never lowers its
/// totals.
proof fn lemma_accumulate_grows(totals: Map<Seq<u8>, (int, int)>, deltas: Seq<Delta>)
    ensures
        forall|k: Seq<u8>| #[trigger]
            totals.contains_key(k) ==> {
                &&& accumulate(totals, deltas).contains_key(k)
                &&& accumulate(totals, deltas)[k].0 >= totals[k].0
                &&& accumulate(totals, deltas)[k].1 >= totals[k].1
            },
    decreases deltas.len(),
{
    if deltas.len() > 0 {
        lemma_accumulate_grows(totals, deltas.drop_last());
    }
}

/// Stored totals never decrease: whatever the remembered samples and whatever
/// the kernel reports (counter resets included), after a cycle's deltas are
/// added every key still has its totals, each at least as large as before.
/// Applied cycle after cycle, the totals of every key form a non-decreasing
/// sequence.
pub proof fn lemma_totals_never_decrease(
    totals: Map<Seq<u8>, (int, int)>,
    prev: Map<Seq<u8>, (u64, u64)>,
    peers: Seq<Peer>,
)
    ensures
        forall|k: Seq<u8>| #[trigger]
            totals.contains_key(k) ==> {
                let after = accumulate(totals, cycle_deltas(prev, peers));
                &&& after.contains_key(k)
                &&& after[k].0 >= totals[k].0
                &&& after[k].1 >= totals[k].1
            },
{
    lemma_accumulate_grows(totals, cycle_deltas(prev, peers));
}

/// A cycle leaves the remembered samples of keys it did not sample as they were.
proof fn lemma_prev_untouched(prev: Map<Seq<u8>, (u64, u64)>, peers: Seq<Peer>, k: Seq<u8>)
    requires
        forall|i: int| 0 <= i < peers.len() ==> (#[trigger] peers[i]).public_key@ != k,
    ensures
        cycle_prev(prev, peers).contains_key(k) == prev.contains_key(k),
        prev.contains_key(k) ==> cycle_prev(prev, peers)[k] == prev[k],
    decreases peers.len(),
{
    if peers.len() > 0 {
        let ps = peers.drop_last();
        assert forall|i: int| 0 <= i < ps.len() implies (#[trigger] ps[i]).public_key@ != k by {
            assert(ps[i] == peers[i]);
        }
        lemma_prev_untouched(prev, ps, k);
        assert(peers.last() == peers[peers.len() - 1]);
    }
}

/// Without counter resets the stored totals are exact: if the totals equal
/// the remembered samples before a cycle, the cycle samples each key at most
/// once, and no sample is below the one remembered for its key, then after
/// the cycle's deltas are added the totals equal the samples remembered after
/// it, which are the latest the kernel reported. Starting from an empty store
/// and no samples, this holds after every cycle.
pub proof fn lemma_totals_follow_samples(
    totals: Map<Seq<u8>, (int, int)>,
    prev: Map<Seq<u8>, (u64, u64)>,
    peers: Seq<Peer>,
)
    requires
        totals_match(totals, prev),
        forall|i: int, j: int|
            0 <= i < peers.len() && 0 <= j < peers.len() && i != j ==> (#[trigger] peers[i]).public_key@
                != (#[trigger] peers[j]).public_key@,
        forall|i: int|
            0 <= i < peers.len() && prev.contains_key((#[trigger] peers[i]).public_key@) ==> {
                &&& prev[peers[i].public_key@].0 <= peers[i].tx
                &&& prev[peers[i].public_key@].1 <= peers[i].rx
            },
    ensures
        totals_match(accumulate(totals, cycle_deltas(prev, peers)), cycle_prev(prev, peers)),
    decreases peers.len(),
{
    if peers.len() > 0 {
        let ps = peers.drop_last();
        let p = peers.last();
        assert(p == peers[peers.len() - 1]);
        assert forall|i: int, j: int|
            0 <= i < ps.len() && 0 <= j < ps.len() && i != j implies (#[trigger] ps[i]).public_key@
                != (#[trigger] ps[j]).public_key@ by {
            assert(ps[i] == peers[i] && ps[j] == peers[j]);
        }
        assert forall|i: int|
            0 <= i < ps.len() && prev.contains_key((#[trigger] ps[i]).public_key@) implies {
                &&& prev[ps[i].public_key@].0 <= ps[i].tx
                &&& prev[ps[i].public_key@].1 <= ps[i].rx
            } by {
            assert(ps[i] == peers[i]);
        }
        lemma_totals_follow_samples(totals, prev, ps);
        assert forall|i: int| 0 <= i < ps.len() implies (#[trigger] ps[i]).public_key@
            != p.public_key@ by {
            assert(ps[i] == peers[i]);
        }
        lemma_prev_untouched(prev, ps, p.public_key@);
        let before = cycle_prev(prev, ps);
        let acc = accumulate(totals, cycle_deltas(prev, ps));
        let b = baseline(before, p.public_key@);
        assert(!is_reset(b, p.tx, p.rx));
        let d: Delta = (p.public_key, (p.tx - b.0) as u64, (p.rx - b.1) as u64);
        let ds = cycle_deltas(prev, peers);
        assert(ds == cycle_deltas(prev, ps).push(d));
        assert(ds.drop_last() =~= cycle_deltas(prev, ps));
        assert(accumulate(totals, ds) == add_delta(acc, d));
        let after = add_delta(acc, d);
        let prev_after = cycle_prev(prev, peers);
        assert(prev_after == before.insert(p.public_key@, (p.tx, p.rx)));
        assert(after.dom() =~= prev_after.dom());
        assert forall|k| #[trigger] prev_after.contains_key(k) implies after[k] == (
        prev_after[k].0 as int, prev_after[k].1 as int) by {
            if k == p.public_key@ {
                if acc.contains_key(k) {
                    assert(before.contains_key(k));
                }
            }
        }
    }
}

} // verus!
