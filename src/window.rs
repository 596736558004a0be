use std::collections::VecDeque;
use crate::clock::now_ts;
use vstd::prelude::*;
use vstd::string::StringExecFns;

verus! {

/// A key recorded as a surge candidate, with the second at which it was seen.
pub struct Hotspot {
    pub key: String,
    pub timestamp: i64,
}

/// The records that survive a reap at `now`: those younger than `window` seconds.
pub open spec fn unexpired(m: Map<Seq<char>, int>, now: int, window: int) -> Map<Seq<char>, int> {
    Map::new(|k: Seq<char>| m.contains_key(k) && now - m[k] < window, |k: Seq<char>| m[k])
}

/// The records after `key` is observed at `now`: a new key is recorded, a known
/// one keeps its first record.
pub open spec fn observed(m: Map<Seq<char>, int>, key: Seq<char>, now: int) -> Map<Seq<char>, int> {
    if m.contains_key(key) {
        m
    } else {
        m.insert(key, now)
    }
}

/// The keys of one namespace that were let through within the trailing window.
///
/// `set` answers membership; `heap` holds one record per member, oldest first,
/// so that expiry only ever looks at its front.
pub struct HotspotManager {
    set: Vec<String>,
    heap: VecDeque<Hotspot>,
    window: i64,
    records: Ghost<Map<Seq<char>, int>>,
}

impl View for HotspotManager {
    type V = Map<Seq<char>, int>;

    /// Each member key, mapped to the second at which it was recorded.
    closed spec fn view(&self) -> Map<Seq<char>, int> {
        self.records@
    }
}

impl HotspotManager {
    /// The window length, in seconds.
    pub closed spec fn window_secs(&self) -> int {
        self.window as int
    }

    pub closed spec fn wf(&self) -> bool {
        &&& self.window > 0
        &&& forall|i: int, j: int|
            0 <= i < j < self.heap@.len() ==> #[trigger] self.heap@[i].timestamp
                <= #[trigger] self.heap@[j].timestamp
        &&& forall|i: int, j: int|
            0 <= i < j < self.heap@.len() ==> #[trigger] self.heap@[i].key@
                != #[trigger] self.heap@[j].key@
        &&& forall|i: int|
            0 <= i < self.heap@.len() ==> self.records@.contains_key(#[trigger] self.heap@[i].key@)
                && self.records@[self.heap@[i].key@] == self.heap@[i].timestamp
        &&& forall|k: Seq<char>|
            #[trigger] self.records@.contains_key(k) ==> exists|i: int|
                0 <= i < self.heap@.len() && #[trigger] self.heap@[i].key@ == k
        &&& forall|i: int, j: int|
            0 <= i < j < self.set@.len() ==> #[trigger] self.set@[i]@ != #[trigger] self.set@[j]@
        &&& forall|i: int|
            0 <= i < self.set@.len() ==> self.records@.contains_key(#[trigger] self.set@[i]@)
        &&& forall|k: Seq<char>|
            #[trigger] self.records@.contains_key(k) ==> exists|i: int|
                0 <= i < self.set@.len() && #[trigger] self.set@[i]@ == k
    }

    /// An empty window of `window` seconds.
    pub fn new(window: i64) -> (r: HotspotManager)
        requires
            window > 0,
        ensures
            r.wf(),
            r@ == Map::<Seq<char>, int>::empty(),
            r.window_secs() == window,
    {
        HotspotManager {
            set: Vec::new(),
            heap: VecDeque::new(),
            window,
            records: Ghost(Map::empty()),
        }
    }

    /// The index in `set` that holds `key`, if any.
    fn find_member(&self, key: &String) -> (r: Option<usize>)
        ensures
            match r {
                Some(i) => i < self.set@.len() && self.set@[i as int]@ == key@,
                None => forall|i: int| 0 <= i < self.set@.len() ==> #[trigger] self.set@[i]@ != key@,
            },
    {
        let mut i: usize = 0;
        while i < self.set.len()
            invariant
                i <= self.set@.len(),
                forall|j: int| 0 <= j < i ==> #[trigger] self.set@[j]@ != key@,
            decreases self.set@.len() - i,
        {
            if self.set[i] == *key {
                return Some(i);
            }
            i = i + 1;
        }
        None
    }

    /// The index in `heap` of the record for `key`, if any.
    fn find_record(&self, key: &String) -> (r: Option<usize>)
        ensures
            match r {
                Some(i) => i < self.heap@.len() && self.heap@[i as int].key@ == key@,
                None => forall|i: int|
                    0 <= i < self.heap@.len() ==> #[trigger] self.heap@[i].key@ != key@,
            },
    {
        let mut i: usize = 0;
        while i < self.heap.len()
            invariant
                i <= self.heap@.len(),
                forall|j: int| 0 <= j < i ==> #[trigger] self.heap@[j].key@ != key@,
            decreases self.heap@.len() - i,
        {
            if self.heap[i].key == *key {
                return Some(i);
            }
            i = i + 1;
        }
        None
    }

    /// Where a record stamped `timestamp` goes so that `heap` stays oldest first:
    /// after every record not younger than it.
    fn insertion_point(&self, timestamp: i64) -> (p: usize)
        requires
            forall|i: int, j: int|
                0 <= i < j < self.heap@.len() ==> #[trigger] self.heap@[i].timestamp
                    <= #[trigger] self.heap@[j].timestamp,
        ensures
            p <= self.heap@.len(),
            forall|i: int| 0 <= i < p ==> #[trigger] self.heap@[i].timestamp <= timestamp,
            forall|i: int|
                p <= i < self.heap@.len() ==> #[trigger] self.heap@[i].timestamp > timestamp,
    {
        let mut p: usize = self.heap.len();
        while p > 0 && self.heap[p - 1].timestamp > timestamp
            invariant
                p <= self.heap@.len(),
                forall|i: int|
                    p <= i < self.heap@.len() ==> #[trigger] self.heap@[i].timestamp > timestamp,
            decreases p,
        {
            p = p - 1;
        }
        proof {
            assert forall|i: int| 0 <= i < p implies #[trigger] self.heap@[i].timestamp
                <= timestamp by {
                if i < p - 1 {
                    assert(self.heap@[i].timestamp <= self.heap@[p - 1].timestamp);
                }
            }
        }
        p
    }

    /// Records `hotspot`: its key becomes a member, stamped with its timestamp
    /// (a member that is recorded again takes the new stamp).
    pub fn insert(&mut self, hotspot: Hotspot)
        requires
            old(self).wf(),
        ensures
            final(self).wf(),
            final(self)@ == old(self)@.insert(hotspot.key@, hotspot.timestamp as int),
            final(self).window_secs() == old(self).window_secs(),
    {
        let ghost k = hotspot.key@;
        let ghost t = hotspot.timestamp as int;
        let ghost r0 = self.records@;
        let ghost s_before = self.set@;
        if let Some(j) = self.find_record(&hotspot.key) {
            let ghost h0 = self.heap@;
            self.heap.remove(j);
            proof {
                h0.remove_ensures(j as int);
                assert forall|k2: Seq<char>| #[trigger] r0.contains_key(k2) && k2 != k implies exists|i: int|
                    0 <= i < self.heap@.len() && #[trigger] self.heap@[i].key@ == k2 by {
                    let i = choose|i: int| 0 <= i < h0.len() && #[trigger] h0[i].key@ == k2;
                    if i < j {
                        assert(self.heap@[i].key@ == k2);
                    } else {
                        assert(self.heap@[i - 1].key@ == k2);
                    }
                }
            }
        } else {
            proof {
                assert forall|k2: Seq<char>| #[trigger] r0.contains_key(k2) && k2 != k implies exists|i: int|
                    0 <= i < self.heap@.len() && #[trigger] self.heap@[i].key@ == k2 by {
                    let i = choose|i: int| 0 <= i < self.heap@.len() && #[trigger] self.heap@[i].key@ == k2;
                }
            }
        }
        assert(forall|i: int| 0 <= i < self.heap@.len() ==> #[trigger] self.heap@[i].key@ != k);
        let member = self.find_member(&hotspot.key);
        let ghost mi: int = match member {
            Some(m) => m as int,
            None => self.set@.len() as int,
        };
        match member {
            Some(m) => {
                assert(self.set@ == s_before);
            },
            None => {
                let ghost s0 = self.set@;
                self.set.push(hotspot.key.clone());
                proof {
                    assert forall|k2: Seq<char>| #[trigger] r0.contains_key(k2) implies exists|i: int|
                        0 <= i < self.set@.len() && #[trigger] self.set@[i]@ == k2 by {
                        let i = choose|i: int| 0 <= i < s0.len() && #[trigger] s0[i]@ == k2;
                        assert(self.set@[i]@ == k2);
                    }
                    assert(self.set@[s0.len() as int]@ == k);
                }
            },
        }
        let p = self.insertion_point(hotspot.timestamp);
        let ghost h1 = self.heap@;
        self.heap.insert(p, hotspot);
        self.records = Ghost(r0.insert(k, t));
        proof {
            h1.insert_ensures(p as int, self.heap@[p as int]);
            assert forall|i: int, j: int|
                0 <= i < j < self.heap@.len() implies #[trigger] self.heap@[i].timestamp
                    <= #[trigger] self.heap@[j].timestamp by {
                if i < p && j > p {
                    assert(self.heap@[i] == h1[i]);
                    assert(self.heap@[j] == h1[j - 1]);
                } else if j > p {
                    assert(self.heap@[j] == h1[j - 1]);
                    if i > p {
                        assert(self.heap@[i] == h1[i - 1]);
                    }
                }
            }
            assert forall|i: int, j: int|
                0 <= i < j < self.heap@.len() implies #[trigger] self.heap@[i].key@
                    != #[trigger] self.heap@[j].key@ by {
                if i < p && j > p {
                    assert(self.heap@[i] == h1[i]);
                    assert(self.heap@[j] == h1[j - 1]);
                } else if j > p {
                    assert(self.heap@[j] == h1[j - 1]);
                    if i > p {
                        assert(self.heap@[i] == h1[i - 1]);
                    }
                }
            }
            assert forall|i: int| 0 <= i < self.heap@.len() implies self.records@.contains_key(
                #[trigger] self.heap@[i].key@,
            ) && self.records@[self.heap@[i].key@] == self.heap@[i].timestamp by {
                if i > p {
                    assert(self.heap@[i] == h1[i - 1]);
                }
            }
            assert forall|k2: Seq<char>| #[trigger] self.records@.contains_key(k2) implies exists|i: int|
                0 <= i < self.heap@.len() && #[trigger] self.heap@[i].key@ == k2 by {
                if k2 == k {
                    assert(self.heap@[p as int].key@ == k);
                } else {
                    let i = choose|i: int| 0 <= i < h1.len() && #[trigger] h1[i].key@ == k2;
                    if i < p {
                        assert(self.heap@[i].key@ == k2);
                    } else {
                        assert(self.heap@[i + 1].key@ == k2);
                    }
                }
            }
            assert forall|k2: Seq<char>| #[trigger] self.records@.contains_key(k2) implies exists|i: int|
                0 <= i < self.set@.len() && #[trigger] self.set@[i]@ == k2 by {
                if k2 != k {
                    assert(r0.contains_key(k2));
                    let i = choose|i: int| 0 <= i < s_before.len() && #[trigger] s_before[i]@ == k2;
                    assert(self.set@[i] == s_before[i]);
                } else {
                    assert(self.set@[mi]@ == k);
                }
            }
        }
    }

    /// Drops every record whose age at `now` is at least the window length,
    /// oldest first, stopping at the first record that is still young.
    pub fn reap(&mut self, now: i64)
        requires
            old(self).wf(),
        ensures
            final(self).wf(),
            final(self)@ == unexpired(old(self)@, now as int, old(self).window_secs()),
            final(self).window_secs() == old(self).window_secs(),
    {
        let ghost r0 = self.records@;
        if now < i64::MIN + self.window {
            // nothing can be that old
            assert(self@ =~= unexpired(r0, now as int, self.window as int));
            return;
        }
        let cutoff: i64 = now - self.window;
        while self.heap.len() > 0 && self.heap[0].timestamp <= cutoff
            invariant
                self.wf(),
                self.window == old(self).window,
                cutoff == now - self.window,
                forall|k: Seq<char>| #[trigger]
                    self.records@.contains_key(k) ==> r0.contains_key(k) && self.records@[k] == r0[k],
                forall|k: Seq<char>| #[trigger]
                    r0.contains_key(k) && !self.records@.contains_key(k) ==> r0[k] <= cutoff,
            decreases self.heap@.len(),
        {
            let ghost h0 = self.heap@;
            let ghost s0 = self.set@;
            let ghost rs = self.records@;
            let oldest = self.heap.pop_front();
            if let Some(h) = oldest {
                let ghost k = h.key@;
                if let Some(i) = self.find_member(&h.key) {
                    self.set.remove(i);
                    proof {
                        assert forall|a: int| 0 <= a < s0.len() && a != i implies #[trigger] s0[a]@ != k by {
                            if a < i {
                                assert(s0[a]@ != s0[i as int]@);
                            } else {
                                assert(s0[i as int]@ != s0[a]@);
                            }
                        }
                    }
                }
                self.records = Ghost(rs.remove(k));
                proof {
                    assert forall|a: int| 0 <= a < self.heap@.len() implies #[trigger] self.heap@[a].key@
                        != k by {
                        assert(self.heap@[a] == h0[a + 1]);
                        assert(h0[0].key@ != h0[a + 1].key@);
                    }
                    assert forall|a: int, b: int|
                        0 <= a < b < self.heap@.len() implies #[trigger] self.heap@[a].timestamp
                            <= #[trigger] self.heap@[b].timestamp by {
                        assert(self.heap@[a] == h0[a + 1]);
                        assert(self.heap@[b] == h0[b + 1]);
                    }
                    assert forall|a: int, b: int|
                        0 <= a < b < self.heap@.len() implies #[trigger] self.heap@[a].key@
                            != #[trigger] self.heap@[b].key@ by {
                        assert(self.heap@[a] == h0[a + 1]);
                        assert(self.heap@[b] == h0[b + 1]);
                    }
                    assert forall|a: int| 0 <= a < self.heap@.len() implies self.records@.contains_key(
                        #[trigger] self.heap@[a].key@,
                    ) && self.records@[self.heap@[a].key@] == self.heap@[a].timestamp by {
                        assert(self.heap@[a] == h0[a + 1]);
                    }
                    assert forall|k2: Seq<char>| #[trigger] self.records@.contains_key(k2) implies exists|a: int|
                        0 <= a < self.heap@.len() && #[trigger] self.heap@[a].key@ == k2 by {
                        assert(rs.contains_key(k2));
                        let a = choose|a: int| 0 <= a < h0.len() && #[trigger] h0[a].key@ == k2;
                        assert(a != 0);
                        assert(self.heap@[a - 1].key@ == k2);
                    }
                    assert forall|a: int, b: int|
                        0 <= a < b < self.set@.len() implies #[trigger] self.set@[a]@
                            != #[trigger] self.set@[b]@ by {
                        let i = choose|i: int| 0 <= i < s0.len() && #[trigger] s0[i]@ == k;
                        if a < i {
                            if b < i {
                            } else {
                                assert(self.set@[b] == s0[b + 1]);
                            }
                        } else {
                            assert(self.set@[a] == s0[a + 1]);
                            assert(self.set@[b] == s0[b + 1]);
                        }
                    }
                    assert forall|a: int| 0 <= a < self.set@.len() implies self.records@.contains_key(
                        #[trigger] self.set@[a]@,
                    ) by {
                        let i = choose|i: int| 0 <= i < s0.len() && #[trigger] s0[i]@ == k;
                        if a < i {
                            assert(self.set@[a] == s0[a]);
                        } else {
                            assert(self.set@[a] == s0[a + 1]);
                        }
                    }
                    assert forall|k2: Seq<char>| #[trigger] self.records@.contains_key(k2) implies exists|a: int|
                        0 <= a < self.set@.len() && #[trigger] self.set@[a]@ == k2 by {
                        assert(rs.contains_key(k2));
                        let i = choose|i: int| 0 <= i < s0.len() && #[trigger] s0[i]@ == k;
                        let a = choose|a: int| 0 <= a < s0.len() && #[trigger] s0[a]@ == k2;
                        if a < i {
                            assert(self.set@[a]@ == k2);
                        } else {
                            assert(self.set@[a - 1]@ == k2);
                        }
                    }
                }
            }
        }
        proof {
            assert forall|k: Seq<char>| #[trigger] self.records@.contains_key(k) implies now - self.records@[k]
                < self.window by {
                let a = choose|a: int| 0 <= a < self.heap@.len() && #[trigger] self.heap@[a].key@ == k;
                if a > 0 {
                    assert(self.heap@[0].timestamp <= self.heap@[a].timestamp);
                }
            }
            assert(self@ =~= unexpired(r0, now as int, self.window as int));
        }
    }

    /// Reaps the window at the current time of the system clock.
    pub fn auto_remove(&mut self)
        requires
            old(self).wf(),
        ensures
            final(self).wf(),
            final(self).window_secs() == old(self).window_secs(),
            exists|now: int|
                now >= 0 && final(self)@ == unexpired(old(self)@, now, old(self).window_secs()),
    {
        let now = now_ts();
        self.reap(now);
    }

    /// Takes `key`, seen as a surge candidate at `now`, into the window: true when
    /// it was not a member (it is recorded at `now`), false when it already was
    /// (nothing changes).
    pub fn observe(&mut self, key: &str, now: i64) -> (is_new: bool)
        requires
            old(self).wf(),
        ensures
            final(self).wf(),
            is_new == !old(self)@.contains_key(key@),
            final(self)@ == observed(old(self)@, key@, now as int),
            final(self).window_secs() == old(self).window_secs(),
    {
        let hotspot = Hotspot { key: String::from_str(key), timestamp: now };
        if self.contains(&hotspot) {
            false
        } else {
            self.insert(hotspot);
            true
        }
    }

    /// Whether the record's key is a member of the window.
    pub fn contains(&self, hotspot: &Hotspot) -> (r: bool)
        requires
            self.wf(),
        ensures
            r == self@.contains_key(hotspot.key@),
    {
        match self.find_member(&hotspot.key) {
            Some(_) => true,
            None => {
                proof {
                    if self.records@.contains_key(hotspot.key@) {
                        let i = choose|i: int|
                            0 <= i < self.set@.len() && #[trigger] self.set@[i]@ == hotspot.key@;
                        assert(self.set@[i]@ != hotspot.key@);
                    }
                }
                false
            },
        }
    }
}

} // verus!
