//! Device session registry: a mapping from device identifier to the live
//! transport handle for that device, together with the registration epoch.
//! A registration unconditionally replaces an older session for the same
//! identifier; removal at teardown is guarded by the epoch, so a slow
//! teardown of an old connection never deletes a newer registration.
use vstd::prelude::*;

verus! {

/// The live binding of one device identifier: its transport handle and the
/// epoch at which it registered.
pub struct DeviceSession<T> {
    pub id: String,
    pub epoch: u64,
    pub transport: T,
}

/// No two sessions carry the same identifier.
pub open spec fn distinct_ids<T>(s: Seq<DeviceSession<T>>) -> bool {
    forall|i: int, j: int|
        0 <= i < j < s.len() ==> (#[trigger] s[i]).id@ != (#[trigger] s[j]).id@
}

/// Some session in `s` carries the identifier `k`.
pub open spec fn has_id<T>(s: Seq<DeviceSession<T>>, k: Seq<char>) -> bool {
    exists|i: int| 0 <= i < s.len() && (#[trigger] s[i]).id@ == k
}

/// The index of the session carrying `k` (unique when ids are distinct).
pub open spec fn idx_of<T>(s: Seq<DeviceSession<T>>, k: Seq<char>) -> int {
    choose|i: int| 0 <= i < s.len() && (#[trigger] s[i]).id@ == k
}

/// The sessions, read as a map from identifier to (epoch, transport).
pub open spec fn sessions_map<T>(s: Seq<DeviceSession<T>>) -> Map<Seq<char>, (u64, T)> {
    Map::new(
        |k: Seq<char>| has_id(s, k),
        |k: Seq<char>| (s[idx_of(s, k)].epoch, s[idx_of(s, k)].transport),
    )
}

/// What the epoch-guarded removal leaves behind: the entry goes only if it
/// is still present and still carries the given epoch.
pub open spec fn dereg_model<T>(
    m: Map<Seq<char>, (u64, T)>,
    id: Seq<char>,
    epoch: u64,
) -> Map<Seq<char>, (u64, T)> {
    if m.contains_key(id) && m[id].0 == epoch {
        m.remove(id)
    } else {
        m
    }
}

proof fn lemma_idx_unique<T>(s: Seq<DeviceSession<T>>, i: int)
    requires
        distinct_ids(s),
        0 <= i < s.len(),
    ensures
        has_id(s, s[i].id@),
        idx_of(s, s[i].id@) == i,
{
    assert(has_id(s, s[i].id@));
    let j = idx_of(s, s[i].id@);
    assert(0 <= j < s.len() && s[j].id@ == s[i].id@);
    if i < j {
        assert(s[i].id@ != s[j].id@);
    } else if j < i {
        assert(s[j].id@ != s[i].id@);
    }
}

proof fn lemma_remove_effect<T>(s: Seq<DeviceSession<T>>, i: int)
    requires
        distinct_ids(s),
        0 <= i < s.len(),
    ensures
        distinct_ids(s.remove(i)),
        sessions_map(s.remove(i)) == sessions_map(s).remove(s[i].id@),
{
    let s2 = s.remove(i);
    assert(forall|j: int|
        0 <= j < s2.len() ==> #[trigger] s2[j] == (if j < i {
            s[j]
        } else {
            s[j + 1]
        }));
    assert forall|k: Seq<char>| has_id(s2, k) implies has_id(s, k) && k != s[i].id@ by {
        let w = choose|w: int| 0 <= w < s2.len() && (#[trigger] s2[w]).id@ == k;
        if w < i {
            assert(s[w].id@ == k);
            assert(s[w].id@ != s[i].id@);
        } else {
            assert(s[w + 1].id@ == k);
            assert(s[i].id@ != s[w + 1].id@);
        }
    }
    assert forall|k: Seq<char>| has_id(s, k) && k != s[i].id@ implies has_id(s2, k) by {
        let w = choose|w: int| 0 <= w < s.len() && (#[trigger] s[w]).id@ == k;
        if w < i {
            assert(s2[w].id@ == k);
        } else {
            assert(w != i);
            assert(s2[w - 1].id@ == k);
        }
    }
    assert forall|k: Seq<char>| #[trigger] has_id(s2, k) implies sessions_map(s2)[k]
        == sessions_map(s)[k] by {
        let w2 = idx_of(s2, k);
        assert(0 <= w2 < s2.len() && s2[w2].id@ == k);
        let w = if w2 < i {
            w2
        } else {
            w2 + 1
        };
        assert(s[w] == s2[w2]);
        lemma_idx_unique(s, w);
    }
    assert(sessions_map(s2) =~= sessions_map(s).remove(s[i].id@));
}

proof fn lemma_push_effect<T>(s: Seq<DeviceSession<T>>, d: DeviceSession<T>)
    requires
        distinct_ids(s),
        !has_id(s, d.id@),
    ensures
        distinct_ids(s.push(d)),
        sessions_map(s.push(d)) == sessions_map(s).insert(d.id@, (d.epoch, d.transport)),
{
    let s2 = s.push(d);
    assert(forall|j: int| 0 <= j < s.len() ==> #[trigger] s2[j] == s[j]);
    assert(s2[s.len() as int] == d);
    assert forall|i: int, j: int| 0 <= i < j < s2.len() implies (#[trigger] s2[i]).id@
        != (#[trigger] s2[j]).id@ by {
        if j < s.len() {
        } else {
            assert(s2[j] == d);
            assert(s[i].id@ != d.id@);
        }
    }
    assert forall|k: Seq<char>| has_id(s2, k) implies has_id(s, k) || k == d.id@ by {
        let w = choose|w: int| 0 <= w < s2.len() && (#[trigger] s2[w]).id@ == k;
        if w < s.len() {
            assert(s[w].id@ == k);
        }
    }
    assert forall|k: Seq<char>| #[trigger] has_id(s2, k) implies sessions_map(s2)[k]
        == sessions_map(s).insert(d.id@, (d.epoch, d.transport))[k] by {
        let w2 = idx_of(s2, k);
        assert(0 <= w2 < s2.len() && s2[w2].id@ == k);
        if k == d.id@ {
            lemma_idx_unique(s2, s.len() as int);
        } else {
            assert(w2 < s.len());
            lemma_idx_unique(s, w2);
        }
    }
    assert forall|k: Seq<char>| has_id(s, k) implies has_id(s2, k) by {
        let w = choose|w: int| 0 <= w < s.len() && (#[trigger] s[w]).id@ == k;
        assert(s2[w].id@ == k);
    }
    assert(has_id(s2, d.id@)) by {
        assert(s2[s.len() as int].id@ == d.id@);
    }
    assert(sessions_map(s2) =~= sessions_map(s).insert(d.id@, (d.epoch, d.transport)));
}

/// The registry: the only shared mutable state of the system. All reads and
/// writes go through the operations below; a host runtime serializes them
/// with one lock held only for the map operation, never across I/O.
pub struct Registry<T> {
    sessions: Vec<DeviceSession<T>>,
    next_epoch: u64,
}

impl<T> View for Registry<T> {
    type V = Map<Seq<char>, (u64, T)>;

    closed spec fn view(&self) -> Map<Seq<char>, (u64, T)> {
        sessions_map(self.sessions@)
    }
}

impl<T> Registry<T> {
    /// Identifiers are unique and every stored epoch is older than the next
    /// one to be handed out.
    pub closed spec fn wf(&self) -> bool {
        &&& distinct_ids(self.sessions@)
        &&& forall|i: int|
            0 <= i < self.sessions@.len() ==> (#[trigger] self.sessions@[i]).epoch
                < self.next_epoch
    }

    /// The epoch counter has not been exhausted, so a fresh registration is
    /// possible.
    pub closed spec fn has_epoch_headroom(&self) -> bool {
        self.next_epoch < u64::MAX
    }

    pub fn new() -> (r: Registry<T>)
        ensures
            r.wf(),
            r.has_epoch_headroom(),
            r@ == Map::<Seq<char>, (u64, T)>::empty(),
    {
        let r = Registry { sessions: Vec::new(), next_epoch: 1 };
        proof {
            assert(r@ =~= Map::<Seq<char>, (u64, T)>::empty());
        }
        r
    }

    /// Whether a fresh registration is still possible (the epoch counter is
    /// not exhausted; in practice it never is).
    pub fn can_register(&self) -> (r: bool)
        ensures
            r == self.has_epoch_headroom(),
    {
        self.next_epoch < u64::MAX
    }

    fn find_session(&self, id: &String) -> (r: Option<usize>)
        ensures
            match r {
                Some(i) => 0 <= i < self.sessions@.len() && self.sessions@[i as int].id@ == id@,
                None => !has_id(self.sessions@, id@),
            },
    {
        let mut i: usize = 0;
        let n = self.sessions.len();
        while i < n
            invariant
                n == self.sessions@.len(),
                0 <= i <= n,
                forall|j: int| 0 <= j < i ==> (#[trigger] self.sessions@[j]).id@ != id@,
            decreases n - i,
        {
            if self.sessions[i].id == *id {
                return Some(i);
            }
            i = i + 1;
        }
        None
    }

    /// Insert a fresh session for `id`, replacing any prior one (last writer
    /// wins), and return the epoch it registered at. The epoch is strictly
    /// newer than the epoch of every session present before the call.
    pub fn register(&mut self, id: String, transport: T) -> (e: u64)
        requires
            old(self).wf(),
            old(self).has_epoch_headroom(),
        ensures
            final(self).wf(),
            final(self)@ == old(self)@.insert(id@, (e, transport)),
            forall|k: Seq<char>| old(self)@.dom().contains(k) ==> (#[trigger] old(self)@[k]).0 < e,
    {
        proof {
            assert forall|k: Seq<char>| old(self)@.dom().contains(k) implies (#[trigger] old(
                self,
            )@[k]).0 < old(self).next_epoch by {
                let w = idx_of(old(self).sessions@, k);
                assert(0 <= w < old(self).sessions@.len() && old(self).sessions@[w].id@ == k);
            }
        }
        let e = self.next_epoch;
        match self.find_session(&id) {
            Some(i) => {
                proof {
                    lemma_idx_unique(self.sessions@, i as int);
                    lemma_remove_effect(self.sessions@, i as int);
                }
                self.sessions.remove(i);
            },
            None => {
                proof {
                    assert(self@ =~= self@.remove(id@));
                }
            },
        }
        proof {
            lemma_push_effect(
                self.sessions@,
                DeviceSession { id: id, epoch: e, transport: transport },
            );
        }
        self.sessions.push(DeviceSession { id, epoch: e, transport });
        self.next_epoch = e + 1;
        proof {
            assert(self@ =~= old(self)@.insert(id@, (e, transport)));
        }
        e
    }

    /// The transport currently registered for `id`, if any.
    pub fn lookup(&self, id: &String) -> (r: Option<&T>)
        requires
            self.wf(),
        ensures
            match r {
                Some(t) => self@.contains_key(id@) && *t == self@[id@].1,
                None => !self@.contains_key(id@),
            },
    {
        match self.find_session(id) {
            Some(i) => {
                proof {
                    lemma_idx_unique(self.sessions@, i as int);
                }
                Some(&self.sessions[i].transport)
            },
            None => None,
        }
    }

    /// Remove the entry for `id` only if it is still present and still
    /// carries the epoch this caller registered at: a stale teardown never
    /// deletes a newer registration.
    pub fn deregister_if_unchanged(&mut self, id: &String, epoch: u64) -> (removed: bool)
        requires
            old(self).wf(),
        ensures
            final(self).wf(),
            removed == (old(self)@.contains_key(id@) && old(self)@[id@].0 == epoch),
            final(self)@ == dereg_model(old(self)@, id@, epoch),
            final(self).has_epoch_headroom() == old(self).has_epoch_headroom(),
    {
        match self.find_session(id) {
            Some(i) => {
                proof {
                    lemma_idx_unique(self.sessions@, i as int);
                }
                if self.sessions[i].epoch == epoch {
                    proof {
                        lemma_remove_effect(self.sessions@, i as int);
                    }
                    self.sessions.remove(i);
                    true
                } else {
                    false
                }
            },
            None => false,
        }
    }

    /// Remove the entry for `id` unconditionally (best-effort cleanup after
    /// a failed delivery); absent entries are left as they are.
    pub fn remove(&mut self, id: &String) -> (removed: bool)
        requires
            old(self).wf(),
        ensures
            final(self).wf(),
            removed == old(self)@.contains_key(id@),
            final(self)@ == old(self)@.remove(id@),
            final(self).has_epoch_headroom() == old(self).has_epoch_headroom(),
    {
        match self.find_session(id) {
            Some(i) => {
                proof {
                    lemma_idx_unique(self.sessions@, i as int);
                    lemma_remove_effect(self.sessions@, i as int);
                }
                self.sessions.remove(i);
                true
            },
            None => {
                proof {
                    assert(self@ =~= self@.remove(id@));
                }
                false
            },
        }
    }
}

/// Registry race safety: once a newer session (a strictly larger epoch) has
/// registered under the same identifier, the older session's epoch-guarded
/// removal is a no-op, and the newer session stays registered.
pub proof fn lemma_stale_deregister_keeps_newer<T>(
    m: Map<Seq<char>, (u64, T)>,
    id: Seq<char>,
    e1: u64,
    t1: T,
    e2: u64,
    t2: T,
)
    requires
        e1 < e2,
    ensures
        ({
            let after = m.insert(id, (e1, t1)).insert(id, (e2, t2));
            &&& dereg_model(after, id, e1) == after
            &&& after.contains_key(id)
            &&& after[id] == (e2, t2)
        }),
{
}

} // verus!
