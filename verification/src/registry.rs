//! The process-local room registry: a mapping from live room identifiers to
//! their broadcast hubs, with one reference count per room.
//!
//! A room has an entry exactly while at least one session subscribes to it:
//! entries are created lazily by the first joiner and evicted eagerly by the
//! last leaver.  The caller serializes access (one guard around the whole
//! registry) and holds no guard across I/O.

use vstd::prelude::*;
use crate::ids::RoomId;
use crate::hub::{hub_clone, new_hub};

verus! {

/// One live room: its identifier, the number of subscribed sessions, and
/// the hub they share.
pub struct RegistryEntry {
    pub room: RoomId,
    pub subscribers: usize,
    pub hub: tokio::sync::broadcast::Sender<String>,
}

/// The registry of live rooms.
pub struct Registry {
    pub entries: Vec<RegistryEntry>,
}

/// Whether some entry of `s` carries the room value `v`.
pub open spec fn has_room(s: Seq<RegistryEntry>, v: u128) -> bool
    decreases s.len(),
{
    s.len() > 0 && (s.last().room.value == v || has_room(s.drop_last(), v))
}

/// The subscriber count recorded for room value `v`, zero when absent.
pub open spec fn ecount(s: Seq<RegistryEntry>, v: u128) -> nat
    decreases s.len(),
{
    if s.len() == 0 {
        0
    } else if s.last().room.value == v {
        s.last().subscribers as nat
    } else {
        ecount(s.drop_last(), v)
    }
}

/// No two entries carry the same room.
pub open spec fn distinct_rooms(s: Seq<RegistryEntry>) -> bool {
    forall|i: int, j: int|
        0 <= i < j < s.len() ==> #[trigger] s[i].room.value != #[trigger] s[j].room.value
}

proof fn lemma_has_room_index(s: Seq<RegistryEntry>, v: u128)
    ensures
        has_room(s, v) <==> exists|i: int| 0 <= i < s.len() && #[trigger] s[i].room.value == v,
    decreases s.len(),
{
    if s.len() > 0 {
        lemma_has_room_index(s.drop_last(), v);
        if s.last().room.value == v {
            assert(s[s.len() - 1].room.value == v);
        } else if has_room(s.drop_last(), v) {
            let i = choose|i: int|
                0 <= i < s.drop_last().len() && #[trigger] s.drop_last()[i].room.value == v;
            assert(s[i].room.value == v);
        } else {
            assert forall|i: int| 0 <= i < s.len() implies #[trigger] s[i].room.value != v by {
                if i < s.len() - 1 {
                    assert(s.drop_last()[i].room.value != v);
                }
            }
        }
    }
}

proof fn lemma_ecount_at(s: Seq<RegistryEntry>, idx: int)
    requires
        distinct_rooms(s),
        0 <= idx < s.len(),
    ensures
        ecount(s, s[idx].room.value) == s[idx].subscribers,
    decreases s.len(),
{
    if idx == s.len() - 1 {
    } else {
        assert(s.last().room.value != s[idx].room.value);
        assert(s.drop_last()[idx] == s[idx]);
        lemma_ecount_at(s.drop_last(), idx);
    }
}

proof fn lemma_ecount_absent(s: Seq<RegistryEntry>, v: u128)
    requires
        !has_room(s, v),
    ensures
        ecount(s, v) == 0,
    decreases s.len(),
{
    if s.len() > 0 {
        lemma_ecount_absent(s.drop_last(), v);
    }
}

proof fn lemma_ecount_update(s: Seq<RegistryEntry>, idx: int, e2: RegistryEntry, v: u128)
    requires
        0 <= idx < s.len(),
        e2.room.value == s[idx].room.value,
        distinct_rooms(s),
    ensures
        ecount(s.update(idx, e2), v) == if v == e2.room.value {
            e2.subscribers as nat
        } else {
            ecount(s, v)
        },
        has_room(s.update(idx, e2), v) <==> has_room(s, v),
    decreases s.len(),
{
    let s2 = s.update(idx, e2);
    if idx == s.len() - 1 {
        assert(s2.last() == e2);
        assert(s2.drop_last() =~= s.drop_last());
        if v == e2.room.value {
            if has_room(s.drop_last(), v) {
                lemma_has_room_index(s.drop_last(), v);
                let i = choose|i: int|
                    0 <= i < s.drop_last().len() && #[trigger] s.drop_last()[i].room.value == v;
                assert(s[i].room.value == v && s[s.len() - 1].room.value == v);
                assert(false);
            }
            lemma_ecount_absent(s.drop_last(), v);
        }
    } else {
        assert(s2.last() == s.last());
        assert(s2.drop_last() =~= s.drop_last().update(idx, e2));
        assert(s.drop_last()[idx] == s[idx]);
        lemma_ecount_update(s.drop_last(), idx, e2, v);
    }
}

proof fn lemma_ecount_remove(s: Seq<RegistryEntry>, idx: int, v: u128)
    requires
        0 <= idx < s.len(),
        distinct_rooms(s),
    ensures
        ecount(s.remove(idx), v) == if v == s[idx].room.value {
            0
        } else {
            ecount(s, v)
        },
        has_room(s.remove(idx), v) <==> (has_room(s, v) && v != s[idx].room.value),
    decreases s.len(),
{
    let s2 = s.remove(idx);
    if idx == s.len() - 1 {
        assert(s2 =~= s.drop_last());
        if v == s[idx].room.value {
            if has_room(s.drop_last(), v) {
                lemma_has_room_index(s.drop_last(), v);
                let i = choose|i: int|
                    0 <= i < s.drop_last().len() && #[trigger] s.drop_last()[i].room.value == v;
                assert(s[i].room.value == v && s[s.len() - 1].room.value == v);
                assert(false);
            }
            lemma_ecount_absent(s.drop_last(), v);
        }
    } else {
        assert(s2.last() == s.last());
        assert(s2.drop_last() =~= s.drop_last().remove(idx));
        assert(s.drop_last()[idx] == s[idx]);
        lemma_ecount_remove(s.drop_last(), idx, v);
    }
}

impl Registry {
    /// Well-formedness: rooms are unique and every entry has at least one
    /// subscriber.
    pub open spec fn wf(&self) -> bool {
        distinct_rooms(self.entries@)
        && (forall|i: int| 0 <= i < self.entries@.len()
            ==> #[trigger] self.entries@[i].subscribers >= 1)
    }

    /// Whether the registry holds an entry for room value `v`.
    pub open spec fn spec_contains(&self, v: u128) -> bool {
        has_room(self.entries@, v)
    }

    /// The subscriber count recorded for room value `v`, zero when absent.
    pub open spec fn count_of(&self, v: u128) -> nat {
        ecount(self.entries@, v)
    }

    /// An empty registry.
    pub fn new() -> (r: Self)
        ensures
            r.wf(),
            r.entries@.len() == 0,
            forall|v: u128| !r.spec_contains(v),
    {
        Registry { entries: Vec::new() }
    }

    /// The index of the entry for room value `v`, if any.
    fn find(&self, v: u128) -> (r: Option<usize>)
        ensures
            r matches Option::Some(i) ==> i < self.entries@.len()
                && self.entries@[i as int].room.value == v
                && self.spec_contains(v),
            r is None ==> !self.spec_contains(v),
    {
        let n = self.entries.len();
        let mut i: usize = 0;
        while i < n
            invariant
                n == self.entries@.len(),
                i <= n,
                forall|k: int| 0 <= k < i ==> #[trigger] self.entries@[k].room.value != v,
            decreases n - i,
        {
            if self.entries[i].room.value == v {
                proof {
                    lemma_has_room_index(self.entries@, v);
                }
                return Some(i);
            }
            i += 1;
        }
        proof {
            lemma_has_room_index(self.entries@, v);
        }
        None
    }

    /// The live subscriber count of one room, zero when it has no entry.
    pub fn subscriber_count(&self, room: &RoomId) -> (n: usize)
        requires
            self.wf(),
        ensures
            n == self.count_of(room.value),
    {
        match self.find(room.value) {
            Option::Some(i) => {
                proof {
                    lemma_ecount_at(self.entries@, i as int);
                }
                self.entries[i].subscribers
            },
            Option::None => {
                proof {
                    lemma_ecount_absent(self.entries@, room.value);
                }
                0
            },
        }
    }

    /// One session joins a room: its entry's count grows by one, and a room
    /// without an entry gets a fresh hub with this session as the first
    /// subscriber.  Returns the hub the session publishes to and subscribes
    /// on.
    pub fn join(&mut self, room: RoomId) -> (hub: tokio::sync::broadcast::Sender<String>)
        requires
            old(self).wf(),
            old(self).count_of(room.value) < usize::MAX,
        ensures
            final(self).wf(),
            final(self).spec_contains(room.value),
            final(self).count_of(room.value) == old(self).count_of(room.value) + 1,
            forall|v: u128| v != room.value
                ==> final(self).count_of(v) == old(self).count_of(v),
            forall|v: u128| v != room.value
                ==> (final(self).spec_contains(v) <==> old(self).spec_contains(v)),
    {
        let ghost s0 = self.entries@;
        match self.find(room.value) {
            Option::Some(i) => {
                proof {
                    lemma_ecount_at(s0, i as int);
                }
                let mut e = self.entries.remove(i);
                e.subscribers = e.subscribers + 1;
                let hub = hub_clone(&e.hub);
                let ghost e2 = e;
                self.entries.insert(i, e);
                proof {
                    assert(self.entries@ =~= s0.update(i as int, e2));
                    assert forall|v: u128| v != room.value
                        implies ecount(self.entries@, v) == ecount(s0, v) by {
                        lemma_ecount_update(s0, i as int, e2, v);
                    }
                    assert forall|v: u128| v != room.value
                        implies has_room(self.entries@, v) == has_room(s0, v) by {
                        lemma_ecount_update(s0, i as int, e2, v);
                    }
                    lemma_ecount_update(s0, i as int, e2, room.value);
                    assert(ecount(self.entries@, room.value) == e2.subscribers as nat);
                }
                hub
            },
            Option::None => {
                let hub = new_hub();
                let out = hub_clone(&hub);
                let e = RegistryEntry { room, subscribers: 1, hub };
                let ghost e2 = e;
                self.entries.push(e);
                proof {
                    lemma_ecount_absent(s0, room.value);
                    assert(self.entries@.drop_last() =~= s0);
                    assert(self.entries@.last() == e2);
                    lemma_has_room_index(s0, room.value);
                    assert forall|i: int, j: int|
                        0 <= i < j < self.entries@.len() implies #[trigger] self.entries@[i].room.value
                        != #[trigger] self.entries@[j].room.value by {
                        if j < self.entries@.len() - 1 {
                            assert(s0[i].room.value != s0[j].room.value);
                        } else {
                            assert(s0[i].room.value != room.value);
                        }
                    }
                }
                out
            },
        }
    }

    /// One session leaves a room: its entry's count drops by one, and the
    /// entry is evicted when this was the last subscriber.  The session
    /// still holds its own subscription while this runs, so an entry with a
    /// count of one can only be this session's.  Returns whether the entry
    /// was removed.
    pub fn leave(&mut self, room: RoomId) -> (removed: bool)
        requires
            old(self).wf(),
            old(self).spec_contains(room.value),
        ensures
            final(self).wf(),
            removed <==> old(self).count_of(room.value) == 1,
            final(self).count_of(room.value) == old(self).count_of(room.value) - 1,
            final(self).spec_contains(room.value) <==> old(self).count_of(room.value) > 1,
            forall|v: u128| v != room.value
                ==> final(self).count_of(v) == old(self).count_of(v),
            forall|v: u128| v != room.value
                ==> (final(self).spec_contains(v) <==> old(self).spec_contains(v)),
    {
        let ghost s0 = self.entries@;
        match self.find(room.value) {
            Option::Some(i) => {
                proof {
                    lemma_ecount_at(s0, i as int);
                }
                let mut e = self.entries.remove(i);
                if e.subscribers == 1 {
                    proof {
                        assert forall|v: u128| v != room.value
                            implies ecount(self.entries@, v) == ecount(s0, v) by {
                            lemma_ecount_remove(s0, i as int, v);
                        }
                        assert forall|v: u128| v != room.value
                            implies has_room(self.entries@, v) == has_room(s0, v) by {
                            lemma_ecount_remove(s0, i as int, v);
                        }
                        lemma_ecount_remove(s0, i as int, room.value);
                        assert(ecount(self.entries@, room.value) == 0);
                        assert(!has_room(self.entries@, room.value));
                        assert forall|a: int, b: int|
                            0 <= a < b < self.entries@.len() implies #[trigger] self.entries@[a].room.value
                            != #[trigger] self.entries@[b].room.value by {
                            let sa = if a < i { a } else { a + 1 };
                            let sb = if b < i { b } else { b + 1 };
                            assert(s0[sa].room.value != s0[sb].room.value);
                        }
                    }
                    true
                } else {
                    e.subscribers = e.subscribers - 1;
                    let ghost e2 = e;
                    self.entries.insert(i, e);
                    proof {
                        assert(self.entries@ =~= s0.update(i as int, e2));
                        assert forall|v: u128| v != room.value
                            implies ecount(self.entries@, v) == ecount(s0, v) by {
                            lemma_ecount_update(s0, i as int, e2, v);
                        }
                        assert forall|v: u128| v != room.value
                            implies has_room(self.entries@, v) == has_room(s0, v) by {
                            lemma_ecount_update(s0, i as int, e2, v);
                        }
                        lemma_ecount_update(s0, i as int, e2, room.value);
                        assert(ecount(self.entries@, room.value) == e2.subscribers as nat);
                        assert(has_room(self.entries@, room.value) == has_room(s0, room.value));
                    }
                    false
                }
            },
            Option::None => {
                proof {
                    assert(false);
                }
                false
            },
        }
    }

    /// Every room present in the registry has at least one live subscriber:
    /// an entry exists only while some session holds a subscription.
    pub proof fn lemma_live_rooms(&self)
        requires
            self.wf(),
        ensures
            forall|v: u128| self.spec_contains(v) ==> self.count_of(v) >= 1,
    {
        assert forall|v: u128| self.spec_contains(v) implies self.count_of(v) >= 1 by {
            lemma_has_room_index(self.entries@, v);
            let i = choose|i: int|
                0 <= i < self.entries@.len() && #[trigger] self.entries@[i].room.value == v;
            lemma_ecount_at(self.entries@, i);
        }
    }
}

} // verus!
