//! A map whose entries expire: each insertion sets a time after which the
//! key is dropped. Times are milliseconds since the Unix epoch.
use vstd::prelude::*;

use crate::keyed::{entries_map, keys_distinct, find_key, put_key, take_key, lemma_entries_map_len};
use crate::plugins::filters::status::sliding_window::now_ms;

verus! {

/// Whether the expiry times never decrease along the queue.
pub open spec fn sorted_by_expiry(q: Seq<(String, u128)>) -> bool {
    forall|i: int, j: int| 0 <= i <= j < q.len() ==> (#[trigger] q[i]).1 <= (#[trigger] q[j]).1
}

/// The number of queue entries, from the front, that have expired at `now`.
pub open spec fn expired_prefix(q: Seq<(String, u128)>, now: u128) -> int
    decreases q.len(),
{
    if q.len() == 0 || q[0].1 > now {
        0
    } else {
        1 + expired_prefix(q.skip(1), now)
    }
}

/// The map after the expired queue entries, from the front, removed their
/// keys.
pub open spec fn drop_expired<V>(m: Map<Seq<char>, V>, q: Seq<(String, u128)>, now: u128) -> Map<Seq<char>, V>
    decreases q.len(),
{
    if q.len() == 0 || q[0].1 > now {
        m
    } else {
        drop_expired(m.remove(q[0].0@), q.skip(1), now)
    }
}

/// Where an entry expiring at `e` goes in the queue: before the first entry
/// that expires no earlier.
pub open spec fn insert_position(q: Seq<(String, u128)>, e: u128) -> int
    decreases q.len(),
{
    if q.len() == 0 || q[0].1 >= e {
        0
    } else {
        1 + insert_position(q.skip(1), e)
    }
}

/// A map with an expiry queue. Each insertion queues its key with its
/// expiry time; once that time has passed, the key is removed, whatever was
/// stored under it since.
pub struct ExpireMap<V> {
    base: Vec<(String, V)>,
    expire_time: Vec<(String, u128)>,
}

impl<V> ExpireMap<V> {
    /// The stored values by key.
    pub closed spec fn map(&self) -> Map<Seq<char>, V> {
        entries_map(self.base@)
    }

    /// The queued keys with their expiry times.
    pub closed spec fn queue(&self) -> Seq<(String, u128)> {
        self.expire_time@
    }

    /// The invariant: no key stored twice, and the queue ordered by expiry.
    pub closed spec fn wf(&self) -> bool {
        keys_distinct(self.base@) && sorted_by_expiry(self.expire_time@)
    }

    /// An empty map.
    pub fn new() -> (r: Self)
        ensures
            r.wf(),
            r.map() == Map::<Seq<char>, V>::empty(),
            r.queue().len() == 0,
    {
        let r = ExpireMap { base: Vec::new(), expire_time: Vec::new() };
        assert(r.map() =~= Map::<Seq<char>, V>::empty());
        r
    }

    /// Drops the keys whose expiry time is at or before `now`.
    pub fn remove_expired_items_at(&mut self, now: u128)
        requires
            old(self).wf(),
        ensures
            final(self).wf(),
            final(self).map() == drop_expired(old(self).map(), old(self).queue(), now),
            final(self).queue() == old(self).queue().skip(expired_prefix(old(self).queue(), now)),
    {
        let ghost q0 = self.expire_time@;
        let ghost m0 = self.map();
        while self.expire_time.len() > 0 && self.expire_time[0].1 <= now
            invariant
                keys_distinct(self.base@),
                sorted_by_expiry(self.expire_time@),
                drop_expired(self.map(), self.expire_time@, now) == drop_expired(m0, q0, now),
                q0.skip(expired_prefix(q0, now)) == self.expire_time@.skip(expired_prefix(self.expire_time@, now)),
            decreases self.expire_time@.len(),
        {
            let ghost q = self.expire_time@;
            let (k, _) = self.expire_time.remove(0);
            let _ = take_key(&mut self.base, k.as_str());
            proof {
                assert(self.expire_time@ =~= q.skip(1));
                assert forall|i: int, j: int| 0 <= i <= j < self.expire_time@.len() implies (#[trigger] self.expire_time@[i]).1 <= (#[trigger] self.expire_time@[j]).1 by {
                    assert(self.expire_time@[i] == q[i + 1] && self.expire_time@[j] == q[j + 1]);
                }
                lemma_expired_prefix_bounds(q.skip(1), now);
                assert(expired_prefix(q, now) == 1 + expired_prefix(q.skip(1), now));
                assert(q.skip(1).skip(expired_prefix(q.skip(1), now)) =~= q.skip(expired_prefix(q, now)));
            }
        }
        proof {
            assert(self.expire_time@.skip(0) =~= self.expire_time@);
        }
    }

    /// Stores `v` under `k` until `millis` milliseconds after `now`; returns
    /// the value stored under `k` before.
    pub fn insert_at(&mut self, k: String, v: V, millis: u128, now: u128) -> (r: Option<V>)
        requires
            old(self).wf(),
            millis + now <= u128::MAX,
        ensures
            final(self).wf(),
            final(self).map() == old(self).map().insert(k@, v),
            final(self).queue().len() == old(self).queue().len() + 1,
            ({
                let p = insert_position(old(self).queue(), (millis + now) as u128);
                &&& 0 <= p <= old(self).queue().len()
                &&& final(self).queue()[p].0@ == k@
                &&& final(self).queue()[p].1 == millis + now
                &&& final(self).queue().take(p) == old(self).queue().take(p)
                &&& final(self).queue().skip(p + 1) == old(self).queue().skip(p)
            }),
            r == (if old(self).map().contains_key(k@) {
                Some(old(self).map()[k@])
            } else {
                None
            }),
    {
        let expire: u128 = millis + now;
        let ghost q = self.expire_time@;
        let mut idx: usize = 0;
        assert(q.skip(0) =~= q);
        while idx < self.expire_time.len() && self.expire_time[idx].1 < expire
            invariant
                q == self.expire_time@,
                idx <= q.len(),
                insert_position(q, expire) == idx + insert_position(q.skip(idx as int), expire),
            decreases q.len() - idx,
        {
            proof {
                assert(q.skip(idx as int).skip(1) =~= q.skip(idx + 1));
            }
            idx = idx + 1;
        }
        proof {
            assert(insert_position(q.skip(idx as int), expire) == 0);
        }
        let key2 = k.clone();
        self.expire_time.insert(idx, (key2, expire));
        proof {
            let nq = self.expire_time@;
            assert forall|i: int, j: int| 0 <= i <= j < nq.len() implies (#[trigger] nq[i]).1 <= (#[trigger] nq[j]).1 by {
                lemma_insert_position_bounds(q, expire, idx as int);
                if i < idx && j > idx {
                    assert(nq[i] == q[i] && nq[j] == q[j - 1]);
                } else if i < idx && j == idx {
                    assert(nq[i] == q[i]);
                } else if i == idx && j > idx {
                    assert(nq[j] == q[j - 1]);
                } else if i > idx {
                    assert(nq[i] == q[i - 1] && nq[j] == q[j - 1]);
                } else if j < idx {
                    assert(nq[i] == q[i] && nq[j] == q[j]);
                }
            }
            assert(nq.take(idx as int) =~= q.take(idx as int));
            assert(nq.skip(idx + 1) =~= q.skip(idx as int));
        }
        put_key(&mut self.base, k, v)
    }

    /// Removes `k` after dropping the expired keys at `now`; returns its
    /// value, if it was still stored.
    pub fn remove_at(&mut self, k: &str, now: u128) -> (r: Option<V>)
        requires
            old(self).wf(),
        ensures
            final(self).wf(),
            ({
                let m = drop_expired(old(self).map(), old(self).queue(), now);
                &&& final(self).map() == m.remove(k@)
                &&& r == (if m.contains_key(k@) { Some(m[k@]) } else { None })
            }),
            final(self).queue() == old(self).queue().skip(expired_prefix(old(self).queue(), now)),
    {
        self.remove_expired_items_at(now);
        take_key(&mut self.base, k)
    }

    /// The value stored under `k`, after dropping the expired keys at `now`.
    pub fn get_at(&mut self, k: &str, now: u128) -> (r: Option<&V>)
        requires
            old(self).wf(),
        ensures
            final(self).wf(),
            final(self).map() == drop_expired(old(self).map(), old(self).queue(), now),
            final(self).queue() == old(self).queue().skip(expired_prefix(old(self).queue(), now)),
            ({
                let m = drop_expired(old(self).map(), old(self).queue(), now);
                match r {
                    Some(v) => m.contains_key(k@) && *v == m[k@],
                    None => !m.contains_key(k@),
                }
            }),
    {
        self.remove_expired_items_at(now);
        match find_key(&self.base, k) {
            Some(i) => {
                proof {
                    crate::keyed::lemma_index_of_key(self.base@, i as int);
                }
                Some(&self.base[i].1)
            },
            None => None,
        }
    }

    /// The number of keys stored after dropping the expired keys at `now`.
    pub fn len_at(&mut self, now: u128) -> (r: usize)
        requires
            old(self).wf(),
        ensures
            final(self).wf(),
            final(self).map() == drop_expired(old(self).map(), old(self).queue(), now),
            final(self).queue() == old(self).queue().skip(expired_prefix(old(self).queue(), now)),
            r == final(self).map().dom().len(),
    {
        self.remove_expired_items_at(now);
        proof {
            lemma_entries_map_len(self.base@);
        }
        self.base.len()
    }

    /// Drops the keys that have expired by now.
    pub fn remove_expired_items(&mut self)
        requires
            old(self).wf(),
        ensures
            final(self).wf(),
            exists|now: u128| final(self).map() == #[trigger] drop_expired(old(self).map(), old(self).queue(), now),
    {
        let now = now_millis();
        self.remove_expired_items_at(now);
    }

    /// Stores `v` under `k` for `millis` milliseconds from now.
    pub fn insert(&mut self, k: String, v: V, millis: u128) -> (r: Option<V>)
        requires
            old(self).wf(),
            millis <= u128::MAX - 0x1000_0000_0000_0000,
        ensures
            final(self).wf(),
            final(self).map() == old(self).map().insert(k@, v),
            r == (if old(self).map().contains_key(k@) {
                Some(old(self).map()[k@])
            } else {
                None
            }),
    {
        let now = now_millis();
        self.insert_at(k, v, millis, now)
    }

    /// Removes `k` after dropping the keys that have expired by now.
    pub fn remove(&mut self, k: &str) -> (r: Option<V>)
        requires
            old(self).wf(),
        ensures
            final(self).wf(),
            !final(self).map().contains_key(k@),
            exists|now: u128| #![trigger drop_expired(old(self).map(), old(self).queue(), now)] {
                let m = drop_expired(old(self).map(), old(self).queue(), now);
                &&& final(self).map() == m.remove(k@)
                &&& r == (if m.contains_key(k@) { Some(m[k@]) } else { None })
            },
    {
        let now = now_millis();
        self.remove_at(k, now)
    }

    /// The value stored under `k`, after dropping the keys that have expired
    /// by now.
    pub fn get(&mut self, k: &str) -> (r: Option<&V>)
        requires
            old(self).wf(),
        ensures
            final(self).wf(),
            exists|now: u128| #![trigger drop_expired(old(self).map(), old(self).queue(), now)] {
                let m = drop_expired(old(self).map(), old(self).queue(), now);
                &&& final(self).map() == m
                &&& match r {
                    Some(v) => m.contains_key(k@) && *v == m[k@],
                    None => !m.contains_key(k@),
                }
            },
    {
        let now = now_millis();
        self.get_at(k, now)
    }

    /// The number of keys stored after dropping the keys that have expired by
    /// now.
    pub fn len(&mut self) -> (r: usize)
        requires
            old(self).wf(),
        ensures
            final(self).wf(),
            r == final(self).map().dom().len(),
            exists|now: u128| final(self).map() == #[trigger] drop_expired(old(self).map(), old(self).queue(), now),
    {
        let now = now_millis();
        self.len_at(now)
    }
}

/// A value is read back, as stored, at any time `t` before its expiry,
/// as long as no queued key has expired by `t`: `after` is `before` after
/// `insert_at(k, v, millis, now)`, and the queue of `before` expires only
/// after `t`.
pub proof fn lemma_read_back_before_expiry<V>(before: ExpireMap<V>, after: ExpireMap<V>, k: Seq<char>, v: V, millis: u128, now: u128, t: u128)
    requires
        before.wf(),
        after.wf(),
        after.map() == before.map().insert(k, v),
        after.queue().len() == before.queue().len() + 1,
        ({
            let p = insert_position(before.queue(), (millis + now) as u128);
            &&& 0 <= p <= before.queue().len()
            &&& after.queue()[p].1 == millis + now
            &&& after.queue().take(p) == before.queue().take(p)
            &&& after.queue().skip(p + 1) == before.queue().skip(p)
        }),
        t < millis + now,
        before.queue().len() == 0 || before.queue()[0].1 > t,
    ensures
        drop_expired(after.map(), after.queue(), t) == after.map(),
        drop_expired(after.map(), after.queue(), t).contains_key(k),
        drop_expired(after.map(), after.queue(), t)[k] == v,
{
    let q = before.queue();
    let nq = after.queue();
    let p = insert_position(q, (millis + now) as u128);
    if p == 0 {
        assert(nq[0].1 == millis + now);
    } else {
        assert(nq.take(p)[0] == q.take(p)[0]);
        assert(nq[0] == q[0]);
    }
}

/// Dropping expired keys never adds a key.
proof fn lemma_drop_expired_shrinks<V>(m: Map<Seq<char>, V>, q: Seq<(String, u128)>, t: u128, key: Seq<char>)
    ensures
        drop_expired(m, q, t).contains_key(key) ==> m.contains_key(key),
    decreases q.len(),
{
    if q.len() > 0 && q[0].1 <= t {
        lemma_drop_expired_shrinks(m.remove(q[0].0@), q.skip(1), t, key);
    }
}

/// In a queue ordered by expiry, the key of every entry that has expired by
/// `t` is dropped.
proof fn lemma_drop_expired_removes<V>(m: Map<Seq<char>, V>, q: Seq<(String, u128)>, t: u128, p: int)
    requires
        sorted_by_expiry(q),
        0 <= p < q.len(),
        q[p].1 <= t,
    ensures
        !drop_expired(m, q, t).contains_key(q[p].0@),
    decreases q.len(),
{
    assert(q[0].1 <= q[p].1);
    if p == 0 {
        lemma_drop_expired_shrinks(m.remove(q[0].0@), q.skip(1), t, q[0].0@);
    } else {
        let r = q.skip(1);
        assert(r[p - 1] == q[p]);
        assert forall|i: int, j: int| 0 <= i <= j < r.len() implies (#[trigger] r[i]).1 <= (#[trigger] r[j]).1 by {
            assert(r[i] == q[i + 1] && r[j] == q[j + 1]);
        }
        lemma_drop_expired_removes(m.remove(q[0].0@), r, t, p - 1);
    }
}

/// What a removal at `t` finds of a value inserted before: `after` is
/// `before` after `insert_at(k, v, millis, now)`. Before the value's expiry
/// (and while no key queued earlier has expired), the key is still stored
/// with `v`, so a removal at `t` gives back `v`; from its expiry on, the key
/// is gone, so a removal gives nothing.
pub proof fn lemma_insert_then_remove<V>(before: ExpireMap<V>, after: ExpireMap<V>, k: Seq<char>, v: V, millis: u128, now: u128, t: u128)
    requires
        before.wf(),
        after.wf(),
        after.map() == before.map().insert(k, v),
        after.queue().len() == before.queue().len() + 1,
        ({
            let p = insert_position(before.queue(), (millis + now) as u128);
            &&& 0 <= p <= before.queue().len()
            &&& after.queue()[p].0@ == k
            &&& after.queue()[p].1 == millis + now
            &&& after.queue().take(p) == before.queue().take(p)
            &&& after.queue().skip(p + 1) == before.queue().skip(p)
        }),
    ensures
        t < millis + now && (before.queue().len() == 0 || before.queue()[0].1 > t) ==> {
            &&& drop_expired(after.map(), after.queue(), t).contains_key(k)
            &&& drop_expired(after.map(), after.queue(), t)[k] == v
        },
        millis + now <= t ==> !drop_expired(after.map(), after.queue(), t).contains_key(k),
{
    if t < millis + now && (before.queue().len() == 0 || before.queue()[0].1 > t) {
        lemma_read_back_before_expiry(before, after, k, v, millis, now, t);
    }
    if millis + now <= t {
        let p = insert_position(before.queue(), (millis + now) as u128);
        lemma_drop_expired_removes(after.map(), after.queue(), t, p);
    }
}

/// The current time as an unsigned number of milliseconds; a clock set
/// before 1970 reads as 0.
fn now_millis() -> (r: u128)
    ensures
        r <= 0x1000_0000_0000_0000,
{
    let t = now_ms();
    if t < 0 {
        0
    } else {
        t as u128
    }
}

/// The expired prefix lies within the queue.
proof fn lemma_expired_prefix_bounds(q: Seq<(String, u128)>, now: u128)
    ensures
        0 <= expired_prefix(q, now) <= q.len(),
    decreases q.len(),
{
    if q.len() > 0 && q[0].1 <= now {
        lemma_expired_prefix_bounds(q.skip(1), now);
    }
}

/// The insertion position lies within the queue, after the entries that
/// expire earlier and before the others.
proof fn lemma_insert_position_bounds(q: Seq<(String, u128)>, e: u128, p: int)
    requires
        p == insert_position(q, e),
        sorted_by_expiry(q),
    ensures
        0 <= p <= q.len(),
        forall|i: int| 0 <= i < p ==> (#[trigger] q[i]).1 < e,
        forall|i: int| p <= i < q.len() ==> (#[trigger] q[i]).1 >= e,
    decreases q.len(),
{
    if q.len() == 0 || q[0].1 >= e {
    } else {
        let t = q.skip(1);
        assert forall|i: int, j: int| 0 <= i <= j < t.len() implies (#[trigger] t[i]).1 <= (#[trigger] t[j]).1 by {
            assert(t[i] == q[i + 1] && t[j] == q[j + 1]);
        }
        lemma_insert_position_bounds(t, e, p - 1);
        assert forall|i: int| 0 <= i < p implies (#[trigger] q[i]).1 < e by {
            if i > 0 {
                assert(q[i] == t[i - 1]);
            }
        }
        assert forall|i: int| p <= i < q.len() implies (#[trigger] q[i]).1 >= e by {
            assert(q[i] == t[i - 1]);
        }
    }
}

} // verus!
