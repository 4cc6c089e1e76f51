//! Small maps from text keys to values, held as lists of entries in which no
//! key occurs twice.
use vstd::prelude::*;

use crate::text::{chars_of, seq_eq};

verus! {

/// No key occurs twice.
pub open spec fn keys_distinct<V>(s: Seq<(String, V)>) -> bool {
    forall|i: int, j: int| 0 <= i < s.len() && 0 <= j < s.len() && i != j ==> #[trigger] s[i].0@ != #[trigger] s[j].0@
}

/// The index of the entry with key `k`.
pub open spec fn index_of_key<V>(s: Seq<(String, V)>, k: Seq<char>) -> Option<int> {
    if exists|i: int| 0 <= i < s.len() && #[trigger] s[i].0@ == k {
        Some(choose|i: int| 0 <= i < s.len() && #[trigger] s[i].0@ == k)
    } else {
        None
    }
}

/// The entries as a map from key to value.
pub open spec fn entries_map<V>(s: Seq<(String, V)>) -> Map<Seq<char>, V> {
    Map::new(|k: Seq<char>| index_of_key(s, k) is Some, |k: Seq<char>| s[index_of_key(s, k)->0].1)
}

/// In a list without repeated keys, the entry at `i` is the one found for
/// its key.
pub proof fn lemma_index_of_key<V>(s: Seq<(String, V)>, i: int)
    requires
        keys_distinct(s),
        0 <= i < s.len(),
    ensures
        index_of_key(s, s[i].0@) == Some(i),
{
    let k = s[i].0@;
    let c = choose|j: int| 0 <= j < s.len() && #[trigger] s[j].0@ == k;
    assert(s[c].0@ == k);
}

/// The map has one entry per list entry.
pub proof fn lemma_entries_map_len<V>(s: Seq<(String, V)>)
    requires
        keys_distinct(s),
    ensures
        entries_map(s).dom().finite(),
        entries_map(s).dom().len() == s.len(),
    decreases s.len(),
{
    if s.len() == 0 {
        assert(entries_map(s).dom() =~= Set::<Seq<char>>::empty());
    } else {
        let t = s.drop_last();
        let k = s.last().0@;
        lemma_entries_map_len(t);
        assert forall|x: Seq<char>| #[trigger] entries_map(s).dom().contains(x) <==> entries_map(t).dom().insert(k).contains(x) by {
            if index_of_key(t, x) is Some {
                let w = index_of_key(t, x)->0;
                assert(s[w].0@ == x);
            }
            if index_of_key(s, x) is Some && x != k {
                let w = index_of_key(s, x)->0;
                assert(w != s.len() - 1);
                assert(t[w].0@ == x);
            }
            if x == k {
                assert(s[s.len() - 1].0@ == k);
            }
        }
        assert(entries_map(s).dom() =~= entries_map(t).dom().insert(k));
        if entries_map(t).dom().contains(k) {
            let w = index_of_key(t, k)->0;
            assert(s[w].0@ == k && w != s.len() - 1);
        }
    }
}

/// Finds the entry with key `key`.
pub fn find_key<V>(s: &Vec<(String, V)>, key: &str) -> (r: Option<usize>)
    requires
        keys_distinct(s@),
    ensures
        match r {
            Some(i) => i < s@.len() && s@[i as int].0@ == key@ && index_of_key(s@, key@) == Some(i as int),
            None => index_of_key(s@, key@) is None,
        },
{
    let kc = chars_of(key);
    let mut i: usize = 0;
    while i < s.len()
        invariant
            i <= s@.len(),
            kc@ == key@,
            keys_distinct(s@),
            forall|j: int| 0 <= j < i ==> #[trigger] s@[j].0@ != key@,
        decreases s.len() - i,
    {
        let ec = chars_of(s[i].0.as_str());
        if seq_eq(ec.as_slice(), kc.as_slice()) {
            proof {
                lemma_index_of_key(s@, i as int);
            }
            return Some(i);
        }
        i = i + 1;
    }
    None
}

/// Stores `value` under `key`, replacing the entry with that key; returns
/// the value it replaces.
pub fn put_key<V>(s: &mut Vec<(String, V)>, key: String, value: V) -> (r: Option<V>)
    requires
        keys_distinct(old(s)@),
    ensures
        keys_distinct(final(s)@),
        entries_map(final(s)@) == entries_map(old(s)@).insert(key@, value),
        r == (if entries_map(old(s)@).contains_key(key@) {
            Some(entries_map(old(s)@)[key@])
        } else {
            None
        }),
{
    let ghost old_s = s@;
    match find_key(s, key.as_str()) {
        Some(i) => {
            let ghost k2 = key@;
            let (_, prev) = s.remove(i);
            s.insert(i, (key, value));
            proof {
                assert(s@ =~= old_s.update(i as int, s@[i as int]));
                assert forall|a: int, b: int| 0 <= a < s@.len() && 0 <= b < s@.len() && a != b implies #[trigger] s@[a].0@ != #[trigger] s@[b].0@ by {
                    if a != i && b != i {
                        assert(s@[a] == old_s[a] && s@[b] == old_s[b]);
                    } else if a == i {
                        assert(s@[b] == old_s[b] && old_s[i as int].0@ == k2);
                    } else {
                        assert(s@[a] == old_s[a] && old_s[i as int].0@ == k2);
                    }
                }
                lemma_put_map(old_s, s@, i as int, k2, value);
            }
            Some(prev)
        },
        None => {
            let ghost k2 = key@;
            s.push((key, value));
            proof {
                let n = old_s.len() as int;
                assert forall|a: int, b: int| 0 <= a < s@.len() && 0 <= b < s@.len() && a != b implies #[trigger] s@[a].0@ != #[trigger] s@[b].0@ by {
                    if a < n && b < n {
                        assert(s@[a] == old_s[a] && s@[b] == old_s[b]);
                    } else if a == n {
                        assert(s@[b] == old_s[b]);
                        assert(old_s[b].0@ != k2);
                    } else {
                        assert(s@[a] == old_s[a]);
                        assert(old_s[a].0@ != k2);
                    }
                }
                lemma_push_map(old_s, s@, k2, value);
            }
            None
        },
    }
}

/// Removes the entry with key `key`; returns its value.
pub fn take_key<V>(s: &mut Vec<(String, V)>, key: &str) -> (r: Option<V>)
    requires
        keys_distinct(old(s)@),
    ensures
        keys_distinct(final(s)@),
        entries_map(final(s)@) == entries_map(old(s)@).remove(key@),
        r == (if entries_map(old(s)@).contains_key(key@) {
            Some(entries_map(old(s)@)[key@])
        } else {
            None
        }),
{
    let ghost old_s = s@;
    match find_key(s, key) {
        Some(i) => {
            let (_, v) = s.remove(i);
            proof {
                assert forall|a: int, b: int| 0 <= a < s@.len() && 0 <= b < s@.len() && a != b implies #[trigger] s@[a].0@ != #[trigger] s@[b].0@ by {
                    let a2 = if a < i { a } else { a + 1 };
                    let b2 = if b < i { b } else { b + 1 };
                    assert(s@[a] == old_s[a2]);
                    assert(s@[b] == old_s[b2]);
                }
                lemma_remove_map(old_s, s@, i as int, key@);
            }
            Some(v)
        },
        None => {
            assert(entries_map(s@) =~= entries_map(old_s).remove(key@));
            None
        },
    }
}

proof fn lemma_put_map<V>(old_s: Seq<(String, V)>, new_s: Seq<(String, V)>, i: int, k: Seq<char>, v: V)
    requires
        keys_distinct(old_s),
        keys_distinct(new_s),
        0 <= i < old_s.len(),
        old_s[i].0@ == k,
        new_s.len() == old_s.len(),
        new_s[i].0@ == k,
        new_s[i].1 == v,
        forall|j: int| 0 <= j < old_s.len() && j != i ==> new_s[j] == old_s[j],
    ensures
        entries_map(new_s) == entries_map(old_s).insert(k, v),
{
    assert forall|x: Seq<char>| #[trigger] entries_map(new_s).contains_key(x) <==> entries_map(old_s).insert(k, v).contains_key(x) by {
        if index_of_key(old_s, x) is Some {
            let w = index_of_key(old_s, x)->0;
            assert(new_s[w].0@ == x);
        }
        if index_of_key(new_s, x) is Some {
            let w = index_of_key(new_s, x)->0;
            assert(old_s[w].0@ == x);
        }
        if x == k {
            assert(new_s[i].0@ == k);
        }
    }
    assert forall|x: Seq<char>| #[trigger] entries_map(new_s).contains_key(x) implies entries_map(new_s)[x] == entries_map(old_s).insert(k, v)[x] by {
        if x == k {
            lemma_index_of_key(new_s, i);
        } else {
            let w = index_of_key(new_s, x)->0;
            lemma_index_of_key(new_s, w);
            assert(old_s[w].0@ == x);
            lemma_index_of_key(old_s, w);
        }
    }
    assert(entries_map(new_s) =~= entries_map(old_s).insert(k, v));
}

proof fn lemma_push_map<V>(old_s: Seq<(String, V)>, new_s: Seq<(String, V)>, k: Seq<char>, v: V)
    requires
        keys_distinct(old_s),
        keys_distinct(new_s),
        index_of_key(old_s, k) is None,
        new_s.len() == old_s.len() + 1,
        new_s[old_s.len() as int].0@ == k,
        new_s[old_s.len() as int].1 == v,
        forall|j: int| 0 <= j < old_s.len() ==> new_s[j] == old_s[j],
    ensures
        entries_map(new_s) == entries_map(old_s).insert(k, v),
{
    let n = old_s.len() as int;
    assert forall|x: Seq<char>| #[trigger] entries_map(new_s).contains_key(x) <==> entries_map(old_s).insert(k, v).contains_key(x) by {
        if index_of_key(old_s, x) is Some {
            let w = index_of_key(old_s, x)->0;
            assert(new_s[w].0@ == x);
        }
        if index_of_key(new_s, x) is Some && x != k {
            let w = index_of_key(new_s, x)->0;
            assert(w != n);
            assert(old_s[w].0@ == x);
        }
        if x == k {
            assert(new_s[n].0@ == k);
        }
    }
    assert forall|x: Seq<char>| #[trigger] entries_map(new_s).contains_key(x) implies entries_map(new_s)[x] == entries_map(old_s).insert(k, v)[x] by {
        if x == k {
            lemma_index_of_key(new_s, n);
        } else {
            let w = index_of_key(new_s, x)->0;
            lemma_index_of_key(new_s, w);
            assert(w != n);
            assert(old_s[w].0@ == x);
            lemma_index_of_key(old_s, w);
        }
    }
    assert(entries_map(new_s) =~= entries_map(old_s).insert(k, v));
}

proof fn lemma_remove_map<V>(old_s: Seq<(String, V)>, new_s: Seq<(String, V)>, i: int, k: Seq<char>)
    requires
        keys_distinct(old_s),
        keys_distinct(new_s),
        0 <= i < old_s.len(),
        old_s[i].0@ == k,
        new_s == old_s.remove(i),
    ensures
        entries_map(new_s) == entries_map(old_s).remove(k),
{
    assert forall|x: Seq<char>| #[trigger] entries_map(new_s).contains_key(x) <==> entries_map(old_s).remove(k).contains_key(x) by {
        if index_of_key(old_s, x) is Some && x != k {
            let w = index_of_key(old_s, x)->0;
            assert(w != i);
            let w2 = if w < i { w } else { w - 1 };
            assert(new_s[w2] == old_s[w]);
        }
        if index_of_key(new_s, x) is Some {
            let w = index_of_key(new_s, x)->0;
            let w2 = if w < i { w } else { w + 1 };
            assert(new_s[w] == old_s[w2]);
            assert(w2 != i);
        }
    }
    assert forall|x: Seq<char>| #[trigger] entries_map(new_s).contains_key(x) implies entries_map(new_s)[x] == entries_map(old_s).remove(k)[x] by {
        let w = index_of_key(new_s, x)->0;
        lemma_index_of_key(new_s, w);
        let w2 = if w < i { w } else { w + 1 };
        assert(new_s[w] == old_s[w2]);
        lemma_index_of_key(old_s, w2);
    }
    assert(entries_map(new_s) =~= entries_map(old_s).remove(k));
}

} // verus!
