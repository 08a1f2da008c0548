//! Ordered association vectors keyed by a 64-bit id.
//!
//! The compositor state keeps workspaces and windows in id-keyed ordered maps.
//! Here they are vectors sorted strictly by key, viewed in specifications as a
//! `Map<u64, T>` built by inserting the elements left to right.

use vstd::prelude::*;

verus! {

/// An entity owning a stable 64-bit key.
pub trait Keyed: Sized {
    spec fn key(&self) -> u64;

    fn get_key(&self) -> (k: u64)
        ensures
            k == self.key(),
    ;
}

/// The map an association sequence denotes: later entries win.
pub open spec fn map_of<T: Keyed>(s: Seq<T>) -> Map<u64, T>
    decreases s.len(),
{
    if s.len() == 0 {
        Map::empty()
    } else {
        map_of(s.drop_last()).insert(s.last().key(), s.last())
    }
}

/// No two entries share a key.
pub open spec fn unique_keys<T: Keyed>(s: Seq<T>) -> bool {
    forall|i: int, j: int|
        0 <= i < j < s.len() ==> (#[trigger] s[i].key()) != (#[trigger] s[j].key())
}

/// Strictly ascending keys.
pub open spec fn sorted_keys<T: Keyed>(s: Seq<T>) -> bool {
    forall|i: int, j: int|
        0 <= i < j < s.len() ==> (#[trigger] s[i].key()) < (#[trigger] s[j].key())
}

pub proof fn lemma_sorted_unique<T: Keyed>(s: Seq<T>)
    requires
        sorted_keys(s),
    ensures
        unique_keys(s),
{
}

/// What `map_of` holds: each entry is present under its key, and every key in
/// the map comes from an entry.
pub proof fn lemma_map_of<T: Keyed>(s: Seq<T>)
    requires
        unique_keys(s),
    ensures
        forall|i: int|
            0 <= i < s.len() ==> map_of(s).contains_key(#[trigger] s[i].key()) && map_of(
                s,
            )[s[i].key()] == s[i],
        forall|k: u64| #[trigger]
            map_of(s).contains_key(k) ==> exists|i: int| 0 <= i < s.len() && s[i].key() == k,
    decreases s.len(),
{
    if s.len() > 0 {
        let front = s.drop_last();
        assert(unique_keys(front)) by {
            assert(forall|i: int|
                0 <= i < front.len() ==> front[i] == s[i]);
        }
        lemma_map_of(front);
        assert forall|i: int| 0 <= i < s.len() implies map_of(s).contains_key(
            #[trigger] s[i].key(),
        ) && map_of(s)[s[i].key()] == s[i] by {
            if i < s.len() - 1 {
                assert(front[i] == s[i]);
                assert(s[i].key() != s.last().key());
            }
        }
        assert forall|k: u64| #[trigger] map_of(s).contains_key(k) implies exists|i: int|
            0 <= i < s.len() && s[i].key() == k by {
            if k == s.last().key() {
                assert(s[s.len() - 1].key() == k);
            } else {
                assert(map_of(front).contains_key(k));
                let i = choose|i: int| 0 <= i < front.len() && front[i].key() == k;
                assert(s[i] == front[i]);
            }
        }
    }
}

/// Pushing a fresh entry inserts it into the map.
pub proof fn lemma_map_of_push<T: Keyed>(s: Seq<T>, x: T)
    ensures
        map_of(s.push(x)) == map_of(s).insert(x.key(), x),
{
    assert(s.push(x).drop_last() =~= s);
    assert(s.push(x).last() == x);
}

/// Replacing the entry at `i` by one with the same key updates the map at that key.
pub proof fn lemma_map_of_update<T: Keyed>(s: Seq<T>, i: int, x: T)
    requires
        unique_keys(s),
        0 <= i < s.len(),
        x.key() == s[i].key(),
    ensures
        map_of(s.update(i, x)) =~= map_of(s).insert(x.key(), x),
        unique_keys(s.update(i, x)),
    decreases s.len(),
{
    let s2 = s.update(i, x);
    assert(unique_keys(s2)) by {
        assert(forall|j: int| 0 <= j < s.len() && j != i ==> s2[j] == s[j]);
    }
    let front = s.drop_last();
    assert(unique_keys(front)) by {
        assert(forall|j: int| 0 <= j < front.len() ==> front[j] == s[j]);
    }
    if i == s.len() - 1 {
        assert(s2.drop_last() =~= front);
        assert(s2.last() == x);
    } else {
        lemma_map_of_update(front, i, x);
        assert(s2.drop_last() =~= front.update(i, x));
        assert(s2.last() == s.last());
        assert(s.last().key() != s[i].key());
    }
}

/// Inserting an entry with a fresh key at any position inserts it into the map.
pub proof fn lemma_map_of_insert<T: Keyed>(s: Seq<T>, i: int, x: T)
    requires
        unique_keys(s),
        0 <= i <= s.len(),
        forall|j: int| 0 <= j < s.len() ==> (#[trigger] s[j].key()) != x.key(),
    ensures
        map_of(s.insert(i, x)) =~= map_of(s).insert(x.key(), x),
        unique_keys(s.insert(i, x)),
    decreases s.len(),
{
    let s2 = s.insert(i, x);
    assert(forall|j: int| 0 <= j < i ==> s2[j] == s[j]);
    assert(s2[i] == x);
    assert(forall|j: int| i < j < s2.len() ==> s2[j] == s[j - 1]);
    assert(unique_keys(s2)) by {
        assert forall|p: int, q: int|
            0 <= p < q < s2.len() implies (#[trigger] s2[p].key()) != (#[trigger] s2[q].key()) by {
            if p != i && q != i {
                let p0 = if p < i { p } else { p - 1 };
                let q0 = if q < i { q } else { q - 1 };
                assert(s2[p] == s[p0] && s2[q] == s[q0]);
            }
        }
    }
    lemma_map_of(s);
    lemma_map_of(s2);
    assert forall|k: u64| map_of(s2).contains_key(k) implies map_of(s).insert(
        x.key(),
        x,
    ).contains_key(k) && map_of(s2)[k] == map_of(s).insert(x.key(), x)[k] by {
        let j = choose|j: int| 0 <= j < s2.len() && s2[j].key() == k;
        if j == i {
            assert(map_of(s2)[k] == x);
        } else {
            let j0 = if j < i { j } else { j - 1 };
            assert(s2[j] == s[j0]);
            assert(map_of(s)[k] == s[j0]);
        }
    }
    assert forall|k: u64| map_of(s).insert(x.key(), x).contains_key(k) implies map_of(
        s2,
    ).contains_key(k) by {
        if k == x.key() {
            assert(s2[i].key() == k);
        } else {
            let j = choose|j: int| 0 <= j < s.len() && s[j].key() == k;
            let j2 = if j < i { j } else { j + 1 };
            assert(s2[j2] == s[j]);
        }
    }
}

/// Removing the entry at `i` removes its key from the map.
pub proof fn lemma_map_of_remove<T: Keyed>(s: Seq<T>, i: int)
    requires
        unique_keys(s),
        0 <= i < s.len(),
    ensures
        map_of(s.remove(i)) =~= map_of(s).remove(s[i].key()),
        unique_keys(s.remove(i)),
    decreases s.len(),
{
    let s2 = s.remove(i);
    assert(forall|j: int| 0 <= j < i ==> s2[j] == s[j]);
    assert(forall|j: int| i <= j < s2.len() ==> s2[j] == s[j + 1]);
    assert(unique_keys(s2)) by {
        assert forall|p: int, q: int|
            0 <= p < q < s2.len() implies (#[trigger] s2[p].key()) != (#[trigger] s2[q].key()) by {
            let p0 = if p < i { p } else { p + 1 };
            let q0 = if q < i { q } else { q + 1 };
            assert(s2[p] == s[p0] && s2[q] == s[q0]);
        }
    }
    lemma_map_of(s);
    lemma_map_of(s2);
    assert forall|k: u64| map_of(s2).contains_key(k) implies map_of(s).remove(
        s[i].key(),
    ).contains_key(k) && map_of(s2)[k] == map_of(s).remove(s[i].key())[k] by {
        let j = choose|j: int| 0 <= j < s2.len() && s2[j].key() == k;
        let j0 = if j < i { j } else { j + 1 };
        assert(s2[j] == s[j0]);
        assert(map_of(s)[k] == s[j0]);
        assert(j0 != i);
    }
    assert forall|k: u64| map_of(s).remove(s[i].key()).contains_key(k) implies map_of(
        s2,
    ).contains_key(k) by {
        let j = choose|j: int| 0 <= j < s.len() && s[j].key() == k;
        assert(j != i);
        let j2 = if j < i { j } else { j - 1 };
        assert(s2[j2] == s[j]);
    }
}

/// Index of the entry with key `k`, if one is there.
pub fn find_index<T: Keyed>(v: &Vec<T>, k: u64) -> (r: Option<usize>)
    ensures
        match r {
            Some(i) => i < v@.len() && v@[i as int].key() == k,
            None => forall|j: int| 0 <= j < v@.len() ==> (#[trigger] v@[j].key()) != k,
        },
{
    let mut i: usize = 0;
    while i < v.len()
        invariant
            i <= v@.len(),
            forall|j: int| 0 <= j < i ==> (#[trigger] v@[j].key()) != k,
        decreases v@.len() - i,
    {
        if v[i].get_key() == k {
            return Some(i);
        }
        i = i + 1;
    }
    None
}

/// Inserts `x`, replacing the entry with the same key if one is there;
/// the order stays strictly ascending.
pub fn upsert<T: Keyed>(v: &mut Vec<T>, x: T)
    requires
        sorted_keys(old(v)@),
    ensures
        sorted_keys(final(v)@),
        map_of(final(v)@) == map_of(old(v)@).insert(x.key(), x),
{
    let ghost s = v@;
    proof {
        lemma_sorted_unique(s);
    }
    let k = x.get_key();
    let mut i: usize = 0;
    while i < v.len() && v[i].get_key() < k
        invariant
            v@ == s,
            i <= s.len(),
            k == x.key(),
            forall|j: int| 0 <= j < i ==> (#[trigger] s[j].key()) < k,
        decreases v@.len() - i,
    {
        i = i + 1;
    }
    if i < v.len() && v[i].get_key() == k {
        let old_entry = v.remove(i);
        v.insert(i, x);
        proof {
            assert(v@ =~= s.update(i as int, x));
            lemma_map_of_update(s, i as int, x);
        }
    } else {
        proof {
            assert forall|j: int| 0 <= j < s.len() implies (#[trigger] s[j].key()) != k by {
                if j >= i {
                    assert(s[i as int].key() <= s[j].key());
                }
            }
        }
        v.insert(i, x);
        proof {
            lemma_map_of_insert(s, i as int, x);
            assert(sorted_keys(v@)) by {
                assert forall|p: int, q: int|
                    0 <= p < q < v@.len() implies (#[trigger] v@[p].key()) < (
                #[trigger] v@[q].key()) by {
                    if p != i && q != i {
                        let p0 = if p < i { p } else { p - 1 };
                        let q0 = if q < i { q } else { q - 1 };
                        assert(v@[p] == s[p0] && v@[q] == s[q0]);
                    } else if p == i {
                        assert(v@[q] == s[q - 1]);
                        assert(s[i as int].key() <= s[q - 1].key());
                    } else {
                        assert(v@[p] == s[p]);
                    }
                }
            }
        }
    }
}

/// Removes the entry with key `k`, if one is there.
pub fn remove_key<T: Keyed>(v: &mut Vec<T>, k: u64)
    requires
        sorted_keys(old(v)@),
    ensures
        sorted_keys(final(v)@),
        map_of(final(v)@) == map_of(old(v)@).remove(k),
{
    let ghost s = v@;
    proof {
        lemma_sorted_unique(s);
    }
    match find_index(v, k) {
        Some(i) => {
            v.remove(i);
            proof {
                lemma_map_of_remove(s, i as int);
                assert(sorted_keys(v@)) by {
                    assert(forall|j: int| 0 <= j < i ==> v@[j] == s[j]);
                    assert(forall|j: int| i <= j < v@.len() ==> v@[j] == s[j + 1]);
                }
            }
        },
        None => {
            proof {
                lemma_map_of(s);
                assert(map_of(s) =~= map_of(s).remove(k));
            }
        },
    }
}

/// Rebuilds the vector from a snapshot list: the result holds exactly the
/// listed entries (later duplicates win), sorted by key.
pub fn rebuild<T: Keyed>(items: Vec<T>) -> (r: Vec<T>)
    ensures
        sorted_keys(r@),
        map_of(r@) == map_of(items@),
{
    let mut r: Vec<T> = Vec::new();
    let mut items = items;
    let ghost all = items@;
    let ghost done: int = 0;
    while items.len() > 0
        invariant
            0 <= done <= all.len(),
            items@ =~= all.subrange(done, all.len() as int),
            sorted_keys(r@),
            map_of(r@) == map_of(all.subrange(0, done)),
        decreases items@.len(),
    {
        let x = items.remove(0);
        proof {
            assert(x == all[done]);
            assert(all.subrange(0, done + 1) =~= all.subrange(0, done).push(x));
            lemma_map_of_push(all.subrange(0, done), x);
        }
        upsert(&mut r, x);
        proof {
            done = done + 1;
        }
        proof {
            assert(items@ =~= all.subrange(done, all.len() as int));
        }
    }
    proof {
        assert(all.subrange(0, done) =~= all);
    }
    r
}

} // verus!
