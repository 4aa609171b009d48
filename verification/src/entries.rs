//! Keyed entries: a vector of `(key, value)` pairs with distinct keys, standing
//! for a string-keyed map.

use vstd::prelude::*;

verus! {

/// No two entries share a key.
pub open spec fn keys_distinct<T>(s: Seq<(String, T)>) -> bool {
    forall|i: int, j: int| 0 <= i < j < s.len() ==> s[i].0@ != s[j].0@
}

/// Some entry has the key `k`.
pub open spec fn has_key<T>(s: Seq<(String, T)>, k: Seq<char>) -> bool {
    exists|i: int| 0 <= i < s.len() && s[i].0@ == k
}

/// The map the entries stand for.
pub open spec fn entries_map<T>(s: Seq<(String, T)>) -> Map<Seq<char>, T>
    decreases s.len(),
{
    if s.len() == 0 {
        Map::empty()
    } else {
        entries_map(s.drop_last()).insert(s.last().0@, s.last().1)
    }
}

pub proof fn lemma_entries_map_domain<T>(s: Seq<(String, T)>, k: Seq<char>)
    ensures
        entries_map(s).dom().contains(k) <==> has_key(s, k),
    decreases s.len(),
{
    if s.len() > 0 {
        lemma_entries_map_domain(s.drop_last(), k);
        if has_key(s, k) {
            let i = choose|i: int| 0 <= i < s.len() && s[i].0@ == k;
            if i < s.len() - 1 {
                assert(s.drop_last()[i] == s[i]);
            }
        }
        if has_key(s.drop_last(), k) {
            let i = choose|i: int| 0 <= i < s.drop_last().len() && s.drop_last()[i].0@ == k;
            assert(s[i] == s.drop_last()[i]);
        }
    }
}

pub proof fn lemma_entries_map_at<T>(s: Seq<(String, T)>, j: int)
    requires
        keys_distinct(s),
        0 <= j < s.len(),
    ensures
        entries_map(s).dom().contains(s[j].0@),
        entries_map(s)[s[j].0@] == s[j].1,
    decreases s.len(),
{
    if j < s.len() - 1 {
        lemma_entries_map_at(s.drop_last(), j);
        assert(s.drop_last()[j] == s[j]);
    }
}

proof fn lemma_entries_map_update<T>(s: Seq<(String, T)>, j: int, e: (String, T))
    requires
        keys_distinct(s),
        0 <= j < s.len(),
        e.0@ == s[j].0@,
    ensures
        entries_map(s.update(j, e)) == entries_map(s).insert(e.0@, e.1),
    decreases s.len(),
{
    let u = s.update(j, e);
    if j == s.len() - 1 {
        assert(u.drop_last() =~= s.drop_last());
        assert(entries_map(s).insert(e.0@, e.1) =~= entries_map(s.drop_last()).insert(e.0@, e.1));
    } else {
        lemma_entries_map_update(s.drop_last(), j, e);
        assert(u.drop_last() =~= s.drop_last().update(j, e));
        assert(s.last().0@ != e.0@);
        assert(entries_map(u) =~= entries_map(s).insert(e.0@, e.1));
    }
}

/// The position of the entry with key `key`, if any.
pub fn find_key<T>(entries: &Vec<(String, T)>, key: &String) -> (res: Option<usize>)
    ensures
        res matches Some(j) ==> j < entries@.len() && entries@[j as int].0@ == key@,
        res is None ==> !has_key(entries@, key@),
{
    let mut i: usize = 0;
    while i < entries.len()
        invariant
            i <= entries@.len(),
            forall|k: int| 0 <= k < i ==> entries@[k].0@ != key@,
        decreases entries@.len() - i,
    {
        if entries[i].0 == *key {
            return Some(i);
        }
        i = i + 1;
    }
    None
}

/// Sets the value of `key`: replaces the entry that has it, or appends one.
pub fn insert_entry<T>(entries: &mut Vec<(String, T)>, key: String, value: T)
    requires
        keys_distinct(old(entries)@),
    ensures
        keys_distinct(final(entries)@),
        has_key(old(entries)@, key@) ==> exists|j: int|
            0 <= j < old(entries)@.len() && old(entries)@[j].0@ == key@ && final(entries)@ == old(
                entries,
            )@.update(j, (key, value)),
        !has_key(old(entries)@, key@) ==> final(entries)@ == old(entries)@.push((key, value)),
        entries_map(final(entries)@) == entries_map(old(entries)@).insert(key@, value),
{
    match find_key(entries, &key) {
        Some(j) => {
            let ghost k = key;
            let ghost v = value;
            entries.set(j, (key, value));
            proof {
                lemma_entries_map_update(old(entries)@, j as int, (k, v));
            }
        },
        None => {
            let ghost e = (key, value);
            entries.push((key, value));
            assert(entries@.drop_last() =~= old(entries)@);
            assert forall|i: int, j: int| 0 <= i < j < entries@.len() implies entries@[i].0@
                != entries@[j].0@ by {
                if j == entries@.len() - 1 {
                    assert(entries@[i] == old(entries)@[i]);
                }
            }
        },
    }
}

} // verus!
