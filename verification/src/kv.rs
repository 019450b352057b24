//! String-keyed association lists, viewed in specifications as a
//! `Map<Seq<char>, V>`. The world document's stage, path, trigger and item
//! catalogs are all maps of this shape; keys are unique by well-formedness.

use vstd::prelude::*;
use crate::strutil::str_eq;

verus! {

/// The map an association list denotes: later entries win, though under
/// `kv_unique` every key occurs at most once.
pub open spec fn kv_map<V>(s: Seq<(String, V)>) -> Map<Seq<char>, V>
    decreases s.len(),
{
    if s.len() == 0 {
        Map::empty()
    } else {
        kv_map(s.drop_last()).insert(s.last().0@, s.last().1)
    }
}

/// No two entries share a key.
pub open spec fn kv_unique<V>(s: Seq<(String, V)>) -> bool {
    forall|i: int, j: int| 0 <= i < j < s.len() ==> (#[trigger] s[i]).0@ != (#[trigger] s[j]).0@
}

/// A key is in the map exactly when some entry carries it.
pub proof fn lemma_kv_contains<V>(s: Seq<(String, V)>, k: Seq<char>)
    ensures
        kv_map(s).contains_key(k) <==> exists|i: int| 0 <= i < s.len() && (#[trigger] s[i]).0@ == k,
    decreases s.len(),
{
    if s.len() == 0 {
    } else {
        lemma_kv_contains(s.drop_last(), k);
        if kv_map(s).contains_key(k) {
            if s.last().0@ == k {
                assert((s[s.len() - 1]).0@ == k);
            } else {
                let i = choose|i: int| 0 <= i < s.drop_last().len() && (#[trigger] s.drop_last()[i]).0@ == k;
                assert((s[i]).0@ == k);
            }
        }
        if exists|i: int| 0 <= i < s.len() && (#[trigger] s[i]).0@ == k {
            let i = choose|i: int| 0 <= i < s.len() && (#[trigger] s[i]).0@ == k;
            if i < s.len() - 1 {
                assert(s.drop_last()[i] == s[i]);
            }
        }
    }
}

/// Under unique keys, the entry carrying a key gives the map's value at it.
pub proof fn lemma_kv_index<V>(s: Seq<(String, V)>, i: int)
    requires
        kv_unique(s),
        0 <= i < s.len(),
    ensures
        kv_map(s).contains_key(s[i].0@),
        kv_map(s)[s[i].0@] == s[i].1,
    decreases s.len(),
{
    lemma_kv_contains(s, s[i].0@);
    if i == s.len() - 1 {
    } else {
        assert(kv_unique(s.drop_last()));
        assert(s.drop_last()[i] == s[i]);
        lemma_kv_index(s.drop_last(), i);
        assert(s[i].0@ != s.last().0@);
    }
}

/// Replacing the value of entry `i` (keeping its key) updates the map at
/// that key and nothing else.
pub proof fn lemma_kv_update<V>(s: Seq<(String, V)>, i: int, v: V)
    requires
        kv_unique(s),
        0 <= i < s.len(),
    ensures
        kv_unique(s.update(i, (s[i].0, v))),
        kv_map(s.update(i, (s[i].0, v))) == kv_map(s).insert(s[i].0@, v),
    decreases s.len(),
{
    let t = s.update(i, (s[i].0, v));
    assert forall|p: int, q: int| 0 <= p < q < t.len() implies (#[trigger] t[p]).0@ != (#[trigger] t[q]).0@ by {
        assert(s[p].0@ != s[q].0@);
    }
    if i == s.len() - 1 {
        assert(t.drop_last() =~= s.drop_last());
        assert(kv_map(t) =~= kv_map(s).insert(s[i].0@, v));
    } else {
        assert(t.drop_last() =~= s.drop_last().update(i, (s[i].0, v)));
        assert(kv_unique(s.drop_last())) by {
            assert forall|p: int, q: int| 0 <= p < q < s.drop_last().len()
                implies (#[trigger] s.drop_last()[p]).0@ != (#[trigger] s.drop_last()[q]).0@ by {
                assert(s[p].0@ != s[q].0@);
            }
        }
        assert(s.drop_last()[i] == s[i]);
        lemma_kv_update(s.drop_last(), i, v);
        assert(s[i].0@ != s.last().0@);
        assert(kv_map(t) =~= kv_map(s).insert(s[i].0@, v));
    }
}

/// Look a key up, yielding a reference to its value.
pub fn kv_get<'a, V>(s: &'a Vec<(String, V)>, key: &str) -> (r: Option<&'a V>)
    requires
        kv_unique(s@),
    ensures
        match r {
            Some(v) => kv_map(s@).contains_key(key@) && *v == kv_map(s@)[key@],
            None => !kv_map(s@).contains_key(key@),
        },
{
    let mut i: usize = 0;
    while i < s.len()
        invariant
            kv_unique(s@),
            0 <= i <= s@.len(),
            forall|j: int| 0 <= j < i ==> (#[trigger] s@[j]).0@ != key@,
        decreases s@.len() - i,
    {
        if str_eq(s[i].0.as_str(), key) {
            proof {
                lemma_kv_index(s@, i as int);
            }
            return Some(&s[i].1);
        }
        i += 1;
    }
    proof {
        lemma_kv_contains(s@, key@);
    }
    None
}

/// Look a key up, yielding the index of its entry.
pub fn kv_find<V>(s: &Vec<(String, V)>, key: &str) -> (r: Option<usize>)
    requires
        kv_unique(s@),
    ensures
        match r {
            Some(i) => i < s@.len() && s@[i as int].0@ == key@ && kv_map(s@).contains_key(key@)
                && kv_map(s@)[key@] == s@[i as int].1,
            None => !kv_map(s@).contains_key(key@),
        },
{
    let mut i: usize = 0;
    while i < s.len()
        invariant
            kv_unique(s@),
            0 <= i <= s@.len(),
            forall|j: int| 0 <= j < i ==> (#[trigger] s@[j]).0@ != key@,
        decreases s@.len() - i,
    {
        if str_eq(s[i].0.as_str(), key) {
            proof {
                lemma_kv_index(s@, i as int);
            }
            return Some(i);
        }
        i += 1;
    }
    proof {
        lemma_kv_contains(s@, key@);
    }
    None
}

/// Whether all keys of the list are distinct.
pub fn kv_unique_check<V>(s: &Vec<(String, V)>) -> (r: bool)
    ensures
        r == kv_unique(s@),
{
    let mut i: usize = 0;
    while i < s.len()
        invariant
            0 <= i <= s@.len(),
            forall|p: int, q: int| 0 <= p < q < i ==> (#[trigger] s@[p]).0@ != (#[trigger] s@[q]).0@,
        decreases s@.len() - i,
    {
        let mut j: usize = 0;
        while j < i
            invariant
                0 <= j <= i < s@.len(),
                forall|p: int, q: int| 0 <= p < q < i ==> (#[trigger] s@[p]).0@ != (#[trigger] s@[q]).0@,
                forall|p: int| 0 <= p < j ==> (#[trigger] s@[p]).0@ != s@[i as int].0@,
            decreases i - j,
        {
            if str_eq(s[j].0.as_str(), s[i].0.as_str()) {
                return false;
            }
            j += 1;
        }
        i += 1;
    }
    true
}

} // verus!
