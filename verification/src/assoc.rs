//! Association lists keyed by strings: the maps behind entries and
//! bibliographies.
use vstd::prelude::*;

verus! {

/// The position of the first key equal to `k`, or -1 when there is none.
pub open spec fn first_index(keys: Seq<Seq<char>>, k: Seq<char>) -> int
    decreases keys.len(),
{
    if keys.len() == 0 {
        -1
    } else {
        let i = first_index(keys.drop_last(), k);
        if i >= 0 {
            i
        } else if keys.last() == k {
            keys.len() - 1
        } else {
            -1
        }
    }
}

/// The keys of an association list.
pub open spec fn keys_of<V>(s: Seq<(Seq<char>, V)>) -> Seq<Seq<char>> {
    s.map_values(|p: (Seq<char>, V)| p.0)
}

/// The map that an association list stands for; the first pair with a
/// given key decides its value.
pub open spec fn assoc_map<V>(s: Seq<(Seq<char>, V)>) -> Map<Seq<char>, V>
    decreases s.len(),
{
    if s.len() == 0 {
        Map::empty()
    } else {
        let m = assoc_map(s.drop_last());
        if m.contains_key(s.last().0) {
            m
        } else {
            m.insert(s.last().0, s.last().1)
        }
    }
}

/// No key occurs twice.
pub open spec fn unique_keys(keys: Seq<Seq<char>>) -> bool {
    forall|i: int, j: int| 0 <= i < keys.len() && 0 <= j < keys.len() && i != j ==> keys[i] != keys[j]
}

/// The pairs whose key is not `k`, in order.
pub open spec fn without_key<V>(s: Seq<(Seq<char>, V)>, k: Seq<char>) -> Seq<(Seq<char>, V)>
    decreases s.len(),
{
    if s.len() == 0 {
        s
    } else if s.last().0 == k {
        without_key(s.drop_last(), k)
    } else {
        without_key(s.drop_last(), k).push(s.last())
    }
}

/// What `first_index` finds.
pub proof fn lemma_first_index(keys: Seq<Seq<char>>, k: Seq<char>)
    ensures
        -1 <= first_index(keys, k) < keys.len(),
        first_index(keys, k) >= 0 ==> keys[first_index(keys, k)] == k,
        forall|j: int| 0 <= j < first_index(keys, k) ==> keys[j] != k,
        first_index(keys, k) == -1 ==> forall|j: int| 0 <= j < keys.len() ==> keys[j] != k,
    decreases keys.len(),
{
    if keys.len() > 0 {
        let d = keys.drop_last();
        lemma_first_index(d, k);
        assert(forall|j: int| 0 <= j < d.len() ==> d[j] == keys[j]);
    }
}

/// The first matching position is the one that `first_index` names.
pub proof fn lemma_first_index_at(keys: Seq<Seq<char>>, k: Seq<char>, i: int)
    requires
        0 <= i < keys.len(),
        keys[i] == k,
        forall|j: int| 0 <= j < i ==> keys[j] != k,
    ensures
        first_index(keys, k) == i,
{
    lemma_first_index(keys, k);
}

/// No position holds the key.
pub proof fn lemma_first_index_none(keys: Seq<Seq<char>>, k: Seq<char>)
    requires
        forall|j: int| 0 <= j < keys.len() ==> keys[j] != k,
    ensures
        first_index(keys, k) == -1,
{
    lemma_first_index(keys, k);
}

/// `assoc_map` holds a key exactly when some pair has it, with the value
/// of the first such pair.
pub proof fn lemma_assoc_map<V>(s: Seq<(Seq<char>, V)>, k: Seq<char>)
    ensures
        assoc_map(s).contains_key(k) <==> first_index(keys_of(s), k) >= 0,
        first_index(keys_of(s), k) >= 0 ==> assoc_map(s)[k] == s[first_index(keys_of(s), k)].1,
    decreases s.len(),
{
    if s.len() > 0 {
        let d = s.drop_last();
        lemma_assoc_map(d, k);
        assert(keys_of(s).drop_last() =~= keys_of(d));
        lemma_assoc_map(d, s.last().0);
        assert(keys_of(s).last() == s.last().0);
        let fi = first_index(keys_of(d), k);
        lemma_first_index(keys_of(d), k);
        if fi >= 0 {
            assert(s[fi] == d[fi]);
        }
    }
}

/// Replacing the value of the first pair with key `k` inserts into the map.
pub proof fn lemma_assoc_map_update<V>(s: Seq<(Seq<char>, V)>, i: int, k: Seq<char>, v: V)
    requires
        0 <= i < s.len(),
        first_index(keys_of(s), k) == i,
    ensures
        assoc_map(s.update(i, (k, v))) == assoc_map(s).insert(k, v),
{
    let t = s.update(i, (k, v));
    lemma_first_index(keys_of(s), k);
    assert(keys_of(t) == keys_of(s));
    assert forall|k2: Seq<char>| #[trigger] assoc_map(t).contains_key(k2) == assoc_map(s).insert(k, v).contains_key(k2) by {
        lemma_assoc_map(s, k2);
        lemma_assoc_map(t, k2);
    }
    assert forall|k2: Seq<char>| assoc_map(t).contains_key(k2) implies #[trigger] assoc_map(t)[k2] == assoc_map(s).insert(k, v)[k2] by {
        lemma_assoc_map(s, k2);
        lemma_assoc_map(t, k2);
        lemma_first_index(keys_of(s), k2);
    }
    assert(assoc_map(t) =~= assoc_map(s).insert(k, v));
}

/// Appending a pair with a new key inserts into the map.
pub proof fn lemma_assoc_map_push<V>(s: Seq<(Seq<char>, V)>, k: Seq<char>, v: V)
    requires
        !assoc_map(s).contains_key(k),
    ensures
        assoc_map(s.push((k, v))) == assoc_map(s).insert(k, v),
{
    assert(s.push((k, v)).drop_last() == s);
}

/// Dropping every pair with key `k` removes `k` from the map.
pub proof fn lemma_assoc_map_without<V>(s: Seq<(Seq<char>, V)>, k: Seq<char>)
    ensures
        assoc_map(without_key(s, k)) == assoc_map(s).remove(k),
    decreases s.len(),
{
    if s.len() == 0 {
        assert(assoc_map(s).remove(k) =~= assoc_map(s));
    } else {
        lemma_assoc_map_without(s.drop_last(), k);
        let m = assoc_map(s.drop_last());
        if s.last().0 == k {
            assert(assoc_map(s).remove(k) =~= m.remove(k));
        } else {
            let w = without_key(s.drop_last(), k);
            assert(without_key(s, k).drop_last() == w);
            assert(assoc_map(without_key(s, k)) =~= assoc_map(s).remove(k));
        }
    }
}

/// Dropping the pairs with key `k` keeps keys distinct.
pub proof fn lemma_without_key_unique<V>(s: Seq<(Seq<char>, V)>, k: Seq<char>)
    requires
        unique_keys(keys_of(s)),
    ensures
        unique_keys(keys_of(without_key(s, k))),
        forall|j: int| 0 <= j < without_key(s, k).len() ==> #[trigger] without_key(s, k)[j].0 != k,
        forall|j: int| 0 <= j < without_key(s, k).len() ==> s.contains(#[trigger] without_key(s, k)[j]),
    decreases s.len(),
{
    if s.len() > 0 {
        let d = s.drop_last();
        assert(forall|j: int| 0 <= j < d.len() ==> #[trigger] keys_of(d)[j] == keys_of(s)[j]);
        assert(unique_keys(keys_of(d)));
        lemma_without_key_unique(s.drop_last(), k);
        let w = without_key(s.drop_last(), k);
        if s.last().0 != k {
            assert forall|j: int| 0 <= j < w.len() implies #[trigger] w[j].0 != s.last().0 by {
                let c = choose|c: int| 0 <= c < s.drop_last().len() && s.drop_last()[c] == w[j];
                assert(keys_of(s)[c] == w[j].0);
                assert(keys_of(s)[s.len() - 1] == s.last().0);
            }
            assert forall|j: int| 0 <= j < w.len() implies s.contains(#[trigger] w[j]) by {
                let c = choose|c: int| 0 <= c < s.drop_last().len() && s.drop_last()[c] == w[j];
                assert(s[c] == w[j]);
            }
            assert(s[s.len() - 1] == s.last());
            let r = w.push(s.last());
            assert(without_key(s, k) == r);
            assert forall|i: int, j: int|
                0 <= i < r.len() && 0 <= j < r.len() && i != j implies #[trigger] keys_of(r)[i] != #[trigger] keys_of(r)[j] by {
                if i < w.len() && j < w.len() {
                    assert(keys_of(w)[i] == r[i].0 && keys_of(w)[j] == r[j].0);
                } else if i < w.len() {
                    assert(r[i] == w[i]);
                } else if j < w.len() {
                    assert(r[j] == w[j]);
                }
            }
        } else {
            assert forall|j: int| 0 <= j < w.len() implies s.contains(#[trigger] w[j]) by {
                let c = choose|c: int| 0 <= c < s.drop_last().len() && s.drop_last()[c] == w[j];
                assert(s[c] == w[j]);
            }
        }
    }
}

/// The position of the first pair with key `k`.
pub fn find_key<V>(s: &Vec<(String, V)>, k: &str) -> (r: Option<usize>)
    ensures
        match r {
            Some(i) => i < s@.len() && first_index(string_keys(s@), k@) == i,
            None => first_index(string_keys(s@), k@) == -1,
        },
{
    let mut i: usize = 0;
    while i < s.len()
        invariant
            i <= s@.len(),
            forall|j: int| 0 <= j < i ==> #[trigger] string_keys(s@)[j] != k@,
        decreases s@.len() - i,
    {
        if crate::text::str_eq(s[i].0.as_str(), k) {
            proof {
                lemma_first_index_at(string_keys(s@), k@, i as int);
            }
            return Some(i);
        }
        i = i + 1;
    }
    proof {
        lemma_first_index_none(string_keys(s@), k@);
    }
    None
}

/// The keys of a list of pairs keyed by strings.
pub open spec fn string_keys<V>(s: Seq<(String, V)>) -> Seq<Seq<char>> {
    s.map_values(|p: (String, V)| p.0@)
}

} // verus!
