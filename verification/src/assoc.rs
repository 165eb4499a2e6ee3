//! Lists of key/value pairs with distinct keys, seen as maps.

use vstd::prelude::*;

verus! {

/// No key occurs twice in the list.
pub open spec fn keys_distinct<K, V>(s: Seq<(K, V)>) -> bool {
    forall|i: int, j: int| 0 <= i < s.len() && 0 <= j < s.len() && i != j ==> s[i].0 != s[j].0
}

/// The keys of the list, in order.
pub open spec fn keys_of<K, V>(s: Seq<(K, V)>) -> Seq<K> {
    s.map_values(|p: (K, V)| p.0)
}

/// Whether `k` is a key of the list.
pub open spec fn has_key<K, V>(s: Seq<(K, V)>, k: K) -> bool {
    exists|i: int| 0 <= i < s.len() && s[i].0 == k
}

/// The list as a map from each key to the value paired with it.
pub open spec fn assoc<K, V>(s: Seq<(K, V)>) -> Map<K, V> {
    Map::new(
        |k: K| has_key(s, k),
        |k: K| s[choose|i: int| 0 <= i < s.len() && s[i].0 == k].1,
    )
}

/// The value at position `i` is the one that the map gives for its key.
pub proof fn lemma_assoc_at<K, V>(s: Seq<(K, V)>, i: int)
    requires
        keys_distinct(s),
        0 <= i < s.len(),
    ensures
        assoc(s).contains_key(s[i].0),
        assoc(s)[s[i].0] == s[i].1,
{
    assert(has_key(s, s[i].0));
    let j = choose|j: int| 0 <= j < s.len() && s[j].0 == s[i].0;
    assert(j == i);
}

/// Appending a pair with a new key adds that key to the map.
pub proof fn lemma_assoc_push<K, V>(s: Seq<(K, V)>, p: (K, V))
    requires
        keys_distinct(s),
        !has_key(s, p.0),
    ensures
        keys_distinct(s.push(p)),
        assoc(s.push(p)) == assoc(s).insert(p.0, p.1),
{
    let t = s.push(p);
    assert(keys_distinct(t)) by {
        assert forall|i: int, j: int|
            0 <= i < t.len() && 0 <= j < t.len() && i != j implies t[i].0 != t[j].0 by {
            if i < s.len() && j < s.len() {
                assert(t[i] == s[i] && t[j] == s[j]);
            } else if i < s.len() {
                assert(t[i] == s[i]);
            } else {
                assert(t[j] == s[j]);
            }
        }
    }
    assert forall|k: K| #[trigger] assoc(t).contains_key(k) == assoc(s).insert(p.0, p.1).contains_key(
        k,
    ) by {
        if has_key(s, k) {
            let i = choose|i: int| 0 <= i < s.len() && s[i].0 == k;
            assert(t[i].0 == k);
        }
        if k == p.0 {
            assert(t[s.len() as int].0 == k);
        }
        if has_key(t, k) && k != p.0 {
            let i = choose|i: int| 0 <= i < t.len() && t[i].0 == k;
            assert(i < s.len());
            assert(s[i].0 == k);
        }
    }
    assert forall|k: K| #[trigger] assoc(t).contains_key(k) implies assoc(t)[k] == assoc(s).insert(
        p.0,
        p.1,
    )[k] by {
        let i = choose|i: int| 0 <= i < t.len() && t[i].0 == k;
        lemma_assoc_at(t, i);
        if i < s.len() {
            assert(t[i] == s[i]);
            lemma_assoc_at(s, i);
        }
    }
    assert(assoc(t) =~= assoc(s).insert(p.0, p.1));
}

/// Removing the pair at position `i` removes its key from the map.
pub proof fn lemma_assoc_remove<K, V>(s: Seq<(K, V)>, i: int)
    requires
        keys_distinct(s),
        0 <= i < s.len(),
    ensures
        keys_distinct(s.remove(i)),
        assoc(s.remove(i)) == assoc(s).remove(s[i].0),
{
    let t = s.remove(i);
    s.remove_ensures(i);
    assert forall|a: int| 0 <= a < t.len() implies #[trigger] t[a] == s[if a < i {
        a
    } else {
        a + 1
    }] by {}
    assert(keys_distinct(t)) by {
        assert forall|a: int, b: int|
            0 <= a < t.len() && 0 <= b < t.len() && a != b implies t[a].0 != t[b].0 by {
            let a2 = if a < i {
                a
            } else {
                a + 1
            };
            let b2 = if b < i {
                b
            } else {
                b + 1
            };
            assert(t[a] == s[a2] && t[b] == s[b2]);
        }
    }
    assert forall|k: K| #[trigger] assoc(t).contains_key(k) == assoc(s).remove(s[i].0).contains_key(
        k,
    ) by {
        if has_key(t, k) {
            let a = choose|a: int| 0 <= a < t.len() && t[a].0 == k;
            let a2 = if a < i {
                a
            } else {
                a + 1
            };
            assert(t[a] == s[a2]);
            assert(s[a2].0 == k);
        }
        if has_key(s, k) && k != s[i].0 {
            let b = choose|b: int| 0 <= b < s.len() && s[b].0 == k;
            assert(b != i);
            let b2 = if b < i {
                b
            } else {
                b - 1
            };
            assert(t[b2] == s[b]);
        }
    }
    assert forall|k: K| #[trigger] assoc(t).contains_key(k) implies assoc(t)[k] == assoc(s).remove(
        s[i].0,
    )[k] by {
        let a = choose|a: int| 0 <= a < t.len() && t[a].0 == k;
        let a2 = if a < i {
            a
        } else {
            a + 1
        };
        assert(t[a] == s[a2]);
        lemma_assoc_at(t, a);
        lemma_assoc_at(s, a2);
    }
    assert(assoc(t) =~= assoc(s).remove(s[i].0));
}

/// Replacing the value at position `i` replaces it in the map.
pub proof fn lemma_assoc_update<K, V>(s: Seq<(K, V)>, i: int, v: V)
    requires
        keys_distinct(s),
        0 <= i < s.len(),
    ensures
        keys_distinct(s.update(i, (s[i].0, v))),
        assoc(s.update(i, (s[i].0, v))) == assoc(s).insert(s[i].0, v),
{
    let t = s.update(i, (s[i].0, v));
    assert(keys_distinct(t)) by {
        assert forall|a: int, b: int|
            0 <= a < t.len() && 0 <= b < t.len() && a != b implies t[a].0 != t[b].0 by {
            assert(t[a].0 == s[a].0 && t[b].0 == s[b].0);
        }
    }
    assert forall|k: K| #[trigger] assoc(t).contains_key(k) == assoc(s).insert(s[i].0, v).contains_key(
        k,
    ) by {
        if has_key(t, k) {
            let a = choose|a: int| 0 <= a < t.len() && t[a].0 == k;
            assert(s[a].0 == k);
        }
        if has_key(s, k) {
            let a = choose|a: int| 0 <= a < s.len() && s[a].0 == k;
            assert(t[a].0 == k);
        }
        if k == s[i].0 {
            assert(t[i].0 == k);
        }
    }
    assert forall|k: K| #[trigger] assoc(t).contains_key(k) implies assoc(t)[k] == assoc(s).insert(
        s[i].0,
        v,
    )[k] by {
        let a = choose|a: int| 0 <= a < t.len() && t[a].0 == k;
        lemma_assoc_at(t, a);
        if a != i {
            lemma_assoc_at(s, a);
        }
    }
    assert(assoc(t) =~= assoc(s).insert(s[i].0, v));
}

/// Having a key is being a key of the map.
pub proof fn lemma_assoc_dom<K, V>(s: Seq<(K, V)>, k: K)
    ensures
        assoc(s).contains_key(k) == has_key(s, k),
{
}

/// The empty list is the empty map.
pub proof fn lemma_assoc_empty<K, V>(s: Seq<(K, V)>)
    requires
        s.len() == 0,
    ensures
        keys_distinct(s),
        assoc(s) == Map::<K, V>::empty(),
{
    assert(assoc(s) =~= Map::<K, V>::empty());
}

} // verus!
