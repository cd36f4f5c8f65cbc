use vstd::prelude::*;

verus! {

/// The map from keys to values that a list of keyed entries describes; a
/// later entry wins over an earlier one with the same key.
pub open spec fn keyed_map<K, V>(s: Seq<(K, V)>) -> Map<K, V>
    decreases s.len(),
{
    if s.len() == 0 {
        Map::empty()
    } else {
        keyed_map(s.drop_last()).insert(s.last().0, s.last().1)
    }
}

/// No two entries share a key.
pub open spec fn unique_keys<K, V>(s: Seq<(K, V)>) -> bool {
    forall|i: int, j: int| 0 <= i < j < s.len() ==> s[i].0 != s[j].0
}

/// With unique keys, the map holds exactly the keys of the entries, each
/// with its entry's value.
pub proof fn lemma_keyed_map<K, V>(s: Seq<(K, V)>)
    requires
        unique_keys(s),
    ensures
        forall|n: K|
            #![trigger keyed_map(s).contains_key(n)]
            keyed_map(s).contains_key(n) <==> exists|i: int| 0 <= i < s.len() && s[i].0 == n,
        forall|i: int| 0 <= i < s.len() ==> #[trigger] keyed_map(s)[s[i].0] == s[i].1,
        keyed_map(s).dom().finite(),
    decreases s.len(),
{
    if s.len() > 0 {
        let p = s.drop_last();
        assert(unique_keys(p));
        lemma_keyed_map(p);
        assert forall|n: K| #[trigger]
            keyed_map(s).contains_key(n) <==> exists|i: int| 0 <= i < s.len() && s[i].0 == n by {
            if keyed_map(s).contains_key(n) && n != s.last().0 {
                let i = choose|i: int| 0 <= i < p.len() && p[i].0 == n;
                assert(s[i] == p[i]);
            }
            if exists|i: int| 0 <= i < s.len() && s[i].0 == n {
                let i = choose|i: int| 0 <= i < s.len() && s[i].0 == n;
                if i < p.len() {
                    assert(s[i] == p[i]);
                }
            }
        }
        assert forall|i: int| 0 <= i < s.len() implies #[trigger] keyed_map(s)[s[i].0] == s[i].1 by {
            if i < p.len() {
                assert(s[i] == p[i]);
            }
        }
    }
}

/// Replacing the value of entry `i` replaces the value of its key in the
/// map; the keys stay unique.
pub proof fn lemma_keyed_map_update<K, V>(s: Seq<(K, V)>, i: int, v: V)
    requires
        unique_keys(s),
        0 <= i < s.len(),
    ensures
        unique_keys(s.update(i, (s[i].0, v))),
        keyed_map(s.update(i, (s[i].0, v))) == keyed_map(s).insert(s[i].0, v),
{
    let t = s.update(i, (s[i].0, v));
    assert(unique_keys(t)) by {
        assert forall|a: int, b: int| 0 <= a < b < t.len() implies t[a].0 != t[b].0 by {
            assert(t[a].0 == s[a].0);
            assert(t[b].0 == s[b].0);
        }
    }
    lemma_keyed_map(s);
    lemma_keyed_map(t);
    assert forall|n: K| #[trigger] keyed_map(t).contains_key(n) <==> keyed_map(s).insert(
        s[i].0,
        v,
    ).contains_key(n) by {
        if exists|k: int| 0 <= k < t.len() && t[k].0 == n {
            let k = choose|k: int| 0 <= k < t.len() && t[k].0 == n;
            assert(s[k].0 == n);
        }
        if exists|k: int| 0 <= k < s.len() && s[k].0 == n {
            let k = choose|k: int| 0 <= k < s.len() && s[k].0 == n;
            assert(t[k].0 == n);
        }
    }
    assert forall|n: K| #[trigger] keyed_map(t).contains_key(n) implies keyed_map(t)[n]
        == keyed_map(s).insert(s[i].0, v)[n] by {
        let k = choose|k: int| 0 <= k < t.len() && t[k].0 == n;
        assert(keyed_map(t)[t[k].0] == t[k].1);
        if k != i {
            assert(t[k] == s[k]);
            assert(keyed_map(s)[s[k].0] == s[k].1);
        }
    }
    assert(keyed_map(t) =~= keyed_map(s).insert(s[i].0, v));
}

/// Appending an entry with a new key adds it to the map; the keys stay
/// unique.
pub proof fn lemma_keyed_map_push<K, V>(s: Seq<(K, V)>, e: (K, V))
    requires
        unique_keys(s),
        !keyed_map(s).contains_key(e.0),
    ensures
        unique_keys(s.push(e)),
        keyed_map(s.push(e)) == keyed_map(s).insert(e.0, e.1),
{
    lemma_keyed_map(s);
    assert(s.push(e).drop_last() == s);
    assert forall|a: int, b: int| 0 <= a < b < s.push(e).len() implies s.push(e)[a].0 != s.push(
        e,
    )[b].0 by {
        if b == s.len() {
            assert(s.push(e)[a] == s[a]);
        } else {
            assert(s.push(e)[a] == s[a]);
            assert(s.push(e)[b] == s[b]);
        }
    }
}

} // verus!
