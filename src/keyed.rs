use vstd::prelude::*;

verus! {

/// No key occurs twice in a list of keyed entries.
pub open spec fn keys_unique<V>(s: Seq<(Seq<char>, V)>) -> bool {
    forall|i: int, j: int| 0 <= i < j < s.len() ==> #[trigger] s[i].0 != #[trigger] s[j].0
}

/// The map that a list of keyed entries stands for: each key to the value of its
/// last entry.
pub open spec fn to_map<V>(s: Seq<(Seq<char>, V)>) -> Map<Seq<char>, V>
    decreases s.len(),
{
    if s.len() == 0 {
        Map::empty()
    } else {
        to_map(s.drop_last()).insert(s.last().0, s.last().1)
    }
}

/// Every key of the list is a key of its map; with unique keys it maps to the
/// entry's value.
pub proof fn lemma_to_map_has<V>(s: Seq<(Seq<char>, V)>, i: int)
    requires
        0 <= i < s.len(),
    ensures
        to_map(s).contains_key(s[i].0),
        keys_unique(s) ==> to_map(s)[s[i].0] == s[i].1,
    decreases s.len(),
{
    if i < s.len() - 1 {
        lemma_to_map_has(s.drop_last(), i);
        assert(s.drop_last()[i] == s[i]);
        if keys_unique(s) {
            assert(s[i].0 != s[s.len() - 1].0);
        }
    }
}

/// The map holds, for a key, the value of the last entry with that key.
pub proof fn lemma_to_map_latest<V>(s: Seq<(Seq<char>, V)>, i: int)
    requires
        0 <= i < s.len(),
        forall|j: int| i < j < s.len() ==> #[trigger] s[j].0 != s[i].0,
    ensures
        to_map(s).contains_key(s[i].0),
        to_map(s)[s[i].0] == s[i].1,
    decreases s.len(),
{
    if i < s.len() - 1 {
        let d = s.drop_last();
        assert forall|j: int| i < j < d.len() implies #[trigger] d[j].0 != d[i].0 by {
            assert(d[j] == s[j]);
        }
        lemma_to_map_latest(d, i);
        assert(s[s.len() - 1].0 != s[i].0);
    }
}

/// A key that no entry holds is not a key of the map.
pub proof fn lemma_to_map_lacks<V>(s: Seq<(Seq<char>, V)>, k: Seq<char>)
    requires
        forall|i: int| 0 <= i < s.len() ==> #[trigger] s[i].0 != k,
    ensures
        !to_map(s).contains_key(k),
    decreases s.len(),
{
    if s.len() > 0 {
        let d = s.drop_last();
        assert forall|i: int| 0 <= i < d.len() implies #[trigger] d[i].0 != k by {
            assert(d[i] == s[i]);
        }
        lemma_to_map_lacks(d, k);
        assert(s.last() == s[s.len() - 1]);
    }
}

/// Removing an entry removes its key from the map.
pub proof fn lemma_to_map_remove<V>(s: Seq<(Seq<char>, V)>, i: int)
    requires
        0 <= i < s.len(),
        keys_unique(s),
    ensures
        to_map(s.remove(i)) == to_map(s).remove(s[i].0),
        keys_unique(s.remove(i)),
    decreases s.len(),
{
    let d = s.drop_last();
    let r = s.remove(i);
    assert(keys_unique(r)) by {
        assert forall|a: int, b: int| 0 <= a < b < r.len() implies #[trigger] r[a].0
            != #[trigger] r[b].0 by {
            let a2 = if a < i { a } else { a + 1 };
            let b2 = if b < i { b } else { b + 1 };
            assert(r[a] == s[a2]);
            assert(r[b] == s[b2]);
        }
    }
    if i == s.len() - 1 {
        assert(r =~= d);
        assert forall|j: int| 0 <= j < d.len() implies #[trigger] d[j].0 != s[i].0 by {
            assert(d[j] == s[j]);
        }
        lemma_to_map_lacks(d, s[i].0);
        assert(to_map(r) =~= to_map(s).remove(s[i].0));
    } else {
        assert(keys_unique(d)) by {
            assert forall|a: int, b: int| 0 <= a < b < d.len() implies #[trigger] d[a].0
                != #[trigger] d[b].0 by {
                assert(d[a] == s[a]);
                assert(d[b] == s[b]);
            }
        }
        lemma_to_map_remove(d, i);
        assert(r.drop_last() =~= d.remove(i));
        assert(r.last() == s.last());
        assert(d[i] == s[i]);
        assert(s[i].0 != s[s.len() - 1].0);
        assert(to_map(r) =~= to_map(s).remove(s[i].0));
    }
}

/// Appending an entry whose key is new keeps the keys unique.
pub proof fn lemma_push_unique<V>(s: Seq<(Seq<char>, V)>, e: (Seq<char>, V))
    requires
        keys_unique(s),
        !to_map(s).contains_key(e.0),
    ensures
        keys_unique(s.push(e)),
        to_map(s.push(e)) == to_map(s).insert(e.0, e.1),
{
    let p = s.push(e);
    assert forall|a: int, b: int| 0 <= a < b < p.len() implies #[trigger] p[a].0
        != #[trigger] p[b].0 by {
        assert(p[a] == s[a]);
        if b == s.len() {
            lemma_to_map_has(s, a);
        } else {
            assert(p[b] == s[b]);
        }
    }
    assert(p.drop_last() =~= s);
}

} // verus!
