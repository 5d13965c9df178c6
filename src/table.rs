use vstd::prelude::*;

verus! {

/// Index of the entry whose key is `k`, if any; `eq` decides key equality.
pub fn find_key<K, V, F: Fn(&K, &K) -> bool>(s: &Vec<(K, V)>, k: &K, eq: F) -> (r: Option<usize>)
    requires
        forall|a: &K, b: &K| #[trigger] eq.requires((a, b)),
        forall|a: &K, b: &K, x: bool| #[trigger] eq.ensures((a, b), x) ==> x == (*a == *b),
    ensures
        match r {
            Some(i) => i < s@.len() && s@[i as int].0 == *k,
            None => forall|i: int| 0 <= i < s@.len() ==> s@[i].0 != *k,
        },
{
    let mut i: usize = 0;
    while i < s.len()
        invariant
            i <= s@.len(),
            forall|a: &K, b: &K| #[trigger] eq.requires((a, b)),
            forall|a: &K, b: &K, x: bool| #[trigger] eq.ensures((a, b), x) ==> x == (*a == *b),
            forall|j: int| 0 <= j < i ==> s@[j].0 != *k,
        decreases s@.len() - i,
    {
        if eq(&s[i].0, k) {
            return Some(i);
        }
        i = i + 1;
    }
    None
}

/// The map that a list of `(key, value)` entries stands for; where a key
/// occurs twice the later entry wins.
pub open spec fn table_view<K, V>(s: Seq<(K, V)>) -> Map<K, V>
    decreases s.len(),
{
    if s.len() == 0 {
        Map::empty()
    } else {
        table_view(s.drop_last()).insert(s.last().0, s.last().1)
    }
}

/// No key occurs twice in the entry list.
pub open spec fn keys_unique<K, V>(s: Seq<(K, V)>) -> bool {
    forall|i: int, j: int| 0 <= i < j < s.len() ==> s[i].0 != s[j].0
}

/// The key set of an entry list.
pub proof fn lemma_table_dom<K, V>(s: Seq<(K, V)>, k: K)
    ensures
        table_view(s).contains_key(k) <==> exists|i: int| 0 <= i < s.len() && s[i].0 == k,
    decreases s.len(),
{
    if s.len() > 0 {
        lemma_table_dom(s.drop_last(), k);
        if table_view(s).contains_key(k) && k != s.last().0 {
            let i = choose|i: int| 0 <= i < s.len() - 1 && s.drop_last()[i].0 == k;
            assert(s[i].0 == k);
        }
        if exists|i: int| 0 <= i < s.len() && s[i].0 == k {
            let i = choose|i: int| 0 <= i < s.len() && s[i].0 == k;
            if i < s.len() - 1 {
                assert(s.drop_last()[i].0 == k);
            }
        }
    }
}

/// With unique keys, each entry's key maps to that entry's value.
pub proof fn lemma_table_get<K, V>(s: Seq<(K, V)>, i: int)
    requires
        keys_unique(s),
        0 <= i < s.len(),
    ensures
        table_view(s).contains_key(s[i].0),
        table_view(s)[s[i].0] == s[i].1,
    decreases s.len(),
{
    if i < s.len() - 1 {
        assert(keys_unique(s.drop_last()));
        lemma_table_get(s.drop_last(), i);
        assert(s.drop_last()[i] == s[i]);
    }
}

/// No entry with key `k`: `k` is not in the map.
pub proof fn lemma_table_absent<K, V>(s: Seq<(K, V)>, k: K)
    requires
        forall|i: int| 0 <= i < s.len() ==> s[i].0 != k,
    ensures
        !table_view(s).contains_key(k),
{
    lemma_table_dom(s, k);
}

/// Replacing the value of entry `i` updates the map at its key.
pub proof fn lemma_table_update<K, V>(s: Seq<(K, V)>, i: int, v: V)
    requires
        keys_unique(s),
        0 <= i < s.len(),
    ensures
        keys_unique(s.update(i, (s[i].0, v))),
        table_view(s.update(i, (s[i].0, v))) == table_view(s).insert(s[i].0, v),
    decreases s.len(),
{
    let t = s.update(i, (s[i].0, v));
    assert(keys_unique(t));
    if i == s.len() - 1 {
        assert(t.drop_last() == s.drop_last());
        lemma_table_absent_last(s);
        assert(table_view(t) =~= table_view(s).insert(s[i].0, v));
    } else {
        assert(keys_unique(s.drop_last()));
        lemma_table_update(s.drop_last(), i, v);
        assert(t.drop_last() == s.drop_last().update(i, (s[i].0, v)));
        assert(table_view(t) =~= table_view(s).insert(s[i].0, v));
    }
}

proof fn lemma_table_absent_last<K, V>(s: Seq<(K, V)>)
    requires
        keys_unique(s),
        s.len() > 0,
    ensures
        !table_view(s.drop_last()).contains_key(s.last().0),
{
    lemma_table_absent(s.drop_last(), s.last().0);
}

/// Appending an entry with a fresh key keeps keys unique and adds it to the map.
pub proof fn lemma_table_push<K, V>(s: Seq<(K, V)>, k: K, v: V)
    requires
        keys_unique(s),
        forall|i: int| 0 <= i < s.len() ==> s[i].0 != k,
    ensures
        keys_unique(s.push((k, v))),
        table_view(s.push((k, v))) == table_view(s).insert(k, v),
        !table_view(s).contains_key(k),
{
    assert(s.push((k, v)).drop_last() == s);
    lemma_table_absent(s, k);
}

/// Removing entry `i` removes its key from the map.
pub proof fn lemma_table_remove<K, V>(s: Seq<(K, V)>, i: int)
    requires
        keys_unique(s),
        0 <= i < s.len(),
    ensures
        keys_unique(s.remove(i)),
        table_view(s.remove(i)) == table_view(s).remove(s[i].0),
    decreases s.len(),
{
    let t = s.remove(i);
    assert(keys_unique(t)) by {
        assert forall|a: int, b: int| 0 <= a < b < t.len() implies t[a].0 != t[b].0 by {
            let a2 = if a < i { a } else { a + 1 };
            let b2 = if b < i { b } else { b + 1 };
            assert(t[a] == s[a2] && t[b] == s[b2]);
        }
    }
    lemma_table_absent_last(s);
    if i == s.len() - 1 {
        assert(t == s.drop_last());
        assert(table_view(t) =~= table_view(s).remove(s[i].0));
    } else {
        assert(keys_unique(s.drop_last()));
        lemma_table_remove(s.drop_last(), i);
        assert(t.drop_last() == s.drop_last().remove(i));
        assert(t.last() == s.last());
        assert(table_view(t) =~= table_view(s).remove(s[i].0));
    }
}

/// Replacing the entry at `i` by one with the same key updates the map there.
pub proof fn lemma_table_set<K, V>(s: Seq<(K, V)>, i: int, e: (K, V))
    requires
        keys_unique(s),
        0 <= i < s.len(),
        e.0 == s[i].0,
    ensures
        keys_unique(s.update(i, e)),
        table_view(s.update(i, e)) == table_view(s).insert(e.0, e.1),
{
    assert(e == (s[i].0, e.1));
    lemma_table_update(s, i, e.1);
}

} // verus!
