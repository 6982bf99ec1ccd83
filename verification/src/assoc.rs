//! Association lists: sequences of key–value entries read as finite maps.
use vstd::prelude::*;

verus! {

/// The position of key `e`'s entry, where it has one.
pub open spec fn entry_index<K, V>(s: Seq<(K, V)>, e: K) -> int {
    choose|i: int| 0 <= i < s.len() && #[trigger] s[i].0 == e
}

/// The entries after storing `c` under `e`: rebound in place if `e` is there, else appended.
pub open spec fn entries_insert<K, V>(s: Seq<(K, V)>, e: K, c: V) -> Seq<(K, V)> {
    if entries_map(s).contains_key(e) {
        s.update(entry_index(s, e), (e, c))
    } else {
        s.push((e, c))
    }
}

/// The entries after taking `e`'s entry out: the last entry moves into its position.
pub open spec fn entries_remove<K, V>(s: Seq<(K, V)>, e: K) -> Seq<(K, V)> {
    if entries_map(s).contains_key(e) {
        s.update(entry_index(s, e), s.last()).drop_last()
    } else {
        s
    }
}

/// Whether no key occurs twice among the entries.
pub open spec fn entries_distinct<K, V>(s: Seq<(K, V)>) -> bool {
    forall|i: int, j: int|
        0 <= i < s.len() && 0 <= j < s.len() && i != j ==> #[trigger] s[i].0 != #[trigger] s[j].0
}

/// The entries read as a map: each key maps to the value stored with it.
pub open spec fn entries_map<K, V>(s: Seq<(K, V)>) -> Map<K, V> {
    Map::new(
        |e: K| exists|i: int| 0 <= i < s.len() && #[trigger] s[i].0 == e,
        |e: K| s[choose|i: int| 0 <= i < s.len() && #[trigger] s[i].0 == e].1,
    )
}

/// In entries without repeated keys, the key at position `i` maps to its value.
pub proof fn lemma_entries_map_at<K, V>(s: Seq<(K, V)>, i: int)
    requires
        entries_distinct(s),
        0 <= i < s.len(),
    ensures
        entries_map(s).contains_key(s[i].0),
        entries_map(s)[s[i].0] == s[i].1,
{
    let e = s[i].0;
    assert(exists|j: int| 0 <= j < s.len() && #[trigger] s[j].0 == e);
    let j = choose|j: int| 0 <= j < s.len() && #[trigger] s[j].0 == e;
    assert(i == j);
}

/// Appending an entry for a new key adds that key to the map.
pub proof fn lemma_entries_map_push<K, V>(s: Seq<(K, V)>, e: K, c: V)
    requires
        entries_distinct(s),
        !entries_map(s).contains_key(e),
    ensures
        entries_distinct(s.push((e, c))),
        entries_map(s.push((e, c))) == entries_map(s).insert(e, c),
{
    let t = s.push((e, c));
    assert forall|i: int, j: int|
        0 <= i < t.len() && 0 <= j < t.len() && i != j implies #[trigger] t[i].0 != #[trigger] t[j].0 by {
        if i == s.len() {
            assert(t[j] == s[j]);
            if s[j].0 == e {
                assert(entries_map(s).contains_key(e));
            }
        } else if j == s.len() {
            assert(t[i] == s[i]);
            if s[i].0 == e {
                assert(entries_map(s).contains_key(e));
            }
        } else {
            assert(t[i] == s[i] && t[j] == s[j]);
        }
    }
    let m = entries_map(t);
    let n = entries_map(s).insert(e, c);
    assert forall|x: K| #[trigger] m.contains_key(x) <==> n.contains_key(x) by {
        if m.contains_key(x) {
            let i = choose|i: int| 0 <= i < t.len() && #[trigger] t[i].0 == x;
            if i < s.len() {
                assert(s[i].0 == x);
            }
        }
        if n.contains_key(x) && x != e {
            let i = choose|i: int| 0 <= i < s.len() && #[trigger] s[i].0 == x;
            assert(t[i].0 == x);
        }
        if x == e {
            assert(t[s.len() as int].0 == x);
        }
    }
    assert forall|x: K| #[trigger] m.contains_key(x) implies m[x] == n[x] by {
        let i = choose|i: int| 0 <= i < t.len() && #[trigger] t[i].0 == x;
        lemma_entries_map_at(t, i);
        if i < s.len() {
            assert(t[i] == s[i]);
            lemma_entries_map_at(s, i);
        }
    }
    assert(m =~= n);
}

/// Replacing the value at position `i` rebinds that key in the map.
pub proof fn lemma_entries_map_update<K, V>(s: Seq<(K, V)>, i: int, c: V)
    requires
        entries_distinct(s),
        0 <= i < s.len(),
    ensures
        entries_distinct(s.update(i, (s[i].0, c))),
        entries_map(s.update(i, (s[i].0, c))) == entries_map(s).insert(s[i].0, c),
{
    let e = s[i].0;
    let t = s.update(i, (e, c));
    assert forall|a: int, b: int|
        0 <= a < t.len() && 0 <= b < t.len() && a != b implies #[trigger] t[a].0 != #[trigger] t[b].0 by {
        assert(t[a].0 == s[a].0 && t[b].0 == s[b].0);
    }
    lemma_entries_map_at(s, i);
    let m = entries_map(t);
    let n = entries_map(s).insert(e, c);
    assert forall|x: K| #[trigger] m.contains_key(x) <==> n.contains_key(x) by {
        if m.contains_key(x) {
            let j = choose|j: int| 0 <= j < t.len() && #[trigger] t[j].0 == x;
            assert(s[j].0 == x);
        }
        if n.contains_key(x) && x != e {
            let j = choose|j: int| 0 <= j < s.len() && #[trigger] s[j].0 == x;
            assert(t[j].0 == x);
        }
        if x == e {
            assert(t[i].0 == x);
        }
    }
    assert forall|x: K| #[trigger] m.contains_key(x) implies m[x] == n[x] by {
        let j = choose|j: int| 0 <= j < t.len() && #[trigger] t[j].0 == x;
        lemma_entries_map_at(t, j);
        if j != i {
            assert(t[j] == s[j]);
            lemma_entries_map_at(s, j);
        }
    }
    assert(m =~= n);
}

/// Moving the last entry into position `i` and dropping the last removes that key.
pub proof fn lemma_entries_map_swap_remove<K, V>(s: Seq<(K, V)>, i: int)
    requires
        entries_distinct(s),
        0 <= i < s.len(),
    ensures
        entries_distinct(s.update(i, s.last()).drop_last()),
        entries_map(s.update(i, s.last()).drop_last()) == entries_map(s).remove(s[i].0),
{
    let e = s[i].0;
    let last = s.len() - 1;
    let t = s.update(i, s.last()).drop_last();
    assert forall|j: int| 0 <= j < t.len() implies #[trigger] t[j] == (if j == i {
        s[last]
    } else {
        s[j]
    }) by {}
    assert forall|a: int, b: int|
        0 <= a < t.len() && 0 <= b < t.len() && a != b implies #[trigger] t[a].0 != #[trigger] t[b].0 by {
        let sa = if a == i { last } else { a };
        let sb = if b == i { last } else { b };
        assert(t[a] == s[sa] && t[b] == s[sb]);
    }
    let m = entries_map(t);
    let n = entries_map(s).remove(e);
    assert forall|x: K| #[trigger] m.contains_key(x) <==> n.contains_key(x) by {
        if m.contains_key(x) {
            let j = choose|j: int| 0 <= j < t.len() && #[trigger] t[j].0 == x;
            let sj = if j == i { last } else { j };
            assert(t[j] == s[sj]);
            assert(s[sj].0 == x);
            assert(sj != i);
        }
        if n.contains_key(x) {
            let j = choose|j: int| 0 <= j < s.len() && #[trigger] s[j].0 == x;
            assert(j != i);
            if j == last {
                assert(t[i].0 == x);
            } else {
                assert(t[j].0 == x);
            }
        }
    }
    assert forall|x: K| #[trigger] m.contains_key(x) implies m[x] == n[x] by {
        let j = choose|j: int| 0 <= j < t.len() && #[trigger] t[j].0 == x;
        lemma_entries_map_at(t, j);
        let sj = if j == i { last } else { j };
        assert(t[j] == s[sj]);
        lemma_entries_map_at(s, sj);
    }
    assert(m =~= n);
}

/// Two entry lists with the same keys position by position: the second has no repeated key
/// where the first has none, the same key set, and under each key the value at that key's
/// position.
pub proof fn lemma_entries_map_pointwise<K, V>(s: Seq<(K, V)>, t: Seq<(K, V)>)
    requires
        entries_distinct(s),
        s.len() == t.len(),
        forall|i: int| 0 <= i < s.len() ==> #[trigger] t[i].0 == s[i].0,
    ensures
        entries_distinct(t),
        entries_map(t).dom() == entries_map(s).dom(),
        forall|k: K|
            #[trigger] entries_map(s).contains_key(k) ==> {
                let i = entry_index(s, k);
                &&& 0 <= i < s.len()
                &&& s[i].0 == k
                &&& entries_map(s)[k] == s[i].1
                &&& entries_map(t)[k] == t[i].1
            },
{
    assert forall|i: int, j: int|
        0 <= i < t.len() && 0 <= j < t.len() && i != j implies #[trigger] t[i].0 != #[trigger] t[j].0 by {
        assert(t[i].0 == s[i].0 && t[j].0 == s[j].0);
    }
    assert forall|k: K| #[trigger] entries_map(t).contains_key(k) <==> entries_map(s).contains_key(k) by {
        if entries_map(t).contains_key(k) {
            let i = choose|i: int| 0 <= i < t.len() && #[trigger] t[i].0 == k;
            assert(s[i].0 == k);
        }
        if entries_map(s).contains_key(k) {
            let i = choose|i: int| 0 <= i < s.len() && #[trigger] s[i].0 == k;
            assert(t[i].0 == k);
        }
    }
    assert(entries_map(t).dom() =~= entries_map(s).dom());
    assert forall|k: K| #[trigger] entries_map(s).contains_key(k) implies {
        let i = entry_index(s, k);
        &&& 0 <= i < s.len()
        &&& s[i].0 == k
        &&& entries_map(s)[k] == s[i].1
        &&& entries_map(t)[k] == t[i].1
    } by {
        let i = entry_index(s, k);
        lemma_entries_map_at(s, i);
        lemma_entries_map_at(t, i);
    }
}

} // verus!
