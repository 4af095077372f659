//! Association lists read as maps.
//!
//! The registry keeps its two tables as vectors of key–value pairs with
//! pairwise-distinct keys; every contract speaks of the table through
//! [`assoc_map`], which reads such a sequence as a `Map` from the keys'
//! character sequences to the values. The lemmas here relate the sequence
//! operations the code performs to the map operations the contracts state.

use vstd::prelude::*;

verus! {

/// The sequence of pairs, read as a map. A later pair shadows an earlier
/// one with the same key; with [`distinct_keys`] nothing is shadowed.
pub open spec fn assoc_map<V>(s: Seq<(String, V)>) -> Map<Seq<char>, V>
    decreases s.len(),
{
    if s.len() == 0 {
        Map::empty()
    } else {
        assoc_map(s.drop_last()).insert(s.last().0@, s.last().1)
    }
}

/// The keys of `s`, read as character sequences, are pairwise distinct.
pub open spec fn distinct_keys<V>(s: Seq<(String, V)>) -> bool {
    forall|i: int, j: int| 0 <= i < j < s.len() ==> s[i].0@ != s[j].0@
}

/// A key is in the map exactly when some pair of the sequence carries it.
pub proof fn lemma_assoc_map_contains<V>(s: Seq<(String, V)>, k: Seq<char>)
    ensures
        assoc_map(s).dom().contains(k) <==> exists|i: int| 0 <= i < s.len() && s[i].0@ == k,
    decreases s.len(),
{
    if s.len() == 0 {
    } else {
        let d = s.drop_last();
        lemma_assoc_map_contains(d, k);
        if s.last().0@ == k {
            assert(s[s.len() - 1].0@ == k);
        } else {
            if assoc_map(s).dom().contains(k) {
                let i = choose|i: int| 0 <= i < d.len() && d[i].0@ == k;
                assert(s[i].0@ == k);
            }
            if exists|i: int| 0 <= i < s.len() && s[i].0@ == k {
                let i = choose|i: int| 0 <= i < s.len() && s[i].0@ == k;
                assert(i < s.len() - 1);
                assert(d[i].0@ == k);
            }
        }
    }
}

/// With distinct keys, the pair at index `i` is what the map holds at its key.
pub proof fn lemma_assoc_map_index<V>(s: Seq<(String, V)>, i: int)
    requires
        distinct_keys(s),
        0 <= i < s.len(),
    ensures
        assoc_map(s).dom().contains(s[i].0@),
        assoc_map(s)[s[i].0@] == s[i].1,
    decreases s.len(),
{
    let d = s.drop_last();
    if i == s.len() - 1 {
        assert(assoc_map(s) == assoc_map(d).insert(s.last().0@, s.last().1));
    } else {
        assert(d[i] == s[i]);
        assert(distinct_keys(d));
        lemma_assoc_map_index(d, i);
        assert(s.last().0@ != s[i].0@);
    }
}

/// Appending a pair inserts its binding.
pub proof fn lemma_assoc_map_push<V>(s: Seq<(String, V)>, key: String, v: V)
    ensures
        assoc_map(s.push((key, v))) == assoc_map(s).insert(key@, v),
{
    let t = s.push((key, v));
    assert(t.drop_last() =~= s);
    assert(t.last() == (key, v));
    assert(assoc_map(t) == assoc_map(t.drop_last()).insert(t.last().0@, t.last().1));
}

/// With distinct keys, removing the pair at index `i` removes its binding.
pub proof fn lemma_assoc_map_remove<V>(s: Seq<(String, V)>, i: int)
    requires
        distinct_keys(s),
        0 <= i < s.len(),
    ensures
        assoc_map(s.remove(i)) == assoc_map(s).remove(s[i].0@),
        distinct_keys(s.remove(i)),
    decreases s.len(),
{
    let k = s[i].0@;
    let d = s.drop_last();
    assert(distinct_keys(d));
    assert forall|x: int, y: int| 0 <= x < y < s.remove(i).len() implies s.remove(i)[x].0@
        != s.remove(i)[y].0@ by {
        if y < i {
            assert(s.remove(i)[x] == s[x] && s.remove(i)[y] == s[y]);
        } else if x < i {
            assert(s.remove(i)[x] == s[x] && s.remove(i)[y] == s[y + 1]);
        } else {
            assert(s.remove(i)[x] == s[x + 1] && s.remove(i)[y] == s[y + 1]);
        }
    }
    if i == s.len() - 1 {
        assert(s.remove(i) =~= d);
        lemma_assoc_map_contains(d, k);
        assert(!assoc_map(d).dom().contains(k));
        assert(assoc_map(s) == assoc_map(d).insert(k, s[i].1));
        assert(assoc_map(s).remove(k) =~= assoc_map(d));
    } else {
        let r = s.remove(i);
        assert(r.len() == s.len() - 1);
        assert(r.drop_last() =~= d.remove(i));
        assert(r.last() == s.last());
        assert(d[i] == s[i]);
        lemma_assoc_map_remove(d, i);
        assert(assoc_map(r) == assoc_map(d).remove(k).insert(s.last().0@, s.last().1));
        assert(s.last().0@ != k);
        assert(assoc_map(d).remove(k).insert(s.last().0@, s.last().1) =~= assoc_map(d).insert(
            s.last().0@,
            s.last().1,
        ).remove(k));
    }
}

/// With distinct keys, the map has exactly one binding per pair.
pub proof fn lemma_assoc_map_dom_len<V>(s: Seq<(String, V)>)
    requires
        distinct_keys(s),
    ensures
        assoc_map(s).dom().finite(),
        assoc_map(s).dom().len() == s.len(),
    decreases s.len(),
{
    if s.len() == 0 {
        assert(assoc_map(s).dom() =~= Set::<Seq<char>>::empty());
    } else {
        let d = s.drop_last();
        assert(distinct_keys(d));
        lemma_assoc_map_dom_len(d);
        lemma_assoc_map_contains(d, s.last().0@);
        assert(!assoc_map(d).dom().contains(s.last().0@));
        assert(assoc_map(s).dom() =~= assoc_map(d).dom().insert(s.last().0@));
    }
}

} // verus!
