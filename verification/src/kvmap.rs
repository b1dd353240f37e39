//! Association sequences with string keys, viewed as maps. Both the alias
//! table and the plugin registry keep their entries in a vector with unique
//! keys and expose the folded map as their mathematical view.

use vstd::prelude::*;

verus! {

/// The map that an entry sequence denotes; a later entry with the same key
/// would win, though well-formed holders keep keys unique.
pub open spec fn kv_map<V: View>(s: Seq<(String, V)>) -> Map<Seq<char>, V::V>
    decreases s.len(),
{
    if s.len() == 0 {
        Map::<Seq<char>, V::V>::empty()
    } else {
        kv_map(s.drop_last()).insert(s.last().0@, s.last().1@)
    }
}

/// Keys are pairwise distinct.
pub open spec fn distinct_keys<V: View>(s: Seq<(String, V)>) -> bool {
    forall|i: int, j: int| 0 <= i < j < s.len() ==> s[i].0@ != s[j].0@
}

/// A key is in the map exactly when some entry carries it.
pub proof fn lemma_kv_map_contains<V: View>(s: Seq<(String, V)>, k: Seq<char>)
    ensures
        kv_map(s).contains_key(k) <==> exists|i: int| 0 <= i < s.len() && s[i].0@ == k,
    decreases s.len(),
{
    if s.len() == 0 {
    } else {
        lemma_kv_map_contains(s.drop_last(), k);
        if kv_map(s).contains_key(k) {
            if s.last().0@ == k {
                assert(s[s.len() - 1].0@ == k);
            } else {
                let i = choose|i: int| 0 <= i < s.drop_last().len() && s.drop_last()[i].0@ == k;
                assert(s[i].0@ == k);
            }
        }
        if exists|i: int| 0 <= i < s.len() && s[i].0@ == k {
            let i = choose|i: int| 0 <= i < s.len() && s[i].0@ == k;
            if i < s.len() - 1 {
                assert(s.drop_last()[i].0@ == k);
            }
        }
    }
}

/// With distinct keys, each entry is mapped to its own value.
pub proof fn lemma_kv_map_at<V: View>(s: Seq<(String, V)>, i: int)
    requires
        distinct_keys(s),
        0 <= i < s.len(),
    ensures
        kv_map(s).contains_key(s[i].0@),
        kv_map(s)[s[i].0@] == s[i].1@,
    decreases s.len(),
{
    if i == s.len() - 1 {
    } else {
        assert(forall|p: int, q: int|
            0 <= p < q < s.drop_last().len() ==> s.drop_last()[p].0@ != s.drop_last()[q].0@);
        lemma_kv_map_at(s.drop_last(), i);
        assert(s[i].0@ != s.last().0@);
    }
}

/// Appending an entry inserts its binding into the map.
pub proof fn lemma_kv_map_push<V: View>(s: Seq<(String, V)>, e: (String, V))
    ensures
        kv_map(s.push(e)) == kv_map(s).insert(e.0@, e.1@),
{
    assert(s.push(e).drop_last() =~= s);
    assert(s.push(e).last() == e);
}

/// Dropping the entry that holds a key removes that key and nothing else.
pub proof fn lemma_kv_map_remove<V: View>(s: Seq<(String, V)>, i: int)
    requires
        distinct_keys(s),
        0 <= i < s.len(),
    ensures
        distinct_keys(s.remove(i)),
        kv_map(s.remove(i)) == kv_map(s).remove(s[i].0@),
{
    let t = s.remove(i);
    assert forall|p: int, q: int| 0 <= p < q < t.len() implies t[p].0@ != t[q].0@ by {
        let sp = if p < i { p } else { p + 1 };
        let sq = if q < i { q } else { q + 1 };
        assert(t[p] == s[sp] && t[q] == s[sq]);
    }
    assert forall|k: Seq<char>|
        kv_map(t).contains_key(k) == kv_map(s).remove(s[i].0@).contains_key(k) by {
        lemma_kv_map_contains(t, k);
        lemma_kv_map_contains(s, k);
        if k == s[i].0@ {
            if kv_map(t).contains_key(k) {
                let j = choose|j: int| 0 <= j < t.len() && t[j].0@ == k;
                let sj = if j < i { j } else { j + 1 };
                assert(s[sj].0@ == k);
                assert(sj != i);
            }
        } else {
            if kv_map(t).contains_key(k) {
                let j = choose|j: int| 0 <= j < t.len() && t[j].0@ == k;
                let sj = if j < i { j } else { j + 1 };
                assert(s[sj].0@ == k);
            }
            if kv_map(s).contains_key(k) {
                let j = choose|j: int| 0 <= j < s.len() && s[j].0@ == k;
                assert(j != i);
                let tj = if j < i { j } else { j - 1 };
                assert(t[tj].0@ == k);
            }
        }
    }
    assert forall|k: Seq<char>| #[trigger]
        kv_map(t).contains_key(k) implies kv_map(t)[k] == kv_map(s).remove(s[i].0@)[k] by {
        lemma_kv_map_contains(t, k);
        let j = choose|j: int| 0 <= j < t.len() && t[j].0@ == k;
        lemma_kv_map_at(t, j);
        let sj = if j < i { j } else { j + 1 };
        assert(s[sj].0@ == k);
        lemma_kv_map_at(s, sj);
        assert(t[j].1@ == s[sj].1@);
    }
    assert(kv_map(t) =~= kv_map(s).remove(s[i].0@));
}

} // verus!
