//! Association lists keyed by text: a sequence of key/value pairs read as a
//! map, later pairs overriding earlier ones.
use vstd::prelude::*;

verus! {

/// The map that inserting the pairs of `e` in order builds.
pub open spec fn assoc_map<V>(e: Seq<(Seq<char>, V)>) -> Map<Seq<char>, V>
    decreases e.len(),
{
    if e.len() == 0 {
        Map::empty()
    } else {
        assoc_map(e.drop_last()).insert(e.last().0, e.last().1)
    }
}

/// No key occurs twice in `e`.
pub open spec fn keys_unique<V>(e: Seq<(Seq<char>, V)>) -> bool {
    forall|a: int, b: int| 0 <= a < b < e.len() ==> e[a].0 != e[b].0
}

/// The keys of `e`, in order.
pub open spec fn keys_of<V>(e: Seq<(Seq<char>, V)>) -> Seq<Seq<char>> {
    e.map_values(|p: (Seq<char>, V)| p.0)
}

/// A key that no pair carries is not in the map.
pub proof fn lemma_assoc_absent<V>(e: Seq<(Seq<char>, V)>, k: Seq<char>)
    requires
        forall|i: int| 0 <= i < e.len() ==> (#[trigger] e[i]).0 != k,
    ensures
        !assoc_map(e).contains_key(k),
    decreases e.len(),
{
    if e.len() > 0 {
        assert(forall|i: int| 0 <= i < e.len() - 1 ==> e.drop_last()[i] == e[i]);
        lemma_assoc_absent(e.drop_last(), k);
        assert(e.last() == e[e.len() - 1]);
    }
}

/// With unique keys, the map holds each pair of `e`.
pub proof fn lemma_assoc_at<V>(e: Seq<(Seq<char>, V)>, i: int)
    requires
        keys_unique(e),
        0 <= i < e.len(),
    ensures
        assoc_map(e).contains_key(e[i].0),
        assoc_map(e)[e[i].0] == e[i].1,
    decreases e.len(),
{
    if i < e.len() - 1 {
        assert(keys_unique(e.drop_last()));
        assert(e.drop_last()[i] == e[i]);
        lemma_assoc_at(e.drop_last(), i);
        assert(e[e.len() - 1].0 != e[i].0);
    }
}

/// The keys of the map are the keys of the pairs.
pub proof fn lemma_assoc_dom<V>(e: Seq<(Seq<char>, V)>)
    ensures
        assoc_map(e).dom() == keys_of(e).to_set(),
    decreases e.len(),
{
    if e.len() > 0 {
        lemma_assoc_dom(e.drop_last());
        assert(keys_of(e) =~= keys_of(e.drop_last()).push(e.last().0));
        assert(keys_of(e).to_set() =~= keys_of(e.drop_last()).to_set().insert(e.last().0)) by {
            assert forall|k: Seq<char>| keys_of(e).to_set().contains(k) <==> keys_of(e.drop_last()).to_set().insert(
                e.last().0,
            ).contains(k) by {
                if keys_of(e).contains(k) {
                    let j = choose|j: int| 0 <= j < keys_of(e).len() && keys_of(e)[j] == k;
                    if j < e.len() - 1 {
                        assert(keys_of(e.drop_last())[j] == k);
                    }
                }
                if keys_of(e.drop_last()).contains(k) {
                    let j = choose|j: int| 0 <= j < keys_of(e.drop_last()).len() && keys_of(e.drop_last())[j] == k;
                    assert(keys_of(e)[j] == k);
                }
                if k == e.last().0 {
                    assert(keys_of(e)[e.len() - 1] == k);
                }
            }
        }
        assert(assoc_map(e).dom() =~= assoc_map(e.drop_last()).dom().insert(e.last().0));
    }
}

/// Replacing the value of the pair at `i` replaces it in the map.
pub proof fn lemma_assoc_update<V>(e: Seq<(Seq<char>, V)>, i: int, v: V)
    requires
        keys_unique(e),
        0 <= i < e.len(),
    ensures
        assoc_map(e.update(i, (e[i].0, v))) == assoc_map(e).insert(e[i].0, v),
        keys_unique(e.update(i, (e[i].0, v))),
    decreases e.len(),
{
    let u = e.update(i, (e[i].0, v));
    if i == e.len() - 1 {
        assert(u.drop_last() =~= e.drop_last());
        assert(assoc_map(u) =~= assoc_map(e).insert(e[i].0, v));
    } else {
        assert(keys_unique(e.drop_last()));
        assert(e.drop_last()[i] == e[i]);
        lemma_assoc_update(e.drop_last(), i, v);
        assert(u.drop_last() =~= e.drop_last().update(i, (e[i].0, v)));
        assert(e[e.len() - 1].0 != e[i].0);
        assert(assoc_map(u) =~= assoc_map(e).insert(e[i].0, v));
    }
}

/// Removing the pair at `i` removes its key from the map.
pub proof fn lemma_assoc_remove<V>(e: Seq<(Seq<char>, V)>, i: int)
    requires
        keys_unique(e),
        0 <= i < e.len(),
    ensures
        assoc_map(e.remove(i)) == assoc_map(e).remove(e[i].0),
        keys_unique(e.remove(i)),
    decreases e.len(),
{
    let r = e.remove(i);
    assert forall|a: int, b: int| 0 <= a < b < r.len() implies r[a].0 != r[b].0 by {
        let a0 = if a < i { a } else { a + 1 };
        let b0 = if b < i { b } else { b + 1 };
        assert(r[a] == e[a0]);
        assert(r[b] == e[b0]);
    }
    if i == e.len() - 1 {
        assert(r =~= e.drop_last());
        assert forall|j: int| 0 <= j < e.drop_last().len() implies (#[trigger] e.drop_last()[j]).0 != e[i].0 by {
            assert(e.drop_last()[j] == e[j]);
        }
        lemma_assoc_absent(e.drop_last(), e[i].0);
        assert(assoc_map(r) =~= assoc_map(e).remove(e[i].0));
    } else {
        assert(keys_unique(e.drop_last()));
        assert(e.drop_last()[i] == e[i]);
        lemma_assoc_remove(e.drop_last(), i);
        assert(r.drop_last() =~= e.drop_last().remove(i));
        assert(r.last() == e.last());
        assert(e[e.len() - 1].0 != e[i].0);
        assert(assoc_map(r) =~= assoc_map(e).remove(e[i].0));
    }
}

/// Appending a pair with a new key inserts it into the map.
pub proof fn lemma_assoc_push<V>(e: Seq<(Seq<char>, V)>, k: Seq<char>, v: V)
    requires
        keys_unique(e),
        forall|i: int| 0 <= i < e.len() ==> (#[trigger] e[i]).0 != k,
    ensures
        assoc_map(e.push((k, v))) == assoc_map(e).insert(k, v),
        keys_unique(e.push((k, v))),
{
    assert(e.push((k, v)).drop_last() =~= e);
    assert forall|a: int, b: int| 0 <= a < b < e.push((k, v)).len() implies e.push((k, v))[a].0 != e.push((k, v))[b].0 by {
        if b == e.len() {
            assert(e.push((k, v))[a] == e[a]);
        } else {
            assert(e.push((k, v))[a] == e[a]);
            assert(e.push((k, v))[b] == e[b]);
        }
    }
}

} // verus!
