//! Association lists with string keys, viewed as finite maps.
//!
//! Both the header set and the implements-index keep their entries in a
//! `Vec` with pairwise-distinct keys; their contracts speak of the map the
//! entries denote.

use vstd::prelude::*;

verus! {

/// The keys of the entries are pairwise distinct.
pub open spec fn keys_unique<V>(s: Seq<(String, V)>) -> bool {
    forall|i: int, j: int| 0 <= i < j < s.len() ==> s[i].0@ != s[j].0@
}

/// The map an association list denotes: later entries would win, though
/// with distinct keys the order never matters.
pub open spec fn assoc_map<V: DeepView>(s: Seq<(String, V)>) -> Map<Seq<char>, V::V>
    decreases s.len(),
{
    if s.len() == 0 {
        Map::empty()
    } else {
        assoc_map(s.drop_last()).insert(s.last().0@, s.last().1.deep_view())
    }
}

/// A key that no entry carries is absent from the map.
pub proof fn lemma_assoc_map_absent<V: DeepView>(s: Seq<(String, V)>, k: Seq<char>)
    requires
        forall|i: int| 0 <= i < s.len() ==> s[i].0@ != k,
    ensures
        !assoc_map(s).dom().contains(k),
    decreases s.len(),
{
    if s.len() > 0 {
        lemma_assoc_map_absent(s.drop_last(), k);
    }
}

/// The entry carrying a key gives that key's value in the map.
pub proof fn lemma_assoc_map_found<V: DeepView>(s: Seq<(String, V)>, i: int)
    requires
        keys_unique(s),
        0 <= i < s.len(),
    ensures
        assoc_map(s).dom().contains(s[i].0@),
        assoc_map(s)[s[i].0@] == s[i].1.deep_view(),
    decreases s.len(),
{
    if i < s.len() - 1 {
        lemma_assoc_map_found(s.drop_last(), i);
    }
}

/// Appending an entry with a fresh key inserts it into the map.
pub proof fn lemma_assoc_map_push<V: DeepView>(s: Seq<(String, V)>, x: (String, V))
    requires
        keys_unique(s),
        forall|i: int| 0 <= i < s.len() ==> s[i].0@ != x.0@,
    ensures
        keys_unique(s.push(x)),
        assoc_map(s.push(x)) == assoc_map(s).insert(x.0@, x.1.deep_view()),
{
    assert(s.push(x).drop_last() =~= s);
}

/// Replacing the entry that carries a key updates that key's value.
pub proof fn lemma_assoc_map_update<V: DeepView>(s: Seq<(String, V)>, i: int, x: (String, V))
    requires
        keys_unique(s),
        0 <= i < s.len(),
        x.0@ == s[i].0@,
    ensures
        keys_unique(s.update(i, x)),
        assoc_map(s.update(i, x)) == assoc_map(s).insert(x.0@, x.1.deep_view()),
    decreases s.len(),
{
    if i == s.len() - 1 {
        assert(s.update(i, x).drop_last() =~= s.drop_last());
        assert(assoc_map(s.update(i, x)) =~= assoc_map(s).insert(x.0@, x.1.deep_view()));
    } else {
        assert(s.update(i, x).drop_last() =~= s.drop_last().update(i, x));
        lemma_assoc_map_update(s.drop_last(), i, x);
        assert(s.update(i, x).last() == s.last());
        assert(assoc_map(s.update(i, x)) =~= assoc_map(s).insert(x.0@, x.1.deep_view()));
    }
}

} // verus!
