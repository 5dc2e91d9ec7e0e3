//! Lists of entries keyed by a string, read by the first entry of a key.

use vstd::prelude::*;

verus! {

/// The value of the first entry with key `k`, if any.
pub open spec fn first_lookup<A>(s: Seq<(Seq<char>, A)>, k: Seq<char>) -> Option<A>
    decreases s.len(),
{
    if s.len() == 0 {
        None
    } else if s[0].0 == k {
        Some(s[0].1)
    } else {
        first_lookup(s.drop_first(), k)
    }
}

/// `i` is the position of the first entry with key `k`.
pub open spec fn is_first_key<A>(s: Seq<(Seq<char>, A)>, k: Seq<char>, i: int) -> bool {
    &&& 0 <= i < s.len()
    &&& s[i].0 == k
    &&& forall|j: int| 0 <= j < i ==> #[trigger] s[j].0 != k
}

/// The first entry of a key holds the value a lookup finds.
pub proof fn lemma_first_key_lookup<A>(s: Seq<(Seq<char>, A)>, k: Seq<char>, i: int)
    requires
        is_first_key(s, k, i),
    ensures
        first_lookup(s, k) == Some(s[i].1),
    decreases i,
{
    if i > 0 {
        assert(s[0].0 != k);
        assert(is_first_key(s.drop_first(), k, i - 1)) by {
            assert forall|j: int| 0 <= j < i - 1 implies #[trigger] s.drop_first()[j].0 != k by {
                assert(s[j + 1].0 != k);
            }
        }
        lemma_first_key_lookup(s.drop_first(), k, i - 1);
    }
}

/// A lookup finds nothing exactly when no entry has the key.
pub proof fn lemma_lookup_none<A>(s: Seq<(Seq<char>, A)>, k: Seq<char>)
    ensures
        first_lookup(s, k) is None <==> forall|j: int| 0 <= j < s.len() ==> #[trigger] s[j].0 != k,
    decreases s.len(),
{
    if s.len() > 0 {
        lemma_lookup_none(s.drop_first(), k);
        if s[0].0 != k {
            assert forall|j: int| 0 <= j < s.len() && (forall|m: int| 0 <= m < s.drop_first().len() ==> #[trigger] s.drop_first()[m].0 != k) implies #[trigger] s[j].0 != k by {
                if j > 0 {
                    assert(s.drop_first()[j - 1] == s[j]);
                }
            }
            if exists|j: int| 0 <= j < s.drop_first().len() && #[trigger] s.drop_first()[j].0 == k {
                let j = choose|j: int| 0 <= j < s.drop_first().len() && #[trigger] s.drop_first()[j].0 == k;
                assert(s[j + 1].0 == k);
            }
        }
    }
}

/// Replacing the first entry of `k` changes only what a lookup of `k` finds.
pub proof fn lemma_lookup_update<A>(s: Seq<(Seq<char>, A)>, k: Seq<char>, i: int, a: A, k2: Seq<char>)
    requires
        is_first_key(s, k, i),
    ensures
        first_lookup(s.update(i, (k, a)), k2) == if k2 == k {
            Some(a)
        } else {
            first_lookup(s, k2)
        },
    decreases i,
{
    if i == 0 {
        assert(s.update(0, (k, a)).drop_first() =~= s.drop_first());
    } else {
        assert(s.update(i, (k, a)).drop_first() =~= s.drop_first().update(i - 1, (k, a)));
        assert(is_first_key(s.drop_first(), k, i - 1)) by {
            assert forall|j: int| 0 <= j < i - 1 implies #[trigger] s.drop_first()[j].0 != k by {
                assert(s[j + 1].0 != k);
            }
        }
        lemma_lookup_update(s.drop_first(), k, i - 1, a, k2);
    }
}

/// Appending an entry for a key that has none changes only what a lookup of
/// that key finds.
pub proof fn lemma_lookup_push<A>(s: Seq<(Seq<char>, A)>, k: Seq<char>, a: A, k2: Seq<char>)
    requires
        first_lookup(s, k) is None,
    ensures
        first_lookup(s.push((k, a)), k2) == if k2 == k {
            Some(a)
        } else {
            first_lookup(s, k2)
        },
    decreases s.len(),
{
    if s.len() == 0 {
        assert(s.push((k, a)).drop_first() =~= s);
    } else {
        assert(s.push((k, a)).drop_first() =~= s.drop_first().push((k, a)));
        lemma_lookup_push(s.drop_first(), k, a, k2);
    }
}

/// The entries without key `k`.
pub open spec fn without_key<A>(k: Seq<char>) -> spec_fn((Seq<char>, A)) -> bool {
    |e: (Seq<char>, A)| e.0 != k
}

/// Dropping every entry of `k` changes only what a lookup of `k` finds.
pub proof fn lemma_lookup_remove<A>(s: Seq<(Seq<char>, A)>, k: Seq<char>, k2: Seq<char>)
    ensures
        first_lookup(s.filter(without_key::<A>(k)), k2) == if k2 == k {
            None
        } else {
            first_lookup(s, k2)
        },
    decreases s.len(),
{
    if s.len() == 0 {
        assert(s.filter(without_key::<A>(k)) =~= Seq::<(Seq<char>, A)>::empty());
    } else {
        let rest = s.drop_first();
        assert(s =~= seq![s[0]] + rest);
        lemma_lookup_remove(rest, k, k2);
        Seq::<(Seq<char>, A)>::filter_distributes_over_add(seq![s[0]], rest, without_key::<A>(k));
        reveal_with_fuel(Seq::filter, 2);
        assert(seq![s[0]].drop_last() =~= Seq::<(Seq<char>, A)>::empty());
        let fr = rest.filter(without_key::<A>(k));
        if s[0].0 == k {
            assert(seq![s[0]].filter(without_key::<A>(k)) =~= Seq::<(Seq<char>, A)>::empty());
            assert(s.filter(without_key::<A>(k)) =~= fr);
        } else {
            assert(seq![s[0]].filter(without_key::<A>(k)) =~= seq![s[0]]);
            assert(s.filter(without_key::<A>(k)) =~= seq![s[0]] + fr);
            assert((seq![s[0]] + fr).drop_first() =~= fr);
        }
    }
}

} // verus!
