//! Occurrence counts over sequences, with the lemmas the engine's
//! permutation and single-location arguments rest on.

use vstd::prelude::*;

verus! {

/// How many positions of `s` hold `x`.
pub open spec fn count_of<T>(s: Seq<T>, x: T) -> nat
    decreases s.len(),
{
    if s.len() == 0 {
        0
    } else {
        (if s.last() == x {
            1nat
        } else {
            0nat
        }) + count_of(s.drop_last(), x)
    }
}

/// Appending an element raises its count by one and no other.
pub proof fn lemma_count_push<T>(s: Seq<T>, v: T, x: T)
    ensures
        count_of(s.push(v), x) == count_of(s, x) + (if v == x {
            1nat
        } else {
            0nat
        }),
{
    assert(s.push(v).drop_last() =~= s);
}

/// Overwriting one position adjusts the counts of the old and new value only.
pub proof fn lemma_count_update<T>(s: Seq<T>, i: int, v: T, x: T)
    requires
        0 <= i < s.len(),
    ensures
        count_of(s.update(i, v), x) == count_of(s, x) + (if v == x {
            1nat
        } else {
            0nat
        }) - (if s[i] == x {
            1nat
        } else {
            0nat
        }),
    decreases s.len(),
{
    if i == s.len() - 1 {
        assert(s.update(i, v).drop_last() =~= s.drop_last());
        assert(s.update(i, v).last() == v);
    } else {
        assert(s.update(i, v).drop_last() =~= s.drop_last().update(i, v));
        assert(s.update(i, v).last() == s.last());
        lemma_count_update(s.drop_last(), i, v, x);
    }
}

/// Removing one position lowers the count of the removed value by one and no
/// other.
pub proof fn lemma_count_remove<T>(s: Seq<T>, i: int, x: T)
    requires
        0 <= i < s.len(),
    ensures
        count_of(s.remove(i), x) == count_of(s, x) - (if s[i] == x {
            1nat
        } else {
            0nat
        }),
    decreases s.len(),
{
    if i == s.len() - 1 {
        assert(s.remove(i) =~= s.drop_last());
    } else {
        assert(s.remove(i).drop_last() =~= s.drop_last().remove(i));
        assert(s.remove(i).last() == s.last());
        lemma_count_remove(s.drop_last(), i, x);
    }
}

/// Inserting an element at the front raises its count by one and no other.
pub proof fn lemma_count_insert_front<T>(s: Seq<T>, v: T, x: T)
    ensures
        count_of(s.insert(0, v), x) == count_of(s, x) + (if v == x {
            1nat
        } else {
            0nat
        }),
    decreases s.len(),
{
    if s.len() == 0 {
        assert(s.insert(0, v).drop_last() =~= s);
        assert(s.insert(0, v).last() == v);
    } else {
        assert(s.insert(0, v).drop_last() =~= s.drop_last().insert(0, v));
        assert(s.insert(0, v).last() == s.last());
        lemma_count_insert_front(s.drop_last(), v, x);
    }
}

/// A value with count zero is at no position, and conversely.
pub proof fn lemma_count_zero<T>(s: Seq<T>, x: T)
    ensures
        (count_of(s, x) == 0) <==> (forall|i: int| 0 <= i < s.len() ==> s[i] != x),
    decreases s.len(),
{
    if s.len() > 0 {
        lemma_count_zero(s.drop_last(), x);
        if count_of(s, x) == 0 {
            assert(forall|i: int|
                0 <= i < s.len() - 1 ==> s[i] == s.drop_last()[i] && s[i] != x);
        } else {
            if s.last() != x {
                let i = choose|i: int| 0 <= i < s.len() - 1 && s.drop_last()[i] == x;
                assert(s[i] == x);
            }
        }
    }
}

/// A value found at some position has positive count.
pub proof fn lemma_count_at_least_one<T>(s: Seq<T>, i: int, x: T)
    requires
        0 <= i < s.len(),
        s[i] == x,
    ensures
        count_of(s, x) >= 1,
    decreases s.len(),
{
    if i == s.len() - 1 {
    } else {
        lemma_count_at_least_one(s.drop_last(), i, x);
    }
}

} // verus!
