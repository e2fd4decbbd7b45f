//! Small general facts about sequences and their multisets, used by the
//! sorting routines.

use vstd::prelude::*;
use vstd::multiset::Multiset;

verus! {

pub proof fn lemma_singleton_multiset<T>(x: T)
    ensures
        seq![x].to_multiset() == Multiset::empty().insert(x),
{
    broadcast use vstd::seq_lib::group_to_multiset_ensures;
    broadcast use vstd::multiset::group_multiset_axioms;

    assert(Seq::<T>::empty().to_multiset() =~= Multiset::<T>::empty()) by {
        assert(forall|a: T| !Seq::<T>::empty().contains(a));
    }
    assert(Seq::<T>::empty().push(x) =~= seq![x]);
    assert(seq![x].to_multiset() =~= Multiset::empty().insert(x));
}

/// Taking the head off a sequence takes one occurrence out of its multiset.
pub proof fn lemma_multiset_head<T>(x: T, rest: Seq<T>)
    ensures
        (seq![x] + rest).to_multiset() == rest.to_multiset().insert(x),
{
    broadcast use vstd::seq_lib::group_to_multiset_ensures;
    broadcast use vstd::multiset::group_multiset_axioms;

    vstd::seq_lib::lemma_multiset_commutative(seq![x], rest);
    lemma_singleton_multiset(x);
    assert((seq![x] + rest).to_multiset() =~= rest.to_multiset().insert(x));
}

/// Inserting at any position puts one occurrence into the multiset.
pub proof fn lemma_multiset_insert<T>(s: Seq<T>, p: int, x: T)
    requires
        0 <= p <= s.len(),
    ensures
        (s.subrange(0, p) + seq![x] + s.subrange(p, s.len() as int)).to_multiset()
            == s.to_multiset().insert(x),
{
    broadcast use vstd::seq_lib::group_to_multiset_ensures;
    broadcast use vstd::multiset::group_multiset_axioms;

    let a = s.subrange(0, p);
    let b = s.subrange(p, s.len() as int);
    vstd::seq_lib::lemma_multiset_commutative(a + seq![x], b);
    vstd::seq_lib::lemma_multiset_commutative(a, seq![x]);
    vstd::seq_lib::lemma_multiset_commutative(a, b);
    assert(a + b =~= s);
    lemma_singleton_multiset(x);
    assert((a + seq![x] + b).to_multiset() =~= s.to_multiset().insert(x));
}

} // verus!
