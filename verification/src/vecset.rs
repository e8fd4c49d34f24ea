use vstd::prelude::*;

use crate::ids::KeyEq;
use crate::seqs::lemma_filter_contains_iff;

verus! {

broadcast use vstd::seq_lib::group_seq_properties;

/// Whether `v` holds `x`.
pub fn vec_contains<T: KeyEq>(v: &Vec<T>, x: &T) -> (r: bool)
    ensures
        r == v@.contains(*x),
        r == v@.to_set().contains(*x),
{
    let mut i: usize = 0;
    while i < v.len()
        invariant
            i <= v.len(),
            forall|j: int| 0 <= j < i ==> v@[j] != *x,
        decreases v.len() - i,
    {
        if v[i].same(x) {
            return true;
        }
        i = i + 1;
    }
    false
}

/// Adds `x` to the set that `v` holds.
pub fn set_insert<T: KeyEq>(v: &mut Vec<T>, x: T)
    ensures
        final(v)@.to_set() == old(v)@.to_set().insert(x),
{
    if !vec_contains(v, &x) {
        v.push(x);
        proof {
            assert(final(v)@.to_set() =~= old(v)@.to_set().insert(x));
        }
    } else {
        proof {
            assert(final(v)@.to_set() =~= old(v)@.to_set().insert(x));
        }
    }
}

/// Keeps the elements that differ from `x`.
pub fn set_remove<T: KeyEq>(v: &mut Vec<T>, x: &T)
    ensures
        final(v)@ == old(v)@.filter(|y: T| y != *x),
        final(v)@.to_set() == old(v)@.to_set().remove(*x),
{
    let ghost before = v@;
    let ghost pred = |y: T| y != *x;
    let mut kept: Vec<T> = Vec::new();
    let mut i: usize = 0;
    while i < v.len()
        invariant
            before == v@,
            pred == (|y: T| y != *x),
            i <= v.len(),
            kept@ == before.take(i as int).filter(pred),
        decreases v.len() - i,
    {
        proof {
            before.lemma_take_succ_push(i as int);
            before.take(i as int).lemma_filter_push(before[i as int], pred);
        }
        if !v[i].same(x) {
            kept.push(v[i]);
        }
        i = i + 1;
    }
    proof {
        assert(before.take(before.len() as int) =~= before);
        assert forall|y: T| kept@.contains(y) <==> before.contains(y) && y != *x by {
            lemma_filter_contains_iff(before, pred, y);
        }
        assert(kept@.to_set() =~= before.to_set().remove(*x));
    }
    *v = kept;
}

pub fn set_clear<T>(v: &mut Vec<T>)
    ensures
        final(v)@ == Seq::<T>::empty(),
        final(v)@.to_set() == Set::<T>::empty(),
{
    v.clear();
    proof {
        assert(final(v)@.to_set() =~= Set::<T>::empty());
    }
}

} // verus!
