use vstd::prelude::*;
use vstd::arithmetic::div_mod::{
    lemma_mod_add_multiples_vanish, lemma_mod_bound, lemma_mod_sub_multiples_vanish,
    lemma_small_mod,
};

verus! {

/// Saturating list movement shared by the browse, search, environment and
/// history lists: the target index is clamped to `[0, len - 1]`, and an empty
/// list pins the index at 0.
pub open spec fn moved_index(len: nat, index: nat, delta: int) -> nat {
    if len == 0 {
        0
    } else if index + delta < 0 {
        0
    } else if index + delta >= len {
        (len - 1) as nat
    } else {
        (index + delta) as nat
    }
}

/// Wrapping movement used only for the field cursor of the input form: the
/// target index is reduced modulo the field count.
pub open spec fn wrapped_index(len: nat, index: nat, delta: int) -> nat {
    if len == 0 {
        0
    } else {
        ((index + delta) % (len as int)) as nat
    }
}

/// Every selection index stays within `[0, len - 1]`, whatever the delta; an
/// empty list leaves it at 0.
pub proof fn lemma_moved_index_in_range(len: nat, index: nat, delta: int)
    ensures
        len > 0 ==> moved_index(len, index, delta) < len,
        len == 0 ==> moved_index(len, index, delta) == 0,
{
}

/// The wrapping field cursor stays within `[0, len - 1]` as well.
pub proof fn lemma_wrapped_index_in_range(len: nat, index: nat, delta: int)
    ensures
        len > 0 ==> wrapped_index(len, index, delta) < len,
        len == 0 ==> wrapped_index(len, index, delta) == 0,
{
    if len > 0 {
        lemma_mod_bound(index + delta, len as int);
    }
}

pub fn move_index(len: usize, index: usize, delta: isize) -> (new_index: usize)
    ensures
        new_index == moved_index(len as nat, index as nat, delta as int),
{
    if len == 0 {
        return 0;
    }
    let target: i128 = index as i128 + delta as i128;
    if target < 0 {
        0
    } else if target >= len as i128 {
        len - 1
    } else {
        target as usize
    }
}

pub fn wrap_index(len: usize, index: usize, delta: isize) -> (new_index: usize)
    requires
        index <= len,
    ensures
        new_index == wrapped_index(len as nat, index as nat, delta as int),
{
    if len == 0 {
        return 0;
    }
    let len_i: i128 = len as i128;
    let ghost target: int = index + delta;
    let mut t: i128 = index as i128 + delta as i128;
    while t < 0
        invariant
            len_i == len as i128,
            len > 0,
            t <= i128::MAX - len_i,
            t % len_i == target % (len as int),
        decreases len_i - t,
    {
        proof {
            lemma_mod_add_multiples_vanish(t as int, len as int);
        }
        t = t + len_i;
    }
    while t >= len_i
        invariant
            len_i == len as i128,
            len > 0,
            t >= 0,
            t % len_i == target % (len as int),
        decreases t,
    {
        proof {
            lemma_mod_sub_multiples_vanish(t as int, len as int);
        }
        t = t - len_i;
    }
    proof {
        lemma_mod_bound(target, len as int);
        lemma_small_mod(t as nat, len as nat);
    }
    t as usize
}

} // verus!
