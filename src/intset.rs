//! Sets of integers, held as vectors without repeated elements.

use vstd::prelude::*;

verus! {

broadcast use vstd::seq_lib::group_seq_properties;

/// Whether `x` occurs in `v`.
pub fn set_contains(v: &Vec<usize>, x: usize) -> (r: bool)
    ensures
        r == v@.contains(x),
{
    let mut i: usize = 0;
    while i < v.len()
        invariant
            i <= v@.len(),
            forall|j: int| 0 <= j < i ==> v@[j] != x,
        decreases v@.len() - i,
    {
        if v[i] == x {
            return true;
        }
        i = i + 1;
    }
    false
}

/// Adds `x` unless it is there already.
pub fn set_insert(v: &mut Vec<usize>, x: usize)
    requires
        old(v)@.no_duplicates(),
    ensures
        final(v)@.no_duplicates(),
        final(v)@.to_set() == old(v)@.to_set().insert(x),
{
    if set_contains(v, x) {
        assert(v@.to_set() =~= v@.to_set().insert(x));
    } else {
        v.push(x);
    }
}

/// Adds every element of `xs`.
pub fn set_extend(v: &mut Vec<usize>, xs: &Vec<usize>)
    requires
        old(v)@.no_duplicates(),
    ensures
        final(v)@.no_duplicates(),
        final(v)@.to_set() == old(v)@.to_set() + xs@.to_set(),
{
    let ghost start = v@.to_set();
    let mut i: usize = 0;
    while i < xs.len()
        invariant
            i <= xs@.len(),
            v@.no_duplicates(),
            v@.to_set() == start + xs@.take(i as int).to_set(),
        decreases xs@.len() - i,
    {
        set_insert(v, xs[i]);
        assert(xs@.take(i + 1) =~= xs@.take(i as int).push(xs@[i as int]));
        i = i + 1;
    }
    assert(xs@.take(xs@.len() as int) =~= xs@);
    assert(v@.to_set() =~= start + xs@.to_set());
}

/// The elements of `a` that are not in `b`.
pub fn set_difference(a: &Vec<usize>, b: &Vec<usize>) -> (r: Vec<usize>)
    requires
        a@.no_duplicates(),
    ensures
        r@.no_duplicates(),
        r@.to_set() == a@.to_set().difference(b@.to_set()),
{
    let mut r: Vec<usize> = Vec::new();
    let mut i: usize = 0;
    while i < a.len()
        invariant
            i <= a@.len(),
            a@.no_duplicates(),
            r@.no_duplicates(),
            r@.to_set() == a@.take(i as int).to_set().difference(b@.to_set()),
            forall|x: usize| r@.contains(x) ==> a@.take(i as int).contains(x),
        decreases a@.len() - i,
    {
        let x = a[i];
        let ghost pre = a@.take(i as int);
        assert(a@.take(i + 1) =~= pre.push(x));
        assert(!pre.contains(x)) by {
            if pre.contains(x) {
                let j = choose|j: int| 0 <= j < pre.len() && pre[j] == x;
                assert(a@[j] == a@[i as int]);
            }
        }
        let ghost r0 = r@;
        proof {
            pre.lemma_push_to_set_commute(x);
            r0.lemma_push_to_set_commute(x);
        }
        if !set_contains(b, x) {
            assert(!r@.contains(x));
            r.push(x);
        }
        assert forall|y: usize| r@.contains(y) implies a@.take(i + 1).contains(y) by {
            if y != x {
                assert(pre.contains(y));
                let j = choose|j: int| 0 <= j < pre.len() && pre[j] == y;
                assert(a@.take(i + 1)[j] == y);
            } else {
                assert(a@.take(i + 1)[i as int] == y);
            }
        }
        assert(r@.to_set() =~= a@.take(i + 1).to_set().difference(b@.to_set()));
        i = i + 1;
    }
    assert(a@.take(a@.len() as int) =~= a@);
    r
}

/// A copy of `v`.
pub fn copy_ints(v: &Vec<usize>) -> (r: Vec<usize>)
    ensures
        r@ == v@,
{
    let mut r: Vec<usize> = Vec::new();
    let mut i: usize = 0;
    while i < v.len()
        invariant
            i <= v@.len(),
            r@ == v@.take(i as int),
        decreases v@.len() - i,
    {
        r.push(v[i]);
        assert(v@.take(i + 1) =~= v@.take(i as int).push(v@[i as int]));
        i = i + 1;
    }
    assert(v@.take(v@.len() as int) =~= v@);
    r
}

} // verus!
