//! Sorting by a total preorder, used wherever the registry or the interpreter
//! list hands records out in a fixed order.
use vstd::prelude::*;

verus! {

/// A total preorder on `T`, with an executable test.
pub trait Order<T> {
    spec fn le(a: T, b: T) -> bool;

    fn le_exec(a: &T, b: &T) -> (res: bool)
        ensures
            res == Self::le(*a, *b),
    ;

    proof fn lemma_total(a: T, b: T)
        ensures
            Self::le(a, b) || Self::le(b, a),
    ;

    proof fn lemma_trans(a: T, b: T, c: T)
        requires
            Self::le(a, b),
            Self::le(b, c),
        ensures
            Self::le(a, c),
    ;
}

/// Every element comes no later in the order than each element after it.
pub open spec fn sorted_by<T, O: Order<T>>(s: Seq<T>) -> bool {
    forall|i: int, j: int| 0 <= i < j < s.len() ==> O::le(#[trigger] s[i], #[trigger] s[j])
}

/// Sorts `v` by the order `O`: the result holds the same elements, each as
/// often, and is sorted.
pub fn sort_by_order<T, O: Order<T>>(v: Vec<T>) -> (res: Vec<T>)
    ensures
        res@.to_multiset() == v@.to_multiset(),
        sorted_by::<T, O>(res@),
{
    broadcast use vstd::seq_lib::group_to_multiset_ensures;
    broadcast use vstd::multiset::group_multiset_axioms;

    let mut out: Vec<T> = Vec::new();
    let mut rest = v;
    let ghost orig = rest@;
    while rest.len() > 0
        invariant
            out@.to_multiset().add(rest@.to_multiset()) == orig.to_multiset(),
            sorted_by::<T, O>(out@),
        decreases rest.len(),
    {
        let ghost before = rest@;
        let x = rest.pop().unwrap();
        assert(before =~= rest@.push(x));
        let mut j: usize = 0;
        while j < out.len() && O::le_exec(&out[j], &x)
            invariant
                j <= out.len(),
                forall|k: int| 0 <= k < j ==> O::le(#[trigger] out@[k], x),
            decreases out.len() - j,
        {
            j = j + 1;
        }
        proof {
            if j < out.len() {
                O::lemma_total(out@[j as int], x);
            }
        }
        let ghost old_out = out@;
        out.insert(j, x);
        proof {
            assert(out@ =~= old_out.insert(j as int, x));
            vstd::seq_lib::to_multiset_insert(old_out, j as int, x);
            vstd::seq_lib::to_multiset_build(rest@, x);
            assert(out@.to_multiset().add(rest@.to_multiset()) =~= old_out.to_multiset().add(
                before.to_multiset(),
            ));
            assert forall|a: int, b: int| 0 <= a < b < out@.len() implies O::le(
                #[trigger] out@[a],
                #[trigger] out@[b],
            ) by {
                if a < j && b < j {
                    assert(out@[a] == old_out[a] && out@[b] == old_out[b]);
                } else if a < j && b == j {
                } else if a < j && b > j {
                    assert(out@[a] == old_out[a] && out@[b] == old_out[b - 1]);
                    assert(O::le(old_out[a], x));
                    O::lemma_trans(old_out[a], x, old_out[j as int]);
                    if b - 1 > j {
                        O::lemma_trans(old_out[a], old_out[j as int], old_out[b - 1]);
                    }
                } else if a == j {
                    assert(out@[b] == old_out[b - 1]);
                    if b - 1 > j {
                        O::lemma_trans(x, old_out[j as int], old_out[b - 1]);
                    }
                } else {
                    assert(out@[a] == old_out[a - 1] && out@[b] == old_out[b - 1]);
                }
            }
        }
    }
    assert(rest@ =~= Seq::<T>::empty());
    out
}

/// Reordering keeps keys apart that were apart.
pub proof fn lemma_permutation_keys_distinct<A, K>(s: Seq<A>, t: Seq<A>, key: spec_fn(A) -> K)
    requires
        s.to_multiset() == t.to_multiset(),
        forall|i: int, j: int|
            0 <= i < s.len() && 0 <= j < s.len() && i != j ==> key(#[trigger] s[i]) != key(
                #[trigger] s[j],
            ),
    ensures
        forall|i: int, j: int|
            0 <= i < t.len() && 0 <= j < t.len() && i != j ==> key(#[trigger] t[i]) != key(
                #[trigger] t[j],
            ),
{
    broadcast use vstd::seq_lib::group_to_multiset_ensures;

    assert(s.no_duplicates());
    s.lemma_multiset_has_no_duplicates();
    t.lemma_multiset_has_no_duplicates_conv();
    assert forall|i: int, j: int|
        0 <= i < t.len() && 0 <= j < t.len() && i != j implies key(#[trigger] t[i]) != key(
        #[trigger] t[j],
    ) by {
        assert(t.to_multiset().count(t[i]) > 0);
        assert(t.to_multiset().count(t[j]) > 0);
        assert(s.contains(t[i]));
        assert(s.contains(t[j]));
        let a = choose|a: int| 0 <= a < s.len() && s[a] == t[i];
        let b = choose|b: int| 0 <= b < s.len() && s[b] == t[j];
        assert(t[i] != t[j]);
    }
}

} // verus!
