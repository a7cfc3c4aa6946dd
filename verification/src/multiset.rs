//! Order-independent equality, with multiplicity, of two collections of
//! lookup tuples. This is the obligation a cross-table lookup imposes.

use vstd::prelude::*;
use vstd::multiset::Multiset;
use vstd::seq_lib::group_to_multiset_ensures;

use crate::field::is_canon;

verus! {

/// How many entries of `s` equal `t`.
pub open spec fn count_of(s: Seq<Seq<u64>>, t: Seq<u64>) -> nat
    decreases s.len(),
{
    if s.len() == 0 {
        0
    } else {
        count_of(s.drop_last(), t) + if s.last() == t {
            1nat
        } else {
            0nat
        }
    }
}

/// Two tuple collections are equal as multisets: every tuple occurs in both
/// with the same multiplicity.
pub open spec fn multiset_eq(a: Seq<Seq<u64>>, b: Seq<Seq<u64>>) -> bool {
    forall|t: Seq<u64>| #[trigger] count_of(a, t) == count_of(b, t)
}

/// `count_of` agrees with the multiset view of the sequence.
pub proof fn lemma_count_is_multiset_count(s: Seq<Seq<u64>>, t: Seq<u64>)
    ensures
        count_of(s, t) == s.to_multiset().count(t),
    decreases s.len(),
{
    broadcast use group_to_multiset_ensures;

    if s.len() == 0 {
        assert(s.to_multiset() =~= Multiset::<Seq<u64>>::empty());
    } else {
        lemma_count_is_multiset_count(s.drop_last(), t);
        assert(s =~= s.drop_last().push(s.last()));
        assert(s.drop_last().push(s.last()).to_multiset() =~= s.drop_last().to_multiset().insert(
            s.last(),
        ));
    }
}

/// Multiset equality of the spec above coincides with equality of the
/// multiset views.
pub proof fn lemma_multiset_eq_is_to_multiset(a: Seq<Seq<u64>>, b: Seq<Seq<u64>>)
    ensures
        multiset_eq(a, b) <==> a.to_multiset() == b.to_multiset(),
{
    if multiset_eq(a, b) {
        assert forall|t: Seq<u64>| a.to_multiset().count(t) == b.to_multiset().count(t) by {
            lemma_count_is_multiset_count(a, t);
            lemma_count_is_multiset_count(b, t);
        }
        assert(a.to_multiset() =~= b.to_multiset());
    }
    if a.to_multiset() == b.to_multiset() {
        assert forall|t: Seq<u64>| #[trigger] count_of(a, t) == count_of(b, t) by {
            lemma_count_is_multiset_count(a, t);
            lemma_count_is_multiset_count(b, t);
        }
    }
}

/// A tuple absent from `s` has count zero.
pub proof fn lemma_count_absent(s: Seq<Seq<u64>>, t: Seq<u64>)
    requires
        forall|i: int| 0 <= i < s.len() ==> #[trigger] s[i] != t,
    ensures
        count_of(s, t) == 0,
    decreases s.len(),
{
    if s.len() > 0 {
        lemma_count_absent(s.drop_last(), t);
    }
}

/// Rows are canonical field elements.
pub open spec fn row_canon(row: Seq<u64>) -> bool {
    forall|i: int| 0 <= i < row.len() ==> is_canon(#[trigger] row[i])
}

/// Every row of the table is canonical.
pub open spec fn rows_canon(t: Seq<Seq<u64>>) -> bool {
    forall|i: int| 0 <= i < t.len() ==> row_canon(#[trigger] t[i])
}

/// Decides equality of two tuples.
pub fn tuple_eq(a: &Vec<u64>, b: &Vec<u64>) -> (r: bool)
    ensures
        r <==> a@ == b@,
{
    if a.len() != b.len() {
        return false;
    }
    let mut k: usize = 0;
    while k < a.len()
        invariant
            k <= a@.len(),
            a@.len() == b@.len(),
            forall|i: int| 0 <= i < k ==> a@[i] == b@[i],
        decreases a@.len() - k,
    {
        if a[k] != b[k] {
            return false;
        }
        k = k + 1;
    }
    proof {
        assert(a@ =~= b@);
    }
    true
}

/// Counts the occurrences of `t` in `s`.
pub fn count_occurrences(s: &Vec<Vec<u64>>, t: &Vec<u64>) -> (r: usize)
    ensures
        r == count_of(s.deep_view(), t@),
{
    let mut n: usize = 0;
    let mut k: usize = 0;
    proof {
        assert(s.deep_view().take(0int) =~= Seq::<Seq<u64>>::empty());
    }
    while k < s.len()
        invariant
            k <= s@.len(),
            s.deep_view().len() == s@.len(),
            n <= k,
            n == count_of(s.deep_view().take(k as int), t@),
        decreases s@.len() - k,
    {
        proof {
            assert(s.deep_view().take(k + 1).drop_last() =~= s.deep_view().take(k as int));
            assert(s.deep_view().take(k + 1).last() == s.deep_view()[k as int]);
            assert(s.deep_view()[k as int] =~= s@[k as int]@);
        }
        if tuple_eq(&s[k], t) {
            n = n + 1;
        }
        k = k + 1;
    }
    proof {
        assert(s.deep_view().take(s@.len() as int) =~= s.deep_view());
    }
    n
}

/// Decides multiset equality of two tuple collections.
pub fn multiset_check(a: &Vec<Vec<u64>>, b: &Vec<Vec<u64>>) -> (r: bool)
    ensures
        r <==> multiset_eq(a.deep_view(), b.deep_view()),
{
    let mut k: usize = 0;
    while k < a.len()
        invariant
            k <= a@.len(),
            a.deep_view().len() == a@.len(),
            forall|i: int|
                0 <= i < k ==> count_of(a.deep_view(), #[trigger] a.deep_view()[i]) == count_of(
                    b.deep_view(),
                    a.deep_view()[i],
                ),
        decreases a@.len() - k,
    {
        let ca = count_occurrences(a, &a[k]);
        let cb = count_occurrences(b, &a[k]);
        proof {
            assert(a.deep_view()[k as int] =~= a@[k as int]@);
        }
        if ca != cb {
            proof {
                assert(count_of(a.deep_view(), a.deep_view()[k as int]) != count_of(
                    b.deep_view(),
                    a.deep_view()[k as int],
                ));
            }
            return false;
        }
        k = k + 1;
    }
    let mut j: usize = 0;
    while j < b.len()
        invariant
            j <= b@.len(),
            b.deep_view().len() == b@.len(),
            a.deep_view().len() == a@.len(),
            forall|i: int|
                0 <= i < a.deep_view().len() ==> count_of(
                    a.deep_view(),
                    #[trigger] a.deep_view()[i],
                ) == count_of(b.deep_view(), a.deep_view()[i]),
            forall|i: int|
                0 <= i < j ==> count_of(a.deep_view(), #[trigger] b.deep_view()[i]) == count_of(
                    b.deep_view(),
                    b.deep_view()[i],
                ),
        decreases b@.len() - j,
    {
        let ca = count_occurrences(a, &b[j]);
        let cb = count_occurrences(b, &b[j]);
        proof {
            assert(b.deep_view()[j as int] =~= b@[j as int]@);
        }
        if ca != cb {
            return false;
        }
        j = j + 1;
    }
    proof {
        let av = a.deep_view();
        let bv = b.deep_view();
        assert forall|t: Seq<u64>| #[trigger] count_of(av, t) == count_of(bv, t) by {
            if exists|i: int| 0 <= i < av.len() && av[i] == t {
                let i = choose|i: int| 0 <= i < av.len() && av[i] == t;
                assert(count_of(av, av[i]) == count_of(bv, av[i]));
            } else if exists|i: int| 0 <= i < bv.len() && bv[i] == t {
                let i = choose|i: int| 0 <= i < bv.len() && bv[i] == t;
                assert(count_of(av, bv[i]) == count_of(bv, bv[i]));
            } else {
                lemma_count_absent(av, t);
                lemma_count_absent(bv, t);
            }
        }
    }
    true
}

} // verus!
