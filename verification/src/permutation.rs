//! The permutation argument that realizes a cross-table lookup: per
//! challenge pair, every side accumulates a running product over its rows —
//! the factor of a selected row is `gamma + combine(tuple, beta)`, of an
//! excluded row `1` — and multiset equality forces the looking sides'
//! final products, multiplied together, to meet the looked side's.

use vstd::prelude::*;

use crate::field::{fadd, fmul, is_canon, f_add, f_mul};
use crate::multiset::{row_canon, rows_canon};
use crate::table::TableWithColumns;

verus! {

/// `tuple[0] * beta^(n-1) + ... + tuple[n-1]`, the batched combination of a
/// key tuple under the challenge `beta`.
pub open spec fn combine_spec(tuple: Seq<u64>, beta: u64) -> int
    decreases tuple.len(),
{
    if tuple.len() == 0 {
        0
    } else {
        fadd(fmul(combine_spec(tuple.drop_last(), beta), beta as int), tuple.last() as int)
    }
}

/// The factor one row contributes to a side's running product.
pub open spec fn factor_spec(side: TableWithColumns, row: Seq<u64>, beta: u64, gamma: u64) -> int {
    if side.selected(row) {
        fadd(gamma as int, combine_spec(side.tuple_spec(row), beta))
    } else {
        1
    }
}

/// The running product of a side over the rows of `t`.
pub open spec fn running_product(
    side: TableWithColumns,
    t: Seq<Seq<u64>>,
    beta: u64,
    gamma: u64,
) -> int
    decreases t.len(),
{
    if t.len() == 0 {
        1
    } else {
        fmul(running_product(side, t.drop_last(), beta, gamma), factor_spec(
            side,
            t.last(),
            beta,
            gamma,
        ))
    }
}

/// The Z column of a side: entry `i` is the running product over rows
/// `0..=i`.
pub open spec fn z_values(side: TableWithColumns, t: Seq<Seq<u64>>, beta: u64, gamma: u64) -> Seq<
    u64,
>
    decreases t.len(),
{
    if t.len() == 0 {
        Seq::empty()
    } else {
        z_values(side, t.drop_last(), beta, gamma).push(
            running_product(side, t, beta, gamma) as u64,
        )
    }
}

/// Evaluates the batched combination of a tuple.
pub fn combine(tuple: &Vec<u64>, beta: u64) -> (r: u64)
    requires
        row_canon(tuple@),
        is_canon(beta),
    ensures
        r as int == combine_spec(tuple@, beta),
        is_canon(r),
{
    let mut acc: u64 = 0;
    let mut k: usize = 0;
    proof {
        assert(tuple@.take(0int) =~= Seq::<u64>::empty());
    }
    while k < tuple.len()
        invariant
            k <= tuple@.len(),
            acc as int == combine_spec(tuple@.take(k as int), beta),
            is_canon(acc),
            is_canon(beta),
            row_canon(tuple@),
        decreases tuple@.len() - k,
    {
        proof {
            assert(tuple@.take(k + 1).drop_last() =~= tuple@.take(k as int));
            assert(tuple@.take(k + 1).last() == tuple@[k as int]);
        }
        acc = f_add(f_mul(acc, beta), tuple[k]);
        k = k + 1;
    }
    proof {
        assert(tuple@.take(tuple@.len() as int) =~= tuple@);
    }
    acc
}

impl TableWithColumns {
    /// The factor one row contributes to this side's running product.
    pub fn row_factor(&self, row: &Vec<u64>, beta: u64, gamma: u64) -> (r: u64)
        requires
            self.wf(row@.len()),
            row_canon(row@),
            is_canon(beta),
            is_canon(gamma),
        ensures
            r as int == factor_spec(*self, row@, beta, gamma),
            is_canon(r),
    {
        let fv: u64 = match &self.filter {
            Some(f) => f.eval(row),
            None => 1,
        };
        if fv == 1 {
            let tup = self.project_row(row);
            let c = combine(&tup, beta);
            f_add(gamma, c)
        } else {
            1
        }
    }

    /// Computes this side's Z column over a table.
    pub fn compute_z(&self, t: &Vec<Vec<u64>>, beta: u64, gamma: u64) -> (r: Vec<u64>)
        requires
            forall|i: int| 0 <= i < t@.len() ==> self.wf((#[trigger] t@[i])@.len() as nat),
            rows_canon(t.deep_view()),
            is_canon(beta),
            is_canon(gamma),
        ensures
            r@ == z_values(*self, t.deep_view(), beta, gamma),
            r@.len() == t@.len(),
    {
        let mut out: Vec<u64> = Vec::new();
        let mut acc: u64 = 1;
        let mut k: usize = 0;
        proof {
            assert(t.deep_view().take(0int) =~= Seq::<Seq<u64>>::empty());
            assert(out@ =~= z_values(*self, t.deep_view().take(0int), beta, gamma));
        }
        while k < t.len()
            invariant
                k <= t@.len(),
                t.deep_view().len() == t@.len(),
                out@ == z_values(*self, t.deep_view().take(k as int), beta, gamma),
                out@.len() == k,
                acc as int == running_product(*self, t.deep_view().take(k as int), beta, gamma),
                is_canon(acc),
                is_canon(beta),
                is_canon(gamma),
                forall|i: int| 0 <= i < t@.len() ==> self.wf((#[trigger] t@[i])@.len() as nat),
                rows_canon(t.deep_view()),
            decreases t@.len() - k,
        {
            let row = &t[k];
            proof {
                assert(t.deep_view()[k as int] =~= t@[k as int]@);
                assert(row_canon(row@));
                assert(t.deep_view().take(k + 1).drop_last() =~= t.deep_view().take(k as int));
                assert(t.deep_view().take(k + 1).last() == t.deep_view()[k as int]);
            }
            let f = self.row_factor(row, beta, gamma);
            acc = f_mul(acc, f);
            out.push(acc);
            k = k + 1;
        }
        proof {
            assert(t.deep_view().take(t@.len() as int) =~= t.deep_view());
        }
        out
    }
}

/// The factor one lookup tuple contributes under a challenge pair.
pub open spec fn term_of(t: Seq<u64>, beta: u64, gamma: u64) -> int {
    fadd(gamma as int, combine_spec(t, beta))
}

/// The product, over a tuple collection, of each tuple's factor.
pub open spec fn tuples_product(ts: Seq<Seq<u64>>, beta: u64, gamma: u64) -> int
    decreases ts.len(),
{
    if ts.len() == 0 {
        1
    } else {
        fmul(tuples_product(ts.drop_last(), beta, gamma), term_of(ts.last(), beta, gamma))
    }
}

/// Field products stay canonical.
proof fn lemma_fmul_bounds(a: int, b: int)
    requires
        0 <= a,
        0 <= b,
    ensures
        0 <= fmul(a, b) < crate::field::fp(),
{
    vstd::arithmetic::mul::lemma_mul_nonnegative(a, b);
    vstd::arithmetic::div_mod::lemma_mod_bound(a * b, crate::field::fp());
}

/// Multiplying by a third factor commutes with the second, in the field.
proof fn lemma_fmul_exchange(x: int, y: int, z: int)
    ensures
        fmul(fmul(x, y), z) == fmul(fmul(x, z), y),
{
    let p = crate::field::fp();
    vstd::arithmetic::div_mod::lemma_mul_mod_noop_left(x * y, z, p);
    vstd::arithmetic::div_mod::lemma_mul_mod_noop_left(x * z, y, p);
    assert((x * y) * z == (x * z) * y) by (nonlinear_arith);
}

/// A tuple collection's product peels off any one element.
proof fn lemma_tuples_product_remove(ts: Seq<Seq<u64>>, i: int, beta: u64, gamma: u64)
    requires
        0 <= i < ts.len(),
    ensures
        tuples_product(ts, beta, gamma) == fmul(
            tuples_product(ts.remove(i), beta, gamma),
            term_of(ts[i], beta, gamma),
        ),
    decreases ts.len(),
{
    if i == ts.len() - 1 {
        assert(ts.remove(i) =~= ts.drop_last());
    } else {
        assert(ts.remove(i).drop_last() =~= ts.drop_last().remove(i));
        assert(ts.remove(i).last() == ts.last());
        lemma_tuples_product_remove(ts.drop_last(), i, beta, gamma);
        lemma_fmul_exchange(
            tuples_product(ts.drop_last().remove(i), beta, gamma),
            term_of(ts[i], beta, gamma),
            term_of(ts.last(), beta, gamma),
        );
    }
}

/// Equal multisets of tuples have equal products: the product forgets
/// order and sees only multiplicity.
pub proof fn lemma_tuples_product_multiset(
    ts1: Seq<Seq<u64>>,
    ts2: Seq<Seq<u64>>,
    beta: u64,
    gamma: u64,
)
    requires
        ts1.to_multiset() == ts2.to_multiset(),
    ensures
        tuples_product(ts1, beta, gamma) == tuples_product(ts2, beta, gamma),
    decreases ts1.len(),
{
    broadcast use vstd::seq_lib::group_to_multiset_ensures;

    if ts1.len() == 0 {
        vstd::seq_lib::to_multiset_len(ts1);
        vstd::seq_lib::to_multiset_len(ts2);
        assert(ts2.len() == 0);
    } else {
        let x = ts1.last();
        let li = ts1.len() - 1;
        assert(ts1.to_multiset().count(x) > 0) by {
            assert(ts1.contains(x));
        }
        assert(ts2.to_multiset().count(x) > 0);
        assert(ts2.contains(x));
        let j = choose|j: int| 0 <= j < ts2.len() && ts2[j] == x;
        assert(ts1.remove(li).to_multiset() == ts1.to_multiset().remove(x));
        assert(ts2.remove(j).to_multiset() == ts2.to_multiset().remove(ts2[j]));
        assert(ts1.remove(li) =~= ts1.drop_last());
        lemma_tuples_product_multiset(ts1.drop_last(), ts2.remove(j), beta, gamma);
        lemma_tuples_product_remove(ts2, j, beta, gamma);
    }
}

/// A side's running product is the product over its filtered tuples.
pub proof fn lemma_running_is_tuples_product(
    side: TableWithColumns,
    t: Seq<Seq<u64>>,
    beta: u64,
    gamma: u64,
)
    ensures
        running_product(side, t, beta, gamma) == tuples_product(
            side.filtered_tuples(t),
            beta,
            gamma,
        ),
        0 <= running_product(side, t, beta, gamma) < crate::field::fp(),
    decreases t.len(),
{
    if t.len() == 0 {
    } else {
        lemma_running_is_tuples_product(side, t.drop_last(), beta, gamma);
        let prev = running_product(side, t.drop_last(), beta, gamma);
        if side.selected(t.last()) {
            assert(side.filtered_tuples(t).drop_last() =~= side.filtered_tuples(t.drop_last()));
            assert(side.filtered_tuples(t).last() == side.tuple_spec(t.last()));
            lemma_fmul_bounds(prev, factor_spec(side, t.last(), beta, gamma));
        } else {
            assert(factor_spec(side, t.last(), beta, gamma) == 1);
            vstd::arithmetic::div_mod::lemma_small_mod(prev as nat, crate::field::fp() as nat);
            assert(fmul(prev, 1) == prev);
            lemma_fmul_bounds(prev, 1);
        }
    }
}

/// The product over a concatenation splits.
pub proof fn lemma_tuples_product_concat(a: Seq<Seq<u64>>, b: Seq<Seq<u64>>, beta: u64, gamma: u64)
    ensures
        tuples_product(a + b, beta, gamma) == fmul(
            tuples_product(a, beta, gamma),
            tuples_product(b, beta, gamma),
        ),
        0 <= tuples_product(b, beta, gamma),
    decreases b.len(),
{
    if b.len() == 0 {
        assert(a + b =~= a);
        let pa = tuples_product(a, beta, gamma);
        lemma_tuples_product_nonneg(a, beta, gamma);
        if a.len() == 0 {
            vstd::arithmetic::div_mod::lemma_small_mod(1nat, crate::field::fp() as nat);
        } else {
            vstd::arithmetic::div_mod::lemma_mod_bound(
                tuples_product(a.drop_last(), beta, gamma) * term_of(a.last(), beta, gamma),
                crate::field::fp(),
            );
            vstd::arithmetic::div_mod::lemma_small_mod(pa as nat, crate::field::fp() as nat);
        }
        assert(fmul(pa, 1) == pa);
    } else {
        assert((a + b).drop_last() =~= a + b.drop_last());
        assert((a + b).last() == b.last());
        lemma_tuples_product_concat(a, b.drop_last(), beta, gamma);
        lemma_fmul_exchange(
            tuples_product(a, beta, gamma),
            tuples_product(b.drop_last(), beta, gamma),
            term_of(b.last(), beta, gamma),
        );
        assert(fmul(fmul(tuples_product(a, beta, gamma), tuples_product(b.drop_last(), beta, gamma)),
            term_of(b.last(), beta, gamma)) == fmul(
            tuples_product(a, beta, gamma),
            fmul(tuples_product(b.drop_last(), beta, gamma), term_of(b.last(), beta, gamma)),
        )) by {
            lemma_fmul_assoc(
                tuples_product(a, beta, gamma),
                tuples_product(b.drop_last(), beta, gamma),
                term_of(b.last(), beta, gamma),
            );
        }
        lemma_tuples_product_nonneg(b, beta, gamma);
    }
}

/// Products of tuple factors are never negative.
proof fn lemma_tuples_product_nonneg(a: Seq<Seq<u64>>, beta: u64, gamma: u64)
    ensures
        0 <= tuples_product(a, beta, gamma),
    decreases a.len(),
{
    if a.len() > 0 {
        lemma_tuples_product_nonneg(a.drop_last(), beta, gamma);
        lemma_fmul_bounds(
            tuples_product(a.drop_last(), beta, gamma),
            term_of(a.last(), beta, gamma),
        );
    }
}

/// Field multiplication is associative.
proof fn lemma_fmul_assoc(x: int, y: int, z: int)
    ensures
        fmul(fmul(x, y), z) == fmul(x, fmul(y, z)),
{
    let p = crate::field::fp();
    vstd::arithmetic::div_mod::lemma_mul_mod_noop_left(x * y, z, p);
    vstd::arithmetic::div_mod::lemma_mul_mod_noop_right(x, y * z, p);
    assert((x * y) * z == x * (y * z)) by (nonlinear_arith);
}

} // verus!
