//! Column selectors: per-row expressions that project a trace row to one
//! field value. A selector is a raw column index, a constant, or an affine
//! combination of columns.

use vstd::prelude::*;

use crate::field::{fadd, fmul, is_canon, f_add, f_mul, FIELD_ORDER};

verus! {

/// One column selector of a lookup key tuple or of a filter.
#[derive(Clone, Debug)]
pub enum ColumnSelector {
    /// The value of one column.
    Column(usize),
    /// A constant field element.
    Constant(u64),
    /// `constant + sum of coeff * column` over the listed `(column, coeff)`
    /// pairs, in the field.
    Affine(Vec<(usize, u64)>, u64),
}

/// The running affine sum `(c + sum coeff_k * row[col_k]) mod p` over the
/// first `n` pairs.
pub open spec fn affine_sum(pairs: Seq<(usize, u64)>, c: u64, row: Seq<u64>) -> int
    decreases pairs.len(),
{
    if pairs.len() == 0 {
        c as int
    } else {
        fadd(
            affine_sum(pairs.drop_last(), c, row),
            fmul(pairs.last().1 as int, row[pairs.last().0 as int] as int),
        )
    }
}

/// Every `(column, coeff)` pair indexes inside `width` with a canonical
/// coefficient.
pub open spec fn affine_wf(pairs: Seq<(usize, u64)>, width: nat) -> bool {
    forall|k: int|
        0 <= k < pairs.len() ==> (#[trigger] pairs[k]).0 < width && is_canon(pairs[k].1)
}

impl ColumnSelector {
    /// Well-formed against a table of `width` columns: indices in bounds and
    /// constants canonical.
    pub open spec fn wf(self, width: nat) -> bool {
        match self {
            ColumnSelector::Column(i) => i < width,
            ColumnSelector::Constant(c) => is_canon(c),
            ColumnSelector::Affine(pairs, c) => is_canon(c) && affine_wf(pairs@, width),
        }
    }

    /// The value this selector takes on `row`, as a mathematical integer in
    /// `[0, p)`.
    pub open spec fn eval_spec(self, row: Seq<u64>) -> int {
        match self {
            ColumnSelector::Column(i) => row[i as int] as int,
            ColumnSelector::Constant(c) => c as int,
            ColumnSelector::Affine(pairs, c) => affine_sum(pairs@, c, row),
        }
    }

    /// Evaluates this selector on one row.
    pub fn eval(&self, row: &Vec<u64>) -> (r: u64)
        requires
            self.wf(row@.len()),
            forall|i: int| 0 <= i < row@.len() ==> is_canon(#[trigger] row@[i]),
        ensures
            r as int == self.eval_spec(row@),
            is_canon(r),
    {
        match self {
            ColumnSelector::Column(i) => row[*i],
            ColumnSelector::Constant(c) => *c,
            ColumnSelector::Affine(pairs, c) => {
                proof {
                    assert(affine_wf(pairs@, row@.len()));
                }
                let mut acc: u64 = *c;
                let mut k: usize = 0;
                while k < pairs.len()
                    invariant
                        k <= pairs@.len(),
                        acc as int == affine_sum(pairs@.take(k as int), *c, row@),
                        is_canon(acc),
                        is_canon(*c),
                        affine_wf(pairs@, row@.len()),
                        *self == ColumnSelector::Affine(*pairs, *c),
                        forall|i: int| 0 <= i < row@.len() ==> is_canon(#[trigger] row@[i]),
                    decreases pairs@.len() - k,
                {
                    let (col, coeff) = pairs[k];
                    proof {
                        assert(pairs@[k as int].0 < row@.len() && is_canon(pairs@[k as int].1));
                        assert(pairs@.take(k + 1).drop_last() =~= pairs@.take(k as int));
                        assert(pairs@.take(k + 1).last() == pairs@[k as int]);
                    }
                    let term = f_mul(coeff, row[col]);
                    acc = f_add(acc, term);
                    k = k + 1;
                }
                proof {
                    assert(pairs@.take(pairs@.len() as int) =~= pairs@);
                }
                acc
            },
        }
    }

    /// Decides well-formedness against a table of `width` columns.
    pub fn wf_check(&self, width: usize) -> (r: bool)
        ensures
            r <==> self.wf(width as nat),
    {
        match self {
            ColumnSelector::Column(i) => *i < width,
            ColumnSelector::Constant(c) => *c < FIELD_ORDER,
            ColumnSelector::Affine(pairs, c) => {
                if *c >= FIELD_ORDER {
                    return false;
                }
                let mut k: usize = 0;
                while k < pairs.len()
                    invariant
                        k <= pairs@.len(),
                        *self == ColumnSelector::Affine(*pairs, *c),
                        is_canon(*c),
                        forall|i: int|
                            0 <= i < k ==> (#[trigger] pairs@[i]).0 < width && is_canon(
                                pairs@[i].1,
                            ),
                    decreases pairs@.len() - k,
                {
                    let (col, coeff) = pairs[k];
                    if col >= width || coeff >= FIELD_ORDER {
                        proof {
                            let ghost pk = pairs@[k as int];
                            assert(pk.0 >= width || pk.1 >= FIELD_ORDER);
                            assert(!(pk.0 < width && is_canon(pk.1)));
                            assert(!affine_wf(pairs@, width as nat));
                            assert(self.wf(width as nat) == (is_canon(*c) && affine_wf(
                                pairs@,
                                width as nat,
                            )));
                        }
                        return false;
                    }
                    k = k + 1;
                }
                true
            },
        }
    }

    /// Field-for-field equality of two selectors.
    pub open spec fn same_as(self, other: ColumnSelector) -> bool {
        match (self, other) {
            (ColumnSelector::Column(i), ColumnSelector::Column(j)) => i == j,
            (ColumnSelector::Constant(a), ColumnSelector::Constant(b)) => a == b,
            (ColumnSelector::Affine(p1, c1), ColumnSelector::Affine(p2, c2)) => p1@ == p2@ && c1
                == c2,
            _ => false,
        }
    }

    /// Copies this selector.
    pub fn duplicate(&self) -> (r: ColumnSelector)
        ensures
            r.same_as(*self),
    {
        match self {
            ColumnSelector::Column(i) => ColumnSelector::Column(*i),
            ColumnSelector::Constant(c) => ColumnSelector::Constant(*c),
            ColumnSelector::Affine(pairs, c) => {
                let mut out: Vec<(usize, u64)> = Vec::new();
                let mut k: usize = 0;
                while k < pairs.len()
                    invariant
                        k <= pairs@.len(),
                        out@ == pairs@.take(k as int),
                    decreases pairs@.len() - k,
                {
                    proof {
                        assert(pairs@.take(k + 1) =~= pairs@.take(k as int).push(
                            pairs@[k as int],
                        ));
                    }
                    out.push(pairs[k]);
                    k = k + 1;
                }
                proof {
                    assert(pairs@.take(pairs@.len() as int) =~= pairs@);
                }
                ColumnSelector::Affine(out, *c)
            },
        }
    }

    /// Decides field-for-field equality of two selectors.
    pub fn selector_eq(&self, other: &ColumnSelector) -> (r: bool)
        ensures
            r <==> self.same_as(*other),
    {
        match (self, other) {
            (ColumnSelector::Column(i), ColumnSelector::Column(j)) => i == j,
            (ColumnSelector::Constant(a), ColumnSelector::Constant(b)) => a == b,
            (ColumnSelector::Affine(p1, c1), ColumnSelector::Affine(p2, c2)) => {
                if c1 != c2 || p1.len() != p2.len() {
                    false
                } else {
                    proof {
                        assert(p1@.take(0int) =~= p2@.take(0int));
                    }
                    let mut k: usize = 0;
                    let mut same: bool = true;
                    while k < p1.len()
                        invariant
                            k <= p1@.len(),
                            p1@.len() == p2@.len(),
                            same <==> p1@.take(k as int) == p2@.take(k as int),
                        decreases p1@.len() - k,
                    {
                        let (a0, a1) = p1[k];
                        let (b0, b1) = p2[k];
                        proof {
                            assert(p1@.take(k + 1).drop_last() =~= p1@.take(k as int));
                            assert(p2@.take(k + 1).drop_last() =~= p2@.take(k as int));
                            assert(p1@.take(k + 1).last() == p1@[k as int]);
                            assert(p2@.take(k + 1).last() == p2@[k as int]);
                        }
                        if !(a0 == b0 && a1 == b1) {
                            same = false;
                            proof {
                                if p1@.take(k + 1) == p2@.take(k + 1) {
                                    assert(p1@[k as int] == p2@[k as int]);
                                }
                            }
                        } else {
                            proof {
                                if same {
                                    assert(p1@.take(k + 1) =~= p2@.take(k + 1));
                                } else {
                                    if p1@.take(k + 1) == p2@.take(k + 1) {
                                        assert(p1@.take(k as int) == p2@.take(k as int));
                                    }
                                }
                            }
                        }
                        k = k + 1;
                    }
                    proof {
                        assert(p1@.take(p1@.len() as int) =~= p1@);
                        assert(p2@.take(p2@.len() as int) =~= p2@);
                    }
                    same
                }
            },
            _ => false,
        }
    }
}

} // verus!
