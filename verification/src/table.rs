//! Trace tables: the closed enumeration of table identifiers and the
//! `TableWithColumns` projection (key tuple plus optional boolean filter)
//! that one side of a cross-table lookup evaluates on a table.

use vstd::prelude::*;

use crate::column::ColumnSelector;
use crate::multiset::{row_canon, rows_canon};

verus! {

/// The closed set of trace tables.
#[derive(Debug, Copy, Clone, Eq, PartialEq, Structural)]
pub enum Table {
    Cpu,
    Memory,
    Bitwise,
    Cmp,
    RangeCheck,
    BitwiseFixed,
    RangecheckFixed,
    Program,
}

/// The number of active tables: only these are committed and proved.
pub const NUM_TABLES: usize = 2;

impl Table {
    /// The fixed position of this table in every per-table array.
    pub open spec fn index_spec(self) -> int {
        match self {
            Table::Cpu => 0,
            Table::Memory => 1,
            Table::Bitwise => 2,
            Table::Cmp => 3,
            Table::RangeCheck => 4,
            Table::BitwiseFixed => 5,
            Table::RangecheckFixed => 6,
            Table::Program => 7,
        }
    }

    /// The fixed position of this table in every per-table array.
    pub fn index(self) -> (r: usize)
        ensures
            r == self.index_spec(),
    {
        match self {
            Table::Cpu => 0,
            Table::Memory => 1,
            Table::Bitwise => 2,
            Table::Cmp => 3,
            Table::RangeCheck => 4,
            Table::BitwiseFixed => 5,
            Table::RangecheckFixed => 6,
            Table::Program => 7,
        }
    }

    /// Whether this table is in the active set.
    pub open spec fn is_active_spec(self) -> bool {
        self.index_spec() < NUM_TABLES
    }

    /// Whether this table is in the active set.
    pub fn is_active(self) -> (r: bool)
        ensures
            r == self.is_active_spec(),
    {
        self.index() < NUM_TABLES
    }
}

/// A table id, an ordered list of column selectors forming the lookup key
/// tuple, and an optional boolean filter selector.
#[derive(Clone, Debug)]
pub struct TableWithColumns {
    pub table: Table,
    pub columns: Vec<ColumnSelector>,
    pub filter: Option<ColumnSelector>,
}

impl TableWithColumns {
    /// Builds one side of a lookup.
    pub fn new(table: Table, columns: Vec<ColumnSelector>, filter: Option<ColumnSelector>) -> (r:
        TableWithColumns)
        ensures
            r.table == table,
            r.columns == columns,
            r.filter == filter,
    {
        TableWithColumns { table, columns, filter }
    }

    /// All selectors stay inside a table of `width` columns.
    pub open spec fn wf(self, width: nat) -> bool {
        &&& forall|k: int| 0 <= k < self.columns@.len() ==> (#[trigger] self.columns@[k]).wf(width)
        &&& match self.filter {
            Some(f) => f.wf(width),
            None => true,
        }
    }

    /// The arity of the projected tuple.
    pub open spec fn arity_spec(self) -> nat {
        self.columns@.len()
    }

    /// The filter value on `row`: 1 when no filter is declared.
    pub open spec fn filter_spec(self, row: Seq<u64>) -> int {
        match self.filter {
            Some(f) => f.eval_spec(row),
            None => 1,
        }
    }

    /// The row contributes to the lookup multiset.
    pub open spec fn selected(self, row: Seq<u64>) -> bool {
        self.filter_spec(row) == 1
    }

    /// The filter is boolean on `row`; anything else is a malformed trace.
    pub open spec fn filter_boolean(self, row: Seq<u64>) -> bool {
        self.filter_spec(row) == 0 || self.filter_spec(row) == 1
    }

    /// The filter is boolean on every row of `t`.
    pub open spec fn filters_boolean(self, t: Seq<Seq<u64>>) -> bool {
        forall|i: int| 0 <= i < t.len() ==> self.filter_boolean(#[trigger] t[i])
    }

    /// The projected key tuple of `row`.
    pub open spec fn tuple_spec(self, row: Seq<u64>) -> Seq<u64> {
        Seq::new(self.columns@.len(), |k: int| self.columns@[k].eval_spec(row) as u64)
    }

    /// The filtered, projected tuples of the table `t`, in row order.
    pub open spec fn filtered_tuples(self, t: Seq<Seq<u64>>) -> Seq<Seq<u64>>
        decreases t.len(),
    {
        if t.len() == 0 {
            Seq::empty()
        } else if self.selected(t.last()) {
            self.filtered_tuples(t.drop_last()).push(self.tuple_spec(t.last()))
        } else {
            self.filtered_tuples(t.drop_last())
        }
    }

    /// Evaluates the key tuple on one row.
    pub fn project_row(&self, row: &Vec<u64>) -> (r: Vec<u64>)
        requires
            self.wf(row@.len()),
            row_canon(row@),
        ensures
            r@ == self.tuple_spec(row@),
    {
        let mut out: Vec<u64> = Vec::new();
        let mut k: usize = 0;
        while k < self.columns.len()
            invariant
                k <= self.columns@.len(),
                out@.len() == k,
                forall|i: int| 0 <= i < k ==> out@[i] == self.columns@[i].eval_spec(row@) as u64,
                self.wf(row@.len()),
                row_canon(row@),
            decreases self.columns@.len() - k,
        {
            let v = self.columns[k].eval(row);
            out.push(v);
            k = k + 1;
        }
        proof {
            assert(out@ =~= self.tuple_spec(row@));
        }
        out
    }

    /// Collects the filtered, projected tuples of `t`, rejecting any row
    /// whose filter is not boolean.
    pub fn collect_filtered(&self, t: &Vec<Vec<u64>>) -> (r: Result<Vec<Vec<u64>>, usize>)
        requires
            forall|i: int| 0 <= i < t@.len() ==> self.wf((#[trigger] t@[i])@.len() as nat),
            rows_canon(t.deep_view()),
        ensures
            match r {
                Ok(v) => self.filters_boolean(t.deep_view()) && v.deep_view()
                    == self.filtered_tuples(t.deep_view()),
                Err(i) => i < t@.len() && !self.filter_boolean(t.deep_view()[i as int]),
            },
    {
        let mut out: Vec<Vec<u64>> = Vec::new();
        let mut k: usize = 0;
        proof {
            assert(t.deep_view().take(0int) =~= Seq::<Seq<u64>>::empty());
            assert(out.deep_view() =~= self.filtered_tuples(t.deep_view().take(0int)));
        }
        while k < t.len()
            invariant
                k <= t@.len(),
                t.deep_view().len() == t@.len(),
                out.deep_view() == self.filtered_tuples(t.deep_view().take(k as int)),
                forall|i: int| 0 <= i < k ==> self.filter_boolean(#[trigger] t.deep_view()[i]),
                forall|i: int| 0 <= i < t@.len() ==> self.wf((#[trigger] t@[i])@.len() as nat),
                rows_canon(t.deep_view()),
            decreases t@.len() - k,
        {
            let row = &t[k];
            proof {
                assert(t.deep_view()[k as int] =~= t@[k as int]@);
                assert(row_canon(row@));
                assert(t.deep_view().take(k + 1).drop_last() =~= t.deep_view().take(k as int));
                assert(t.deep_view().take(k + 1).last() == t.deep_view()[k as int]);
            }
            let fv: u64 = match &self.filter {
                Some(f) => f.eval(row),
                None => 1,
            };
            proof {
                assert(fv as int == self.filter_spec(t.deep_view()[k as int]));
            }
            if fv > 1 {
                return Err(k);
            }
            if fv == 1 {
                let tup = self.project_row(row);
                out.push(tup);
                proof {
                    assert(out.deep_view() =~~= self.filtered_tuples(t.deep_view().take(k + 1)));
                }
            }
            k = k + 1;
        }
        proof {
            assert(t.deep_view().take(t@.len() as int) =~= t.deep_view());
        }
        Ok(out)
    }

    /// Decides well-formedness against a table of `width` columns.
    pub fn wf_check(&self, width: usize) -> (r: bool)
        ensures
            r <==> self.wf(width as nat),
    {
        let mut k: usize = 0;
        while k < self.columns.len()
            invariant
                k <= self.columns@.len(),
                forall|i: int| 0 <= i < k ==> (#[trigger] self.columns@[i]).wf(width as nat),
            decreases self.columns@.len() - k,
        {
            if !self.columns[k].wf_check(width) {
                return false;
            }
            k = k + 1;
        }
        match &self.filter {
            Some(f) => f.wf_check(width),
            None => true,
        }
    }

    /// Field-for-field equality of two lookup sides.
    pub open spec fn same_as(self, other: TableWithColumns) -> bool {
        &&& self.table == other.table
        &&& self.columns@.len() == other.columns@.len()
        &&& forall|k: int|
            0 <= k < self.columns@.len() ==> (#[trigger] self.columns@[k]).same_as(
                other.columns@[k],
            )
        &&& match (self.filter, other.filter) {
            (Some(f), Some(g)) => f.same_as(g),
            (None, None) => true,
            _ => false,
        }
    }

    /// Copies this side.
    pub fn duplicate(&self) -> (r: TableWithColumns)
        ensures
            r.same_as(*self),
    {
        let mut cols: Vec<ColumnSelector> = Vec::new();
        let mut k: usize = 0;
        while k < self.columns.len()
            invariant
                k <= self.columns@.len(),
                cols@.len() == k,
                forall|i: int| 0 <= i < k ==> (#[trigger] cols@[i]).same_as(self.columns@[i]),
            decreases self.columns@.len() - k,
        {
            cols.push(self.columns[k].duplicate());
            k = k + 1;
        }
        let filter: Option<ColumnSelector> = match &self.filter {
            Some(f) => Some(f.duplicate()),
            None => None,
        };
        TableWithColumns { table: self.table, columns: cols, filter }
    }

    /// Decides field-for-field equality of two lookup sides.
    pub fn twc_eq(&self, other: &TableWithColumns) -> (r: bool)
        ensures
            r <==> self.same_as(*other),
    {
        if self.table != other.table {
            return false;
        }
        if self.columns.len() != other.columns.len() {
            return false;
        }
        let mut k: usize = 0;
        while k < self.columns.len()
            invariant
                k <= self.columns@.len(),
                self.columns@.len() == other.columns@.len(),
                forall|i: int|
                    0 <= i < k ==> (#[trigger] self.columns@[i]).same_as(other.columns@[i]),
            decreases self.columns@.len() - k,
        {
            if !self.columns[k].selector_eq(&other.columns[k]) {
                return false;
            }
            k = k + 1;
        }
        match (&self.filter, &other.filter) {
            (Some(f), Some(g)) => f.selector_eq(g),
            (None, None) => true,
            _ => false,
        }
    }
}

} // verus!
