//! Cross-table lookups: one looked (authoritative) side and one or more
//! looking (asserting) sides. The obligation is multiset equality of the
//! filtered, projected tuples of the looking union against the looked side.

use vstd::prelude::*;

use crate::multiset::{count_of, multiset_check, multiset_eq, rows_canon};
use crate::table::TableWithColumns;

verus! {

/// A construction-time configuration fault: the system must refuse to build
/// a registry or proof pipeline in this state.
#[derive(Debug, Copy, Clone, PartialEq, Eq, Structural)]
pub enum ConfigError {
    /// A lookup declared no looking side.
    NoLookingSide,
    /// A looking side's tuple arity differs from the looked side's.
    ArityMismatch,
    /// The default row's arity differs from the looked side's.
    DefaultArityMismatch,
    /// A lookup references a table outside the active set.
    InactiveTable,
}

/// One cross-table lookup declaration.
#[derive(Clone, Debug)]
pub struct CrossTableLookup {
    pub looking: Vec<TableWithColumns>,
    pub looked: TableWithColumns,
    /// Substituted for rows the looked filter excludes, to keep the
    /// projected table rectangular without polluting the multiset.
    pub default_row: Option<Vec<u64>>,
}

impl CrossTableLookup {
    /// Arities agree across all sides and at least one looking side exists.
    pub open spec fn shape_ok(
        looking: Seq<TableWithColumns>,
        looked: TableWithColumns,
        default_row: Option<Seq<u64>>,
    ) -> bool {
        &&& looking.len() >= 1
        &&& forall|k: int|
            0 <= k < looking.len() ==> (#[trigger] looking[k]).arity_spec() == looked.arity_spec()
        &&& match default_row {
            Some(d) => d.len() == looked.arity_spec(),
            None => true,
        }
    }

    /// The view of the optional default row.
    pub open spec fn default_view(default_row: Option<Vec<u64>>) -> Option<Seq<u64>> {
        match default_row {
            Some(d) => Some(d@),
            None => None,
        }
    }

    /// Validates and builds a lookup: exactly one looked side by
    /// construction, at least one looking side, equal arities everywhere.
    pub fn new(
        looking: Vec<TableWithColumns>,
        looked: TableWithColumns,
        default_row: Option<Vec<u64>>,
    ) -> (r: Result<CrossTableLookup, ConfigError>)
        ensures
            match r {
                Ok(c) => Self::shape_ok(looking@, looked, Self::default_view(default_row))
                    && c.looking == looking && c.looked == looked && c.default_row == default_row,
                Err(_) => !Self::shape_ok(looking@, looked, Self::default_view(default_row)),
            },
    {
        if looking.len() == 0 {
            return Err(ConfigError::NoLookingSide);
        }
        let arity = looked.columns.len();
        let mut k: usize = 0;
        while k < looking.len()
            invariant
                k <= looking@.len(),
                arity == looked.arity_spec(),
                forall|i: int|
                    0 <= i < k ==> (#[trigger] looking@[i]).arity_spec() == looked.arity_spec(),
            decreases looking@.len() - k,
        {
            if looking[k].columns.len() != arity {
                return Err(ConfigError::ArityMismatch);
            }
            k = k + 1;
        }
        match &default_row {
            Some(d) => {
                if d.len() != arity {
                    return Err(ConfigError::DefaultArityMismatch);
                }
            },
            None => {},
        }
        Ok(CrossTableLookup { looking, looked, default_row })
    }

    /// The trace a side projects from, out of the per-table trace array.
    pub open spec fn trace_for(traces: Seq<Seq<Seq<u64>>>, side: TableWithColumns) -> Seq<
        Seq<u64>,
    > {
        traces[side.table.index_spec()]
    }

    /// The concatenated filtered tuples of the first sides.
    pub open spec fn looking_union(
        sides: Seq<TableWithColumns>,
        traces: Seq<Seq<Seq<u64>>>,
    ) -> Seq<Seq<u64>>
        decreases sides.len(),
    {
        if sides.len() == 0 {
            Seq::empty()
        } else {
            Self::looking_union(sides.drop_last(), traces) + sides.last().filtered_tuples(
                Self::trace_for(traces, sides.last()),
            )
        }
    }

    /// The looked side's filtered tuples.
    pub open spec fn looked_tuples(self, traces: Seq<Seq<Seq<u64>>>) -> Seq<Seq<u64>> {
        self.looked.filtered_tuples(Self::trace_for(traces, self.looked))
    }

    /// The multiset-equality obligation this lookup imposes on a trace set.
    pub open spec fn holds_on(self, traces: Seq<Seq<Seq<u64>>>) -> bool {
        multiset_eq(Self::looking_union(self.looking@, traces), self.looked_tuples(traces))
    }

    /// One side is usable against the trace array: its table's trace exists
    /// and all its selectors stay inside every row.
    pub open spec fn side_wf(traces: Seq<Seq<Seq<u64>>>, side: TableWithColumns) -> bool {
        &&& 0 <= side.table.index_spec() < traces.len()
        &&& forall|i: int|
            0 <= i < Self::trace_for(traces, side).len() ==> side.wf(
                (#[trigger] Self::trace_for(traces, side)[i]).len(),
            )
    }

    /// The lookup is usable against the trace array.
    pub open spec fn wf_for(self, traces: Seq<Seq<Seq<u64>>>) -> bool {
        &&& forall|k: int|
            0 <= k < self.looking@.len() ==> Self::side_wf(traces, #[trigger] self.looking@[k])
        &&& Self::side_wf(traces, self.looked)
    }

    /// Every filter of every side is boolean on its whole trace.
    pub open spec fn filters_ok(self, traces: Seq<Seq<Seq<u64>>>) -> bool {
        &&& forall|k: int|
            0 <= k < self.looking@.len() ==> (#[trigger] self.looking@[k]).filters_boolean(
                Self::trace_for(traces, self.looking@[k]),
            )
        &&& self.looked.filters_boolean(Self::trace_for(traces, self.looked))
    }
}

/// Why a lookup self-check rejected a trace set.
#[derive(Debug, Copy, Clone, PartialEq, Eq, Structural)]
pub enum CtlCheckError {
    /// A filter evaluated to a value outside {0, 1}: the trace is malformed.
    /// Carries the offending side (looking sides in order, then the looked
    /// side) and row.
    NonBooleanFilter { side: usize, row: usize },
    /// The looking union and the looked side disagree as multisets.
    MultisetMismatch,
}

/// Traces are rectangular-compatible with all sides and canonical.
pub open spec fn traces_canon(traces: Seq<Seq<Seq<u64>>>) -> bool {
    forall|i: int| 0 <= i < traces.len() ==> rows_canon(#[trigger] traces[i])
}

impl CrossTableLookup {
    /// Checks this lookup's multiset-equality obligation directly on a trace
    /// set, before any proving: the filtered, projected tuples of the union
    /// of looking sides must equal, with multiplicity, those of the looked
    /// side.
    pub fn check_on(&self, traces: &Vec<Vec<Vec<u64>>>) -> (r: Result<(), CtlCheckError>)
        requires
            self.wf_for(traces.deep_view()),
            traces_canon(traces.deep_view()),
        ensures
            match r {
                Ok(()) => self.filters_ok(traces.deep_view()) && self.holds_on(traces.deep_view()),
                Err(CtlCheckError::NonBooleanFilter { .. }) => !self.filters_ok(
                    traces.deep_view(),
                ),
                Err(CtlCheckError::MultisetMismatch) => !self.holds_on(traces.deep_view()),
            },
    {
        let ghost tv = traces.deep_view();
        let mut union: Vec<Vec<u64>> = Vec::new();
        let mut k: usize = 0;
        proof {
            assert(union.deep_view() =~= Self::looking_union(self.looking@.take(0int), tv));
        }
        while k < self.looking.len()
            invariant
                k <= self.looking@.len(),
                tv == traces.deep_view(),
                self.wf_for(tv),
                traces_canon(tv),
                union.deep_view() == Self::looking_union(self.looking@.take(k as int), tv),
                forall|i: int|
                    0 <= i < k ==> (#[trigger] self.looking@[i]).filters_boolean(
                        Self::trace_for(tv, self.looking@[i]),
                    ),
            decreases self.looking@.len() - k,
        {
            let side = &self.looking[k];
            proof {
                assert(Self::side_wf(tv, self.looking@[k as int]));
            }
            let ti = side.table.index();
            let tr = &traces[ti];
            proof {
                assert(tr.deep_view() =~~= Self::trace_for(tv, self.looking@[k as int]));
                assert(rows_canon(tr.deep_view()));
                assert forall|i: int| 0 <= i < tr@.len() implies side.wf(
                    (#[trigger] tr@[i])@.len() as nat,
                ) by {
                    assert(tr.deep_view()[i] =~= tr@[i]@);
                    assert(side.wf(Self::trace_for(tv, self.looking@[k as int])[i].len()));
                }
            }
            let got = side.collect_filtered(tr);
            match got {
                Ok(mut tuples) => {
                    proof {
                        assert(self.looking@.take(k + 1).drop_last() =~= self.looking@.take(
                            k as int,
                        ));
                        assert(self.looking@.take(k + 1).last() == self.looking@[k as int]);
                    }
                    let ghost before = union.deep_view();
                    let ghost added = tuples.deep_view();
                    let mut j: usize = 0;
                    while j < tuples.len()
                        invariant
                            j <= tuples@.len(),
                            added == tuples.deep_view(),
                            tuples.deep_view().len() == tuples@.len(),
                            union.deep_view() == before + added.take(j as int),
                        decreases tuples@.len() - j,
                    {
                        let row = tuples[j].clone();
                        proof {
                            assert(row@ =~= tuples@[j as int]@);
                            assert((before + added.take(j as int)).push(added[j as int]) =~= before
                                + added.take(j + 1));
                            assert(added[j as int] =~= tuples@[j as int]@);
                        }
                        union.push(row);
                        proof {
                            assert(union.deep_view() =~~= before + added.take(j + 1));
                        }
                        j = j + 1;
                    }
                    proof {
                        assert(added.take(added.len() as int) =~= added);
                        assert(union.deep_view() =~= Self::looking_union(
                            self.looking@.take(k + 1),
                            tv,
                        ));
                    }
                },
                Err(i) => {
                    return Err(CtlCheckError::NonBooleanFilter { side: k, row: i });
                },
            }
            k = k + 1;
        }
        proof {
            assert(self.looking@.take(self.looking@.len() as int) =~= self.looking@);
        }
        let ti = self.looked.table.index();
        let tr = &traces[ti];
        proof {
            assert(tr.deep_view() =~~= Self::trace_for(tv, self.looked));
            assert(rows_canon(tr.deep_view()));
            assert forall|i: int| 0 <= i < tr@.len() implies self.looked.wf(
                (#[trigger] tr@[i])@.len() as nat,
            ) by {
                assert(tr.deep_view()[i] =~= tr@[i]@);
                assert(self.looked.wf(Self::trace_for(tv, self.looked)[i].len()));
            }
        }
        let got = self.looked.collect_filtered(tr);
        match got {
            Ok(looked_tuples) => {
                if multiset_check(&union, &looked_tuples) {
                    Ok(())
                } else {
                    Err(CtlCheckError::MultisetMismatch)
                }
            },
            Err(i) => Err(CtlCheckError::NonBooleanFilter { side: self.looking.len(), row: i }),
        }
    }

    /// Field-for-field equality of two lookup declarations, ignoring no
    /// field.
    pub open spec fn same_as(self, other: CrossTableLookup) -> bool {
        &&& self.looking@.len() == other.looking@.len()
        &&& forall|k: int|
            0 <= k < self.looking@.len() ==> (#[trigger] self.looking@[k]).same_as(
                other.looking@[k],
            )
        &&& self.looked.same_as(other.looked)
        &&& match (self.default_row, other.default_row) {
            (Some(a), Some(b)) => a@ == b@,
            (None, None) => true,
            _ => false,
        }
    }

    /// Copies this lookup declaration, to be carried inside a proof.
    pub fn duplicate(&self) -> (r: CrossTableLookup)
        ensures
            r.same_as(*self),
    {
        let mut looking: Vec<TableWithColumns> = Vec::new();
        let mut k: usize = 0;
        while k < self.looking.len()
            invariant
                k <= self.looking@.len(),
                looking@.len() == k,
                forall|i: int| 0 <= i < k ==> (#[trigger] looking@[i]).same_as(self.looking@[i]),
            decreases self.looking@.len() - k,
        {
            looking.push(self.looking[k].duplicate());
            k = k + 1;
        }
        let default_row: Option<Vec<u64>> = match &self.default_row {
            Some(d) => Some(crate::prover::copy_row(d)),
            None => None,
        };
        CrossTableLookup { looking, looked: self.looked.duplicate(), default_row }
    }

    /// Decides field-for-field equality of two lookup declarations.
    pub fn ctl_eq(&self, other: &CrossTableLookup) -> (r: bool)
        ensures
            r <==> self.same_as(*other),
    {
        if self.looking.len() != other.looking.len() {
            return false;
        }
        let mut k: usize = 0;
        while k < self.looking.len()
            invariant
                k <= self.looking@.len(),
                self.looking@.len() == other.looking@.len(),
                forall|i: int|
                    0 <= i < k ==> (#[trigger] self.looking@[i]).same_as(other.looking@[i]),
            decreases self.looking@.len() - k,
        {
            if !self.looking[k].twc_eq(&other.looking[k]) {
                return false;
            }
            k = k + 1;
        }
        if !self.looked.twc_eq(&other.looked) {
            return false;
        }
        match (&self.default_row, &other.default_row) {
            (Some(a), Some(b)) => crate::multiset::tuple_eq(a, b),
            (None, None) => true,
            _ => false,
        }
    }
}

/// Appending rows whose filter evaluates to zero leaves a side's filtered
/// tuples unchanged: padding a table with filter-zero rows does not change
/// any lookup multiset.
pub proof fn lemma_filter_zero_padding(side: TableWithColumns, t: Seq<Seq<u64>>, pad: Seq<Seq<u64>>)
    requires
        forall|i: int| 0 <= i < pad.len() ==> !side.selected(#[trigger] pad[i]),
    ensures
        side.filtered_tuples(t + pad) == side.filtered_tuples(t),
    decreases pad.len(),
{
    if pad.len() == 0 {
        assert(t + pad =~= t);
    } else {
        assert((t + pad).drop_last() =~= t + pad.drop_last());
        assert((t + pad).last() == pad.last());
        lemma_filter_zero_padding(side, t, pad.drop_last());
    }
}

/// The side's filter excludes every row of `t`.
pub open spec fn selects_nothing(side: TableWithColumns, t: Seq<Seq<u64>>) -> bool {
    forall|i: int| 0 <= i < t.len() ==> !side.selected(#[trigger] t[i])
}

/// Law: a trace set satisfying a lookup's obligation has the filtered,
/// projected tuples of the union of looking tables equal, with
/// multiplicity and independent of order, to those of the looked table.
pub proof fn lemma_lookup_multiset_equality(ctl: CrossTableLookup, traces: Seq<Seq<Seq<u64>>>)
    requires
        ctl.holds_on(traces),
    ensures
        CrossTableLookup::looking_union(ctl.looking@, traces).to_multiset() == ctl.looked_tuples(
            traces,
        ).to_multiset(),
{
    crate::multiset::lemma_multiset_eq_is_to_multiset(
        CrossTableLookup::looking_union(ctl.looking@, traces),
        ctl.looked_tuples(traces),
    );
}

/// One side sees the second trace array as its first trace extended by
/// rows its filter excludes.
pub open spec fn side_padded(
    side: TableWithColumns,
    tv1: Seq<Seq<Seq<u64>>>,
    tv2: Seq<Seq<Seq<u64>>>,
) -> bool {
    let t1 = CrossTableLookup::trace_for(tv1, side);
    let t2 = CrossTableLookup::trace_for(tv2, side);
    &&& t2.len() >= t1.len()
    &&& t2.take(t1.len() as int) == t1
    &&& forall|i: int| t1.len() <= i < t2.len() ==> !side.selected(#[trigger] t2[i])
}

/// A padded side keeps its filtered tuples.
pub proof fn lemma_side_padded_same_tuples(
    side: TableWithColumns,
    tv1: Seq<Seq<Seq<u64>>>,
    tv2: Seq<Seq<Seq<u64>>>,
)
    requires
        side_padded(side, tv1, tv2),
    ensures
        side.filtered_tuples(CrossTableLookup::trace_for(tv2, side)) == side.filtered_tuples(
            CrossTableLookup::trace_for(tv1, side),
        ),
{
    let t1 = CrossTableLookup::trace_for(tv1, side);
    let t2 = CrossTableLookup::trace_for(tv2, side);
    let pad = t2.skip(t1.len() as int);
    assert(t2 =~= t1 + pad);
    assert forall|i: int| 0 <= i < pad.len() implies !side.selected(#[trigger] pad[i]) by {
        assert(pad[i] == t2[i + t1.len()]);
    }
    lemma_filter_zero_padding(side, t1, pad);
}

/// Law: padding tables with rows every filter excludes changes no lookup
/// multiset — the obligation holds on the padded trace array exactly when
/// it holds on the original.
pub proof fn lemma_padding_preserves_lookup(
    ctl: CrossTableLookup,
    tv1: Seq<Seq<Seq<u64>>>,
    tv2: Seq<Seq<Seq<u64>>>,
)
    requires
        forall|k: int|
            0 <= k < ctl.looking@.len() ==> side_padded(#[trigger] ctl.looking@[k], tv1, tv2),
        side_padded(ctl.looked, tv1, tv2),
    ensures
        ctl.holds_on(tv2) <==> ctl.holds_on(tv1),
{
    lemma_looking_union_padded(ctl.looking@, tv1, tv2);
    lemma_side_padded_same_tuples(ctl.looked, tv1, tv2);
}

/// Helper: the looking union is unchanged by padding.
proof fn lemma_looking_union_padded(
    sides: Seq<TableWithColumns>,
    tv1: Seq<Seq<Seq<u64>>>,
    tv2: Seq<Seq<Seq<u64>>>,
)
    requires
        forall|k: int| 0 <= k < sides.len() ==> side_padded(#[trigger] sides[k], tv1, tv2),
    ensures
        CrossTableLookup::looking_union(sides, tv2) == CrossTableLookup::looking_union(sides, tv1),
    decreases sides.len(),
{
    if sides.len() > 0 {
        lemma_looking_union_padded(sides.drop_last(), tv1, tv2);
        lemma_side_padded_same_tuples(sides.last(), tv1, tv2);
    }
}

/// A side that selects no row contributes no tuple.
pub proof fn lemma_no_selection_empty(side: TableWithColumns, t: Seq<Seq<u64>>)
    requires
        selects_nothing(side, t),
    ensures
        side.filtered_tuples(t) == Seq::<Seq<u64>>::empty(),
    decreases t.len(),
{
    if t.len() > 0 {
        lemma_no_selection_empty(side, t.drop_last());
    }
}

/// The empty-lookup boundary: when no side of a lookup selects any row, the
/// obligation holds as an empty-multiset match, whether or not a default row
/// was supplied.
pub proof fn lemma_empty_lookup(ctl: CrossTableLookup, traces: Seq<Seq<Seq<u64>>>)
    requires
        forall|k: int|
            0 <= k < ctl.looking@.len() ==> selects_nothing(
                #[trigger] ctl.looking@[k],
                CrossTableLookup::trace_for(traces, ctl.looking@[k]),
            ),
        selects_nothing(ctl.looked, CrossTableLookup::trace_for(traces, ctl.looked)),
    ensures
        ctl.holds_on(traces),
{
    lemma_looking_union_empty(ctl.looking@, traces);
    lemma_no_selection_empty(ctl.looked, CrossTableLookup::trace_for(traces, ctl.looked));
    assert forall|t: Seq<u64>| #[trigger] count_of(
        CrossTableLookup::looking_union(ctl.looking@, traces),
        t,
    ) == count_of(ctl.looked_tuples(traces), t) by {
        assert(count_of(Seq::<Seq<u64>>::empty(), t) == 0);
    }
}

/// Helper: the looking union of sides that select nothing is empty.
proof fn lemma_looking_union_empty(sides: Seq<TableWithColumns>, traces: Seq<Seq<Seq<u64>>>)
    requires
        forall|k: int|
            0 <= k < sides.len() ==> selects_nothing(
                #[trigger] sides[k],
                CrossTableLookup::trace_for(traces, sides[k]),
            ),
    ensures
        CrossTableLookup::looking_union(sides, traces) == Seq::<Seq<u64>>::empty(),
    decreases sides.len(),
{
    if sides.len() > 0 {
        lemma_looking_union_empty(sides.drop_last(), traces);
        lemma_no_selection_empty(
            sides.last(),
            CrossTableLookup::trace_for(traces, sides.last()),
        );
        assert(CrossTableLookup::looking_union(sides, traces) =~= Seq::<Seq<u64>>::empty());
    }
}

} // verus!
