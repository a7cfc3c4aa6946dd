//! Prover orchestration: normalize and pad the traces, self-check every
//! cross-table lookup, commit, derive challenges from the transcript,
//! build the lookup Z columns, commit to them, and assemble the aggregate
//! proof. Every step is a function of the inputs alone, so proving is
//! deterministic by contract.

use vstd::prelude::*;

use crate::all_stark::{registry_ok, side_registered, table_width, table_width_spec, AllStark};
use crate::config::StarkConfig;
use crate::cross_table_lookup::{CrossTableLookup, CtlCheckError};
use crate::field::{is_canon, FIELD_ORDER};
use crate::multiset::{row_canon, rows_canon};
use crate::permutation::z_values;
use crate::proofs::{
    next_pow2, padded_spec, pad_trace, AllProof, CtlChallengeZs, CtlZData, PublicValues,
    StarkProof,
};
use crate::table::{Table, TableWithColumns, NUM_TABLES};
use crate::transcript::{
    challenge_of, commitment_of, commit_rows, word_bytes, words_bytes, Challenger,
};

verus! {

/// Why proving was refused.
#[derive(Debug, Copy, Clone, PartialEq, Eq, Structural)]
pub enum ProveError {
    /// The configuration is unusable: no challenges, or too many.
    InvalidConfig,
    /// The registry's lookup list is not closed over the active tables.
    InvalidRegistry,
    /// The trace array does not have one trace per active table.
    WrongTableCount,
    /// A trace has a row of the wrong width or a non-canonical value.
    MalformedTrace { table: usize },
    /// A public value is not a canonical field element.
    MalformedPublicValues,
    /// A lookup filter evaluated outside {0, 1}.
    NonBooleanFilter { ctl: usize, side: usize, row: usize },
    /// A lookup's multiset obligation fails on these traces; committing
    /// would only produce an unverifiable proof.
    CtlUnsatisfied { ctl: usize },
}

/// The active table at each index.
pub open spec fn active_table_of(i: int) -> Table {
    if i == 0 {
        Table::Cpu
    } else {
        Table::Memory
    }
}

/// The active table at each index.
pub fn active_table(i: usize) -> (r: Table)
    requires
        i < NUM_TABLES,
    ensures
        r == active_table_of(i as int),
{
    if i == 0 {
        Table::Cpu
    } else {
        Table::Memory
    }
}

/// An active table's identifier round-trips through its index.
pub proof fn lemma_active_table_roundtrip(t: Table)
    requires
        t.is_active_spec(),
    ensures
        active_table_of(t.index_spec()) == t,
{
}

/// Every row of `t` has width `w` and canonical values.
pub open spec fn table_shape_ok(t: Seq<Seq<u64>>, w: nat) -> bool {
    &&& forall|i: int| 0 <= i < t.len() ==> (#[trigger] t[i]).len() == w
    &&& rows_canon(t)
}

/// The table is small enough to pad.
pub open spec fn table_small(t: Seq<Seq<u64>>) -> bool {
    t.len() <= 0x1000_0000
}

/// Every trace is small enough to pad.
pub open spec fn traces_small(tv: Seq<Seq<Seq<u64>>>) -> bool {
    forall|t: int| 0 <= t < tv.len() ==> table_small(#[trigger] tv[t])
}

/// One trace per active table, each of its table's width and canonical.
pub open spec fn traces_shape_ok(tv: Seq<Seq<Seq<u64>>>) -> bool {
    &&& tv.len() == NUM_TABLES
    &&& forall|t: int|
        0 <= t < NUM_TABLES ==> table_shape_ok(
            #[trigger] tv[t],
            table_width_spec(active_table_of(t)),
        )
}

/// The trace array after padding each table independently.
pub open spec fn padded_traces(tv: Seq<Seq<Seq<u64>>>) -> Seq<Seq<Seq<u64>>> {
    Seq::new(tv.len(), |t: int| padded_spec(tv[t], table_width_spec(active_table_of(t))))
}

/// Padding preserves a table's shape.
pub proof fn lemma_padded_shape(t: Seq<Seq<u64>>, w: nat)
    requires
        table_shape_ok(t, w),
    ensures
        table_shape_ok(padded_spec(t, w), w),
        padded_spec(t, w).len() == next_pow2(t.len()),
        padded_spec(t, w).len() >= 1,
{
    crate::proofs::lemma_next_pow2(t.len());
    assert forall|i: int| 0 <= i < padded_spec(t, w).len() implies (#[trigger] padded_spec(
        t,
        w,
    )[i]).len() == w && row_canon(padded_spec(t, w)[i]) by {
        if i < t.len() {
            assert(padded_spec(t, w)[i] == t[i]);
        } else {
            assert(padded_spec(t, w)[i] =~= crate::proofs::zero_row(w));
        }
    }
}

/// A registered lookup is usable against shaped traces.
pub proof fn lemma_registered_usable(c: CrossTableLookup, tv: Seq<Seq<Seq<u64>>>)
    requires
        crate::all_stark::ctl_registered(c),
        traces_shape_ok(tv),
    ensures
        c.wf_for(tv),
        crate::cross_table_lookup::traces_canon(tv),
{
    assert forall|k: int| 0 <= k < c.looking@.len() implies CrossTableLookup::side_wf(
        tv,
        #[trigger] c.looking@[k],
    ) by {
        lemma_side_usable(c.looking@[k], tv);
    }
    lemma_side_usable(c.looked, tv);
}

/// Helper: a registered side is usable against shaped traces.
proof fn lemma_side_usable(s: TableWithColumns, tv: Seq<Seq<Seq<u64>>>)
    requires
        side_registered(s),
        traces_shape_ok(tv),
    ensures
        CrossTableLookup::side_wf(tv, s),
{
    lemma_active_table_roundtrip(s.table);
    let tr = CrossTableLookup::trace_for(tv, s);
    assert(table_shape_ok(tr, table_width_spec(s.table)));
    assert forall|i: int| 0 <= i < tr.len() implies s.wf((#[trigger] tr[i]).len()) by {
        assert(tr[i].len() == table_width_spec(s.table));
    }
}

/// The transcript prefix fixed by the public values and the per-table
/// trace commitments.
pub open spec fn base_transcript(pv: Seq<u64>, padded: Seq<Seq<Seq<u64>>>) -> Seq<u8> {
    words_bytes(pv) + commitment_of(padded[0]) + commitment_of(padded[1])
}

/// The transcript after one sample: the challenge is absorbed in turn.
pub open spec fn after_sample(t: Seq<u8>) -> Seq<u8> {
    t + word_bytes(challenge_of(t))
}

/// The transcript after `n` samples.
pub open spec fn transcript_after(t: Seq<u8>, n: nat) -> Seq<u8>
    decreases n,
{
    if n == 0 {
        t
    } else {
        transcript_after(after_sample(t), (n - 1) as nat)
    }
}

/// Sampling once more extends the sampled transcript at its end.
pub proof fn lemma_transcript_after_snoc(t: Seq<u8>, n: nat)
    ensures
        transcript_after(t, n + 1) == after_sample(transcript_after(t, n)),
    decreases n,
{
    if n == 0 {
        assert(transcript_after(t, 1) == transcript_after(after_sample(t), 0));
        assert(transcript_after(after_sample(t), 0) == after_sample(t));
    } else {
        lemma_transcript_after_snoc(after_sample(t), (n - 1) as nat);
        assert(transcript_after(t, n + 1) == transcript_after(after_sample(t), n));
        assert(transcript_after(t, n) == transcript_after(after_sample(t), (n - 1) as nat));
    }
}

/// The `n`-th challenge drawn from a base transcript.
pub open spec fn nth_challenge(t: Seq<u8>, n: nat) -> u64 {
    challenge_of(transcript_after(t, n))
}

/// The first challenge of the `c`-th pair of lookup `j`.
pub open spec fn beta_of(base: Seq<u8>, j: int, c: int, nch: nat) -> u64 {
    nth_challenge(base, (2 * (j * nch + c)) as nat)
}

/// The second challenge of the `c`-th pair of lookup `j`.
pub open spec fn gamma_of(base: Seq<u8>, j: int, c: int, nch: nat) -> u64 {
    nth_challenge(base, (2 * (j * nch + c) + 1) as nat)
}

/// The Z columns of one lookup under one challenge pair are exactly the
/// running products of its sides.
pub open spec fn challenge_z_ok(
    z: CtlChallengeZs,
    ctl: CrossTableLookup,
    padded: Seq<Seq<Seq<u64>>>,
    beta: u64,
    gamma: u64,
) -> bool {
    &&& z.looking_zs@.len() == ctl.looking@.len()
    &&& forall|k: int|
        0 <= k < ctl.looking@.len() ==> (#[trigger] z.looking_zs@[k])@ == z_values(
            ctl.looking@[k],
            CrossTableLookup::trace_for(padded, ctl.looking@[k]),
            beta,
            gamma,
        )
    &&& z.looked_z@ == z_values(
        ctl.looked,
        CrossTableLookup::trace_for(padded, ctl.looked),
        beta,
        gamma,
    )
}

/// The Z data of lookup `j` is correct for every challenge pair.
pub open spec fn ctl_z_ok(
    d: CtlZData,
    ctl: CrossTableLookup,
    padded: Seq<Seq<Seq<u64>>>,
    base: Seq<u8>,
    j: int,
    nch: nat,
) -> bool {
    &&& d.challenges@.len() == nch
    &&& forall|c: int|
        0 <= c < nch ==> challenge_z_ok(
            #[trigger] d.challenges@[c],
            ctl,
            padded,
            beta_of(base, j, c, nch),
            gamma_of(base, j, c, nch),
        )
}

/// The committed rows of one challenge's Z columns: looking columns in
/// side order, then the looked column.
pub open spec fn zs_rows_of_challenge(z: CtlChallengeZs) -> Seq<Seq<u64>> {
    z.looking_zs.deep_view() + seq![z.looked_z@]
}

/// The committed rows of a challenge list.
pub open spec fn zs_rows_of_challenges(s: Seq<CtlChallengeZs>) -> Seq<Seq<u64>>
    decreases s.len(),
{
    if s.len() == 0 {
        Seq::empty()
    } else {
        zs_rows_of_challenges(s.drop_last()) + zs_rows_of_challenge(s.last())
    }
}

/// The committed rows of the whole Z-column family, lookup by lookup.
pub open spec fn zs_rows_of_all(ds: Seq<CtlZData>) -> Seq<Seq<u64>>
    decreases ds.len(),
{
    if ds.len() == 0 {
        Seq::empty()
    } else {
        zs_rows_of_all(ds.drop_last()) + zs_rows_of_challenges(ds.last().challenges@)
    }
}

/// Copies one row.
pub fn copy_row(v: &Vec<u64>) -> (r: Vec<u64>)
    ensures
        r@ == v@,
{
    let mut out: Vec<u64> = Vec::new();
    let mut k: usize = 0;
    while k < v.len()
        invariant
            k <= v@.len(),
            out@ == v@.take(k as int),
        decreases v@.len() - k,
    {
        proof {
            assert(v@.take(k + 1) =~= v@.take(k as int).push(v@[k as int]));
        }
        out.push(v[k]);
        k = k + 1;
    }
    proof {
        assert(v@.take(v@.len() as int) =~= v@);
    }
    out
}

/// Checks that every row of `t` has width `w` with canonical values.
pub fn check_table_shape(t: &Vec<Vec<u64>>, w: usize) -> (r: bool)
    ensures
        r <==> table_shape_ok(t.deep_view(), w as nat),
{
    let mut i: usize = 0;
    while i < t.len()
        invariant
            i <= t@.len(),
            t.deep_view().len() == t@.len(),
            forall|ii: int|
                0 <= ii < i ==> (#[trigger] t.deep_view()[ii]).len() == w && row_canon(
                    t.deep_view()[ii],
                ),
        decreases t@.len() - i,
    {
        let row = &t[i];
        proof {
            assert(t.deep_view()[i as int] =~= t@[i as int]@);
        }
        if row.len() != w {
            return false;
        }
        let mut k: usize = 0;
        while k < row.len()
            invariant
                k <= row@.len(),
                i < t@.len(),
                t.deep_view().len() == t@.len(),
                t.deep_view()[i as int] == row@,
                forall|kk: int| 0 <= kk < k ==> is_canon(#[trigger] row@[kk]),
            decreases row@.len() - k,
        {
            if row[k] >= FIELD_ORDER {
                proof {
                    assert(!is_canon(row@[k as int]));
                    assert(!row_canon(t.deep_view()[i as int]));
                }
                return false;
            }
            k = k + 1;
        }
        proof {
            assert(row_canon(t.deep_view()[i as int]));
        }
        i = i + 1;
    }
    true
}

/// Flattens the Z-column family into the row list that is committed.
pub fn flatten_zs(ds: &Vec<CtlZData>) -> (r: Vec<Vec<u64>>)
    ensures
        r.deep_view() == zs_rows_of_all(ds@),
{
    let mut out: Vec<Vec<u64>> = Vec::new();
    let mut j: usize = 0;
    proof {
        assert(out.deep_view() =~= zs_rows_of_all(ds@.take(0int)));
    }
    while j < ds.len()
        invariant
            j <= ds@.len(),
            out.deep_view() == zs_rows_of_all(ds@.take(j as int)),
        decreases ds@.len() - j,
    {
        let d = &ds[j];
        let ghost base_rows = out.deep_view();
        let mut c: usize = 0;
        proof {
            assert(out.deep_view() =~= base_rows + zs_rows_of_challenges(
                d.challenges@.take(0int),
            ));
        }
        while c < d.challenges.len()
            invariant
                c <= d.challenges@.len(),
                *d == ds@[j as int],
                j < ds@.len(),
                out.deep_view() == base_rows + zs_rows_of_challenges(d.challenges@.take(c as int)),
            decreases d.challenges@.len() - c,
        {
            let ch = &d.challenges[c];
            let ghost base2 = out.deep_view();
            let mut k: usize = 0;
            proof {
                assert(out.deep_view() =~= base2 + ch.looking_zs.deep_view().take(0int));
            }
            while k < ch.looking_zs.len()
                invariant
                    k <= ch.looking_zs@.len(),
                    *ch == ds@[j as int].challenges@[c as int],
                    *d == ds@[j as int],
                    j < ds@.len(),
                    c < d.challenges@.len(),
                    ch.looking_zs.deep_view().len() == ch.looking_zs@.len(),
                    out.deep_view() == base2 + ch.looking_zs.deep_view().take(k as int),
                decreases ch.looking_zs@.len() - k,
            {
                let row = copy_row(&ch.looking_zs[k]);
                proof {
                    assert(row.deep_view() =~= ch.looking_zs.deep_view()[k as int]);
                }
                let ghost prev = out.deep_view();
                out.push(row);
                proof {
                    assert(out.deep_view() =~= prev.push(
                        ch.looking_zs.deep_view()[k as int],
                    ));
                    assert(prev.push(ch.looking_zs.deep_view()[k as int]) =~= base2
                        + ch.looking_zs.deep_view().take(k + 1));
                }
                k = k + 1;
            }
            proof {
                assert(ch.looking_zs.deep_view().take(ch.looking_zs@.len() as int)
                    =~= ch.looking_zs.deep_view());
            }
            let lrow = copy_row(&ch.looked_z);
            proof {
                assert(lrow.deep_view() =~= ch.looked_z@);
            }
            let ghost prev = out.deep_view();
            out.push(lrow);
            proof {
                assert(out.deep_view() =~= prev.push(lrow.deep_view()));
                assert(out.deep_view() =~= prev.push(ch.looked_z@));
                assert(prev.push(ch.looked_z@) =~= base2 + zs_rows_of_challenge(*ch));
                assert(d.challenges@.take(c + 1).drop_last() =~= d.challenges@.take(c as int));
                assert(d.challenges@.take(c + 1).last() == d.challenges@[c as int]);
                assert(base2 + zs_rows_of_challenge(*ch) =~= base_rows + zs_rows_of_challenges(
                    d.challenges@.take(c + 1),
                ));
            }
            c = c + 1;
        }
        proof {
            assert(d.challenges@.take(d.challenges@.len() as int) =~= d.challenges@);
            assert(ds@.take(j + 1).drop_last() =~= ds@.take(j as int));
            assert(ds@.take(j + 1).last() == ds@[j as int]);
        }
        j = j + 1;
    }
    proof {
        assert(ds@.take(ds@.len() as int) =~= ds@);
    }
    out
}

/// Checks that every value is a canonical field element.
pub fn check_values_canon(v: &Vec<u64>) -> (r: bool)
    ensures
        r <==> row_canon(v@),
{
    let mut k: usize = 0;
    while k < v.len()
        invariant
            k <= v@.len(),
            forall|kk: int| 0 <= kk < k ==> is_canon(#[trigger] v@[kk]),
        decreases v@.len() - k,
    {
        if v[k] >= FIELD_ORDER {
            return false;
        }
        k = k + 1;
    }
    true
}

/// Everything a successful proving run guarantees: the inputs were valid,
/// every lookup obligation held, and every field of the proof is pinned as
/// a function of the inputs.
pub open spec fn prove_ok_post(
    p: AllProof,
    ctls: Seq<CrossTableLookup>,
    nch: nat,
    tv: Seq<Seq<Seq<u64>>>,
    pv: Seq<u64>,
) -> bool {
    let padded = padded_traces(tv);
    let base = base_transcript(pv, padded);
    &&& 1 <= nch <= 1000
    &&& ctls.len() <= 100
    &&& registry_ok(ctls)
    &&& traces_shape_ok(tv)
    &&& traces_small(tv)
    &&& row_canon(pv)
    &&& forall|j: int|
        0 <= j < ctls.len() ==> (#[trigger] ctls[j]).filters_ok(padded) && ctls[j].holds_on(padded)
    &&& p.public_values.values@ == pv
    &&& p.stark_proofs@.len() == NUM_TABLES
    &&& forall|t: int|
        0 <= t < NUM_TABLES ==> (#[trigger] p.stark_proofs@[t]).trace_rows.deep_view()
            == padded[t]
    &&& forall|t: int|
        0 <= t < NUM_TABLES ==> (#[trigger] p.stark_proofs@[t]).trace_commitment@
            == commitment_of(padded[t])
    &&& p.ctl_zs@.len() == ctls.len()
    &&& forall|j: int|
        0 <= j < ctls.len() ==> ctl_z_ok(#[trigger] p.ctl_zs@[j], ctls[j], padded, base, j, nch)
    &&& p.ctl_commitment@ == commitment_of(zs_rows_of_all(p.ctl_zs@))
    &&& p.ctl_descriptors@.len() == ctls.len()
    &&& forall|j: int|
        0 <= j < ctls.len() ==> (#[trigger] p.ctl_descriptors@[j]).same_as(ctls[j])
}

/// What each refusal says of the inputs.
pub open spec fn prove_err_post(
    e: ProveError,
    ctls: Seq<CrossTableLookup>,
    nch: nat,
    tv: Seq<Seq<Seq<u64>>>,
    pv: Seq<u64>,
) -> bool {
    let padded = padded_traces(tv);
    match e {
        ProveError::InvalidConfig => !(1 <= nch <= 1000),
        ProveError::InvalidRegistry => !registry_ok(ctls) || ctls.len() > 100,
        ProveError::WrongTableCount => tv.len() != NUM_TABLES,
        ProveError::MalformedTrace { table } => table < NUM_TABLES && !(table_shape_ok(
            tv[table as int],
            crate::all_stark::table_width_spec(active_table_of(table as int)),
        ) && table_small(tv[table as int])),
        ProveError::MalformedPublicValues => !row_canon(pv),
        ProveError::NonBooleanFilter { ctl, side: _, row: _ } => ctl < ctls.len() && !ctls[
            ctl as int
        ].filters_ok(padded),
        ProveError::CtlUnsatisfied { ctl } => ctl < ctls.len() && !ctls[ctl as int].holds_on(
            padded,
        ),
    }
}

/// Proves a trace set: pad, self-check every lookup, commit, derive the
/// challenge sequence, build the Z columns, commit to them, and assemble
/// the aggregate proof. Every field of the result is pinned as a function
/// of the inputs, so two runs on the same inputs yield the same proof.
pub fn prove_with_traces(
    all_stark: &AllStark,
    config: &StarkConfig,
    traces: Vec<Vec<Vec<u64>>>,
    public_values: PublicValues,
) -> (r: Result<AllProof, ProveError>)
    ensures
        (r matches Ok(p) ==> prove_ok_post(
            p,
            all_stark.cross_table_lookups@,
            config.num_challenges as nat,
            traces.deep_view(),
            public_values.values@,
        )),
        (r matches Err(e) ==> prove_err_post(
            e,
            all_stark.cross_table_lookups@,
            config.num_challenges as nat,
            traces.deep_view(),
            public_values.values@,
        )),
{
    let ghost tv = traces.deep_view();
    if config.num_challenges < 1 || config.num_challenges > 1000 {
        return Err(ProveError::InvalidConfig);
    }
    if traces.len() != NUM_TABLES {
        return Err(ProveError::WrongTableCount);
    }
    if all_stark.cross_table_lookups.len() > 100 {
        return Err(ProveError::InvalidRegistry);
    }
    if !all_stark.validate() {
        return Err(ProveError::InvalidRegistry);
    }
    if !check_values_canon(&public_values.values) {
        return Err(ProveError::MalformedPublicValues);
    }
    let mut t: usize = 0;
    while t < NUM_TABLES
        invariant
            t <= NUM_TABLES,
            tv == traces.deep_view(),
            tv.len() == NUM_TABLES,
            forall|tt: int|
                0 <= tt < t ==> table_shape_ok(
                    #[trigger] tv[tt],
                    crate::all_stark::table_width_spec(active_table_of(tt)),
                ) && table_small(tv[tt]),
        decreases NUM_TABLES - t,
    {
        let w = table_width(active_table(t));
        if traces[t].len() > 0x1000_0000 {
            proof {
                assert(traces[t as int].deep_view() =~= tv[t as int]);
            }
            return Err(ProveError::MalformedTrace { table: t });
        }
        if !check_table_shape(&traces[t], w) {
            proof {
                assert(traces[t as int].deep_view() =~= tv[t as int]);
            }
            return Err(ProveError::MalformedTrace { table: t });
        }
        proof {
            assert(traces[t as int].deep_view() =~= tv[t as int]);
        }
        t = t + 1;
    }
    proof {
        assert(traces_shape_ok(tv));
        assert(traces_small(tv));
    }
    let mut traces_own = traces;
    let mut t1 = match traces_own.pop() {
        Some(x) => x,
        None => unreached(),
    };
    let mut t0 = match traces_own.pop() {
        Some(x) => x,
        None => unreached(),
    };
    proof {
        assert(t0.deep_view() =~= tv[0]);
        assert(t1.deep_view() =~= tv[1]);
        assert(table_shape_ok(tv[0], crate::all_stark::table_width_spec(active_table_of(0))));
        assert(table_shape_ok(tv[1], crate::all_stark::table_width_spec(active_table_of(1))));
    }
    let w0 = table_width(active_table(0));
    let w1 = table_width(active_table(1));
    pad_trace(&mut t0, w0);
    pad_trace(&mut t1, w1);
    let ghost padded = padded_traces(tv);
    let mut padded_list: Vec<Vec<Vec<u64>>> = Vec::new();
    padded_list.push(t0);
    padded_list.push(t1);
    proof {
        assert(padded_list.deep_view() =~= padded);
        lemma_padded_shape(tv[0], crate::all_stark::table_width_spec(active_table_of(0)));
        lemma_padded_shape(tv[1], crate::all_stark::table_width_spec(active_table_of(1)));
        assert(traces_shape_ok(padded));
    }
    let mut j: usize = 0;
    while j < all_stark.cross_table_lookups.len()
        invariant
            j <= all_stark.cross_table_lookups@.len(),
            tv == traces.deep_view(),
            padded == padded_traces(tv),
            padded_list.deep_view() == padded,
            padded.len() == NUM_TABLES,
            traces_shape_ok(padded),
            registry_ok(all_stark.cross_table_lookups@),
            forall|jj: int|
                0 <= jj < j ==> (#[trigger] all_stark.cross_table_lookups@[jj]).filters_ok(padded)
                    && all_stark.cross_table_lookups@[jj].holds_on(padded),
        decreases all_stark.cross_table_lookups@.len() - j,
    {
        proof {
            lemma_registered_usable(all_stark.cross_table_lookups@[j as int], padded);
        }
        match all_stark.cross_table_lookups[j].check_on(&padded_list) {
            Ok(()) => {},
            Err(CtlCheckError::NonBooleanFilter { side, row }) => {
                proof {
                    assert(!all_stark.cross_table_lookups@[j as int].filters_ok(
                        padded_list.deep_view(),
                    ));
                    assert(all_stark.cross_table_lookups@[j as int].filters_ok(padded)
                        == all_stark.cross_table_lookups@[j as int].filters_ok(
                        padded_list.deep_view(),
                    ));
                }
                return Err(ProveError::NonBooleanFilter { ctl: j, side, row });
            },
            Err(CtlCheckError::MultisetMismatch) => {
                proof {
                    assert(all_stark.cross_table_lookups@[j as int].holds_on(padded)
                        == all_stark.cross_table_lookups@[j as int].holds_on(
                        padded_list.deep_view(),
                    ));
                }
                return Err(ProveError::CtlUnsatisfied { ctl: j });
            },
        }
        j = j + 1;
    }
    let mut challenger = Challenger::new();
    challenger.observe_words(&public_values.values);
    let c0 = commit_rows(&padded_list[0]);
    challenger.observe_commitment(&c0);
    let c1 = commit_rows(&padded_list[1]);
    challenger.observe_commitment(&c1);
    let ghost base = base_transcript(public_values.values@, padded);
    proof {
        assert(challenger.absorbed() =~= base);
    }
    let nch = config.num_challenges;
    let mut ctl_zs: Vec<CtlZData> = Vec::new();
    let mut j: usize = 0;
    proof {
        assert(challenger.absorbed() =~= transcript_after(base, 0));
    }
    while j < all_stark.cross_table_lookups.len()
        invariant
            j <= all_stark.cross_table_lookups@.len(),
            all_stark.cross_table_lookups@.len() <= 100,
            1 <= nch <= 1000,
            nch == config.num_challenges,
            tv == traces.deep_view(),
            padded == padded_traces(tv),
            base == base_transcript(public_values.values@, padded),
            traces_shape_ok(tv),
            traces_small(tv),
            row_canon(public_values.values@),
            registry_ok(all_stark.cross_table_lookups@),
            forall|jj: int|
                0 <= jj < all_stark.cross_table_lookups@.len() ==> (
                #[trigger] all_stark.cross_table_lookups@[jj]).filters_ok(padded)
                    && all_stark.cross_table_lookups@[jj].holds_on(padded),
            padded_list.deep_view() == padded,
            padded.len() == NUM_TABLES,
            traces_shape_ok(padded),
            registry_ok(all_stark.cross_table_lookups@),
            ctl_zs@.len() == j,
            forall|jj: int|
                0 <= jj < j ==> ctl_z_ok(
                    #[trigger] ctl_zs@[jj],
                    all_stark.cross_table_lookups@[jj],
                    padded,
                    base,
                    jj,
                    nch as nat,
                ),
            challenger.absorbed() == transcript_after(base, (2 * (j * nch)) as nat),
        decreases all_stark.cross_table_lookups@.len() - j,
    {
        let ctl = &all_stark.cross_table_lookups[j];
        proof {
            lemma_registered_usable(*ctl, padded);
        }
        let mut challenges: Vec<CtlChallengeZs> = Vec::new();
        let mut c: usize = 0;
        while c < nch
            invariant
                c <= nch,
                1 <= nch <= 1000,
                j < all_stark.cross_table_lookups@.len(),
                all_stark.cross_table_lookups@.len() <= 100,
                *ctl == all_stark.cross_table_lookups@[j as int],
                ctl.wf_for(padded),
                ctl.filters_ok(padded),
                crate::cross_table_lookup::traces_canon(padded),
                padded_list.deep_view() == padded,
                padded.len() == NUM_TABLES,
                traces_shape_ok(padded),
                registry_ok(all_stark.cross_table_lookups@),
                challenges@.len() == c,
                forall|cc: int|
                    0 <= cc < c ==> challenge_z_ok(
                        #[trigger] challenges@[cc],
                        all_stark.cross_table_lookups@[j as int],
                        padded,
                        beta_of(base, j as int, cc, nch as nat),
                        gamma_of(base, j as int, cc, nch as nat),
                    ),
                challenger.absorbed() == transcript_after(base, (2 * (j * nch + c)) as nat),
            decreases nch - c,
        {
            let ghost cnt = (2 * (j * nch + c)) as nat;
            let beta = challenger.sample();
            proof {
                lemma_transcript_after_snoc(base, cnt);
                assert(beta == beta_of(base, j as int, c as int, nch as nat));
            }
            let gamma = challenger.sample();
            proof {
                lemma_transcript_after_snoc(base, cnt + 1);
                assert(gamma == gamma_of(base, j as int, c as int, nch as nat));
            }
            let mut looking_zs: Vec<Vec<u64>> = Vec::new();
            let mut k: usize = 0;
            while k < ctl.looking.len()
                invariant
                    k <= ctl.looking@.len(),
                    *ctl == all_stark.cross_table_lookups@[j as int],
                    j < all_stark.cross_table_lookups@.len(),
                    ctl.wf_for(padded),
                    ctl.filters_ok(padded),
                    crate::cross_table_lookup::traces_canon(padded),
                    padded_list.deep_view() == padded,
                    padded.len() == NUM_TABLES,
                    traces_shape_ok(padded),
                    is_canon(beta),
                    is_canon(gamma),
                    looking_zs@.len() == k,
                    forall|kk: int|
                        0 <= kk < k ==> (#[trigger] looking_zs@[kk])@ == z_values(
                            ctl.looking@[kk],
                            CrossTableLookup::trace_for(padded, ctl.looking@[kk]),
                            beta,
                            gamma,
                        ),
                decreases ctl.looking@.len() - k,
            {
                let side = &ctl.looking[k];
                let ti = side.table.index();
                proof {
                    assert(CrossTableLookup::side_wf(padded, *side));
                    lemma_side_compute_ready(*side, padded, padded_list@[ti as int]);
                }
                let z = side.compute_z(&padded_list[ti], beta, gamma);
                proof {
                    assert(padded_list[ti as int].deep_view() =~= CrossTableLookup::trace_for(
                        padded,
                        *side,
                    ));
                }
                looking_zs.push(z);
                k = k + 1;
            }
            let ti = ctl.looked.table.index();
            proof {
                assert(CrossTableLookup::side_wf(padded, ctl.looked));
                lemma_side_compute_ready(ctl.looked, padded, padded_list@[ti as int]);
            }
            let looked_z = ctl.looked.compute_z(&padded_list[ti], beta, gamma);
            proof {
                assert(padded_list[ti as int].deep_view() =~= CrossTableLookup::trace_for(
                    padded,
                    ctl.looked,
                ));
            }
            challenges.push(CtlChallengeZs { looking_zs, looked_z });
            c = c + 1;
        }
        ctl_zs.push(CtlZData { challenges });
        proof {
            assert((2 * (j * nch + nch)) as nat == (2 * ((j + 1) * nch)) as nat) by (nonlinear_arith);
        }
        j = j + 1;
    }
    let flat = flatten_zs(&ctl_zs);
    let zc = commit_rows(&flat);
    challenger.observe_commitment(&zc);
    let mut descriptors: Vec<CrossTableLookup> = Vec::new();
    let mut j: usize = 0;
    while j < all_stark.cross_table_lookups.len()
        invariant
            j <= all_stark.cross_table_lookups@.len(),
            descriptors@.len() == j,
            forall|jj: int|
                0 <= jj < j ==> (#[trigger] descriptors@[jj]).same_as(
                    all_stark.cross_table_lookups@[jj],
                ),
        decreases all_stark.cross_table_lookups@.len() - j,
    {
        descriptors.push(all_stark.cross_table_lookups[j].duplicate());
        j = j + 1;
    }
    let mut padded_list = padded_list;
    let p1 = match padded_list.pop() {
        Some(x) => x,
        None => unreached(),
    };
    let p0 = match padded_list.pop() {
        Some(x) => x,
        None => unreached(),
    };
    proof {
        assert(p0.deep_view() =~= padded[0]);
        assert(p1.deep_view() =~= padded[1]);
    }
    let mut stark_proofs: Vec<StarkProof> = Vec::new();
    stark_proofs.push(StarkProof { trace_commitment: c0, trace_rows: p0 });
    stark_proofs.push(StarkProof { trace_commitment: c1, trace_rows: p1 });
    Ok(
        AllProof {
            stark_proofs,
            ctl_zs,
            ctl_commitment: zc,
            public_values,
            ctl_descriptors: descriptors,
        },
    )
}

/// Law: proving is deterministic. Two proofs of the same traces, public
/// values and configuration under the same registry carry identical trace
/// commitments, identical openings, identical Z columns and an identical
/// Z-column commitment.
pub proof fn lemma_prove_deterministic(
    p1: AllProof,
    p2: AllProof,
    ctls: Seq<CrossTableLookup>,
    nch: nat,
    tv: Seq<Seq<Seq<u64>>>,
    pv: Seq<u64>,
)
    requires
        prove_ok_post(p1, ctls, nch, tv, pv),
        prove_ok_post(p2, ctls, nch, tv, pv),
    ensures
        forall|t: int|
            0 <= t < NUM_TABLES ==> (#[trigger] p1.stark_proofs@[t]).trace_commitment@
                == p2.stark_proofs@[t].trace_commitment@,
        forall|t: int|
            0 <= t < NUM_TABLES ==> (#[trigger] p1.stark_proofs@[t]).trace_rows.deep_view()
                == p2.stark_proofs@[t].trace_rows.deep_view(),
        p1.ctl_commitment@ == p2.ctl_commitment@,
        p1.public_values.values@ == p2.public_values.values@,
{
    let padded = padded_traces(tv);
    let base = base_transcript(pv, padded);
    lemma_zs_rows_pinned(p1.ctl_zs@, p2.ctl_zs@, ctls, padded, base, nch, ctls.len());
}

/// Helper: Z data pinned pointwise by `ctl_z_ok` flattens to the same
/// committed rows.
proof fn lemma_zs_rows_pinned(
    d1: Seq<CtlZData>,
    d2: Seq<CtlZData>,
    ctls: Seq<CrossTableLookup>,
    padded: Seq<Seq<Seq<u64>>>,
    base: Seq<u8>,
    nch: nat,
    n: nat,
)
    requires
        d1.len() == n <= ctls.len(),
        d2.len() == n,
        forall|j: int| 0 <= j < n ==> ctl_z_ok(#[trigger] d1[j], ctls[j], padded, base, j, nch),
        forall|j: int| 0 <= j < n ==> ctl_z_ok(#[trigger] d2[j], ctls[j], padded, base, j, nch),
    ensures
        zs_rows_of_all(d1) == zs_rows_of_all(d2),
    decreases n,
{
    if n == 0 {
        assert(zs_rows_of_all(d1) =~= zs_rows_of_all(d2));
    } else {
        lemma_zs_rows_pinned(
            d1.drop_last(),
            d2.drop_last(),
            ctls,
            padded,
            base,
            nch,
            (n - 1) as nat,
        );
        let j = n - 1;
        lemma_ch_rows_pinned(
            d1.last().challenges@,
            d2.last().challenges@,
            ctls[j],
            padded,
            base,
            j,
            nch,
            nch,
        );
        assert(zs_rows_of_all(d1) =~= zs_rows_of_all(d2));
    }
}

/// Helper: challenge Z columns pinned pointwise by `challenge_z_ok`
/// flatten to the same committed rows.
proof fn lemma_ch_rows_pinned(
    c1: Seq<CtlChallengeZs>,
    c2: Seq<CtlChallengeZs>,
    ctl: CrossTableLookup,
    padded: Seq<Seq<Seq<u64>>>,
    base: Seq<u8>,
    j: int,
    nch: nat,
    n: nat,
)
    requires
        c1.len() == n <= nch,
        c2.len() == n,
        forall|c: int|
            0 <= c < n ==> challenge_z_ok(
                #[trigger] c1[c],
                ctl,
                padded,
                beta_of(base, j, c, nch),
                gamma_of(base, j, c, nch),
            ),
        forall|c: int|
            0 <= c < n ==> challenge_z_ok(
                #[trigger] c2[c],
                ctl,
                padded,
                beta_of(base, j, c, nch),
                gamma_of(base, j, c, nch),
            ),
    ensures
        zs_rows_of_challenges(c1) == zs_rows_of_challenges(c2),
    decreases n,
{
    if n == 0 {
        assert(zs_rows_of_challenges(c1) =~= zs_rows_of_challenges(c2));
    } else {
        lemma_ch_rows_pinned(
            c1.drop_last(),
            c2.drop_last(),
            ctl,
            padded,
            base,
            j,
            nch,
            (n - 1) as nat,
        );
        let c = n - 1;
        assert(challenge_z_ok(c1[c], ctl, padded, beta_of(base, j, c, nch), gamma_of(base, j, c, nch)));
        assert(challenge_z_ok(c2[c], ctl, padded, beta_of(base, j, c, nch), gamma_of(base, j, c, nch)));
        assert(c1.last().looking_zs.deep_view() =~~= c2.last().looking_zs.deep_view());
        assert(zs_rows_of_challenge(c1.last()) =~= zs_rows_of_challenge(c2.last()));
        assert(zs_rows_of_challenges(c1) =~= zs_rows_of_challenges(c2));
    }
}

/// Helper: a side of a registered lookup can compute its Z column on its
/// padded table.
pub proof fn lemma_side_compute_ready(s: TableWithColumns, padded: Seq<Seq<Seq<u64>>>, t: Vec<Vec<u64>>)
    requires
        CrossTableLookup::side_wf(padded, s),
        crate::cross_table_lookup::traces_canon(padded),
        t.deep_view() == CrossTableLookup::trace_for(padded, s),
    ensures
        forall|i: int| 0 <= i < t@.len() ==> s.wf((#[trigger] t@[i])@.len() as nat),
        rows_canon(t.deep_view()),
{
    assert(rows_canon(t.deep_view()));
    assert forall|i: int| 0 <= i < t@.len() implies s.wf((#[trigger] t@[i])@.len() as nat) by {
        assert(t.deep_view()[i] =~= t@[i]@);
        assert(s.wf(CrossTableLookup::trace_for(padded, s)[i].len()));
    }
}

} // verus!
