//! Verifier orchestration: recompute the challenge sequence from the
//! received commitments and public values (never trusting embedded
//! challenges), re-check every per-table constraint on the opened trace,
//! re-check every lookup's Z columns and final-product identity, and
//! re-check the bindings of all commitments. Any single failing check
//! rejects the whole proof.

use vstd::prelude::*;

use crate::all_stark::{registry_ok, AllStark};
use crate::config::StarkConfig;
use crate::cpu::{cpu_every_row_spec, cpu_first_row_spec, cpu_transition_spec, NUM_CPU_COLS};
use crate::cross_table_lookup::CrossTableLookup;
use crate::field::{fmul, is_canon, f_mul};
use crate::memory::{mem_every_row_spec, mem_first_row_spec, mem_transition_spec, NUM_MEM_COLS};
use crate::multiset::{row_canon, tuple_eq};
use crate::permutation::{running_product, z_values};
use crate::proofs::{AllProof, CtlChallengeZs};
use crate::prover::{
    active_table_of, base_transcript, beta_of, challenge_z_ok, check_table_shape,
    check_values_canon, ctl_z_ok, gamma_of, lemma_registered_usable,
    lemma_transcript_after_snoc, table_shape_ok, traces_shape_ok, transcript_after,
    zs_rows_of_all,
};
use crate::table::{TableWithColumns, NUM_TABLES};
use crate::transcript::{commitment_of, commit_rows, words_bytes, Challenger};

verus! {

/// Why a proof was rejected. Any one failure rejects the whole proof.
#[derive(Debug, Copy, Clone, PartialEq, Eq, Structural)]
pub enum VerifyError {
    /// A per-table constraint does not vanish on the opened trace.
    TableConstraint { table: usize },
    /// A lookup's Z columns or final-product identity fail.
    CtlMismatch { ctl: usize },
    /// A commitment does not bind what the openings hold.
    OpeningFailure { table: usize },
    /// The Z-column commitment does not bind the received Z columns.
    ZCommitmentMismatch,
    /// The public values are not canonical field elements.
    PublicValuesMismatch,
    /// The proof's shape, its descriptor list, the registry or the
    /// configuration is unusable.
    MalformedProof,
}

/// Every entry is zero.
pub open spec fn all_zero(s: Seq<u64>) -> bool {
    forall|i: int| 0 <= i < s.len() ==> #[trigger] s[i] == 0
}

/// The CPU constraint set vanishes on the whole trace.
pub open spec fn cpu_ok(t: Seq<Seq<u64>>) -> bool {
    &&& forall|i: int| 0 <= i < t.len() ==> all_zero(cpu_every_row_spec(#[trigger] t[i]))
    &&& forall|i: int|
        0 <= i < t.len() - 1 ==> all_zero(cpu_transition_spec(#[trigger] t[i], t[i + 1]))
    &&& t.len() > 0 ==> all_zero(cpu_first_row_spec(t[0]))
}

/// The memory constraint set vanishes on the whole trace.
pub open spec fn mem_ok(t: Seq<Seq<u64>>) -> bool {
    &&& forall|i: int| 0 <= i < t.len() ==> all_zero(mem_every_row_spec(#[trigger] t[i]))
    &&& forall|i: int|
        0 <= i < t.len() - 1 ==> all_zero(mem_transition_spec(#[trigger] t[i], t[i + 1]))
    &&& t.len() > 0 ==> all_zero(mem_first_row_spec(t[0]))
}

/// The active table's constraint set vanishes on the opened trace.
pub open spec fn table_constraints_ok(i: int, t: Seq<Seq<u64>>) -> bool {
    if i == 0 {
        cpu_ok(t)
    } else {
        mem_ok(t)
    }
}

/// The product of the looking sides' running products.
pub open spec fn looking_product(
    sides: Seq<TableWithColumns>,
    traces: Seq<Seq<Seq<u64>>>,
    beta: u64,
    gamma: u64,
) -> int
    decreases sides.len(),
{
    if sides.len() == 0 {
        1
    } else {
        fmul(
            looking_product(sides.drop_last(), traces, beta, gamma),
            running_product(
                sides.last(),
                CrossTableLookup::trace_for(traces, sides.last()),
                beta,
                gamma,
            ),
        )
    }
}

/// The final-product identity of one lookup under one challenge pair.
pub open spec fn products_match(
    ctl: CrossTableLookup,
    traces: Seq<Seq<Seq<u64>>>,
    beta: u64,
    gamma: u64,
) -> bool {
    looking_product(ctl.looking@, traces, beta, gamma) == running_product(
        ctl.looked,
        CrossTableLookup::trace_for(traces, ctl.looked),
        beta,
        gamma,
    )
}

/// Everything acceptance means: the proof is well-shaped against the
/// verifier's own registry, every commitment binds its openings, every
/// per-table constraint and every lookup identity holds under the
/// recomputed challenge sequence.
pub open spec fn verify_ok(ctls: Seq<CrossTableLookup>, p: AllProof, nch: nat) -> bool {
    let opened = opened_traces(p);
    let base = received_base(p);
    &&& 1 <= nch <= 1000
    &&& ctls.len() <= 100
    &&& registry_ok(ctls)
    &&& p.stark_proofs@.len() == NUM_TABLES
    &&& row_canon(p.public_values.values@)
    &&& traces_shape_ok(opened)
    &&& p.ctl_descriptors@.len() == ctls.len()
    &&& forall|j: int|
        0 <= j < ctls.len() ==> (#[trigger] p.ctl_descriptors@[j]).same_as(ctls[j])
    &&& forall|t: int|
        0 <= t < NUM_TABLES ==> (#[trigger] p.stark_proofs@[t]).trace_commitment@
            == commitment_of(opened[t])
    &&& forall|t: int| 0 <= t < NUM_TABLES ==> table_constraints_ok(t, #[trigger] opened[t])
    &&& p.ctl_zs@.len() == ctls.len()
    &&& forall|j: int|
        0 <= j < ctls.len() ==> ctl_z_ok(#[trigger] p.ctl_zs@[j], ctls[j], opened, base, j, nch)
    &&& p.ctl_commitment@ == commitment_of(zs_rows_of_all(p.ctl_zs@))
    &&& forall|j: int, c: int|
        0 <= j < ctls.len() && 0 <= c < nch ==> products_match(
            #[trigger] ctls[j],
            opened,
            beta_of(base, j, c, nch),
            #[trigger] gamma_of(base, j, c, nch),
        )
}

/// The trace array the proof opens.
pub open spec fn opened_traces(p: AllProof) -> Seq<Seq<Seq<u64>>> {
    Seq::new(p.stark_proofs@.len() as nat, |t: int| p.stark_proofs@[t].trace_rows.deep_view())
}

/// The transcript prefix the verifier rebuilds from the received proof.
pub open spec fn received_base(p: AllProof) -> Seq<u8> {
    words_bytes(p.public_values.values@) + p.stark_proofs@[0].trace_commitment@
        + p.stark_proofs@[1].trace_commitment@
}

/// Checks that every entry of a constraint evaluation is zero.
fn check_all_zero(v: &Vec<u64>) -> (r: bool)
    ensures
        r <==> all_zero(v@),
{
    let mut k: usize = 0;
    while k < v.len()
        invariant
            k <= v@.len(),
            forall|i: int| 0 <= i < k ==> #[trigger] v@[i] == 0,
        decreases v@.len() - k,
    {
        if v[k] != 0 {
            return false;
        }
        k = k + 1;
    }
    true
}

/// Checks the CPU constraint set on an opened trace.
fn check_cpu(stark: &crate::cpu::CpuStark, t: &Vec<Vec<u64>>) -> (r: bool)
    requires
        table_shape_ok(t.deep_view(), NUM_CPU_COLS as nat),
    ensures
        r <==> cpu_ok(t.deep_view()),
{
    let ghost tv = t.deep_view();
    if t.len() > 0 {
        proof {
            assert(tv[0] =~= t@[0]@);
        }
        let fr = stark.eval_first_row(&t[0]);
        if !check_all_zero(&fr) {
            return false;
        }
    }
    let mut i: usize = 0;
    while i < t.len()
        invariant
            i <= t@.len(),
            tv == t.deep_view(),
            table_shape_ok(tv, NUM_CPU_COLS as nat),
            forall|ii: int| 0 <= ii < i ==> all_zero(cpu_every_row_spec(#[trigger] tv[ii])),
            forall|ii: int|
                0 <= ii < i && ii < t@.len() - 1 ==> all_zero(
                    cpu_transition_spec(#[trigger] tv[ii], tv[ii + 1]),
                ),
        decreases t@.len() - i,
    {
        proof {
            assert(tv[i as int] =~= t@[i as int]@);
        }
        let ev = stark.eval_every_row(&t[i]);
        if !check_all_zero(&ev) {
            return false;
        }
        if i + 1 < t.len() {
            proof {
                assert(tv[i + 1] =~= t@[i + 1]@);
            }
            let trv = stark.eval_transition(&t[i], &t[i + 1]);
            if !check_all_zero(&trv) {
                return false;
            }
        }
        i = i + 1;
    }
    true
}

/// Checks the memory constraint set on an opened trace.
fn check_mem(stark: &crate::memory::MemoryStark, t: &Vec<Vec<u64>>) -> (r: bool)
    requires
        table_shape_ok(t.deep_view(), NUM_MEM_COLS as nat),
    ensures
        r <==> mem_ok(t.deep_view()),
{
    let ghost tv = t.deep_view();
    if t.len() > 0 {
        proof {
            assert(tv[0] =~= t@[0]@);
        }
        let fr = stark.eval_first_row(&t[0]);
        if !check_all_zero(&fr) {
            return false;
        }
    }
    let mut i: usize = 0;
    while i < t.len()
        invariant
            i <= t@.len(),
            tv == t.deep_view(),
            table_shape_ok(tv, NUM_MEM_COLS as nat),
            forall|ii: int| 0 <= ii < i ==> all_zero(mem_every_row_spec(#[trigger] tv[ii])),
            forall|ii: int|
                0 <= ii < i && ii < t@.len() - 1 ==> all_zero(
                    mem_transition_spec(#[trigger] tv[ii], tv[ii + 1]),
                ),
        decreases t@.len() - i,
    {
        proof {
            assert(tv[i as int] =~= t@[i as int]@);
        }
        let ev = stark.eval_every_row(&t[i]);
        if !check_all_zero(&ev) {
            return false;
        }
        if i + 1 < t.len() {
            proof {
                assert(tv[i + 1] =~= t@[i + 1]@);
            }
            let trv = stark.eval_transition(&t[i], &t[i + 1]);
            if !check_all_zero(&trv) {
                return false;
            }
        }
        i = i + 1;
    }
    true
}

/// Checks one lookup's Z columns and final-product identity under one
/// challenge pair.
fn check_ctl_challenge(
    ctl: &CrossTableLookup,
    stark_proofs: &Vec<crate::proofs::StarkProof>,
    ch: &CtlChallengeZs,
    beta: u64,
    gamma: u64,
    Ghost(opened): Ghost<Seq<Seq<Seq<u64>>>>,
) -> (r: bool)
    requires
        opened.len() == stark_proofs@.len(),
        forall|t: int|
            0 <= t < opened.len() ==> opened[t] == (#[trigger] stark_proofs@[t]).trace_rows.deep_view(),
        ctl.wf_for(opened),
        crate::cross_table_lookup::traces_canon(opened),
        is_canon(beta),
        is_canon(gamma),
    ensures
        r <==> (challenge_z_ok(*ch, *ctl, opened, beta, gamma) && products_match(
            *ctl,
            opened,
            beta,
            gamma,
        )),
{
    if ch.looking_zs.len() != ctl.looking.len() {
        return false;
    }
    let mut acc: u64 = 1;
    let mut k: usize = 0;
    while k < ctl.looking.len()
        invariant
            k <= ctl.looking@.len(),
            ch.looking_zs@.len() == ctl.looking@.len(),
            opened.len() == stark_proofs@.len(),
            forall|t: int|
                0 <= t < opened.len() ==> opened[t] == (
                #[trigger] stark_proofs@[t]).trace_rows.deep_view(),
            ctl.wf_for(opened),
            crate::cross_table_lookup::traces_canon(opened),
            is_canon(beta),
            is_canon(gamma),
            forall|kk: int|
                0 <= kk < k ==> (#[trigger] ch.looking_zs@[kk])@ == z_values(
                    ctl.looking@[kk],
                    CrossTableLookup::trace_for(opened, ctl.looking@[kk]),
                    beta,
                    gamma,
                ),
            acc as int == looking_product(ctl.looking@.take(k as int), opened, beta, gamma),
            is_canon(acc),
        decreases ctl.looking@.len() - k,
    {
        let side = &ctl.looking[k];
        let ti = side.table.index();
        proof {
            assert(CrossTableLookup::side_wf(opened, *side));
            assert(stark_proofs@[ti as int].trace_rows.deep_view() =~= CrossTableLookup::trace_for(
                opened,
                *side,
            ));
            crate::prover::lemma_side_compute_ready(
                *side,
                opened,
                stark_proofs@[ti as int].trace_rows,
            );
        }
        let z_exp = side.compute_z(&stark_proofs[ti].trace_rows, beta, gamma);
        if !tuple_eq(&z_exp, &ch.looking_zs[k]) {
            proof {
                assert(ch.looking_zs@[k as int]@ != z_values(
                    ctl.looking@[k as int],
                    CrossTableLookup::trace_for(opened, ctl.looking@[k as int]),
                    beta,
                    gamma,
                ));
            }
            return false;
        }
        let side_final: u64 = if z_exp.len() > 0 {
            z_exp[z_exp.len() - 1]
        } else {
            1
        };
        proof {
            let tr = CrossTableLookup::trace_for(opened, ctl.looking@[k as int]);
            if tr.len() > 0 {
                assert(z_values(ctl.looking@[k as int], tr, beta, gamma).last() as int
                    == running_product(ctl.looking@[k as int], tr, beta, gamma));
            }
            assert(side_final as int == running_product(ctl.looking@[k as int], tr, beta, gamma));
            assert(ctl.looking@.take(k + 1).drop_last() =~= ctl.looking@.take(k as int));
            assert(ctl.looking@.take(k + 1).last() == ctl.looking@[k as int]);
        }
        acc = f_mul(acc, side_final);
        k = k + 1;
    }
    proof {
        assert(ctl.looking@.take(ctl.looking@.len() as int) =~= ctl.looking@);
    }
    let ti = ctl.looked.table.index();
    proof {
        assert(CrossTableLookup::side_wf(opened, ctl.looked));
        assert(stark_proofs@[ti as int].trace_rows.deep_view() =~= CrossTableLookup::trace_for(
            opened,
            ctl.looked,
        ));
        crate::prover::lemma_side_compute_ready(
            ctl.looked,
            opened,
            stark_proofs@[ti as int].trace_rows,
        );
    }
    let looked_exp = ctl.looked.compute_z(&stark_proofs[ti].trace_rows, beta, gamma);
    if !tuple_eq(&looked_exp, &ch.looked_z) {
        return false;
    }
    let looked_final: u64 = if looked_exp.len() > 0 {
        looked_exp[looked_exp.len() - 1]
    } else {
        1
    };
    proof {
        let tr = CrossTableLookup::trace_for(opened, ctl.looked);
        if tr.len() > 0 {
            assert(z_values(ctl.looked, tr, beta, gamma).last() as int == running_product(
                ctl.looked,
                tr,
                beta,
                gamma,
            ));
        }
        assert(looked_final as int == running_product(ctl.looked, tr, beta, gamma));
    }
    if acc != looked_final {
        proof {
            assert(!products_match(*ctl, opened, beta, gamma));
        }
        return false;
    }
    true
}

/// Decides equality of two byte strings.
fn check_bytes_eq(a: &Vec<u8>, b: &Vec<u8>) -> (r: bool)
    ensures
        r <==> a@ == b@,
{
    if a.len() != b.len() {
        return false;
    }
    let mut k: usize = 0;
    while k < a.len()
        invariant
            k <= a@.len(),
            a@.len() == b@.len(),
            forall|i: int| 0 <= i < k ==> a@[i] == b@[i],
        decreases a@.len() - k,
    {
        if a[k] != b[k] {
            return false;
        }
        k = k + 1;
    }
    proof {
        assert(a@ =~= b@);
    }
    true
}

/// Verifies an aggregate proof against the verifier's own registry and
/// configuration: recomputes the challenge sequence, re-checks every
/// commitment binding, every per-table constraint, every lookup Z column
/// and every final-product identity. Accepts exactly the proofs that
/// `verify_ok` describes; any single failing check rejects the whole
/// proof.
#[verifier::rlimit(100)]
pub fn verify_proof(all_stark: AllStark, all_proof: AllProof, config: &StarkConfig) -> (r: Result<
    (),
    VerifyError,
>)
    ensures
        r is Ok <==> verify_ok(
            all_stark.cross_table_lookups@,
            all_proof,
            config.num_challenges as nat,
        ),
{
    let ghost ctls = all_stark.cross_table_lookups@;
    let ghost nchn = config.num_challenges as nat;
    let ghost opened = opened_traces(all_proof);
    let ghost base = received_base(all_proof);
    if config.num_challenges < 1 || config.num_challenges > 1000 {
        return Err(VerifyError::MalformedProof);
    }
    if all_stark.cross_table_lookups.len() > 100 {
        return Err(VerifyError::MalformedProof);
    }
    if !all_stark.validate() {
        return Err(VerifyError::MalformedProof);
    }
    if all_proof.stark_proofs.len() != NUM_TABLES {
        return Err(VerifyError::MalformedProof);
    }
    if !check_values_canon(&all_proof.public_values.values) {
        return Err(VerifyError::PublicValuesMismatch);
    }
    let mut t: usize = 0;
    while t < NUM_TABLES
        invariant
            t <= NUM_TABLES,
            opened == opened_traces(all_proof),
            all_proof.stark_proofs@.len() == NUM_TABLES,
            forall|tt: int|
                0 <= tt < t ==> table_shape_ok(
                    #[trigger] opened[tt],
                    crate::all_stark::table_width_spec(active_table_of(tt)),
                ),
        decreases NUM_TABLES - t,
    {
        let w = crate::all_stark::table_width(crate::prover::active_table(t));
        proof {
            assert(opened[t as int] =~= all_proof.stark_proofs@[t as int].trace_rows.deep_view());
        }
        if !check_table_shape(&all_proof.stark_proofs[t].trace_rows, w) {
            proof {
                assert(!traces_shape_ok(opened));
            }
            return Err(VerifyError::MalformedProof);
        }
        t = t + 1;
    }
    proof {
        assert(traces_shape_ok(opened));
    }
    if all_proof.ctl_descriptors.len() != all_stark.cross_table_lookups.len() {
        return Err(VerifyError::MalformedProof);
    }
    let mut j: usize = 0;
    while j < all_stark.cross_table_lookups.len()
        invariant
            j <= ctls.len(),
            ctls == all_stark.cross_table_lookups@,
            all_proof.ctl_descriptors@.len() == ctls.len(),
            forall|jj: int|
                0 <= jj < j ==> (#[trigger] all_proof.ctl_descriptors@[jj]).same_as(ctls[jj]),
        decreases ctls.len() - j,
    {
        if !all_proof.ctl_descriptors[j].ctl_eq(&all_stark.cross_table_lookups[j]) {
            return Err(VerifyError::MalformedProof);
        }
        j = j + 1;
    }
    let mut t: usize = 0;
    while t < NUM_TABLES
        invariant
            t <= NUM_TABLES,
            opened == opened_traces(all_proof),
            all_proof.stark_proofs@.len() == NUM_TABLES,
            forall|tt: int|
                0 <= tt < t ==> (#[trigger] all_proof.stark_proofs@[tt]).trace_commitment@
                    == commitment_of(opened[tt]),
        decreases NUM_TABLES - t,
    {
        let c = commit_rows(&all_proof.stark_proofs[t].trace_rows);
        proof {
            assert(opened[t as int] =~= all_proof.stark_proofs@[t as int].trace_rows.deep_view());
        }
        if !check_bytes_eq(&c, &all_proof.stark_proofs[t].trace_commitment) {
            return Err(VerifyError::OpeningFailure { table: t });
        }
        t = t + 1;
    }
    proof {
        assert(opened[0] =~= all_proof.stark_proofs@[0].trace_rows.deep_view());
        assert(opened[1] =~= all_proof.stark_proofs@[1].trace_rows.deep_view());
    }
    if !check_cpu(&all_stark.cpu_stark, &all_proof.stark_proofs[0].trace_rows) {
        proof {
            assert(!table_constraints_ok(0, opened[0]));
        }
        return Err(VerifyError::TableConstraint { table: 0 });
    }
    if !check_mem(&all_stark.memory_stark, &all_proof.stark_proofs[1].trace_rows) {
        proof {
            assert(!table_constraints_ok(1, opened[1]));
        }
        return Err(VerifyError::TableConstraint { table: 1 });
    }
    proof {
        assert forall|tt: int| 0 <= tt < NUM_TABLES implies table_constraints_ok(
            tt,
            #[trigger] opened[tt],
        ) by {}
    }
    if all_proof.ctl_zs.len() != all_stark.cross_table_lookups.len() {
        return Err(VerifyError::MalformedProof);
    }
    let mut challenger = Challenger::new();
    challenger.observe_words(&all_proof.public_values.values);
    challenger.observe_commitment(&all_proof.stark_proofs[0].trace_commitment);
    challenger.observe_commitment(&all_proof.stark_proofs[1].trace_commitment);
    proof {
        assert(challenger.absorbed() =~= base);
        assert(challenger.absorbed() =~= transcript_after(base, 0));
    }
    let nch = config.num_challenges;
    let mut j: usize = 0;
    while j < all_stark.cross_table_lookups.len()
        invariant
            j <= ctls.len(),
            ctls == all_stark.cross_table_lookups@,
            ctls.len() <= 100,
            1 <= nch <= 1000,
            nch == config.num_challenges,
            nchn == nch as nat,
            opened == opened_traces(all_proof),
            base == received_base(all_proof),
            all_proof.stark_proofs@.len() == NUM_TABLES,
            all_proof.ctl_zs@.len() == ctls.len(),
            registry_ok(ctls),
            traces_shape_ok(opened),
            forall|jj: int|
                0 <= jj < j ==> ctl_z_ok(
                    #[trigger] all_proof.ctl_zs@[jj],
                    ctls[jj],
                    opened,
                    base,
                    jj,
                    nchn,
                ),
            forall|jj: int, cc: int|
                0 <= jj < j && 0 <= cc < nchn ==> products_match(
                    ctls[jj],
                    opened,
                    #[trigger] beta_of(base, jj, cc, nchn),
                    gamma_of(base, jj, cc, nchn),
                ),
            challenger.absorbed() == transcript_after(base, (2 * (j * nch)) as nat),
        decreases ctls.len() - j,
    {
        let ctl = &all_stark.cross_table_lookups[j];
        proof {
            lemma_registered_usable(*ctl, opened);
        }
        let d = &all_proof.ctl_zs[j];
        if d.challenges.len() != nch {
            proof {
                assert(!ctl_z_ok(all_proof.ctl_zs@[j as int], ctls[j as int], opened, base, j as int, nchn));
            }
            return Err(VerifyError::CtlMismatch { ctl: j });
        }
        let mut c: usize = 0;
        while c < nch
            invariant
                c <= nch,
                1 <= nch <= 1000,
                nchn == nch as nat,
                j < ctls.len(),
                ctls.len() <= 100,
                ctls == all_stark.cross_table_lookups@,
                *ctl == ctls[j as int],
                *d == all_proof.ctl_zs@[j as int],
                d.challenges@.len() == nch,
                ctl.wf_for(opened),
                crate::cross_table_lookup::traces_canon(opened),
                opened == opened_traces(all_proof),
                base == received_base(all_proof),
                all_proof.stark_proofs@.len() == NUM_TABLES,
                traces_shape_ok(opened),
                forall|cc: int|
                    0 <= cc < c ==> challenge_z_ok(
                        #[trigger] d.challenges@[cc],
                        ctls[j as int],
                        opened,
                        beta_of(base, j as int, cc, nchn),
                        gamma_of(base, j as int, cc, nchn),
                    ),
                forall|cc: int|
                    0 <= cc < c ==> products_match(
                        ctls[j as int],
                        opened,
                        #[trigger] beta_of(base, j as int, cc, nchn),
                        gamma_of(base, j as int, cc, nchn),
                    ),
                challenger.absorbed() == transcript_after(base, (2 * (j * nch + c)) as nat),
            decreases nch - c,
        {
            let ghost cnt = (2 * (j * nch + c)) as nat;
            let beta = challenger.sample();
            proof {
                lemma_transcript_after_snoc(base, cnt);
                assert(beta == beta_of(base, j as int, c as int, nchn));
            }
            let gamma = challenger.sample();
            proof {
                lemma_transcript_after_snoc(base, cnt + 1);
                assert(gamma == gamma_of(base, j as int, c as int, nchn));
            }
            let ch = &d.challenges[c];
            let ok = check_ctl_challenge(
                ctl,
                &all_proof.stark_proofs,
                ch,
                beta,
                gamma,
                Ghost(opened),
            );
            if !ok {
                proof {
                    if !challenge_z_ok(d.challenges@[c as int], ctls[j as int], opened, beta, gamma) {
                        assert(!ctl_z_ok(
                            all_proof.ctl_zs@[j as int],
                            ctls[j as int],
                            opened,
                            base,
                            j as int,
                            nchn,
                        ));
                    } else {
                        assert(!products_match(ctls[j as int], opened, beta, gamma));
                    }
                }
                return Err(VerifyError::CtlMismatch { ctl: j });
            }
            proof {
                assert(challenge_z_ok(
                    d.challenges@[c as int],
                    ctls[j as int],
                    opened,
                    beta,
                    gamma,
                ));
                assert(products_match(ctls[j as int], opened, beta, gamma));
            }
            c = c + 1;
        }
        proof {
            assert(ctl_z_ok(
                all_proof.ctl_zs@[j as int],
                ctls[j as int],
                opened,
                base,
                j as int,
                nchn,
            ));
            assert((2 * (j * nch + nch)) as nat == (2 * ((j + 1) * nch)) as nat)
                by (nonlinear_arith);
        }
        j = j + 1;
    }
    let flat = crate::prover::flatten_zs(&all_proof.ctl_zs);
    let zc = commit_rows(&flat);
    if !check_bytes_eq(&zc, &all_proof.ctl_commitment) {
        return Err(VerifyError::ZCommitmentMismatch);
    }
    proof {
        assert(verify_ok(ctls, all_proof, nchn));
    }
    Ok(())
}

/// The looking sides' combined running product is the product over the
/// union of their filtered tuples.
proof fn lemma_looking_is_tuples_product(
    sides: Seq<TableWithColumns>,
    traces: Seq<Seq<Seq<u64>>>,
    beta: u64,
    gamma: u64,
)
    ensures
        looking_product(sides, traces, beta, gamma) == crate::permutation::tuples_product(
            CrossTableLookup::looking_union(sides, traces),
            beta,
            gamma,
        ),
    decreases sides.len(),
{
    if sides.len() == 0 {
    } else {
        lemma_looking_is_tuples_product(sides.drop_last(), traces, beta, gamma);
        crate::permutation::lemma_running_is_tuples_product(
            sides.last(),
            CrossTableLookup::trace_for(traces, sides.last()),
            beta,
            gamma,
        );
        crate::permutation::lemma_tuples_product_concat(
            CrossTableLookup::looking_union(sides.drop_last(), traces),
            sides.last().filtered_tuples(CrossTableLookup::trace_for(traces, sides.last())),
            beta,
            gamma,
        );
    }
}

/// Law: the permutation argument is complete. Whenever a lookup's multiset
/// obligation holds on a trace set, its final-product identity holds under
/// every challenge pair: the looking sides' products, multiplied together,
/// meet the looked side's product.
pub proof fn lemma_ctl_completeness(
    ctl: CrossTableLookup,
    traces: Seq<Seq<Seq<u64>>>,
    beta: u64,
    gamma: u64,
)
    requires
        ctl.holds_on(traces),
    ensures
        products_match(ctl, traces, beta, gamma),
{
    let union = CrossTableLookup::looking_union(ctl.looking@, traces);
    let looked = ctl.looked_tuples(traces);
    crate::multiset::lemma_multiset_eq_is_to_multiset(union, looked);
    crate::permutation::lemma_tuples_product_multiset(union, looked, beta, gamma);
    lemma_looking_is_tuples_product(ctl.looking@, traces, beta, gamma);
    crate::permutation::lemma_running_is_tuples_product(
        ctl.looked,
        CrossTableLookup::trace_for(traces, ctl.looked),
        beta,
        gamma,
    );
}

/// Law: the round trip accepts. A proof built by the prover from traces
/// whose per-table constraints vanish on the padded tables is accepted by
/// the verifier: every lookup obligation the prover checked makes every
/// product identity hold under every recomputed challenge pair.
pub proof fn lemma_round_trip(
    p: AllProof,
    ctls: Seq<CrossTableLookup>,
    nch: nat,
    tv: Seq<Seq<Seq<u64>>>,
    pv: Seq<u64>,
)
    requires
        crate::prover::prove_ok_post(p, ctls, nch, tv, pv),
        forall|t: int|
            0 <= t < NUM_TABLES ==> table_constraints_ok(
                t,
                #[trigger] crate::prover::padded_traces(tv)[t],
            ),
    ensures
        verify_ok(ctls, p, nch),
{
    let padded = crate::prover::padded_traces(tv);
    let base = base_transcript(pv, padded);
    let opened = opened_traces(p);
    assert(opened =~= padded);
    assert(received_base(p) == base);
    assert(traces_shape_ok(opened)) by {
        assert forall|t: int| 0 <= t < NUM_TABLES implies table_shape_ok(
            #[trigger] padded[t],
            crate::all_stark::table_width_spec(active_table_of(t)),
        ) by {
            crate::prover::lemma_padded_shape(
                tv[t],
                crate::all_stark::table_width_spec(active_table_of(t)),
            );
        }
    }
    assert forall|t: int| 0 <= t < NUM_TABLES implies table_constraints_ok(
        t,
        #[trigger] opened[t],
    ) by {
        assert(opened[t] == padded[t]);
    }
    assert forall|j: int| 0 <= j < ctls.len() implies ctl_z_ok(
        #[trigger] p.ctl_zs@[j],
        ctls[j],
        opened,
        received_base(p),
        j,
        nch,
    ) by {
        assert(ctl_z_ok(p.ctl_zs@[j], ctls[j], padded, base, j, nch));
    }
    assert forall|j: int, c: int| 0 <= j < ctls.len() && 0 <= c < nch implies products_match(
        #[trigger] ctls[j],
        opened,
        beta_of(received_base(p), j, c, nch),
        #[trigger] gamma_of(received_base(p), j, c, nch),
    ) by {
        assert(ctls[j].holds_on(padded));
        assert(ctls[j].holds_on(opened));
        lemma_ctl_completeness(
            ctls[j],
            opened,
            beta_of(received_base(p), j, c, nch),
            gamma_of(received_base(p), j, c, nch),
        );
    }
}

} // verus!
