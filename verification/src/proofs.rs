//! Proof artifacts: the per-table proof, the aggregate proof, the public
//! values bound into the transcript, and the power-of-two padding every
//! committed trace undergoes.

use vstd::prelude::*;

verus! {

/// Externally visible values shared by all tables, bound into the
/// transcript and compared for equality by the verifier.
#[derive(Clone, Debug)]
pub struct PublicValues {
    pub values: Vec<u64>,
}

impl Default for PublicValues {
    /// No public values.
    fn default() -> (r: PublicValues)
        ensures
            r.values@.len() == 0,
    {
        PublicValues { values: Vec::new() }
    }
}

/// The Z columns of one lookup under one challenge pair: one column per
/// looking side, in side order, and the looked side's column.
pub struct CtlChallengeZs {
    pub looking_zs: Vec<Vec<u64>>,
    pub looked_z: Vec<u64>,
}

/// The Z columns of one lookup, one entry per challenge pair.
pub struct CtlZData {
    pub challenges: Vec<CtlChallengeZs>,
}

/// One table's proof artifact: its trace commitment and, in this
/// direct-opening instantiation of the commitment interface, the full
/// opened trace. The low-degree test behind a succinct opening belongs to
/// the polynomial-commitment backend, which is outside this layer.
pub struct StarkProof {
    pub trace_commitment: Vec<u8>,
    pub trace_rows: Vec<Vec<u64>>,
}

/// The aggregate proof: one per-table proof per active table, the Z
/// columns of every lookup with one commitment over all of them, the
/// public values, and the lookup descriptors used to construct it.
pub struct AllProof {
    pub stark_proofs: Vec<StarkProof>,
    pub ctl_zs: Vec<CtlZData>,
    pub ctl_commitment: Vec<u8>,
    pub public_values: PublicValues,
    pub ctl_descriptors: Vec<crate::cross_table_lookup::CrossTableLookup>,
}

/// An all-zero row of the given width.
pub open spec fn zero_row(w: nat) -> Seq<u64> {
    Seq::new(w, |i: int| 0u64)
}

/// The smallest power of two that is at least `max(n, 1)`.
pub open spec fn next_pow2(n: nat) -> nat
    decreases n,
{
    if n <= 1 {
        1
    } else {
        2 * next_pow2((n + 1) / 2)
    }
}

/// `n` is a power of two.
pub open spec fn is_pow2(n: nat) -> bool
    decreases n,
{
    if n == 0 {
        false
    } else if n == 1 {
        true
    } else {
        n % 2 == 0 && is_pow2(n / 2)
    }
}

/// `next_pow2` yields a power of two no smaller than its argument and no
/// larger than twice it.
pub proof fn lemma_next_pow2(n: nat)
    ensures
        is_pow2(next_pow2(n)),
        next_pow2(n) >= n,
        next_pow2(n) >= 1,
        n >= 2 ==> next_pow2(n) <= 2 * n - 2,
        n >= 1 ==> next_pow2(n) <= 2 * n,
    decreases n,
{
    if n > 1 {
        let m = (n + 1) / 2;
        lemma_next_pow2(m);
        assert(2 * m <= n + 1);
        if n == 2 || n == 3 {
            assert(next_pow2(n) == 2 * next_pow2(m));
        } else {
            assert(m >= 2);
        }
    }
}

/// Computes the smallest power of two that is at least `max(n, 1)`.
pub fn next_power_of_two(n: usize) -> (r: usize)
    requires
        n <= 0x1000_0000,
    ensures
        r == next_pow2(n as nat),
        r >= n,
        r >= 1,
        is_pow2(r as nat),
    decreases n,
{
    proof {
        lemma_next_pow2(n as nat);
    }
    if n <= 1 {
        1
    } else {
        let half = next_power_of_two((n + 1) / 2);
        proof {
            lemma_next_pow2(((n + 1) / 2) as nat);
        }
        2 * half
    }
}

/// The table padded with zero rows to the next power-of-two length.
pub open spec fn padded_spec(t: Seq<Seq<u64>>, w: nat) -> Seq<Seq<u64>> {
    t + Seq::new((next_pow2(t.len()) - t.len()) as nat, |i: int| zero_row(w))
}

/// Pads a table with zero rows to the next power-of-two length.
pub fn pad_trace(t: &mut Vec<Vec<u64>>, w: usize)
    requires
        old(t)@.len() <= 0x1000_0000,
    ensures
        final (t).deep_view() == padded_spec(old(t).deep_view(), w as nat),
        final (t)@.len() == next_pow2(old(t)@.len() as nat),
{
    let target = next_power_of_two(t.len());
    let ghost base = t.deep_view();
    while t.len() < target
        invariant
            base.len() <= t.deep_view().len() <= target,
            t.deep_view().len() == t@.len(),
            target == next_pow2(base.len()),
            t.deep_view() == base + Seq::new((t@.len() - base.len()) as nat, |i: int| zero_row(
                w as nat,
            )),
        decreases target - t@.len(),
    {
        let mut row: Vec<u64> = Vec::new();
        let mut k: usize = 0;
        while k < w
            invariant
                k <= w,
                row@.len() == k,
                forall|i: int| 0 <= i < k ==> row@[i] == 0u64,
            decreases w - k,
        {
            row.push(0);
            k = k + 1;
        }
        proof {
            assert(row@ =~= zero_row(w as nat));
            assert(row.deep_view() =~= zero_row(w as nat));
        }
        let ghost prev = t.deep_view();
        let ghost zr = row.deep_view();
        t.push(row);
        proof {
            assert(t.deep_view() =~= prev.push(zr));
            assert(prev.push(zr) =~= base + Seq::new((t@.len() - base.len()) as nat, |i: int|
                zero_row(w as nat)));
        }
    }
    proof {
        assert(t.deep_view() =~= padded_spec(base, w as nat));
    }
}

} // verus!
