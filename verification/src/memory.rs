//! The memory table: one row per memory operation, grouped by address with
//! the first operation on each address a write, and its constraint set and
//! lookup declarations.

use vstd::prelude::*;

use crate::column::ColumnSelector;
use crate::config::StarkConfig;
use crate::field::{fmul, fsub, f_mul, f_sub};
use crate::multiset::row_canon;

verus! {

pub const COL_M_ADDR: usize = 0;

pub const COL_M_CLK: usize = 1;

pub const COL_M_IS_WRITE: usize = 2;

pub const COL_M_VALUE: usize = 3;

pub const COL_M_IS_REAL: usize = 4;

/// Range-checked difference of consecutive addresses.
pub const COL_M_DIFF_ADDR: usize = 5;

/// Range-checked difference of consecutive clocks on one address.
pub const COL_M_DIFF_CLK: usize = 6;

/// Range-checked address-change indicator.
pub const COL_M_DIFF_COND: usize = 7;

pub const NUM_MEM_COLS: usize = 8;

/// The constraints every memory row must satisfy.
pub open spec fn mem_every_row_spec(lv: Seq<u64>) -> Seq<u64> {
    seq![
        fmul(
            lv[COL_M_IS_REAL as int] as int,
            fsub(lv[COL_M_IS_REAL as int] as int, 1),
        ) as u64,
        fmul(
            lv[COL_M_IS_WRITE as int] as int,
            fsub(lv[COL_M_IS_WRITE as int] as int, 1),
        ) as u64,
    ]
}

/// The constraints on each pair of consecutive memory rows: real rows come
/// first, and a read repeats the value standing on its address.
pub open spec fn mem_transition_spec(lv: Seq<u64>, nv: Seq<u64>) -> Seq<u64> {
    seq![
        fmul(
            nv[COL_M_IS_REAL as int] as int,
            fsub(1, lv[COL_M_IS_REAL as int] as int),
        ) as u64,
        fmul(
            nv[COL_M_IS_REAL as int] as int,
            fmul(
                fsub(1, nv[COL_M_IS_WRITE as int] as int),
                fsub(nv[COL_M_VALUE as int] as int, lv[COL_M_VALUE as int] as int),
            ),
        ) as u64,
    ]
}

/// The first-row boundary constraint: a real first row is a write.
pub open spec fn mem_first_row_spec(lv: Seq<u64>) -> Seq<u64> {
    seq![
        fmul(
            lv[COL_M_IS_REAL as int] as int,
            fsub(1, lv[COL_M_IS_WRITE as int] as int),
        ) as u64,
    ]
}

/// The memory table capability.
#[derive(Clone, Copy, Debug)]
pub struct MemoryStark {}

impl Default for MemoryStark {
    /// Builds the memory table capability.
    fn default() -> (r: MemoryStark)
        ensures
            r == (MemoryStark {  }),
    {
        MemoryStark {  }
    }
}

impl MemoryStark {
    /// The fixed width of the memory table.
    pub fn num_columns(&self) -> (r: usize)
        ensures
            r == NUM_MEM_COLS,
    {
        NUM_MEM_COLS
    }

    /// Evaluates the every-row constraints on one row.
    pub fn eval_every_row(&self, lv: &Vec<u64>) -> (r: Vec<u64>)
        requires
            lv@.len() == NUM_MEM_COLS,
            row_canon(lv@),
        ensures
            r@ == mem_every_row_spec(lv@),
    {
        let mut out: Vec<u64> = Vec::new();
        out.push(f_mul(lv[COL_M_IS_REAL], f_sub(lv[COL_M_IS_REAL], 1)));
        out.push(f_mul(lv[COL_M_IS_WRITE], f_sub(lv[COL_M_IS_WRITE], 1)));
        proof {
            assert(out@ =~= mem_every_row_spec(lv@));
        }
        out
    }

    /// Evaluates the transition constraints on one pair of consecutive rows.
    pub fn eval_transition(&self, lv: &Vec<u64>, nv: &Vec<u64>) -> (r: Vec<u64>)
        requires
            lv@.len() == NUM_MEM_COLS,
            nv@.len() == NUM_MEM_COLS,
            row_canon(lv@),
            row_canon(nv@),
        ensures
            r@ == mem_transition_spec(lv@, nv@),
    {
        let mut out: Vec<u64> = Vec::new();
        out.push(f_mul(nv[COL_M_IS_REAL], f_sub(1, lv[COL_M_IS_REAL])));
        out.push(
            f_mul(
                nv[COL_M_IS_REAL],
                f_mul(f_sub(1, nv[COL_M_IS_WRITE]), f_sub(nv[COL_M_VALUE], lv[COL_M_VALUE])),
            ),
        );
        proof {
            assert(out@ =~= mem_transition_spec(lv@, nv@));
        }
        out
    }

    /// Evaluates the first-row boundary constraints.
    pub fn eval_first_row(&self, lv: &Vec<u64>) -> (r: Vec<u64>)
        requires
            lv@.len() == NUM_MEM_COLS,
            row_canon(lv@),
        ensures
            r@ == mem_first_row_spec(lv@),
    {
        let mut out: Vec<u64> = Vec::new();
        out.push(f_mul(lv[COL_M_IS_REAL], f_sub(1, lv[COL_M_IS_WRITE])));
        proof {
            assert(out@ =~= mem_first_row_spec(lv@));
        }
        out
    }

    /// How many permutation batches the memory table needs under `config`:
    /// one batch per challenge for each of its four lookup roles.
    pub fn num_permutation_batches(&self, config: &StarkConfig) -> (r: usize)
        requires
            config.num_challenges <= 1000,
        ensures
            r == 4 * config.num_challenges,
    {
        4 * config.num_challenges
    }

    /// How many lookup columns share one challenge batch.
    pub fn permutation_batch_size(&self) -> (r: usize)
        ensures
            r == 2,
    {
        2
    }
}

/// The (address, clock, write-flag, value) tuple the memory table
/// authoritatively records.
pub fn ctl_data() -> (r: Vec<ColumnSelector>)
    ensures
        r@ == seq![
            ColumnSelector::Column(COL_M_ADDR),
            ColumnSelector::Column(COL_M_CLK),
            ColumnSelector::Column(COL_M_IS_WRITE),
            ColumnSelector::Column(COL_M_VALUE),
        ],
{
    let mut v: Vec<ColumnSelector> = Vec::new();
    v.push(ColumnSelector::Column(COL_M_ADDR));
    v.push(ColumnSelector::Column(COL_M_CLK));
    v.push(ColumnSelector::Column(COL_M_IS_WRITE));
    v.push(ColumnSelector::Column(COL_M_VALUE));
    proof {
        assert(v@ =~= seq![
            ColumnSelector::Column(COL_M_ADDR),
            ColumnSelector::Column(COL_M_CLK),
            ColumnSelector::Column(COL_M_IS_WRITE),
            ColumnSelector::Column(COL_M_VALUE),
        ]);
    }
    v
}

pub fn ctl_filter() -> (r: ColumnSelector)
    ensures
        r == ColumnSelector::Column(COL_M_IS_REAL),
{
    ColumnSelector::Column(COL_M_IS_REAL)
}

/// The address-change indicator handed to the range-check table.
pub fn ctl_data_mem_rc_diff_cond() -> (r: Vec<ColumnSelector>)
    ensures
        r@ == seq![ColumnSelector::Column(COL_M_DIFF_COND)],
{
    let mut v: Vec<ColumnSelector> = Vec::new();
    v.push(ColumnSelector::Column(COL_M_DIFF_COND));
    proof {
        assert(v@ =~= seq![ColumnSelector::Column(COL_M_DIFF_COND)]);
    }
    v
}

pub fn ctl_filter_mem_rc_diff_cond() -> (r: ColumnSelector)
    ensures
        r == ColumnSelector::Column(COL_M_IS_REAL),
{
    ColumnSelector::Column(COL_M_IS_REAL)
}

/// The address difference handed to the range-check table.
pub fn ctl_data_mem_rc_diff_addr() -> (r: Vec<ColumnSelector>)
    ensures
        r@ == seq![ColumnSelector::Column(COL_M_DIFF_ADDR)],
{
    let mut v: Vec<ColumnSelector> = Vec::new();
    v.push(ColumnSelector::Column(COL_M_DIFF_ADDR));
    proof {
        assert(v@ =~= seq![ColumnSelector::Column(COL_M_DIFF_ADDR)]);
    }
    v
}

pub fn ctl_filter_mem_rc_diff_addr() -> (r: ColumnSelector)
    ensures
        r == ColumnSelector::Column(COL_M_IS_REAL),
{
    ColumnSelector::Column(COL_M_IS_REAL)
}

/// The clock difference handed to the range-check table.
pub fn ctl_data_mem_rc_diff_clk() -> (r: Vec<ColumnSelector>)
    ensures
        r@ == seq![ColumnSelector::Column(COL_M_DIFF_CLK)],
{
    let mut v: Vec<ColumnSelector> = Vec::new();
    v.push(ColumnSelector::Column(COL_M_DIFF_CLK));
    proof {
        assert(v@ =~= seq![ColumnSelector::Column(COL_M_DIFF_CLK)]);
    }
    v
}

pub fn ctl_filter_mem_rc_diff_clk() -> (r: ColumnSelector)
    ensures
        r == ColumnSelector::Column(COL_M_IS_REAL),
{
    ColumnSelector::Column(COL_M_IS_REAL)
}

} // verus!
