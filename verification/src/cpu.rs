//! The CPU table: one row per executed instruction, with one-hot operation
//! selectors, and its constraint set and lookup declarations.

use vstd::prelude::*;

use crate::column::ColumnSelector;
use crate::config::StarkConfig;
use crate::field::{fadd, fmul, fsub, is_canon, f_add, f_mul, f_sub};
use crate::multiset::row_canon;

verus! {

pub const COL_IS_REAL: usize = 0;

pub const COL_CLK: usize = 1;

pub const COL_PC: usize = 2;

pub const COL_INS: usize = 3;

pub const COL_IMM: usize = 4;

pub const COL_OP0: usize = 5;

pub const COL_OP1: usize = 6;

pub const COL_DST: usize = 7;

/// Memory address of an mstore/mload, or the first call/ret address.
pub const COL_AUX0: usize = 8;

pub const COL_FLAG: usize = 9;

pub const COL_FP: usize = 10;

pub const COL_S_MOV: usize = 11;

pub const COL_S_ADD: usize = 12;

pub const COL_S_MUL: usize = 13;

pub const COL_S_MSTORE: usize = 14;

pub const COL_S_MLOAD: usize = 15;

pub const COL_S_AND: usize = 16;

pub const COL_S_OR: usize = 17;

pub const COL_S_XOR: usize = 18;

pub const COL_S_GTE: usize = 19;

pub const COL_S_RC: usize = 20;

pub const COL_S_ASSERT: usize = 21;

pub const COL_S_EQ: usize = 22;

pub const COL_S_JMP: usize = 23;

pub const COL_S_CJMP: usize = 24;

pub const COL_S_CALL: usize = 25;

pub const COL_S_RET: usize = 26;

pub const COL_S_END: usize = 27;

/// Write flag of the call/ret memory operations.
pub const COL_AUX1: usize = 28;

/// Second call/ret memory address.
pub const COL_AUX2: usize = 29;

/// Second call/ret memory value.
pub const COL_AUX3: usize = 30;

pub const NUM_CPU_COLS: usize = 31;

/// `x * (x - 1)` in the field: zero exactly when `x` is boolean.
pub open spec fn boolc(x: int) -> int {
    fmul(x, fsub(x, 1))
}

/// The constraints every CPU row must satisfy, each of which must be zero.
pub open spec fn cpu_every_row_spec(lv: Seq<u64>) -> Seq<u64> {
    seq![
        boolc(lv[COL_IS_REAL as int] as int) as u64,
        boolc(lv[COL_FLAG as int] as int) as u64,
        boolc(lv[COL_S_MOV as int] as int) as u64,
        boolc(lv[COL_S_ADD as int] as int) as u64,
        boolc(lv[COL_S_MUL as int] as int) as u64,
        boolc(lv[COL_S_MSTORE as int] as int) as u64,
        boolc(lv[COL_S_MLOAD as int] as int) as u64,
        boolc(lv[COL_S_AND as int] as int) as u64,
        boolc(lv[COL_S_OR as int] as int) as u64,
        boolc(lv[COL_S_XOR as int] as int) as u64,
        boolc(lv[COL_S_GTE as int] as int) as u64,
        boolc(lv[COL_S_RC as int] as int) as u64,
        boolc(lv[COL_S_ASSERT as int] as int) as u64,
        boolc(lv[COL_S_EQ as int] as int) as u64,
        boolc(lv[COL_S_JMP as int] as int) as u64,
        boolc(lv[COL_S_CJMP as int] as int) as u64,
        boolc(lv[COL_S_CALL as int] as int) as u64,
        boolc(lv[COL_S_RET as int] as int) as u64,
        boolc(lv[COL_S_END as int] as int) as u64,
        fmul(
            lv[COL_S_ASSERT as int] as int,
            fsub(lv[COL_OP0 as int] as int, lv[COL_OP1 as int] as int),
        ) as u64,
        fmul(
            lv[COL_S_ADD as int] as int,
            fsub(
                lv[COL_DST as int] as int,
                fadd(lv[COL_OP0 as int] as int, lv[COL_OP1 as int] as int),
            ),
        ) as u64,
        fmul(
            lv[COL_S_MUL as int] as int,
            fsub(
                lv[COL_DST as int] as int,
                fmul(lv[COL_OP0 as int] as int, lv[COL_OP1 as int] as int),
            ),
        ) as u64,
        fmul(
            lv[COL_S_MOV as int] as int,
            fsub(lv[COL_DST as int] as int, lv[COL_OP0 as int] as int),
        ) as u64,
        fmul(
            lv[COL_S_EQ as int] as int,
            fmul(
                lv[COL_FLAG as int] as int,
                fsub(lv[COL_OP0 as int] as int, lv[COL_OP1 as int] as int),
            ),
        ) as u64,
    ]
}

/// The constraints on each pair of consecutive CPU rows.
pub open spec fn cpu_transition_spec(lv: Seq<u64>, nv: Seq<u64>) -> Seq<u64> {
    seq![
        fmul(
            nv[COL_IS_REAL as int] as int,
            fsub(1, lv[COL_IS_REAL as int] as int),
        ) as u64,
        fmul(
            nv[COL_IS_REAL as int] as int,
            fsub(nv[COL_CLK as int] as int, fadd(lv[COL_CLK as int] as int, 1)),
        ) as u64,
    ]
}

/// The constraints on the first CPU row: the clock starts at zero.
pub open spec fn cpu_first_row_spec(lv: Seq<u64>) -> Seq<u64> {
    seq![fmul(lv[COL_IS_REAL as int] as int, lv[COL_CLK as int] as int) as u64]
}

/// The CPU table capability.
#[derive(Clone, Copy, Debug)]
pub struct CpuStark {}

impl Default for CpuStark {
    /// Builds the CPU table capability.
    fn default() -> (r: CpuStark)
        ensures
            r == (CpuStark {  }),
    {
        CpuStark {  }
    }
}

/// `x * (x - 1)` in the field.
fn boolc_exec(x: u64) -> (r: u64)
    requires
        is_canon(x),
    ensures
        r as int == boolc(x as int),
        is_canon(r),
{
    f_mul(x, f_sub(x, 1))
}

impl CpuStark {
    /// The fixed width of the CPU table.
    pub fn num_columns(&self) -> (r: usize)
        ensures
            r == NUM_CPU_COLS,
    {
        NUM_CPU_COLS
    }

    /// Evaluates the every-row constraints on one row.
    pub fn eval_every_row(&self, lv: &Vec<u64>) -> (r: Vec<u64>)
        requires
            lv@.len() == NUM_CPU_COLS,
            row_canon(lv@),
        ensures
            r@ == cpu_every_row_spec(lv@),
    {
        let mut out: Vec<u64> = Vec::new();
        out.push(boolc_exec(lv[COL_IS_REAL]));
        out.push(boolc_exec(lv[COL_FLAG]));
        out.push(boolc_exec(lv[COL_S_MOV]));
        out.push(boolc_exec(lv[COL_S_ADD]));
        out.push(boolc_exec(lv[COL_S_MUL]));
        out.push(boolc_exec(lv[COL_S_MSTORE]));
        out.push(boolc_exec(lv[COL_S_MLOAD]));
        out.push(boolc_exec(lv[COL_S_AND]));
        out.push(boolc_exec(lv[COL_S_OR]));
        out.push(boolc_exec(lv[COL_S_XOR]));
        out.push(boolc_exec(lv[COL_S_GTE]));
        out.push(boolc_exec(lv[COL_S_RC]));
        out.push(boolc_exec(lv[COL_S_ASSERT]));
        out.push(boolc_exec(lv[COL_S_EQ]));
        out.push(boolc_exec(lv[COL_S_JMP]));
        out.push(boolc_exec(lv[COL_S_CJMP]));
        out.push(boolc_exec(lv[COL_S_CALL]));
        out.push(boolc_exec(lv[COL_S_RET]));
        out.push(boolc_exec(lv[COL_S_END]));
        out.push(f_mul(lv[COL_S_ASSERT], f_sub(lv[COL_OP0], lv[COL_OP1])));
        out.push(f_mul(lv[COL_S_ADD], f_sub(lv[COL_DST], f_add(lv[COL_OP0], lv[COL_OP1]))));
        out.push(f_mul(lv[COL_S_MUL], f_sub(lv[COL_DST], f_mul(lv[COL_OP0], lv[COL_OP1]))));
        out.push(f_mul(lv[COL_S_MOV], f_sub(lv[COL_DST], lv[COL_OP0])));
        out.push(f_mul(lv[COL_S_EQ], f_mul(lv[COL_FLAG], f_sub(lv[COL_OP0], lv[COL_OP1]))));
        proof {
            assert(out@ =~= cpu_every_row_spec(lv@));
        }
        out
    }

    /// Evaluates the transition constraints on one pair of consecutive rows.
    pub fn eval_transition(&self, lv: &Vec<u64>, nv: &Vec<u64>) -> (r: Vec<u64>)
        requires
            lv@.len() == NUM_CPU_COLS,
            nv@.len() == NUM_CPU_COLS,
            row_canon(lv@),
            row_canon(nv@),
        ensures
            r@ == cpu_transition_spec(lv@, nv@),
    {
        let mut out: Vec<u64> = Vec::new();
        out.push(f_mul(nv[COL_IS_REAL], f_sub(1, lv[COL_IS_REAL])));
        out.push(f_mul(nv[COL_IS_REAL], f_sub(nv[COL_CLK], f_add(lv[COL_CLK], 1))));
        proof {
            assert(out@ =~= cpu_transition_spec(lv@, nv@));
        }
        out
    }

    /// Evaluates the first-row boundary constraints.
    pub fn eval_first_row(&self, lv: &Vec<u64>) -> (r: Vec<u64>)
        requires
            lv@.len() == NUM_CPU_COLS,
            row_canon(lv@),
        ensures
            r@ == cpu_first_row_spec(lv@),
    {
        let mut out: Vec<u64> = Vec::new();
        out.push(f_mul(lv[COL_IS_REAL], lv[COL_CLK]));
        proof {
            assert(out@ =~= cpu_first_row_spec(lv@));
        }
        out
    }

    /// How many permutation batches the CPU table needs under `config`: one
    /// batch per challenge for each of its six lookup roles.
    pub fn num_permutation_batches(&self, config: &StarkConfig) -> (r: usize)
        requires
            config.num_challenges <= 1000,
        ensures
            r == 6 * config.num_challenges,
    {
        6 * config.num_challenges
    }

    /// How many lookup columns share one challenge batch.
    pub fn permutation_batch_size(&self) -> (r: usize)
        ensures
            r == 2,
    {
        2
    }
}

/// The (address, clock, write-flag, value) tuple an mstore row asserts
/// against the memory table.
pub fn ctl_data_cpu_mem_mstore() -> (r: Vec<ColumnSelector>)
    ensures
        r@ == seq![
            ColumnSelector::Column(COL_AUX0),
            ColumnSelector::Column(COL_CLK),
            ColumnSelector::Constant(1),
            ColumnSelector::Column(COL_OP0),
        ],
{
    let mut v: Vec<ColumnSelector> = Vec::new();
    v.push(ColumnSelector::Column(COL_AUX0));
    v.push(ColumnSelector::Column(COL_CLK));
    v.push(ColumnSelector::Constant(1));
    v.push(ColumnSelector::Column(COL_OP0));
    proof {
        assert(v@ =~= seq![
            ColumnSelector::Column(COL_AUX0),
            ColumnSelector::Column(COL_CLK),
            ColumnSelector::Constant(1),
            ColumnSelector::Column(COL_OP0),
        ]);
    }
    v
}

pub fn ctl_filter_cpu_mem_mstore() -> (r: ColumnSelector)
    ensures
        r == ColumnSelector::Column(COL_S_MSTORE),
{
    ColumnSelector::Column(COL_S_MSTORE)
}

/// The (address, clock, write-flag, value) tuple an mload row asserts
/// against the memory table.
pub fn ctl_data_cpu_mem_mload() -> (r: Vec<ColumnSelector>)
    ensures
        r@ == seq![
            ColumnSelector::Column(COL_AUX0),
            ColumnSelector::Column(COL_CLK),
            ColumnSelector::Constant(0),
            ColumnSelector::Column(COL_DST),
        ],
{
    let mut v: Vec<ColumnSelector> = Vec::new();
    v.push(ColumnSelector::Column(COL_AUX0));
    v.push(ColumnSelector::Column(COL_CLK));
    v.push(ColumnSelector::Constant(0));
    v.push(ColumnSelector::Column(COL_DST));
    proof {
        assert(v@ =~= seq![
            ColumnSelector::Column(COL_AUX0),
            ColumnSelector::Column(COL_CLK),
            ColumnSelector::Constant(0),
            ColumnSelector::Column(COL_DST),
        ]);
    }
    v
}

pub fn ctl_filter_cpu_mem_mload() -> (r: ColumnSelector)
    ensures
        r == ColumnSelector::Column(COL_S_MLOAD),
{
    ColumnSelector::Column(COL_S_MLOAD)
}

/// The program-counter memory operation of a call or ret row.
pub fn ctl_data_cpu_mem_call_ret_pc() -> (r: Vec<ColumnSelector>)
    ensures
        r@ == seq![
            ColumnSelector::Column(COL_AUX0),
            ColumnSelector::Column(COL_CLK),
            ColumnSelector::Column(COL_AUX1),
            ColumnSelector::Column(COL_DST),
        ],
{
    let mut v: Vec<ColumnSelector> = Vec::new();
    v.push(ColumnSelector::Column(COL_AUX0));
    v.push(ColumnSelector::Column(COL_CLK));
    v.push(ColumnSelector::Column(COL_AUX1));
    v.push(ColumnSelector::Column(COL_DST));
    proof {
        assert(v@ =~= seq![
            ColumnSelector::Column(COL_AUX0),
            ColumnSelector::Column(COL_CLK),
            ColumnSelector::Column(COL_AUX1),
            ColumnSelector::Column(COL_DST),
        ]);
    }
    v
}

/// The frame-pointer memory operation of a call or ret row.
pub fn ctl_data_cpu_mem_call_ret_fp() -> (r: Vec<ColumnSelector>)
    ensures
        r@ == seq![
            ColumnSelector::Column(COL_AUX2),
            ColumnSelector::Column(COL_CLK),
            ColumnSelector::Column(COL_AUX1),
            ColumnSelector::Column(COL_AUX3),
        ],
{
    let mut v: Vec<ColumnSelector> = Vec::new();
    v.push(ColumnSelector::Column(COL_AUX2));
    v.push(ColumnSelector::Column(COL_CLK));
    v.push(ColumnSelector::Column(COL_AUX1));
    v.push(ColumnSelector::Column(COL_AUX3));
    proof {
        assert(v@ =~= seq![
            ColumnSelector::Column(COL_AUX2),
            ColumnSelector::Column(COL_CLK),
            ColumnSelector::Column(COL_AUX1),
            ColumnSelector::Column(COL_AUX3),
        ]);
    }
    v
}

/// Selects call and ret rows: the sum of the two one-hot selectors.
pub fn ctl_filter_cpu_mem_call_ret() -> (r: ColumnSelector)
    ensures
        r matches ColumnSelector::Affine(p, c) && p@ == seq![(COL_S_CALL, 1u64), (COL_S_RET, 1u64)]
            && c == 0,
{
    let mut p: Vec<(usize, u64)> = Vec::new();
    p.push((COL_S_CALL, 1));
    p.push((COL_S_RET, 1));
    proof {
        assert(p@ =~= seq![(COL_S_CALL, 1u64), (COL_S_RET, 1u64)]);
    }
    ColumnSelector::Affine(p, 0)
}

/// The (op0, op1, result) tuple a bitwise row asserts.
pub fn ctl_data_with_bitwise() -> (r: Vec<ColumnSelector>)
    ensures
        r@ == seq![
            ColumnSelector::Column(COL_OP0),
            ColumnSelector::Column(COL_OP1),
            ColumnSelector::Column(COL_DST),
        ],
{
    let mut v: Vec<ColumnSelector> = Vec::new();
    v.push(ColumnSelector::Column(COL_OP0));
    v.push(ColumnSelector::Column(COL_OP1));
    v.push(ColumnSelector::Column(COL_DST));
    proof {
        assert(v@ =~= seq![
            ColumnSelector::Column(COL_OP0),
            ColumnSelector::Column(COL_OP1),
            ColumnSelector::Column(COL_DST),
        ]);
    }
    v
}

pub fn ctl_filter_with_bitwise_and() -> (r: ColumnSelector)
    ensures
        r == ColumnSelector::Column(COL_S_AND),
{
    ColumnSelector::Column(COL_S_AND)
}

pub fn ctl_filter_with_bitwise_or() -> (r: ColumnSelector)
    ensures
        r == ColumnSelector::Column(COL_S_OR),
{
    ColumnSelector::Column(COL_S_OR)
}

pub fn ctl_filter_with_bitwise_xor() -> (r: ColumnSelector)
    ensures
        r == ColumnSelector::Column(COL_S_XOR),
{
    ColumnSelector::Column(COL_S_XOR)
}

/// The (op0, op1, flag) tuple a comparison row asserts.
pub fn ctl_data_with_cmp() -> (r: Vec<ColumnSelector>)
    ensures
        r@ == seq![
            ColumnSelector::Column(COL_OP0),
            ColumnSelector::Column(COL_OP1),
            ColumnSelector::Column(COL_FLAG),
        ],
{
    let mut v: Vec<ColumnSelector> = Vec::new();
    v.push(ColumnSelector::Column(COL_OP0));
    v.push(ColumnSelector::Column(COL_OP1));
    v.push(ColumnSelector::Column(COL_FLAG));
    proof {
        assert(v@ =~= seq![
            ColumnSelector::Column(COL_OP0),
            ColumnSelector::Column(COL_OP1),
            ColumnSelector::Column(COL_FLAG),
        ]);
    }
    v
}

pub fn ctl_filter_with_cmp() -> (r: ColumnSelector)
    ensures
        r == ColumnSelector::Column(COL_S_GTE),
{
    ColumnSelector::Column(COL_S_GTE)
}

/// The range-checked operand tuple.
pub fn ctl_data_with_rangecheck() -> (r: Vec<ColumnSelector>)
    ensures
        r@ == seq![ColumnSelector::Column(COL_OP0)],
{
    let mut v: Vec<ColumnSelector> = Vec::new();
    v.push(ColumnSelector::Column(COL_OP0));
    proof {
        assert(v@ =~= seq![ColumnSelector::Column(COL_OP0)]);
    }
    v
}

pub fn ctl_filter_with_rangecheck() -> (r: ColumnSelector)
    ensures
        r == ColumnSelector::Column(COL_S_RC),
{
    ColumnSelector::Column(COL_S_RC)
}

/// The (pc, instruction, immediate) tuple every real CPU row asserts
/// against the authoritative program listing.
pub fn ctl_data_with_program() -> (r: Vec<ColumnSelector>)
    ensures
        r@ == seq![
            ColumnSelector::Column(COL_PC),
            ColumnSelector::Column(COL_INS),
            ColumnSelector::Column(COL_IMM),
        ],
{
    let mut v: Vec<ColumnSelector> = Vec::new();
    v.push(ColumnSelector::Column(COL_PC));
    v.push(ColumnSelector::Column(COL_INS));
    v.push(ColumnSelector::Column(COL_IMM));
    proof {
        assert(v@ =~= seq![
            ColumnSelector::Column(COL_PC),
            ColumnSelector::Column(COL_INS),
            ColumnSelector::Column(COL_IMM),
        ]);
    }
    v
}

pub fn ctl_filter_with_program() -> (r: ColumnSelector)
    ensures
        r == ColumnSelector::Column(COL_IS_REAL),
{
    ColumnSelector::Column(COL_IS_REAL)
}

} // verus!
