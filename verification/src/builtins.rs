//! Builtin operation tables (bitwise, comparison, range-check) and the
//! program table. Their schemas and lookup declarations are in place; the
//! tables themselves are outside the active set, so no trace of theirs is
//! committed yet and their native constraint sets are still empty.

use vstd::prelude::*;

use crate::column::ColumnSelector;

verus! {

pub const COL_B_TAG: usize = 0;

pub const COL_B_OP0: usize = 1;

pub const COL_B_OP1: usize = 2;

pub const COL_B_RES: usize = 3;

pub const COL_B_FILTER: usize = 4;

pub const NUM_BITWISE_COLS: usize = 5;

/// The bitwise table capability.
#[derive(Clone, Copy, Debug)]
pub struct BitwiseStark {}

impl Default for BitwiseStark {
    /// Builds the bitwise table capability.
    fn default() -> (r: BitwiseStark)
        ensures
            r == (BitwiseStark {  }),
    {
        BitwiseStark {  }
    }
}

impl BitwiseStark {
    /// The fixed width of the bitwise table.
    pub fn num_columns(&self) -> (r: usize)
        ensures
            r == NUM_BITWISE_COLS,
    {
        NUM_BITWISE_COLS
    }
}

/// The (op0, op1, result) tuple the bitwise table authoritatively records.
pub fn bitwise_ctl_data_with_cpu() -> (r: Vec<ColumnSelector>)
    ensures
        r@ == seq![
            ColumnSelector::Column(COL_B_OP0),
            ColumnSelector::Column(COL_B_OP1),
            ColumnSelector::Column(COL_B_RES),
        ],
{
    let mut v: Vec<ColumnSelector> = Vec::new();
    v.push(ColumnSelector::Column(COL_B_OP0));
    v.push(ColumnSelector::Column(COL_B_OP1));
    v.push(ColumnSelector::Column(COL_B_RES));
    proof {
        assert(v@ =~= seq![
            ColumnSelector::Column(COL_B_OP0),
            ColumnSelector::Column(COL_B_OP1),
            ColumnSelector::Column(COL_B_RES),
        ]);
    }
    v
}

pub fn bitwise_ctl_filter_with_cpu() -> (r: ColumnSelector)
    ensures
        r == ColumnSelector::Column(COL_B_FILTER),
{
    ColumnSelector::Column(COL_B_FILTER)
}

pub const COL_C_OP0: usize = 0;

pub const COL_C_OP1: usize = 1;

pub const COL_C_GTE: usize = 2;

pub const COL_C_FILTER: usize = 3;

pub const NUM_CMP_COLS: usize = 4;

/// The comparison table capability.
#[derive(Clone, Copy, Debug)]
pub struct CmpStark {}

impl Default for CmpStark {
    /// Builds the comparison table capability.
    fn default() -> (r: CmpStark)
        ensures
            r == (CmpStark {  }),
    {
        CmpStark {  }
    }
}

impl CmpStark {
    /// The fixed width of the comparison table.
    pub fn num_columns(&self) -> (r: usize)
        ensures
            r == NUM_CMP_COLS,
    {
        NUM_CMP_COLS
    }
}

/// The (op0, op1, outcome) tuple the comparison table authoritatively
/// records.
pub fn cmp_ctl_data_with_cpu() -> (r: Vec<ColumnSelector>)
    ensures
        r@ == seq![
            ColumnSelector::Column(COL_C_OP0),
            ColumnSelector::Column(COL_C_OP1),
            ColumnSelector::Column(COL_C_GTE),
        ],
{
    let mut v: Vec<ColumnSelector> = Vec::new();
    v.push(ColumnSelector::Column(COL_C_OP0));
    v.push(ColumnSelector::Column(COL_C_OP1));
    v.push(ColumnSelector::Column(COL_C_GTE));
    proof {
        assert(v@ =~= seq![
            ColumnSelector::Column(COL_C_OP0),
            ColumnSelector::Column(COL_C_OP1),
            ColumnSelector::Column(COL_C_GTE),
        ]);
    }
    v
}

pub fn cmp_ctl_filter_with_cpu() -> (r: ColumnSelector)
    ensures
        r == ColumnSelector::Column(COL_C_FILTER),
{
    ColumnSelector::Column(COL_C_FILTER)
}

pub const COL_RC_VAL: usize = 0;

pub const COL_RC_LIMB_LO: usize = 1;

pub const COL_RC_LIMB_HI: usize = 2;

pub const COL_RC_FILTER: usize = 3;

pub const NUM_RC_COLS: usize = 4;

/// The range-check table capability.
#[derive(Clone, Copy, Debug)]
pub struct RangeCheckStark {}

impl Default for RangeCheckStark {
    /// Builds the range-check table capability.
    fn default() -> (r: RangeCheckStark)
        ensures
            r == (RangeCheckStark {  }),
    {
        RangeCheckStark {  }
    }
}

impl RangeCheckStark {
    /// The fixed width of the range-check table.
    pub fn num_columns(&self) -> (r: usize)
        ensures
            r == NUM_RC_COLS,
    {
        NUM_RC_COLS
    }
}

/// The range-checked value the table authoritatively records.
pub fn ctl_data_rc() -> (r: Vec<ColumnSelector>)
    ensures
        r@ == seq![ColumnSelector::Column(COL_RC_VAL)],
{
    let mut v: Vec<ColumnSelector> = Vec::new();
    v.push(ColumnSelector::Column(COL_RC_VAL));
    proof {
        assert(v@ =~= seq![ColumnSelector::Column(COL_RC_VAL)]);
    }
    v
}

pub fn ctl_filter_rc() -> (r: ColumnSelector)
    ensures
        r == ColumnSelector::Column(COL_RC_FILTER),
{
    ColumnSelector::Column(COL_RC_FILTER)
}

pub const COL_P_PC: usize = 0;

pub const COL_P_INS: usize = 1;

pub const COL_P_IMM: usize = 2;

pub const COL_P_FILTER: usize = 3;

pub const NUM_PROGRAM_COLS: usize = 4;

/// The (pc, instruction, immediate) tuple of the authoritative program
/// listing.
pub fn program_ctl_data_with_cpu() -> (r: Vec<ColumnSelector>)
    ensures
        r@ == seq![
            ColumnSelector::Column(COL_P_PC),
            ColumnSelector::Column(COL_P_INS),
            ColumnSelector::Column(COL_P_IMM),
        ],
{
    let mut v: Vec<ColumnSelector> = Vec::new();
    v.push(ColumnSelector::Column(COL_P_PC));
    v.push(ColumnSelector::Column(COL_P_INS));
    v.push(ColumnSelector::Column(COL_P_IMM));
    proof {
        assert(v@ =~= seq![
            ColumnSelector::Column(COL_P_PC),
            ColumnSelector::Column(COL_P_INS),
            ColumnSelector::Column(COL_P_IMM),
        ]);
    }
    v
}

pub fn program_ctl_filter_with_cpu() -> (r: ColumnSelector)
    ensures
        r == ColumnSelector::Column(COL_P_FILTER),
{
    ColumnSelector::Column(COL_P_FILTER)
}

} // verus!
