//! The table registry: one instance of every active table capability and
//! the full list of cross-table lookups. The registry is the single source
//! of truth for which tables and lookups are active, and every per-table
//! array it exposes is indexed in the fixed `Table` order.

use vstd::prelude::*;
use vstd::pervasive::unreached;

use crate::builtins::{
    bitwise_ctl_data_with_cpu, bitwise_ctl_filter_with_cpu, cmp_ctl_data_with_cpu,
    cmp_ctl_filter_with_cpu, ctl_data_rc, ctl_filter_rc, program_ctl_data_with_cpu,
    program_ctl_filter_with_cpu, BitwiseStark, CmpStark, RangeCheckStark, COL_B_FILTER, COL_B_OP0,
    COL_B_OP1, COL_B_RES, COL_C_FILTER, COL_C_GTE, COL_C_OP0, COL_C_OP1, COL_P_FILTER, COL_P_IMM,
    COL_P_INS, COL_P_PC, COL_RC_FILTER, COL_RC_VAL, NUM_BITWISE_COLS, NUM_CMP_COLS,
    NUM_PROGRAM_COLS, NUM_RC_COLS,
};
use crate::column::ColumnSelector;
use crate::config::StarkConfig;
use crate::cpu::{
    ctl_data_cpu_mem_call_ret_fp, ctl_data_cpu_mem_call_ret_pc, ctl_data_cpu_mem_mload,
    ctl_data_cpu_mem_mstore, ctl_data_with_bitwise, ctl_data_with_cmp, ctl_data_with_program,
    ctl_data_with_rangecheck, ctl_filter_cpu_mem_call_ret, ctl_filter_cpu_mem_mload,
    ctl_filter_cpu_mem_mstore, ctl_filter_with_bitwise_and, ctl_filter_with_bitwise_or,
    ctl_filter_with_bitwise_xor, ctl_filter_with_cmp, ctl_filter_with_program,
    ctl_filter_with_rangecheck, CpuStark, COL_AUX0, COL_AUX1, COL_AUX2, COL_AUX3, COL_CLK, COL_DST,
    COL_FLAG, COL_IMM, COL_INS, COL_IS_REAL, COL_OP0, COL_OP1, COL_PC, COL_S_AND, COL_S_CALL,
    COL_S_GTE, COL_S_MLOAD, COL_S_MSTORE, COL_S_OR, COL_S_RC, COL_S_RET, COL_S_XOR, NUM_CPU_COLS,
};
use crate::cross_table_lookup::CrossTableLookup;
use crate::memory::{
    ctl_data as mem_ctl_data, ctl_data_mem_rc_diff_addr, ctl_data_mem_rc_diff_clk,
    ctl_data_mem_rc_diff_cond, ctl_filter as mem_ctl_filter, ctl_filter_mem_rc_diff_addr,
    ctl_filter_mem_rc_diff_clk, ctl_filter_mem_rc_diff_cond, MemoryStark, COL_M_ADDR, COL_M_CLK,
    COL_M_DIFF_ADDR, COL_M_DIFF_CLK, COL_M_DIFF_COND, COL_M_IS_REAL, COL_M_IS_WRITE, COL_M_VALUE,
    NUM_MEM_COLS,
};
use crate::table::{Table, TableWithColumns, NUM_TABLES};

verus! {

/// The fixed column width of each table.
pub open spec fn table_width_spec(t: Table) -> nat {
    match t {
        Table::Cpu => NUM_CPU_COLS as nat,
        Table::Memory => NUM_MEM_COLS as nat,
        Table::Bitwise => NUM_BITWISE_COLS as nat,
        Table::Cmp => NUM_CMP_COLS as nat,
        Table::RangeCheck => NUM_RC_COLS as nat,
        Table::BitwiseFixed => 1,
        Table::RangecheckFixed => 1,
        Table::Program => NUM_PROGRAM_COLS as nat,
    }
}

/// The fixed column width of each table.
pub fn table_width(t: Table) -> (r: usize)
    ensures
        r == table_width_spec(t),
{
    match t {
        Table::Cpu => NUM_CPU_COLS,
        Table::Memory => NUM_MEM_COLS,
        Table::Bitwise => NUM_BITWISE_COLS,
        Table::Cmp => NUM_CMP_COLS,
        Table::RangeCheck => NUM_RC_COLS,
        Table::BitwiseFixed => 1,
        Table::RangecheckFixed => 1,
        Table::Program => NUM_PROGRAM_COLS,
    }
}

/// One lookup side references an active table and stays inside its width.
pub open spec fn side_registered(s: TableWithColumns) -> bool {
    &&& s.table.is_active_spec()
    &&& s.wf(table_width_spec(s.table))
}

/// A lookup is closed over the active table set and well-shaped.
pub open spec fn ctl_registered(c: CrossTableLookup) -> bool {
    &&& CrossTableLookup::shape_ok(
        c.looking@,
        c.looked,
        CrossTableLookup::default_view(c.default_row),
    )
    &&& forall|k: int| 0 <= k < c.looking@.len() ==> side_registered(#[trigger] c.looking@[k])
    &&& side_registered(c.looked)
}

/// Every lookup of the list is registered.
pub open spec fn registry_ok(list: Seq<CrossTableLookup>) -> bool {
    forall|i: int| 0 <= i < list.len() ==> ctl_registered(#[trigger] list[i])
}

/// Decides whether one side is registered.
pub fn check_side_registered(s: &TableWithColumns) -> (r: bool)
    ensures
        r <==> side_registered(*s),
{
    if !s.table.is_active() {
        return false;
    }
    s.wf_check(table_width(s.table))
}

/// Decides whether one lookup is registered: the construction-time closure
/// check of the registry.
pub fn check_ctl_registered(c: &CrossTableLookup) -> (r: bool)
    ensures
        r <==> ctl_registered(*c),
{
    if c.looking.len() == 0 {
        return false;
    }
    let arity = c.looked.columns.len();
    let mut k: usize = 0;
    while k < c.looking.len()
        invariant
            k <= c.looking@.len(),
            arity == c.looked.arity_spec(),
            forall|i: int|
                0 <= i < k ==> (#[trigger] c.looking@[i]).arity_spec() == c.looked.arity_spec()
                    && side_registered(c.looking@[i]),
        decreases c.looking@.len() - k,
    {
        if c.looking[k].columns.len() != arity {
            return false;
        }
        if !check_side_registered(&c.looking[k]) {
            return false;
        }
        k = k + 1;
    }
    match &c.default_row {
        Some(d) => {
            if d.len() != arity {
                return false;
            }
        },
        None => {},
    }
    check_side_registered(&c.looked)
}

/// The registry itself.
#[derive(Clone)]
pub struct AllStark {
    pub cpu_stark: CpuStark,
    pub memory_stark: MemoryStark,
    pub bitwise_stark: BitwiseStark,
    pub cmp_stark: CmpStark,
    pub rangecheck_stark: RangeCheckStark,
    pub cross_table_lookups: Vec<CrossTableLookup>,
}

/// The CPU-to-memory lookup as the registry declares it: four looking CPU
/// roles (mstore, mload, and the call/ret program-counter and frame-pointer
/// operations) against the authoritative memory table.
pub open spec fn is_cpu_memory_ctl(c: CrossTableLookup) -> bool {
    &&& c.looking@.len() == 4
    &&& c.looking@[0].table == Table::Cpu
    &&& c.looking@[0].columns@ == seq![
        ColumnSelector::Column(COL_AUX0),
        ColumnSelector::Column(COL_CLK),
        ColumnSelector::Constant(1),
        ColumnSelector::Column(COL_OP0),
    ]
    &&& c.looking@[0].filter == Some(ColumnSelector::Column(COL_S_MSTORE))
    &&& c.looking@[1].table == Table::Cpu
    &&& c.looking@[1].columns@ == seq![
        ColumnSelector::Column(COL_AUX0),
        ColumnSelector::Column(COL_CLK),
        ColumnSelector::Constant(0),
        ColumnSelector::Column(COL_DST),
    ]
    &&& c.looking@[1].filter == Some(ColumnSelector::Column(COL_S_MLOAD))
    &&& c.looking@[2].table == Table::Cpu
    &&& c.looking@[2].columns@ == seq![
        ColumnSelector::Column(COL_AUX0),
        ColumnSelector::Column(COL_CLK),
        ColumnSelector::Column(COL_AUX1),
        ColumnSelector::Column(COL_DST),
    ]
    &&& call_ret_filter(c.looking@[2].filter)
    &&& c.looking@[3].table == Table::Cpu
    &&& c.looking@[3].columns@ == seq![
        ColumnSelector::Column(COL_AUX2),
        ColumnSelector::Column(COL_CLK),
        ColumnSelector::Column(COL_AUX1),
        ColumnSelector::Column(COL_AUX3),
    ]
    &&& call_ret_filter(c.looking@[3].filter)
    &&& c.looked.table == Table::Memory
    &&& c.looked.columns@ == seq![
        ColumnSelector::Column(COL_M_ADDR),
        ColumnSelector::Column(COL_M_CLK),
        ColumnSelector::Column(COL_M_IS_WRITE),
        ColumnSelector::Column(COL_M_VALUE),
    ]
    &&& c.looked.filter == Some(ColumnSelector::Column(COL_M_IS_REAL))
    &&& c.default_row is None
}

/// The call/ret filter: the sum of the two one-hot selectors.
pub open spec fn call_ret_filter(f: Option<ColumnSelector>) -> bool {
    match f {
        Some(ColumnSelector::Affine(p, k)) => p@ == seq![(COL_S_CALL, 1u64), (COL_S_RET, 1u64)]
            && k == 0,
        _ => false,
    }
}

/// Declares the CPU-to-memory lookup.
pub fn ctl_cpu_memory() -> (r: CrossTableLookup)
    ensures
        is_cpu_memory_ctl(r),
        ctl_registered(r),
{
    let cpu_mem_mstore = TableWithColumns::new(
        Table::Cpu,
        ctl_data_cpu_mem_mstore(),
        Some(ctl_filter_cpu_mem_mstore()),
    );
    let cpu_mem_mload = TableWithColumns::new(
        Table::Cpu,
        ctl_data_cpu_mem_mload(),
        Some(ctl_filter_cpu_mem_mload()),
    );
    let cpu_mem_call_ret_pc = TableWithColumns::new(
        Table::Cpu,
        ctl_data_cpu_mem_call_ret_pc(),
        Some(ctl_filter_cpu_mem_call_ret()),
    );
    let cpu_mem_call_ret_fp = TableWithColumns::new(
        Table::Cpu,
        ctl_data_cpu_mem_call_ret_fp(),
        Some(ctl_filter_cpu_mem_call_ret()),
    );
    let mut all_cpu_lookers: Vec<TableWithColumns> = Vec::new();
    all_cpu_lookers.push(cpu_mem_mstore);
    all_cpu_lookers.push(cpu_mem_mload);
    all_cpu_lookers.push(cpu_mem_call_ret_pc);
    all_cpu_lookers.push(cpu_mem_call_ret_fp);
    let memory_looked = TableWithColumns::new(Table::Memory, mem_ctl_data(), Some(mem_ctl_filter()));
    proof {
        assert forall|k: int| 0 <= k < all_cpu_lookers@.len() implies (
        #[trigger] all_cpu_lookers@[k]).arity_spec() == memory_looked.arity_spec() by {
            assert(all_cpu_lookers@[0].arity_spec() == 4);
            assert(all_cpu_lookers@[1].arity_spec() == 4);
            assert(all_cpu_lookers@[2].arity_spec() == 4);
            assert(all_cpu_lookers@[3].arity_spec() == 4);
        }
    }
    let built = CrossTableLookup::new(all_cpu_lookers, memory_looked, None);
    match built {
        Ok(c) => {
            proof {
                lemma_four_column_side_registered(
                    c.looking@[0],
                    c.looking@[0].columns@[0],
                    c.looking@[0].columns@[1],
                    c.looking@[0].columns@[2],
                    c.looking@[0].columns@[3],
                );
                lemma_four_column_side_registered(
                    c.looking@[1],
                    c.looking@[1].columns@[0],
                    c.looking@[1].columns@[1],
                    c.looking@[1].columns@[2],
                    c.looking@[1].columns@[3],
                );
                lemma_call_ret_filter_wf(c.looking@[2].filter, table_width_spec(Table::Cpu));
                lemma_four_column_side_registered(
                    c.looking@[2],
                    c.looking@[2].columns@[0],
                    c.looking@[2].columns@[1],
                    c.looking@[2].columns@[2],
                    c.looking@[2].columns@[3],
                );
                lemma_call_ret_filter_wf(c.looking@[3].filter, table_width_spec(Table::Cpu));
                lemma_four_column_side_registered(
                    c.looking@[3],
                    c.looking@[3].columns@[0],
                    c.looking@[3].columns@[1],
                    c.looking@[3].columns@[2],
                    c.looking@[3].columns@[3],
                );
                lemma_four_column_side_registered(
                    c.looked,
                    c.looked.columns@[0],
                    c.looked.columns@[1],
                    c.looked.columns@[2],
                    c.looked.columns@[3],
                );
                assert forall|k: int| 0 <= k < c.looking@.len() implies side_registered(
                    #[trigger] c.looking@[k],
                ) by {}
            }
            c
        },
        Err(_) => unreached(),
    }
}

/// Helper: the call/ret filter stays inside the CPU width.
proof fn lemma_call_ret_filter_wf(f: Option<ColumnSelector>, w: nat)
    requires
        call_ret_filter(f),
        w >= NUM_CPU_COLS,
    ensures
        (f matches Some(g) && g.wf(w)),
{
    match f {
        Some(g) => match g {
            ColumnSelector::Affine(p, k) => {
                assert forall|j: int| 0 <= j < p@.len() implies (#[trigger] p@[j]).0 < w && (
                p@[j].1 < crate::field::FIELD_ORDER) by {
                    assert(p@[0] == (COL_S_CALL, 1u64));
                    assert(p@[1] == (COL_S_RET, 1u64));
                }
                assert(crate::column::affine_wf(p@, w));
            },
            _ => {
                assert(false);
            },
        },
        None => {
            assert(false);
        },
    }
}

/// The memory-to-range-check lookup: the three range-checked difference
/// columns of the memory table against the range-check table. Declared but
/// not yet in the active list.
pub open spec fn is_memory_rc_ctl(c: CrossTableLookup) -> bool {
    &&& c.looking@.len() == 3
    &&& c.looking@[0].table == Table::Memory
    &&& c.looking@[0].columns@ == seq![ColumnSelector::Column(COL_M_DIFF_COND)]
    &&& c.looking@[1].table == Table::Memory
    &&& c.looking@[1].columns@ == seq![ColumnSelector::Column(COL_M_DIFF_ADDR)]
    &&& c.looking@[2].table == Table::Memory
    &&& c.looking@[2].columns@ == seq![ColumnSelector::Column(COL_M_DIFF_CLK)]
    &&& forall|k: int|
        0 <= k < 3 ==> (#[trigger] c.looking@[k]).filter == Some(
            ColumnSelector::Column(COL_M_IS_REAL),
        )
    &&& c.looked.table == Table::RangeCheck
    &&& c.looked.columns@ == seq![ColumnSelector::Column(COL_RC_VAL)]
    &&& c.looked.filter == Some(ColumnSelector::Column(COL_RC_FILTER))
    &&& c.default_row is None
}

/// Declares the memory-to-range-check lookup.
pub fn ctl_memory_rc() -> (r: CrossTableLookup)
    ensures
        is_memory_rc_ctl(r),
{
    let mem_rc_diff_cond = TableWithColumns::new(
        Table::Memory,
        ctl_data_mem_rc_diff_cond(),
        Some(ctl_filter_mem_rc_diff_cond()),
    );
    let mem_rc_diff_addr = TableWithColumns::new(
        Table::Memory,
        ctl_data_mem_rc_diff_addr(),
        Some(ctl_filter_mem_rc_diff_addr()),
    );
    let mem_rc_diff_clk = TableWithColumns::new(
        Table::Memory,
        ctl_data_mem_rc_diff_clk(),
        Some(ctl_filter_mem_rc_diff_clk()),
    );
    let mut all_mem_rc_lookers: Vec<TableWithColumns> = Vec::new();
    all_mem_rc_lookers.push(mem_rc_diff_cond);
    all_mem_rc_lookers.push(mem_rc_diff_addr);
    all_mem_rc_lookers.push(mem_rc_diff_clk);
    let rc_looked = TableWithColumns::new(Table::RangeCheck, ctl_data_rc(), Some(ctl_filter_rc()));
    proof {
        assert forall|k: int| 0 <= k < all_mem_rc_lookers@.len() implies (
        #[trigger] all_mem_rc_lookers@[k]).arity_spec() == rc_looked.arity_spec() by {
            assert(all_mem_rc_lookers@[0].arity_spec() == 1);
            assert(all_mem_rc_lookers@[1].arity_spec() == 1);
            assert(all_mem_rc_lookers@[2].arity_spec() == 1);
        }
    }
    match CrossTableLookup::new(all_mem_rc_lookers, rc_looked, None) {
        Ok(c) => c,
        Err(_) => unreached(),
    }
}

/// The CPU-to-bitwise lookup: and/or/xor rows against the bitwise table.
/// Declared but not yet in the active list.
pub open spec fn is_bitwise_cpu_ctl(c: CrossTableLookup) -> bool {
    &&& c.looking@.len() == 3
    &&& forall|k: int|
        0 <= k < 3 ==> (#[trigger] c.looking@[k]).table == Table::Cpu && c.looking@[k].columns@
            == seq![
            ColumnSelector::Column(COL_OP0),
            ColumnSelector::Column(COL_OP1),
            ColumnSelector::Column(COL_DST),
        ]
    &&& c.looking@[0].filter == Some(ColumnSelector::Column(COL_S_AND))
    &&& c.looking@[1].filter == Some(ColumnSelector::Column(COL_S_OR))
    &&& c.looking@[2].filter == Some(ColumnSelector::Column(COL_S_XOR))
    &&& c.looked.table == Table::Bitwise
    &&& c.looked.columns@ == seq![
        ColumnSelector::Column(COL_B_OP0),
        ColumnSelector::Column(COL_B_OP1),
        ColumnSelector::Column(COL_B_RES),
    ]
    &&& c.looked.filter == Some(ColumnSelector::Column(COL_B_FILTER))
    &&& c.default_row is None
}

/// Declares the CPU-to-bitwise lookup.
pub fn ctl_bitwise_cpu() -> (r: CrossTableLookup)
    ensures
        is_bitwise_cpu_ctl(r),
{
    let mut lookers: Vec<TableWithColumns> = Vec::new();
    lookers.push(
        TableWithColumns::new(
            Table::Cpu,
            ctl_data_with_bitwise(),
            Some(ctl_filter_with_bitwise_and()),
        ),
    );
    lookers.push(
        TableWithColumns::new(
            Table::Cpu,
            ctl_data_with_bitwise(),
            Some(ctl_filter_with_bitwise_or()),
        ),
    );
    lookers.push(
        TableWithColumns::new(
            Table::Cpu,
            ctl_data_with_bitwise(),
            Some(ctl_filter_with_bitwise_xor()),
        ),
    );
    let looked = TableWithColumns::new(
        Table::Bitwise,
        bitwise_ctl_data_with_cpu(),
        Some(bitwise_ctl_filter_with_cpu()),
    );
    proof {
        assert forall|k: int| 0 <= k < lookers@.len() implies (#[trigger] lookers@[k]).arity_spec()
            == looked.arity_spec() by {
            assert(lookers@[0].arity_spec() == 3);
            assert(lookers@[1].arity_spec() == 3);
            assert(lookers@[2].arity_spec() == 3);
        }
    }
    match CrossTableLookup::new(lookers, looked, None) {
        Ok(c) => c,
        Err(_) => unreached(),
    }
}

/// The CPU-to-comparison lookup. Declared but not yet in the active list.
pub open spec fn is_cmp_cpu_ctl(c: CrossTableLookup) -> bool {
    &&& c.looking@.len() == 1
    &&& c.looking@[0].table == Table::Cpu
    &&& c.looking@[0].columns@ == seq![
        ColumnSelector::Column(COL_OP0),
        ColumnSelector::Column(COL_OP1),
        ColumnSelector::Column(COL_FLAG),
    ]
    &&& c.looking@[0].filter == Some(ColumnSelector::Column(COL_S_GTE))
    &&& c.looked.table == Table::Cmp
    &&& c.looked.columns@ == seq![
        ColumnSelector::Column(COL_C_OP0),
        ColumnSelector::Column(COL_C_OP1),
        ColumnSelector::Column(COL_C_GTE),
    ]
    &&& c.looked.filter == Some(ColumnSelector::Column(COL_C_FILTER))
    &&& c.default_row is None
}

/// Declares the CPU-to-comparison lookup.
pub fn ctl_cmp_cpu() -> (r: CrossTableLookup)
    ensures
        is_cmp_cpu_ctl(r),
{
    let mut lookers: Vec<TableWithColumns> = Vec::new();
    lookers.push(
        TableWithColumns::new(Table::Cpu, ctl_data_with_cmp(), Some(ctl_filter_with_cmp())),
    );
    let looked = TableWithColumns::new(
        Table::Cmp,
        cmp_ctl_data_with_cpu(),
        Some(cmp_ctl_filter_with_cpu()),
    );
    proof {
        assert forall|k: int| 0 <= k < lookers@.len() implies (#[trigger] lookers@[k]).arity_spec()
            == looked.arity_spec() by {
            assert(lookers@[0].arity_spec() == 3);
        }
    }
    match CrossTableLookup::new(lookers, looked, None) {
        Ok(c) => c,
        Err(_) => unreached(),
    }
}

/// The CPU-to-range-check lookup. Declared but not yet in the active list.
pub open spec fn is_rangecheck_cpu_ctl(c: CrossTableLookup) -> bool {
    &&& c.looking@.len() == 1
    &&& c.looking@[0].table == Table::Cpu
    &&& c.looking@[0].columns@ == seq![ColumnSelector::Column(COL_OP0)]
    &&& c.looking@[0].filter == Some(ColumnSelector::Column(COL_S_RC))
    &&& c.looked.table == Table::RangeCheck
    &&& c.looked.columns@ == seq![ColumnSelector::Column(COL_RC_VAL)]
    &&& c.looked.filter == Some(ColumnSelector::Column(COL_RC_FILTER))
    &&& c.default_row is None
}

/// Declares the CPU-to-range-check lookup.
pub fn ctl_rangecheck_cpu() -> (r: CrossTableLookup)
    ensures
        is_rangecheck_cpu_ctl(r),
{
    let mut lookers: Vec<TableWithColumns> = Vec::new();
    lookers.push(
        TableWithColumns::new(
            Table::Cpu,
            ctl_data_with_rangecheck(),
            Some(ctl_filter_with_rangecheck()),
        ),
    );
    let looked = TableWithColumns::new(
        Table::RangeCheck,
        ctl_data_rc(),
        Some(ctl_filter_rc()),
    );
    proof {
        assert forall|k: int| 0 <= k < lookers@.len() implies (#[trigger] lookers@[k]).arity_spec()
            == looked.arity_spec() by {
            assert(lookers@[0].arity_spec() == 1);
        }
    }
    match CrossTableLookup::new(lookers, looked, None) {
        Ok(c) => c,
        Err(_) => unreached(),
    }
}

/// The CPU-to-program lookup: every fetched instruction matches the
/// authoritative program listing. Declared but not yet in the active list.
pub open spec fn is_program_cpu_ctl(c: CrossTableLookup) -> bool {
    &&& c.looking@.len() == 1
    &&& c.looking@[0].table == Table::Cpu
    &&& c.looking@[0].columns@ == seq![
        ColumnSelector::Column(COL_PC),
        ColumnSelector::Column(COL_INS),
        ColumnSelector::Column(COL_IMM),
    ]
    &&& c.looking@[0].filter == Some(ColumnSelector::Column(COL_IS_REAL))
    &&& c.looked.table == Table::Program
    &&& c.looked.columns@ == seq![
        ColumnSelector::Column(COL_P_PC),
        ColumnSelector::Column(COL_P_INS),
        ColumnSelector::Column(COL_P_IMM),
    ]
    &&& c.looked.filter == Some(ColumnSelector::Column(COL_P_FILTER))
    &&& c.default_row is None
}

/// Declares the CPU-to-program lookup.
pub fn ctl_correct_program_cpu() -> (r: CrossTableLookup)
    ensures
        is_program_cpu_ctl(r),
{
    let mut lookers: Vec<TableWithColumns> = Vec::new();
    lookers.push(
        TableWithColumns::new(
            Table::Cpu,
            ctl_data_with_program(),
            Some(ctl_filter_with_program()),
        ),
    );
    let looked = TableWithColumns::new(
        Table::Program,
        program_ctl_data_with_cpu(),
        Some(program_ctl_filter_with_cpu()),
    );
    proof {
        assert forall|k: int| 0 <= k < lookers@.len() implies (#[trigger] lookers@[k]).arity_spec()
            == looked.arity_spec() by {
            assert(lookers@[0].arity_spec() == 3);
        }
    }
    match CrossTableLookup::new(lookers, looked, None) {
        Ok(c) => c,
        Err(_) => unreached(),
    }
}

/// The declarative active lookup list: the single source of truth for
/// which lookups are proved, closed over the active table set.
pub fn all_cross_table_lookups() -> (r: Vec<CrossTableLookup>)
    ensures
        r@.len() == 1,
        is_cpu_memory_ctl(r@[0]),
        registry_ok(r@),
{
    let mut v: Vec<CrossTableLookup> = Vec::new();
    v.push(ctl_cpu_memory());
    proof {
        assert forall|i: int| 0 <= i < v@.len() implies ctl_registered(#[trigger] v@[i]) by {}
    }
    v
}

impl Default for AllStark {
    /// Builds the registry: one capability per active table and the full
    /// active lookup list.
    fn default() -> (r: AllStark)
        ensures
            r.cross_table_lookups@.len() == 1,
            is_cpu_memory_ctl(r.cross_table_lookups@[0]),
            registry_ok(r.cross_table_lookups@),
    {
        AllStark {
            cpu_stark: CpuStark::default(),
            memory_stark: MemoryStark::default(),
            bitwise_stark: BitwiseStark::default(),
            cmp_stark: CmpStark::default(),
            rangecheck_stark: RangeCheckStark::default(),
            cross_table_lookups: all_cross_table_lookups(),
        }
    }
}

impl AllStark {
    /// Builds a registry from a custom lookup list, rejecting at
    /// construction any list that is not closed over the active tables:
    /// an ill-shaped lookup or one referencing an inactive table refuses
    /// to build rather than silently misalign.
    pub fn with_lookups(cross_table_lookups: Vec<CrossTableLookup>) -> (r: Result<
        AllStark,
        crate::cross_table_lookup::ConfigError,
    >)
        ensures
            match r {
                Ok(a) => registry_ok(a.cross_table_lookups@) && a.cross_table_lookups
                    == cross_table_lookups,
                Err(_) => !registry_ok(cross_table_lookups@),
            },
    {
        let mut i: usize = 0;
        while i < cross_table_lookups.len()
            invariant
                i <= cross_table_lookups@.len(),
                forall|j: int| 0 <= j < i ==> ctl_registered(#[trigger] cross_table_lookups@[j]),
            decreases cross_table_lookups@.len() - i,
        {
            if !check_ctl_registered(&cross_table_lookups[i]) {
                return Err(crate::cross_table_lookup::ConfigError::InactiveTable);
            }
            i = i + 1;
        }
        Ok(
            AllStark {
                cpu_stark: CpuStark::default(),
                memory_stark: MemoryStark::default(),
                bitwise_stark: BitwiseStark::default(),
                cmp_stark: CmpStark::default(),
                rangecheck_stark: RangeCheckStark::default(),
                cross_table_lookups,
            },
        )
    }

    /// The closure check: every declared lookup references only active
    /// tables and is well-shaped. A registry failing this must be rejected
    /// before any proving.
    pub fn validate(&self) -> (r: bool)
        ensures
            r <==> registry_ok(self.cross_table_lookups@),
    {
        let mut i: usize = 0;
        while i < self.cross_table_lookups.len()
            invariant
                i <= self.cross_table_lookups@.len(),
                forall|j: int|
                    0 <= j < i ==> ctl_registered(#[trigger] self.cross_table_lookups@[j]),
            decreases self.cross_table_lookups@.len() - i,
        {
            if !check_ctl_registered(&self.cross_table_lookups[i]) {
                return false;
            }
            i = i + 1;
        }
        true
    }

    /// The number of permutation-argument batches of each active table,
    /// indexed in `Table` order.
    pub fn nums_permutation_zs(&self, config: &StarkConfig) -> (r: Vec<usize>)
        requires
            config.num_challenges <= 1000,
        ensures
            r@.len() == NUM_TABLES,
            r@[0] == 6 * config.num_challenges,
            r@[1] == 4 * config.num_challenges,
    {
        let mut v: Vec<usize> = Vec::new();
        v.push(self.cpu_stark.num_permutation_batches(config));
        v.push(self.memory_stark.num_permutation_batches(config));
        v
    }

    /// The permutation batch size of each active table, indexed in `Table`
    /// order.
    pub fn permutation_batch_sizes(&self) -> (r: Vec<usize>)
        ensures
            r@.len() == NUM_TABLES,
            r@[0] == 2,
            r@[1] == 2,
    {
        let mut v: Vec<usize> = Vec::new();
        v.push(self.cpu_stark.permutation_batch_size());
        v.push(self.memory_stark.permutation_batch_size());
        v
    }
}

/// Helper: a four-column side over an active table, all of whose selectors
/// are well-formed for its width, is registered.
proof fn lemma_four_column_side_registered(
    s: TableWithColumns,
    c0: ColumnSelector,
    c1: ColumnSelector,
    c2: ColumnSelector,
    c3: ColumnSelector,
)
    requires
        s.table.is_active_spec(),
        s.columns@ == seq![c0, c1, c2, c3],
        c0.wf(table_width_spec(s.table)),
        c1.wf(table_width_spec(s.table)),
        c2.wf(table_width_spec(s.table)),
        c3.wf(table_width_spec(s.table)),
        match s.filter {
            Some(f) => f.wf(table_width_spec(s.table)),
            None => true,
        },
    ensures
        side_registered(s),
{
    assert forall|j: int| 0 <= j < s.columns@.len() implies (#[trigger] s.columns@[j]).wf(
        table_width_spec(s.table),
    ) by {
        assert(s.columns@[0] == c0);
        assert(s.columns@[1] == c1);
        assert(s.columns@[2] == c2);
        assert(s.columns@[3] == c3);
    }
}

} // verus!
