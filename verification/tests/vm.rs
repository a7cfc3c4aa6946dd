use mtstark::cpu::{
    COL_CLK, COL_DST, COL_IS_REAL, COL_PC, COL_S_ADD, COL_S_END, COL_S_MUL, NUM_CPU_COLS,
};
use mtstark::field::FIELD_ORDER;
use mtstark::memory::NUM_MEM_COLS;
use mtstark::vm::{
    generate_cpu_trace, generate_memory_trace, ExecError, Instruction, Process, Program, Trace,
    REGISTER_NUM,
};

fn run(instructions: Vec<Instruction>) -> Result<Program, ExecError> {
    let mut program = Program {
        instructions,
        trace: Trace::default(),
    };
    let mut process = Process::new();
    process.execute(&mut program)?;
    process.gen_memory_table(&mut program);
    Ok(program)
}

#[test]
fn arithmetic_program_registers_and_rows() {
    let program = run(vec![
        Instruction::MovImm { dst: 0, imm: 8 },
        Instruction::MovImm { dst: 1, imm: 2 },
        Instruction::MovImm { dst: 2, imm: 3 },
        Instruction::Add { dst: 3, op0: 0, op1: 1 },
        Instruction::Mul { dst: 4, op0: 3, op1: 2 },
        Instruction::End,
    ])
    .expect("execution");
    let steps = &program.trace.exec_steps;
    assert_eq!(steps.len(), 6);
    // add: 8 + 2 = 10; mul: 10 * 3 = 30
    assert_eq!(steps[3].dst_value, 10);
    assert_eq!(steps[4].dst_value, 30);
    let rows = generate_cpu_trace(steps);
    assert_eq!(rows.len(), 6);
    for (i, row) in rows.iter().enumerate() {
        assert_eq!(row.len(), NUM_CPU_COLS);
        assert_eq!(row[COL_IS_REAL], 1);
        assert_eq!(row[COL_CLK], i as u64);
    }
    assert_eq!(rows[3][COL_S_ADD], 1);
    assert_eq!(rows[3][COL_DST], 10);
    assert_eq!(rows[4][COL_S_MUL], 1);
    assert_eq!(rows[4][COL_DST], 30);
    assert_eq!(rows[5][COL_S_END], 1);
    assert_eq!(rows[5][COL_PC], 5);
}

#[test]
fn memory_table_groups_by_address_in_first_use_order() {
    let program = run(vec![
        Instruction::MovImm { dst: 0, imm: 8 },
        Instruction::MStore { addr: 0x100, src: 0 },
        Instruction::MovImm { dst: 1, imm: 2 },
        Instruction::MStore { addr: 0x200, src: 1 },
        Instruction::MLoad { dst: 2, addr: 0x100 },
        Instruction::MLoad { dst: 3, addr: 0x200 },
        Instruction::End,
    ])
    .expect("execution");
    let rows = generate_memory_trace(&program.trace.memory);
    assert_eq!(rows.len(), 4);
    for row in rows.iter() {
        assert_eq!(row.len(), NUM_MEM_COLS);
    }
    // addr 0x100: write then read; addr 0x200: write then read.
    assert_eq!(rows[0][0], 0x100);
    assert_eq!(rows[0][2], 1);
    assert_eq!(rows[1][0], 0x100);
    assert_eq!(rows[1][2], 0);
    assert_eq!(rows[1][3], 8);
    assert_eq!(rows[2][0], 0x200);
    assert_eq!(rows[2][2], 1);
    assert_eq!(rows[3][0], 0x200);
    assert_eq!(rows[3][2], 0);
    assert_eq!(rows[3][3], 2);
}

#[test]
fn loop_program_terminates_with_expected_sum() {
    // Counts down from 3 by conditional jump.
    let program = run(vec![
        Instruction::MovImm { dst: 0, imm: 3 },
        Instruction::MovImm { dst: 1, imm: 0 },
        Instruction::EqCmp { op0: 0, op1: 1 },
        Instruction::CJmp { target: 7 },
        Instruction::MovImm { dst: 2, imm: 1 },
        Instruction::Add { dst: 0, op0: 0, op1: 3 },
        Instruction::Jmp { target: 2 },
        Instruction::End,
    ]);
    // r3 is zero, so `add r0, r0, r3` never changes r0: the loop never
    // ends by counting and stops only at the step limit.
    assert_eq!(program.err(), Some(ExecError::StepLimit));
}

#[test]
fn assert_eq_stops_on_mismatch() {
    let got = run(vec![
        Instruction::MovImm { dst: 0, imm: 1 },
        Instruction::MovImm { dst: 1, imm: 2 },
        Instruction::AssertEq { op0: 0, op1: 1 },
        Instruction::End,
    ]);
    assert_eq!(got.err(), Some(ExecError::AssertFailed));
    let ok = run(vec![
        Instruction::MovImm { dst: 0, imm: 2 },
        Instruction::MovImm { dst: 1, imm: 2 },
        Instruction::AssertEq { op0: 0, op1: 1 },
        Instruction::End,
    ]);
    assert!(ok.is_ok());
}

#[test]
fn executor_rejects_bad_inputs() {
    assert_eq!(
        run(vec![Instruction::MovImm { dst: REGISTER_NUM, imm: 1 }]).err(),
        Some(ExecError::BadRegister)
    );
    assert_eq!(
        run(vec![Instruction::MovImm { dst: 0, imm: FIELD_ORDER }]).err(),
        Some(ExecError::BadValue)
    );
    assert_eq!(
        run(vec![Instruction::MovImm { dst: 0, imm: 1 }]).err(),
        Some(ExecError::PcOutOfRange)
    );
    assert_eq!(
        run(vec![Instruction::MLoad { dst: 0, addr: 0x500 }, Instruction::End]).err(),
        Some(ExecError::ReadUninitialized)
    );
}

#[test]
fn bitwise_and_comparison_semantics() {
    let program = run(vec![
        Instruction::MovImm { dst: 0, imm: 0b1100 },
        Instruction::MovImm { dst: 1, imm: 0b1010 },
        Instruction::And { dst: 2, op0: 0, op1: 1 },
        Instruction::Gte { op0: 0, op1: 1 },
        Instruction::End,
    ])
    .expect("execution");
    let steps = &program.trace.exec_steps;
    assert_eq!(steps[2].dst_value, 0b1000);
    assert_eq!(steps[3].flag, 1);
}
