use mtstark::all_stark::AllStark;
use mtstark::config::StarkConfig;
use mtstark::cpu::{COL_OP0, COL_S_MLOAD, COL_S_MSTORE};
use mtstark::cross_table_lookup::CtlCheckError;
use mtstark::proofs::PublicValues;
use mtstark::prover::prove_with_traces;
use mtstark::stark_verifier::verify_proof;
use mtstark::stark_verifier::VerifyError;
use mtstark::vm::{
    generate_cpu_trace, generate_memory_trace, Instruction, Process, Program, Trace,
};

fn run_program(instructions: Vec<Instruction>) -> Vec<Vec<Vec<u64>>> {
    let mut program = Program {
        instructions,
        trace: Trace::default(),
    };
    let mut process = Process::new();
    process.execute(&mut program).expect("execution");
    process.gen_memory_table(&mut program);
    let cpu_trace = generate_cpu_trace(&program.trace.exec_steps);
    let memory_trace = generate_memory_trace(&program.trace.memory);
    vec![cpu_trace, memory_trace]
}

fn add_mul_program() -> Vec<Instruction> {
    vec![
        Instruction::MovImm { dst: 0, imm: 8 },
        Instruction::MovImm { dst: 1, imm: 2 },
        Instruction::MovImm { dst: 2, imm: 3 },
        Instruction::Add { dst: 3, op0: 0, op1: 1 },
        Instruction::Mul { dst: 4, op0: 3, op1: 2 },
        Instruction::End,
    ]
}

fn fibo_loop_program() -> Vec<Instruction> {
    vec![
        Instruction::MovImm { dst: 0, imm: 8 },
        Instruction::MovImm { dst: 1, imm: 1 },
        Instruction::MovImm { dst: 2, imm: 1 },
        Instruction::MovImm { dst: 3, imm: 0 },
        Instruction::EqCmp { op0: 0, op1: 3 },
        Instruction::CJmp { target: 12 },
        Instruction::Add { dst: 4, op0: 1, op1: 2 },
        Instruction::MovReg { dst: 1, src: 2 },
        Instruction::MovReg { dst: 2, src: 4 },
        Instruction::MovImm { dst: 4, imm: 1 },
        Instruction::Add { dst: 3, op0: 3, op1: 4 },
        Instruction::Jmp { target: 4 },
        Instruction::End,
    ]
}

fn memory_program() -> Vec<Instruction> {
    vec![
        Instruction::MovImm { dst: 0, imm: 8 },
        Instruction::MStore { addr: 0x100, src: 0 },
        Instruction::MovImm { dst: 1, imm: 2 },
        Instruction::MStore { addr: 0x200, src: 1 },
        Instruction::MovImm { dst: 0, imm: 20 },
        Instruction::MLoad { dst: 1, addr: 0x100 },
        Instruction::MLoad { dst: 2, addr: 0x200 },
        Instruction::MLoad { dst: 3, addr: 0x200 },
        Instruction::Add { dst: 0, op0: 1, op1: 1 },
        Instruction::End,
    ]
}

fn bitwise_program() -> Vec<Instruction> {
    vec![
        Instruction::MovImm { dst: 0, imm: 8 },
        Instruction::MovImm { dst: 1, imm: 2 },
        Instruction::MovImm { dst: 2, imm: 3 },
        Instruction::Add { dst: 3, op0: 0, op1: 1 },
        Instruction::Mul { dst: 4, op0: 3, op1: 2 },
        Instruction::And { dst: 5, op0: 4, op1: 3 },
        Instruction::End,
    ]
}

fn comparison_program() -> Vec<Instruction> {
    vec![
        Instruction::MovImm { dst: 0, imm: 8 },
        Instruction::MovImm { dst: 1, imm: 2 },
        Instruction::Gte { op0: 0, op1: 1 },
        Instruction::End,
    ]
}

fn range_check_program() -> Vec<Instruction> {
    vec![
        Instruction::MovImm { dst: 0, imm: 8 },
        Instruction::RangeCheck { op0: 0 },
        Instruction::End,
    ]
}

fn prove_and_verify(traces: Vec<Vec<Vec<u64>>>) {
    let config = StarkConfig::standard_fast_config();
    let all_stark = AllStark::default();
    let proof = prove_with_traces(&all_stark, &config, traces, PublicValues::default())
        .expect("proving");
    verify_proof(AllStark::default(), proof, &config).expect("verification");
}

#[test]
fn test_all_stark() {
    prove_and_verify(run_program(bitwise_program()));
}

#[test]
fn round_trip_arithmetic() {
    prove_and_verify(run_program(add_mul_program()));
}

#[test]
fn round_trip_loop_with_conditional_jump() {
    prove_and_verify(run_program(fibo_loop_program()));
}

#[test]
fn round_trip_memory_store_load() {
    prove_and_verify(run_program(memory_program()));
}

#[test]
fn round_trip_comparison() {
    prove_and_verify(run_program(comparison_program()));
}

#[test]
fn round_trip_range_check() {
    prove_and_verify(run_program(range_check_program()));
}

#[test]
fn scenario_arithmetic_trace_shape() {
    // Six instructions make a six-row CPU trace, padded to eight, with an
    // empty-filter memory interaction: the CPU-memory lookup holds
    // trivially.
    let traces = run_program(add_mul_program());
    assert_eq!(traces[0].len(), 6);
    assert_eq!(traces[1].len(), 0);
    let all_stark = AllStark::default();
    assert!(all_stark.cross_table_lookups[0].check_on(&traces).is_ok());
    let config = StarkConfig::standard_fast_config();
    let proof = prove_with_traces(&all_stark, &config, traces, PublicValues::default())
        .expect("proving");
    assert_eq!(proof.stark_proofs[0].trace_rows.len(), 8);
    verify_proof(AllStark::default(), proof, &config).expect("verification");
}

#[test]
fn scenario_store_then_load() {
    // One mstore row and one mload row in the CPU trace, matched by two
    // memory rows with the same address and value.
    let program = vec![
        Instruction::MovImm { dst: 0, imm: 8 },
        Instruction::MStore { addr: 0x100, src: 0 },
        Instruction::MovImm { dst: 1, imm: 2 },
        Instruction::MLoad { dst: 2, addr: 0x100 },
        Instruction::End,
    ];
    let traces = run_program(program);
    let mstores = traces[0]
        .iter()
        .filter(|row| row[COL_S_MSTORE] == 1)
        .count();
    let mloads = traces[0].iter().filter(|row| row[COL_S_MLOAD] == 1).count();
    assert_eq!(mstores, 1);
    assert_eq!(mloads, 1);
    assert_eq!(traces[1].len(), 2);
    assert_eq!(traces[1][0][0], 0x100);
    assert_eq!(traces[1][0][3], 8);
    assert_eq!(traces[1][1][0], 0x100);
    assert_eq!(traces[1][1][3], 8);
    let all_stark = AllStark::default();
    assert!(all_stark.cross_table_lookups[0].check_on(&traces).is_ok());

    // Deleting either memory row breaks the lookup.
    let mut broken = traces.clone();
    broken[1].remove(1);
    assert_eq!(
        all_stark.cross_table_lookups[0].check_on(&broken),
        Err(CtlCheckError::MultisetMismatch)
    );
    let mut broken2 = traces.clone();
    broken2[1].remove(0);
    assert_eq!(
        all_stark.cross_table_lookups[0].check_on(&broken2),
        Err(CtlCheckError::MultisetMismatch)
    );
    prove_and_verify(traces);
}

#[test]
fn mutating_a_looking_side_field_fails_the_check() {
    let traces = run_program(memory_program());
    let all_stark = AllStark::default();
    assert!(all_stark.cross_table_lookups[0].check_on(&traces).is_ok());
    let mut mutated = traces.clone();
    // Change the stored value on the first mstore row of the CPU table.
    let row = mutated[0]
        .iter()
        .position(|r| r[COL_S_MSTORE] == 1)
        .expect("an mstore row");
    mutated[0][row][COL_OP0] = 999;
    assert_eq!(
        all_stark.cross_table_lookups[0].check_on(&mutated),
        Err(CtlCheckError::MultisetMismatch)
    );
}

#[test]
fn proving_is_deterministic() {
    let traces = run_program(memory_program());
    let config = StarkConfig::standard_fast_config();
    let all_stark = AllStark::default();
    let p1 = prove_with_traces(&all_stark, &config, traces.clone(), PublicValues::default())
        .expect("proving");
    let p2 = prove_with_traces(&all_stark, &config, traces, PublicValues::default())
        .expect("proving");
    for t in 0..2 {
        assert_eq!(
            p1.stark_proofs[t].trace_commitment,
            p2.stark_proofs[t].trace_commitment
        );
        assert_eq!(p1.stark_proofs[t].trace_rows, p2.stark_proofs[t].trace_rows);
    }
    assert_eq!(p1.ctl_commitment, p2.ctl_commitment);
    for j in 0..p1.ctl_zs.len() {
        for c in 0..p1.ctl_zs[j].challenges.len() {
            assert_eq!(
                p1.ctl_zs[j].challenges[c].looked_z,
                p2.ctl_zs[j].challenges[c].looked_z
            );
            assert_eq!(
                p1.ctl_zs[j].challenges[c].looking_zs,
                p2.ctl_zs[j].challenges[c].looking_zs
            );
        }
    }
    let r1 = verify_proof(AllStark::default(), p1, &config);
    let r2 = verify_proof(AllStark::default(), p2, &config);
    assert_eq!(r1, r2);
    assert!(r1.is_ok());
}

#[test]
fn padding_does_not_change_the_lookup_or_the_outcome() {
    let traces = run_program(add_mul_program());
    let all_stark = AllStark::default();
    assert!(all_stark.cross_table_lookups[0].check_on(&traces).is_ok());
    // Pad the CPU table further, to sixteen rows of filter-zero rows.
    let mut padded = traces.clone();
    while padded[0].len() < 16 {
        padded[0].push(vec![0u64; mtstark::cpu::NUM_CPU_COLS]);
    }
    assert!(all_stark.cross_table_lookups[0].check_on(&padded).is_ok());
    prove_and_verify(traces);
    prove_and_verify(padded);
}

#[test]
fn tampered_commitment_is_rejected() {
    let traces = run_program(add_mul_program());
    let config = StarkConfig::standard_fast_config();
    let all_stark = AllStark::default();
    let mut proof = prove_with_traces(&all_stark, &config, traces, PublicValues::default())
        .expect("proving");
    proof.stark_proofs[0].trace_commitment[0] ^= 1;
    assert!(verify_proof(AllStark::default(), proof, &config).is_err());
}

#[test]
fn tampered_opening_is_rejected() {
    let traces = run_program(add_mul_program());
    let config = StarkConfig::standard_fast_config();
    let all_stark = AllStark::default();
    let mut proof = prove_with_traces(&all_stark, &config, traces, PublicValues::default())
        .expect("proving");
    proof.stark_proofs[0].trace_rows[0][mtstark::cpu::COL_CLK] = 7;
    assert!(verify_proof(AllStark::default(), proof, &config).is_err());
}

#[test]
fn tampered_z_column_is_rejected() {
    let traces = run_program(memory_program());
    let config = StarkConfig::standard_fast_config();
    let all_stark = AllStark::default();
    let mut proof = prove_with_traces(&all_stark, &config, traces, PublicValues::default())
        .expect("proving");
    let z = &mut proof.ctl_zs[0].challenges[0].looked_z;
    let n = z.len();
    z[n - 1] ^= 1;
    assert!(verify_proof(AllStark::default(), proof, &config).is_err());
}

#[test]
fn public_values_are_bound_into_the_transcript() {
    let traces = run_program(memory_program());
    let config = StarkConfig::standard_fast_config();
    let all_stark = AllStark::default();
    let pv = PublicValues { values: vec![5, 7] };
    let proof = prove_with_traces(&all_stark, &config, traces.clone(), pv).expect("proving");
    let plain = prove_with_traces(
        &all_stark,
        &config,
        traces,
        PublicValues::default(),
    )
    .expect("proving");
    // The trace commitments agree, but the Z-column commitments differ:
    // the challenges depend on the absorbed public values.
    assert_eq!(
        proof.stark_proofs[0].trace_commitment,
        plain.stark_proofs[0].trace_commitment
    );
    assert_ne!(proof.ctl_commitment, plain.ctl_commitment);
    verify_proof(AllStark::default(), proof, &config).expect("verification");
}

#[test]
fn unsatisfied_lookup_is_refused_before_committing() {
    let mut traces = run_program(memory_program());
    traces[1].remove(0);
    let config = StarkConfig::standard_fast_config();
    let all_stark = AllStark::default();
    let got = prove_with_traces(&all_stark, &config, traces, PublicValues::default());
    assert_eq!(
        got.err(),
        Some(mtstark::prover::ProveError::CtlUnsatisfied { ctl: 0 })
    );
}

#[test]
fn malformed_trace_is_refused() {
    let mut traces = run_program(add_mul_program());
    traces[0][0].pop();
    let config = StarkConfig::standard_fast_config();
    let all_stark = AllStark::default();
    let got = prove_with_traces(&all_stark, &config, traces, PublicValues::default());
    assert_eq!(
        got.err(),
        Some(mtstark::prover::ProveError::MalformedTrace { table: 0 })
    );
}

#[test]
fn wrong_table_count_is_refused() {
    let traces = vec![run_program(add_mul_program()).remove(0)];
    let config = StarkConfig::standard_fast_config();
    let all_stark = AllStark::default();
    let got = prove_with_traces(&all_stark, &config, traces, PublicValues::default());
    assert_eq!(got.err(), Some(mtstark::prover::ProveError::WrongTableCount));
}

#[test]
fn invalid_config_is_refused() {
    let traces = run_program(add_mul_program());
    let mut config = StarkConfig::standard_fast_config();
    config.num_challenges = 0;
    let all_stark = AllStark::default();
    let got = prove_with_traces(&all_stark, &config, traces, PublicValues::default());
    assert_eq!(got.err(), Some(mtstark::prover::ProveError::InvalidConfig));
}

#[test]
fn unregistered_lookup_list_is_refused() {
    let traces = run_program(add_mul_program());
    let config = StarkConfig::standard_fast_config();
    let mut all_stark = AllStark::default();
    // A lookup referencing an inactive table cannot be proved.
    all_stark
        .cross_table_lookups
        .push(mtstark::all_stark::ctl_cmp_cpu());
    let got = prove_with_traces(&all_stark, &config, traces, PublicValues::default());
    assert_eq!(got.err(), Some(mtstark::prover::ProveError::InvalidRegistry));
}

#[test]
fn non_canonical_public_values_are_refused() {
    let traces = run_program(add_mul_program());
    let config = StarkConfig::standard_fast_config();
    let all_stark = AllStark::default();
    let pv = PublicValues { values: vec![mtstark::field::FIELD_ORDER] };
    let got = prove_with_traces(&all_stark, &config, traces, pv);
    assert_eq!(
        got.err(),
        Some(mtstark::prover::ProveError::MalformedPublicValues)
    );
}

#[test]
fn non_boolean_filter_is_refused() {
    let mut traces = run_program(add_mul_program());
    // Set an mstore selector to 2: the filter is no longer boolean.
    traces[0][0][COL_S_MSTORE] = 2;
    let config = StarkConfig::standard_fast_config();
    let all_stark = AllStark::default();
    let got = prove_with_traces(&all_stark, &config, traces, PublicValues::default());
    assert!(matches!(
        got.err(),
        Some(mtstark::prover::ProveError::NonBooleanFilter { ctl: 0, side: 0, row: 0 })
    ));
}

#[test]
fn constraint_violation_is_reported_as_such() {
    let traces = run_program(add_mul_program());
    let config = StarkConfig::standard_fast_config();
    let all_stark = AllStark::default();
    let mut proof = prove_with_traces(&all_stark, &config, traces, PublicValues::default())
        .expect("proving");
    // Break the clock progression but keep the commitment binding, so the
    // failure is a per-table constraint violation, not an opening failure.
    proof.stark_proofs[0].trace_rows[1][mtstark::cpu::COL_CLK] = 5;
    proof.stark_proofs[0].trace_commitment =
        mtstark::transcript::commit_rows(&proof.stark_proofs[0].trace_rows);
    let got = mtstark::stark_verifier::verify_proof(AllStark::default(), proof, &config);
    assert_eq!(got.err(), Some(VerifyError::TableConstraint { table: 0 }));
}

#[test]
fn z_commitment_mismatch_is_reported_as_such() {
    let traces = run_program(memory_program());
    let config = StarkConfig::standard_fast_config();
    let all_stark = AllStark::default();
    let mut proof = prove_with_traces(&all_stark, &config, traces, PublicValues::default())
        .expect("proving");
    proof.ctl_commitment[0] ^= 1;
    let got = mtstark::stark_verifier::verify_proof(AllStark::default(), proof, &config);
    assert_eq!(got.err(), Some(VerifyError::ZCommitmentMismatch));
}

#[test]
fn tampered_descriptor_list_is_rejected() {
    let traces = run_program(add_mul_program());
    let config = StarkConfig::standard_fast_config();
    let all_stark = AllStark::default();
    let mut proof = prove_with_traces(&all_stark, &config, traces, PublicValues::default())
        .expect("proving");
    proof.ctl_descriptors.clear();
    let got = mtstark::stark_verifier::verify_proof(AllStark::default(), proof, &config);
    assert_eq!(got.err(), Some(VerifyError::MalformedProof));
}

#[test]
fn non_canonical_public_values_in_a_proof_are_rejected() {
    let traces = run_program(add_mul_program());
    let config = StarkConfig::standard_fast_config();
    let all_stark = AllStark::default();
    let mut proof = prove_with_traces(&all_stark, &config, traces, PublicValues::default())
        .expect("proving");
    proof.public_values.values.push(mtstark::field::FIELD_ORDER);
    let got = mtstark::stark_verifier::verify_proof(AllStark::default(), proof, &config);
    assert_eq!(got.err(), Some(VerifyError::PublicValuesMismatch));
}
