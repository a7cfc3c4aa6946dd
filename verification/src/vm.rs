//! A small reference virtual machine: it executes a program once and
//! records the CPU steps and memory operations that trace generation turns
//! into the fixed-width table rows the prover commits.

use vstd::prelude::*;

use crate::cpu::NUM_CPU_COLS;
use crate::field::{is_canon, f_add, f_mul, FIELD_ORDER};
use crate::memory::NUM_MEM_COLS;

verus! {

/// The number of general-purpose registers.
pub const REGISTER_NUM: usize = 16;

/// The largest number of steps one execution may take.
pub const STEP_LIMIT: usize = 1_000_000;

/// One instruction of the virtual machine.
#[derive(Clone, Copy, Debug, PartialEq, Eq, Structural)]
pub enum Instruction {
    /// `dst := imm`.
    MovImm { dst: usize, imm: u64 },
    /// `dst := src`.
    MovReg { dst: usize, src: usize },
    /// `dst := op0 + op1` in the field.
    Add { dst: usize, op0: usize, op1: usize },
    /// `dst := op0 * op1` in the field.
    Mul { dst: usize, op0: usize, op1: usize },
    /// `dst := op0 & op1` bitwise.
    And { dst: usize, op0: usize, op1: usize },
    /// Sets the flag to whether `op0 >= op1`.
    Gte { op0: usize, op1: usize },
    /// Declares `op0` range-checked.
    RangeCheck { op0: usize },
    /// Halts with an error unless `op0 == op1`.
    AssertEq { op0: usize, op1: usize },
    /// Sets the flag to whether `op0 == op1`.
    EqCmp { op0: usize, op1: usize },
    /// Unconditional jump.
    Jmp { target: usize },
    /// Jump when the flag is set.
    CJmp { target: usize },
    /// Stores `src` at the address.
    MStore { addr: u64, src: usize },
    /// Loads `dst` from the address.
    MLoad { dst: usize, addr: u64 },
    /// Ends the program.
    End,
}

/// One executed CPU step, with the values its table row will carry.
#[derive(Clone, Copy, Debug)]
pub struct Step {
    pub clk: u64,
    pub pc: u64,
    pub instruction: Instruction,
    pub op0_value: u64,
    pub op1_value: u64,
    pub dst_value: u64,
    pub addr: u64,
    pub flag: u64,
}

/// One memory operation: address, clock, write flag and value.
#[derive(Clone, Copy, Debug)]
pub struct MemOp {
    pub addr: u64,
    pub clk: u64,
    pub is_write: u64,
    pub value: u64,
}

/// The execution record of one run.
#[derive(Clone, Debug)]
pub struct Trace {
    pub exec_steps: Vec<Step>,
    pub memory: Vec<MemOp>,
}

impl Default for Trace {
    /// An empty trace.
    fn default() -> (r: Trace)
        ensures
            r.exec_steps@.len() == 0,
            r.memory@.len() == 0,
    {
        Trace { exec_steps: Vec::new(), memory: Vec::new() }
    }
}

/// A program and the trace of its one execution.
#[derive(Clone, Debug)]
pub struct Program {
    pub instructions: Vec<Instruction>,
    pub trace: Trace,
}

/// Why execution was refused or aborted.
#[derive(Debug, Copy, Clone, PartialEq, Eq, Structural)]
pub enum ExecError {
    /// An instruction names a register outside the register file.
    BadRegister,
    /// An immediate or address is not a canonical field element.
    BadValue,
    /// The program counter left the program.
    PcOutOfRange,
    /// The step limit was reached before `End`.
    StepLimit,
    /// An `AssertEq` failed.
    AssertFailed,
    /// An `MLoad` read an address never stored to.
    ReadUninitialized,
}

/// The executor: registers, flag, memory, and the logs of one run.
pub struct Process {
    pub registers: Vec<u64>,
    pub flag: u64,
    pub memory: Vec<(u64, u64)>,
    pub mem_log: Vec<MemOp>,
}

/// All registers hold canonical field elements.
pub open spec fn regs_wf(p: Process) -> bool {
    &&& p.registers@.len() == REGISTER_NUM
    &&& forall|i: int| 0 <= i < p.registers@.len() ==> is_canon(#[trigger] p.registers@[i])
}

impl Process {
    /// A fresh executor with zeroed registers and empty memory.
    pub fn new() -> (r: Process)
        ensures
            regs_wf(r),
    {
        let mut registers: Vec<u64> = Vec::new();
        let mut i: usize = 0;
        while i < REGISTER_NUM
            invariant
                i <= REGISTER_NUM,
                registers@.len() == i,
                forall|k: int| 0 <= k < i ==> is_canon(#[trigger] registers@[k]),
            decreases REGISTER_NUM - i,
        {
            registers.push(0);
            i = i + 1;
        }
        Process { registers, flag: 0, memory: Vec::new(), mem_log: Vec::new() }
    }

    /// Looks an address up in memory.
    fn mem_get(&self, addr: u64) -> (r: Option<u64>) {
        let mut i: usize = 0;
        while i < self.memory.len()
            invariant
                i <= self.memory@.len(),
            decreases self.memory@.len() - i,
        {
            if self.memory[i].0 == addr {
                return Some(self.memory[i].1);
            }
            i = i + 1;
        }
        None
    }

    /// Stores a value at an address.
    fn mem_set(&mut self, addr: u64, value: u64)
        requires
            regs_wf(*old(self)),
        ensures
            regs_wf(*final (self)),
            final (self).registers == old(self).registers,
            final (self).flag == old(self).flag,
            final (self).mem_log == old(self).mem_log,
    {
        let mut i: usize = 0;
        while i < self.memory.len()
            invariant
                i <= self.memory@.len(),
                regs_wf(*self),
                self.registers == old(self).registers,
                self.flag == old(self).flag,
                self.mem_log == old(self).mem_log,
            decreases self.memory@.len() - i,
        {
            if self.memory[i].0 == addr {
                self.memory[i] = (addr, value);
                return ;
            }
            i = i + 1;
        }
        self.memory.push((addr, value));
    }

    /// Executes the program from its first instruction, recording the CPU
    /// steps and memory operations into its trace. Consumes at most
    /// `STEP_LIMIT` steps.
    pub fn execute(&mut self, program: &mut Program) -> (r: Result<(), ExecError>)
        requires
            regs_wf(*old(self)),
        ensures
            regs_wf(*final (self)),
            final (program).instructions == old(program).instructions,
            final (program).trace.memory == old(program).trace.memory,
            r is Ok ==> final (program).trace.exec_steps@.len() >= 1 && final (
            program).trace.exec_steps@.last().instruction == Instruction::End,
    {
        let mut recorded: Vec<Step> = Vec::new();
        let mut pc: usize = 0;
        let mut clk: u64 = 0;
        let mut steps: usize = 0;
        loop
            invariant
                regs_wf(*self),
                steps <= STEP_LIMIT,
                clk <= steps as u64,
                recorded@.len() == steps,
                program.instructions == old(program).instructions,
                program.trace.memory == old(program).trace.memory,
                program.trace.exec_steps == old(program).trace.exec_steps,
            decreases STEP_LIMIT - steps,
        {
            if steps >= STEP_LIMIT {
                return Err(ExecError::StepLimit);
            }
            if pc >= program.instructions.len() {
                return Err(ExecError::PcOutOfRange);
            }
            let instruction = program.instructions[pc];
            let mut step = Step {
                clk,
                pc: pc as u64,
                instruction,
                op0_value: 0,
                op1_value: 0,
                dst_value: 0,
                addr: 0,
                flag: self.flag,
            };
            let mut next_pc: usize = pc + 1;
            let mut ended: bool = false;
            match instruction {
                Instruction::MovImm { dst, imm } => {
                    if dst >= REGISTER_NUM {
                        return Err(ExecError::BadRegister);
                    }
                    if imm >= FIELD_ORDER {
                        return Err(ExecError::BadValue);
                    }
                    self.registers[dst] = imm;
                    step.op0_value = imm;
                    step.dst_value = imm;
                },
                Instruction::MovReg { dst, src } => {
                    if dst >= REGISTER_NUM || src >= REGISTER_NUM {
                        return Err(ExecError::BadRegister);
                    }
                    let v = self.registers[src];
                    self.registers[dst] = v;
                    step.op0_value = v;
                    step.dst_value = v;
                },
                Instruction::Add { dst, op0, op1 } => {
                    if dst >= REGISTER_NUM || op0 >= REGISTER_NUM || op1 >= REGISTER_NUM {
                        return Err(ExecError::BadRegister);
                    }
                    let a = self.registers[op0];
                    let b = self.registers[op1];
                    let v = f_add(a, b);
                    self.registers[dst] = v;
                    step.op0_value = a;
                    step.op1_value = b;
                    step.dst_value = v;
                },
                Instruction::Mul { dst, op0, op1 } => {
                    if dst >= REGISTER_NUM || op0 >= REGISTER_NUM || op1 >= REGISTER_NUM {
                        return Err(ExecError::BadRegister);
                    }
                    let a = self.registers[op0];
                    let b = self.registers[op1];
                    let v = f_mul(a, b);
                    self.registers[dst] = v;
                    step.op0_value = a;
                    step.op1_value = b;
                    step.dst_value = v;
                },
                Instruction::And { dst, op0, op1 } => {
                    if dst >= REGISTER_NUM || op0 >= REGISTER_NUM || op1 >= REGISTER_NUM {
                        return Err(ExecError::BadRegister);
                    }
                    let a = self.registers[op0];
                    let b = self.registers[op1];
                    proof {
                        assert(a & b <= a) by (bit_vector);
                    }
                    let v = a & b;
                    self.registers[dst] = v;
                    step.op0_value = a;
                    step.op1_value = b;
                    step.dst_value = v;
                },
                Instruction::Gte { op0, op1 } => {
                    if op0 >= REGISTER_NUM || op1 >= REGISTER_NUM {
                        return Err(ExecError::BadRegister);
                    }
                    let a = self.registers[op0];
                    let b = self.registers[op1];
                    self.flag = if a >= b {
                        1
                    } else {
                        0
                    };
                    step.op0_value = a;
                    step.op1_value = b;
                    step.flag = self.flag;
                },
                Instruction::RangeCheck { op0 } => {
                    if op0 >= REGISTER_NUM {
                        return Err(ExecError::BadRegister);
                    }
                    step.op0_value = self.registers[op0];
                },
                Instruction::AssertEq { op0, op1 } => {
                    if op0 >= REGISTER_NUM || op1 >= REGISTER_NUM {
                        return Err(ExecError::BadRegister);
                    }
                    let a = self.registers[op0];
                    let b = self.registers[op1];
                    if a != b {
                        return Err(ExecError::AssertFailed);
                    }
                    step.op0_value = a;
                    step.op1_value = b;
                },
                Instruction::EqCmp { op0, op1 } => {
                    if op0 >= REGISTER_NUM || op1 >= REGISTER_NUM {
                        return Err(ExecError::BadRegister);
                    }
                    let a = self.registers[op0];
                    let b = self.registers[op1];
                    self.flag = if a == b {
                        1
                    } else {
                        0
                    };
                    step.op0_value = a;
                    step.op1_value = b;
                    step.flag = self.flag;
                },
                Instruction::Jmp { target } => {
                    next_pc = target;
                },
                Instruction::CJmp { target } => {
                    if self.flag == 1 {
                        next_pc = target;
                    }
                },
                Instruction::MStore { addr, src } => {
                    if src >= REGISTER_NUM {
                        return Err(ExecError::BadRegister);
                    }
                    if addr >= FIELD_ORDER {
                        return Err(ExecError::BadValue);
                    }
                    let v = self.registers[src];
                    self.mem_set(addr, v);
                    self.mem_log.push(MemOp { addr, clk, is_write: 1, value: v });
                    step.op0_value = v;
                    step.addr = addr;
                },
                Instruction::MLoad { dst, addr } => {
                    if dst >= REGISTER_NUM {
                        return Err(ExecError::BadRegister);
                    }
                    if addr >= FIELD_ORDER {
                        return Err(ExecError::BadValue);
                    }
                    let got = self.mem_get(addr);
                    match got {
                        Some(v) => {
                            if v >= FIELD_ORDER {
                                return Err(ExecError::BadValue);
                            }
                            self.registers[dst] = v;
                            self.mem_log.push(MemOp { addr, clk, is_write: 0, value: v });
                            step.dst_value = v;
                            step.addr = addr;
                        },
                        None => {
                            return Err(ExecError::ReadUninitialized);
                        },
                    }
                },
                Instruction::End => {
                    ended = true;
                },
            }
            recorded.push(step);
            if ended {
                program.trace.exec_steps = recorded;
                return Ok(());
            }
            pc = next_pc;
            clk = clk + 1;
            steps = steps + 1;
        }
    }

    /// Builds the memory table: the logged operations grouped by address in
    /// first-use order, each address's operations in clock order.
    pub fn gen_memory_table(&mut self, program: &mut Program)
        ensures
            final (program).instructions == old(program).instructions,
            final (program).trace.exec_steps == old(program).trace.exec_steps,
            *final (self) == *old(self),
    {
        let mut out: Vec<MemOp> = Vec::new();
        let mut i: usize = 0;
        while i < self.mem_log.len()
            invariant
                i <= self.mem_log@.len(),
                *self == *old(self),
            decreases self.mem_log@.len() - i,
        {
            let addr = self.mem_log[i].addr;
            let mut seen: bool = false;
            let mut j: usize = 0;
            while j < i
                invariant
                    j <= i,
                    i < self.mem_log@.len(),
                decreases i - j,
            {
                if self.mem_log[j].addr == addr {
                    seen = true;
                }
                j = j + 1;
            }
            if !seen {
                let mut j: usize = i;
                while j < self.mem_log.len()
                    invariant
                        i <= j <= self.mem_log@.len(),
                    decreases self.mem_log@.len() - j,
                {
                    if self.mem_log[j].addr == addr {
                        out.push(self.mem_log[j]);
                    }
                    j = j + 1;
                }
            }
            i = i + 1;
        }
        program.trace.memory = out;
    }
}

/// A compact field encoding of an instruction: its operation tag.
pub open spec fn encode_spec(instruction: Instruction) -> u64 {
    match instruction {
        Instruction::MovImm { .. } => 0,
        Instruction::MovReg { .. } => 1,
        Instruction::Add { .. } => 2,
        Instruction::Mul { .. } => 3,
        Instruction::And { .. } => 4,
        Instruction::Gte { .. } => 5,
        Instruction::RangeCheck { .. } => 6,
        Instruction::AssertEq { .. } => 7,
        Instruction::EqCmp { .. } => 8,
        Instruction::Jmp { .. } => 9,
        Instruction::CJmp { .. } => 10,
        Instruction::MStore { .. } => 11,
        Instruction::MLoad { .. } => 12,
        Instruction::End => 13,
    }
}

/// The immediate a row carries: the operand of a `MovImm`, else zero.
pub open spec fn imm_spec(instruction: Instruction) -> u64 {
    match instruction {
        Instruction::MovImm { imm, .. } => imm,
        _ => 0,
    }
}

/// One when the instruction is of the given selector's kind.
pub open spec fn sel_flag(b: bool) -> u64 {
    if b {
        1
    } else {
        0
    }
}

/// The memory table row a memory operation is laid out as.
pub open spec fn mem_row_spec(m: MemOp) -> Seq<u64> {
    seq![m.addr, m.clk, m.is_write, m.value, 1u64, 0u64, 0u64, 0u64]
}

/// The CPU table row a step is laid out as.
pub open spec fn cpu_row_spec(s: Step) -> Seq<u64> {
    seq![
        1u64,
        s.clk,
        s.pc,
        encode_spec(s.instruction),
        imm_spec(s.instruction),
        s.op0_value,
        s.op1_value,
        s.dst_value,
        s.addr,
        s.flag,
        0u64,
        sel_flag(s.instruction matches Instruction::MovImm { .. } || s.instruction
            matches Instruction::MovReg { .. }),
        sel_flag(s.instruction matches Instruction::Add { .. }),
        sel_flag(s.instruction matches Instruction::Mul { .. }),
        sel_flag(s.instruction matches Instruction::MStore { .. }),
        sel_flag(s.instruction matches Instruction::MLoad { .. }),
        sel_flag(s.instruction matches Instruction::And { .. }),
        0u64,
        0u64,
        sel_flag(s.instruction matches Instruction::Gte { .. }),
        sel_flag(s.instruction matches Instruction::RangeCheck { .. }),
        sel_flag(s.instruction matches Instruction::AssertEq { .. }),
        sel_flag(s.instruction matches Instruction::EqCmp { .. }),
        sel_flag(s.instruction matches Instruction::Jmp { .. }),
        sel_flag(s.instruction matches Instruction::CJmp { .. }),
        0u64,
        0u64,
        sel_flag(s.instruction matches Instruction::End),
        0u64,
        0u64,
        0u64,
    ]
}

/// A compact field encoding of an instruction: its operation tag.
pub fn encode_instruction(instruction: &Instruction) -> (r: u64)
    ensures
        r == encode_spec(*instruction),
        r < 15,
{
    match instruction {
        Instruction::MovImm { .. } => 0,
        Instruction::MovReg { .. } => 1,
        Instruction::Add { .. } => 2,
        Instruction::Mul { .. } => 3,
        Instruction::And { .. } => 4,
        Instruction::Gte { .. } => 5,
        Instruction::RangeCheck { .. } => 6,
        Instruction::AssertEq { .. } => 7,
        Instruction::EqCmp { .. } => 8,
        Instruction::Jmp { .. } => 9,
        Instruction::CJmp { .. } => 10,
        Instruction::MStore { .. } => 11,
        Instruction::MLoad { .. } => 12,
        Instruction::End => 13,
    }
}

/// Builds one CPU table row from one step.
fn cpu_row_of_step(s: &Step) -> (r: Vec<u64>)
    ensures
        r@ == cpu_row_spec(*s),
        r@.len() == NUM_CPU_COLS,
{
    let mut row: Vec<u64> = Vec::new();
    row.push(1);  // is_real
    row.push(s.clk);
    row.push(s.pc);
    row.push(encode_instruction(&s.instruction));
    let imm: u64 = match s.instruction {
        Instruction::MovImm { imm, .. } => imm,
        _ => 0,
    };
    row.push(imm);
    row.push(s.op0_value);
    row.push(s.op1_value);
    row.push(s.dst_value);
    row.push(s.addr);  // aux0
    row.push(s.flag);
    row.push(0);  // fp
    row.push(
        match s.instruction {
            Instruction::MovImm { .. } => 1,
            Instruction::MovReg { .. } => 1,
            _ => 0,
        },
    );  // s_mov
    row.push(
        match s.instruction {
            Instruction::Add { .. } => 1,
            _ => 0,
        },
    );
    row.push(
        match s.instruction {
            Instruction::Mul { .. } => 1,
            _ => 0,
        },
    );
    row.push(
        match s.instruction {
            Instruction::MStore { .. } => 1,
            _ => 0,
        },
    );
    row.push(
        match s.instruction {
            Instruction::MLoad { .. } => 1,
            _ => 0,
        },
    );
    row.push(
        match s.instruction {
            Instruction::And { .. } => 1,
            _ => 0,
        },
    );
    row.push(0);  // s_or
    row.push(0);  // s_xor
    row.push(
        match s.instruction {
            Instruction::Gte { .. } => 1,
            _ => 0,
        },
    );
    row.push(
        match s.instruction {
            Instruction::RangeCheck { .. } => 1,
            _ => 0,
        },
    );
    row.push(
        match s.instruction {
            Instruction::AssertEq { .. } => 1,
            _ => 0,
        },
    );
    row.push(
        match s.instruction {
            Instruction::EqCmp { .. } => 1,
            _ => 0,
        },
    );
    row.push(
        match s.instruction {
            Instruction::Jmp { .. } => 1,
            _ => 0,
        },
    );
    row.push(
        match s.instruction {
            Instruction::CJmp { .. } => 1,
            _ => 0,
        },
    );
    row.push(0);  // s_call
    row.push(0);  // s_ret
    row.push(
        match s.instruction {
            Instruction::End => 1,
            _ => 0,
        },
    );
    row.push(0);  // aux1
    row.push(0);  // aux2
    row.push(0);  // aux3
    proof {
        assert(row@ =~= cpu_row_spec(*s));
    }
    row
}

/// Turns the executed steps into the CPU table's rows.
pub fn generate_cpu_trace(steps: &Vec<Step>) -> (r: Vec<Vec<u64>>)
    ensures
        r@.len() == steps@.len(),
        forall|i: int| 0 <= i < r@.len() ==> (#[trigger] r@[i])@ == cpu_row_spec(steps@[i]),
        forall|i: int| 0 <= i < r@.len() ==> (#[trigger] r@[i])@.len() == NUM_CPU_COLS,
{
    let mut out: Vec<Vec<u64>> = Vec::new();
    let mut i: usize = 0;
    while i < steps.len()
        invariant
            i <= steps@.len(),
            out@.len() == i,
            forall|k: int| 0 <= k < i ==> (#[trigger] out@[k])@ == cpu_row_spec(steps@[k]),
            forall|k: int| 0 <= k < i ==> (#[trigger] out@[k])@.len() == NUM_CPU_COLS,
        decreases steps@.len() - i,
    {
        out.push(cpu_row_of_step(&steps[i]));
        i = i + 1;
    }
    out
}

/// Turns the memory operations into the memory table's rows.
pub fn generate_memory_trace(mem: &Vec<MemOp>) -> (r: Vec<Vec<u64>>)
    ensures
        r@.len() == mem@.len(),
        forall|i: int| 0 <= i < r@.len() ==> (#[trigger] r@[i])@ == mem_row_spec(mem@[i]),
        forall|i: int| 0 <= i < r@.len() ==> (#[trigger] r@[i])@.len() == NUM_MEM_COLS,
{
    let mut out: Vec<Vec<u64>> = Vec::new();
    let mut i: usize = 0;
    while i < mem.len()
        invariant
            i <= mem@.len(),
            out@.len() == i,
            forall|k: int| 0 <= k < i ==> (#[trigger] out@[k])@ == mem_row_spec(mem@[k]),
            forall|k: int| 0 <= k < i ==> (#[trigger] out@[k])@.len() == NUM_MEM_COLS,
        decreases mem@.len() - i,
    {
        let op = mem[i];
        let mut row: Vec<u64> = Vec::new();
        row.push(op.addr);
        row.push(op.clk);
        row.push(op.is_write);
        row.push(op.value);
        row.push(1);  // is_real
        row.push(0);  // diff_addr
        row.push(0);  // diff_clk
        row.push(0);  // diff_cond
        proof {
            assert(row@ =~= mem_row_spec(mem@[i as int]));
        }
        out.push(row);
        i = i + 1;
    }
    out
}

} // verus!
