//! The staged CPU simulator: holds the loaded instruction sequence and
//! the full architectural state, and advances exactly one micro-stage
//! per `step` call. Every call increments the cycle counter by one, the
//! terminal case included; a step past the end of the program is a
//! normal terminal result, not an error.

use vstd::prelude::*;
use crate::maps::reg_read;
use crate::text::{hex_of, i64_bits, i64_bits_exec, join_comma, join_comma_exec, parse_i64,
    parse_u32, spec_parse_i64, spec_parse_u32, str_eq, u64_to_hex, wrap_add, wrap_i64, wrap_sub};
use crate::types::{CPUState, CpuV, ExecutionStage, Instruction, InstrV, InstructionType,
    cpu_default, instrs_view};

verus! {

// ---------------------------------------------------------------------------
// Stage semantics.
// ---------------------------------------------------------------------------

/// What the Execute stage does to the state for an Arithmetic
/// instruction: ADD and SUB read two general registers by name (an
/// absent register reads as zero), write the wrapping 64-bit result into
/// the first operand's register, and set the zero and negative flags
/// from the result; `carry` and `overflow` are left unchanged, never
/// computed. Any other mnemonic changes nothing.
pub open spec fn arith_state(st: CpuV, ins: InstrV) -> CpuV {
    if ins.operands.len() >= 2 && (ins.mnemonic == "ADD"@ || ins.mnemonic == "SUB"@) {
        let v1 = reg_read(st.registers.general, ins.operands[0]);
        let v2 = reg_read(st.registers.general, ins.operands[1]);
        let result = if ins.mnemonic == "ADD"@ {
            wrap_i64(v1 + v2)
        } else {
            wrap_i64(v1 - v2)
        };
        CpuV {
            registers: crate::types::RegsV {
                general: st.registers.general.insert(ins.operands[0], result as i64),
                special: st.registers.special,
            },
            flags: crate::types::FlagsState {
                zero: result == 0,
                negative: result < 0,
                carry: st.flags.carry,
                overflow: st.flags.overflow,
                parity: st.flags.parity,
            },
            ..st
        }
    } else {
        st
    }
}

/// What the Execute stage does to the state for a DataTransfer
/// instruction: only a literal-to-register MOV is implemented — where
/// the second operand is a 64-bit integer literal, its value is written
/// into the register named by the first operand. Anything else changes
/// nothing.
pub open spec fn data_transfer_state(st: CpuV, ins: InstrV) -> CpuV {
    if ins.mnemonic == "MOV"@ && ins.operands.len() >= 2 && spec_parse_i64(
        ins.operands[1],
    ) is Some {
        let v = spec_parse_i64(ins.operands[1])->Some_0;
        CpuV {
            registers: crate::types::RegsV {
                general: st.registers.general.insert(ins.operands[0], v as i64),
                special: st.registers.special,
            },
            ..st
        }
    } else {
        st
    }
}

/// What the MemoryAccess stage does to the state: only a store is
/// implemented — a MOV whose first operand is bracketed text parsing as
/// an unsigned 32-bit address, and whose second operand names a present
/// general register, writes that register's value into the memory map.
/// Loads are intentionally not implemented.
pub open spec fn memory_access_state(st: CpuV, ins: InstrV) -> CpuV {
    if ins.mnemonic == "MOV"@ && ins.operands.len() >= 2 {
        let dest = ins.operands[0];
        if dest.len() >= 1 && dest[0] == '[' && dest[dest.len() - 1] == ']' && spec_parse_u32(
            dest.subrange(1, dest.len() - 1),
        ) is Some && st.registers.general.dom().contains(ins.operands[1]) {
            let addr = spec_parse_u32(dest.subrange(1, dest.len() - 1))->Some_0;
            CpuV {
                memory: crate::types::MemV {
                    data: st.memory.data.insert(
                        addr as u64,
                        st.registers.general[ins.operands[1]],
                    ),
                    stack: st.memory.stack,
                    heap: st.memory.heap,
                },
                ..st
            }
        } else {
            st
        }
    } else {
        st
    }
}

/// What the WriteBack stage does to the state: the instruction-pointer
/// special register is incremented (wrapping) where it is present, and
/// nothing happens where it is not.
pub open spec fn write_back_state(st: CpuV) -> CpuV {
    if st.registers.special.dom().contains("EIP"@) {
        CpuV {
            registers: crate::types::RegsV {
                general: st.registers.general,
                special: st.registers.special.insert(
                    "EIP"@,
                    wrap_i64(st.registers.special["EIP"@] + 1) as i64,
                ),
            },
            ..st
        }
    } else {
        st
    }
}

// ---------------------------------------------------------------------------
// Result messages.
// ---------------------------------------------------------------------------

/// Message of the terminal result.
pub open spec fn terminal_msg() -> Seq<char> {
    "program execution complete"@
}

/// Message of the cursor-advance result.
pub open spec fn advance_msg() -> Seq<char> {
    "ready for the next instruction"@
}

/// Message of the Fetch stage.
pub open spec fn fetch_msg(eip: i64, mnemonic: Seq<char>) -> Seq<char> {
    "fetch: reading instruction "@ + mnemonic + " from address 0x"@ + hex_of(i64_bits(eip as int))
}

/// Message of the Decode stage.
pub open spec fn decode_msg(ins: InstrV) -> Seq<char> {
    "decode: parsing instruction "@ + ins.mnemonic + " "@ + join_comma(ins.operands)
}

/// Message of the Execute stage, by instruction kind.
pub open spec fn execute_msg(ins: InstrV) -> Seq<char> {
    match ins.instruction_type {
        InstructionType::Arithmetic => "execute: arithmetic operation "@ + ins.mnemonic,
        InstructionType::Logic => "execute: logic operation "@ + ins.mnemonic,
        InstructionType::DataTransfer => "execute: data transfer "@ + ins.mnemonic,
        InstructionType::Control => "execute: control flow "@ + ins.mnemonic,
        InstructionType::Memory => "execute: preparing memory access"@,
    }
}

/// Message of the MemoryAccess stage.
pub open spec fn memory_access_msg(ins: InstrV) -> Seq<char> {
    "memory access: "@ + ins.description
}

/// Message of the WriteBack stage.
pub open spec fn write_back_msg(ins: InstrV) -> Seq<char> {
    "write back: completing instruction "@ + ins.mnemonic
}

// ---------------------------------------------------------------------------
// The step relation.
// ---------------------------------------------------------------------------

/// Mathematical value of an [`ExecutionResult`].
#[verifier::ext_equal]
pub ghost struct ResultV {
    pub stage: ExecutionStage,
    pub instruction: Option<InstrV>,
    pub cpu_state: CpuV,
    pub message: Seq<char>,
    pub cycle_count: u64,
}

/// Mathematical value of a [`CPUSimulator`].
#[verifier::ext_equal]
pub ghost struct SimV {
    pub state: CpuV,
    pub instructions: Seq<InstrV>,
    pub index: int,
    pub stage: ExecutionStage,
    pub cycles: u64,
}

/// One micro-stage of execution: the simulator after the step, and the
/// result the step reports. Defined for every simulator whose cycle
/// counter has room to count the call.
pub open spec fn sim_step(s: SimV) -> (SimV, ResultV)
    recommends
        s.cycles < u64::MAX,
{
    let cycles = (s.cycles + 1) as u64;
    if s.index >= s.instructions.len() {
        (
            SimV { cycles, ..s },
            ResultV {
                stage: ExecutionStage::Complete,
                instruction: None,
                cpu_state: s.state,
                message: terminal_msg(),
                cycle_count: cycles,
            },
        )
    } else {
        let ins = s.instructions[s.index];
        match s.stage {
            ExecutionStage::Fetch => (
                SimV { stage: ExecutionStage::Decode, cycles, ..s },
                ResultV {
                    stage: ExecutionStage::Fetch,
                    instruction: Some(ins),
                    cpu_state: s.state,
                    message: fetch_msg(
                        reg_read(s.state.registers.special, "EIP"@),
                        ins.mnemonic,
                    ),
                    cycle_count: cycles,
                },
            ),
            ExecutionStage::Decode => (
                SimV { stage: ExecutionStage::Execute, cycles, ..s },
                ResultV {
                    stage: ExecutionStage::Decode,
                    instruction: Some(ins),
                    cpu_state: s.state,
                    message: decode_msg(ins),
                    cycle_count: cycles,
                },
            ),
            ExecutionStage::Execute => {
                let (state, stage) = match ins.instruction_type {
                    InstructionType::Arithmetic => (
                        arith_state(s.state, ins),
                        ExecutionStage::WriteBack,
                    ),
                    InstructionType::Logic => (s.state, ExecutionStage::WriteBack),
                    InstructionType::DataTransfer => (
                        data_transfer_state(s.state, ins),
                        ExecutionStage::WriteBack,
                    ),
                    InstructionType::Control => (s.state, ExecutionStage::WriteBack),
                    InstructionType::Memory => (s.state, ExecutionStage::MemoryAccess),
                };
                (
                    SimV { state, stage, cycles, ..s },
                    ResultV {
                        stage: ExecutionStage::Execute,
                        instruction: Some(ins),
                        cpu_state: state,
                        message: execute_msg(ins),
                        cycle_count: cycles,
                    },
                )
            },
            ExecutionStage::MemoryAccess => {
                let state = memory_access_state(s.state, ins);
                (
                    SimV { state, stage: ExecutionStage::WriteBack, cycles, ..s },
                    ResultV {
                        stage: ExecutionStage::MemoryAccess,
                        instruction: Some(ins),
                        cpu_state: state,
                        message: memory_access_msg(ins),
                        cycle_count: cycles,
                    },
                )
            },
            ExecutionStage::WriteBack => {
                let state = write_back_state(s.state);
                (
                    SimV { state, stage: ExecutionStage::Complete, cycles, ..s },
                    ResultV {
                        stage: ExecutionStage::WriteBack,
                        instruction: Some(ins),
                        cpu_state: state,
                        message: write_back_msg(ins),
                        cycle_count: cycles,
                    },
                )
            },
            ExecutionStage::Complete => (
                SimV { index: s.index + 1, stage: ExecutionStage::Fetch, cycles, ..s },
                ResultV {
                    stage: ExecutionStage::Fetch,
                    instruction: None,
                    cpu_state: s.state,
                    message: advance_msg(),
                    cycle_count: cycles,
                },
            ),
        }
    }
}

/// Stepping with the instruction sequence exhausted always yields a
/// terminal result: stage Complete, no instruction, the architectural
/// state unchanged, and a strictly increased cycle counter — and leaves
/// the simulator exhausted again, so every further step does the same.
pub proof fn lemma_terminal_step(s: SimV)
    requires
        s.index >= s.instructions.len(),
        s.cycles < u64::MAX,
    ensures
        sim_step(s).0 == (SimV { cycles: (s.cycles + 1) as u64, ..s }),
        sim_step(s).0.index >= sim_step(s).0.instructions.len(),
        sim_step(s).0.state == s.state,
        sim_step(s).1.stage == ExecutionStage::Complete,
        sim_step(s).1.instruction is None,
        sim_step(s).1.cpu_state == s.state,
        sim_step(s).1.cycle_count == s.cycles + 1,
{
    assert(sim_step(s).0 =~~= (SimV { cycles: (s.cycles + 1) as u64, ..s }));
}

/// After a reset the architectural state is the all-zero default: every
/// general and special register reads as zero, the memory map, heap and
/// stack are empty, and every flag is clear.
pub proof fn lemma_default_state_zero(name: Seq<char>, addr: u64)
    ensures
        reg_read(cpu_default().registers.general, name) == 0,
        reg_read(cpu_default().registers.special, name) == 0,
        !cpu_default().memory.data.dom().contains(addr),
        !cpu_default().memory.heap.dom().contains(addr),
        cpu_default().memory.stack.len() == 0,
        !cpu_default().flags.zero,
        !cpu_default().flags.carry,
        !cpu_default().flags.overflow,
        !cpu_default().flags.negative,
        !cpu_default().flags.parity,
{
}

// ---------------------------------------------------------------------------
// The executable simulator.
// ---------------------------------------------------------------------------

/// The snapshot and message one `step` call reports.
#[derive(Debug)]
pub struct ExecutionResult {
    pub stage: ExecutionStage,
    pub instruction: Option<Instruction>,
    pub cpu_state: CPUState,
    pub message: String,
    pub cycle_count: u64,
}

impl View for ExecutionResult {
    type V = ResultV;

    open spec fn view(&self) -> ResultV {
        ResultV {
            stage: self.stage,
            instruction: match self.instruction {
                Some(i) => Some(i@),
                None => None,
            },
            cpu_state: self.cpu_state@,
            message: self.message@,
            cycle_count: self.cycle_count,
        }
    }
}

/// The staged CPU simulator.
#[derive(Debug)]
pub struct CPUSimulator {
    pub state: CPUState,
    pub instructions: Vec<Instruction>,
    pub current_instruction_index: usize,
    pub execution_stage: ExecutionStage,
    pub cycle_count: u64,
}

impl View for CPUSimulator {
    type V = SimV;

    open spec fn view(&self) -> SimV {
        SimV {
            state: self.state@,
            instructions: instrs_view(self.instructions@),
            index: self.current_instruction_index as int,
            stage: self.execution_stage,
            cycles: self.cycle_count,
        }
    }
}

impl CPUSimulator {
    /// A simulator with the all-zero state, no program loaded, the
    /// cursor at the start and the cycle counter at zero.
    pub fn new() -> (r: CPUSimulator)
        ensures
            r@ == (SimV {
                state: cpu_default(),
                instructions: Seq::empty(),
                index: 0,
                stage: ExecutionStage::Fetch,
                cycles: 0,
            }),
    {
        let r = CPUSimulator {
            state: CPUState::default(),
            instructions: Vec::new(),
            current_instruction_index: 0,
            execution_stage: ExecutionStage::Fetch,
            cycle_count: 0,
        };
        proof {
            assert(instrs_view(r.instructions@) =~= Seq::<InstrV>::empty());
            assert(r@ =~~= (SimV {
                state: cpu_default(),
                instructions: Seq::empty(),
                index: 0,
                stage: ExecutionStage::Fetch,
                cycles: 0,
            }));
        }
        r
    }

    /// Replaces the program, resets the cursor to its start and the
    /// stage to Fetch. The architectural state is not touched.
    pub fn load_instructions(&mut self, instructions: Vec<Instruction>)
        ensures
            final(self).state == old(self).state,
            final(self).cycle_count == old(self).cycle_count,
            final(self)@.instructions == instrs_view(instructions@),
            final(self)@.index == 0,
            final(self)@.stage == ExecutionStage::Fetch,
    {
        self.instructions = instructions;
        self.current_instruction_index = 0;
        self.execution_stage = ExecutionStage::Fetch;
    }

    /// The Fetch stage: records the fetched instruction and moves to
    /// Decode. Touches no architectural state.
    fn fetch(&mut self, instruction: &Instruction) -> (r: Result<ExecutionResult, String>)
        ensures
            final(self).state == old(self).state,
            final(self).instructions == old(self).instructions,
            final(self).current_instruction_index == old(self).current_instruction_index,
            final(self).cycle_count == old(self).cycle_count,
            final(self).execution_stage == ExecutionStage::Decode,
            r matches Ok(res) && res@ == (ResultV {
                stage: ExecutionStage::Fetch,
                instruction: Some(instruction@),
                cpu_state: old(self).state@,
                message: fetch_msg(
                    reg_read(old(self).state@.registers.special, "EIP"@),
                    instruction@.mnemonic,
                ),
                cycle_count: old(self).cycle_count,
            }),
    {
        self.execution_stage = ExecutionStage::Decode;
        let eip = self.state.registers.special.read("EIP");
        let mut message = "fetch: reading instruction ".to_owned();
        message.append(instruction.mnemonic.as_str());
        message.append(" from address 0x");
        message.append(u64_to_hex(i64_bits_exec(eip)).as_str());
        let res = ExecutionResult {
            stage: ExecutionStage::Fetch,
            instruction: Some(instruction.duplicate()),
            cpu_state: self.state.duplicate(),
            message,
            cycle_count: self.cycle_count,
        };
        proof {
            assert(res@.message =~= fetch_msg(
                reg_read(old(self).state@.registers.special, "EIP"@),
                instruction@.mnemonic,
            ));
            assert(res@ =~~= (ResultV {
                stage: ExecutionStage::Fetch,
                instruction: Some(instruction@),
                cpu_state: old(self).state@,
                message: fetch_msg(
                    reg_read(old(self).state@.registers.special, "EIP"@),
                    instruction@.mnemonic,
                ),
                cycle_count: old(self).cycle_count,
            }));
        }
        Ok(res)
    }

    /// The Decode stage: records the decoded mnemonic and operands and
    /// moves to Execute. Touches no architectural state.
    fn decode(&mut self, instruction: &Instruction) -> (r: Result<ExecutionResult, String>)
        ensures
            final(self).state == old(self).state,
            final(self).instructions == old(self).instructions,
            final(self).current_instruction_index == old(self).current_instruction_index,
            final(self).cycle_count == old(self).cycle_count,
            final(self).execution_stage == ExecutionStage::Execute,
            r matches Ok(res) && res@ == (ResultV {
                stage: ExecutionStage::Decode,
                instruction: Some(instruction@),
                cpu_state: old(self).state@,
                message: decode_msg(instruction@),
                cycle_count: old(self).cycle_count,
            }),
    {
        self.execution_stage = ExecutionStage::Execute;
        let mut message = "decode: parsing instruction ".to_owned();
        message.append(instruction.mnemonic.as_str());
        message.append(" ");
        message.append(join_comma_exec(&instruction.operands).as_str());
        let res = ExecutionResult {
            stage: ExecutionStage::Decode,
            instruction: Some(instruction.duplicate()),
            cpu_state: self.state.duplicate(),
            message,
            cycle_count: self.cycle_count,
        };
        proof {
            assert(res@.message =~= decode_msg(instruction@));
            assert(res@ =~~= (ResultV {
                stage: ExecutionStage::Decode,
                instruction: Some(instruction@),
                cpu_state: old(self).state@,
                message: decode_msg(instruction@),
                cycle_count: old(self).cycle_count,
            }));
        }
        Ok(res)
    }

    /// The Execute stage for an Arithmetic instruction.
    fn execute_arithmetic(&mut self, instruction: &Instruction) -> (r: Result<
        ExecutionResult,
        String,
    >)
        requires
            instruction@.instruction_type == InstructionType::Arithmetic,
        ensures
            final(self).state@ == arith_state(old(self).state@, instruction@),
            final(self).instructions == old(self).instructions,
            final(self).current_instruction_index == old(self).current_instruction_index,
            final(self).cycle_count == old(self).cycle_count,
            final(self).execution_stage == ExecutionStage::WriteBack,
            r matches Ok(res) && res@ == (ResultV {
                stage: ExecutionStage::Execute,
                instruction: Some(instruction@),
                cpu_state: arith_state(old(self).state@, instruction@),
                message: execute_msg(instruction@),
                cycle_count: old(self).cycle_count,
            }),
    {
        self.execution_stage = ExecutionStage::WriteBack;
        let is_add = str_eq(instruction.mnemonic.as_str(), "ADD");
        let is_sub = str_eq(instruction.mnemonic.as_str(), "SUB");
        if (is_add || is_sub) && instruction.operands.len() >= 2 {
            let reg1 = &instruction.operands[0];
            let reg2 = &instruction.operands[1];
            let val1 = self.state.registers.general.read(reg1.as_str());
            let val2 = self.state.registers.general.read(reg2.as_str());
            let result = if is_add {
                wrap_add(val1, val2)
            } else {
                wrap_sub(val1, val2)
            };
            self.state.registers.general.write(reg1.as_str(), result);
            self.state.flags.zero = result == 0;
            self.state.flags.negative = result < 0;
            proof {
                assert(instruction@.operands[0] == instruction.operands@[0]@);
                assert(instruction@.operands[1] == instruction.operands@[1]@);
                assert(self.state@ =~~= arith_state(old(self).state@, instruction@));
            }
        } else {
            proof {
                assert(self.state@ =~~= arith_state(old(self).state@, instruction@));
            }
        }
        let mut message = "execute: arithmetic operation ".to_owned();
        message.append(instruction.mnemonic.as_str());
        let res = ExecutionResult {
            stage: ExecutionStage::Execute,
            instruction: Some(instruction.duplicate()),
            cpu_state: self.state.duplicate(),
            message,
            cycle_count: self.cycle_count,
        };
        proof {
            assert(res@.message =~= execute_msg(instruction@));
            assert(res@ =~~= (ResultV {
                stage: ExecutionStage::Execute,
                instruction: Some(instruction@),
                cpu_state: arith_state(old(self).state@, instruction@),
                message: execute_msg(instruction@),
                cycle_count: old(self).cycle_count,
            }));
        }
        Ok(res)
    }

    /// The Execute stage for a Logic instruction: recognized, logged,
    /// and deliberately a no-op on the state.
    fn execute_logic(&mut self, instruction: &Instruction) -> (r: Result<ExecutionResult, String>)
        requires
            instruction@.instruction_type == InstructionType::Logic,
        ensures
            final(self).state == old(self).state,
            final(self).instructions == old(self).instructions,
            final(self).current_instruction_index == old(self).current_instruction_index,
            final(self).cycle_count == old(self).cycle_count,
            final(self).execution_stage == ExecutionStage::WriteBack,
            r matches Ok(res) && res@ == (ResultV {
                stage: ExecutionStage::Execute,
                instruction: Some(instruction@),
                cpu_state: old(self).state@,
                message: execute_msg(instruction@),
                cycle_count: old(self).cycle_count,
            }),
    {
        self.execution_stage = ExecutionStage::WriteBack;
        let mut message = "execute: logic operation ".to_owned();
        message.append(instruction.mnemonic.as_str());
        let res = ExecutionResult {
            stage: ExecutionStage::Execute,
            instruction: Some(instruction.duplicate()),
            cpu_state: self.state.duplicate(),
            message,
            cycle_count: self.cycle_count,
        };
        proof {
            assert(res@.message =~= execute_msg(instruction@));
            assert(res@ =~~= (ResultV {
                stage: ExecutionStage::Execute,
                instruction: Some(instruction@),
                cpu_state: old(self).state@,
                message: execute_msg(instruction@),
                cycle_count: old(self).cycle_count,
            }));
        }
        Ok(res)
    }

    /// The Execute stage for a DataTransfer instruction: only a
    /// literal-to-register MOV changes the state.
    fn execute_data_transfer(&mut self, instruction: &Instruction) -> (r: Result<
        ExecutionResult,
        String,
    >)
        requires
            instruction@.instruction_type == InstructionType::DataTransfer,
        ensures
            final(self).state@ == data_transfer_state(old(self).state@, instruction@),
            final(self).instructions == old(self).instructions,
            final(self).current_instruction_index == old(self).current_instruction_index,
            final(self).cycle_count == old(self).cycle_count,
            final(self).execution_stage == ExecutionStage::WriteBack,
            r matches Ok(res) && res@ == (ResultV {
                stage: ExecutionStage::Execute,
                instruction: Some(instruction@),
                cpu_state: data_transfer_state(old(self).state@, instruction@),
                message: execute_msg(instruction@),
                cycle_count: old(self).cycle_count,
            }),
    {
        self.execution_stage = ExecutionStage::WriteBack;
        if str_eq(instruction.mnemonic.as_str(), "MOV") && instruction.operands.len() >= 2 {
            let dest = &instruction.operands[0];
            let src = &instruction.operands[1];
            match parse_i64(src.as_str()) {
                Some(value) => {
                    self.state.registers.general.write(dest.as_str(), value);
                    proof {
                        assert(instruction@.operands[0] == instruction.operands@[0]@);
                        assert(instruction@.operands[1] == instruction.operands@[1]@);
                        assert(self.state@ =~~= data_transfer_state(
                            old(self).state@,
                            instruction@,
                        ));
                    }
                },
                None => {
                    proof {
                        assert(instruction@.operands[1] == instruction.operands@[1]@);
                        assert(self.state@ =~~= data_transfer_state(
                            old(self).state@,
                            instruction@,
                        ));
                    }
                },
            }
        } else {
            proof {
                assert(self.state@ =~~= data_transfer_state(old(self).state@, instruction@));
            }
        }
        let mut message = "execute: data transfer ".to_owned();
        message.append(instruction.mnemonic.as_str());
        let res = ExecutionResult {
            stage: ExecutionStage::Execute,
            instruction: Some(instruction.duplicate()),
            cpu_state: self.state.duplicate(),
            message,
            cycle_count: self.cycle_count,
        };
        proof {
            assert(res@.message =~= execute_msg(instruction@));
            assert(res@ =~~= (ResultV {
                stage: ExecutionStage::Execute,
                instruction: Some(instruction@),
                cpu_state: data_transfer_state(old(self).state@, instruction@),
                message: execute_msg(instruction@),
                cycle_count: old(self).cycle_count,
            }));
        }
        Ok(res)
    }

    /// The Execute stage for a Control instruction: recognized, logged,
    /// and deliberately a no-op on the state.
    fn execute_control(&mut self, instruction: &Instruction) -> (r: Result<
        ExecutionResult,
        String,
    >)
        requires
            instruction@.instruction_type == InstructionType::Control,
        ensures
            final(self).state == old(self).state,
            final(self).instructions == old(self).instructions,
            final(self).current_instruction_index == old(self).current_instruction_index,
            final(self).cycle_count == old(self).cycle_count,
            final(self).execution_stage == ExecutionStage::WriteBack,
            r matches Ok(res) && res@ == (ResultV {
                stage: ExecutionStage::Execute,
                instruction: Some(instruction@),
                cpu_state: old(self).state@,
                message: execute_msg(instruction@),
                cycle_count: old(self).cycle_count,
            }),
    {
        self.execution_stage = ExecutionStage::WriteBack;
        let mut message = "execute: control flow ".to_owned();
        message.append(instruction.mnemonic.as_str());
        let res = ExecutionResult {
            stage: ExecutionStage::Execute,
            instruction: Some(instruction.duplicate()),
            cpu_state: self.state.duplicate(),
            message,
            cycle_count: self.cycle_count,
        };
        proof {
            assert(res@.message =~= execute_msg(instruction@));
            assert(res@ =~~= (ResultV {
                stage: ExecutionStage::Execute,
                instruction: Some(instruction@),
                cpu_state: old(self).state@,
                message: execute_msg(instruction@),
                cycle_count: old(self).cycle_count,
            }));
        }
        Ok(res)
    }

    /// The Execute stage: dispatches by instruction kind; a Memory-kind
    /// instruction defers its effect to the MemoryAccess stage.
    fn execute(&mut self, instruction: &Instruction) -> (r: Result<ExecutionResult, String>)
        ensures
            final(self).instructions == old(self).instructions,
            final(self).current_instruction_index == old(self).current_instruction_index,
            final(self).cycle_count == old(self).cycle_count,
            final(self).state@ == (match instruction@.instruction_type {
                InstructionType::Arithmetic => arith_state(old(self).state@, instruction@),
                InstructionType::DataTransfer => data_transfer_state(
                    old(self).state@,
                    instruction@,
                ),
                _ => old(self).state@,
            }),
            final(self).execution_stage == (if instruction@.instruction_type
                == InstructionType::Memory {
                ExecutionStage::MemoryAccess
            } else {
                ExecutionStage::WriteBack
            }),
            r matches Ok(res) && res@ == (ResultV {
                stage: ExecutionStage::Execute,
                instruction: Some(instruction@),
                cpu_state: final(self).state@,
                message: execute_msg(instruction@),
                cycle_count: old(self).cycle_count,
            }),
    {
        match instruction.instruction_type {
            InstructionType::Arithmetic => self.execute_arithmetic(instruction),
            InstructionType::Logic => self.execute_logic(instruction),
            InstructionType::DataTransfer => self.execute_data_transfer(instruction),
            InstructionType::Control => self.execute_control(instruction),
            InstructionType::Memory => {
                self.execution_stage = ExecutionStage::MemoryAccess;
                let message = "execute: preparing memory access".to_owned();
                let res = ExecutionResult {
                    stage: ExecutionStage::Execute,
                    instruction: Some(instruction.duplicate()),
                    cpu_state: self.state.duplicate(),
                    message,
                    cycle_count: self.cycle_count,
                };
                proof {
                    assert(res@ =~~= (ResultV {
                        stage: ExecutionStage::Execute,
                        instruction: Some(instruction@),
                        cpu_state: old(self).state@,
                        message: execute_msg(instruction@),
                        cycle_count: old(self).cycle_count,
                    }));
                }
                Ok(res)
            },
        }
    }

    /// The MemoryAccess stage: performs the store where the operands
    /// describe one, and moves to WriteBack.
    fn memory_access(&mut self, instruction: &Instruction) -> (r: Result<ExecutionResult, String>)
        ensures
            final(self).state@ == memory_access_state(old(self).state@, instruction@),
            final(self).instructions == old(self).instructions,
            final(self).current_instruction_index == old(self).current_instruction_index,
            final(self).cycle_count == old(self).cycle_count,
            final(self).execution_stage == ExecutionStage::WriteBack,
            r matches Ok(res) && res@ == (ResultV {
                stage: ExecutionStage::MemoryAccess,
                instruction: Some(instruction@),
                cpu_state: memory_access_state(old(self).state@, instruction@),
                message: memory_access_msg(instruction@),
                cycle_count: old(self).cycle_count,
            }),
    {
        self.execution_stage = ExecutionStage::WriteBack;
        if str_eq(instruction.mnemonic.as_str(), "MOV") && instruction.operands.len() >= 2 {
            let dest = &instruction.operands[0];
            let src = &instruction.operands[1];
            let dlen = dest.as_str().unicode_len();
            proof {
                assert(instruction@.operands[0] == instruction.operands@[0]@);
                assert(instruction@.operands[1] == instruction.operands@[1]@);
            }
            if dlen >= 1 && dest.as_str().get_char(0) == '[' && dest.as_str().get_char(dlen - 1)
                == ']' {
                let addr_str = dest.as_str().substring_char(1, dlen - 1);
                match parse_u32(addr_str) {
                    Some(addr) => {
                        match self.state.registers.general.get(src.as_str()) {
                            Some(value) => {
                                self.state.memory.data.write(addr as u64, value);
                                proof {
                                    assert(self.state@ =~~= memory_access_state(
                                        old(self).state@,
                                        instruction@,
                                    ));
                                }
                            },
                            None => {
                                proof {
                                    assert(self.state@ =~~= memory_access_state(
                                        old(self).state@,
                                        instruction@,
                                    ));
                                }
                            },
                        }
                    },
                    None => {
                        proof {
                            assert(self.state@ =~~= memory_access_state(
                                old(self).state@,
                                instruction@,
                            ));
                        }
                    },
                }
            } else {
                proof {
                    assert(self.state@ =~~= memory_access_state(old(self).state@, instruction@));
                }
            }
        } else {
            proof {
                assert(self.state@ =~~= memory_access_state(old(self).state@, instruction@));
            }
        }
        let mut message = "memory access: ".to_owned();
        message.append(instruction.description.as_str());
        let res = ExecutionResult {
            stage: ExecutionStage::MemoryAccess,
            instruction: Some(instruction.duplicate()),
            cpu_state: self.state.duplicate(),
            message,
            cycle_count: self.cycle_count,
        };
        proof {
            assert(res@.message =~= memory_access_msg(instruction@));
            assert(res@ =~~= (ResultV {
                stage: ExecutionStage::MemoryAccess,
                instruction: Some(instruction@),
                cpu_state: memory_access_state(old(self).state@, instruction@),
                message: memory_access_msg(instruction@),
                cycle_count: old(self).cycle_count,
            }));
        }
        Ok(res)
    }

    /// The WriteBack stage: increments the instruction-pointer special
    /// register where it is present, and moves to Complete.
    fn write_back(&mut self, instruction: &Instruction) -> (r: Result<ExecutionResult, String>)
        ensures
            final(self).state@ == write_back_state(old(self).state@),
            final(self).instructions == old(self).instructions,
            final(self).current_instruction_index == old(self).current_instruction_index,
            final(self).cycle_count == old(self).cycle_count,
            final(self).execution_stage == ExecutionStage::Complete,
            r matches Ok(res) && res@ == (ResultV {
                stage: ExecutionStage::WriteBack,
                instruction: Some(instruction@),
                cpu_state: write_back_state(old(self).state@),
                message: write_back_msg(instruction@),
                cycle_count: old(self).cycle_count,
            }),
    {
        self.execution_stage = ExecutionStage::Complete;
        match self.state.registers.special.get("EIP") {
            Some(eip) => {
                self.state.registers.special.write("EIP", wrap_add(eip, 1));
                proof {
                    assert(self.state@ =~~= write_back_state(old(self).state@));
                }
            },
            None => {
                proof {
                    assert(self.state@ =~~= write_back_state(old(self).state@));
                }
            },
        }
        let mut message = "write back: completing instruction ".to_owned();
        message.append(instruction.mnemonic.as_str());
        let res = ExecutionResult {
            stage: ExecutionStage::WriteBack,
            instruction: Some(instruction.duplicate()),
            cpu_state: self.state.duplicate(),
            message,
            cycle_count: self.cycle_count,
        };
        proof {
            assert(res@.message =~= write_back_msg(instruction@));
            assert(res@ =~~= (ResultV {
                stage: ExecutionStage::WriteBack,
                instruction: Some(instruction@),
                cpu_state: write_back_state(old(self).state@),
                message: write_back_msg(instruction@),
                cycle_count: old(self).cycle_count,
            }));
        }
        Ok(res)
    }

    /// Advances exactly one micro-stage and increments the cycle counter
    /// by one — every call, the terminal case included. A step past the
    /// end of the program returns a terminal result with the state
    /// untouched. Never fails.
    pub fn step(&mut self) -> (r: Result<ExecutionResult, String>)
        requires
            old(self).cycle_count < u64::MAX,
        ensures
            final(self)@ == sim_step(old(self)@).0,
            r matches Ok(res) && res@ == sim_step(old(self)@).1,
    {
        self.cycle_count = self.cycle_count + 1;
        if self.current_instruction_index >= self.instructions.len() {
            let res = ExecutionResult {
                stage: ExecutionStage::Complete,
                instruction: None,
                cpu_state: self.state.duplicate(),
                message: "program execution complete".to_owned(),
                cycle_count: self.cycle_count,
            };
            proof {
                assert(self@ =~~= sim_step(old(self)@).0);
                assert(res@ =~~= sim_step(old(self)@).1);
            }
            return Ok(res);
        }
        let instruction = self.instructions[self.current_instruction_index].duplicate();
        proof {
            assert(instruction@ == old(self)@.instructions[old(self)@.index]);
        }
        let result = match self.execution_stage {
            ExecutionStage::Fetch => self.fetch(&instruction),
            ExecutionStage::Decode => self.decode(&instruction),
            ExecutionStage::Execute => self.execute(&instruction),
            ExecutionStage::MemoryAccess => self.memory_access(&instruction),
            ExecutionStage::WriteBack => self.write_back(&instruction),
            ExecutionStage::Complete => {
                self.current_instruction_index += 1;
                self.execution_stage = ExecutionStage::Fetch;
                let res = ExecutionResult {
                    stage: ExecutionStage::Fetch,
                    instruction: None,
                    cpu_state: self.state.duplicate(),
                    message: "ready for the next instruction".to_owned(),
                    cycle_count: self.cycle_count,
                };
                Ok(res)
            },
        };
        proof {
            assert(self@ =~~= sim_step(old(self)@).0);
            match &result {
                Ok(res) => {
                    assert(res@ =~~= sim_step(old(self)@).1);
                },
                Err(_) => {
                    assert(false);
                },
            }
        }
        result
    }

    /// Reinitializes the architectural state to its all-zero default,
    /// the cursor to the start, the stage to Fetch and the cycle counter
    /// to zero. The loaded program is kept.
    pub fn reset(&mut self)
        ensures
            final(self)@ == (SimV {
                state: cpu_default(),
                instructions: old(self)@.instructions,
                index: 0,
                stage: ExecutionStage::Fetch,
                cycles: 0,
            }),
            final(self).instructions == old(self).instructions,
    {
        self.state = CPUState::default();
        self.current_instruction_index = 0;
        self.execution_stage = ExecutionStage::Fetch;
        self.cycle_count = 0;
        proof {
            assert(self@ =~~= (SimV {
                state: cpu_default(),
                instructions: old(self)@.instructions,
                index: 0,
                stage: ExecutionStage::Fetch,
                cycles: 0,
            }));
        }
    }
}

} // verus!
