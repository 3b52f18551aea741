use staged_cpu::compile;
use staged_cpu::cpu_simulator::CPUSimulator;
use staged_cpu::types::{ExecutionStage, Instruction, InstructionType};

fn instruction(
    kind: InstructionType,
    mnemonic: &str,
    operands: Vec<&str>,
    cycles: u32,
) -> Instruction {
    Instruction {
        id: "test".to_string(),
        instruction_type: kind,
        mnemonic: mnemonic.to_string(),
        operands: operands.into_iter().map(|s| s.to_string()).collect(),
        machine_code: String::new(),
        description: "test instruction".to_string(),
        cycles,
    }
}

#[test]
fn step_visits_stages_in_order() {
    let compiled = compile("int x = 5;");
    let mut sim = CPUSimulator::new();
    sim.load_instructions(compiled.instructions);

    // Non-memory instruction: Fetch, Decode, Execute, WriteBack, Complete.
    let expected_first = [
        ExecutionStage::Fetch,
        ExecutionStage::Decode,
        ExecutionStage::Execute,
        ExecutionStage::WriteBack,
        ExecutionStage::Complete,
    ];
    for (k, expected) in expected_first.iter().enumerate() {
        assert_eq!(sim.execution_stage, *expected);
        let res = sim.step().unwrap();
        assert_eq!(res.cycle_count, (k + 1) as u64);
    }

    // Memory instruction: Fetch, Decode, Execute, MemoryAccess, WriteBack,
    // Complete.
    let expected_second = [
        ExecutionStage::Fetch,
        ExecutionStage::Decode,
        ExecutionStage::Execute,
        ExecutionStage::MemoryAccess,
        ExecutionStage::WriteBack,
        ExecutionStage::Complete,
    ];
    for (k, expected) in expected_second.iter().enumerate() {
        assert_eq!(sim.execution_stage, *expected);
        let res = sim.step().unwrap();
        assert_eq!(res.cycle_count, (5 + k + 1) as u64);
    }
}

#[test]
fn executing_generated_program_stores_value_in_memory() {
    let compiled = compile("int x = 5;");
    let mut sim = CPUSimulator::new();
    sim.load_instructions(compiled.instructions);
    for _ in 0..11 {
        sim.step().unwrap();
    }
    assert_eq!(sim.state.registers.general.get("EAX"), Some(5));
    assert_eq!(sim.state.memory.data.get(1000), Some(5));
}

#[test]
fn add_with_absent_first_register_defaults_to_zero() {
    let mut sim = CPUSimulator::new();
    sim.state.registers.general.write("B", 3);
    sim.state.flags.carry = true;
    sim.state.flags.overflow = true;
    sim.load_instructions(vec![instruction(
        InstructionType::Arithmetic,
        "ADD",
        vec!["A", "B"],
        1,
    )]);
    sim.step().unwrap(); // Fetch
    sim.step().unwrap(); // Decode
    let res = sim.step().unwrap(); // Execute
    assert_eq!(res.stage, ExecutionStage::Execute);
    assert_eq!(sim.state.registers.general.get("A"), Some(3));
    assert!(!sim.state.flags.zero);
    assert!(!sim.state.flags.negative);
    // carry and overflow are structurally present but never computed.
    assert!(sim.state.flags.carry);
    assert!(sim.state.flags.overflow);
}

#[test]
fn sub_sets_zero_and_negative_flags() {
    let mut sim = CPUSimulator::new();
    sim.state.registers.general.write("A", 2);
    sim.state.registers.general.write("B", 5);
    sim.load_instructions(vec![instruction(
        InstructionType::Arithmetic,
        "SUB",
        vec!["A", "B"],
        1,
    )]);
    for _ in 0..3 {
        sim.step().unwrap();
    }
    assert_eq!(sim.state.registers.general.get("A"), Some(-3));
    assert!(!sim.state.flags.zero);
    assert!(sim.state.flags.negative);
}

#[test]
fn mov_literal_writes_register() {
    let mut sim = CPUSimulator::new();
    sim.load_instructions(vec![instruction(
        InstructionType::DataTransfer,
        "MOV",
        vec!["ECX", "42"],
        1,
    )]);
    for _ in 0..3 {
        sim.step().unwrap();
    }
    assert_eq!(sim.state.registers.general.get("ECX"), Some(42));
}

#[test]
fn mov_register_to_register_is_not_implemented() {
    let mut sim = CPUSimulator::new();
    sim.state.registers.general.write("EBX", 9);
    sim.load_instructions(vec![instruction(
        InstructionType::DataTransfer,
        "MOV",
        vec!["ECX", "EBX"],
        1,
    )]);
    for _ in 0..3 {
        sim.step().unwrap();
    }
    assert_eq!(sim.state.registers.general.get("ECX"), None);
}

#[test]
fn mov_out_of_range_literal_is_ignored() {
    let mut sim = CPUSimulator::new();
    sim.load_instructions(vec![instruction(
        InstructionType::DataTransfer,
        "MOV",
        vec!["ECX", "9223372036854775808"],
        1,
    )]);
    for _ in 0..3 {
        sim.step().unwrap();
    }
    assert_eq!(sim.state.registers.general.get("ECX"), None);
}

#[test]
fn memory_store_requires_present_source_register() {
    let mut sim = CPUSimulator::new();
    sim.load_instructions(vec![instruction(
        InstructionType::Memory,
        "MOV",
        vec!["[1000]", "EAX"],
        2,
    )]);
    for _ in 0..4 {
        sim.step().unwrap();
    }
    // EAX was never written, so the store does nothing.
    assert_eq!(sim.state.memory.data.get(1000), None);
}

#[test]
fn memory_store_with_unparsable_address_is_ignored() {
    let mut sim = CPUSimulator::new();
    sim.state.registers.general.write("EAX", 5);
    sim.load_instructions(vec![instruction(
        InstructionType::Memory,
        "MOV",
        vec!["[abc]", "EAX"],
        2,
    )]);
    for _ in 0..4 {
        sim.step().unwrap();
    }
    assert_eq!(sim.state.memory.data.get(1000), None);
}

#[test]
fn logic_and_control_instructions_are_observable_no_ops() {
    let mut sim = CPUSimulator::new();
    sim.state.registers.general.write("A", 7);
    sim.load_instructions(vec![
        instruction(InstructionType::Logic, "AND", vec!["A", "A"], 1),
        instruction(InstructionType::Control, "JMP", vec!["A"], 1),
    ]);
    for _ in 0..10 {
        sim.step().unwrap();
    }
    assert_eq!(sim.state.registers.general.get("A"), Some(7));
    assert!(!sim.state.flags.zero);
}

#[test]
fn write_back_increments_instruction_pointer_when_present() {
    let mut sim = CPUSimulator::new();
    sim.state.registers.special.write("EIP", 7);
    sim.load_instructions(vec![instruction(
        InstructionType::Control,
        "NOP",
        vec![],
        1,
    )]);
    for _ in 0..4 {
        sim.step().unwrap();
    }
    assert_eq!(sim.state.registers.special.get("EIP"), Some(8));
}

#[test]
fn write_back_without_instruction_pointer_changes_nothing() {
    let mut sim = CPUSimulator::new();
    sim.load_instructions(vec![instruction(
        InstructionType::Control,
        "NOP",
        vec![],
        1,
    )]);
    for _ in 0..4 {
        sim.step().unwrap();
    }
    assert_eq!(sim.state.registers.special.get("EIP"), None);
}

#[test]
fn reset_zeroes_state_but_keeps_program() {
    let compiled = compile("int x = 5;");
    let mut sim = CPUSimulator::new();
    sim.load_instructions(compiled.instructions);
    for _ in 0..11 {
        sim.step().unwrap();
    }
    sim.state.registers.special.write("EIP", 3);
    assert_eq!(sim.instructions.len(), 2);

    sim.reset();

    assert_eq!(sim.instructions.len(), 2);
    assert_eq!(sim.cycle_count, 0);
    assert_eq!(sim.current_instruction_index, 0);
    assert_eq!(sim.execution_stage, ExecutionStage::Fetch);
    assert_eq!(sim.state.registers.general.get("EAX"), None);
    assert_eq!(sim.state.registers.general.read("EAX"), 0);
    assert_eq!(sim.state.registers.special.get("EIP"), None);
    assert_eq!(sim.state.memory.data.get(1000), None);
    assert_eq!(sim.state.memory.stack.len(), 0);
    assert!(!sim.state.flags.zero);
    assert!(!sim.state.flags.carry);
    assert!(!sim.state.flags.overflow);
    assert!(!sim.state.flags.negative);
    assert!(!sim.state.flags.parity);
    assert_eq!(sim.state.program_counter, 0);
    assert_eq!(sim.state.stack_pointer, 0);
}

#[test]
fn stepping_past_the_end_is_terminal_and_counts_cycles() {
    let mut sim = CPUSimulator::new();
    sim.state.registers.general.write("A", 11);
    sim.load_instructions(vec![instruction(
        InstructionType::Control,
        "NOP",
        vec![],
        1,
    )]);
    for _ in 0..5 {
        sim.step().unwrap();
    }
    let mut last_cycle = sim.cycle_count;
    for _ in 0..3 {
        let res = sim.step().unwrap();
        assert_eq!(res.stage, ExecutionStage::Complete);
        assert!(res.instruction.is_none());
        assert_eq!(res.message, "program execution complete");
        assert!(res.cycle_count > last_cycle);
        last_cycle = res.cycle_count;
        // The architectural state is untouched.
        assert_eq!(res.cpu_state.registers.general.get("A"), Some(11));
        assert_eq!(sim.state.registers.general.get("A"), Some(11));
    }
}

#[test]
fn step_with_nothing_loaded_is_terminal() {
    let mut sim = CPUSimulator::new();
    let res = sim.step().unwrap();
    assert_eq!(res.stage, ExecutionStage::Complete);
    assert!(res.instruction.is_none());
    assert_eq!(res.cycle_count, 1);
}

#[test]
fn fetch_result_snapshots_the_instruction() {
    let mut sim = CPUSimulator::new();
    sim.load_instructions(vec![instruction(
        InstructionType::DataTransfer,
        "MOV",
        vec!["EAX", "1"],
        1,
    )]);
    let res = sim.step().unwrap();
    assert_eq!(res.stage, ExecutionStage::Fetch);
    let snapshot = res.instruction.unwrap();
    assert_eq!(snapshot.mnemonic, "MOV");
    assert_eq!(res.message, "fetch: reading instruction MOV from address 0x0");
}

#[test]
fn decode_message_joins_operands() {
    let mut sim = CPUSimulator::new();
    sim.load_instructions(vec![instruction(
        InstructionType::Arithmetic,
        "ADD",
        vec!["A", "B"],
        1,
    )]);
    sim.step().unwrap();
    let res = sim.step().unwrap();
    assert_eq!(res.stage, ExecutionStage::Decode);
    assert_eq!(res.message, "decode: parsing instruction ADD A, B");
}

#[test]
fn add_wraps_on_overflow() {
    let mut sim = CPUSimulator::new();
    sim.state.registers.general.write("A", i64::MAX);
    sim.state.registers.general.write("B", 1);
    sim.load_instructions(vec![instruction(
        InstructionType::Arithmetic,
        "ADD",
        vec!["A", "B"],
        1,
    )]);
    for _ in 0..3 {
        sim.step().unwrap();
    }
    assert_eq!(sim.state.registers.general.get("A"), Some(i64::MIN));
    assert!(sim.state.flags.negative);
}
