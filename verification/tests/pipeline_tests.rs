use staged_cpu::compile;
use staged_cpu::types::{InstructionType, SimulatorState, CPUState};

#[test]
fn compile_reports_success_with_no_diagnostics() {
    let result = compile("int x = 5;");
    assert!(result.success);
    assert!(result.errors.is_empty());
    assert!(result.warnings.is_empty());
    assert_eq!(result.compilation_time, 150);
    assert_eq!(result.instructions.len(), 2);
    assert_eq!(
        result.instructions[0].instruction_type,
        InstructionType::DataTransfer
    );
    assert_eq!(result.instructions[1].instruction_type, InstructionType::Memory);
}

#[test]
fn compile_is_fail_soft_on_malformed_input() {
    let result = compile("@@ ??? $$$");
    assert!(result.success);
    assert!(result.errors.is_empty());
    assert_eq!(result.instructions.len(), 0);
}

#[test]
fn compile_empty_source() {
    let result = compile("");
    assert!(result.success);
    assert_eq!(result.instructions.len(), 0);
}

#[test]
fn compile_descriptions_are_human_readable() {
    let result = compile("int x = 5;");
    assert_eq!(result.instructions[0].description, "load value 5 into EAX");
    assert_eq!(
        result.instructions[1].description,
        "store EAX to memory address 1000"
    );
}

#[test]
fn default_simulator_state_is_stopped_and_empty() {
    let state = SimulatorState::default();
    assert!(!state.is_running);
    assert!(!state.is_paused);
    assert_eq!(state.current_step, 0);
    assert_eq!(state.total_steps, 0);
    assert_eq!(state.execution_speed, 1);
    assert!(state.breakpoints.is_empty());
    assert!(state.source_code.is_none());
    assert!(state.compilation_steps.is_empty());
    assert!(state.instructions.is_empty());
    assert_eq!(state.cpu_state.program_counter, 0);
}

#[test]
fn default_cpu_state_is_all_zero() {
    let state = CPUState::default();
    assert_eq!(state.registers.general.get("EAX"), None);
    assert_eq!(state.registers.general.read("EAX"), 0);
    assert_eq!(state.memory.data.get(0), None);
    assert!(!state.flags.zero);
    assert_eq!(state.program_counter, 0);
    assert_eq!(state.stack_pointer, 0);
    assert!(state.current_instruction.is_none());
}
