use vm::{
    ALUOperation, Flags, HaltInterrupt, Instruction, JumpCondition, JumpTarget, Machine,
    MachineError, Memory, Registers, MEMORY_SIZE,
};

const STACK: u16 = 0x8000;

fn encode_all(program: &[Instruction]) -> Vec<u8> {
    let mut bytes = Vec::new();
    for instruction in program {
        bytes.extend(instruction.encode_u8().unwrap());
    }
    bytes
}

fn machine_with(program: &[Instruction]) -> Machine<HaltInterrupt> {
    let mut vm: Machine<HaltInterrupt> = Machine::new();
    vm.memory.load(&encode_all(program)).unwrap();
    vm.sp = STACK;
    vm
}

fn machine_with_memory(program: &[Instruction], size: u16) -> Machine<HaltInterrupt> {
    let mut vm: Machine<HaltInterrupt> = Machine::new();
    vm.memory = Memory::new(size);
    vm.memory.load(&encode_all(program)).unwrap();
    vm
}

fn run_steps(vm: &mut Machine<HaltInterrupt>, n: usize) {
    for _ in 0..n {
        vm.step().unwrap();
    }
}

const ALL_REGISTERS: [Registers; 8] = [
    Registers::A,
    Registers::B,
    Registers::C,
    Registers::D,
    Registers::E,
    Registers::F,
    Registers::H,
    Registers::L,
];

#[test]
fn new_machine_is_zeroed() {
    let vm: Machine<HaltInterrupt> = Machine::new();
    assert_eq!(vm.registers, [0u8; 8]);
    assert_eq!(vm.pc, 0);
    assert_eq!(vm.sp, 0);
    assert_eq!(vm.flags, 0);
    assert!(!vm.halt);
    assert_eq!(vm.memory.size(), MEMORY_SIZE);
    assert_eq!(vm.interrupts.len(), 16);
    assert!(vm.interrupts.iter().all(|h| h.is_none()));
}

#[test]
fn default_machine_is_new_machine() {
    let vm: Machine<HaltInterrupt> = Machine::default();
    assert_eq!(vm.registers, [0u8; 8]);
    assert_eq!(vm.memory.size(), MEMORY_SIZE);
    assert!(!vm.halt);
}

#[test]
fn get_and_set_register() {
    let mut vm: Machine<HaltInterrupt> = Machine::new();
    vm.set_register(Registers::H, 77);
    assert_eq!(vm.get_register(Registers::H), 77);
    assert_eq!(vm.registers[6], 77);
    assert_eq!(vm.get_register(Registers::A), 0);
}

#[test]
fn push_register_then_pop_register_restores_every_value() {
    for reg in ALL_REGISTERS {
        for v in 0..=255u8 {
            let mut vm = machine_with(&[Instruction::PushRegister(reg), Instruction::PopRegister(reg)]);
            vm.set_register(reg, v);
            vm.step().unwrap();
            assert_eq!(vm.sp, STACK + 1);
            vm.set_register(reg, v.wrapping_add(1));
            vm.step().unwrap();
            assert_eq!(vm.get_register(reg), v);
            assert_eq!(vm.sp, STACK);
        }
    }
}

#[test]
fn stack_order_push_push_add_pop() {
    let mut vm = machine_with(&[
        Instruction::Push(5),
        Instruction::Push(10),
        Instruction::AddStack,
        Instruction::PopRegister(Registers::A),
    ]);
    run_steps(&mut vm, 4);
    assert_eq!(vm.get_register(Registers::A), 15);
    assert!(!vm.is_flag_set(Flags::Overflow));
    assert_eq!(vm.sp, STACK);
}

#[test]
fn add_stack_sets_overflow_when_sum_wraps() {
    let mut vm = machine_with(&[Instruction::Push(200), Instruction::Push(100), Instruction::AddStack]);
    run_steps(&mut vm, 3);
    assert!(vm.is_flag_set(Flags::Overflow));
    assert_eq!(vm.sp, STACK + 1);
    assert_eq!(vm.memory.read(STACK).unwrap(), 44);
}

#[test]
fn add_stack_clears_overflow_at_255() {
    let mut vm = machine_with(&[Instruction::Push(200), Instruction::Push(55), Instruction::AddStack]);
    vm.set_flag(Flags::Overflow, true);
    run_steps(&mut vm, 3);
    assert!(!vm.is_flag_set(Flags::Overflow));
    assert_eq!(vm.memory.read(STACK).unwrap(), 255);
}

#[test]
fn add_stack_sets_overflow_at_256() {
    let mut vm = machine_with(&[Instruction::Push(200), Instruction::Push(56), Instruction::AddStack]);
    run_steps(&mut vm, 3);
    assert!(vm.is_flag_set(Flags::Overflow));
    assert_eq!(vm.memory.read(STACK).unwrap(), 0);
}

#[test]
fn add_stack_on_empty_stack_fails() {
    let mut vm = machine_with_memory(&[Instruction::AddStack], 0x100);
    vm.sp = 0;
    assert_eq!(vm.step(), Err(MachineError::OutOfBounds(0xFFFF)));
    assert_eq!(vm.sp, 0);
}

#[test]
fn stack_pointer_wraps_below_zero() {
    let mut vm = machine_with(&[Instruction::PopRegister(Registers::A)]);
    vm.sp = 0;
    vm.memory.write(0xFFFF, 33).unwrap();
    vm.step().unwrap();
    assert_eq!(vm.sp, 0xFFFF);
    assert_eq!(vm.get_register(Registers::A), 33);
}

#[test]
fn alu_sub_equal_values_sets_zero() {
    let mut vm = machine_with(&[Instruction::ALU(ALUOperation::Sub, Registers::B, Registers::C)]);
    vm.set_register(Registers::B, 5);
    vm.set_register(Registers::C, 5);
    vm.set_flag(Flags::Overflow, true);
    vm.step().unwrap();
    assert!(vm.is_flag_set(Flags::Zero));
    assert!(!vm.is_flag_set(Flags::Overflow));
    assert_eq!(vm.get_register(Registers::B), 0);
    assert_eq!(vm.get_register(Registers::C), 5);
}

#[test]
fn alu_sub_borrow_sets_overflow() {
    let mut vm = machine_with(&[Instruction::ALU(ALUOperation::Sub, Registers::A, Registers::B)]);
    vm.set_register(Registers::A, 3);
    vm.set_register(Registers::B, 5);
    vm.step().unwrap();
    assert_eq!(vm.get_register(Registers::A), 254);
    assert!(vm.is_flag_set(Flags::Overflow));
    assert!(!vm.is_flag_set(Flags::Zero));
}

#[test]
fn alu_add_wraps() {
    let mut vm = machine_with(&[Instruction::ALU(ALUOperation::Add, Registers::A, Registers::B)]);
    vm.set_register(Registers::A, 250);
    vm.set_register(Registers::B, 6);
    vm.step().unwrap();
    assert_eq!(vm.get_register(Registers::A), 0);
    assert!(vm.is_flag_set(Flags::Overflow));
    assert!(vm.is_flag_set(Flags::Zero));
}

#[test]
fn alu_mul_wraps() {
    let mut vm = machine_with(&[
        Instruction::ALU(ALUOperation::Mul, Registers::D, Registers::E),
        Instruction::ALU(ALUOperation::Mul, Registers::F, Registers::E),
    ]);
    vm.set_register(Registers::D, 20);
    vm.set_register(Registers::E, 13);
    vm.set_register(Registers::F, 3);
    vm.step().unwrap();
    assert_eq!(vm.get_register(Registers::D), 4);
    assert!(vm.is_flag_set(Flags::Overflow));
    vm.step().unwrap();
    assert_eq!(vm.get_register(Registers::F), 39);
    assert!(!vm.is_flag_set(Flags::Overflow));
}

#[test]
fn alu_div_truncates() {
    let mut vm = machine_with(&[Instruction::ALU(ALUOperation::Div, Registers::H, Registers::L)]);
    vm.set_register(Registers::H, 17);
    vm.set_register(Registers::L, 5);
    vm.step().unwrap();
    assert_eq!(vm.get_register(Registers::H), 3);
    assert!(!vm.is_flag_set(Flags::Overflow));
    assert!(!vm.is_flag_set(Flags::Zero));
}

#[test]
fn alu_div_by_zero_fails_and_keeps_register() {
    let mut vm = machine_with(&[Instruction::ALU(ALUOperation::Div, Registers::A, Registers::B)]);
    vm.set_register(Registers::A, 42);
    assert_eq!(vm.step(), Err(MachineError::DivideByZero));
    assert_eq!(vm.get_register(Registers::A), 42);
    assert_eq!(vm.flags, 0);
    assert_eq!(vm.pc, 2);
}

#[test]
fn load_immediate_load_memory_and_store() {
    let mut vm = machine_with(&[
        Instruction::LoadImmediate(Registers::C, 99),
        Instruction::Store(Registers::C, 0x1234),
        Instruction::LoadMemory(Registers::D, 0x1234),
    ]);
    run_steps(&mut vm, 3);
    assert_eq!(vm.memory.read(0x1234).unwrap(), 99);
    assert_eq!(vm.get_register(Registers::D), 99);
    assert_eq!(vm.pc, 8);
}

#[test]
fn load_memory_out_of_bounds_fails() {
    let mut vm = machine_with_memory(&[Instruction::LoadMemory(Registers::A, 0x0100)], 0x100);
    assert_eq!(vm.step(), Err(MachineError::OutOfBounds(0x0100)));
    assert_eq!(vm.pc, 3);
    assert_eq!(vm.get_register(Registers::A), 0);
}

#[test]
fn store_out_of_bounds_fails() {
    let mut vm = machine_with_memory(&[Instruction::Store(Registers::A, 0x0200)], 0x100);
    assert_eq!(vm.step(), Err(MachineError::OutOfBounds(0x0200)));
}

#[test]
fn jump_sets_pc() {
    let mut vm = machine_with(&[Instruction::Jump(JumpTarget::Address(0x0400))]);
    vm.step().unwrap();
    assert_eq!(vm.pc, 0x0400);
}

// Conditions read the flags of the last arithmetic instruction, as after
// `ALU Sub x y`: LT is Overflow (x < y), EQ is Zero, NEQ is not Zero, GE is
// not Overflow, GT is neither, LE is either.
fn taken_after_sub(x: u8, y: u8, condition: JumpCondition) -> bool {
    let mut vm = machine_with(&[
        Instruction::ALU(ALUOperation::Sub, Registers::A, Registers::B),
        Instruction::JumpConditional(condition, JumpTarget::Address(0x0300)),
    ]);
    vm.set_register(Registers::A, x);
    vm.set_register(Registers::B, y);
    run_steps(&mut vm, 2);
    match vm.pc {
        0x0300 => true,
        5 => false,
        other => panic!("unexpected pc {}", other),
    }
}

#[test]
fn jump_conditional_follows_comparison_flags() {
    let cases = [(3u8, 5u8), (5, 5), (7, 5)];
    for (x, y) in cases {
        assert_eq!(taken_after_sub(x, y, JumpCondition::LT), x < y);
        assert_eq!(taken_after_sub(x, y, JumpCondition::GT), x > y);
        assert_eq!(taken_after_sub(x, y, JumpCondition::EQ), x == y);
        assert_eq!(taken_after_sub(x, y, JumpCondition::NEQ), x != y);
        assert_eq!(taken_after_sub(x, y, JumpCondition::GE), x >= y);
        assert_eq!(taken_after_sub(x, y, JumpCondition::LE), x <= y);
    }
}

#[test]
fn unhandled_signal_fails_and_moves_only_pc() {
    let mut vm: Machine<HaltInterrupt> = Machine::new();
    vm.memory.write(0, 0xFF).unwrap();
    vm.set_register(Registers::B, 9);
    vm.sp = 0x10;
    vm.flags = 3;
    let registers = vm.registers;
    assert_eq!(vm.step(), Err(MachineError::UnknownSignal(0xF)));
    assert_eq!(vm.pc, 1);
    assert_eq!(vm.sp, 0x10);
    assert_eq!(vm.flags, 3);
    assert_eq!(vm.registers, registers);
    assert!(!vm.halt);
}

#[test]
fn halt_interrupt_handler_halts() {
    let mut vm = machine_with(&[Instruction::Interrupt(0xF)]);
    vm.define_interrupt(0xF, HaltInterrupt);
    vm.step().unwrap();
    assert!(vm.halt);
    assert_eq!(vm.pc, 1);
}

#[test]
fn halt_interrupt_sets_halt() {
    let mut vm: Machine<HaltInterrupt> = Machine::new();
    assert!(vm_halt(&mut vm).is_ok());
    assert!(vm.halt);
}

fn vm_halt(vm: &mut Machine<HaltInterrupt>) -> Result<(), MachineError> {
    vm::halt_interrupt(vm)
}

#[test]
fn define_interrupt_only_for_its_signal() {
    let mut vm = machine_with(&[Instruction::Interrupt(3)]);
    vm.define_interrupt(0xF, HaltInterrupt);
    assert_eq!(vm.step(), Err(MachineError::UnknownSignal(3)));
    assert!(!vm.halt);
}

#[test]
fn unknown_opcode_fails() {
    let mut vm: Machine<HaltInterrupt> = Machine::new();
    vm.memory.write(0, 0xB0).unwrap();
    assert_eq!(vm.step(), Err(MachineError::UnknownOpcode(0xB0)));
    assert_eq!(vm.pc, 1);
}

#[test]
fn unknown_alu_operation_fails() {
    let mut vm: Machine<HaltInterrupt> = Machine::new();
    vm.memory.write(0, 0x84).unwrap();
    assert_eq!(vm.step(), Err(MachineError::UnknownOpcode(0x84)));
}

#[test]
fn invalid_register_code_fails() {
    let mut vm: Machine<HaltInterrupt> = Machine::new();
    vm.memory.write(0, 0x28).unwrap();
    assert_eq!(vm.step(), Err(MachineError::InvalidRegisterCode(8)));
    assert_eq!(vm.pc, 1);
}

#[test]
fn invalid_alu_register_pair_fails_after_fetch() {
    let mut vm: Machine<HaltInterrupt> = Machine::new();
    vm.memory.load(&[0x80, 0x19]).unwrap();
    assert_eq!(vm.step(), Err(MachineError::InvalidRegisterCode(9)));
    assert_eq!(vm.pc, 2);
}

#[test]
fn fetch_past_memory_fails() {
    let mut vm = machine_with_memory(&[], 0x10);
    vm.pc = 0x10;
    assert_eq!(vm.step(), Err(MachineError::OutOfBounds(0x10)));
    assert_eq!(vm.pc, 0x10);
}

#[test]
fn operand_fetch_past_memory_fails() {
    let mut vm = machine_with_memory(&[], 0x10);
    vm.memory.write(0x0F, 0x90).unwrap();
    vm.pc = 0x0F;
    assert_eq!(vm.step(), Err(MachineError::OutOfBounds(0x10)));
    assert_eq!(vm.pc, 0x10);
}

#[test]
fn program_counter_wraps_to_zero() {
    let mut vm = machine_with(&[]);
    vm.pc = 0xFFFF;
    vm.step().unwrap();
    assert_eq!(vm.pc, 0);
}

#[test]
fn push_at_end_of_memory_fails() {
    let mut vm = machine_with_memory(&[Instruction::Push(1)], 0x10);
    vm.sp = 0x10;
    assert_eq!(vm.step(), Err(MachineError::OutOfBounds(0x10)));
    assert_eq!(vm.sp, 0x10);
}

#[test]
fn flags_are_independent_bits() {
    let mut vm: Machine<HaltInterrupt> = Machine::new();
    vm.set_flag(Flags::Zero, true);
    vm.set_flag(Flags::Overflow, true);
    assert_eq!(vm.flags, 3);
    vm.clear_flag(Flags::Zero);
    assert!(!vm.is_flag_set(Flags::Zero));
    assert!(vm.is_flag_set(Flags::Overflow));
    vm.set_flag(Flags::Overflow, false);
    assert_eq!(vm.flags, 0);
    assert_eq!(Flags::Zero.mask(), 1);
    assert_eq!(Flags::Overflow.mask(), 2);
}

#[test]
fn decode_reads_back_every_encoding() {
    let program = [
        Instruction::Nop,
        Instruction::LoadImmediate(Registers::A, 7),
        Instruction::LoadImmediate(Registers::B, 9),
        Instruction::PushRegister(Registers::A),
        Instruction::Push(3),
        Instruction::AddStack,
        Instruction::PopRegister(Registers::C),
        Instruction::ALU(ALUOperation::Add, Registers::C, Registers::B),
        Instruction::Store(Registers::C, 0x2000),
        Instruction::LoadMemory(Registers::D, 0x2000),
        Instruction::Jump(JumpTarget::Address(0x0020)),
    ];
    let mut vm = machine_with(&program);
    run_steps(&mut vm, program.len());
    assert_eq!(vm.get_register(Registers::C), 19);
    assert_eq!(vm.get_register(Registers::D), 19);
    assert_eq!(vm.pc, 0x0020);
}
