use vstd::prelude::*;

use crate::error::MachineError;
use crate::instructions::{ALUOperation, Instruction, InstructionModel, JumpCondition, JumpTarget, TargetModel};
use crate::interrupts::InterruptHandler;
use crate::memory::{Memory, ADDRESS_SPACE};
use crate::registers::{Flags, Registers};

verus! {

/// Size of the memory of a new machine: a byte at every 16-bit address.
pub const MEMORY_SIZE: usize = ADDRESS_SPACE;

/// Number of interrupt signals an `Interrupt` instruction can raise.
pub const SIGNALS: usize = 16;

/// The 8-bit machine: register file, memory, program counter, stack
/// pointer, flags, halt indicator and interrupt table.
pub struct Machine<H> {
    pub registers: [u8; 8],
    pub halt: bool,
    pub memory: Memory,
    pub pc: u16,
    pub sp: u16,
    pub flags: u8,
    /// The handler of each signal, indexed by signal.
    pub interrupts: Vec<Option<H>>,
}

/// Everything an instruction can read or change, but the interrupt table.
pub struct MachineView {
    pub registers: Seq<u8>,
    pub memory: Seq<u8>,
    pub pc: u16,
    pub sp: u16,
    pub flags: u8,
    pub halt: bool,
}

impl<H> View for Machine<H> {
    type V = MachineView;

    open spec fn view(&self) -> MachineView {
        MachineView {
            registers: self.registers@,
            memory: self.memory@,
            pc: self.pc,
            sp: self.sp,
            flags: self.flags,
            halt: self.halt,
        }
    }
}

/// `x + 1`, wrapping from the largest address to 0.
pub open spec fn next_address(x: u16) -> u16 {
    if x == u16::MAX {
        0
    } else {
        (x + 1) as u16
    }
}

/// `x - 1`, wrapping from 0 to the largest address.
pub open spec fn previous_address(x: u16) -> u16 {
    if x == 0 {
        u16::MAX
    } else {
        (x - 1) as u16
    }
}

/// Result byte and overflow of an ALU operation; a `Div` here has a
/// divisor other than zero.
pub open spec fn alu_result(op: ALUOperation, a: u8, b: u8) -> (u8, bool) {
    match op {
        ALUOperation::Add => (((a + b) % 256) as u8, a + b >= 256),
        ALUOperation::Sub => (((a - b + 256) % 256) as u8, a < b),
        ALUOperation::Mul => (((a * b) % 256) as u8, a * b >= 256),
        ALUOperation::Div => ((a / b) as u8, false),
    }
}

impl MachineView {
    pub open spec fn reg(self, r: Registers) -> u8 {
        self.registers[r.ordinal() as int]
    }

    pub open spec fn with_reg(self, r: Registers, v: u8) -> MachineView {
        MachineView { registers: self.registers.update(r.ordinal() as int, v), ..self }
    }

    pub open spec fn flag(self, f: Flags) -> bool {
        self.flags & f.spec_mask() != 0
    }

    /// Sets (`on`) or clears the bit of `f`, and no other.
    pub open spec fn with_flag(self, f: Flags, on: bool) -> MachineView {
        MachineView {
            flags: if on {
                self.flags | f.spec_mask()
            } else {
                self.flags & !f.spec_mask()
            },
            ..self
        }
    }

    /// Reads the byte at the program counter and moves past it.
    pub open spec fn fetch(self) -> (MachineView, Result<u8, MachineError>) {
        if self.pc < self.memory.len() {
            (MachineView { pc: next_address(self.pc), ..self }, Ok(self.memory[self.pc as int]))
        } else {
            (self, Err(MachineError::OutOfBounds(self.pc)))
        }
    }

    /// Fetches a big-endian address: high byte, then low byte.
    pub open spec fn fetch_address(self) -> (MachineView, Result<u16, MachineError>) {
        let (s1, hi) = self.fetch();
        match hi {
            Err(e) => (s1, Err(e)),
            Ok(hi) => {
                let (s2, lo) = s1.fetch();
                match lo {
                    Err(e) => (s2, Err(e)),
                    Ok(lo) => (s2, Ok((hi * 256 + lo) as u16)),
                }
            },
        }
    }

    /// Writes `v` at the stack pointer, then moves the stack pointer up.
    pub open spec fn push(self, v: u8) -> (MachineView, Result<(), MachineError>) {
        if self.sp < self.memory.len() {
            (
                MachineView {
                    memory: self.memory.update(self.sp as int, v),
                    sp: next_address(self.sp),
                    ..self
                },
                Ok(()),
            )
        } else {
            (self, Err(MachineError::OutOfBounds(self.sp)))
        }
    }

    /// Moves the stack pointer down, then reads the byte there.
    pub open spec fn pop(self) -> (MachineView, Result<u8, MachineError>) {
        let a = previous_address(self.sp);
        if a < self.memory.len() {
            (MachineView { sp: a, ..self }, Ok(self.memory[a as int]))
        } else {
            (self, Err(MachineError::OutOfBounds(a)))
        }
    }

    /// Whether a conditional jump is taken, read from the flags that the
    /// last arithmetic instruction left (for `ALU Sub x y`: `Overflow` when
    /// x < y, `Zero` when x == y).
    pub open spec fn condition_holds(self, c: JumpCondition) -> bool {
        let below = self.flag(Flags::Overflow);
        let equal = self.flag(Flags::Zero);
        match c {
            JumpCondition::LT => below,
            JumpCondition::GT => !below && !equal,
            JumpCondition::EQ => equal,
            JumpCondition::NEQ => !equal,
            JumpCondition::GE => !below,
            JumpCondition::LE => below || equal,
        }
    }

    /// Decodes the instruction whose first byte is `opcode`, fetching its
    /// operand bytes.
    pub open spec fn decode(self, opcode: u8) -> (MachineView, Result<InstructionModel, MachineError>) {
        let args = opcode % 16;
        let family = opcode / 16;
        if family == 0x0 {
            (self, Ok(InstructionModel::Nop))
        } else if family == 0x1 {
            let (s1, v) = self.fetch();
            match v {
                Err(e) => (s1, Err(e)),
                Ok(v) => (s1, Ok(InstructionModel::Push(v))),
            }
        } else if family == 0x2 || family == 0x3 {
            match Registers::with_ordinal(args) {
                None => (self, Err(MachineError::InvalidRegisterCode(args))),
                Some(r) => (
                    self,
                    Ok(
                        if family == 0x2 {
                            InstructionModel::PopRegister(r)
                        } else {
                            InstructionModel::PushRegister(r)
                        },
                    ),
                ),
            }
        } else if family == 0x4 {
            (self, Ok(InstructionModel::AddStack))
        } else if family == 0x5 {
            match Registers::with_ordinal(args) {
                None => (self, Err(MachineError::InvalidRegisterCode(args))),
                Some(r) => {
                    let (s1, v) = self.fetch();
                    match v {
                        Err(e) => (s1, Err(e)),
                        Ok(v) => (s1, Ok(InstructionModel::LoadImmediate(r, v))),
                    }
                },
            }
        } else if family == 0x6 || family == 0x7 {
            match Registers::with_ordinal(args) {
                None => (self, Err(MachineError::InvalidRegisterCode(args))),
                Some(r) => {
                    let (s1, a) = self.fetch_address();
                    match a {
                        Err(e) => (s1, Err(e)),
                        Ok(a) => (
                            s1,
                            Ok(
                                if family == 0x6 {
                                    InstructionModel::LoadMemory(r, a)
                                } else {
                                    InstructionModel::Store(r, a)
                                },
                            ),
                        ),
                    }
                },
            }
        } else if family == 0x8 {
            match ALUOperation::with_ordinal(args) {
                None => (self, Err(MachineError::UnknownOpcode(opcode))),
                Some(op) => {
                    let (s1, pair) = self.fetch();
                    match pair {
                        Err(e) => (s1, Err(e)),
                        Ok(pair) => match Registers::with_ordinal(pair / 16) {
                            None => (s1, Err(MachineError::InvalidRegisterCode(pair / 16))),
                            Some(r1) => match Registers::with_ordinal(pair % 16) {
                                None => (s1, Err(MachineError::InvalidRegisterCode(pair % 16))),
                                Some(r2) => (s1, Ok(InstructionModel::ALU(op, r1, r2))),
                            },
                        },
                    }
                },
            }
        } else if family == 0x9 {
            let (s1, a) = self.fetch_address();
            match a {
                Err(e) => (s1, Err(e)),
                Ok(a) => (s1, Ok(InstructionModel::Jump(TargetModel::Address(a)))),
            }
        } else if family == 0xA {
            match JumpCondition::with_ordinal(args) {
                None => (self, Err(MachineError::UnknownOpcode(opcode))),
                Some(c) => {
                    let (s1, a) = self.fetch_address();
                    match a {
                        Err(e) => (s1, Err(e)),
                        Ok(a) => (s1, Ok(InstructionModel::JumpConditional(c, TargetModel::Address(a)))),
                    }
                },
            }
        } else if family == 0xF {
            (self, Ok(InstructionModel::Interrupt(args)))
        } else {
            (self, Err(MachineError::UnknownOpcode(opcode)))
        }
    }

    /// Fetches and decodes the instruction at the program counter.
    pub open spec fn fetch_decode(self) -> (MachineView, Result<InstructionModel, MachineError>) {
        let (s1, opcode) = self.fetch();
        match opcode {
            Err(e) => (s1, Err(e)),
            Ok(opcode) => s1.decode(opcode),
        }
    }

    /// The effect of one instruction. An `Interrupt` is shown as it goes
    /// when no handler is registered for its signal.
    pub open spec fn execute(self, ins: InstructionModel) -> (MachineView, Result<(), MachineError>) {
        match ins {
            InstructionModel::Nop => (self, Ok(())),
            InstructionModel::Push(v) => self.push(v),
            InstructionModel::PopRegister(r) => {
                let (s1, v) = self.pop();
                match v {
                    Err(e) => (s1, Err(e)),
                    Ok(v) => (s1.with_reg(r, v), Ok(())),
                }
            },
            InstructionModel::PushRegister(r) => self.push(self.reg(r)),
            InstructionModel::AddStack => {
                let (s1, a) = self.pop();
                match a {
                    Err(e) => (s1, Err(e)),
                    Ok(a) => {
                        let (s2, b) = s1.pop();
                        match b {
                            Err(e) => (s2, Err(e)),
                            Ok(b) => {
                                let (s3, pushed) = s2.push(((a + b) % 256) as u8);
                                match pushed {
                                    Err(e) => (s3, Err(e)),
                                    Ok(_) => (s3.with_flag(Flags::Overflow, a + b >= 256), Ok(())),
                                }
                            },
                        }
                    },
                }
            },
            InstructionModel::LoadImmediate(r, v) => (self.with_reg(r, v), Ok(())),
            InstructionModel::LoadMemory(r, a) => if a < self.memory.len() {
                (self.with_reg(r, self.memory[a as int]), Ok(()))
            } else {
                (self, Err(MachineError::OutOfBounds(a)))
            },
            InstructionModel::Store(r, a) => if a < self.memory.len() {
                (MachineView { memory: self.memory.update(a as int, self.reg(r)), ..self }, Ok(()))
            } else {
                (self, Err(MachineError::OutOfBounds(a)))
            },
            InstructionModel::ALU(op, r1, r2) => {
                let a = self.reg(r1);
                let b = self.reg(r2);
                if op == ALUOperation::Div && b == 0 {
                    (self, Err(MachineError::DivideByZero))
                } else {
                    let (res, overflow) = alu_result(op, a, b);
                    (
                        self.with_reg(r1, res).with_flag(Flags::Zero, res == 0).with_flag(
                            Flags::Overflow,
                            overflow,
                        ),
                        Ok(()),
                    )
                }
            },
            InstructionModel::Jump(t) => match t {
                TargetModel::Address(a) => (MachineView { pc: a, ..self }, Ok(())),
                TargetModel::Label(_) => (self, Ok(())),
            },
            InstructionModel::JumpConditional(c, t) => match t {
                TargetModel::Address(a) => if self.condition_holds(c) {
                    (MachineView { pc: a, ..self }, Ok(()))
                } else {
                    (self, Ok(()))
                },
                TargetModel::Label(_) => (self, Ok(())),
            },
            InstructionModel::Interrupt(s) => (self, Err(MachineError::UnknownSignal(s))),
        }
    }
}

/// Sum of two bytes with 8-bit wraparound, and whether it wrapped.
fn add_bytes(a: u8, b: u8) -> (r: (u8, bool))
    ensures
        r == alu_result(ALUOperation::Add, a, b),
{
    let sum: u16 = a as u16 + b as u16;
    ((sum % 256) as u8, sum >= 256)
}

/// Difference of two bytes with 8-bit wraparound, and whether it borrowed.
fn sub_bytes(a: u8, b: u8) -> (r: (u8, bool))
    ensures
        r == alu_result(ALUOperation::Sub, a, b),
{
    if a >= b {
        (a - b, false)
    } else {
        ((a as u16 + 256 - b as u16) as u8, true)
    }
}

/// Product of two bytes with 8-bit wraparound, and whether it wrapped.
fn mul_bytes(a: u8, b: u8) -> (r: (u8, bool))
    ensures
        r == alu_result(ALUOperation::Mul, a, b),
{
    proof {
        assert(a * b <= 255 * 255) by (nonlinear_arith)
            requires
                a <= 255,
                b <= 255,
        ;
    }
    let product: u32 = a as u32 * b as u32;
    ((product % 256) as u8, product >= 256)
}

/// The ALU: result byte and overflow of `a op b`.
fn alu(op: ALUOperation, a: u8, b: u8) -> (r: (u8, bool))
    requires
        !(op == ALUOperation::Div && b == 0),
    ensures
        r == alu_result(op, a, b),
{
    match op {
        ALUOperation::Add => add_bytes(a, b),
        ALUOperation::Sub => sub_bytes(a, b),
        ALUOperation::Mul => mul_bytes(a, b),
        ALUOperation::Div => (a / b, false),
    }
}

impl<H> Machine<H> {
    /// The interrupt table has a handler for `signal`.
    pub open spec fn handles(&self, signal: u8) -> bool {
        signal < self.interrupts.len() && self.interrupts[signal as int] is Some
    }

    /// A fresh machine: zeroed registers, flags and counters, a zeroed
    /// memory of `MEMORY_SIZE` bytes, and no interrupt handlers.
    pub fn new() -> (r: Self)
        ensures
            r@.registers == Seq::new(8, |i: int| 0u8),
            r@.memory == Seq::new(MEMORY_SIZE as nat, |i: int| 0u8),
            r.pc == 0,
            r.sp == 0,
            r.flags == 0,
            !r.halt,
            r.interrupts.len() == SIGNALS,
            forall|s: u8| !r.handles(s),
    {
        let mut interrupts: Vec<Option<H>> = Vec::new();
        let mut i: usize = 0;
        while i < SIGNALS
            invariant
                i <= SIGNALS,
                interrupts.len() == i,
                forall|k: int| 0 <= k < i ==> interrupts[k] is None,
            decreases SIGNALS - i,
        {
            interrupts.push(None);
            i += 1;
        }
        let r = Machine {
            registers: [0; 8],
            halt: false,
            memory: Memory::full(),
            pc: 0,
            sp: 0,
            flags: 0,
            interrupts,
        };
        proof {
            assert(r@.registers =~= Seq::new(8, |i: int| 0u8));
        }
        r
    }

    /// Registers `f` as the handler of `signal`, in place of any earlier one.
    pub fn define_interrupt(&mut self, signal: u8, f: H)
        ensures
            final(self)@ == old(self)@,
            final(self).interrupts.len() == if signal < old(self).interrupts.len() {
                old(self).interrupts.len() as int
            } else {
                signal + 1
            },
            final(self).interrupts[signal as int] == Some(f),
            forall|s: u8| s != signal ==> (#[trigger] final(self).handles(s) <==> old(self).handles(s)),
            forall|s: int|
                0 <= s < old(self).interrupts.len() && s != signal ==> final(self).interrupts[s]
                    == old(self).interrupts[s],
    {
        let ghost start = self.interrupts@;
        while self.interrupts.len() <= signal as usize
            invariant
                start == old(self).interrupts@,
                self@ == old(self)@,
                start.len() <= self.interrupts.len(),
                self.interrupts.len() <= start.len() || self.interrupts.len() <= signal + 1,
                forall|k: int| 0 <= k < start.len() ==> self.interrupts[k] == start[k],
                forall|k: int| start.len() <= k < self.interrupts.len() ==> self.interrupts[k] is None,
            decreases signal + 1 - self.interrupts.len(),
        {
            self.interrupts.push(None);
        }
        self.interrupts.set(signal as usize, Some(f));
    }

    pub fn get_register(&self, r: Registers) -> (v: u8)
        ensures
            v == self@.reg(r),
    {
        self.registers[r.index()]
    }

    pub fn set_register(&mut self, r: Registers, v: u8)
        ensures
            final(self)@ == old(self)@.with_reg(r, v),
            final(self).interrupts@ == old(self).interrupts@,
    {
        self.registers[r.index()] = v;
        proof {
            assert(self@.registers =~= old(self)@.with_reg(r, v).registers);
        }
    }

    /// Sets the bit of `flag` when `condition` holds and clears it otherwise.
    pub fn set_flag(&mut self, flag: Flags, condition: bool)
        ensures
            final(self)@ == old(self)@.with_flag(flag, condition),
            final(self).interrupts@ == old(self).interrupts@,
    {
        if condition {
            self.flags = self.flags | flag.mask();
        } else {
            self.flags = self.flags & !flag.mask();
        }
    }

    pub fn clear_flag(&mut self, flag: Flags)
        ensures
            final(self)@ == old(self)@.with_flag(flag, false),
            final(self).interrupts@ == old(self).interrupts@,
    {
        self.flags = self.flags & !flag.mask();
    }

    pub fn is_flag_set(&self, flag: Flags) -> (r: bool)
        ensures
            r == self@.flag(flag),
    {
        self.flags & flag.mask() != 0
    }

    fn condition_holds(&self, c: JumpCondition) -> (r: bool)
        ensures
            r == self@.condition_holds(c),
    {
        let below = self.is_flag_set(Flags::Overflow);
        let equal = self.is_flag_set(Flags::Zero);
        match c {
            JumpCondition::LT => below,
            JumpCondition::GT => !below && !equal,
            JumpCondition::EQ => equal,
            JumpCondition::NEQ => !equal,
            JumpCondition::GE => !below,
            JumpCondition::LE => below || equal,
        }
    }

    fn fetch(&mut self) -> (r: Result<u8, MachineError>)
        ensures
            (final(self)@, r) == old(self)@.fetch(),
            final(self).interrupts@ == old(self).interrupts@,
    {
        match self.memory.read(self.pc) {
            Ok(opcode) => {
                self.pc = self.pc.wrapping_add(1);
                Ok(opcode)
            },
            Err(e) => Err(e),
        }
    }

    fn fetch_address(&mut self) -> (r: Result<u16, MachineError>)
        ensures
            (final(self)@, r) == old(self)@.fetch_address(),
            final(self).interrupts@ == old(self).interrupts@,
    {
        let hi = match self.fetch() {
            Ok(b) => b,
            Err(e) => return Err(e),
        };
        let lo = match self.fetch() {
            Ok(b) => b,
            Err(e) => return Err(e),
        };
        Ok(hi as u16 * 256 + lo as u16)
    }

    fn push(&mut self, v: u8) -> (r: Result<(), MachineError>)
        ensures
            (final(self)@, r) == old(self)@.push(v),
            final(self).interrupts@ == old(self).interrupts@,
    {
        let sp = self.sp;
        match self.memory.write(sp, v) {
            Ok(()) => {
                self.sp = sp.wrapping_add(1);
                Ok(())
            },
            Err(e) => Err(e),
        }
    }

    fn pop(&mut self) -> (r: Result<u8, MachineError>)
        ensures
            (final(self)@, r) == old(self)@.pop(),
            final(self).interrupts@ == old(self).interrupts@,
    {
        let sp = self.sp.wrapping_sub(1);
        match self.memory.read(sp) {
            Ok(v) => {
                self.sp = sp;
                Ok(v)
            },
            Err(e) => Err(e),
        }
    }
}

impl<H> Machine<H> {
    fn decode(&mut self, opcode: u8) -> (r: Result<Instruction, MachineError>)
        ensures
            final(self)@ == old(self)@.decode(opcode).0,
            final(self).interrupts@ == old(self).interrupts@,
            match r {
                Ok(i) => old(self)@.decode(opcode).1 == Ok::<InstructionModel, MachineError>(i@),
                Err(e) => old(self)@.decode(opcode).1 == Err::<InstructionModel, MachineError>(e),
            },
    {
        let args = opcode & 0x0F;
        let family = opcode >> 4;
        proof {
            assert(opcode & 0x0F == opcode % 16) by (bit_vector);
            assert(opcode >> 4 == opcode / 16) by (bit_vector);
        }
        match family {
            0x0 => Ok(Instruction::Nop),
            0x1 => match self.fetch() {
                Ok(value) => Ok(Instruction::Push(value)),
                Err(e) => Err(e),
            },
            0x2 => match Registers::from_u8_custom(args) {
                Some(reg) => Ok(Instruction::PopRegister(reg)),
                None => Err(MachineError::InvalidRegisterCode(args)),
            },
            0x3 => match Registers::from_u8_custom(args) {
                Some(reg) => Ok(Instruction::PushRegister(reg)),
                None => Err(MachineError::InvalidRegisterCode(args)),
            },
            0x4 => Ok(Instruction::AddStack),
            0x5 => {
                let reg = match Registers::from_u8_custom(args) {
                    Some(reg) => reg,
                    None => return Err(MachineError::InvalidRegisterCode(args)),
                };
                match self.fetch() {
                    Ok(value) => Ok(Instruction::LoadImmediate(reg, value)),
                    Err(e) => Err(e),
                }
            },
            0x6 => {
                let reg = match Registers::from_u8_custom(args) {
                    Some(reg) => reg,
                    None => return Err(MachineError::InvalidRegisterCode(args)),
                };
                match self.fetch_address() {
                    Ok(address) => Ok(Instruction::LoadMemory(reg, address)),
                    Err(e) => Err(e),
                }
            },
            0x7 => {
                let reg = match Registers::from_u8_custom(args) {
                    Some(reg) => reg,
                    None => return Err(MachineError::InvalidRegisterCode(args)),
                };
                match self.fetch_address() {
                    Ok(address) => Ok(Instruction::Store(reg, address)),
                    Err(e) => Err(e),
                }
            },
            0x8 => {
                let operation = match ALUOperation::from_u8_custom(args) {
                    Some(op) => op,
                    None => return Err(MachineError::UnknownOpcode(opcode)),
                };
                let next = match self.fetch() {
                    Ok(b) => b,
                    Err(e) => return Err(e),
                };
                let first = next >> 4;
                let second = next & 0x0F;
                proof {
                    assert(next & 0x0F == next % 16) by (bit_vector);
                    assert(next >> 4 == next / 16) by (bit_vector);
                }
                let reg1 = match Registers::from_u8_custom(first) {
                    Some(reg) => reg,
                    None => return Err(MachineError::InvalidRegisterCode(first)),
                };
                let reg2 = match Registers::from_u8_custom(second) {
                    Some(reg) => reg,
                    None => return Err(MachineError::InvalidRegisterCode(second)),
                };
                Ok(Instruction::ALU(operation, reg1, reg2))
            },
            0x9 => match self.fetch_address() {
                Ok(address) => Ok(Instruction::Jump(JumpTarget::Address(address))),
                Err(e) => Err(e),
            },
            0xA => {
                let condition = match JumpCondition::from_u8_custom(args) {
                    Some(c) => c,
                    None => return Err(MachineError::UnknownOpcode(opcode)),
                };
                match self.fetch_address() {
                    Ok(address) => Ok(Instruction::JumpConditional(condition, JumpTarget::Address(address))),
                    Err(e) => Err(e),
                }
            },
            0xF => Ok(Instruction::Interrupt(args)),
            _ => Err(MachineError::UnknownOpcode(opcode)),
        }
    }

    fn execute(&mut self, instruction: &Instruction) -> (r: Result<(), MachineError>)
        requires
            !instruction@.has_label(),
        ensures
            (final(self)@, r) == old(self)@.execute(instruction@),
            final(self).interrupts@ == old(self).interrupts@,
    {
        match instruction {
            Instruction::Nop => Ok(()),
            Instruction::Push(value) => self.push(*value),
            Instruction::PopRegister(reg) => match self.pop() {
                Ok(value) => {
                    self.set_register(*reg, value);
                    Ok(())
                },
                Err(e) => Err(e),
            },
            Instruction::PushRegister(reg) => {
                let value = self.get_register(*reg);
                self.push(value)
            },
            Instruction::AddStack => {
                let a = match self.pop() {
                    Ok(v) => v,
                    Err(e) => return Err(e),
                };
                let b = match self.pop() {
                    Ok(v) => v,
                    Err(e) => return Err(e),
                };
                let (result, overflow) = add_bytes(a, b);
                match self.push(result) {
                    Ok(()) => {},
                    Err(e) => return Err(e),
                }
                self.set_flag(Flags::Overflow, overflow);
                Ok(())
            },
            Instruction::LoadImmediate(reg, value) => {
                self.set_register(*reg, *value);
                Ok(())
            },
            Instruction::LoadMemory(reg, address) => match self.memory.read(*address) {
                Ok(value) => {
                    self.set_register(*reg, value);
                    Ok(())
                },
                Err(e) => Err(e),
            },
            Instruction::Store(reg, address) => {
                let value = self.get_register(*reg);
                self.memory.write(*address, value)
            },
            Instruction::ALU(operation, reg1, reg2) => {
                let a = self.get_register(*reg1);
                let b = self.get_register(*reg2);
                if *operation == ALUOperation::Div && b == 0 {
                    return Err(MachineError::DivideByZero);
                }
                let (result, overflow) = alu(*operation, a, b);
                self.set_register(*reg1, result);
                self.set_flag(Flags::Zero, result == 0);
                self.set_flag(Flags::Overflow, overflow);
                Ok(())
            },
            Instruction::Jump(target) => match target {
                JumpTarget::Address(address) => {
                    self.pc = *address;
                    Ok(())
                },
                JumpTarget::Label(_) => Ok(()),
            },
            Instruction::JumpConditional(condition, target) => match target {
                JumpTarget::Address(address) => {
                    if self.condition_holds(*condition) {
                        self.pc = *address;
                    }
                    Ok(())
                },
                JumpTarget::Label(_) => Ok(()),
            },
            Instruction::Interrupt(signal) => Err(MachineError::UnknownSignal(*signal)),
        }
    }
}

impl MachineView {
    /// One step when no interrupt handler runs in it: fetch, decode, execute.
    pub open spec fn step(self) -> (MachineView, Result<(), MachineError>) {
        let (s1, decoded) = self.fetch_decode();
        match decoded {
            Err(e) => (s1, Err(e)),
            Ok(ins) => s1.execute(ins),
        }
    }
}

impl<H: InterruptHandler> Machine<H> {
    /// The instruction at the program counter decodes to an interrupt whose
    /// signal has a handler.
    pub open spec fn runs_handler(&self) -> bool {
        match self@.fetch_decode().1 {
            Ok(InstructionModel::Interrupt(signal)) => self.handles(signal),
            _ => false,
        }
    }

    /// Fetches, decodes and executes one instruction. An interrupt with a
    /// handler runs the handler, which may change anything.
    pub fn step(&mut self) -> (r: Result<(), MachineError>)
        ensures
            !old(self).runs_handler() ==> (final(self)@, r) == old(self)@.step()
                && final(self).interrupts@ == old(self).interrupts@,
    {
        let opcode = match self.fetch() {
            Ok(b) => b,
            Err(e) => return Err(e),
        };
        let instruction = match self.decode(opcode) {
            Ok(i) => i,
            Err(e) => return Err(e),
        };
        match instruction {
            Instruction::Interrupt(signal) => {
                if (signal as usize) < self.interrupts.len() {
                    let entry: Option<H> = self.interrupts[signal as usize];
                    match entry {
                        Some(handler) => handler.handle(self),
                        None => Err(MachineError::UnknownSignal(signal)),
                    }
                } else {
                    Err(MachineError::UnknownSignal(signal))
                }
            },
            _ => self.execute(&instruction),
        }
    }
}

impl<H> Default for Machine<H> {
    fn default() -> (r: Self)
        ensures
            r@.registers == Seq::new(8, |i: int| 0u8),
            r@.memory == Seq::new(MEMORY_SIZE as nat, |i: int| 0u8),
            r.pc == 0,
            r.sp == 0,
            r.flags == 0,
            !r.halt,
            r.interrupts.len() == SIGNALS,
            forall|s: u8| !r.handles(s),
    {
        Self::new()
    }
}

proof fn lemma_flag_bits(x: u8) by (bit_vector)
    ensures
        (x | 1u8) & 1u8 != 0u8,
        (x & !1u8) & 1u8 == 0u8,
        (x | 2u8) & 2u8 != 0u8,
        (x & !2u8) & 2u8 == 0u8,
        (x | 1u8) & 2u8 == x & 2u8,
        (x & !1u8) & 2u8 == x & 2u8,
        (x | 2u8) & 1u8 == x & 1u8,
        (x & !2u8) & 1u8 == x & 1u8,
{
}

/// Setting or clearing one flag gives it the chosen value and leaves the
/// other flags as they were.
pub proof fn lemma_with_flag(s: MachineView, f: Flags, on: bool, g: Flags)
    ensures
        s.with_flag(f, on).flag(g) == if f == g {
            on
        } else {
            s.flag(g)
        },
{
    lemma_flag_bits(s.flags);
}

/// Pushing a register and popping it back restores the register, and the
/// stack pointer returns to where it was; memory below the stack pointer
/// must hold the pushed byte.
pub proof fn lemma_push_pop_register(s: MachineView, r: Registers)
    requires
        s.registers.len() == 8,
        s.sp < s.memory.len(),
    ensures
        ({
            let (s1, pushed) = s.execute(InstructionModel::PushRegister(r));
            let (s2, popped) = s1.execute(InstructionModel::PopRegister(r));
            &&& pushed is Ok
            &&& popped is Ok
            &&& s2.reg(r) == s.reg(r)
            &&& s2.registers == s.registers
            &&& s2.sp == s.sp
        }),
{
    let (s1, _) = s.execute(InstructionModel::PushRegister(r));
    let (s2, _) = s1.execute(InstructionModel::PopRegister(r));
    assert(s2.registers =~= s.registers);
}

/// `AddStack` pops a, then b, pushes their sum with 8-bit wraparound, and
/// sets `Overflow` exactly when a + b is at least 256; `Zero` is left alone.
pub proof fn lemma_add_stack(s: MachineView)
    requires
        2 <= s.sp <= s.memory.len(),
    ensures
        ({
            let a = s.memory[s.sp - 1];
            let b = s.memory[s.sp - 2];
            let (t, res) = s.execute(InstructionModel::AddStack);
            &&& res is Ok
            &&& t.sp == s.sp - 1
            &&& t.memory == s.memory.update(s.sp - 2, ((a + b) % 256) as u8)
            &&& t.flag(Flags::Overflow) == (a + b >= 256)
            &&& t.flag(Flags::Zero) == s.flag(Flags::Zero)
            &&& t.registers == s.registers
        }),
{
    let a = s.memory[s.sp - 1];
    let b = s.memory[s.sp - 2];
    let (s1, _) = s.pop();
    let (s2, _) = s1.pop();
    let (s3, _) = s2.push(((a + b) % 256) as u8);
    lemma_with_flag(s3, Flags::Overflow, a + b >= 256, Flags::Overflow);
    lemma_with_flag(s3, Flags::Overflow, a + b >= 256, Flags::Zero);
}

/// `ALU Sub` of two equal values leaves 0 in the first register, sets
/// `Zero` and clears `Overflow`.
pub proof fn lemma_sub_equal(s: MachineView, r1: Registers, r2: Registers)
    requires
        s.registers.len() == 8,
        s.reg(r1) == s.reg(r2),
    ensures
        ({
            let (t, res) = s.execute(InstructionModel::ALU(ALUOperation::Sub, r1, r2));
            &&& res is Ok
            &&& t.reg(r1) == 0
            &&& t.flag(Flags::Zero)
            &&& !t.flag(Flags::Overflow)
        }),
{
    let s1 = s.with_reg(r1, 0);
    let s2 = s1.with_flag(Flags::Zero, true);
    lemma_with_flag(s1, Flags::Zero, true, Flags::Zero);
    lemma_with_flag(s2, Flags::Overflow, false, Flags::Zero);
    lemma_with_flag(s2, Flags::Overflow, false, Flags::Overflow);
}

/// `ALU Div` by a register holding zero fails with `DivideByZero` and
/// changes nothing.
pub proof fn lemma_divide_by_zero(s: MachineView, r1: Registers, r2: Registers)
    requires
        s.reg(r2) == 0,
    ensures
        s.execute(InstructionModel::ALU(ALUOperation::Div, r1, r2)) == (s, Err::<(), MachineError>(
            MachineError::DivideByZero,
        )),
{
}

/// An interrupt byte (high nibble 0xF) whose signal has no handler fails
/// with `UnknownSignal`; of the whole state only the program counter moved,
/// past the byte.
pub proof fn lemma_unhandled_interrupt(s: MachineView)
    requires
        s.pc < s.memory.len(),
        s.memory[s.pc as int] / 16 == 0xF,
    ensures
        s.step() == (MachineView { pc: next_address(s.pc), ..s }, Err::<(), MachineError>(
            MachineError::UnknownSignal(s.memory[s.pc as int] % 16),
        )),
{
}

/// Decoding reads back exactly what encoding wrote: with the bytes of an
/// instruction at the program counter, fetch and decode yield that
/// instruction and leave the program counter just past it.
pub proof fn lemma_decode_encoding(s: MachineView, i: InstructionModel)
    requires
        i.well_formed(),
        !i.has_label(),
        s.memory.len() <= 0x10000,
        s.pc + i.size() <= s.memory.len(),
        s.memory.subrange(s.pc as int, s.pc + i.size()) == i.encoding(),
    ensures
        s.fetch_decode() == (MachineView { pc: ((s.pc + i.size()) % 0x10000) as u16, ..s }, Ok::<
            InstructionModel,
            MachineError,
        >(i)),
{
    let e = i.encoding();
    assert(s.memory[s.pc as int] == e[0]);
    if i.size() >= 2 {
        assert(s.memory[s.pc + 1] == e[1]);
    }
    if i.size() >= 3 {
        assert(s.memory[s.pc + 2] == e[2]);
    }
    match i {
        InstructionModel::ALU(op, r1, r2) => {
            let pair = (16 * r1.ordinal() + r2.ordinal()) as u8;
            r1.lemma_ordinal_round_trip();
            r2.lemma_ordinal_round_trip();
            assert(pair / 16 == r1.ordinal());
            assert(pair % 16 == r2.ordinal());
            assert(s.memory[s.pc + 1] == pair);
        },
        _ => {},
    }
}

} // verus!
