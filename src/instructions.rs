use vstd::prelude::*;
use vstd::string::*;

use crate::error::{AssembleError, AssembleFault};
use crate::registers::Registers;
use crate::text::{copy_bytes, spells, spells_word};

verus! {

/// One machine instruction; the comment gives its encoding.
#[derive(Debug)]
pub enum Instruction {
    Nop,  // 0000 0000
    Push(u8),  // 0001 xxxx | iiiiiiii
    PopRegister(Registers),  // 0010 rrrr
    PushRegister(Registers),  // 0011 rrrr
    AddStack,  // 0100 0000
    LoadImmediate(Registers, u8),  // 0101 rrrr | iiiiiiii
    LoadMemory(Registers, u16),  // 0110 rrrr | aaaaaaaa | aaaaaaaa
    Store(Registers, u16),  // 0111 rrrr | aaaaaaaa | aaaaaaaa
    ALU(ALUOperation, Registers, Registers),  // 1000 oooo | rrrr rrrr
    Jump(JumpTarget),  // 1001 0000 | aaaaaaaa | aaaaaaaa
    JumpConditional(JumpCondition, JumpTarget),  // 1010 cccc | aaaaaaaa | aaaaaaaa
    Interrupt(u8),  // 1111 iiii
}

/// Where a jump goes: an address, or a label that the assembler has not
/// resolved yet (its name, as bytes).
#[derive(Debug)]
pub enum JumpTarget {
    Address(u16),
    Label(Vec<u8>),
}

#[derive(Debug, Clone, Copy, PartialEq, Eq, Structural)]
pub enum ALUOperation {
    Add,
    Sub,
    Mul,
    Div,
}

#[derive(Debug, Clone, Copy, PartialEq, Eq, Structural)]
pub enum JumpCondition {
    LT,
    GT,
    EQ,
    NEQ,
    GE,
    LE,
}

/// The mathematical value of a `JumpTarget`.
pub enum TargetModel {
    Address(u16),
    Label(Seq<u8>),
}

/// The mathematical value of an `Instruction`.
pub enum InstructionModel {
    Nop,
    Push(u8),
    PopRegister(Registers),
    PushRegister(Registers),
    AddStack,
    LoadImmediate(Registers, u8),
    LoadMemory(Registers, u16),
    Store(Registers, u16),
    ALU(ALUOperation, Registers, Registers),
    Jump(TargetModel),
    JumpConditional(JumpCondition, TargetModel),
    Interrupt(u8),
}

impl View for JumpTarget {
    type V = TargetModel;

    open spec fn view(&self) -> TargetModel {
        match self {
            JumpTarget::Address(a) => TargetModel::Address(*a),
            JumpTarget::Label(l) => TargetModel::Label(l@),
        }
    }
}

impl View for Instruction {
    type V = InstructionModel;

    open spec fn view(&self) -> InstructionModel {
        match self {
            Instruction::Nop => InstructionModel::Nop,
            Instruction::Push(v) => InstructionModel::Push(*v),
            Instruction::PopRegister(r) => InstructionModel::PopRegister(*r),
            Instruction::PushRegister(r) => InstructionModel::PushRegister(*r),
            Instruction::AddStack => InstructionModel::AddStack,
            Instruction::LoadImmediate(r, v) => InstructionModel::LoadImmediate(*r, *v),
            Instruction::LoadMemory(r, a) => InstructionModel::LoadMemory(*r, *a),
            Instruction::Store(r, a) => InstructionModel::Store(*r, *a),
            Instruction::ALU(op, r1, r2) => InstructionModel::ALU(*op, *r1, *r2),
            Instruction::Jump(t) => InstructionModel::Jump(t@),
            Instruction::JumpConditional(c, t) => InstructionModel::JumpConditional(*c, t@),
            Instruction::Interrupt(s) => InstructionModel::Interrupt(*s),
        }
    }
}

/// The high byte of a big-endian 16-bit address.
pub open spec fn high_byte(a: u16) -> u8 {
    (a / 256) as u8
}

/// The low byte of a big-endian 16-bit address.
pub open spec fn low_byte(a: u16) -> u8 {
    (a % 256) as u8
}

impl InstructionModel {
    /// Number of bytes the instruction takes; it depends on the variant alone.
    pub open spec fn size(self) -> nat {
        match self {
            InstructionModel::Nop => 1,
            InstructionModel::Push(_) => 2,
            InstructionModel::PopRegister(_) => 1,
            InstructionModel::PushRegister(_) => 1,
            InstructionModel::AddStack => 1,
            InstructionModel::LoadImmediate(_, _) => 2,
            InstructionModel::LoadMemory(_, _) => 3,
            InstructionModel::Store(_, _) => 3,
            InstructionModel::ALU(_, _, _) => 2,
            InstructionModel::Jump(_) => 3,
            InstructionModel::JumpConditional(_, _) => 3,
            InstructionModel::Interrupt(_) => 1,
        }
    }

    /// The instruction holds a label that was never resolved to an address.
    pub open spec fn has_label(self) -> bool {
        match self {
            InstructionModel::Jump(TargetModel::Label(_)) => true,
            InstructionModel::JumpConditional(_, TargetModel::Label(_)) => true,
            _ => false,
        }
    }

    /// Operands are in the ranges the encoding can hold: a signal fits in a nibble.
    pub open spec fn well_formed(self) -> bool {
        match self {
            InstructionModel::Interrupt(s) => s < 16,
            _ => true,
        }
    }

    /// The binary encoding of an instruction without labels.
    pub open spec fn encoding(self) -> Seq<u8> {
        match self {
            InstructionModel::Nop => seq![0x00u8],
            InstructionModel::Push(v) => seq![0x10u8, v],
            InstructionModel::PopRegister(r) => seq![(0x20 + r.ordinal()) as u8],
            InstructionModel::PushRegister(r) => seq![(0x30 + r.ordinal()) as u8],
            InstructionModel::AddStack => seq![0x40u8],
            InstructionModel::LoadImmediate(r, v) => seq![(0x50 + r.ordinal()) as u8, v],
            InstructionModel::LoadMemory(r, a) => seq![
                (0x60 + r.ordinal()) as u8,
                high_byte(a),
                low_byte(a),
            ],
            InstructionModel::Store(r, a) => seq![
                (0x70 + r.ordinal()) as u8,
                high_byte(a),
                low_byte(a),
            ],
            InstructionModel::ALU(op, r1, r2) => seq![
                (0x80 + op.ordinal()) as u8,
                (16 * r1.ordinal() + r2.ordinal()) as u8,
            ],
            InstructionModel::Jump(t) => match t {
                TargetModel::Address(a) => seq![0x90u8, high_byte(a), low_byte(a)],
                TargetModel::Label(_) => seq![],
            },
            InstructionModel::JumpConditional(c, t) => match t {
                TargetModel::Address(a) => seq![(0xA0 + c.ordinal()) as u8, high_byte(a), low_byte(a)],
                TargetModel::Label(_) => seq![],
            },
            InstructionModel::Interrupt(s) => seq![(0xF0 + s) as u8],
        }
    }
}

impl InstructionModel {
    /// The name of the label that the instruction still holds.
    pub open spec fn label(self) -> Seq<u8> {
        match self {
            InstructionModel::Jump(TargetModel::Label(l)) => l,
            InstructionModel::JumpConditional(_, TargetModel::Label(l)) => l,
            _ => seq![],
        }
    }
}

/// The two bytes of an address, high byte first.
fn address_bytes(a: u16) -> (r: (u8, u8))
    ensures
        r.0 == high_byte(a),
        r.1 == low_byte(a),
{
    ((a / 256) as u8, (a % 256) as u8)
}

impl Instruction {
    /// Number of bytes the instruction takes in a program.
    pub fn size(&self) -> (r: u8)
        ensures
            r == self@.size(),
    {
        match self {
            Instruction::Nop => 1,
            Instruction::Push(_) => 2,
            Instruction::PopRegister(_) => 1,
            Instruction::PushRegister(_) => 1,
            Instruction::AddStack => 1,
            Instruction::LoadImmediate(_, _) => 2,
            Instruction::LoadMemory(_, _) => 3,
            Instruction::Store(_, _) => 3,
            Instruction::ALU(_, _, _) => 2,
            Instruction::Jump(_) => 3,
            Instruction::JumpConditional(_, _) => 3,
            Instruction::Interrupt(_) => 1,
        }
    }

    /// The instruction's bytes; fails on a jump whose target is still a label.
    pub fn encode_u8(&self) -> (r: Result<Vec<u8>, AssembleError>)
        requires
            self@.well_formed(),
        ensures
            r is Err <==> self@.has_label(),
            r matches Ok(bytes) ==> bytes@ == self@.encoding() && bytes@.len() == self@.size(),
            r matches Err(e) ==> e@ == AssembleFault::UnresolvedLabel(self@.label()),
    {
        match self {
            Instruction::Nop => Ok(vec![0x00]),
            Instruction::Push(value) => Ok(vec![0x10, *value]),
            Instruction::PopRegister(reg) => Ok(vec![0x20 + reg.index() as u8]),
            Instruction::PushRegister(reg) => Ok(vec![0x30 + reg.index() as u8]),
            Instruction::AddStack => Ok(vec![0x40]),
            Instruction::LoadImmediate(reg, value) => Ok(vec![0x50 + reg.index() as u8, *value]),
            Instruction::LoadMemory(reg, address) => {
                let (hi, lo) = address_bytes(*address);
                Ok(vec![0x60 + reg.index() as u8, hi, lo])
            },
            Instruction::Store(reg, address) => {
                let (hi, lo) = address_bytes(*address);
                Ok(vec![0x70 + reg.index() as u8, hi, lo])
            },
            Instruction::ALU(op, reg1, reg2) => {
                Ok(vec![0x80 + op.code(), 16 * reg1.index() as u8 + reg2.index() as u8])
            },
            Instruction::Jump(target) => match target {
                JumpTarget::Address(address) => {
                    let (hi, lo) = address_bytes(*address);
                    Ok(vec![0x90, hi, lo])
                },
                JumpTarget::Label(label) => Err(
                    AssembleError::UnresolvedLabel { label: copy_bytes(label) },
                ),
            },
            Instruction::JumpConditional(cond, target) => match target {
                JumpTarget::Address(address) => {
                    let (hi, lo) = address_bytes(*address);
                    Ok(vec![0xA0 + cond.code(), hi, lo])
                },
                JumpTarget::Label(label) => Err(
                    AssembleError::UnresolvedLabel { label: copy_bytes(label) },
                ),
            },
            Instruction::Interrupt(signal) => Ok(vec![0xF0 + *signal]),
        }
    }
}

impl ALUOperation {
    pub open spec fn ordinal(self) -> u8 {
        match self {
            ALUOperation::Add => 0,
            ALUOperation::Sub => 1,
            ALUOperation::Mul => 2,
            ALUOperation::Div => 3,
        }
    }

    pub open spec fn with_ordinal(value: u8) -> Option<ALUOperation> {
        if value == 0 {
            Some(ALUOperation::Add)
        } else if value == 1 {
            Some(ALUOperation::Sub)
        } else if value == 2 {
            Some(ALUOperation::Mul)
        } else if value == 3 {
            Some(ALUOperation::Div)
        } else {
            None
        }
    }

    pub open spec fn name(self) -> Seq<char> {
        match self {
            ALUOperation::Add => "Add"@,
            ALUOperation::Sub => "Sub"@,
            ALUOperation::Mul => "Mul"@,
            ALUOperation::Div => "Div"@,
        }
    }

    /// The operation that `tok` names, if any.
    pub open spec fn named(tok: Seq<u8>) -> Option<ALUOperation> {
        if spells(tok, ALUOperation::Add.name()) {
            Some(ALUOperation::Add)
        } else if spells(tok, ALUOperation::Sub.name()) {
            Some(ALUOperation::Sub)
        } else if spells(tok, ALUOperation::Mul.name()) {
            Some(ALUOperation::Mul)
        } else if spells(tok, ALUOperation::Div.name()) {
            Some(ALUOperation::Div)
        } else {
            None
        }
    }

    pub fn code(self) -> (r: u8)
        ensures
            r == self.ordinal(),
    {
        match self {
            ALUOperation::Add => 0,
            ALUOperation::Sub => 1,
            ALUOperation::Mul => 2,
            ALUOperation::Div => 3,
        }
    }

    pub fn from_u8_custom(value: u8) -> (r: Option<Self>)
        ensures
            r == ALUOperation::with_ordinal(value),
            r is Some <==> value < 4,
            r matches Some(op) ==> op.ordinal() == value,
    {
        match value {
            0 => Some(ALUOperation::Add),
            1 => Some(ALUOperation::Sub),
            2 => Some(ALUOperation::Mul),
            3 => Some(ALUOperation::Div),
            _ => None,
        }
    }

    pub fn from_bytes(tok: &[u8]) -> (r: Option<Self>)
        ensures
            r == ALUOperation::named(tok@),
    {
        proof {
            reveal_strlit("Add");
            reveal_strlit("Sub");
            reveal_strlit("Mul");
            reveal_strlit("Div");
        }
        if spells_word(tok, "Add") {
            Some(ALUOperation::Add)
        } else if spells_word(tok, "Sub") {
            Some(ALUOperation::Sub)
        } else if spells_word(tok, "Mul") {
            Some(ALUOperation::Mul)
        } else if spells_word(tok, "Div") {
            Some(ALUOperation::Div)
        } else {
            None
        }
    }

    pub fn from_str_custom(value: &str) -> (r: Option<Self>)
        ensures
            r == ALUOperation::named(value.spec_bytes()),
    {
        ALUOperation::from_bytes(value.as_bytes())
    }
}

impl JumpCondition {
    pub open spec fn ordinal(self) -> u8 {
        match self {
            JumpCondition::LT => 0,
            JumpCondition::GT => 1,
            JumpCondition::EQ => 2,
            JumpCondition::NEQ => 3,
            JumpCondition::GE => 4,
            JumpCondition::LE => 5,
        }
    }

    pub open spec fn with_ordinal(value: u8) -> Option<JumpCondition> {
        if value == 0 {
            Some(JumpCondition::LT)
        } else if value == 1 {
            Some(JumpCondition::GT)
        } else if value == 2 {
            Some(JumpCondition::EQ)
        } else if value == 3 {
            Some(JumpCondition::NEQ)
        } else if value == 4 {
            Some(JumpCondition::GE)
        } else if value == 5 {
            Some(JumpCondition::LE)
        } else {
            None
        }
    }

    pub open spec fn name(self) -> Seq<char> {
        match self {
            JumpCondition::LT => "LT"@,
            JumpCondition::GT => "GT"@,
            JumpCondition::EQ => "EQ"@,
            JumpCondition::NEQ => "NEQ"@,
            JumpCondition::GE => "GE"@,
            JumpCondition::LE => "LE"@,
        }
    }

    /// The condition that `tok` names, if any.
    pub open spec fn named(tok: Seq<u8>) -> Option<JumpCondition> {
        if spells(tok, JumpCondition::LT.name()) {
            Some(JumpCondition::LT)
        } else if spells(tok, JumpCondition::GT.name()) {
            Some(JumpCondition::GT)
        } else if spells(tok, JumpCondition::EQ.name()) {
            Some(JumpCondition::EQ)
        } else if spells(tok, JumpCondition::NEQ.name()) {
            Some(JumpCondition::NEQ)
        } else if spells(tok, JumpCondition::GE.name()) {
            Some(JumpCondition::GE)
        } else if spells(tok, JumpCondition::LE.name()) {
            Some(JumpCondition::LE)
        } else {
            None
        }
    }

    pub fn code(self) -> (r: u8)
        ensures
            r == self.ordinal(),
    {
        match self {
            JumpCondition::LT => 0,
            JumpCondition::GT => 1,
            JumpCondition::EQ => 2,
            JumpCondition::NEQ => 3,
            JumpCondition::GE => 4,
            JumpCondition::LE => 5,
        }
    }

    pub fn from_u8_custom(value: u8) -> (r: Option<Self>)
        ensures
            r == JumpCondition::with_ordinal(value),
            r is Some <==> value < 6,
            r matches Some(c) ==> c.ordinal() == value,
    {
        match value {
            0 => Some(JumpCondition::LT),
            1 => Some(JumpCondition::GT),
            2 => Some(JumpCondition::EQ),
            3 => Some(JumpCondition::NEQ),
            4 => Some(JumpCondition::GE),
            5 => Some(JumpCondition::LE),
            _ => None,
        }
    }

    pub fn from_bytes(tok: &[u8]) -> (r: Option<Self>)
        ensures
            r == JumpCondition::named(tok@),
    {
        proof {
            reveal_strlit("LT");
            reveal_strlit("GT");
            reveal_strlit("EQ");
            reveal_strlit("NEQ");
            reveal_strlit("GE");
            reveal_strlit("LE");
        }
        if spells_word(tok, "LT") {
            Some(JumpCondition::LT)
        } else if spells_word(tok, "GT") {
            Some(JumpCondition::GT)
        } else if spells_word(tok, "EQ") {
            Some(JumpCondition::EQ)
        } else if spells_word(tok, "NEQ") {
            Some(JumpCondition::NEQ)
        } else if spells_word(tok, "GE") {
            Some(JumpCondition::GE)
        } else if spells_word(tok, "LE") {
            Some(JumpCondition::LE)
        } else {
            None
        }
    }

    pub fn from_str_custom(value: &str) -> (r: Option<Self>)
        ensures
            r == JumpCondition::named(value.spec_bytes()),
    {
        JumpCondition::from_bytes(value.as_bytes())
    }
}

} // verus!
