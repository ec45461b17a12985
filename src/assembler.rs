use vstd::prelude::*;
use vstd::string::*;

use crate::error::{AssembleError, AssembleFault};
use crate::instructions::{
    ALUOperation, Instruction, InstructionModel, JumpCondition, JumpTarget, TargetModel,
};
use crate::registers::Registers;
use crate::text::{
    byte_strings, bytes_equal, copy_bytes, copy_range, lines, numeral, parse_numeral, spells, spells_word,
    split_lines, split_words, trim, trim_bounds, words,
};

verus! {

/// What a line of assembly text holds.
pub enum LineKind {
    /// Nothing but whitespace, or a comment starting with `;`.
    Blank,
    /// `name:` defines a label.
    Label(Seq<u8>),
    /// An instruction: its mnemonic and operands, as words.
    Code(Seq<Seq<u8>>),
}

pub open spec fn line_kind(line: Seq<u8>) -> LineKind {
    let t = trim(line);
    if t.len() == 0 || t[0] == 59 {
        LineKind::Blank
    } else if t.last() == 58 {
        LineKind::Label(t.drop_last())
    } else {
        LineKind::Code(words(t))
    }
}

/// The register named by operand `k`.
pub open spec fn register_operand(toks: Seq<Seq<u8>>, k: int, line: usize) -> Result<
    Registers,
    AssembleFault,
> {
    if k >= toks.len() {
        Err(AssembleFault::MissingOperand(line, toks[0]))
    } else {
        match Registers::named(toks[k]) {
            Some(r) => Ok(r),
            None => Err(AssembleFault::InvalidRegister(line, toks[k])),
        }
    }
}

/// The number written by operand `k`, which must be at most `max`.
pub open spec fn number_operand(toks: Seq<Seq<u8>>, k: int, line: usize, max: nat) -> Result<
    nat,
    AssembleFault,
> {
    if k >= toks.len() {
        Err(AssembleFault::MissingOperand(line, toks[0]))
    } else {
        match numeral(toks[k], max) {
            Some(v) => Ok(v),
            None => Err(AssembleFault::InvalidNumericLiteral(line, toks[k])),
        }
    }
}

/// Operand `k` as a jump target: an address when it is a numeric literal
/// that fits 16 bits, a label otherwise.
pub open spec fn target_operand(toks: Seq<Seq<u8>>, k: int, line: usize) -> Result<
    TargetModel,
    AssembleFault,
> {
    if k >= toks.len() {
        Err(AssembleFault::MissingOperand(line, toks[0]))
    } else {
        match numeral(toks[k], 0xFFFF) {
            Some(a) => Ok(TargetModel::Address(a as u16)),
            None => Ok(TargetModel::Label(toks[k])),
        }
    }
}

pub open spec fn operation_operand(toks: Seq<Seq<u8>>, k: int, line: usize) -> Result<
    ALUOperation,
    AssembleFault,
> {
    if k >= toks.len() {
        Err(AssembleFault::MissingOperand(line, toks[0]))
    } else {
        match ALUOperation::named(toks[k]) {
            Some(op) => Ok(op),
            None => Err(AssembleFault::UnknownMnemonic(line, toks[k])),
        }
    }
}

pub open spec fn condition_operand(toks: Seq<Seq<u8>>, k: int, line: usize) -> Result<
    JumpCondition,
    AssembleFault,
> {
    if k >= toks.len() {
        Err(AssembleFault::MissingOperand(line, toks[0]))
    } else {
        match JumpCondition::named(toks[k]) {
            Some(c) => Ok(c),
            None => Err(AssembleFault::UnknownMnemonic(line, toks[k])),
        }
    }
}

/// The instruction written by the words `toks` (mnemonic first) on line
/// `line`. Words after the last operand are ignored.
pub open spec fn parse_words(toks: Seq<Seq<u8>>, line: usize) -> Result<InstructionModel, AssembleFault> {
    let m = toks[0];
    if spells(m, "Nop"@) {
        Ok(InstructionModel::Nop)
    } else if spells(m, "Push"@) {
        match number_operand(toks, 1, line, 0xFF) {
            Err(e) => Err(e),
            Ok(v) => Ok(InstructionModel::Push(v as u8)),
        }
    } else if spells(m, "PopRegister"@) {
        match register_operand(toks, 1, line) {
            Err(e) => Err(e),
            Ok(r) => Ok(InstructionModel::PopRegister(r)),
        }
    } else if spells(m, "PushRegister"@) {
        match register_operand(toks, 1, line) {
            Err(e) => Err(e),
            Ok(r) => Ok(InstructionModel::PushRegister(r)),
        }
    } else if spells(m, "AddStack"@) {
        Ok(InstructionModel::AddStack)
    } else if spells(m, "LoadImmediate"@) {
        match register_operand(toks, 1, line) {
            Err(e) => Err(e),
            Ok(r) => match number_operand(toks, 2, line, 0xFF) {
                Err(e) => Err(e),
                Ok(v) => Ok(InstructionModel::LoadImmediate(r, v as u8)),
            },
        }
    } else if spells(m, "LoadMemory"@) {
        match register_operand(toks, 1, line) {
            Err(e) => Err(e),
            Ok(r) => match number_operand(toks, 2, line, 0xFFFF) {
                Err(e) => Err(e),
                Ok(a) => Ok(InstructionModel::LoadMemory(r, a as u16)),
            },
        }
    } else if spells(m, "Store"@) {
        match register_operand(toks, 1, line) {
            Err(e) => Err(e),
            Ok(r) => match number_operand(toks, 2, line, 0xFFFF) {
                Err(e) => Err(e),
                Ok(a) => Ok(InstructionModel::Store(r, a as u16)),
            },
        }
    } else if spells(m, "ALU"@) {
        match operation_operand(toks, 1, line) {
            Err(e) => Err(e),
            Ok(op) => match register_operand(toks, 2, line) {
                Err(e) => Err(e),
                Ok(r1) => match register_operand(toks, 3, line) {
                    Err(e) => Err(e),
                    Ok(r2) => Ok(InstructionModel::ALU(op, r1, r2)),
                },
            },
        }
    } else if spells(m, "Jump"@) {
        match target_operand(toks, 1, line) {
            Err(e) => Err(e),
            Ok(t) => Ok(InstructionModel::Jump(t)),
        }
    } else if spells(m, "JumpConditional"@) {
        match condition_operand(toks, 1, line) {
            Err(e) => Err(e),
            Ok(c) => match target_operand(toks, 2, line) {
                Err(e) => Err(e),
                Ok(t) => Ok(InstructionModel::JumpConditional(c, t)),
            },
        }
    } else if spells(m, "Interrupt"@) {
        match number_operand(toks, 1, line, 0xF) {
            Err(e) => Err(e),
            Ok(s) => Ok(InstructionModel::Interrupt(s as u8)),
        }
    } else {
        Err(AssembleFault::UnknownMnemonic(line, m))
    }
}

/// The address the last definition of label `name` gave it.
pub open spec fn lookup(labels: Seq<(Seq<u8>, u16)>, name: Seq<u8>) -> Option<u16>
    decreases labels.len(),
{
    if labels.len() == 0 {
        None
    } else if labels.last().0 == name {
        Some(labels.last().1)
    } else {
        lookup(labels.drop_last(), name)
    }
}

/// Replaces a label target with the label's address.
pub open spec fn resolve(i: InstructionModel, labels: Seq<(Seq<u8>, u16)>) -> Result<
    InstructionModel,
    AssembleFault,
> {
    match i {
        InstructionModel::Jump(TargetModel::Label(l)) => match lookup(labels, l) {
            Some(a) => Ok(InstructionModel::Jump(TargetModel::Address(a))),
            None => Err(AssembleFault::UnresolvedLabel(l)),
        },
        InstructionModel::JumpConditional(c, TargetModel::Label(l)) => match lookup(labels, l) {
            Some(a) => Ok(InstructionModel::JumpConditional(c, TargetModel::Address(a))),
            None => Err(AssembleFault::UnresolvedLabel(l)),
        },
        _ => Ok(i),
    }
}

/// The first pass over the first `n` lines: the labels defined so far, each
/// with the address of the next instruction, and the address after the
/// last instruction (wrapping at 16 bits).
pub open spec fn first_pass(ls: Seq<Seq<u8>>, n: nat) -> Result<(Seq<(Seq<u8>, u16)>, u16), AssembleFault>
    decreases n,
{
    if n == 0 || n > ls.len() {
        Ok((seq![], 0))
    } else {
        match first_pass(ls, (n - 1) as nat) {
            Err(e) => Err(e),
            Ok((labels, address)) => match line_kind(ls[n - 1]) {
                LineKind::Blank => Ok((labels, address)),
                LineKind::Label(name) => Ok((labels.push((name, address)), address)),
                LineKind::Code(toks) => match parse_words(toks, n as usize) {
                    Err(e) => Err(e),
                    Ok(i) => Ok((labels, ((address + i.size()) % 0x10000) as u16)),
                },
            },
        }
    }
}

/// The second pass over the first `n` lines: their instructions, labels
/// resolved, encoded one after another.
pub open spec fn second_pass(ls: Seq<Seq<u8>>, labels: Seq<(Seq<u8>, u16)>, n: nat) -> Result<
    Seq<u8>,
    AssembleFault,
>
    decreases n,
{
    if n == 0 || n > ls.len() {
        Ok(seq![])
    } else {
        match second_pass(ls, labels, (n - 1) as nat) {
            Err(e) => Err(e),
            Ok(bytes) => match line_kind(ls[n - 1]) {
                LineKind::Code(toks) => match parse_words(toks, n as usize) {
                    Err(e) => Err(e),
                    Ok(i) => match resolve(i, labels) {
                        Err(e) => Err(e),
                        Ok(j) => Ok(bytes + j.encoding()),
                    },
                },
                _ => Ok(bytes),
            },
        }
    }
}

/// The program that the lines `ls` assemble to, or the first error.
pub open spec fn assembly(ls: Seq<Seq<u8>>) -> Result<Seq<u8>, AssembleFault> {
    match first_pass(ls, ls.len()) {
        Err(e) => Err(e),
        Ok((labels, _)) => second_pass(ls, labels, ls.len()),
    }
}

/// An executable result agrees with a mathematical one.
pub open spec fn agrees<T>(r: Result<T, AssembleError>, m: Result<T, AssembleFault>) -> bool {
    match r {
        Ok(x) => m == Ok::<T, AssembleFault>(x),
        Err(e) => m == Err::<T, AssembleFault>(e@),
    }
}

pub open spec fn agrees_instruction(
    r: Result<Instruction, AssembleError>,
    m: Result<InstructionModel, AssembleFault>,
) -> bool {
    match r {
        Ok(i) => m == Ok::<InstructionModel, AssembleFault>(i@),
        Err(e) => m == Err::<InstructionModel, AssembleFault>(e@),
    }
}

fn missing_operand(toks: &Vec<Vec<u8>>, line: usize) -> (e: AssembleError)
    requires
        toks.len() >= 1,
    ensures
        e@ == AssembleFault::MissingOperand(line, byte_strings(toks@)[0]),
{
    AssembleError::MissingOperand { line, token: copy_bytes(&toks[0]) }
}

fn register_at(toks: &Vec<Vec<u8>>, k: usize, line: usize) -> (r: Result<Registers, AssembleError>)
    requires
        toks.len() >= 1,
    ensures
        agrees(r, register_operand(byte_strings(toks@), k as int, line)),
{
    if k >= toks.len() {
        return Err(missing_operand(toks, line));
    }
    match Registers::from_bytes(toks[k].as_slice()) {
        Some(reg) => Ok(reg),
        None => Err(AssembleError::InvalidRegister { line, token: copy_bytes(&toks[k]) }),
    }
}

fn number_at(toks: &Vec<Vec<u8>>, k: usize, line: usize, max: u16) -> (r: Result<u16, AssembleError>)
    requires
        toks.len() >= 1,
    ensures
        match r {
            Ok(v) => number_operand(byte_strings(toks@), k as int, line, max as nat) == Ok::<
                nat,
                AssembleFault,
            >(v as nat),
            Err(e) => number_operand(byte_strings(toks@), k as int, line, max as nat) == Err::<
                nat,
                AssembleFault,
            >(e@),
        },
{
    if k >= toks.len() {
        return Err(missing_operand(toks, line));
    }
    match parse_numeral(toks[k].as_slice(), max) {
        Some(v) => Ok(v),
        None => Err(AssembleError::InvalidNumericLiteral { line, token: copy_bytes(&toks[k]) }),
    }
}

fn target_at(toks: &Vec<Vec<u8>>, k: usize, line: usize) -> (r: Result<JumpTarget, AssembleError>)
    requires
        toks.len() >= 1,
    ensures
        match r {
            Ok(t) => target_operand(byte_strings(toks@), k as int, line) == Ok::<TargetModel, AssembleFault>(
                t@,
            ),
            Err(e) => target_operand(byte_strings(toks@), k as int, line) == Err::<
                TargetModel,
                AssembleFault,
            >(e@),
        },
{
    if k >= toks.len() {
        return Err(missing_operand(toks, line));
    }
    match parse_numeral(toks[k].as_slice(), 0xFFFF) {
        Some(a) => Ok(JumpTarget::Address(a)),
        None => Ok(JumpTarget::Label(copy_bytes(&toks[k]))),
    }
}

fn operation_at(toks: &Vec<Vec<u8>>, k: usize, line: usize) -> (r: Result<ALUOperation, AssembleError>)
    requires
        toks.len() >= 1,
    ensures
        agrees(r, operation_operand(byte_strings(toks@), k as int, line)),
{
    if k >= toks.len() {
        return Err(missing_operand(toks, line));
    }
    match ALUOperation::from_bytes(toks[k].as_slice()) {
        Some(op) => Ok(op),
        None => Err(AssembleError::UnknownMnemonic { line, token: copy_bytes(&toks[k]) }),
    }
}

fn condition_at(toks: &Vec<Vec<u8>>, k: usize, line: usize) -> (r: Result<JumpCondition, AssembleError>)
    requires
        toks.len() >= 1,
    ensures
        agrees(r, condition_operand(byte_strings(toks@), k as int, line)),
{
    if k >= toks.len() {
        return Err(missing_operand(toks, line));
    }
    match JumpCondition::from_bytes(toks[k].as_slice()) {
        Some(c) => Ok(c),
        None => Err(AssembleError::UnknownMnemonic { line, token: copy_bytes(&toks[k]) }),
    }
}

impl Instruction {
    /// Parses one line's words, mnemonic first; `line` numbers the line in
    /// errors.
    pub fn from_tokens(toks: &Vec<Vec<u8>>, line: usize) -> (r: Result<Instruction, AssembleError>)
        requires
            toks.len() >= 1,
        ensures
            agrees_instruction(r, parse_words(byte_strings(toks@), line)),
    {
        let ghost ts = byte_strings(toks@);
        let m = toks[0].as_slice();
        proof {
            reveal_strlit("Nop");
            reveal_strlit("Push");
            reveal_strlit("PopRegister");
            reveal_strlit("PushRegister");
            reveal_strlit("AddStack");
            reveal_strlit("LoadImmediate");
            reveal_strlit("LoadMemory");
            reveal_strlit("Store");
            reveal_strlit("ALU");
            reveal_strlit("Jump");
            reveal_strlit("JumpConditional");
            reveal_strlit("Interrupt");
            assert(m@ == ts[0]);
        }
        if spells_word(m, "Nop") {
            Ok(Instruction::Nop)
        } else if spells_word(m, "Push") {
            match number_at(toks, 1, line, 0xFF) {
                Ok(v) => Ok(Instruction::Push(v as u8)),
                Err(e) => Err(e),
            }
        } else if spells_word(m, "PopRegister") {
            match register_at(toks, 1, line) {
                Ok(reg) => Ok(Instruction::PopRegister(reg)),
                Err(e) => Err(e),
            }
        } else if spells_word(m, "PushRegister") {
            match register_at(toks, 1, line) {
                Ok(reg) => Ok(Instruction::PushRegister(reg)),
                Err(e) => Err(e),
            }
        } else if spells_word(m, "AddStack") {
            Ok(Instruction::AddStack)
        } else if spells_word(m, "LoadImmediate") {
            let reg = match register_at(toks, 1, line) {
                Ok(reg) => reg,
                Err(e) => return Err(e),
            };
            match number_at(toks, 2, line, 0xFF) {
                Ok(v) => Ok(Instruction::LoadImmediate(reg, v as u8)),
                Err(e) => Err(e),
            }
        } else if spells_word(m, "LoadMemory") {
            let reg = match register_at(toks, 1, line) {
                Ok(reg) => reg,
                Err(e) => return Err(e),
            };
            match number_at(toks, 2, line, 0xFFFF) {
                Ok(a) => Ok(Instruction::LoadMemory(reg, a)),
                Err(e) => Err(e),
            }
        } else if spells_word(m, "Store") {
            let reg = match register_at(toks, 1, line) {
                Ok(reg) => reg,
                Err(e) => return Err(e),
            };
            match number_at(toks, 2, line, 0xFFFF) {
                Ok(a) => Ok(Instruction::Store(reg, a)),
                Err(e) => Err(e),
            }
        } else if spells_word(m, "ALU") {
            let op = match operation_at(toks, 1, line) {
                Ok(op) => op,
                Err(e) => return Err(e),
            };
            let reg1 = match register_at(toks, 2, line) {
                Ok(reg) => reg,
                Err(e) => return Err(e),
            };
            match register_at(toks, 3, line) {
                Ok(reg2) => Ok(Instruction::ALU(op, reg1, reg2)),
                Err(e) => Err(e),
            }
        } else if spells_word(m, "Jump") {
            match target_at(toks, 1, line) {
                Ok(t) => Ok(Instruction::Jump(t)),
                Err(e) => Err(e),
            }
        } else if spells_word(m, "JumpConditional") {
            let c = match condition_at(toks, 1, line) {
                Ok(c) => c,
                Err(e) => return Err(e),
            };
            match target_at(toks, 2, line) {
                Ok(t) => Ok(Instruction::JumpConditional(c, t)),
                Err(e) => Err(e),
            }
        } else if spells_word(m, "Interrupt") {
            match number_at(toks, 1, line, 0xF) {
                Ok(s) => Ok(Instruction::Interrupt(s as u8)),
                Err(e) => Err(e),
            }
        } else {
            Err(AssembleError::UnknownMnemonic { line, token: copy_bytes(&toks[0]) })
        }
    }
}

/// A classified line of assembly text.
enum Line {
    Blank,
    Label(Vec<u8>),
    Code(Vec<Vec<u8>>),
}

impl View for Line {
    type V = LineKind;

    closed spec fn view(&self) -> LineKind {
        match self {
            Line::Blank => LineKind::Blank,
            Line::Label(name) => LineKind::Label(name@),
            Line::Code(toks) => LineKind::Code(byte_strings(toks@)),
        }
    }
}

fn classify(line: &[u8]) -> (r: Line)
    ensures
        r@ == line_kind(line@),
        r matches Line::Code(toks) ==> toks.len() >= 1,
{
    let (a, b) = trim_bounds(line);
    if a == b || line[a] == 59 {
        Line::Blank
    } else if line[b - 1] == 58 {
        let name = copy_range(line, a, b - 1);
        proof {
            assert(name@ =~= trim(line@).drop_last());
        }
        Line::Label(name)
    } else {
        let t = copy_range(line, a, b);
        let toks = split_words(t.as_slice());
        proof {
            assert(t@[0] == line@[a as int]);
            lemma_words_of_word(t@);
        }
        Line::Code(toks)
    }
}

/// A text that does not start with whitespace has at least one word.
proof fn lemma_words_of_word(t: Seq<u8>)
    requires
        t.len() > 0,
        !crate::text::is_space(t[0]),
    ensures
        words(t).len() >= 1,
{
    lemma_words_from_nonempty(t.drop_first(), seq![t[0]]);
}

proof fn lemma_words_from_nonempty(s: Seq<u8>, cur: Seq<u8>)
    requires
        cur.len() > 0,
    ensures
        crate::text::words_from(s, cur).len() >= 1,
    decreases s.len(),
{
    if s.len() > 0 && !crate::text::is_space(s[0]) {
        lemma_words_from_nonempty(s.drop_first(), cur.push(s[0]));
    }
}

/// The label table as the passes see it.
pub open spec fn label_table(v: Seq<(Vec<u8>, u16)>) -> Seq<(Seq<u8>, u16)> {
    v.map_values(|p: (Vec<u8>, u16)| (p.0@, p.1))
}

fn lookup_label(labels: &Vec<(Vec<u8>, u16)>, name: &[u8]) -> (r: Option<u16>)
    ensures
        r == lookup(label_table(labels@), name@),
{
    let ghost table = label_table(labels@);
    let mut i: usize = labels.len();
    proof {
        assert(table.take(i as int) =~= table);
    }
    while i > 0
        invariant
            i <= labels.len(),
            table == label_table(labels@),
            lookup(table, name@) == lookup(table.take(i as int), name@),
        decreases i,
    {
        proof {
            assert(table.take(i as int).drop_last() =~= table.take(i - 1));
        }
        if bytes_equal(labels[i - 1].0.as_slice(), name) {
            return Some(labels[i - 1].1);
        }
        i -= 1;
    }
    None
}

fn resolve_labels(ins: Instruction, labels: &Vec<(Vec<u8>, u16)>) -> (r: Result<Instruction, AssembleError>)
    ensures
        agrees_instruction(r, resolve(ins@, label_table(labels@))),
{
    match ins {
        Instruction::Jump(JumpTarget::Label(l)) => match lookup_label(labels, l.as_slice()) {
            Some(a) => Ok(Instruction::Jump(JumpTarget::Address(a))),
            None => Err(AssembleError::UnresolvedLabel { label: l }),
        },
        Instruction::JumpConditional(c, JumpTarget::Label(l)) => match lookup_label(labels, l.as_slice()) {
            Some(a) => Ok(Instruction::JumpConditional(c, JumpTarget::Address(a))),
            None => Err(AssembleError::UnresolvedLabel { label: l }),
        },
        other => Ok(other),
    }
}

/// Whatever a line parses to fits the encoding.
proof fn lemma_parsed_well_formed(toks: Seq<Seq<u8>>, line: usize)
    ensures
        parse_words(toks, line) matches Ok(i) ==> i.well_formed(),
{
}

proof fn lemma_resolved(i: InstructionModel, labels: Seq<(Seq<u8>, u16)>)
    requires
        i.well_formed(),
    ensures
        resolve(i, labels) matches Ok(j) ==> j.well_formed() && !j.has_label(),
{
}

proof fn lemma_first_pass_fails(ls: Seq<Seq<u8>>, i: nat, n: nat)
    requires
        i <= n <= ls.len(),
        first_pass(ls, i) is Err,
    ensures
        first_pass(ls, n) == first_pass(ls, i),
    decreases n - i,
{
    if n > i {
        lemma_first_pass_fails(ls, i, (n - 1) as nat);
    }
}

proof fn lemma_second_pass_fails(ls: Seq<Seq<u8>>, labels: Seq<(Seq<u8>, u16)>, i: nat, n: nat)
    requires
        i <= n <= ls.len(),
        second_pass(ls, labels, i) is Err,
    ensures
        second_pass(ls, labels, n) == second_pass(ls, labels, i),
    decreases n - i,
{
    if n > i {
        lemma_second_pass_fails(ls, labels, i, (n - 1) as nat);
    }
}

/// Assembles lines of text into a program: either every byte of it, or
/// the first error and nothing else.
pub fn assemble_lines(lines: &Vec<Vec<u8>>) -> (r: Result<Vec<u8>, AssembleError>)
    ensures
        match r {
            Ok(bytes) => assembly(byte_strings(lines@)) == Ok::<Seq<u8>, AssembleFault>(bytes@),
            Err(e) => assembly(byte_strings(lines@)) == Err::<Seq<u8>, AssembleFault>(e@),
        },
{
    let ghost ls = byte_strings(lines@);
    let mut labels: Vec<(Vec<u8>, u16)> = Vec::new();
    let mut address: u16 = 0;
    let mut i: usize = 0;
    proof {
        assert(label_table(labels@) =~= seq![]);
    }
    while i < lines.len()
        invariant
            ls == byte_strings(lines@),
            i <= lines.len(),
            first_pass(ls, i as nat) == Ok::<(Seq<(Seq<u8>, u16)>, u16), AssembleFault>(
                (label_table(labels@), address),
            ),
        decreases lines.len() - i,
    {
        let ghost before = label_table(labels@);
        match classify(lines[i].as_slice()) {
            Line::Blank => {},
            Line::Label(name) => {
                let ghost entry = (name@, address);
                labels.push((name, address));
                proof {
                    assert(label_table(labels@) =~= before.push(entry));
                }
            },
            Line::Code(toks) => match Instruction::from_tokens(&toks, i + 1) {
                Ok(ins) => {
                    address = address.wrapping_add(ins.size() as u16);
                },
                Err(e) => {
                    proof {
                        lemma_first_pass_fails(ls, (i + 1) as nat, ls.len());
                    }
                    return Err(e);
                },
            },
        }
        i += 1;
    }
    let ghost table = label_table(labels@);
    let mut bytes: Vec<u8> = Vec::new();
    i = 0;
    while i < lines.len()
        invariant
            ls == byte_strings(lines@),
            i <= lines.len(),
            table == label_table(labels@),
            first_pass(ls, ls.len()) matches Ok((t, _)) && t == table,
            second_pass(ls, table, i as nat) == Ok::<Seq<u8>, AssembleFault>(bytes@),
        decreases lines.len() - i,
    {
        match classify(lines[i].as_slice()) {
            Line::Code(toks) => {
                let ins = match Instruction::from_tokens(&toks, i + 1) {
                    Ok(ins) => ins,
                    Err(e) => {
                        proof {
                            lemma_second_pass_fails(ls, table, (i + 1) as nat, ls.len());
                        }
                        return Err(e);
                    },
                };
                proof {
                    lemma_parsed_well_formed(byte_strings(toks@), (i + 1) as usize);
                    lemma_resolved(ins@, table);
                }
                let resolved = match resolve_labels(ins, &labels) {
                    Ok(j) => j,
                    Err(e) => {
                        proof {
                            lemma_second_pass_fails(ls, table, (i + 1) as nat, ls.len());
                        }
                        return Err(e);
                    },
                };
                let mut encoded = match resolved.encode_u8() {
                    Ok(b) => b,
                    Err(e) => return Err(e),
                };
                bytes.append(&mut encoded);
            },
            _ => {},
        }
        i += 1;
    }
    Ok(bytes)
}

/// Assembles a program from its source text, one line per line feed.
pub fn assemble(source: &[u8]) -> (r: Result<Vec<u8>, AssembleError>)
    ensures
        match r {
            Ok(bytes) => assembly(lines(source@)) == Ok::<Seq<u8>, AssembleFault>(bytes@),
            Err(e) => assembly(lines(source@)) == Err::<Seq<u8>, AssembleFault>(e@),
        },
{
    let ls = split_lines(source);
    assemble_lines(&ls)
}

/// Resolving labels keeps the instruction's size, and a resolved
/// instruction encodes to exactly that many bytes.
proof fn lemma_resolved_size(i: InstructionModel, labels: Seq<(Seq<u8>, u16)>)
    ensures
        resolve(i, labels) matches Ok(j) ==> j.size() == i.size() && j.encoding().len() == j.size(),
{
}

/// The two passes agree on addresses: after any number of lines, the
/// address that the first pass has reached is the number of bytes that the
/// second pass has emitted, modulo 2^16. So each label's address is the
/// offset of the code that follows it, whether a jump to it comes before or
/// after it.
pub proof fn lemma_passes_agree(ls: Seq<Seq<u8>>, labels: Seq<(Seq<u8>, u16)>, n: nat)
    requires
        n <= ls.len(),
        first_pass(ls, n) is Ok,
        second_pass(ls, labels, n) is Ok,
    ensures
        first_pass(ls, n) matches Ok((_, address)) && second_pass(ls, labels, n) matches Ok(bytes)
            && address == bytes.len() % 0x10000,
    decreases n,
{
    if n > 0 {
        lemma_passes_agree(ls, labels, (n - 1) as nat);
        match line_kind(ls[n - 1]) {
            LineKind::Code(toks) => {
                let i = parse_words(toks, n as usize)->Ok_0;
                lemma_resolved_size(i, labels);
                let before = second_pass(ls, labels, (n - 1) as nat)->Ok_0;
                vstd::arithmetic::div_mod::lemma_add_mod_noop(before.len() as int, i.size() as int, 0x10000);
            },
            _ => {},
        }
    }
}

} // verus!
