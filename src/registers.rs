use vstd::prelude::*;
use vstd::string::*;

use crate::text::{spells, spells_word};

verus! {

/// The eight general-purpose 8-bit registers, by ordinal 0 to 7.
#[derive(Debug, Clone, Copy, PartialEq, Eq, Structural)]
pub enum Registers {
    A,
    B,
    C,
    D,
    E,
    F,
    H,
    L,
}

impl Registers {
    /// The register's ordinal, which is also its index in the register file.
    pub open spec fn ordinal(self) -> u8 {
        match self {
            Registers::A => 0,
            Registers::B => 1,
            Registers::C => 2,
            Registers::D => 3,
            Registers::E => 4,
            Registers::F => 5,
            Registers::H => 6,
            Registers::L => 7,
        }
    }

    /// The register whose ordinal is `value`, if any.
    pub open spec fn with_ordinal(value: u8) -> Option<Registers> {
        if value == 0 {
            Some(Registers::A)
        } else if value == 1 {
            Some(Registers::B)
        } else if value == 2 {
            Some(Registers::C)
        } else if value == 3 {
            Some(Registers::D)
        } else if value == 4 {
            Some(Registers::E)
        } else if value == 5 {
            Some(Registers::F)
        } else if value == 6 {
            Some(Registers::H)
        } else if value == 7 {
            Some(Registers::L)
        } else {
            None
        }
    }

    /// The register's name in assembly text.
    pub open spec fn name(self) -> Seq<char> {
        match self {
            Registers::A => "A"@,
            Registers::B => "B"@,
            Registers::C => "C"@,
            Registers::D => "D"@,
            Registers::E => "E"@,
            Registers::F => "F"@,
            Registers::H => "H"@,
            Registers::L => "L"@,
        }
    }

    /// The register that `tok` names, if any.
    pub open spec fn named(tok: Seq<u8>) -> Option<Registers> {
        if spells(tok, Registers::A.name()) {
            Some(Registers::A)
        } else if spells(tok, Registers::B.name()) {
            Some(Registers::B)
        } else if spells(tok, Registers::C.name()) {
            Some(Registers::C)
        } else if spells(tok, Registers::D.name()) {
            Some(Registers::D)
        } else if spells(tok, Registers::E.name()) {
            Some(Registers::E)
        } else if spells(tok, Registers::F.name()) {
            Some(Registers::F)
        } else if spells(tok, Registers::H.name()) {
            Some(Registers::H)
        } else if spells(tok, Registers::L.name()) {
            Some(Registers::L)
        } else {
            None
        }
    }

    pub proof fn lemma_ordinal_round_trip(self)
        ensures
            self.ordinal() < 8,
            Registers::with_ordinal(self.ordinal()) == Some(self),
    {
    }

    pub fn index(self) -> (r: usize)
        ensures
            r == self.ordinal(),
            r < 8,
    {
        match self {
            Registers::A => 0,
            Registers::B => 1,
            Registers::C => 2,
            Registers::D => 3,
            Registers::E => 4,
            Registers::F => 5,
            Registers::H => 6,
            Registers::L => 7,
        }
    }

    pub fn from_u8_custom(value: u8) -> (r: Option<Self>)
        ensures
            r == Registers::with_ordinal(value),
            r is Some <==> value < 8,
            r matches Some(reg) ==> reg.ordinal() == value,
    {
        match value {
            0 => Some(Registers::A),
            1 => Some(Registers::B),
            2 => Some(Registers::C),
            3 => Some(Registers::D),
            4 => Some(Registers::E),
            5 => Some(Registers::F),
            6 => Some(Registers::H),
            7 => Some(Registers::L),
            _ => None,
        }
    }

    /// The register named by the ASCII bytes `tok`.
    pub fn from_bytes(tok: &[u8]) -> (r: Option<Self>)
        ensures
            r == Registers::named(tok@),
    {
        proof {
            reveal_strlit("A");
            reveal_strlit("B");
            reveal_strlit("C");
            reveal_strlit("D");
            reveal_strlit("E");
            reveal_strlit("F");
            reveal_strlit("H");
            reveal_strlit("L");
        }
        let r = if spells_word(tok, "A") {
            Some(Registers::A)
        } else if spells_word(tok, "B") {
            Some(Registers::B)
        } else if spells_word(tok, "C") {
            Some(Registers::C)
        } else if spells_word(tok, "D") {
            Some(Registers::D)
        } else if spells_word(tok, "E") {
            Some(Registers::E)
        } else if spells_word(tok, "F") {
            Some(Registers::F)
        } else if spells_word(tok, "H") {
            Some(Registers::H)
        } else if spells_word(tok, "L") {
            Some(Registers::L)
        } else {
            None
        };
        r
    }

    pub fn from_str_custom(value: &str) -> (r: Option<Self>)
        ensures
            r == Registers::named(value.spec_bytes()),
    {
        Registers::from_bytes(value.as_bytes())
    }
}

/// The status flags, each one bit of the flags register.
#[derive(Debug, Clone, Copy, PartialEq, Eq, Structural)]
pub enum Flags {
    Zero,
    Overflow,
}

impl Flags {
    pub open spec fn spec_mask(self) -> u8 {
        match self {
            Flags::Zero => 1,
            Flags::Overflow => 2,
        }
    }

    /// The flag's bit in the flags register.
    #[verifier::when_used_as_spec(spec_mask)]
    pub fn mask(self) -> (r: u8)
        ensures
            r == self.spec_mask(),
    {
        match self {
            Flags::Zero => 1,
            Flags::Overflow => 2,
        }
    }
}

} // verus!
