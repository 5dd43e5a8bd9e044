//! The opcode table of the Iridium instruction set: an enumerated opcode kind
//! with a total mapping from bytes and from mnemonic strings.  Unknown bytes
//! and unknown mnemonics both map to `IGL`.

use vstd::prelude::*;

use crate::text::str_eq;

verus! {

/// One instruction kind, identified by a byte and a lowercase mnemonic.
#[derive(Debug, Clone, Copy, PartialEq, Eq, Structural)]
pub enum Opcode {
    LOAD,
    ADD,
    SUB,
    MUL,
    DIV,
    HLT,
    JMP,
    JMPF,
    JMPB,
    EQ,
    NEQ,
    GT,
    LT,
    GTE,
    LTE,
    JMPE,
    NOP,
    ALOC,
    INC,
    DEC,
    DJMPE,
    PRTS,
    IGL,
}

/// The opcode a byte decodes to.  Bytes 0 through 21 are assigned densely;
/// every other byte decodes to `IGL`.
pub open spec fn opcode_of_byte(b: u8) -> Opcode {
    if b == 0 {
        Opcode::LOAD
    } else if b == 1 {
        Opcode::ADD
    } else if b == 2 {
        Opcode::SUB
    } else if b == 3 {
        Opcode::MUL
    } else if b == 4 {
        Opcode::DIV
    } else if b == 5 {
        Opcode::HLT
    } else if b == 6 {
        Opcode::JMP
    } else if b == 7 {
        Opcode::JMPF
    } else if b == 8 {
        Opcode::JMPB
    } else if b == 9 {
        Opcode::EQ
    } else if b == 10 {
        Opcode::NEQ
    } else if b == 11 {
        Opcode::GT
    } else if b == 12 {
        Opcode::LT
    } else if b == 13 {
        Opcode::GTE
    } else if b == 14 {
        Opcode::LTE
    } else if b == 15 {
        Opcode::JMPE
    } else if b == 16 {
        Opcode::NOP
    } else if b == 17 {
        Opcode::ALOC
    } else if b == 18 {
        Opcode::INC
    } else if b == 19 {
        Opcode::DEC
    } else if b == 20 {
        Opcode::DJMPE
    } else if b == 21 {
        Opcode::PRTS
    } else {
        Opcode::IGL
    }
}

/// The byte an opcode is emitted as.  `IGL` has no assigned byte of its own
/// and is given the first unassigned value.
pub open spec fn byte_of_opcode(op: Opcode) -> u8 {
    match op {
        Opcode::LOAD => 0,
        Opcode::ADD => 1,
        Opcode::SUB => 2,
        Opcode::MUL => 3,
        Opcode::DIV => 4,
        Opcode::HLT => 5,
        Opcode::JMP => 6,
        Opcode::JMPF => 7,
        Opcode::JMPB => 8,
        Opcode::EQ => 9,
        Opcode::NEQ => 10,
        Opcode::GT => 11,
        Opcode::LT => 12,
        Opcode::GTE => 13,
        Opcode::LTE => 14,
        Opcode::JMPE => 15,
        Opcode::NOP => 16,
        Opcode::ALOC => 17,
        Opcode::INC => 18,
        Opcode::DEC => 19,
        Opcode::DJMPE => 20,
        Opcode::PRTS => 21,
        Opcode::IGL => 22,
    }
}

/// The opcode a mnemonic names.  Mnemonics are case-sensitive lowercase;
/// anything else maps to `IGL`.
pub open spec fn opcode_of_mnemonic(s: Seq<char>) -> Opcode {
    if s == "load"@ {
        Opcode::LOAD
    } else if s == "add"@ {
        Opcode::ADD
    } else if s == "sub"@ {
        Opcode::SUB
    } else if s == "mul"@ {
        Opcode::MUL
    } else if s == "div"@ {
        Opcode::DIV
    } else if s == "hlt"@ {
        Opcode::HLT
    } else if s == "jmp"@ {
        Opcode::JMP
    } else if s == "jmpf"@ {
        Opcode::JMPF
    } else if s == "jmpb"@ {
        Opcode::JMPB
    } else if s == "eq"@ {
        Opcode::EQ
    } else if s == "neq"@ {
        Opcode::NEQ
    } else if s == "gt"@ {
        Opcode::GT
    } else if s == "lt"@ {
        Opcode::LT
    } else if s == "gte"@ {
        Opcode::GTE
    } else if s == "lte"@ {
        Opcode::LTE
    } else if s == "jmpe"@ {
        Opcode::JMPE
    } else if s == "nop"@ {
        Opcode::NOP
    } else if s == "aloc"@ {
        Opcode::ALOC
    } else if s == "inc"@ {
        Opcode::INC
    } else if s == "dec"@ {
        Opcode::DEC
    } else if s == "djmpe"@ {
        Opcode::DJMPE
    } else if s == "prts"@ {
        Opcode::PRTS
    } else {
        Opcode::IGL
    }
}

impl Opcode {
    /// Decodes a byte; total, with unknown bytes decoding to `IGL`.
    pub fn from_byte(b: u8) -> (r: Opcode)
        ensures
            r == opcode_of_byte(b),
    {
        match b {
            0 => Opcode::LOAD,
            1 => Opcode::ADD,
            2 => Opcode::SUB,
            3 => Opcode::MUL,
            4 => Opcode::DIV,
            5 => Opcode::HLT,
            6 => Opcode::JMP,
            7 => Opcode::JMPF,
            8 => Opcode::JMPB,
            9 => Opcode::EQ,
            10 => Opcode::NEQ,
            11 => Opcode::GT,
            12 => Opcode::LT,
            13 => Opcode::GTE,
            14 => Opcode::LTE,
            15 => Opcode::JMPE,
            16 => Opcode::NOP,
            17 => Opcode::ALOC,
            18 => Opcode::INC,
            19 => Opcode::DEC,
            20 => Opcode::DJMPE,
            21 => Opcode::PRTS,
            _ => Opcode::IGL,
        }
    }

    /// The byte this opcode is emitted as.
    pub fn to_byte(&self) -> (r: u8)
        ensures
            r == byte_of_opcode(*self),
    {
        match self {
            Opcode::LOAD => 0,
            Opcode::ADD => 1,
            Opcode::SUB => 2,
            Opcode::MUL => 3,
            Opcode::DIV => 4,
            Opcode::HLT => 5,
            Opcode::JMP => 6,
            Opcode::JMPF => 7,
            Opcode::JMPB => 8,
            Opcode::EQ => 9,
            Opcode::NEQ => 10,
            Opcode::GT => 11,
            Opcode::LT => 12,
            Opcode::GTE => 13,
            Opcode::LTE => 14,
            Opcode::JMPE => 15,
            Opcode::NOP => 16,
            Opcode::ALOC => 17,
            Opcode::INC => 18,
            Opcode::DEC => 19,
            Opcode::DJMPE => 20,
            Opcode::PRTS => 21,
            Opcode::IGL => 22,
        }
    }

    /// Looks a mnemonic up; total, with unknown mnemonics mapping to `IGL`.
    pub fn from_mnemonic(s: &str) -> (r: Opcode)
        ensures
            r == opcode_of_mnemonic(s@),
    {
        if str_eq(s, "load") {
            Opcode::LOAD
        } else if str_eq(s, "add") {
            Opcode::ADD
        } else if str_eq(s, "sub") {
            Opcode::SUB
        } else if str_eq(s, "mul") {
            Opcode::MUL
        } else if str_eq(s, "div") {
            Opcode::DIV
        } else if str_eq(s, "hlt") {
            Opcode::HLT
        } else if str_eq(s, "jmp") {
            Opcode::JMP
        } else if str_eq(s, "jmpf") {
            Opcode::JMPF
        } else if str_eq(s, "jmpb") {
            Opcode::JMPB
        } else if str_eq(s, "eq") {
            Opcode::EQ
        } else if str_eq(s, "neq") {
            Opcode::NEQ
        } else if str_eq(s, "gt") {
            Opcode::GT
        } else if str_eq(s, "lt") {
            Opcode::LT
        } else if str_eq(s, "gte") {
            Opcode::GTE
        } else if str_eq(s, "lte") {
            Opcode::LTE
        } else if str_eq(s, "jmpe") {
            Opcode::JMPE
        } else if str_eq(s, "nop") {
            Opcode::NOP
        } else if str_eq(s, "aloc") {
            Opcode::ALOC
        } else if str_eq(s, "inc") {
            Opcode::INC
        } else if str_eq(s, "dec") {
            Opcode::DEC
        } else if str_eq(s, "djmpe") {
            Opcode::DJMPE
        } else if str_eq(s, "prts") {
            Opcode::PRTS
        } else {
            Opcode::IGL
        }
    }
}

impl From<u8> for Opcode {
    /// Decodes a byte; unknown bytes decode to `IGL`.
    fn from(b: u8) -> (r: Opcode) {
        Opcode::from_byte(b)
    }
}

impl vstd::std_specs::convert::FromSpecImpl<u8> for Opcode {
    open spec fn obeys_from_spec() -> bool {
        true
    }

    open spec fn from_spec(b: u8) -> Self {
        opcode_of_byte(b)
    }
}

impl<'a> From<&'a str> for Opcode {
    /// Looks a mnemonic up; unknown mnemonics map to `IGL`.
    fn from(s: &'a str) -> (r: Opcode) {
        Opcode::from_mnemonic(s)
    }
}

impl<'a> vstd::std_specs::convert::FromSpecImpl<&'a str> for Opcode {
    open spec fn obeys_from_spec() -> bool {
        true
    }

    open spec fn from_spec(s: &'a str) -> Self {
        opcode_of_mnemonic(s@)
    }
}

/// Decoder totality: every byte decodes to exactly one opcode.  On the
/// assigned range the decoding is injective and never yields `IGL`, and
/// re-encoding gives the byte back; every byte outside that range decodes
/// to `IGL`.
pub proof fn lemma_decoder_totality(b: u8)
    ensures
        b <= 21 ==> opcode_of_byte(b) != Opcode::IGL,
        b <= 21 ==> byte_of_opcode(opcode_of_byte(b)) == b,
        b > 21 ==> opcode_of_byte(b) == Opcode::IGL,
{
}

/// Encoding then decoding an opcode gives the opcode back.
pub proof fn lemma_opcode_round_trip(op: Opcode)
    ensures
        opcode_of_byte(byte_of_opcode(op)) == op,
{
}

} // verus!
