use vstd::prelude::*;

use crate::memory::MemAddr;

verus! {

/// A register name: one of the eight slots R0 to R7.
#[derive(Clone, Copy, PartialEq, Eq, Structural, Debug)]
pub struct RegLabel(pub u8);

/// A 6-bit two's-complement immediate, kept as its 6-bit pattern.
#[derive(Clone, Copy, PartialEq, Eq, Structural, Debug)]
pub struct ImmediateN6(pub u8);

/// An 8-bit two's-complement immediate, kept as its 8-bit pattern.
#[derive(Clone, Copy, PartialEq, Eq, Structural, Debug)]
pub struct ImmediateN8(pub u8);

impl RegLabel {
    /// A register label is meaningful only for the eight register slots.
    pub open spec fn wf(self) -> bool {
        self.0 < 8
    }
}

impl ImmediateN6 {
    /// A 6-bit immediate pattern uses only its low 6 bits.
    pub open spec fn wf(self) -> bool {
        self.0 < 64
    }
}

/// One instruction of the simulated machine: the operation together with its
/// register, immediate or address operands.
#[derive(Clone, Copy, PartialEq, Eq, Structural, Debug)]
#[allow(missing_docs)]
pub enum Instruction {
    AND { a: RegLabel, b: RegLabel, d: RegLabel },
    OR { a: RegLabel, b: RegLabel, d: RegLabel },
    XOR { a: RegLabel, b: RegLabel, d: RegLabel },
    NOT { a: RegLabel, d: RegLabel },
    ADD { a: RegLabel, b: RegLabel, d: RegLabel },
    SUB { a: RegLabel, b: RegLabel, d: RegLabel },
    SHA { a: RegLabel, b: RegLabel, d: RegLabel },
    SHL { a: RegLabel, b: RegLabel, d: RegLabel },
    CMPLT { a: RegLabel, b: RegLabel, d: RegLabel },
    CMPLE { a: RegLabel, b: RegLabel, d: RegLabel },
    CMPEQ { a: RegLabel, b: RegLabel, d: RegLabel },
    CMPLTU { a: RegLabel, b: RegLabel, d: RegLabel },
    CMPLEU { a: RegLabel, b: RegLabel, d: RegLabel },
    ADDI { a: RegLabel, b: ImmediateN6, d: RegLabel },
    LD { d: RegLabel, a: RegLabel, offset: ImmediateN6 },
    LDB { d: RegLabel, a: RegLabel, offset: ImmediateN6 },
    ST { offset: ImmediateN6, a: RegLabel, b: RegLabel },
    STB { offset: ImmediateN6, a: RegLabel, b: RegLabel },
    BZ { a: RegLabel, offset: ImmediateN8 },
    BNZ { a: RegLabel, offset: ImmediateN8 },
    MOVI { d: RegLabel, n: ImmediateN8 },
    MOVHI { d: RegLabel, n: ImmediateN8 },
    IN { d: RegLabel, n: MemAddr },
    OUT { d: MemAddr, n: RegLabel },
    JALR { a: RegLabel, d: RegLabel },
    NOP,
}

impl Instruction {
    /// Every register label names one of the eight slots, and every 6-bit
    /// immediate uses only its low 6 bits.
    pub open spec fn wf(self) -> bool {
        match self {
            Instruction::AND { a, b, d } => a.wf() && b.wf() && d.wf(),
            Instruction::OR { a, b, d } => a.wf() && b.wf() && d.wf(),
            Instruction::XOR { a, b, d } => a.wf() && b.wf() && d.wf(),
            Instruction::NOT { a, d } => a.wf() && d.wf(),
            Instruction::ADD { a, b, d } => a.wf() && b.wf() && d.wf(),
            Instruction::SUB { a, b, d } => a.wf() && b.wf() && d.wf(),
            Instruction::SHA { a, b, d } => a.wf() && b.wf() && d.wf(),
            Instruction::SHL { a, b, d } => a.wf() && b.wf() && d.wf(),
            Instruction::CMPLT { a, b, d } => a.wf() && b.wf() && d.wf(),
            Instruction::CMPLE { a, b, d } => a.wf() && b.wf() && d.wf(),
            Instruction::CMPEQ { a, b, d } => a.wf() && b.wf() && d.wf(),
            Instruction::CMPLTU { a, b, d } => a.wf() && b.wf() && d.wf(),
            Instruction::CMPLEU { a, b, d } => a.wf() && b.wf() && d.wf(),
            Instruction::ADDI { a, b, d } => a.wf() && b.wf() && d.wf(),
            Instruction::LD { d, a, offset } => d.wf() && a.wf() && offset.wf(),
            Instruction::LDB { d, a, offset } => d.wf() && a.wf() && offset.wf(),
            Instruction::ST { offset, a, b } => offset.wf() && a.wf() && b.wf(),
            Instruction::STB { offset, a, b } => offset.wf() && a.wf() && b.wf(),
            Instruction::BZ { a, offset } => a.wf(),
            Instruction::BNZ { a, offset } => a.wf(),
            Instruction::MOVI { d, n } => d.wf(),
            Instruction::MOVHI { d, n } => d.wf(),
            Instruction::IN { d, n } => d.wf(),
            Instruction::OUT { d, n } => n.wf(),
            Instruction::JALR { a, d } => a.wf() && d.wf(),
            Instruction::NOP => true,
        }
    }

    /// The mnemonic that names the instruction's operation.
    pub open spec fn spec_verb(self) -> Seq<char> {
        match self {
            Instruction::AND { .. } => "AND"@,
            Instruction::OR { .. } => "OR"@,
            Instruction::XOR { .. } => "XOR"@,
            Instruction::NOT { .. } => "NOT"@,
            Instruction::ADD { .. } => "ADD"@,
            Instruction::SUB { .. } => "SUB"@,
            Instruction::SHA { .. } => "SHA"@,
            Instruction::SHL { .. } => "SHL"@,
            Instruction::CMPLT { .. } => "CMPLT"@,
            Instruction::CMPLE { .. } => "CMPLE"@,
            Instruction::CMPEQ { .. } => "CMPEQ"@,
            Instruction::CMPLTU { .. } => "CMPLTU"@,
            Instruction::CMPLEU { .. } => "CMPLEU"@,
            Instruction::ADDI { .. } => "ADDI"@,
            Instruction::LD { .. } => "LD"@,
            Instruction::LDB { .. } => "LDB"@,
            Instruction::ST { .. } => "ST"@,
            Instruction::STB { .. } => "STB"@,
            Instruction::BZ { .. } => "BZ"@,
            Instruction::BNZ { .. } => "BNZ"@,
            Instruction::MOVI { .. } => "MOVI"@,
            Instruction::MOVHI { .. } => "MOVHI"@,
            Instruction::IN { .. } => "IN"@,
            Instruction::OUT { .. } => "OUT"@,
            Instruction::JALR { .. } => "JALR"@,
            Instruction::NOP => "NOP"@,
        }
    }

    /// Extract the verb that the instruction uses: in `ADD R1, R2, R3` the
    /// verb is `ADD`.
    pub fn get_verb(&self) -> (r: String)
        ensures
            r@ == self.spec_verb(),
    {
        match self {
            Instruction::AND { .. } => "AND".to_owned(),
            Instruction::OR { .. } => "OR".to_owned(),
            Instruction::XOR { .. } => "XOR".to_owned(),
            Instruction::NOT { .. } => "NOT".to_owned(),
            Instruction::ADD { .. } => "ADD".to_owned(),
            Instruction::SUB { .. } => "SUB".to_owned(),
            Instruction::SHA { .. } => "SHA".to_owned(),
            Instruction::SHL { .. } => "SHL".to_owned(),
            Instruction::CMPLT { .. } => "CMPLT".to_owned(),
            Instruction::CMPLE { .. } => "CMPLE".to_owned(),
            Instruction::CMPEQ { .. } => "CMPEQ".to_owned(),
            Instruction::CMPLTU { .. } => "CMPLTU".to_owned(),
            Instruction::CMPLEU { .. } => "CMPLEU".to_owned(),
            Instruction::ADDI { .. } => "ADDI".to_owned(),
            Instruction::LD { .. } => "LD".to_owned(),
            Instruction::LDB { .. } => "LDB".to_owned(),
            Instruction::ST { .. } => "ST".to_owned(),
            Instruction::STB { .. } => "STB".to_owned(),
            Instruction::BZ { .. } => "BZ".to_owned(),
            Instruction::BNZ { .. } => "BNZ".to_owned(),
            Instruction::MOVI { .. } => "MOVI".to_owned(),
            Instruction::MOVHI { .. } => "MOVHI".to_owned(),
            Instruction::IN { .. } => "IN".to_owned(),
            Instruction::OUT { .. } => "OUT".to_owned(),
            Instruction::JALR { .. } => "JALR".to_owned(),
            Instruction::NOP => "NOP".to_owned(),
        }
    }

    /// Whether the instruction goes through the memory subsystem (the slow
    /// path of the simulated machine).
    pub fn is_mem(&self) -> (r: bool)
        ensures
            r == self.spec_is_mem(),
    {
        match self {
            Instruction::LD { .. } => true,
            Instruction::LDB { .. } => true,
            Instruction::ST { .. } => true,
            Instruction::STB { .. } => true,
            _ => false,
        }
    }

    /// Whether the instruction goes through the memory subsystem.
    pub open spec fn spec_is_mem(self) -> bool {
        match self {
            Instruction::LD { .. } => true,
            Instruction::LDB { .. } => true,
            Instruction::ST { .. } => true,
            Instruction::STB { .. } => true,
            _ => false,
        }
    }
}

} // verus!
