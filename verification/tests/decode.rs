use sicmulador::isa::{ImmediateN6, ImmediateN8, Instruction, RegLabel};
use sicmulador::memory::MemAddr;
use sicmulador::parsing::{ParseError, RegLabelError};

#[test]
fn decodes_register_form() {
    let inst = Instruction::try_from_str("ADD R2, R0, R1").unwrap();
    assert_eq!(
        inst,
        Instruction::ADD { a: RegLabel(0), b: RegLabel(1), d: RegLabel(2) }
    );
    assert_eq!(inst.get_verb(), "ADD");
}

#[test]
fn decodes_not_and_nop() {
    assert_eq!(
        Instruction::try_from_str("NOT R3, R4").unwrap(),
        Instruction::NOT { a: RegLabel(4), d: RegLabel(3) }
    );
    assert_eq!(Instruction::try_from_str("NOP").unwrap(), Instruction::NOP);
}

#[test]
fn decodes_loads_and_stores() {
    assert_eq!(
        Instruction::try_from_str("LD R0, 20(R2)").unwrap(),
        Instruction::LD { d: RegLabel(0), a: RegLabel(2), offset: ImmediateN6(20) }
    );
    assert_eq!(
        Instruction::try_from_str("STB 1(R1), R2").unwrap(),
        Instruction::STB { offset: ImmediateN6(1), a: RegLabel(1), b: RegLabel(2) }
    );
}

#[test]
fn decodes_branches_and_immediates() {
    assert_eq!(
        Instruction::try_from_str("BZ R1, -1").unwrap(),
        Instruction::BZ { a: RegLabel(1), offset: ImmediateN8(0xFF) }
    );
    assert_eq!(
        Instruction::try_from_str("MOVI R0, 0xFF").unwrap(),
        Instruction::MOVI { d: RegLabel(0), n: ImmediateN8(0xFF) }
    );
    assert_eq!(
        Instruction::try_from_str("ADDI R1, R2, -32").unwrap(),
        Instruction::ADDI { a: RegLabel(2), b: ImmediateN6(0x20), d: RegLabel(1) }
    );
    assert_eq!(
        Instruction::try_from_str("IN R0, 0x10").unwrap(),
        Instruction::IN { d: RegLabel(0), n: MemAddr(0x10) }
    );
    assert_eq!(
        Instruction::try_from_str("OUT 9, R3").unwrap(),
        Instruction::OUT { d: MemAddr(9), n: RegLabel(3) }
    );
    assert_eq!(
        Instruction::try_from_str("JALR R2, R1").unwrap(),
        Instruction::JALR { a: RegLabel(1), d: RegLabel(2) }
    );
}

#[test]
fn rejects_unknown_verb() {
    assert_eq!(
        Instruction::try_from_str("FROB R1, R2"),
        Err(ParseError::UnrecognizedInstruction)
    );
    assert_eq!(Instruction::try_from_str(""), Err(ParseError::MissingVerb));
}

#[test]
fn rejects_missing_operands() {
    assert_eq!(Instruction::try_from_str("ADD R1, R2"), Err(ParseError::MissingReg));
    assert_eq!(Instruction::try_from_str("MOVI R1"), Err(ParseError::MissingImmediate));
}

#[test]
fn rejects_bad_register_tokens() {
    assert_eq!(
        Instruction::try_from_str("ADD R9, R1, R2"),
        Err(ParseError::RegLabel(RegLabelError::UnrecognizedNumber))
    );
    assert_eq!(
        Instruction::try_from_str("ADD R, R1, R2"),
        Err(ParseError::RegLabel(RegLabelError::MissingNumber))
    );
}

#[test]
fn rejects_immediates_exceeding_width() {
    // 100 does not fit a 6-bit two's-complement immediate.
    assert_eq!(
        Instruction::try_from_str("ADDI R1, R2, 100"),
        Err(ParseError::ImmediateOverflow)
    );
    // 0x1234 does not fit an 8-bit immediate.
    assert_eq!(
        Instruction::try_from_str("MOVI R1, 0x1234"),
        Err(ParseError::ImmediateOverflow)
    );
    // A malformed numeral is a parse fault, not a width fault.
    assert_eq!(Instruction::try_from_str("MOVI R1, xyz"), Err(ParseError::ParseInt));
}
