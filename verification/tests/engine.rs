use std::collections::HashMap;

use sicmulador::calc::{se_6, se_8, Reg};
use sicmulador::execute::{
    ExecError, OutEvent, ProgCounter, Processador, Registers, StepOutcome, Value16Bit,
};
use sicmulador::isa::Instruction;
use sicmulador::memory::{MemAddr, Memory};
use sicmulador::parse_instructions_from_str;

fn fresh_cpu(program: &str) -> Processador {
    let instrs = parse_instructions_from_str(program.to_string()).unwrap();
    Processador::new(
        Registers::default(),
        Memory::new(),
        ProgCounter(0),
        instrs,
        HashMap::new(),
    )
}

#[test]
fn scenario_three_instructions_add() {
    let mut cpu = fresh_cpu("MOVI R0, 5\nMOVI R1, 3\nADD R2, R0, R1");
    assert_eq!(cpu.execute_next(), Ok(StepOutcome::Ran(None)));
    assert_eq!(cpu.execute_next(), Ok(StepOutcome::Ran(None)));
    assert_eq!(cpu.execute_next(), Ok(StepOutcome::Ran(None)));
    assert_eq!(cpu.regs.0[2].0, 8);
    assert_eq!(cpu.pc.0, 6);
    // No instruction at PC = 6: the run terminates cleanly.
    assert_eq!(cpu.execute_next(), Ok(StepOutcome::Halted));
    assert_eq!(cpu.pc.0, 6);
}

#[test]
fn pc_advances_by_two_without_branch() {
    let mut cpu = fresh_cpu("NOP\nNOP");
    assert_eq!(cpu.pc.0, 0);
    cpu.execute_next().unwrap();
    assert_eq!(cpu.pc.0, 2);
    cpu.execute_next().unwrap();
    assert_eq!(cpu.pc.0, 4);
}

#[test]
fn bz_taken_iff_register_zero() {
    // R0 is zero: the branch lands at PC-after-fetch + 2 * offset.
    let mut cpu = fresh_cpu("BZ R0, 2");
    cpu.execute_next().unwrap();
    assert_eq!(cpu.pc.0, 2 + 4);

    // R0 nonzero: not taken, PC still advances by 2.
    let mut cpu = fresh_cpu("MOVI R0, 1\nBZ R0, 2");
    cpu.execute_next().unwrap();
    cpu.execute_next().unwrap();
    assert_eq!(cpu.pc.0, 4);
}

#[test]
fn bnz_taken_iff_register_nonzero() {
    let mut cpu = fresh_cpu("MOVI R0, 1\nBNZ R0, 3");
    cpu.execute_next().unwrap();
    cpu.execute_next().unwrap();
    assert_eq!(cpu.pc.0, 4 + 6);

    let mut cpu = fresh_cpu("BNZ R0, 3");
    cpu.execute_next().unwrap();
    assert_eq!(cpu.pc.0, 2);
}

#[test]
fn backward_branch_with_negative_offset() {
    // Offset -2 from PC-after-fetch 2 lands back at address 0 - 2 = wrap;
    // use PC 4 instead: fetch at 4, advance to 6, offset -2 lands at 2.
    let mut cpu = fresh_cpu("NOP\nNOP\nBNZ R1, -2");
    cpu.regs.0[1] = Reg(1);
    cpu.execute_next().unwrap();
    cpu.execute_next().unwrap();
    cpu.execute_next().unwrap();
    assert_eq!(cpu.pc.0, 2);
}

#[test]
fn sign_extension_six_and_eight_bits() {
    assert_eq!(se_6(0b011111), 31);
    assert_eq!(se_6(0b100000), 0xFFE0); // -32 in two's complement
    assert_eq!(se_8(0x7F), 127);
    assert_eq!(se_8(0x80), 0xFF80); // -128 in two's complement
    assert_eq!(se_8(0xFF), 0xFFFF); // -1 in two's complement
}

#[test]
fn sha_preserves_sign_shl_zero_fills() {
    // Bit 4 set in the shift operand selects a right shift by 1.
    let sha = Reg(0x8000).sha(Reg(0x11));
    assert_eq!(sha.0, 0xC000); // sign bit replicated
    let shl = Reg(0x8000).shl(Reg(0x11));
    assert_eq!(shl.0, 0x4000); // zero filled

    // A positive value stays positive under SHA.
    assert_eq!(Reg(0x4000).sha(Reg(0x12)).0, 0x1000);
    // Left shifts are identical for both.
    assert_eq!(Reg(0x0001).sha(Reg(0x03)).0, 0x0008);
    assert_eq!(Reg(0x0001).shl(Reg(0x03)).0, 0x0008);
}

#[test]
fn scenario_store_byte_load_byte() {
    // R1 = 0x10, R2 = 0x1F. STB stores only the low nibble of R2 at R1;
    // LDB loads it back sign-extended.
    let mut cpu = fresh_cpu("NOP");
    cpu.regs.0[1] = Reg(0x10);
    cpu.regs.0[2] = Reg(0x1F);
    let stb = Instruction::try_from_str("STB 0(R1), R2").unwrap();
    cpu.execute_raw(&stb).unwrap();
    assert_eq!(cpu.memory.get_byte(&MemAddr(0x10)), Some(0xF));
    let ldb = Instruction::try_from_str("LDB R3, 0(R1)").unwrap();
    cpu.execute_raw(&ldb).unwrap();
    assert_eq!(cpu.regs.0[3].0, 15);
}

#[test]
fn store_word_load_word_with_offset() {
    let mut cpu = fresh_cpu("NOP");
    cpu.regs.0[1] = Reg(0x0100);
    cpu.regs.0[2] = Reg(0xBEEF);
    let st = Instruction::try_from_str("ST 4(R1), R2").unwrap();
    cpu.execute_raw(&st).unwrap();
    assert_eq!(cpu.memory.get_word(&MemAddr(0x0104)), Some(0xBEEF));
    let ld = Instruction::try_from_str("LD R3, 4(R1)").unwrap();
    cpu.execute_raw(&ld).unwrap();
    assert_eq!(cpu.regs.0[3].0, 0xBEEF);
}

#[test]
fn load_from_uninitialized_memory_faults() {
    let mut cpu = fresh_cpu("NOP");
    let ld = Instruction::try_from_str("LD R0, 0(R1)").unwrap();
    assert_eq!(cpu.execute_raw(&ld), Err(ExecError::UninitializedWord { addr: 0 }));
    let ldb = Instruction::try_from_str("LDB R0, 2(R1)").unwrap();
    assert_eq!(cpu.execute_raw(&ldb), Err(ExecError::UninitializedByte { addr: 2 }));
}

#[test]
fn io_read_and_out_event() {
    let instrs = parse_instructions_from_str("IN R0, 5\nOUT 9, R0".to_string()).unwrap();
    let io = HashMap::from([(5u16, Value16Bit(0x0077))]);
    let mut cpu = Processador::new(
        Registers::default(),
        Memory::new(),
        ProgCounter(0),
        instrs,
        io,
    );
    assert_eq!(cpu.execute_next(), Ok(StepOutcome::Ran(None)));
    assert_eq!(cpu.regs.0[0].0, 0x0077);
    assert_eq!(
        cpu.execute_next(),
        Ok(StepOutcome::Ran(Some(OutEvent { addr: 9, value: 0x0077 })))
    );
}

#[test]
fn undefined_io_read_faults() {
    let mut cpu = fresh_cpu("IN R0, 5");
    assert_eq!(cpu.execute_next(), Err(ExecError::UndefinedIo { addr: 5 }));
}

#[test]
fn update_io_replaces_ports() {
    let mut cpu = fresh_cpu("IN R0, 5");
    cpu.update_io(HashMap::from([(5u16, Value16Bit(42))]));
    assert_eq!(cpu.execute_next(), Ok(StepOutcome::Ran(None)));
    assert_eq!(cpu.regs.0[0].0, 42);
}

#[test]
fn signed_and_unsigned_comparisons_differ() {
    let mut cpu = fresh_cpu("NOP");
    cpu.regs.0[1] = Reg(0xFFFF); // -1 signed, 65535 unsigned
    cpu.regs.0[2] = Reg(1);
    let cmplt = Instruction::try_from_str("CMPLT R0, R1, R2").unwrap();
    cpu.execute_raw(&cmplt).unwrap();
    assert_eq!(cpu.regs.0[0].0, 1);
    let cmpltu = Instruction::try_from_str("CMPLTU R0, R1, R2").unwrap();
    cpu.execute_raw(&cmpltu).unwrap();
    assert_eq!(cpu.regs.0[0].0, 0);
}

#[test]
fn alu_bitwise_and_wrapping() {
    let mut cpu = fresh_cpu("NOP");
    cpu.regs.0[1] = Reg(0xF0F0);
    cpu.regs.0[2] = Reg(0x0FF0);
    for (line, expect) in [
        ("AND R0, R1, R2", 0x00F0u16),
        ("OR R0, R1, R2", 0xFFF0),
        ("XOR R0, R1, R2", 0xFF00),
        ("NOT R0, R1", 0x0F0F),
        ("SUB R0, R2, R1", 0x1F00),
    ] {
        let inst = Instruction::try_from_str(line).unwrap();
        cpu.execute_raw(&inst).unwrap();
        assert_eq!(cpu.regs.0[0].0, expect, "{line}");
    }
    // Wrapping addition.
    cpu.regs.0[1] = Reg(0xFFFF);
    cpu.regs.0[2] = Reg(0x0002);
    let add = Instruction::try_from_str("ADD R0, R1, R2").unwrap();
    cpu.execute_raw(&add).unwrap();
    assert_eq!(cpu.regs.0[0].0, 0x0001);
    // ADDI with a negative immediate.
    let addi = Instruction::try_from_str("ADDI R0, R2, -3").unwrap();
    cpu.execute_raw(&addi).unwrap();
    assert_eq!(cpu.regs.0[0].0, 0xFFFF);
}

#[test]
fn movi_movhi_build_a_constant() {
    let mut cpu = fresh_cpu("MOVI R0, 0x34\nMOVHI R0, 0x12");
    cpu.execute_next().unwrap();
    cpu.execute_next().unwrap();
    assert_eq!(cpu.regs.0[0].0, 0x1234);
}

#[test]
fn jalr_links_and_jumps() {
    let mut cpu = fresh_cpu("NOP");
    cpu.regs.0[1] = Reg(0x0040);
    cpu.pc = ProgCounter(0x0010);
    let jalr = Instruction::try_from_str("JALR R2, R1").unwrap();
    cpu.execute_raw(&jalr).unwrap();
    assert_eq!(cpu.regs.0[2].0, 0x0010);
    assert_eq!(cpu.pc.0, 0x0040);
}
