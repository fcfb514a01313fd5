use sicmulador::calc::Reg;
use sicmulador::execute::{ProgCounter, Processador, Registers, StepOutcome};
use sicmulador::isa::{ImmediateN8, Instruction, RegLabel};
use sicmulador::memory::{MemAddr, Memory};
use sicmulador::preprocessor::{parse_source, SourceError};
use std::collections::HashMap;

fn assemble(src: &str) -> sicmulador::preprocessor::Input {
    parse_source(src, MemAddr(0x4000), ProgCounter(0)).unwrap()
}

#[test]
fn scenario_space_reserves_zero_bytes() {
    let input = assemble(".data\n.space 4\n.text\nNOP\n.end");
    for a in 0x4000..0x4004u16 {
        assert_eq!(input.mem.get_byte(&MemAddr(a)), Some(0));
    }
    assert_eq!(input.mem.get_byte(&MemAddr(0x4004)), None);
    assert_eq!(input.instructions.get(&0), Some(&Instruction::NOP));
}

#[test]
fn space_with_fill_list() {
    let input = assemble(".data\n.space 3 1 2 -1\n.text\n.end");
    assert_eq!(input.mem.get_byte(&MemAddr(0x4000)), Some(1));
    assert_eq!(input.mem.get_byte(&MemAddr(0x4001)), Some(2));
    assert_eq!(input.mem.get_byte(&MemAddr(0x4002)), Some(0xFF));
}

#[test]
fn byte_and_word_directives_emit_data() {
    let input = assemble(".data\nv: .byte 1 2\nw: .word 300\n.text\n.end");
    assert_eq!(input.mem.get_byte(&MemAddr(0x4000)), Some(1));
    assert_eq!(input.mem.get_byte(&MemAddr(0x4001)), Some(2));
    // 300 = 0x012C little endian at the label's (even) address.
    assert_eq!(input.mem.get_byte(&MemAddr(0x4002)), Some(0x2C));
    assert_eq!(input.mem.get_byte(&MemAddr(0x4003)), Some(0x01));
    assert_eq!(input.mem.get_word(&MemAddr(0x4002)), Some(0x012C));
    // A word read at the odd partner lands on the same aligned pair.
    assert_eq!(input.mem.get_word(&MemAddr(0x4003)), Some(0x012C));
}

#[test]
fn even_directive_pads_to_even() {
    let input = assemble(".data\nv: .byte 9\n.even\nw: .word 7\n.text\nMOVI R0 lo(w)\n.end");
    // v sits at 0x4000; after one byte the address is 0x4001; .even pads to
    // 0x4002 where w's word goes.
    assert_eq!(input.mem.get_word(&MemAddr(0x4002)), Some(7));
    assert_eq!(
        input.instructions.get(&0),
        Some(&Instruction::MOVI { d: RegLabel(0), n: ImmediateN8(0x02) })
    );
}

#[test]
fn set_alias_substitutes_tokens() {
    let input = assemble(".data\n.set SIZE 5\n.text\nMOVI R0, SIZE\n.end");
    assert_eq!(
        input.instructions.get(&0),
        Some(&Instruction::MOVI { d: RegLabel(0), n: ImmediateN8(5) })
    );
}

#[test]
fn lo_hi_extract_label_address_bytes() {
    let input = assemble(".data\nv: .word 1\n.text\nMOVI R0, lo(v)\nMOVHI R0, hi(v)\n.end");
    assert_eq!(
        input.instructions.get(&0),
        Some(&Instruction::MOVI { d: RegLabel(0), n: ImmediateN8(0x00) })
    );
    assert_eq!(
        input.instructions.get(&2),
        Some(&Instruction::MOVHI { d: RegLabel(0), n: ImmediateN8(0x40) })
    );
}

#[test]
fn scenario_label_resolves_to_computed_offset() {
    // NOP at 0, BNZ at 2. The label binds to 0, so the displacement is
    // (0 - 2) / 2 - 1 = -2, emitted as the 8-bit pattern 0xFE.
    let input = assemble(".data\n.text\nloop:\nNOP\nBNZ R1, loop\n.end");
    assert_eq!(
        input.instructions.get(&2),
        Some(&Instruction::BNZ { a: RegLabel(1), offset: ImmediateN8(0xFE) })
    );
    // Running it: with R1 nonzero the branch lands back on the label.
    let mut regs = Registers::default();
    regs.0[1] = Reg(1);
    let mut cpu = Processador::new(
        regs,
        Memory::new(),
        ProgCounter(0),
        input.instructions,
        HashMap::new(),
    );
    assert_eq!(cpu.execute_next(), Ok(StepOutcome::Ran(None)));
    assert_eq!(cpu.execute_next(), Ok(StepOutcome::Ran(None)));
    assert_eq!(cpu.pc.0, 0);
}

#[test]
fn forward_branch_to_word_label() {
    // Branching to a forward label: target 4, current 0, delta 4/2 - 1 = 1.
    let input = assemble(".data\n.text\nBZ R0, fin\nNOP\nfin:\nNOP\n.end");
    assert_eq!(
        input.instructions.get(&0),
        Some(&Instruction::BZ { a: RegLabel(0), offset: ImmediateN8(1) })
    );
}

#[test]
fn reassembly_is_deterministic() {
    let src = ".data\nv: .word 123\n.set K 7\n.text\nstart:\nMOVI R0, K\nADD R1, R0, R0\nBNZ R1, start\n.end";
    let one = assemble(src);
    let two = assemble(src);
    assert_eq!(one.instructions, two.instructions);
    assert_eq!(one.mem.sorted_entries(), two.mem.sorted_entries());
}

#[test]
fn comments_are_stripped() {
    let input = assemble(".data ; the data part\n.space 1 ; one byte\n.text\nNOP ; idle\n.end");
    assert_eq!(input.mem.get_byte(&MemAddr(0x4000)), Some(0));
    assert_eq!(input.instructions.get(&0), Some(&Instruction::NOP));
}

#[test]
fn missing_section_markers_are_reported() {
    let err = |src: &str| parse_source(src, MemAddr(0x4000), ProgCounter(0)).unwrap_err();
    assert_eq!(err("NOP\n.end"), SourceError::MissingDataSection);
    assert_eq!(err(".data\nNOP\n.end"), SourceError::MissingTextSection);
    assert_eq!(err(".data\n.text\nNOP"), SourceError::MissingEndMarker);
}

#[test]
fn directive_faults_are_reported() {
    let err = |src: &str| parse_source(src, MemAddr(0x4000), ProgCounter(0)).unwrap_err();
    assert_eq!(err(".data\n.space\n.text\n.end"), SourceError::MissingArgument);
    assert_eq!(err(".data\n.set ONLYNAME\n.text\n.end"), SourceError::MissingArgument);
    assert_eq!(err(".data\n.space x\n.text\n.end"), SourceError::BadValue);
    assert_eq!(err(".data\n.frob 1\n.text\n.end"), SourceError::UnrecognizedDirective);
    assert_eq!(err(".data\nv:\n.text\n.end"), SourceError::MissingCommandAfterLabel);
    assert_eq!(
        err(".data\nv: .frob 1\n.text\n.end"),
        SourceError::UnrecognizedCommandAfterLabel
    );
}

#[test]
fn unresolvable_label_is_reported() {
    let err = parse_source(
        ".data\n.text\nMOVI R0, lo(ghostly)\n.end",
        MemAddr(0x4000),
        ProgCounter(0),
    )
    .unwrap_err();
    assert_eq!(err, SourceError::UnresolvableLabel);
}

#[test]
fn undecodable_rewritten_line_is_reported() {
    let err = parse_source(".data\n.text\nFROB R1\n.end", MemAddr(0x4000), ProgCounter(0))
        .unwrap_err();
    assert_eq!(
        err,
        SourceError::Decode(sicmulador::parsing::ParseError::UnrecognizedInstruction)
    );
}
