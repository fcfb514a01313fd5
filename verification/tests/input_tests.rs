use sicmulador::execute::Value16Bit;
use sicmulador::input::{
    parse_instructions_from_str, parse_io, parse_memory, parse_pc, parse_registers, FileError,
};
use sicmulador::isa::{Instruction, RegLabel};
use sicmulador::memory::MemAddr;

#[test]
fn registers_fill_from_lines() {
    let regs = parse_registers("1\n2\n-1".to_string()).unwrap();
    assert_eq!(regs.0[0].0, 1);
    assert_eq!(regs.0[1].0, 2);
    assert_eq!(regs.0[2].0, 0xFFFF);
    assert_eq!(regs.0[3].0, 0);
    assert_eq!(regs.0[7].0, 0);
}

#[test]
fn registers_reject_bad_lists() {
    assert_eq!(
        parse_registers("1\n2\n3\n4\n5\n6\n7\n8\n9".to_string()).unwrap_err(),
        FileError::UnparsableRegister
    );
    assert_eq!(
        parse_registers("1\nfoo".to_string()).unwrap_err(),
        FileError::UnparsableRegister
    );
    assert_eq!(
        parse_registers("40000".to_string()).unwrap_err(),
        FileError::UnparsableRegister
    );
}

#[test]
fn pc_parses_plain_decimal() {
    assert_eq!(parse_pc("12".to_string()).unwrap().0, 12);
    assert_eq!(parse_pc("0".to_string()).unwrap().0, 0);
    assert_eq!(parse_pc("x".to_string()).unwrap_err(), "PC invalid".to_string());
    assert_eq!(parse_pc("70000".to_string()).unwrap_err(), "PC invalid".to_string());
}

#[test]
fn io_table_parses_pairs() {
    let io = parse_io("1 = \"0x0001\"\n0 = \"0x0005\"".to_string()).unwrap();
    assert_eq!(io.get(&1), Some(&Value16Bit(1)));
    assert_eq!(io.get(&0), Some(&Value16Bit(5)));
    assert_eq!(io.len(), 2);
}

#[test]
fn io_table_rejects_non_string_values() {
    assert_eq!(parse_io("1 = 5".to_string()).unwrap_err(), FileError::UnparsableIO);
    assert_eq!(parse_io("not toml [".to_string()).unwrap_err(), FileError::UnparsableIO);
    assert_eq!(parse_io("1 = \"zz\"".to_string()).unwrap_err(), FileError::UnparsableIO);
}

#[test]
fn memory_table_stores_words() {
    let mem = parse_memory("0x0022 = \"0x1234\"\n0x0024 = \"0xFFFB\"".to_string()).unwrap();
    assert_eq!(mem.get_word(&MemAddr(0x0022)), Some(0x1234));
    assert_eq!(mem.get_byte(&MemAddr(0x0022)), Some(0x34));
    assert_eq!(mem.get_byte(&MemAddr(0x0023)), Some(0x12));
    assert_eq!(mem.get_word(&MemAddr(0x0024)), Some(0xFFFB));
}

#[test]
fn memory_table_rejects_bad_pairs() {
    assert_eq!(
        parse_memory("0x0022 = \"zz\"".to_string()).unwrap_err(),
        FileError::UnparsableMemory
    );
    assert_eq!(parse_memory("= =".to_string()).unwrap_err(), FileError::UnparsableMemory);
}

#[test]
fn instruction_list_lands_on_even_addresses() {
    let m = parse_instructions_from_str("NOP\nMOVI R1, 4\nNOP".to_string()).unwrap();
    assert_eq!(m.len(), 3);
    assert_eq!(m.get(&0), Some(&Instruction::NOP));
    assert!(matches!(
        m.get(&2),
        Some(&Instruction::MOVI { d: RegLabel(1), n: _ })
    ));
    assert_eq!(m.get(&4), Some(&Instruction::NOP));
}

#[test]
fn instruction_list_rejects_bad_lines() {
    assert_eq!(
        parse_instructions_from_str("NOP\nFROB".to_string()).unwrap_err(),
        FileError::InstrucNotRecognized
    );
    // An empty line is not an instruction either.
    assert_eq!(
        parse_instructions_from_str("NOP\n\nNOP".to_string()).unwrap_err(),
        FileError::InstrucNotRecognized
    );
}
