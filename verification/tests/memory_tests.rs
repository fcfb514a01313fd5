use sicmulador::memory::{MemAddr, Memory};

#[test]
fn word_round_trip_even_address() {
    let mut mem = Memory::new();
    mem.insert_word(&MemAddr(0x0010), 0xABCD);
    assert_eq!(mem.get_word(&MemAddr(0x0010)), Some(0xABCD));
}

#[test]
fn word_round_trip_odd_address() {
    let mut mem = Memory::new();
    mem.insert_word(&MemAddr(0x0011), 0x1234);
    assert_eq!(mem.get_word(&MemAddr(0x0011)), Some(0x1234));
    assert_eq!(mem.get_word(&MemAddr(0x0010)), Some(0x1234));
}

#[test]
fn word_is_stored_little_endian() {
    let mut mem = Memory::new();
    mem.insert_word(&MemAddr(0x0020), 0xBEEF);
    assert_eq!(mem.get_byte(&MemAddr(0x0020)), Some(0xEF));
    assert_eq!(mem.get_byte(&MemAddr(0x0021)), Some(0xBE));
}

#[test]
fn insert_byte_keeps_paired_byte() {
    let mut mem = Memory::new();
    mem.insert_word(&MemAddr(0x0030), 0x1122);
    mem.insert_byte(&MemAddr(0x0030), 0x99);
    assert_eq!(mem.get_byte(&MemAddr(0x0031)), Some(0x11));
    assert_eq!(mem.get_byte(&MemAddr(0x0030)), Some(0x99));
}

#[test]
fn absent_byte_makes_word_read_none() {
    let mut mem = Memory::new();
    mem.insert_byte(&MemAddr(0x0040), 0x55);
    assert_eq!(mem.get_word(&MemAddr(0x0040)), None);
    assert_eq!(mem.get_byte(&MemAddr(0x0041)), None);
    assert_eq!(mem.get_byte(&MemAddr(0x0040)), Some(0x55));
}

#[test]
fn addresses_wrap_and_align() {
    let mut a = MemAddr(0xFFFF);
    assert!(!a.is_even());
    assert_eq!(a.align().0, 0xFFFE);
    a.inc_one();
    assert_eq!(a.0, 0x0000);
    a.inc();
    assert_eq!(a.0, 0x0002);
    assert!(a.is_even());
}

#[test]
fn sorted_entries_are_sorted_and_complete() {
    let mut mem = Memory::new();
    mem.insert_byte(&MemAddr(0x0300), 3);
    mem.insert_byte(&MemAddr(0x0001), 1);
    mem.insert_byte(&MemAddr(0x0100), 2);
    let entries = mem.sorted_entries();
    assert_eq!(entries, vec![(0x0001, 1), (0x0100, 2), (0x0300, 3)]);
}
