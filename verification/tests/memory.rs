use mips_emulator::ram::RAM;
use mips_emulator::registry::RegistryFile;

#[test]
fn fresh_memory_is_zeroed() {
    let ram = RAM::new(32);
    assert_eq!(ram.size, 32);
    assert_eq!(ram.data.len(), 32);
    assert!(ram.data.iter().all(|b| *b == 0));
    assert!(ram.last_modified_address.is_empty());
}

#[test]
fn byte_write_then_read_round_trips() {
    let mut ram = RAM::new(64);
    ram.write_byte(7, 0x5A);
    assert_eq!(ram.read_byte(7), 0x5A);
    assert_eq!(ram.read_byte(6), 0);
    assert_eq!(ram.read_byte(8), 0);
}

#[test]
fn word_write_then_read_round_trips() {
    let mut ram = RAM::new(64);
    ram.write_word(10, 0xBEEF);
    assert_eq!(ram.read_word(10), 0xBEEF);
    assert_eq!(ram.read_byte(10), 0xEF);
    assert_eq!(ram.read_byte(11), 0xBE);
    ram.write_word(10, 0x0001);
    assert_eq!(ram.read_word(10), 0x0001);
}

#[test]
fn read_word_zero_high_byte_quirk() {
    let mut ram = RAM::new(64);
    ram.write_byte(5, 0xAB);
    assert_eq!(ram.read_word(5), 0x00AB);
    ram.write_byte(6, 0x02);
    assert_eq!(ram.read_word(5), 0x02AB);
}

#[test]
fn stores_record_last_modified_addresses() {
    let mut ram = RAM::new(64);
    ram.write_byte(3, 1);
    assert_eq!(ram.last_modified_address, vec![3]);
    ram.write_word(8, 0x1234);
    assert_eq!(ram.last_modified_address, vec![8, 9]);
    ram.clear_last_modified();
    assert!(ram.last_modified_address.is_empty());
}

#[test]
fn fresh_registers_are_zeroed() {
    let rf = RegistryFile::new(0x30, 16);
    assert_eq!(rf.pc, 0x30);
    assert_eq!(rf.size, 16);
    assert_eq!(rf.registers.len(), 16);
    assert!(rf.registers.iter().all(|r| *r == 0));
}

#[test]
fn register_write_byte_is_full_overwrite() {
    let mut rf = RegistryFile::new(0, 16);
    rf.write_word(3, 0xFFFF);
    rf.write_byte(3, 0x12);
    assert_eq!(rf.read_word(3), 0x0012);
}

#[test]
fn register_read_byte_takes_low_bits() {
    let mut rf = RegistryFile::new(0, 16);
    rf.write_word(2, 0xABCD);
    assert_eq!(rf.read_byte(2), 0xCD);
    assert_eq!(rf.read_word(2), 0xABCD);
}
