use mips_emulator::bits::{decode_pair, reverse_byte};
use mips_emulator::cpu::bytestoword;
use mips_emulator::{fetch_immediate, fetch_opcode, fetch_registers, fetch_rtype};

#[test]
fn reverse_single_byte() {
    assert_eq!(reverse_byte(0b0000_0011), 0b1100_0000);
    assert_eq!(reverse_byte(0b1000_0000), 0b0000_0001);
    assert_eq!(reverse_byte(0), 0);
    assert_eq!(reverse_byte(0xFF), 0xFF);
}

#[test]
fn decode_byte_pair() {
    assert_eq!(decode_pair(0b0000_0011, 0b0000_1100), 0b0011_0000_1100_0000);
}

#[test]
fn decode_then_encode_recovers_bytes() {
    let pairs = [
        (0x00u8, 0x00u8),
        (0x01, 0xC8),
        (0xAB, 0xCD),
        (0xFF, 0x01),
        (0x80, 0x7F),
    ];
    for (b1, b2) in pairs {
        let word = decode_pair(b1, b2);
        assert_eq!(reverse_byte((word & 0xFF) as u8), b1);
        assert_eq!(reverse_byte((word >> 8) as u8), b2);
    }
}

#[test]
fn fetch_registers_example() {
    let mut ram = [0u8; 64];
    ram[0] = 0b0000_0001;
    ram[1] = 0b1100_1000;
    assert_eq!(fetch_registers(&ram, 0), (0b0_1110, 0b0_0010));
}

#[test]
fn fetch_opcode_example() {
    let mut ram = [0u8; 64];
    ram[0] = 0b1100_1000;
    assert_eq!(fetch_opcode(&ram, 0), 0b1_0011);
}

#[test]
fn fetch_immediate_example() {
    let mut ram = [0u8; 64];
    ram[2] = 0b1100_1000;
    ram[3] = 0b1100_1000;
    assert_eq!(fetch_immediate(&ram, 0), 0b0001_0011_0001_0011);
}

#[test]
fn fetch_rtype_fields() {
    let mut ram = [0u8; 64];
    ram[2] = 0b1100_1000;
    ram[3] = 0b1100_1000;
    assert_eq!(fetch_rtype(&ram, 0), (19, 24, 4));
}

#[test]
fn bytestoword_joins_bytes() {
    assert_eq!(bytestoword(0x12, 0x34), 0x1234);
    assert_eq!(bytestoword(0x00, 0x07), 0x0007);
    assert_eq!(bytestoword(0xFF, 0xFF), 0xFFFF);
}
