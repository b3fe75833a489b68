use mips_emulator::cpu::{Fault, CPU};

/// Encodes a 16-bit working value as the two wire bytes it decodes from:
/// each byte carries its half of the value with the bits reversed.
fn put_word(mem: &mut Vec<u8>, at: usize, word: u16) {
    mem[at] = ((word & 0xFF) as u8).reverse_bits();
    mem[at + 1] = ((word >> 8) as u8).reverse_bits();
}

/// First working value of an instruction: opcode, rs and rt fields.
fn first_word(opcode: u16, rs: u16, rt: u16) -> u16 {
    opcode | (rs << 6) | (rt << 11)
}

/// Second working value of a register-format instruction.
fn second_word(rd: u16, shamt: u16, funct: u16) -> u16 {
    rd | (shamt << 5) | (funct << 10)
}

#[test]
fn addu_adds_modulo_65536() {
    let mut mem = vec![0u8; 64];
    put_word(&mut mem, 0, first_word(0, 1, 2));
    put_word(&mut mem, 2, second_word(3, 0, 0x21));
    let mut cpu = CPU::new(64, 16, 0, vec![0, 5, 7], mem);
    assert_eq!(cpu.step(), Ok(()));
    assert!(cpu.is_active());
    assert_eq!(cpu.registry.read_word(3), 12);

    let mut mem = vec![0u8; 64];
    put_word(&mut mem, 0, first_word(0, 1, 2));
    put_word(&mut mem, 2, second_word(3, 0, 0x21));
    let mut cpu = CPU::new(64, 16, 0, vec![0, 0xFFFF, 2], mem);
    assert_eq!(cpu.step(), Ok(()));
    assert_eq!(cpu.registry.read_word(3), 1);
}

#[test]
fn multu_multiplies_modulo_65536() {
    let mut mem = vec![0u8; 64];
    put_word(&mut mem, 0, first_word(0, 1, 2));
    put_word(&mut mem, 2, second_word(3, 0, 0x19));
    let mut cpu = CPU::new(64, 16, 0, vec![0, 300, 300], mem);
    assert_eq!(cpu.step(), Ok(()));
    assert_eq!(cpu.registry.read_word(3), 24464);
}

#[test]
fn addi_adds_positive_immediate() {
    let mut mem = vec![0u8; 64];
    put_word(&mut mem, 0, first_word(0x8, 1, 2));
    put_word(&mut mem, 2, 0x0005);
    let mut cpu = CPU::new(64, 16, 0, vec![0, 10], mem);
    assert_eq!(cpu.step(), Ok(()));
    assert_eq!(cpu.registry.read_word(2), 15);
}

#[test]
fn addi_subtracts_when_sign_bit_set() {
    let mut mem = vec![0u8; 64];
    put_word(&mut mem, 0, first_word(0x8, 1, 2));
    put_word(&mut mem, 2, 0x8003);
    let mut cpu = CPU::new(64, 16, 0, vec![0, 10], mem);
    assert_eq!(cpu.step(), Ok(()));
    assert_eq!(cpu.registry.read_word(2), 7);
}

#[test]
fn addiu_adds_full_immediate_wrapping() {
    let mut mem = vec![0u8; 64];
    put_word(&mut mem, 0, first_word(0x9, 1, 2));
    put_word(&mut mem, 2, 0x0002);
    let mut cpu = CPU::new(64, 16, 0, vec![0, 0xFFFF], mem);
    assert_eq!(cpu.step(), Ok(()));
    assert_eq!(cpu.registry.read_word(2), 1);
}

#[test]
fn sw_then_lw_round_trips_word() {
    let mut mem = vec![0u8; 64];
    put_word(&mut mem, 0, first_word(0x2B, 1, 2));
    put_word(&mut mem, 2, 0x0000);
    put_word(&mut mem, 4, first_word(0x23, 1, 3));
    put_word(&mut mem, 6, 0x0000);
    let mut cpu = CPU::new(64, 16, 0, vec![0, 32, 0xBEEF, 0], mem);
    assert_eq!(cpu.step(), Ok(()));
    assert_eq!(cpu.ram.read_byte(32), 0xEF);
    assert_eq!(cpu.ram.read_byte(33), 0xBE);
    assert_eq!(cpu.ram.last_modified_address, vec![32, 33]);
    assert_eq!(cpu.step(), Ok(()));
    assert_eq!(cpu.registry.read_word(3), 0xBEEF);
}

#[test]
fn sb_then_lb_round_trips_low_byte_zero_extended() {
    let mut mem = vec![0u8; 64];
    put_word(&mut mem, 0, first_word(0x28, 1, 2));
    put_word(&mut mem, 2, 0x0000);
    put_word(&mut mem, 4, first_word(0x20, 1, 3));
    put_word(&mut mem, 6, 0x0000);
    let mut cpu = CPU::new(64, 16, 0, vec![0, 32, 0xA534, 0xFFFF], mem);
    assert_eq!(cpu.step(), Ok(()));
    assert_eq!(cpu.ram.read_byte(32), 0x34);
    assert_eq!(cpu.ram.last_modified_address, vec![32]);
    assert_eq!(cpu.step(), Ok(()));
    assert_eq!(cpu.registry.read_word(3), 0x0034);
}

#[test]
fn pc_advances_by_4_for_both_formats() {
    let mut mem = vec![0u8; 64];
    put_word(&mut mem, 0, first_word(0, 1, 2));
    put_word(&mut mem, 2, second_word(3, 0, 0x21));
    put_word(&mut mem, 4, first_word(0x9, 1, 2));
    put_word(&mut mem, 6, 0x0001);
    let mut cpu = CPU::new(64, 16, 0, vec![0, 1, 1], mem);
    assert_eq!(cpu.registry.pc, 0);
    assert_eq!(cpu.step(), Ok(()));
    assert_eq!(cpu.registry.pc, 4);
    assert_eq!(cpu.step(), Ok(()));
    assert_eq!(cpu.registry.pc, 8);
}

#[test]
fn halts_when_pc_reaches_capacity() {
    let mem = vec![0u8; 16];
    let mut cpu = CPU::new(16, 4, 16, vec![0, 5], mem);
    assert!(cpu.is_active());
    assert_eq!(cpu.step(), Ok(()));
    assert!(!cpu.is_active());
    assert_eq!(cpu.registry.pc, 16);
    assert_eq!(cpu.registry.read_word(1), 5);
}

#[test]
fn halts_on_all_zero_register_fields_without_mutation() {
    let mut mem = vec![0u8; 16];
    put_word(&mut mem, 0, first_word(0x9, 0, 0));
    let snapshot = mem.clone();
    let mut cpu = CPU::new(16, 4, 0, vec![7, 8, 9], mem);
    assert_eq!(cpu.step(), Ok(()));
    assert!(!cpu.is_active());
    assert_eq!(cpu.registry.pc, 0);
    assert_eq!(cpu.registry.registers, vec![7, 8, 9, 0]);
    assert_eq!(cpu.ram.data, snapshot);
}

#[test]
fn unimplemented_funct_faults() {
    let mut mem = vec![0u8; 64];
    put_word(&mut mem, 0, first_word(0, 1, 1));
    put_word(&mut mem, 2, second_word(3, 0, 0));
    let mut cpu = CPU::new(64, 16, 0, vec![0, 1], mem);
    assert_eq!(cpu.step(), Err(Fault::UnimplementedFunct(0)));
    assert!(cpu.is_active());
    assert_eq!(cpu.registry.pc, 0);
}

#[test]
fn unimplemented_opcode_faults() {
    let mut mem = vec![0u8; 64];
    put_word(&mut mem, 0, first_word(0x3F, 1, 1));
    put_word(&mut mem, 2, 0x0000);
    let mut cpu = CPU::new(64, 16, 0, vec![0, 1], mem);
    assert_eq!(cpu.step(), Err(Fault::UnimplementedOpcode(0x3F)));
}

#[test]
fn register_out_of_range_faults() {
    let mut mem = vec![0u8; 64];
    put_word(&mut mem, 0, first_word(0, 5, 1));
    put_word(&mut mem, 2, second_word(3, 0, 0x21));
    let mut cpu = CPU::new(64, 4, 0, vec![0, 1], mem);
    assert_eq!(cpu.step(), Err(Fault::RegisterOutOfRange(5)));
}

#[test]
fn store_address_out_of_range_faults() {
    let mut mem = vec![0u8; 64];
    put_word(&mut mem, 0, first_word(0x2B, 1, 2));
    put_word(&mut mem, 2, 0x0014);
    let mut cpu = CPU::new(64, 16, 0, vec![0, 48, 0xAAAA], mem);
    assert_eq!(cpu.step(), Err(Fault::AddressOutOfRange(68)));
    assert_eq!(cpu.ram.read_byte(48), 0);
}

#[test]
fn truncated_fetch_faults() {
    let mem = vec![0u8; 16];
    let mut cpu = CPU::new(16, 4, 15, vec![], mem);
    assert_eq!(cpu.step(), Err(Fault::AddressOutOfRange(16)));
}

#[test]
fn truncated_second_word_faults() {
    let mut mem = vec![0u8; 16];
    put_word(&mut mem, 14, first_word(0x8, 1, 1));
    let mut cpu = CPU::new(16, 4, 14, vec![], mem);
    assert_eq!(cpu.step(), Err(Fault::AddressOutOfRange(16)));
}

#[test]
fn byte_ops_use_full_base_register() {
    let mut mem = vec![0u8; 512];
    put_word(&mut mem, 0, first_word(0x28, 1, 2));
    put_word(&mut mem, 2, 0x0004);
    put_word(&mut mem, 4, first_word(0x20, 1, 3));
    put_word(&mut mem, 6, 0x0004);
    let mut cpu = CPU::new(512, 16, 0, vec![0, 256, 0x77, 0], mem);
    assert_eq!(cpu.step(), Ok(()));
    assert_eq!(cpu.ram.read_byte(260), 0x77);
    assert_eq!(cpu.ram.last_modified_address, vec![260]);
    assert_eq!(cpu.step(), Ok(()));
    assert_eq!(cpu.registry.read_word(3), 0x0077);
}
