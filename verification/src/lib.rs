//! Runtime core of a simplified MIPS-like processor: a pipeline engine that
//! fetches fixed-width instructions from a flat byte memory, decodes them
//! through a reversed-bit wire format, and mutates a register file and the
//! memory through five ordered stages.

use vstd::prelude::*;

pub mod bits;
pub mod cpu;
pub mod ram;
pub mod registry;

verus! {

use crate::bits::{word_rev, opcode_of, rs_of, rt_of, rd_of, shamt_of, funct_of};

/// Returns the source and target register fields of the instruction at `pc`.
pub fn fetch_registers(ram: &[u8], pc: usize) -> (r: (u8, u8))
    requires
        pc + 1 < ram@.len(),
    ensures
        r.0 == rs_of(word_rev(ram@[pc as int], ram@[pc as int + 1])),
        r.1 == rt_of(word_rev(ram@[pc as int], ram@[pc as int + 1])),
{
    let _len: usize = ram.len();
    let data: u16 = crate::bits::decode_pair(ram[pc], ram[pc + 1]);

    let rs: u8 = ((data & 0b111_1100_0000) >> 6) as u8;
    let rt: u8 = ((data & 0b1111_1000_0000_0000) >> 11) as u8;
    (rs, rt)
}

/// Returns the opcode field of the instruction at `pc`.
pub fn fetch_opcode(ram: &[u8], pc: usize) -> (r: u8)
    requires
        pc + 1 < ram@.len(),
    ensures
        r == opcode_of(word_rev(ram@[pc as int], ram@[pc as int + 1])),
{
    let _len: usize = ram.len();
    let data: u16 = crate::bits::decode_pair(ram[pc], ram[pc + 1]);

    (data & 0b11_1111) as u8
}

/// Returns the 16-bit immediate operand of the instruction at `pc`, held in
/// the two bytes after the instruction's first word.
pub fn fetch_immediate(ram: &[u8], pc: usize) -> (r: u16)
    requires
        pc + 3 < ram@.len(),
    ensures
        r == word_rev(ram@[pc as int + 2], ram@[pc as int + 3]),
{
    let _len: usize = ram.len();
    crate::bits::decode_pair(ram[pc + 2], ram[pc + 3])
}

/// Returns the destination register, shift amount and funct fields of the
/// register-format instruction at `pc`.
pub fn fetch_rtype(ram: &[u8], pc: usize) -> (r: (u8, u8, u8))
    requires
        pc + 3 < ram@.len(),
    ensures
        r.0 == rd_of(word_rev(ram@[pc as int + 2], ram@[pc as int + 3])),
        r.1 == shamt_of(word_rev(ram@[pc as int + 2], ram@[pc as int + 3])),
        r.2 == funct_of(word_rev(ram@[pc as int + 2], ram@[pc as int + 3])),
{
    let _len: usize = ram.len();
    let data: u16 = crate::bits::decode_pair(ram[pc + 2], ram[pc + 3]);

    let rd: u8 = (data & 0b1_1111) as u8;
    let shamt: u8 = ((data & 0b11_1110_0000) >> 5) as u8;
    let funct: u8 = ((data & 0b1111_1100_0000_0000) >> 10) as u8;
    (rd, shamt, funct)
}

} // verus!
