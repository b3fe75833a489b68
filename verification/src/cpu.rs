use vstd::prelude::*;

use crate::bits;
use crate::ram;
use crate::registry::RegistryFile;

verus! {

use crate::bits::{word_rev, opcode_of, rs_of, rt_of, rd_of, funct_of};
use crate::ram::{RAM, word_at, store_word};

/// Joins a high byte and a low byte into a 16-bit word.
pub fn bytestoword(b1: u8, b2: u8) -> (r: u16)
    ensures
        r == b1 * 256 + b2,
{
    let hi: u16 = (b1 as u16) << 8;
    proof {
        assert(hi <= 0xFF00 && hi == b1 * 256) by (bit_vector)
            requires
                hi == (b1 as u16) << 8,
        ;
    }
    hi + b2 as u16
}

/// A fatal condition met while stepping: the engine reports it and the
/// driver stops; no recovery path exists.
#[derive(Clone, Copy, Debug, PartialEq, Eq, Structural)]
pub enum Fault {
    /// A fetch, load or store touched this address, at or past the memory
    /// capacity.
    AddressOutOfRange(usize),
    /// An instruction named this register index, at or past the register
    /// count.
    RegisterOutOfRange(u8),
    /// A register-format instruction carried this funct value, which the
    /// engine does not implement.
    UnimplementedFunct(u8),
    /// An immediate-format instruction carried this opcode, which the
    /// engine does not implement.
    UnimplementedOpcode(u8),
}

/// The operation tag of a decoded instruction.
#[derive(Clone, Copy, Debug, PartialEq, Eq, Structural)]
pub enum Opcode {
    Multu,
    Addu,
    Addi,
    Addiu,
    Lb,
    Lw,
    Sb,
    Sw,
}

/// What one step does to the machine: halt it, stop on a fault, or retire
/// an instruction leaving the given register, memory and last-modified
/// contents behind.
pub enum StepEffect {
    Halt,
    Fail(Fault),
    Exec { regs: Seq<u16>, mem: Seq<u8>, modified: Seq<usize> },
}

/// Addition truncated to 16 bits.
pub open spec fn wrap_add(a: u16, b: u16) -> u16 {
    ((a + b) % 0x10000) as u16
}

/// Subtraction modulo 2^16.
pub open spec fn wrap_sub(a: u16, b: u16) -> u16 {
    ((a + 0x10000 - b) % 0x10000) as u16
}

/// Multiplication truncated to 16 bits: the high half of the 32-bit
/// product is discarded.
pub open spec fn wrap_mul(a: u16, b: u16) -> u16 {
    ((a * b) % 0x10000) as u16
}

/// The value ADDI writes: the immediate counts as negative when its sign
/// bit (bit 15) is set, and its low 15 bits give the magnitude.
pub open spec fn addi_result(rs_value: u16, imm: u16) -> u16 {
    if imm >= 0x8000 {
        wrap_sub(rs_value, (imm % 0x8000) as u16)
    } else {
        wrap_add(rs_value, (imm % 0x8000) as u16)
    }
}

/// Effect of a register-format instruction, whose fields sit in the second
/// working value `w2`.  Register bounds are checked in the order the
/// operands are touched; the funct values not implemented fault.
pub open spec fn spec_step_rtype(
    mem: Seq<u8>,
    regs: Seq<u16>,
    modified: Seq<usize>,
    w: u16,
    w2: u16,
) -> StepEffect {
    let rs = rs_of(w);
    let rt = rt_of(w);
    let rd = rd_of(w2);
    let funct = funct_of(w2);
    if funct == 0x19 {
        if rt as int >= regs.len() {
            StepEffect::Fail(Fault::RegisterOutOfRange(rt))
        } else if rs as int >= regs.len() {
            StepEffect::Fail(Fault::RegisterOutOfRange(rs))
        } else if rd as int >= regs.len() {
            StepEffect::Fail(Fault::RegisterOutOfRange(rd))
        } else {
            StepEffect::Exec {
                regs: regs.update(rd as int, wrap_mul(regs[rt as int], regs[rs as int])),
                mem,
                modified,
            }
        }
    } else if funct == 0x21 {
        if rs as int >= regs.len() {
            StepEffect::Fail(Fault::RegisterOutOfRange(rs))
        } else if rt as int >= regs.len() {
            StepEffect::Fail(Fault::RegisterOutOfRange(rt))
        } else if rd as int >= regs.len() {
            StepEffect::Fail(Fault::RegisterOutOfRange(rd))
        } else {
            StepEffect::Exec {
                regs: regs.update(rd as int, wrap_add(regs[rs as int], regs[rt as int])),
                mem,
                modified,
            }
        }
    } else {
        StepEffect::Fail(Fault::UnimplementedFunct(funct))
    }
}

/// Effect of an immediate-format instruction; the second working value is
/// the 16-bit immediate.  Loads and stores, byte- and word-sized alike,
/// compute their effective address during execute as the source register's
/// full value plus the immediate.  The opcodes not implemented fault.
pub open spec fn spec_step_itype(
    mem: Seq<u8>,
    regs: Seq<u16>,
    modified: Seq<usize>,
    w: u16,
    imm: u16,
) -> StepEffect {
    let opcode = opcode_of(w);
    let rs = rs_of(w);
    let rt = rt_of(w);
    if opcode == 0x8 {
        if rs as int >= regs.len() {
            StepEffect::Fail(Fault::RegisterOutOfRange(rs))
        } else if rt as int >= regs.len() {
            StepEffect::Fail(Fault::RegisterOutOfRange(rt))
        } else {
            StepEffect::Exec {
                regs: regs.update(rt as int, addi_result(regs[rs as int], imm)),
                mem,
                modified,
            }
        }
    } else if opcode == 0x9 {
        if rs as int >= regs.len() {
            StepEffect::Fail(Fault::RegisterOutOfRange(rs))
        } else if rt as int >= regs.len() {
            StepEffect::Fail(Fault::RegisterOutOfRange(rt))
        } else {
            StepEffect::Exec {
                regs: regs.update(rt as int, wrap_add(regs[rs as int], imm)),
                mem,
                modified,
            }
        }
    } else if opcode == 0x20 {
        if rs as int >= regs.len() {
            StepEffect::Fail(Fault::RegisterOutOfRange(rs))
        } else {
            let x = regs[rs as int] + imm;
            if x >= mem.len() {
                StepEffect::Fail(Fault::AddressOutOfRange(x as usize))
            } else if rt as int >= regs.len() {
                StepEffect::Fail(Fault::RegisterOutOfRange(rt))
            } else {
                StepEffect::Exec {
                    regs: regs.update(rt as int, mem[x as int] as u16),
                    mem,
                    modified,
                }
            }
        }
    } else if opcode == 0x23 {
        if rs as int >= regs.len() {
            StepEffect::Fail(Fault::RegisterOutOfRange(rs))
        } else {
            let x = regs[rs as int] + imm;
            if x + 1 >= mem.len() {
                StepEffect::Fail(Fault::AddressOutOfRange((x + 1) as usize))
            } else if rt as int >= regs.len() {
                StepEffect::Fail(Fault::RegisterOutOfRange(rt))
            } else {
                StepEffect::Exec {
                    regs: regs.update(rt as int, word_at(mem, x as int)),
                    mem,
                    modified,
                }
            }
        }
    } else if opcode == 0x28 {
        if rs as int >= regs.len() {
            StepEffect::Fail(Fault::RegisterOutOfRange(rs))
        } else {
            let x = regs[rs as int] + imm;
            if rt as int >= regs.len() {
                StepEffect::Fail(Fault::RegisterOutOfRange(rt))
            } else if x >= mem.len() {
                StepEffect::Fail(Fault::AddressOutOfRange(x as usize))
            } else {
                StepEffect::Exec {
                    regs,
                    mem: mem.update(x as int, (regs[rt as int] % 256) as u8),
                    modified: seq![x as usize],
                }
            }
        }
    } else if opcode == 0x2B {
        if rs as int >= regs.len() {
            StepEffect::Fail(Fault::RegisterOutOfRange(rs))
        } else {
            let x = regs[rs as int] + imm;
            if rt as int >= regs.len() {
                StepEffect::Fail(Fault::RegisterOutOfRange(rt))
            } else if x >= mem.len() {
                StepEffect::Fail(Fault::AddressOutOfRange(x as usize))
            } else if x + 1 >= mem.len() {
                StepEffect::Fail(Fault::AddressOutOfRange((x + 1) as usize))
            } else {
                StepEffect::Exec {
                    regs,
                    mem: store_word(mem, x as int, regs[rt as int]),
                    modified: seq![x as usize, (x + 1) as usize],
                }
            }
        }
    } else {
        StepEffect::Fail(Fault::UnimplementedOpcode(opcode))
    }
}

/// Effect of one step on a machine with memory `mem`, registers `regs`,
/// last-modified record `modified` and program counter `pc`.  The fetch
/// stage halts the engine when the program counter has left memory, and
/// when the fetched instruction carries the all-zero rs/rt terminator;
/// both are normal termination.  A fetch past the end of memory faults.
pub open spec fn spec_step(
    mem: Seq<u8>,
    regs: Seq<u16>,
    modified: Seq<usize>,
    pc: usize,
) -> StepEffect {
    if pc >= mem.len() {
        StepEffect::Halt
    } else if pc + 1 >= mem.len() {
        StepEffect::Fail(Fault::AddressOutOfRange((pc + 1) as usize))
    } else {
        let w = word_rev(mem[pc as int], mem[pc as int + 1]);
        if rs_of(w) == 0 && rt_of(w) == 0 {
            StepEffect::Halt
        } else if pc + 3 >= mem.len() {
            StepEffect::Fail(
                Fault::AddressOutOfRange(
                    if pc + 2 >= mem.len() {
                        (pc + 2) as usize
                    } else {
                        (pc + 3) as usize
                    },
                ),
            )
        } else {
            let w2 = word_rev(mem[pc as int + 2], mem[pc as int + 3]);
            if opcode_of(w) == 0 {
                spec_step_rtype(mem, regs, modified, w, w2)
            } else {
                spec_step_itype(mem, regs, modified, w, w2)
            }
        }
    }
}

/// The pipeline engine: owns the memory and the register file, and retires
/// one instruction per step through the fetch, decode, execute, memory and
/// writeback stages.  No instruction overlap: a step finishes before the
/// next begins.
pub struct CPU {
    pub active: bool,
    pub registry: RegistryFile,
    pub ram: RAM,
}

impl CPU {
    /// Both components hold the lengths they claim, and the memory leaves
    /// room to advance the program counter past its last instruction.
    pub open spec fn wf(&self) -> bool {
        &&& self.ram.wf()
        &&& self.registry.wf()
        &&& self.ram.size <= usize::MAX - 4
    }

    /// Whether the engine is still running.
    pub open spec fn spec_active(&self) -> bool {
        self.active
    }

    /// A fresh engine over `memory_capacity` bytes already holding the
    /// loaded program image, `register_count` registers seeded from
    /// `preloaded_registers` (the rest zero), and the program counter at
    /// `initial_pc`.
    pub fn new(
        memory_capacity: usize,
        register_count: usize,
        initial_pc: usize,
        preloaded_registers: Vec<u16>,
        preloaded_memory: Vec<u8>,
    ) -> (r: CPU)
        requires
            preloaded_memory@.len() == memory_capacity,
            preloaded_registers@.len() <= register_count,
            memory_capacity <= usize::MAX - 4,
        ensures
            r.wf(),
            r.spec_active(),
            r.ram.size == memory_capacity,
            r.ram.data@ == preloaded_memory@,
            r.ram.last_modified_address@ == Seq::<usize>::empty(),
            r.registry.pc == initial_pc,
            r.registry.size == register_count,
            forall|i: int|
                0 <= i < preloaded_registers@.len() ==> r.registry.registers@[i]
                    == preloaded_registers@[i],
            forall|i: int|
                preloaded_registers@.len() <= i < register_count ==> r.registry.registers@[i] == 0,
    {
        let mut ram = RAM::new(memory_capacity);
        ram.data = preloaded_memory;

        let mut registry = RegistryFile::new(initial_pc, register_count);
        let mut j: usize = 0;
        while j < preloaded_registers.len()
            invariant
                registry.wf(),
                registry.size == register_count,
                registry.pc == initial_pc,
                preloaded_registers@.len() <= register_count,
                j <= preloaded_registers@.len(),
                forall|i: int| 0 <= i < j ==> registry.registers@[i] == preloaded_registers@[i],
                forall|i: int| j <= i < register_count ==> registry.registers@[i] == 0,
            decreases preloaded_registers@.len() - j,
        {
            registry.registers[j] = preloaded_registers[j];
            j += 1;
        }

        CPU { active: true, registry, ram }
    }

    /// Whether the engine is still running: true until a halt condition is
    /// met during fetch.
    pub fn is_active(&self) -> (r: bool)
        ensures
            r == self.spec_active(),
    {
        self.active
    }

    /// Returns the opcode, source and target register fields of the
    /// instruction at the program counter.
    pub fn read_header(&self) -> (r: (u8, u8, u8))
        requires
            self.wf(),
            self.registry.pc + 1 < self.ram.size,
        ensures
            ({
                let w = word_rev(
                    self.ram.data@[self.registry.pc as int],
                    self.ram.data@[self.registry.pc as int + 1],
                );
                r.0 == opcode_of(w) && r.1 == rs_of(w) && r.2 == rt_of(w)
            }),
    {
        let pc = self.registry.pc;
        let data: u16 = bits::decode_pair(self.ram.read_byte(pc), self.ram.read_byte(pc + 1));

        let opcode: u8 = (data & 0b11_1111) as u8;
        let rs: u8 = ((data & 0b111_1100_0000) >> 6) as u8;
        let rt: u8 = ((data & 0b1111_1000_0000_0000) >> 11) as u8;
        (opcode, rs, rt)
    }

    /// Returns the 16-bit immediate operand of the instruction at the
    /// program counter.
    pub fn read_itype(&self) -> (r: u16)
        requires
            self.wf(),
            self.registry.pc + 3 < self.ram.size,
        ensures
            r == word_rev(
                self.ram.data@[self.registry.pc as int + 2],
                self.ram.data@[self.registry.pc as int + 3],
            ),
    {
        let pc = self.registry.pc;
        bits::decode_pair(self.ram.read_byte(pc + 2), self.ram.read_byte(pc + 3))
    }

    /// Returns the destination register, shift amount and funct fields of
    /// the register-format instruction at the program counter.
    pub fn read_rtype(&self) -> (r: (u8, u8, u8))
        requires
            self.wf(),
            self.registry.pc + 3 < self.ram.size,
        ensures
            ({
                let w2 = word_rev(
                    self.ram.data@[self.registry.pc as int + 2],
                    self.ram.data@[self.registry.pc as int + 3],
                );
                r.0 == rd_of(w2) && r.1 == bits::shamt_of(w2) && r.2 == funct_of(w2)
            }),
    {
        let pc = self.registry.pc;
        let data: u16 = bits::decode_pair(self.ram.read_byte(pc + 2), self.ram.read_byte(pc + 3));

        let rd: u8 = (data & 0b1_1111) as u8;
        let shamt: u8 = ((data & 0b11_1110_0000) >> 5) as u8;
        let funct: u8 = ((data & 0b1111_1100_0000_0000) >> 10) as u8;
        (rd, shamt, funct)
    }

    /// Processes exactly one instruction through the five stages.  On `Ok`
    /// the engine either halted (both halt conditions leave every register
    /// and memory cell untouched) or retired the instruction and advanced
    /// the program counter by exactly 4, whatever the instruction format.
    /// On `Err` the named fault was met and nothing was mutated.
    #[verifier::rlimit(100)]
    pub fn step(&mut self) -> (r: Result<(), Fault>)
        requires
            old(self).wf(),
        ensures
            final(self).wf(),
            final(self).ram.size == old(self).ram.size,
            final(self).registry.size == old(self).registry.size,
            ({
                let effect = spec_step(
                    old(self).ram.data@,
                    old(self).registry.registers@,
                    old(self).ram.last_modified_address@,
                    old(self).registry.pc,
                );
                match effect {
                    StepEffect::Halt => {
                        &&& r is Ok
                        &&& !final(self).spec_active()
                        &&& final(self).ram.data@ == old(self).ram.data@
                        &&& final(self).registry.registers@ == old(self).registry.registers@
                        &&& final(self).registry.pc == old(self).registry.pc
                        &&& final(self).ram.last_modified_address@ == old(
                            self,
                        ).ram.last_modified_address@
                    },
                    StepEffect::Fail(f) => {
                        &&& r == Err::<(), Fault>(f)
                        &&& final(self).spec_active() == old(self).spec_active()
                        &&& final(self).ram.data@ == old(self).ram.data@
                        &&& final(self).registry.registers@ == old(self).registry.registers@
                        &&& final(self).registry.pc == old(self).registry.pc
                        &&& final(self).ram.last_modified_address@ == old(
                            self,
                        ).ram.last_modified_address@
                    },
                    StepEffect::Exec { regs, mem, modified } => {
                        &&& r is Ok
                        &&& final(self).spec_active() == old(self).spec_active()
                        &&& final(self).registry.registers@ == regs
                        &&& final(self).ram.data@ == mem
                        &&& final(self).ram.last_modified_address@ == modified
                        &&& final(self).registry.pc == old(self).registry.pc + 4
                    },
                }
            }),
    {
        let pc = self.registry.pc;

        if pc >= self.ram.size {
            self.active = false;
            return Ok(());
        }
        if pc + 1 >= self.ram.size {
            return Err(Fault::AddressOutOfRange(pc + 1));
        }

        let (opcode, rs, rt) = self.read_header();

        if rs == 0 && rt == 0 {
            self.active = false;
            return Ok(());
        }
        if pc + 3 >= self.ram.size {
            let bad = if pc + 2 >= self.ram.size {
                pc + 2
            } else {
                pc + 3
            };
            return Err(Fault::AddressOutOfRange(bad));
        }

        let d: (Opcode, u8, u8);
        if opcode == 0x0 {
            let (rd, shamt, funct) = self.read_rtype();

            let op = match funct {
                0x19 => Opcode::Multu,
                0x21 => Opcode::Addu,
                _ => {
                    return Err(Fault::UnimplementedFunct(funct));
                },
            };
            d = (op, rd, shamt);
        } else {
            let imm = self.read_itype();
            let uimm: u8 = (imm / 256) as u8;
            let limm: u8 = (imm % 256) as u8;

            let op = match opcode {
                0x8 => Opcode::Addi,
                0x9 => Opcode::Addiu,
                0x20 => Opcode::Lb,
                0x23 => Opcode::Lw,
                0x28 => Opcode::Sb,
                0x2B => Opcode::Sw,
                _ => {
                    return Err(Fault::UnimplementedOpcode(opcode));
                },
            };
            d = (op, uimm, limm);
        }

        let mut x_out: usize = 0;

        match d.0 {
            Opcode::Addi => {
                let imm = bytestoword(d.1, d.2);

                let is_negative: bool = imm >= 0x8000;
                let magnitude: u16 = imm % 0x8000;

                if rs as usize >= self.registry.size {
                    return Err(Fault::RegisterOutOfRange(rs));
                }
                let rs_word: u16 = self.registry.read_word(rs);
                if rt as usize >= self.registry.size {
                    return Err(Fault::RegisterOutOfRange(rt));
                }

                if is_negative {
                    self.registry.write_word(
                        rt,
                        (((rs_word as u32) + 0x10000 - (magnitude as u32)) % 0x10000) as u16,
                    );
                } else {
                    self.registry.write_word(
                        rt,
                        (((rs_word as u32) + (magnitude as u32)) % 0x10000) as u16,
                    );
                }
            },
            Opcode::Addiu => {
                let imm = bytestoword(d.1, d.2);

                if rs as usize >= self.registry.size {
                    return Err(Fault::RegisterOutOfRange(rs));
                }
                let rs_word: u16 = self.registry.read_word(rs);
                if rt as usize >= self.registry.size {
                    return Err(Fault::RegisterOutOfRange(rt));
                }

                self.registry.write_word(rt, (((rs_word as u32) + (imm as u32)) % 0x10000) as u16);
            },
            Opcode::Addu => {
                let rd = d.1;

                if rs as usize >= self.registry.size {
                    return Err(Fault::RegisterOutOfRange(rs));
                }
                let rs_word: u16 = self.registry.read_word(rs);
                if rt as usize >= self.registry.size {
                    return Err(Fault::RegisterOutOfRange(rt));
                }
                let rt_word: u16 = self.registry.read_word(rt);
                if rd as usize >= self.registry.size {
                    return Err(Fault::RegisterOutOfRange(rd));
                }

                self.registry.write_word(
                    rd,
                    (((rs_word as u32) + (rt_word as u32)) % 0x10000) as u16,
                );
            },
            Opcode::Multu => {
                let rd = d.1;

                if rt as usize >= self.registry.size {
                    return Err(Fault::RegisterOutOfRange(rt));
                }
                let rtv: u16 = self.registry.read_word(rt);
                if rs as usize >= self.registry.size {
                    return Err(Fault::RegisterOutOfRange(rs));
                }
                let rsv: u16 = self.registry.read_word(rs);
                if rd as usize >= self.registry.size {
                    return Err(Fault::RegisterOutOfRange(rd));
                }

                proof {
                    assert((rtv as int) * (rsv as int) < 0x100000000) by (nonlinear_arith)
                        requires
                            rtv <= 0xFFFF,
                            rsv <= 0xFFFF,
                    ;
                }
                self.registry.write_word(rd, (((rtv as u32) * (rsv as u32)) % 0x10000) as u16);
            },
            Opcode::Lb | Opcode::Sb | Opcode::Lw | Opcode::Sw => {
                let imm = bytestoword(d.1, d.2);

                if rs as usize >= self.registry.size {
                    return Err(Fault::RegisterOutOfRange(rs));
                }
                x_out = self.registry.read_word(rs) as usize + imm as usize;
            },
        }

        let mut m_out: u16 = 0;

        match d.0 {
            Opcode::Lb => {
                if x_out >= self.ram.size {
                    return Err(Fault::AddressOutOfRange(x_out));
                }
                let loaded = self.ram.read_byte(x_out);
                if rt as usize >= self.registry.size {
                    return Err(Fault::RegisterOutOfRange(rt));
                }
                self.registry.write_byte(rt, loaded);
            },
            Opcode::Sb => {
                if rt as usize >= self.registry.size {
                    return Err(Fault::RegisterOutOfRange(rt));
                }
                m_out = self.registry.read_byte(rt) as u16;
            },
            Opcode::Lw => {
                if x_out + 1 >= self.ram.size {
                    return Err(Fault::AddressOutOfRange(x_out + 1));
                }
                let loaded = self.ram.read_word(x_out);
                if rt as usize >= self.registry.size {
                    return Err(Fault::RegisterOutOfRange(rt));
                }
                self.registry.write_word(rt, loaded);
            },
            Opcode::Sw => {
                if rt as usize >= self.registry.size {
                    return Err(Fault::RegisterOutOfRange(rt));
                }
                m_out = self.registry.read_word(rt);
            },
            _ => {},
        }

        match d.0 {
            Opcode::Sb => {
                if x_out >= self.ram.size {
                    return Err(Fault::AddressOutOfRange(x_out));
                }
                self.ram.write_byte(x_out, (m_out % 256) as u8);
            },
            Opcode::Sw => {
                if x_out >= self.ram.size {
                    return Err(Fault::AddressOutOfRange(x_out));
                }
                if x_out + 1 >= self.ram.size {
                    return Err(Fault::AddressOutOfRange(x_out + 1));
                }
                self.ram.write_word(x_out, m_out);
            },
            _ => {},
        }

        self.registry.pc = pc + 4;
        Ok(())
    }
}

/// ADDU writes the sum of the two source registers, reduced modulo 65536,
/// into the destination register — for every pair of representable 16-bit
/// values.
pub proof fn lemma_addu_adds_mod_65536(
    mem: Seq<u8>,
    regs: Seq<u16>,
    modified: Seq<usize>,
    pc: usize,
)
    requires
        pc + 3 < mem.len(),
        ({
            let w = word_rev(mem[pc as int], mem[pc as int + 1]);
            let w2 = word_rev(mem[pc as int + 2], mem[pc as int + 3]);
            &&& opcode_of(w) == 0
            &&& funct_of(w2) == 0x21
            &&& !(rs_of(w) == 0 && rt_of(w) == 0)
            &&& rs_of(w) < regs.len()
            &&& rt_of(w) < regs.len()
            &&& rd_of(w2) < regs.len()
        }),
    ensures
        ({
            let w = word_rev(mem[pc as int], mem[pc as int + 1]);
            let w2 = word_rev(mem[pc as int + 2], mem[pc as int + 3]);
            spec_step(mem, regs, modified, pc) matches StepEffect::Exec { regs: regs2, .. }
                && regs2 == regs.update(
                rd_of(w2) as int,
                ((regs[rs_of(w) as int] + regs[rt_of(w) as int]) % 65536) as u16,
            )
        }),
{
}

/// MULTU writes the product of the two source registers, reduced modulo
/// 65536, into the destination register — the high half of the full
/// product is discarded.
pub proof fn lemma_multu_multiplies_mod_65536(
    mem: Seq<u8>,
    regs: Seq<u16>,
    modified: Seq<usize>,
    pc: usize,
)
    requires
        pc + 3 < mem.len(),
        ({
            let w = word_rev(mem[pc as int], mem[pc as int + 1]);
            let w2 = word_rev(mem[pc as int + 2], mem[pc as int + 3]);
            &&& opcode_of(w) == 0
            &&& funct_of(w2) == 0x19
            &&& !(rs_of(w) == 0 && rt_of(w) == 0)
            &&& rs_of(w) < regs.len()
            &&& rt_of(w) < regs.len()
            &&& rd_of(w2) < regs.len()
        }),
    ensures
        ({
            let w = word_rev(mem[pc as int], mem[pc as int + 1]);
            let w2 = word_rev(mem[pc as int + 2], mem[pc as int + 3]);
            spec_step(mem, regs, modified, pc) matches StepEffect::Exec { regs: regs2, .. }
                && regs2 == regs.update(
                rd_of(w2) as int,
                ((regs[rt_of(w) as int] * regs[rs_of(w) as int]) % 65536) as u16,
            )
        }),
{
}

/// SW leaves memory holding, at the effective address, exactly the word it
/// stored: a word read there — as LW performs — recovers the full 16-bit
/// register value.
pub proof fn lemma_sw_stores_word(
    mem: Seq<u8>,
    regs: Seq<u16>,
    modified: Seq<usize>,
    pc: usize,
)
    requires
        pc + 3 < mem.len(),
        ({
            let w = word_rev(mem[pc as int], mem[pc as int + 1]);
            let imm = word_rev(mem[pc as int + 2], mem[pc as int + 3]);
            &&& opcode_of(w) == 0x2B
            &&& !(rs_of(w) == 0 && rt_of(w) == 0)
            &&& rs_of(w) < regs.len()
            &&& rt_of(w) < regs.len()
            &&& regs[rs_of(w) as int] + imm + 1 < mem.len()
        }),
    ensures
        ({
            let w = word_rev(mem[pc as int], mem[pc as int + 1]);
            let imm = word_rev(mem[pc as int + 2], mem[pc as int + 3]);
            let x = regs[rs_of(w) as int] + imm;
            spec_step(mem, regs, modified, pc) matches StepEffect::Exec { mem: mem2, .. }
                && word_at(mem2, x) == regs[rt_of(w) as int]
        }),
{
    let w = word_rev(mem[pc as int], mem[pc as int + 1]);
    let imm = word_rev(mem[pc as int + 2], mem[pc as int + 3]);
    let x = regs[rs_of(w) as int] + imm;
    ram::lemma_word_round_trip(mem, x, regs[rt_of(w) as int]);
}

/// LW loads into the target register exactly the word held at the
/// effective address.  Together with `lemma_sw_stores_word` this gives the
/// round trip: a SW followed by a LW at the same address returns the exact
/// 16-bit value written.
pub proof fn lemma_lw_loads_word(
    mem: Seq<u8>,
    regs: Seq<u16>,
    modified: Seq<usize>,
    pc: usize,
)
    requires
        pc + 3 < mem.len(),
        ({
            let w = word_rev(mem[pc as int], mem[pc as int + 1]);
            let imm = word_rev(mem[pc as int + 2], mem[pc as int + 3]);
            &&& opcode_of(w) == 0x23
            &&& !(rs_of(w) == 0 && rt_of(w) == 0)
            &&& rs_of(w) < regs.len()
            &&& rt_of(w) < regs.len()
            &&& regs[rs_of(w) as int] + imm + 1 < mem.len()
        }),
    ensures
        ({
            let w = word_rev(mem[pc as int], mem[pc as int + 1]);
            let imm = word_rev(mem[pc as int + 2], mem[pc as int + 3]);
            let x = regs[rs_of(w) as int] + imm;
            spec_step(mem, regs, modified, pc) matches StepEffect::Exec { regs: regs2, .. }
                && regs2 == regs.update(rt_of(w) as int, word_at(mem, x))
        }),
{
}

/// SB stores exactly the low byte of the target register at the effective
/// address.
pub proof fn lemma_sb_stores_low_byte(
    mem: Seq<u8>,
    regs: Seq<u16>,
    modified: Seq<usize>,
    pc: usize,
)
    requires
        pc + 3 < mem.len(),
        ({
            let w = word_rev(mem[pc as int], mem[pc as int + 1]);
            let imm = word_rev(mem[pc as int + 2], mem[pc as int + 3]);
            &&& opcode_of(w) == 0x28
            &&& !(rs_of(w) == 0 && rt_of(w) == 0)
            &&& rs_of(w) < regs.len()
            &&& rt_of(w) < regs.len()
            &&& regs[rs_of(w) as int] + imm < mem.len()
        }),
    ensures
        ({
            let w = word_rev(mem[pc as int], mem[pc as int + 1]);
            let imm = word_rev(mem[pc as int + 2], mem[pc as int + 3]);
            let x = regs[rs_of(w) as int] + imm;
            spec_step(mem, regs, modified, pc) matches StepEffect::Exec { mem: mem2, .. }
                && mem2[x] == (regs[rt_of(w) as int] % 256) as u8
        }),
{
}

/// LB zero-extends the loaded byte into the full register: the value
/// written is the byte at the effective address and is below 256, whatever
/// the register held before — a byte stored by SB there is read back
/// exactly.
pub proof fn lemma_lb_zero_extends(
    mem: Seq<u8>,
    regs: Seq<u16>,
    modified: Seq<usize>,
    pc: usize,
)
    requires
        pc + 3 < mem.len(),
        ({
            let w = word_rev(mem[pc as int], mem[pc as int + 1]);
            let imm = word_rev(mem[pc as int + 2], mem[pc as int + 3]);
            &&& opcode_of(w) == 0x20
            &&& !(rs_of(w) == 0 && rt_of(w) == 0)
            &&& rs_of(w) < regs.len()
            &&& rt_of(w) < regs.len()
            &&& regs[rs_of(w) as int] + imm < mem.len()
        }),
    ensures
        ({
            let w = word_rev(mem[pc as int], mem[pc as int + 1]);
            let imm = word_rev(mem[pc as int + 2], mem[pc as int + 3]);
            let x = regs[rs_of(w) as int] + imm;
            spec_step(mem, regs, modified, pc) matches StepEffect::Exec { regs: regs2, .. }
                && regs2 == regs.update(rt_of(w) as int, mem[x] as u16)
                && regs2[rt_of(w) as int] < 256
        }),
{
}

/// The engine halts exactly when the program counter has reached the
/// memory capacity, or when the fetched instruction carries the all-zero
/// rs/rt terminator; `step`'s contract adds that such a final step mutates
/// no register and no memory cell.
pub proof fn lemma_halt_exactly_when(
    mem: Seq<u8>,
    regs: Seq<u16>,
    modified: Seq<usize>,
    pc: usize,
)
    ensures
        (spec_step(mem, regs, modified, pc) is Halt) <==> (pc >= mem.len() || (pc + 1 < mem.len()
            && rs_of(word_rev(mem[pc as int], mem[pc as int + 1])) == 0
            && rt_of(word_rev(mem[pc as int], mem[pc as int + 1])) == 0)),
{
}


} // verus!
