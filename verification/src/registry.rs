use vstd::prelude::*;

verus! {

/// Fixed-size file of 16-bit registers plus the program counter, a byte
/// address into memory.  Register indices must stay below `size`; the
/// program counter is not one of the registers.
pub struct RegistryFile {
    pub size: usize,
    pub pc: usize,
    pub registers: Vec<u16>,
}

impl RegistryFile {
    /// The file really holds `size` registers.
    pub open spec fn wf(&self) -> bool {
        self.registers@.len() == self.size
    }

    /// A fresh file of `size` registers, all zero, with the program counter
    /// at `pc`.
    pub fn new(pc: usize, size: usize) -> (r: RegistryFile)
        ensures
            r.wf(),
            r.pc == pc,
            r.size == size,
            forall|i: int| 0 <= i < size ==> r.registers@[i] == 0,
    {
        let mut registers: Vec<u16> = Vec::new();
        while registers.len() < size
            invariant
                registers@.len() <= size,
                forall|i: int| 0 <= i < registers@.len() ==> registers@[i] == 0,
            decreases size - registers@.len(),
        {
            registers.push(0u16);
        }
        RegistryFile { pc, size, registers }
    }

    /// Sets the register to `byte` zero-extended to the full width: a full
    /// overwrite that discards any previous high-byte content.
    pub fn write_byte(&mut self, register: u8, byte: u8)
        requires
            old(self).wf(),
            (register as int) < old(self).size,
        ensures
            final(self).wf(),
            final(self).size == old(self).size,
            final(self).pc == old(self).pc,
            final(self).registers@ == old(self).registers@.update(register as int, byte as u16),
    {
        self.registers[register as usize] = byte as u16;
    }

    /// Overwrites the register with the full 16-bit word.
    pub fn write_word(&mut self, register: u8, word: u16)
        requires
            old(self).wf(),
            (register as int) < old(self).size,
        ensures
            final(self).wf(),
            final(self).size == old(self).size,
            final(self).pc == old(self).pc,
            final(self).registers@ == old(self).registers@.update(register as int, word),
    {
        self.registers[register as usize] = word;
    }

    /// Reads the low 8 bits of the register's stored value.
    pub fn read_byte(&self, register: u8) -> (r: u8)
        requires
            self.wf(),
            (register as int) < self.size,
        ensures
            r == self.registers@[register as int] % 256,
    {
        (self.registers[register as usize] % 256) as u8
    }

    /// Reads the register's full stored value.
    pub fn read_word(&self, register: u8) -> (r: u16)
        requires
            self.wf(),
            (register as int) < self.size,
        ensures
            r == self.registers@[register as int],
    {
        self.registers[register as usize]
    }
}

} // verus!
