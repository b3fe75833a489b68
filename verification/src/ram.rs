use vstd::prelude::*;

verus! {

/// The 16-bit value a word read at `address` yields: the byte at `address`
/// is the low byte, the byte at `address + 1` the high byte.  When the high
/// byte is zero the read is defined as the low byte alone — a documented
/// quirk of this memory; the value coincides with the little-endian
/// composition, so one formula describes both branches.
pub open spec fn word_at(data: Seq<u8>, address: int) -> u16 {
    (data[address] + 256 * data[address + 1]) as u16
}

/// The byte sequence after a word write at `address`: the low byte of
/// `word` lands at `address`, the high byte at `address + 1`.
pub open spec fn store_word(data: Seq<u8>, address: int, word: u16) -> Seq<u8> {
    data.update(address, (word % 256) as u8).update(address + 1, (word / 256) as u8)
}

/// Byte-addressable flat memory.  Every access must stay below `size`; the
/// addresses of the most recent store are kept for diagnostic display and
/// replaced by the next store.
pub struct RAM {
    pub size: usize,
    pub data: Vec<u8>,
    pub last_modified_address: Vec<usize>,
}

impl RAM {
    /// The storage really holds `size` bytes.
    pub open spec fn wf(&self) -> bool {
        self.data@.len() == self.size
    }

    /// Fresh memory of `size` zero bytes.
    pub fn new(size: usize) -> (r: RAM)
        ensures
            r.wf(),
            r.size == size,
            r.data@.len() == size,
            forall|i: int| 0 <= i < size ==> r.data@[i] == 0,
            r.last_modified_address@ == Seq::<usize>::empty(),
    {
        let mut data: Vec<u8> = Vec::new();
        while data.len() < size
            invariant
                data@.len() <= size,
                forall|i: int| 0 <= i < data@.len() ==> data@[i] == 0,
            decreases size - data@.len(),
        {
            data.push(0u8);
        }
        RAM { size, data, last_modified_address: Vec::new() }
    }

    /// Stores one byte and records its address as the last one modified.
    pub fn write_byte(&mut self, address: usize, byte: u8)
        requires
            old(self).wf(),
            address < old(self).size,
        ensures
            final(self).wf(),
            final(self).size == old(self).size,
            final(self).data@ == old(self).data@.update(address as int, byte),
            final(self).last_modified_address@ == seq![address],
    {
        let mut modified: Vec<usize> = Vec::new();
        modified.push(address);
        self.last_modified_address = modified;
        self.data[address] = byte;
    }

    /// Reads one byte.
    pub fn read_byte(&self, address: usize) -> (r: u8)
        requires
            self.wf(),
            address < self.size,
        ensures
            r == self.data@[address as int],
    {
        self.data[address]
    }

    /// Stores a 16-bit word: its low byte at `address`, its high byte at
    /// `address + 1`.  Both addresses are recorded as the last modified.
    pub fn write_word(&mut self, address: usize, word: u16)
        requires
            old(self).wf(),
            address + 1 < old(self).size,
        ensures
            final(self).wf(),
            final(self).size == old(self).size,
            final(self).data@ == store_word(old(self).data@, address as int, word),
            final(self).last_modified_address@ == seq![address, (address + 1) as usize],
    {
        let mut modified: Vec<usize> = Vec::new();
        modified.push(address);
        modified.push(address + 1);
        self.last_modified_address = modified;
        self.data[address] = (word % 256) as u8;
        self.data[address + 1] = (word / 256) as u8;
    }

    /// Reads a 16-bit word.  When the byte at `address + 1` is zero the
    /// result is, by this memory's documented quirk, exactly the byte at
    /// `address`; otherwise it is the little-endian composition of the two
    /// bytes.
    pub fn read_word(&self, address: usize) -> (r: u16)
        requires
            self.wf(),
            address + 1 < self.size,
        ensures
            r == word_at(self.data@, address as int),
            self.data@[address as int + 1] == 0 ==> r == self.data@[address as int],
    {
        let hb = self.data[address + 1] as u16;
        let lb = self.data[address] as u16;

        if hb == 0 {
            lb
        } else {
            lb + hb * 256
        }
    }

    /// Forgets the recorded last-modified addresses, as the display cycle
    /// does after rendering them.
    pub fn clear_last_modified(&mut self)
        ensures
            final(self).size == old(self).size,
            final(self).data@ == old(self).data@,
            final(self).last_modified_address@ == Seq::<usize>::empty(),
    {
        self.last_modified_address = Vec::new();
    }
}

/// A word written at an address is read back exactly: storing `word` and
/// composing a word at the same address round-trips every 16-bit value.
pub proof fn lemma_word_round_trip(data: Seq<u8>, address: int, word: u16)
    requires
        0 <= address,
        address + 1 < data.len(),
    ensures
        word_at(store_word(data, address, word), address) == word,
{
    vstd::arithmetic::div_mod::lemma_fundamental_div_mod(word as int, 256);
}


} // verus!
