use vstd::prelude::*;

verus! {

/// The opcode family: the top nibble of a word.
pub open spec fn family_of(w: u16) -> int {
    w as int / 0x1000
}

/// The address operand: the low 12 bits of a word.
pub open spec fn addr_of(w: u16) -> int {
    w as int % 0x1000
}

/// The byte operand: the low 8 bits of a word.
pub open spec fn byte_of(w: u16) -> int {
    w as int % 0x100
}

/// The nibble operand: the low 4 bits of a word.
pub open spec fn nibble_of(w: u16) -> int {
    w as int % 0x10
}

/// The first register operand: bits 8 to 11 of a word.
pub open spec fn reg_x_of(w: u16) -> int {
    (w as int / 0x100) % 0x10
}

/// The second register operand: bits 4 to 7 of a word.
pub open spec fn reg_y_of(w: u16) -> int {
    (w as int / 0x10) % 0x10
}

/// A 16-bit instruction word split into its operand fields.
#[derive(Debug, Clone, Copy, PartialEq, Eq)]
pub struct Instruction {
    pub op_code: u8,
    pub nnn: u16,
    pub nn: u8,
    pub n: u8,
    pub x: usize,
    pub y: usize,
}

impl Instruction {
    /// The fields of `self` are those that `w` decodes to.
    pub open spec fn decodes(&self, w: u16) -> bool {
        &&& self.op_code as int == family_of(w)
        &&& self.nnn as int == addr_of(w)
        &&& self.nn as int == byte_of(w)
        &&& self.n as int == nibble_of(w)
        &&& self.x as int == reg_x_of(w)
        &&& self.y as int == reg_y_of(w)
    }

    /// Decodes a big-endian instruction word. Every word decodes.
    pub fn from_bytes(bytes: u16) -> (r: Self)
        ensures
            r.decodes(bytes),
    {
        let op_code = (bytes >> 12u16) as u8;
        let nnn = bytes & 0x0FFFu16;
        let nn = (bytes & 0x00FFu16) as u8;
        let n = (bytes & 0x000Fu16) as u8;
        let x = ((bytes >> 8u16) & 0xFu16) as usize;
        let y = ((bytes >> 4u16) & 0xFu16) as usize;
        assert(bytes >> 12u16 == bytes / 0x1000) by (bit_vector);
        assert(bytes & 0x0FFFu16 == bytes % 0x1000) by (bit_vector);
        assert(bytes & 0x00FFu16 == bytes % 0x100) by (bit_vector);
        assert(bytes & 0x000Fu16 == bytes % 0x10) by (bit_vector);
        assert((bytes >> 8u16) & 0xFu16 == (bytes / 0x100) % 0x10) by (bit_vector);
        assert((bytes >> 4u16) & 0xFu16 == (bytes / 0x10) % 0x10) by (bit_vector);
        Self { op_code, nnn, nn, n, x, y }
    }
}

} // verus!
