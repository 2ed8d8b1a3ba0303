//! Addressable memory: 4096 bytes with bounds-checked accessors. Addresses
//! `0x000`..`0x1FF` are reserved (font data sits at `0x050`); programs load
//! at `0x200`. Out-of-range access is excluded by precondition; the
//! interpreter checks addresses first and reports a fault instead.

use vstd::prelude::*;

verus! {

/// The number of addressable bytes.
pub const MEMORY_SIZE: usize = 4096;

/// The offset at which the hexadecimal digit font is loaded.
pub const FONT_BASE: u16 = 0x50;

/// The big-endian 16-bit value built from the bytes at `a` and `a + 1`.
pub open spec fn read16(mem: Seq<u8>, a: int) -> u16 {
    (mem[a] * 0x100 + mem[a + 1]) as u16
}

/// The built-in font: sixteen hexadecimal-digit glyphs of five bytes each,
/// `0` through `F`.
pub open spec fn font_data() -> Seq<u8> {
    seq![
        0xF0u8, 0x90, 0x90, 0x90, 0xF0,
        0x20, 0x60, 0x20, 0x20, 0x70,
        0xF0, 0x10, 0xF0, 0x80, 0xF0,
        0xF0, 0x10, 0xF0, 0x10, 0xF0,
        0x90, 0x90, 0xF0, 0x10, 0x10,
        0xF0, 0x80, 0xF0, 0x10, 0xF0,
        0xF0, 0x80, 0xF0, 0x90, 0xF0,
        0xF0, 0x10, 0x20, 0x40, 0x40,
        0xF0, 0x90, 0xF0, 0x90, 0xF0,
        0xF0, 0x90, 0xF0, 0x10, 0xF0,
        0xF0, 0x90, 0xF0, 0x90, 0x90,
        0xE0, 0x90, 0xE0, 0x90, 0xE0,
        0xF0, 0x80, 0x80, 0x80, 0xF0,
        0xE0, 0x90, 0x90, 0x90, 0xE0,
        0xF0, 0x80, 0xF0, 0x80, 0xF0,
        0xF0, 0x80, 0xF0, 0x80, 0x80,
    ]
}

/// Copy the sixteen five-byte font glyphs into memory at the font base
/// offset; everything else is untouched.
pub fn load_font(memory: &mut Memory)
    requires
        old(memory).wf(),
    ensures
        final(memory).wf(),
        forall|a: int|
            FONT_BASE <= a < FONT_BASE + 80 ==> final(memory)@[a] == font_data()[a - FONT_BASE],
        forall|a: int|
            0 <= a < MEMORY_SIZE && !(FONT_BASE <= a < FONT_BASE + 80) ==> final(memory)@[a]
                == old(memory)@[a],
{
    let font: Vec<u8> = vec![
        0xF0u8, 0x90, 0x90, 0x90, 0xF0,
        0x20, 0x60, 0x20, 0x20, 0x70,
        0xF0, 0x10, 0xF0, 0x80, 0xF0,
        0xF0, 0x10, 0xF0, 0x10, 0xF0,
        0x90, 0x90, 0xF0, 0x10, 0x10,
        0xF0, 0x80, 0xF0, 0x10, 0xF0,
        0xF0, 0x80, 0xF0, 0x90, 0xF0,
        0xF0, 0x10, 0x20, 0x40, 0x40,
        0xF0, 0x90, 0xF0, 0x90, 0xF0,
        0xF0, 0x90, 0xF0, 0x10, 0xF0,
        0xF0, 0x90, 0xF0, 0x90, 0x90,
        0xE0, 0x90, 0xE0, 0x90, 0xE0,
        0xF0, 0x80, 0x80, 0x80, 0xF0,
        0xE0, 0x90, 0x90, 0x90, 0xE0,
        0xF0, 0x80, 0xF0, 0x80, 0xF0,
        0xF0, 0x80, 0xF0, 0x80, 0x80,
    ];
    proof {
        assert(font@ =~= font_data());
    }
    let mut i: usize = 0;
    while i < 80
        invariant
            memory.wf(),
            font@ =~= font_data(),
            font@.len() == 80,
            i <= 80,
            forall|a: int| FONT_BASE <= a < FONT_BASE + i ==> memory@[a] == font_data()[a
                - FONT_BASE],
            forall|a: int|
                0 <= a < MEMORY_SIZE && !(FONT_BASE <= a < FONT_BASE + i) ==> memory@[a] == old(
                    memory,
                )@[a],
        decreases 80 - i,
    {
        memory.set(FONT_BASE + i as u16, font[i]);
        i = i + 1;
    }
}

pub struct Memory {
    data: Vec<u8>,
}

impl Memory {
    /// The stored bytes, by address.
    pub closed spec fn view(self) -> Seq<u8> {
        self.data@
    }

    /// Memory always holds exactly `MEMORY_SIZE` bytes.
    pub open spec fn wf(self) -> bool {
        self@.len() == MEMORY_SIZE
    }

    /// Fresh memory, all bytes zero.
    pub fn new() -> (r: Memory)
        ensures
            r.wf(),
            forall|a: int| 0 <= a < MEMORY_SIZE ==> r@[a] == 0,
    {
        Memory { data: vec![0u8; MEMORY_SIZE] }
    }

    /// The big-endian 16-bit value at `location`.
    pub fn get_as_u16(&self, location: u16) -> (r: u16)
        requires
            self.wf(),
            location + 1 < MEMORY_SIZE,
        ensures
            r == read16(self@, location as int),
    {
        let hi = self.data[location as usize];
        let lo = self.data[location as usize + 1];
        (hi as u16) * 0x100 + (lo as u16)
    }

    /// The byte at `location`.
    pub fn get_as_u8(&self, location: u16) -> (r: u8)
        requires
            self.wf(),
            location < MEMORY_SIZE,
        ensures
            r == self@[location as int],
    {
        self.data[location as usize]
    }

    /// Overwrite the byte at `location`.
    pub fn set(&mut self, location: u16, data: u8)
        requires
            old(self).wf(),
            location < MEMORY_SIZE,
        ensures
            final(self).wf(),
            final(self)@ == old(self)@.update(location as int, data),
    {
        self.data[location as usize] = data;
    }
}

} // verus!
