//! The flat 4096-byte memory of the machine: built-in font glyphs in the
//! interpreter area, program data from address `0x200` on.
use vstd::prelude::*;

verus! {

/// Total size of the CHIP-8 memory in bytes.
pub const MEMORY_SIZE: usize = 4096;

/// The size of the interpreter area. Program memory starts here.
pub const INTERPRETER_SIZE: usize = 512;

/// Bytes available to a loaded program.
pub const PROGRAM_SIZE: usize = 4096 - 512;

/// Number of bytes taken by the built-in font: 16 glyphs of 5 bytes each.
pub const FONT_SIZE: usize = 80;

/// The built-in hexadecimal font. Glyph `d` occupies the five bytes starting
/// at `5 * d`.
pub open spec fn spec_font() -> Seq<u8> {
    seq![
        0xF0u8, 0x90, 0x90, 0x90, 0xF0, // 0
        0x20, 0x60, 0x20, 0x20, 0x70, // 1
        0xF0, 0x10, 0xF0, 0x80, 0xF0, // 2
        0xF0, 0x10, 0xF0, 0x10, 0xF0, // 3
        0x90, 0x90, 0xF0, 0x10, 0x10, // 4
        0xF0, 0x80, 0xF0, 0x10, 0xF0, // 5
        0xF0, 0x80, 0xF0, 0x90, 0xF0, // 6
        0xF0, 0x10, 0x20, 0x40, 0x40, // 7
        0xF0, 0x90, 0xF0, 0x90, 0xF0, // 8
        0xF0, 0x90, 0xF0, 0x10, 0xF0, // 9
        0xF0, 0x90, 0xF0, 0x90, 0x90, // A
        0xE0, 0x90, 0xE0, 0x90, 0xE0, // B
        0xF0, 0x80, 0x80, 0x80, 0xF0, // C
        0xE0, 0x90, 0x90, 0x90, 0xE0, // D
        0xF0, 0x80, 0xF0, 0x80, 0xF0, // E
        0xF0, 0x80, 0xF0, 0x80, 0x80, // F
    ]
}

/// Memory contents right after construction: the font, then zeroes.
pub open spec fn spec_initial_memory() -> Seq<u8> {
    Seq::new(MEMORY_SIZE as nat, |k: int| if k < FONT_SIZE { spec_font()[k] } else { 0u8 })
}

/// A program image padded with zeroes, or truncated, to the program space.
pub open spec fn spec_rom_image(data: Seq<u8>) -> Seq<u8> {
    Seq::new(PROGRAM_SIZE as nat, |k: int| if k < data.len() { data[k] } else { 0u8 })
}

/// The memory of the CHIP-8.
pub struct Memory {
    bytes: Vec<u8>,
}

impl View for Memory {
    type V = Seq<u8>;

    closed spec fn view(&self) -> Seq<u8> {
        self.bytes@
    }
}

impl Memory {
    /// A memory is well formed when it spans the full address range.
    pub open spec fn wf(&self) -> bool {
        self@.len() == MEMORY_SIZE
    }

    /// Create a new `Memory` holding the font followed by zeroes.
    pub fn new() -> (m: Memory)
        ensures
            m.wf(),
            m@ == spec_initial_memory(),
    {
        let mut bytes: Vec<u8> = vec![
            0xF0, 0x90, 0x90, 0x90, 0xF0, // 0
            0x20, 0x60, 0x20, 0x20, 0x70, // 1
            0xF0, 0x10, 0xF0, 0x80, 0xF0, // 2
            0xF0, 0x10, 0xF0, 0x10, 0xF0, // 3
            0x90, 0x90, 0xF0, 0x10, 0x10, // 4
            0xF0, 0x80, 0xF0, 0x10, 0xF0, // 5
            0xF0, 0x80, 0xF0, 0x90, 0xF0, // 6
            0xF0, 0x10, 0x20, 0x40, 0x40, // 7
            0xF0, 0x90, 0xF0, 0x90, 0xF0, // 8
            0xF0, 0x90, 0xF0, 0x10, 0xF0, // 9
            0xF0, 0x90, 0xF0, 0x90, 0x90, // A
            0xE0, 0x90, 0xE0, 0x90, 0xE0, // B
            0xF0, 0x80, 0x80, 0x80, 0xF0, // C
            0xE0, 0x90, 0x90, 0x90, 0xE0, // D
            0xF0, 0x80, 0xF0, 0x80, 0xF0, // E
            0xF0, 0x80, 0xF0, 0x80, 0x80, // F
        ];
        proof {
            assert(bytes@ =~= spec_font());
        }
        while bytes.len() < MEMORY_SIZE
            invariant
                FONT_SIZE <= bytes@.len() <= MEMORY_SIZE,
                forall|k: int| 0 <= k < FONT_SIZE ==> bytes@[k] == spec_font()[k],
                forall|k: int| FONT_SIZE <= k < bytes@.len() ==> bytes@[k] == 0u8,
            decreases MEMORY_SIZE - bytes@.len(),
        {
            bytes.push(0);
        }
        let m = Memory { bytes };
        proof {
            assert(m@ =~= spec_initial_memory());
        }
        m
    }

    /// Read the byte at `addr`.
    pub fn read(&self, addr: usize) -> (b: u8)
        requires
            self.wf(),
            addr < MEMORY_SIZE,
        ensures
            b == self@[addr as int],
    {
        self.bytes[addr]
    }

    /// Write `val` to the byte at `addr`.
    pub fn write(&mut self, addr: usize, val: u8)
        requires
            old(self).wf(),
            addr < MEMORY_SIZE,
        ensures
            final(self).wf(),
            final(self)@ == old(self)@.update(addr as int, val),
    {
        self.bytes[addr] = val;
    }

    /// Load the ROM bytes from `data` into the program space.
    ///
    /// A ROM larger than the program space is truncated; a smaller one
    /// leaves the rest of the program space zero-filled. The interpreter
    /// area below `0x200` is never touched.
    pub fn load_rom(&mut self, data: Vec<u8>)
        requires
            old(self).wf(),
        ensures
            final(self).wf(),
            final(self)@ == old(self)@.subrange(0, INTERPRETER_SIZE as int) + spec_rom_image(data@),
    {
        let ghost original: Seq<u8> = data@;
        let mut image = data;
        if image.len() > PROGRAM_SIZE {
            image.truncate(PROGRAM_SIZE);
        }
        while image.len() < PROGRAM_SIZE
            invariant
                image@.len() <= PROGRAM_SIZE,
                original.len() <= PROGRAM_SIZE ==> image@.len() >= original.len(),
                original.len() > PROGRAM_SIZE ==> image@.len() == PROGRAM_SIZE,
                forall|j: int| 0 <= j < image@.len() ==> image@[j] == spec_rom_image(original)[j],
            decreases PROGRAM_SIZE - image@.len(),
        {
            image.push(0);
        }
        let ghost rom = spec_rom_image(original);
        proof {
            assert(image@ =~= rom);
        }
        let mut k: usize = 0;
        while k < PROGRAM_SIZE
            invariant
                self.wf(),
                k <= PROGRAM_SIZE,
                image@.len() == PROGRAM_SIZE,
                image@ == rom,
                forall|j: int| 0 <= j < INTERPRETER_SIZE ==> self@[j] == old(self)@[j],
                forall|j: int| 0 <= j < k ==> self@[INTERPRETER_SIZE + j] == rom[j],
            decreases PROGRAM_SIZE - k,
        {
            let b = image[k];
            self.bytes[INTERPRETER_SIZE + k] = b;
            k += 1;
        }
        proof {
            assert(self@ =~= old(self)@.subrange(0, INTERPRETER_SIZE as int)
                + spec_rom_image(original));
        }
    }
}

} // verus!
