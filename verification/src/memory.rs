//! The flat 4096-byte address space of the machine.
//!
//! Addresses `0x000`–`0x04F` hold a fixed 16-glyph font (5 bytes per glyph,
//! glyphs `0`–`F`); a loaded program occupies `0x200` onward, up to 3584
//! bytes.  Out-of-range accesses are ruled out by contract: the CPU reports
//! them as faults instead of reaching this module.

use vstd::prelude::*;

verus! {

/// Size of the address space in bytes.
pub const MEM_SIZE: usize = 4096;

/// First address of the loaded program.
pub const PROGRAM_START: usize = 512;

/// Greatest number of program bytes that fit above `PROGRAM_START`.
pub const MAX_PROGRAM: usize = 3584;

/// Number of bytes the glyph font occupies at address 0.
pub const FONT_LEN: usize = 80;

/// The fixed glyph font: 16 glyphs for the hex digits `0`–`F`, 5 bytes
/// each, in glyph order.  The sprite-draw-digit instruction computes the
/// address of glyph `d` as `d * 5`, so these values and their order are
/// part of the machine's contract.
pub open spec fn font_sprites() -> Seq<u8> {
    seq![
        0xF0u8, 0x90, 0x90, 0x90, 0xF0, // 0
        0x20, 0x60, 0x20, 0x20, 0x70, // 1
        0xF0, 0x10, 0xF0, 0x80, 0xF0, // 2
        0xF0, 0x10, 0xF0, 0x80, 0xF0, // 3
        0x90, 0x90, 0xF0, 0x10, 0x10, // 4
        0xF0, 0x80, 0xF0, 0x10, 0xF0, // 5
        0xF0, 0x80, 0xF0, 0x90, 0xF0, // 6
        0xF0, 0x10, 0x20, 0x40, 0x40, // 7
        0xF0, 0x90, 0xF0, 0x90, 0xF0, // 8
        0xF0, 0x90, 0xF0, 0x10, 0xF0, // 9
        0xF0, 0x90, 0xF0, 0x90, 0x90, // A
        0xE0, 0x90, 0xE0, 0x90, 0xE0, // B
        0xF0, 0x80, 0x80, 0x80, 0xF0, // C
        0xE0, 0x90, 0x90, 0x90, 0xE0, // D
        0xF0, 0x80, 0xF0, 0x80, 0xF0, // E
        0xF0, 0x80, 0xF0, 0x80, 0x80, // F
    ]
}

/// What the memory must look like right after a program was loaded:
/// the font at the bottom, zeroes up to the program region, the first
/// `n` program bytes from `0x200` on, zeroes above them.
pub open spec fn loaded_view(bytes: Seq<u8>) -> Seq<u8> {
    Seq::new(
        MEM_SIZE as nat,
        |a: int|
            if a < FONT_LEN {
                font_sprites()[a]
            } else if PROGRAM_START <= a < PROGRAM_START + loaded_len(bytes) {
                bytes[a - PROGRAM_START]
            } else {
                0u8
            },
    )
}

/// How many bytes of a program image actually land in memory: the image is
/// truncated silently at `MAX_PROGRAM` bytes.
pub open spec fn loaded_len(bytes: Seq<u8>) -> int {
    if bytes.len() <= MAX_PROGRAM {
        bytes.len() as int
    } else {
        MAX_PROGRAM as int
    }
}

/// The addressable memory: an ordered sequence of exactly 4096 bytes.
pub struct Memory {
    pub mem: Vec<u8>,
}

/// A fresh all-zero 4096-byte array.
fn zeroed_page() -> (v: Vec<u8>)
    ensures
        v@.len() == MEM_SIZE,
        forall|a: int| 0 <= a < MEM_SIZE ==> v@[a] == 0u8,
{
    let mut v: Vec<u8> = Vec::new();
    let mut i: usize = 0;
    while i < MEM_SIZE
        invariant
            i <= MEM_SIZE,
            v@.len() == i,
            forall|a: int| 0 <= a < i ==> v@[a] == 0u8,
        decreases MEM_SIZE - i,
    {
        v.push(0);
        i = i + 1;
    }
    v
}

impl Memory {
    /// The address space always spans exactly 4096 bytes.
    pub open spec fn wf(&self) -> bool {
        self.mem@.len() == MEM_SIZE
    }

    /// Allocates the address space, all zero.
    pub fn new() -> (m: Memory)
        ensures
            m.wf(),
            forall|a: int| 0 <= a < MEM_SIZE ==> m.mem@[a] == 0u8,
    {
        Memory { mem: zeroed_page() }
    }

    /// Writes the glyph font into the bottom 80 bytes; everything above is
    /// left untouched.
    fn init_font(&mut self)
        requires
            old(self).wf(),
        ensures
            final(self).wf(),
            forall|a: int| 0 <= a < FONT_LEN ==> final(self).mem@[a] == font_sprites()[a],
            forall|a: int|
                FONT_LEN <= a < MEM_SIZE ==> final(self).mem@[a] == old(self).mem@[a],
    {
        let font = font_data();
        let mut i: usize = 0;
        while i < FONT_LEN
            invariant
                i <= FONT_LEN,
                self.mem@.len() == MEM_SIZE,
                font@ == font_sprites(),
                forall|a: int| 0 <= a < i ==> self.mem@[a] == font_sprites()[a],
                forall|a: int| i <= a < MEM_SIZE ==> self.mem@[a] == old(self).mem@[a],
            decreases FONT_LEN - i,
        {
            self.mem[i] = font[i];
            i = i + 1;
        }
    }

    /// Resets the whole address space to zero, reinstalls the font, then
    /// copies the program image to `0x200` onward, silently truncating it
    /// at 3584 bytes.
    pub fn load(&mut self, bytes: &Vec<u8>)
        ensures
            final(self).wf(),
            final(self).mem@ == loaded_view(bytes@),
    {
        self.mem = zeroed_page();
        self.init_font();
        let n = if bytes.len() > MAX_PROGRAM {
            MAX_PROGRAM
        } else {
            bytes.len()
        };
        let mut k: usize = 0;
        while k < n
            invariant
                n == loaded_len(bytes@),
                k <= n,
                n <= bytes@.len(),
                self.mem@.len() == MEM_SIZE,
                forall|a: int| 0 <= a < FONT_LEN ==> self.mem@[a] == font_sprites()[a],
                forall|a: int|
                    FONT_LEN <= a < MEM_SIZE && !(PROGRAM_START <= a < PROGRAM_START + k)
                        ==> self.mem@[a] == 0u8,
                forall|j: int|
                    0 <= j < k ==> self.mem@[PROGRAM_START + j] == bytes@[j],
            decreases n - k,
        {
            self.mem[PROGRAM_START + k] = bytes[k];
            k = k + 1;
        }
        proof {
            assert(self.mem@ =~= loaded_view(bytes@));
        }
    }

    /// Stores one byte at an in-range address.
    pub fn set_memory(&mut self, address: u16, val: u8)
        requires
            old(self).wf(),
            address < MEM_SIZE,
        ensures
            final(self).wf(),
            final(self).mem@ == old(self).mem@.update(address as int, val),
    {
        self.mem[address as usize] = val;
    }

    /// Reads one byte at an in-range address.
    pub fn get_memory(&self, address: u16) -> (b: u8)
        requires
            self.wf(),
            address < MEM_SIZE,
        ensures
            b == self.mem@[address as int],
    {
        self.mem[address as usize]
    }
}

/// The font as an executable byte vector, used to install it.
fn font_data() -> (v: Vec<u8>)
    ensures
        v@ == font_sprites(),
{
    let mut v: Vec<u8> = Vec::new();
    v.push(0xF0);
    v.push(0x90);
    v.push(0x90);
    v.push(0x90);
    v.push(0xF0);
    v.push(0x20);
    v.push(0x60);
    v.push(0x20);
    v.push(0x20);
    v.push(0x70);
    v.push(0xF0);
    v.push(0x10);
    v.push(0xF0);
    v.push(0x80);
    v.push(0xF0);
    v.push(0xF0);
    v.push(0x10);
    v.push(0xF0);
    v.push(0x80);
    v.push(0xF0);
    v.push(0x90);
    v.push(0x90);
    v.push(0xF0);
    v.push(0x10);
    v.push(0x10);
    v.push(0xF0);
    v.push(0x80);
    v.push(0xF0);
    v.push(0x10);
    v.push(0xF0);
    v.push(0xF0);
    v.push(0x80);
    v.push(0xF0);
    v.push(0x90);
    v.push(0xF0);
    v.push(0xF0);
    v.push(0x10);
    v.push(0x20);
    v.push(0x40);
    v.push(0x40);
    v.push(0xF0);
    v.push(0x90);
    v.push(0xF0);
    v.push(0x90);
    v.push(0xF0);
    v.push(0xF0);
    v.push(0x90);
    v.push(0xF0);
    v.push(0x10);
    v.push(0xF0);
    v.push(0xF0);
    v.push(0x90);
    v.push(0xF0);
    v.push(0x90);
    v.push(0x90);
    v.push(0xE0);
    v.push(0x90);
    v.push(0xE0);
    v.push(0x90);
    v.push(0xE0);
    v.push(0xF0);
    v.push(0x80);
    v.push(0x80);
    v.push(0x80);
    v.push(0xF0);
    v.push(0xE0);
    v.push(0x90);
    v.push(0x90);
    v.push(0x90);
    v.push(0xE0);
    v.push(0xF0);
    v.push(0x80);
    v.push(0xF0);
    v.push(0x80);
    v.push(0xF0);
    v.push(0xF0);
    v.push(0x80);
    v.push(0xF0);
    v.push(0x80);
    v.push(0x80);
    proof {
        assert(v@ =~= font_sprites());
    }
    v
}

} // verus!
