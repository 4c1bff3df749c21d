//! The 4096-byte address space, preloaded with the built-in glyph font.
use vstd::prelude::*;

verus! {

/// The built-in font: 16 glyphs (digits 0-9 and A-F), 5 bytes per glyph,
/// resident at addresses 0x000..0x050.
pub open spec fn font_seq() -> Seq<u8> {
    seq![
        0xF0u8, 0x90, 0x90, 0x90, 0xF0, 0x20, 0x60, 0x20, 0x20, 0x70,
        0xF0, 0x10, 0xF0, 0x80, 0xF0, 0xF0, 0x10, 0xF0, 0x10, 0xF0,
        0x90, 0x90, 0xF0, 0x10, 0x10, 0xF0, 0x80, 0xF0, 0x10, 0xF0,
        0xF0, 0x80, 0xF0, 0x90, 0xF0, 0xF0, 0x10, 0x20, 0x40, 0x40,
        0xF0, 0x90, 0xF0, 0x90, 0xF0, 0xF0, 0x90, 0xF0, 0x10, 0xF0,
        0xF0, 0x90, 0xF0, 0x90, 0x90, 0xE0, 0x90, 0xE0, 0x90, 0xE0,
        0xF0, 0x80, 0x80, 0x80, 0xF0, 0xE0, 0x90, 0x90, 0x90, 0xE0,
        0xF0, 0x80, 0xF0, 0x80, 0xF0, 0xF0, 0x80, 0xF0, 0x80, 0x80,
    ]
}

/// A vector of `n` zero bytes.
pub fn zero_bytes(n: usize) -> (r: Vec<u8>)
    ensures
        r@.len() == n,
        forall|i: int| 0 <= i < n ==> r@[i] == 0,
{
    let mut r: Vec<u8> = Vec::new();
    while r.len() < n
        invariant
            r@.len() <= n,
            forall|i: int| 0 <= i < r@.len() ==> r@[i] == 0,
        decreases n - r@.len(),
    {
        r.push(0);
    }
    r
}

/// The font table as executable bytes.
fn font_bytes() -> (r: Vec<u8>)
    ensures
        r@ == font_seq(),
{
    let r: Vec<u8> = vec![
        0xF0u8, 0x90, 0x90, 0x90, 0xF0, 0x20, 0x60, 0x20, 0x20, 0x70,
        0xF0, 0x10, 0xF0, 0x80, 0xF0, 0xF0, 0x10, 0xF0, 0x10, 0xF0,
        0x90, 0x90, 0xF0, 0x10, 0x10, 0xF0, 0x80, 0xF0, 0x10, 0xF0,
        0xF0, 0x80, 0xF0, 0x90, 0xF0, 0xF0, 0x10, 0x20, 0x40, 0x40,
        0xF0, 0x90, 0xF0, 0x90, 0xF0, 0xF0, 0x90, 0xF0, 0x10, 0xF0,
        0xF0, 0x90, 0xF0, 0x90, 0x90, 0xE0, 0x90, 0xE0, 0x90, 0xE0,
        0xF0, 0x80, 0x80, 0x80, 0xF0, 0xE0, 0x90, 0x90, 0x90, 0xE0,
        0xF0, 0x80, 0xF0, 0x80, 0xF0, 0xF0, 0x80, 0xF0, 0x80, 0x80,
    ];
    proof {
        assert(r@ =~= font_seq());
    }
    r
}

/// The fixed address space: 4096 bytes, font at the bottom, program image
/// conventionally from 0x200 on.
pub struct RAM {
    pub memory: Vec<u8>,
}

impl RAM {
    /// Structural invariant: the store always spans exactly 4096 bytes.
    pub open spec fn wf(&self) -> bool {
        self.memory@.len() == 4096
    }

    /// A fresh store: the font in bytes 0x000..0x050, zero everywhere else.
    pub fn new() -> (r: RAM)
        ensures
            r.wf(),
            forall|i: int| 0 <= i < 80 ==> r.memory@[i] == font_seq()[i],
            forall|i: int| 80 <= i < 4096 ==> r.memory@[i] == 0,
    {
        let mut memory = zero_bytes(4096);
        let font = font_bytes();
        let mut i: usize = 0;
        while i < 80
            invariant
                memory@.len() == 4096,
                font@ == font_seq(),
                i <= 80,
                forall|j: int| 0 <= j < i ==> memory@[j] == font_seq()[j],
                forall|j: int| i <= j < 4096 ==> memory@[j] == 0,
            decreases 80 - i,
        {
            memory.set(i, font[i]);
            i = i + 1;
        }
        RAM { memory }
    }

    /// Copy a program image into the store starting at 0x200. Rejects an
    /// image that would run past the end of the address space; on rejection
    /// the store is left untouched.
    pub fn load_rom(&mut self, rom: &Vec<u8>) -> (r: Result<(), String>)
        requires
            old(self).wf(),
        ensures
            final(self).wf(),
            r.is_ok() <==> 0x200 + rom@.len() <= 4096,
            r.is_ok() ==> forall|i: int|
                0 <= i < 4096 ==> final(self).memory@[i] == (if 0x200 <= i < 0x200 + rom@.len() {
                    rom@[i - 0x200]
                } else {
                    old(self).memory@[i]
                }),
            r.is_err() ==> final(self).memory@ == old(self).memory@,
    {
        if rom.len() > 4096 - 0x200 {
            return Err("rom image does not fit in memory".to_string());
        }
        let mut i: usize = 0;
        while i < rom.len()
            invariant
                self.memory@.len() == 4096,
                rom@.len() <= 4096 - 0x200,
                i <= rom@.len(),
                forall|j: int| 0x200 <= j < 0x200 + i ==> self.memory@[j] == rom@[j - 0x200],
                forall|j: int| 0 <= j < 4096 && !(0x200 <= j < 0x200 + i)
                    ==> self.memory@[j] == old(self).memory@[j],
            decreases rom@.len() - i,
        {
            self.memory.set(0x200 + i, rom[i]);
            i = i + 1;
        }
        Ok(())
    }
}

} // verus!
