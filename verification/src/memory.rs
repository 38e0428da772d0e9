//! The flat 4096-byte memory image with its built-in glyph table.
use vstd::prelude::*;

verus! {

/// Number of addressable bytes.
pub const MEMORY_SIZE: usize = 4096;

/// Address at which program bytes are loaded and execution starts.
pub const PROGRAM_BASE: usize = 0x200;

/// Number of bytes in the glyph table: sixteen glyphs of five bytes.
pub const FONT_SIZE: usize = 80;

/// The glyph table: five bytes for each hexadecimal digit, `0` to `F`.
pub open spec fn font_table() -> Seq<u8> {
    seq![
        0xF0u8, 0x90u8, 0x90u8, 0x90u8, 0xF0u8,
        0x20u8, 0x60u8, 0x20u8, 0x20u8, 0x70u8,
        0xF0u8, 0x10u8, 0xF0u8, 0x80u8, 0xF0u8,
        0xF0u8, 0x10u8, 0xF0u8, 0x10u8, 0xF0u8,
        0x90u8, 0x90u8, 0xF0u8, 0x10u8, 0x10u8,
        0xF0u8, 0x80u8, 0xF0u8, 0x10u8, 0xF0u8,
        0xF0u8, 0x80u8, 0xF0u8, 0x90u8, 0xF0u8,
        0xF0u8, 0x10u8, 0x20u8, 0x40u8, 0x40u8,
        0xF0u8, 0x90u8, 0xF0u8, 0x90u8, 0xF0u8,
        0xF0u8, 0x90u8, 0xF0u8, 0x10u8, 0xF0u8,
        0xF0u8, 0x90u8, 0xF0u8, 0x90u8, 0x90u8,
        0xE0u8, 0x90u8, 0xE0u8, 0x90u8, 0xE0u8,
        0xF0u8, 0x80u8, 0x80u8, 0x80u8, 0xF0u8,
        0xE0u8, 0x90u8, 0x90u8, 0x90u8, 0xE0u8,
        0xF0u8, 0x80u8, 0xF0u8, 0x80u8, 0xF0u8,
        0xF0u8, 0x80u8, 0xF0u8, 0x80u8, 0x80u8,
    ]
}

/// The glyph table as bytes.
pub fn fontset() -> (out: [u8; 80])
    ensures
        out@ == font_table(),
{
    let out: [u8; 80] = [
        0xF0, 0x90, 0x90, 0x90, 0xF0,
        0x20, 0x60, 0x20, 0x20, 0x70,
        0xF0, 0x10, 0xF0, 0x80, 0xF0,
        0xF0, 0x10, 0xF0, 0x10, 0xF0,
        0x90, 0x90, 0xF0, 0x10, 0x10,
        0xF0, 0x80, 0xF0, 0x10, 0xF0,
        0xF0, 0x80, 0xF0, 0x90, 0xF0,
        0xF0, 0x10, 0x20, 0x40, 0x40,
        0xF0, 0x90, 0xF0, 0x90, 0xF0,
        0xF0, 0x90, 0xF0, 0x10, 0xF0,
        0xF0, 0x90, 0xF0, 0x90, 0x90,
        0xE0, 0x90, 0xE0, 0x90, 0xE0,
        0xF0, 0x80, 0x80, 0x80, 0xF0,
        0xE0, 0x90, 0x90, 0x90, 0xE0,
        0xF0, 0x80, 0xF0, 0x80, 0xF0,
        0xF0, 0x80, 0xF0, 0x80, 0x80,
    ];
    assert(out@ =~= font_table());
    out
}

/// The image right after a reset: the glyph table at address zero and zero
/// everywhere else.
pub open spec fn cleared_image() -> Seq<u8> {
    Seq::new(4096, |i: int| if i < 80 { font_table()[i] } else { 0u8 })
}

/// What clearing makes of any image. It does not depend on the image.
pub open spec fn after_clear(image: Seq<u8>) -> Seq<u8> {
    cleared_image()
}

/// `image` with `data` copied in from the program base on.
pub open spec fn after_load(image: Seq<u8>, data: Seq<u8>) -> Seq<u8> {
    Seq::new(
        image.len(),
        |i: int| if 0x200 <= i < 0x200 + data.len() { data[i - 0x200] } else { image[i] },
    )
}

pub struct Memory {
    pub memory: [u8; 4096],
}

impl View for Memory {
    type V = Seq<u8>;

    open spec fn view(&self) -> Seq<u8> {
        self.memory@
    }
}

impl Memory {
    /// A memory of zeros. The glyph table is seeded by `clear`.
    pub fn new() -> (out: Self)
        ensures
            out@ == Seq::new(4096, |i: int| 0u8),
    {
        let out = Memory { memory: [0; 4096] };
        assert(out@ =~= Seq::new(4096, |i: int| 0u8));
        out
    }

    /// Reseeds the glyph table and zeroes every other byte.
    pub fn clear(&mut self)
        ensures
            final(self)@ == after_clear(old(self)@),
    {
        let fontset = fontset();
        let mut i: usize = 0;
        while i < 4096
            invariant
                i <= 4096,
                fontset@ == font_table(),
                forall|j: int| 0 <= j < i ==> #[trigger] self.memory@[j] == cleared_image()[j],
            decreases 4096 - i,
        {
            let b: u8 = if i < 80 { fontset[i] } else { 0 };
            self.memory[i] = b;
            i += 1;
        }
        assert(self@ =~= cleared_image());
    }

    /// Copies `data` to the program base. Bytes outside the copied range,
    /// the glyph table among them, keep their values.
    pub fn load(&mut self, data: &[u8])
        requires
            data@.len() <= 4096 - 0x200,
        ensures
            final(self)@ == after_load(old(self)@, data@),
    {
        let mut i: usize = 0;
        while i < data.len()
            invariant
                i <= data@.len() <= 4096 - 0x200,
                forall|j: int| 0 <= j < 4096 ==> #[trigger] self.memory@[j] == (if 0x200 <= j < 0x200 + i {
                    data@[j - 0x200]
                } else {
                    old(self).memory@[j]
                }),
            decreases data@.len() - i,
        {
            self.memory[i + 0x200] = data[i];
            i += 1;
        }
        assert(self@ =~= after_load(old(self)@, data@));
    }

    /// The byte at `index`.
    pub fn get(&self, index: usize) -> (out: u8)
        requires
            index < 4096,
        ensures
            out == self@[index as int],
    {
        self.memory[index]
    }

    /// Stores `data` at `address`.
    pub fn save(&mut self, address: usize, data: u8)
        requires
            address < 4096,
        ensures
            final(self)@ == old(self)@.update(address as int, data),
    {
        self.memory[address] = data;
    }
}

/// Clearing twice gives the image that clearing once gives.
pub proof fn clear_is_idempotent(image: Seq<u8>)
    ensures
        after_clear(after_clear(image)) == after_clear(image),
        after_clear(image).len() == 4096,
{
}

} // verus!
