//! Addressable byte memory of the virtual machine.
//!
//! The first eighty bytes hold sixteen built-in 5-byte glyph sprites, one per
//! hexadecimal digit; a program image is loaded at `ROM_START_ADDRESS`.

use vstd::prelude::*;

verus! {

/// Number of addressable bytes.
pub const MEMORY_SIZE: usize = 4096;

/// First address of a loaded program image.
pub const ROM_START_ADDRESS: u16 = 0x200;

/// Bytes occupied by the sixteen built-in 5-byte glyph sprites.
pub const DIGIT_SPRITES_LEN: usize = 80;

/// The sixteen built-in glyph sprites, five bytes per hexadecimal digit,
/// digit `d` starting at offset `5 * d`.
pub open spec fn digit_sprites() -> Seq<u8> {
    seq![
        0xF0u8, 0x90, 0x90, 0x90, 0xF0, // 0
        0x20, 0x60, 0x20, 0x20, 0x70, // 1
        0xF0, 0x10, 0xF0, 0x80, 0xF0, // 2
        0xF0, 0x10, 0xF0, 0x10, 0xF0, // 3
        0x90, 0x90, 0xF0, 0x10, 0x10, // 4
        0xF0, 0x80, 0xF0, 0x10, 0xF0, // 5
        0xF0, 0x80, 0xF0, 0x90, 0xF0, // 6
        0xF0, 0x10, 0x20, 0x40, 0x40, // 7
        0xF0, 0x90, 0xF0, 0x90, 0xF0, // 8
        0xF0, 0x90, 0xF0, 0x10, 0xF0, // 9
        0xF0, 0x90, 0xF0, 0x90, 0x90, // A
        0xE0, 0x90, 0xE0, 0x90, 0xE0, // B
        0xF0, 0x80, 0x80, 0x80, 0xF0, // C
        0xE0, 0x90, 0x90, 0x90, 0xE0, // D
        0xF0, 0x80, 0xF0, 0x80, 0xF0, // E
        0xF0, 0x80, 0x80, 0x80, 0x80, // F
    ]
}

/// The glyph sprite table as executable bytes.
fn digit_sprite_bytes() -> (r: Vec<u8>)
    ensures
        r@ == digit_sprites(),
{
    let r: Vec<u8> = vec![
        0xF0u8, 0x90, 0x90, 0x90, 0xF0, // 0
        0x20, 0x60, 0x20, 0x20, 0x70, // 1
        0xF0, 0x10, 0xF0, 0x80, 0xF0, // 2
        0xF0, 0x10, 0xF0, 0x10, 0xF0, // 3
        0x90, 0x90, 0xF0, 0x10, 0x10, // 4
        0xF0, 0x80, 0xF0, 0x10, 0xF0, // 5
        0xF0, 0x80, 0xF0, 0x90, 0xF0, // 6
        0xF0, 0x10, 0x20, 0x40, 0x40, // 7
        0xF0, 0x90, 0xF0, 0x90, 0xF0, // 8
        0xF0, 0x90, 0xF0, 0x10, 0xF0, // 9
        0xF0, 0x90, 0xF0, 0x90, 0x90, // A
        0xE0, 0x90, 0xE0, 0x90, 0xE0, // B
        0xF0, 0x80, 0x80, 0x80, 0xF0, // C
        0xE0, 0x90, 0x90, 0x90, 0xE0, // D
        0xF0, 0x80, 0xF0, 0x80, 0xF0, // E
        0xF0, 0x80, 0x80, 0x80, 0x80, // F
    ];
    proof {
        assert(r@ =~= digit_sprites());
    }
    r
}

/// 4096 addressable bytes; every sixteen-bit address below `MEMORY_SIZE`
/// is backed.
pub struct Ram {
    memory: Vec<u8>,
}

impl View for Ram {
    type V = Seq<u8>;

    closed spec fn view(&self) -> Seq<u8> {
        self.memory@
    }
}

impl Ram {
    /// The full address space is backed.
    pub open spec fn wf(&self) -> bool {
        self@.len() == MEMORY_SIZE
    }

    /// Fresh memory: every byte is zero.
    pub fn new() -> (r: Ram)
        ensures
            r.wf(),
            r@ == Seq::new(MEMORY_SIZE as nat, |a: int| 0u8),
    {
        let mut memory: Vec<u8> = Vec::new();
        let mut k: usize = 0;
        while k < MEMORY_SIZE
            invariant
                k <= MEMORY_SIZE,
                memory@.len() == k,
                forall|j: int| 0 <= j < k ==> memory@[j] == 0u8,
            decreases MEMORY_SIZE - k,
        {
            memory.push(0);
            k += 1;
        }
        let r = Ram { memory };
        proof {
            assert(r@ =~= Seq::new(MEMORY_SIZE as nat, |a: int| 0u8));
        }
        r
    }

    /// Pure lookup of one byte.
    pub fn read(&self, address: u16) -> (r: u8)
        requires
            self.wf(),
            address < MEMORY_SIZE,
        ensures
            r == self@[address as int],
    {
        self.memory[address as usize]
    }

    /// In-place mutation of one byte.
    pub fn write(&mut self, address: u16, value: u8)
        requires
            old(self).wf(),
            address < MEMORY_SIZE,
        ensures
            final(self).wf(),
            final(self)@ == old(self)@.update(address as int, value),
    {
        self.memory[address as usize] = value;
    }

    /// One-shot initialization of the glyph sprite region, which must still
    /// be all zero.
    pub fn load_digit_sprites(&mut self)
        requires
            old(self).wf(),
            forall|j: int| 0 <= j < DIGIT_SPRITES_LEN ==> old(self)@[j] == 0u8,
        ensures
            final(self).wf(),
            forall|j: int|
                0 <= j < DIGIT_SPRITES_LEN ==> final(self)@[j] == digit_sprites()[j],
            forall|j: int|
                DIGIT_SPRITES_LEN <= j < MEMORY_SIZE ==> final(self)@[j] == old(self)@[j],
    {
        let sprites = digit_sprite_bytes();
        let mut k: usize = 0;
        while k < DIGIT_SPRITES_LEN
            invariant
                k <= DIGIT_SPRITES_LEN,
                self.wf(),
                sprites@ == digit_sprites(),
                forall|j: int| 0 <= j < k ==> self@[j] == digit_sprites()[j],
                forall|j: int| k <= j < MEMORY_SIZE ==> self@[j] == old(self)@[j],
            decreases DIGIT_SPRITES_LEN - k,
        {
            let value = sprites[k];
            self.write(k as u16, value);
            k += 1;
        }
    }

    /// Copies the given bytes starting at `ROM_START_ADDRESS`, overwriting
    /// whatever was there.
    pub fn load_rom(&mut self, data: &[u8])
        requires
            old(self).wf(),
            data@.len() <= MEMORY_SIZE - ROM_START_ADDRESS,
        ensures
            final(self).wf(),
            forall|j: int|
                0 <= j < data@.len() ==> final(self)@[ROM_START_ADDRESS + j] == data@[j],
            forall|a: int|
                0 <= a < MEMORY_SIZE && !(ROM_START_ADDRESS <= a < ROM_START_ADDRESS + data@.len())
                    ==> final(self)@[a] == old(self)@[a],
    {
        let mut k: usize = 0;
        while k < data.len()
            invariant
                k <= data@.len(),
                data@.len() <= MEMORY_SIZE - ROM_START_ADDRESS,
                self.wf(),
                forall|j: int| 0 <= j < k ==> self@[ROM_START_ADDRESS + j] == data@[j],
                forall|a: int|
                    0 <= a < MEMORY_SIZE && !(ROM_START_ADDRESS <= a < ROM_START_ADDRESS + k)
                        ==> self@[a] == old(self)@[a],
            decreases data@.len() - k,
        {
            let byte = data[k];
            self.write(ROM_START_ADDRESS + k as u16, byte);
            k += 1;
        }
    }
}

} // verus!
