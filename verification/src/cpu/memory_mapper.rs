use vstd::prelude::*;

verus! {

/// Length of the ROM window a `MemoryMapper` holds.
pub const ROM0_LENGTH: usize = 0x1000;

/// The first 4 KiB of a ROM image, addressed byte by byte.
pub struct MemoryMapper {
    rom0: Vec<u8>,
    rom_path: String,
    are_interrupts_enabled: bool,
}

impl MemoryMapper {
    /// The bytes the mapper holds; always `ROM0_LENGTH` of them.
    pub closed spec fn rom(&self) -> Seq<u8> {
        self.rom0@
    }

    #[verifier::type_invariant]
    spec fn inv(&self) -> bool {
        self.rom0@.len() == ROM0_LENGTH
    }

    pub fn fetch_byte(&self, address: usize) -> (r: u8)
        requires
            address < ROM0_LENGTH,
        ensures
            r == self.rom()[address as int],
    {
        proof {
            use_type_invariant(self);
        }
        self.rom0[address]
    }

    /// Builds a mapper from the bytes of the ROM file at `rom_path`; only the first
    /// `ROM0_LENGTH` bytes are kept.
    pub fn new(rom_bytes: &Vec<u8>, rom_path: String) -> (r: MemoryMapper)
        requires
            rom_bytes@.len() >= ROM0_LENGTH,
        ensures
            r.rom() == rom_bytes@.subrange(0, ROM0_LENGTH as int),
    {
        let mut rom0: Vec<u8> = Vec::new();
        let mut i: usize = 0;
        while i < ROM0_LENGTH
            invariant
                i <= ROM0_LENGTH,
                rom_bytes@.len() >= ROM0_LENGTH,
                rom0@ == rom_bytes@.subrange(0, i as int),
            decreases ROM0_LENGTH - i,
        {
            rom0.push(rom_bytes[i]);
            i = i + 1;
        }
        MemoryMapper { rom0, rom_path, are_interrupts_enabled: false }
    }
}

} // verus!
