use vstd::prelude::*;

use super::mbc1::{lemma_and_le, lemma_byte_masks, LENGTH_RAM_BANK, LENGTH_ROM_BANK};
use super::{
    byte_or_ff, bytes_from, check_rom_fits_mask, copy_all, copy_bytes, get_or_ff, lemma_mask_is_mod, rom_bank_count,
    rom_fits_mask, set_if_in, store_if_in, Mbc,
};

verus! {

/// The MBC5 controller: up to 512 ROM banks selected by an 8-bit register and a ninth bit,
/// and up to 16 RAM banks.
pub struct Mbc5 {
    ram_enabled: bool,
    ram_bank_index: usize,
    rom_bank_index: usize,
    rom_bank_extra_bit: usize,
    rom_bank_mask: usize,
    ram_bank_index_mask: usize,
    rom_banks: Vec<u8>,
    ram_banks: Vec<u8>,
}

pub struct Mbc5View {
    pub ram_enabled: bool,
    pub ram_bank_index: usize,
    pub rom_bank_index: usize,
    pub rom_bank_extra_bit: usize,
    pub rom_bank_mask: usize,
    pub ram_bank_index_mask: usize,
    pub rom_banks: Seq<u8>,
    pub ram_banks: Seq<u8>,
}

/// The controller that a ROM image starts with.
pub open spec fn initial_mbc5(rom: Seq<u8>) -> Mbc5View {
    let banks = rom_bank_count(rom[0x148]);
    let ram_banks = mbc5_ram_bank_count(rom[0x149]);
    Mbc5View {
        ram_enabled: false,
        ram_bank_index: 0,
        rom_bank_index: 1,
        rom_bank_extra_bit: 0,
        rom_bank_mask: (banks - 1) as usize,
        ram_bank_index_mask: mbc5_ram_mask(ram_banks),
        rom_banks: bytes_from(rom, 0, banks * LENGTH_ROM_BANK),
        ram_banks: bytes_from(rom, banks * LENGTH_ROM_BANK, ram_banks * LENGTH_RAM_BANK),
    }
}

impl View for Mbc5 {
    type V = Mbc5View;

    closed spec fn view(&self) -> Mbc5View {
        Mbc5View {
            ram_enabled: self.ram_enabled,
            ram_bank_index: self.ram_bank_index,
            rom_bank_index: self.rom_bank_index,
            rom_bank_extra_bit: self.rom_bank_extra_bit,
            rom_bank_mask: self.rom_bank_mask,
            ram_bank_index_mask: self.ram_bank_index_mask,
            rom_banks: self.rom_banks@,
            ram_banks: self.ram_banks@,
        }
    }
}

/// The selected ROM bank: the ninth bit above the 8-bit register, masked to the banks present.
pub open spec fn mbc5_rom_bank(v: Mbc5View) -> usize {
    ((v.rom_bank_extra_bit << 8usize) | v.rom_bank_index) & v.rom_bank_mask
}

pub open spec fn mbc5_rom_offset(v: Mbc5View, address: u16) -> int {
    address + mbc5_rom_bank(v) * LENGTH_ROM_BANK - 0x4000
}

pub open spec fn mbc5_ram_offset(v: Mbc5View, address: u16) -> int {
    address + (v.ram_bank_index & v.ram_bank_index_mask) * LENGTH_RAM_BANK - 0xA000
}

pub open spec fn mbc5_read(v: Mbc5View, address: u16) -> u8 {
    if address <= 0x3FFF {
        v.rom_banks[address as int]
    } else if address <= 0x7FFF {
        v.rom_banks[mbc5_rom_offset(v, address)]
    } else if 0xA000 <= address <= 0xBFFF {
        if !v.ram_enabled { 0xFF } else { byte_or_ff(v.ram_banks, mbc5_ram_offset(v, address)) }
    } else {
        0xFF
    }
}

pub open spec fn mbc5_write(v: Mbc5View, address: u16, byte: u8) -> Mbc5View {
    if address <= 0x1FFF {
        Mbc5View { ram_enabled: byte % 16 == 0xA, ..v }
    } else if address <= 0x2FFF {
        Mbc5View { rom_bank_index: byte as usize, ..v }
    } else if address <= 0x3FFF {
        Mbc5View { rom_bank_extra_bit: (byte % 2) as usize, ..v }
    } else if address <= 0x5FFF {
        if v.ram_enabled { Mbc5View { ram_bank_index: (byte % 16) as usize, ..v } } else { v }
    } else if 0xA000 <= address <= 0xBFFF {
        if !v.ram_enabled {
            v
        } else {
            Mbc5View { ram_banks: store_if_in(v.ram_banks, mbc5_ram_offset(v, address), byte), ..v }
        }
    } else {
        v
    }
}

/// The RAM bank count that the header byte 0x149 announces to an MBC5.
pub open spec fn mbc5_ram_bank_count(code: u8) -> nat {
    if code == 2 { 1 } else if code == 3 { 4 } else if code == 4 { 16 } else if code == 5 { 8 } else { 0 }
}

/// The mask an MBC5 applies to its RAM bank register, for a RAM bank count.
pub open spec fn mbc5_ram_mask(count: nat) -> usize {
    if count == 4 { 3 } else if count == 8 { 0xF } else if count == 16 { 0x1F } else { 0 }
}

impl Mbc5 {
    #[verifier::type_invariant]
    spec fn inv(&self) -> bool {
        &&& self.ram_bank_index_mask <= 0x1F
        &&& self.rom_bank_shape()
    }

    spec fn rom_bank_shape(&self) -> bool {
        ||| (self.rom_bank_mask == 1 && self.rom_banks@.len() == 2 * LENGTH_ROM_BANK)
        ||| (self.rom_bank_mask == 3 && self.rom_banks@.len() == 4 * LENGTH_ROM_BANK)
        ||| (self.rom_bank_mask == 7 && self.rom_banks@.len() == 8 * LENGTH_ROM_BANK)
        ||| (self.rom_bank_mask == 15 && self.rom_banks@.len() == 16 * LENGTH_ROM_BANK)
        ||| (self.rom_bank_mask == 31 && self.rom_banks@.len() == 32 * LENGTH_ROM_BANK)
        ||| (self.rom_bank_mask == 63 && self.rom_banks@.len() == 64 * LENGTH_ROM_BANK)
        ||| (self.rom_bank_mask == 127 && self.rom_banks@.len() == 128 * LENGTH_ROM_BANK)
        ||| (self.rom_bank_mask == 255 && self.rom_banks@.len() == 256 * LENGTH_ROM_BANK)
        ||| (self.rom_bank_mask == 511 && self.rom_banks@.len() == 512 * LENGTH_ROM_BANK)
    }

    /// Builds the controller from a ROM image: the ROM banks the header announces are filled
    /// from the start of the image, then the RAM banks it announces from what follows
    /// (zeros past the end of the image).
    pub fn new(total_rom: Vec<u8>) -> (r: Self)
        requires
            total_rom@.len() > 0x149,
            total_rom@[0x148] <= 8,
        ensures
            ({
                let banks = rom_bank_count(total_rom@[0x148]);
                let ram_banks = mbc5_ram_bank_count(total_rom@[0x149]);
                r@ == Mbc5View {
                    ram_enabled: false,
                    ram_bank_index: 0,
                    rom_bank_index: 1,
                    rom_bank_extra_bit: 0,
                    rom_bank_mask: (banks - 1) as usize,
                    ram_bank_index_mask: mbc5_ram_mask(ram_banks),
                    rom_banks: bytes_from(total_rom@, 0, banks * LENGTH_ROM_BANK),
                    ram_banks: bytes_from(total_rom@, banks * LENGTH_ROM_BANK, ram_banks * LENGTH_RAM_BANK),
                }
            }),
            r@ == initial_mbc5(total_rom@),
    {
        let num_of_banks: usize = match total_rom[0x148] {
            0 => 2,
            1 => 4,
            2 => 8,
            3 => 16,
            4 => 32,
            5 => 64,
            6 => 128,
            7 => 256,
            _ => 512,
        };

        let rom_bank_mask: usize = match num_of_banks {
            2 => 1,
            4 => 0b11,
            8 => 0b111,
            16 => 0b1111,
            32 => 0b1_1111,
            64 => 0b11_1111,
            128 => 0b111_1111,
            256 => 0b1111_1111,
            _ => 0b1_1111_1111,
        };

        let rom_banks = copy_bytes(&total_rom, 0, num_of_banks * LENGTH_ROM_BANK);

        let num_ram_banks: usize = match total_rom[0x149] {
            2 => 1,
            3 => 4,
            4 => 16,
            5 => 8,
            _ => 0,
        };

        let ram_bank_index_mask: usize = match num_ram_banks {
            4 => 0b11,
            8 => 0b1111,
            16 => 0b1_1111,
            _ => 0,
        };

        let ram_banks = copy_bytes(&total_rom, num_of_banks * LENGTH_ROM_BANK, num_ram_banks * LENGTH_RAM_BANK);

        Self {
            ram_enabled: false,
            ram_bank_index: 0,
            rom_bank_index: 1,
            rom_bank_extra_bit: 0,
            rom_bank_mask,
            rom_banks,
            ram_banks,
            ram_bank_index_mask,
        }
    }
}

impl Mbc for Mbc5 {
    fn read_byte(&self, address: u16) -> (r: u8)
        ensures
            r == mbc5_read(self@, address),
    {
        proof {
            use_type_invariant(self);
        }
        match address {
            0..=0x3FFF => self.rom_banks[address as usize],
            0x4000..=0x7FFF => {
                let index = (self.rom_bank_extra_bit << 8) | self.rom_bank_index;
                proof {
                    lemma_and_le(index, self.rom_bank_mask);
                }
                let bank = index & self.rom_bank_mask;
                assert(bank <= 511);
                let address = address as usize + bank * LENGTH_ROM_BANK - 0x4000;
                self.rom_banks[address]
            },
            0xA000..=0xBFFF => {
                if !self.ram_enabled {
                    return 0xFF;
                }
                proof {
                    lemma_and_le(self.ram_bank_index, self.ram_bank_index_mask);
                }
                let bank = self.ram_bank_index & self.ram_bank_index_mask;
                assert(bank <= 0x1F);
                let address = address as usize + bank * LENGTH_RAM_BANK - 0xA000;
                get_or_ff(&self.ram_banks, address)
            },
            _ => 0xFF,
        }
    }

    fn write_byte(&mut self, address: u16, byte: u8)
        ensures
            final(self)@ == mbc5_write(old(self)@, address, byte),
    {
        proof {
            use_type_invariant(&*self);
            lemma_byte_masks(byte);
            assert(byte & 1 == byte % 2) by (bit_vector);
        }
        match address {
            0..=0x1FFF => {
                if byte & 0xF == 0xA {
                    self.ram_enabled = true;
                } else {
                    self.ram_enabled = false;
                }
            },
            0x2000..=0x2FFF => {
                self.rom_bank_index = byte as usize;
            },
            0x3000..=0x3FFF => {
                self.rom_bank_extra_bit = (byte & 1) as usize;
            },
            0x4000..=0x5FFF => {
                if self.ram_enabled {
                    self.ram_bank_index = (byte & 0xF) as usize;
                }
            },
            0xA000..=0xBFFF => {
                if !self.ram_enabled {
                    return;
                }
                proof {
                    lemma_and_le(self.ram_bank_index, self.ram_bank_index_mask);
                }
                let bank = self.ram_bank_index & self.ram_bank_index_mask;
                assert(bank <= 0x1F);
                let address = address as usize + bank * LENGTH_RAM_BANK - 0xA000;
                let mut ram: Vec<u8> = Vec::new();
                std::mem::swap(&mut ram, &mut self.ram_banks);
                set_if_in(&mut ram, address, byte);
                std::mem::swap(&mut ram, &mut self.ram_banks);
            },
            _ => (),
        }
    }
}

/// An MBC5 controller's state as plain values, field by field.
pub struct Mbc5Parts {
    pub ram_enabled: bool,
    pub ram_bank_index: usize,
    pub rom_bank_index: usize,
    pub rom_bank_extra_bit: usize,
    pub rom_bank_mask: usize,
    pub ram_bank_index_mask: usize,
    pub rom_banks: Vec<u8>,
    pub ram_banks: Vec<u8>,
}

impl View for Mbc5Parts {
    type V = Mbc5View;

    open spec fn view(&self) -> Mbc5View {
        Mbc5View {
            ram_enabled: self.ram_enabled,
            ram_bank_index: self.ram_bank_index,
            rom_bank_index: self.rom_bank_index,
            rom_bank_extra_bit: self.rom_bank_extra_bit,
            rom_bank_mask: self.rom_bank_mask,
            ram_bank_index_mask: self.ram_bank_index_mask,
            rom_banks: self.rom_banks@,
            ram_banks: self.ram_banks@,
        }
    }
}

/// The states an MBC5 controller can be in: at most sixteen RAM banks addressed, and a ROM
/// of 2 to 512 banks that the bank mask selects exactly.
pub open spec fn mbc5_shape(v: Mbc5View) -> bool {
    v.ram_bank_index_mask <= 0x1F && rom_fits_mask(v.rom_bank_mask as int, 511, v.rom_banks.len() as int)
}

impl Mbc5 {
    /// The controller's state as plain values.
    pub fn to_parts(&self) -> (p: Mbc5Parts)
        ensures
            p@ == self@,
            mbc5_shape(p@),
    {
        proof {
            use_type_invariant(self);
        }
        Mbc5Parts {
            ram_enabled: self.ram_enabled,
            ram_bank_index: self.ram_bank_index,
            rom_bank_index: self.rom_bank_index,
            rom_bank_extra_bit: self.rom_bank_extra_bit,
            rom_bank_mask: self.rom_bank_mask,
            ram_bank_index_mask: self.ram_bank_index_mask,
            rom_banks: copy_all(&self.rom_banks),
            ram_banks: copy_all(&self.ram_banks),
        }
    }

    /// The controller in the state `p`, when it is one a controller can be in.
    pub fn from_parts(p: Mbc5Parts) -> (r: Option<Mbc5>)
        ensures
            r is Some <==> mbc5_shape(p@),
            r matches Some(m) ==> m@ == p@,
    {
        if p.ram_bank_index_mask <= 0x1F && check_rom_fits_mask(p.rom_bank_mask, 511, p.rom_banks.len()) {
            Some(
                Mbc5 {
                    ram_enabled: p.ram_enabled,
                    ram_bank_index: p.ram_bank_index,
                    rom_bank_index: p.rom_bank_index,
                    rom_bank_extra_bit: p.rom_bank_extra_bit,
                    rom_bank_mask: p.rom_bank_mask,
                    ram_bank_index_mask: p.ram_bank_index_mask,
                    rom_banks: p.rom_banks,
                    ram_banks: p.ram_banks,
                },
            )
        } else {
            None
        }
    }
}

proof fn lemma_nine_bits(extra: usize, low: usize)
    by (bit_vector)
    requires
        extra <= 1,
        low <= 255,
    ensures
        (extra << 8usize) | low == extra * 256 + low,
{
}

/// Switching the ROM bank: the bank number has nine bits, the low eight written to
/// 0x2000-0x2FFF and the ninth (bit 0 of the byte) to 0x3000-0x3FFF, and bank 0 can be
/// selected. After either write, a read of 0x4000-0x7FFF gives the byte of that bank, taken
/// modulo the number of banks the cartridge has.
pub proof fn law_mbc5_rom_bank_switch(v: Mbc5View, written: u16, byte: u8, address: u16)
    requires
        mbc5_shape(v),
        v.rom_bank_index <= 255,
        v.rom_bank_extra_bit <= 1,
        0x2000 <= written <= 0x3FFF,
        0x4000 <= address <= 0x7FFF,
    ensures
        ({
            let number: int = if written <= 0x2FFF {
                v.rom_bank_extra_bit * 256 + byte
            } else {
                (byte & 1) * 256 + v.rom_bank_index
            };
            let bank = number % (v.rom_bank_mask + 1);
            mbc5_read(mbc5_write(v, written, byte), address) == v.rom_banks[bank * 0x4000 + (address - 0x4000)]
        }),
{
    assert(byte & 1 == byte % 2) by (bit_vector);
    let w = mbc5_write(v, written, byte);
    lemma_nine_bits(w.rom_bank_extra_bit, w.rom_bank_index);
    lemma_mask_is_mod((w.rom_bank_extra_bit << 8usize) | w.rom_bank_index, v.rom_bank_mask);
}

} // verus!
