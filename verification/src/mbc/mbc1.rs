use vstd::prelude::*;

use super::{
    byte_or_ff, bytes_from, check_rom_fits_mask, copy_all, copy_bytes, get_or_ff, lemma_mask_is_mod, rom_bank_count,
    rom_fits_mask, set_if_in, store_if_in, Mbc,
};
use super::no_mbc::KIBI_BYTE;

verus! {

pub const LENGTH_ROM_BANK: usize = 16 * KIBI_BYTE;

pub const LENGTH_RAM_BANK: usize = 8 * KIBI_BYTE;

/// The MBC1 controller: up to 32 ROM banks of 16 KiB (bank 0 fixed at 0x0000, a switchable
/// bank at 0x4000) and RAM banks of 8 KiB at 0xA000 that must be enabled before use.
pub struct Mbc1 {
    ram_enabled: bool,
    ram_bank_index: usize,
    rom_bank_index: usize,
    rom_bank_mask: u16,
    ram_bank_index_mask: usize,
    rom_banks: Vec<u8>,
    ram_banks: Vec<u8>,
}

pub struct Mbc1View {
    pub ram_enabled: bool,
    pub ram_bank_index: usize,
    pub rom_bank_index: usize,
    pub rom_bank_mask: u16,
    pub ram_bank_index_mask: usize,
    pub rom_banks: Seq<u8>,
    pub ram_banks: Seq<u8>,
}

/// The controller that a ROM image starts with.
pub open spec fn initial_mbc1(rom: Seq<u8>) -> Mbc1View {
    let banks = rom_bank_count(rom[0x148]);
    let ram_banks = mbc1_ram_bank_count(rom[0x149]);
    Mbc1View {
        ram_enabled: false,
        ram_bank_index: 0,
        rom_bank_index: 1,
        rom_bank_mask: (banks - 1) as u16,
        ram_bank_index_mask: if ram_banks == 4 { 3usize } else { 0usize },
        rom_banks: bytes_from(rom, 0, banks * LENGTH_ROM_BANK),
        ram_banks: bytes_from(rom, banks * LENGTH_ROM_BANK, ram_banks * LENGTH_RAM_BANK),
    }
}

impl View for Mbc1 {
    type V = Mbc1View;

    closed spec fn view(&self) -> Mbc1View {
        Mbc1View {
            ram_enabled: self.ram_enabled,
            ram_bank_index: self.ram_bank_index,
            rom_bank_index: self.rom_bank_index,
            rom_bank_mask: self.rom_bank_mask,
            ram_bank_index_mask: self.ram_bank_index_mask,
            rom_banks: self.rom_banks@,
            ram_banks: self.ram_banks@,
        }
    }
}

/// The offset in ROM of `address` (0x4000-0x7FFF) through the switchable bank.
pub open spec fn mbc1_rom_offset(v: Mbc1View, address: u16) -> int {
    address + (v.rom_bank_index & (v.rom_bank_mask as usize)) * LENGTH_ROM_BANK - 0x4000
}

/// The offset in RAM of `address` (0xA000-0xBFFF) through the selected RAM bank.
pub open spec fn mbc1_ram_offset(v: Mbc1View, address: u16) -> int {
    address + (v.ram_bank_index & v.ram_bank_index_mask) * LENGTH_RAM_BANK - 0xA000
}

pub open spec fn mbc1_read(v: Mbc1View, address: u16) -> u8 {
    if address <= 0x3FFF {
        v.rom_banks[address as int]
    } else if address <= 0x7FFF {
        v.rom_banks[mbc1_rom_offset(v, address)]
    } else if 0xA000 <= address <= 0xBFFF {
        if !v.ram_enabled { 0xFF } else { byte_or_ff(v.ram_banks, mbc1_ram_offset(v, address)) }
    } else {
        0xFF
    }
}

pub open spec fn mbc1_write(v: Mbc1View, address: u16, byte: u8) -> Mbc1View {
    if address <= 0x1FFF {
        Mbc1View { ram_enabled: byte % 16 == 0xA, ..v }
    } else if address <= 0x3FFF {
        let index = (byte % 32) as usize;
        Mbc1View { rom_bank_index: if index == 0 { 1 } else { index }, ..v }
    } else if address <= 0x5FFF {
        if v.ram_enabled { Mbc1View { ram_bank_index: (byte % 4) as usize, ..v } } else { v }
    } else if 0xA000 <= address <= 0xBFFF {
        if !v.ram_enabled {
            v
        } else {
            Mbc1View { ram_banks: store_if_in(v.ram_banks, mbc1_ram_offset(v, address), byte), ..v }
        }
    } else {
        v
    }
}

/// The RAM bank count that the header byte 0x149 announces to an MBC1 or MBC3.
pub open spec fn mbc1_ram_bank_count(code: u8) -> nat {
    if code == 2 { 1 } else if code == 3 { 4 } else { 0 }
}

pub(crate) proof fn lemma_and_le(x: usize, m: usize)
    by (bit_vector)
    ensures
        x & m <= m,
{
}

pub(crate) proof fn lemma_byte_masks(b: u8)
    by (bit_vector)
    ensures
        b & 0xF == b % 16,
        b & 0x1F == b % 32,
        b & 0x7F == b % 128,
        b & 0b11 == b % 4,
        b & 0b1111 == b % 16,
{
}

impl Mbc1 {
    #[verifier::type_invariant]
    spec fn inv(&self) -> bool {
        &&& self.ram_bank_index_mask <= 3
        &&& self.rom_bank_shape()
    }

    spec fn rom_bank_shape(&self) -> bool {
        ||| (self.rom_bank_mask == 1 && self.rom_banks@.len() == 2 * LENGTH_ROM_BANK)
        ||| (self.rom_bank_mask == 3 && self.rom_banks@.len() == 4 * LENGTH_ROM_BANK)
        ||| (self.rom_bank_mask == 7 && self.rom_banks@.len() == 8 * LENGTH_ROM_BANK)
        ||| (self.rom_bank_mask == 15 && self.rom_banks@.len() == 16 * LENGTH_ROM_BANK)
        ||| (self.rom_bank_mask == 31 && self.rom_banks@.len() == 32 * LENGTH_ROM_BANK)
    }

    /// Builds the controller from a ROM image: the ROM banks the header announces are filled
    /// from the start of the image, then the RAM banks that header byte 0x149 announces are
    /// filled from what follows (zeros past the end of the image).
    pub fn new(total_rom: Vec<u8>) -> (r: Self)
        requires
            total_rom@.len() > 0x149,
            total_rom@[0x148] <= 4,
        ensures
            ({
                let banks = rom_bank_count(total_rom@[0x148]);
                let ram_banks = mbc1_ram_bank_count(total_rom@[0x149]);
                &&& r@.rom_banks == bytes_from(total_rom@, 0, banks * LENGTH_ROM_BANK)
                &&& r@.ram_banks == bytes_from(total_rom@, banks * LENGTH_ROM_BANK, ram_banks * LENGTH_RAM_BANK)
                &&& r@.rom_bank_mask == banks - 1
                &&& r@.ram_bank_index_mask == (if ram_banks == 4 { 3usize } else { 0usize })
                &&& !r@.ram_enabled
                &&& r@.ram_bank_index == 0
                &&& r@.rom_bank_index == 1
            }),
            r@ == initial_mbc1(total_rom@),
    {
        let num_of_banks: usize = match total_rom[0x148] {
            0 => 2,
            1 => 4,
            2 => 8,
            3 => 16,
            _ => 32,
        };

        let rom_bank_mask: u16 = match num_of_banks {
            2 => 1u16,
            4 => 0b11u16,
            8 => 0b111u16,
            16 => 0b1111u16,
            _ => 0b11111u16,
        };

        let rom_banks = copy_bytes(&total_rom, 0, num_of_banks * LENGTH_ROM_BANK);

        let num_ram_banks: usize = match total_rom[0x149] {
            2 => 1,
            3 => 4,
            _ => 0,
        };

        let ram_bank_index_mask: usize = match num_ram_banks {
            4 => 0b11,
            _ => 0,
        };

        let ram_banks = copy_bytes(&total_rom, num_of_banks * LENGTH_ROM_BANK, num_ram_banks * LENGTH_RAM_BANK);

        Self {
            ram_enabled: false,
            ram_bank_index: 0,
            rom_bank_index: 1,
            rom_bank_mask,
            rom_banks,
            ram_banks,
            ram_bank_index_mask,
        }
    }
}

impl Mbc for Mbc1 {
    fn read_byte(&self, address: u16) -> (r: u8)
        ensures
            r == mbc1_read(self@, address),
    {
        proof {
            use_type_invariant(self);
            lemma_and_le(self.rom_bank_index, self.rom_bank_mask as usize);
        }
        match address {
            0..=0x3FFF => self.rom_banks[address as usize],
            0x4000..=0x7FFF => {
                let bank = self.rom_bank_index & self.rom_bank_mask as usize;
                assert(bank <= 31);
                let address = address as usize + bank * LENGTH_ROM_BANK - 0x4000;
                self.rom_banks[address]
            },
            0xA000..=0xBFFF => {
                if !self.ram_enabled {
                    return 0xFF;
                }
                proof {
                    lemma_and_le(self.ram_bank_index, self.ram_bank_index_mask);
                    assert(self.ram_bank_index_mask <= usize::MAX);
                }
                let bank = self.ram_bank_index & self.ram_bank_index_mask;
                assert(bank <= 3);
                let address = address as usize + bank * LENGTH_RAM_BANK - 0xA000;
                get_or_ff(&self.ram_banks, address)
            },
            _ => 0xFF,
        }
    }

    fn write_byte(&mut self, address: u16, byte: u8)
        ensures
            final(self)@ == mbc1_write(old(self)@, address, byte),
    {
        proof {
            use_type_invariant(&*self);
            lemma_byte_masks(byte);
        }
        match address {
            0..=0x1FFF => {
                if byte & 0xF == 0xA {
                    self.ram_enabled = true;
                } else {
                    self.ram_enabled = false;
                }
            },
            0x2000..=0x3FFF => {
                self.rom_bank_index = (byte & 0x1F) as usize;
                if self.rom_bank_index == 0 {
                    self.rom_bank_index = 1;
                }
            },
            0x4000..=0x5FFF => {
                if self.ram_enabled {
                    self.ram_bank_index = (byte & 0b11) as usize;
                }
            },
            0xA000..=0xBFFF => {
                if !self.ram_enabled {
                    return;
                }
                proof {
                    lemma_and_le(self.ram_bank_index, self.ram_bank_index_mask);
                }
                let bank = self.ram_bank_index & self.ram_bank_index_mask;
                assert(bank <= 3);
                let address = address as usize + bank * LENGTH_RAM_BANK - 0xA000;
                let mut ram: Vec<u8> = Vec::new();
                std::mem::swap(&mut ram, &mut self.ram_banks);
                set_if_in(&mut ram, address, byte);
                std::mem::swap(&mut ram, &mut self.ram_banks);
            },
            _ => (),
        }
    }
}

/// An MBC1 controller's state as plain values, field by field.
pub struct Mbc1Parts {
    pub ram_enabled: bool,
    pub ram_bank_index: usize,
    pub rom_bank_index: usize,
    pub rom_bank_mask: u16,
    pub ram_bank_index_mask: usize,
    pub rom_banks: Vec<u8>,
    pub ram_banks: Vec<u8>,
}

impl View for Mbc1Parts {
    type V = Mbc1View;

    open spec fn view(&self) -> Mbc1View {
        Mbc1View {
            ram_enabled: self.ram_enabled,
            ram_bank_index: self.ram_bank_index,
            rom_bank_index: self.rom_bank_index,
            rom_bank_mask: self.rom_bank_mask,
            ram_bank_index_mask: self.ram_bank_index_mask,
            rom_banks: self.rom_banks@,
            ram_banks: self.ram_banks@,
        }
    }
}

/// The states an MBC1 controller can be in: at most four RAM banks addressed, and a ROM of
/// 2 to 32 banks that the bank mask selects exactly.
pub open spec fn mbc1_shape(v: Mbc1View) -> bool {
    v.ram_bank_index_mask <= 3 && rom_fits_mask(v.rom_bank_mask as int, 31, v.rom_banks.len() as int)
}

impl Mbc1 {
    /// The controller's state as plain values.
    pub fn to_parts(&self) -> (p: Mbc1Parts)
        ensures
            p@ == self@,
            mbc1_shape(p@),
    {
        proof {
            use_type_invariant(self);
        }
        Mbc1Parts {
            ram_enabled: self.ram_enabled,
            ram_bank_index: self.ram_bank_index,
            rom_bank_index: self.rom_bank_index,
            rom_bank_mask: self.rom_bank_mask,
            ram_bank_index_mask: self.ram_bank_index_mask,
            rom_banks: copy_all(&self.rom_banks),
            ram_banks: copy_all(&self.ram_banks),
        }
    }

    /// The controller in the state `p`, when it is one a controller can be in.
    pub fn from_parts(p: Mbc1Parts) -> (r: Option<Mbc1>)
        ensures
            r is Some <==> mbc1_shape(p@),
            r matches Some(m) ==> m@ == p@,
    {
        if p.ram_bank_index_mask <= 3 && check_rom_fits_mask(p.rom_bank_mask as usize, 31, p.rom_banks.len()) {
            Some(
                Mbc1 {
                    ram_enabled: p.ram_enabled,
                    ram_bank_index: p.ram_bank_index,
                    rom_bank_index: p.rom_bank_index,
                    rom_bank_mask: p.rom_bank_mask,
                    ram_bank_index_mask: p.ram_bank_index_mask,
                    rom_banks: p.rom_banks,
                    ram_banks: p.ram_banks,
                },
            )
        } else {
            None
        }
    }
}

/// Switching the ROM bank: after a write of `byte` to 0x2000-0x3FFF, a read of 0x4000-0x7FFF
/// gives the byte of ROM bank `byte & 0x1F` (the register holds five bits, and 0 selects
/// bank 1), taken modulo the number of banks the cartridge has.
pub proof fn law_mbc1_rom_bank_switch(v: Mbc1View, written: u16, byte: u8, address: u16)
    requires
        mbc1_shape(v),
        0x2000 <= written <= 0x3FFF,
        0x4000 <= address <= 0x7FFF,
    ensures
        ({
            let number: int = if byte & 0x1F == 0 { 1 } else { (byte & 0x1F) as int };
            let bank = number % (v.rom_bank_mask + 1);
            mbc1_read(mbc1_write(v, written, byte), address) == v.rom_banks[bank * 0x4000 + (address - 0x4000)]
        }),
{
    lemma_byte_masks(byte);
    let index = (byte % 32) as usize;
    let selected: usize = if index == 0 { 1 } else { index };
    lemma_mask_is_mod(selected, v.rom_bank_mask as usize);
}

} // verus!
