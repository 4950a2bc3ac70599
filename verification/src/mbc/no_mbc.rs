use vstd::prelude::*;

use super::{bytes_from, byte_or_ff, store_if_in, Mbc};

verus! {

pub const KIBI_BYTE: usize = 1024;

/// Size of a no_mbc cartridge's ROM: 32 KiB.
pub const NO_MBC_ROM_LENGTH: usize = 32768;

/// Size of a no_mbc cartridge's RAM: 8 KiB.
pub const NO_MBC_RAM_LENGTH: usize = 8192;

/// A cartridge without a bank controller: up to 32 KiB of ROM and 8 KiB of RAM.
pub struct NoMbc {
    rom: [u8; NO_MBC_ROM_LENGTH],
    ram: [u8; NO_MBC_RAM_LENGTH],
}

pub struct NoMbcView {
    pub rom: Seq<u8>,
    pub ram: Seq<u8>,
}

/// The cartridge that a ROM image starts with.
pub open spec fn initial_no_mbc(rom: Seq<u8>) -> NoMbcView {
    NoMbcView { rom: bytes_from(rom, 0, 32 * KIBI_BYTE as int), ram: Seq::new(8 * KIBI_BYTE as nat, |i: int| 0u8) }
}

impl View for NoMbc {
    type V = NoMbcView;

    closed spec fn view(&self) -> NoMbcView {
        NoMbcView { rom: self.rom@, ram: self.ram@ }
    }
}

pub open spec fn no_mbc_read(v: NoMbcView, address: u16) -> u8 {
    if address <= 0x7FFF {
        v.rom[address as int]
    } else if 0xA000 <= address <= 0xBFFF {
        byte_or_ff(v.ram, address - 0xA000)
    } else {
        0xFF
    }
}

pub open spec fn no_mbc_write(v: NoMbcView, address: u16, byte: u8) -> NoMbcView {
    if 0xA000 <= address <= 0xBFFF {
        NoMbcView { ram: store_if_in(v.ram, address - 0xA000, byte), ..v }
    } else {
        v
    }
}

impl NoMbc {
    /// Creates a cartridge of type no_mbc: the ROM image fills the 32 KiB of ROM from the
    /// start, the rest and all 8 KiB of RAM are zero.
    pub fn new(total_rom: Vec<u8>) -> (r: Self)
        requires
            0x149 < total_rom@.len() <= 32 * KIBI_BYTE,
        ensures
            r@.rom == bytes_from(total_rom@, 0, 32 * KIBI_BYTE as int),
            r@.ram == Seq::new(8 * KIBI_BYTE as nat, |i: int| 0u8),
            r@ == initial_no_mbc(total_rom@),
    {
        let mut rom = [0u8; NO_MBC_ROM_LENGTH];
        let mut i: usize = 0;
        while i <= total_rom.len() - 1
            invariant
                0 < total_rom@.len() <= 32 * KIBI_BYTE,
                i <= total_rom@.len(),
                rom@.len() == 32 * KIBI_BYTE,
                forall|k: int| 0 <= k < i ==> rom@[k] == total_rom@[k],
                forall|k: int| i <= k < 32 * KIBI_BYTE ==> rom@[k] == 0u8,
            decreases total_rom@.len() - i,
        {
            rom[i] = total_rom[i];
            i = i + 1;
        }

        let ram_type_code = total_rom[0x149];
        let ram = match ram_type_code {
            2 => [0u8; NO_MBC_RAM_LENGTH],
            _ => [0u8; NO_MBC_RAM_LENGTH],
        };
        assert(rom@ == bytes_from(total_rom@, 0, 32 * KIBI_BYTE as int));
        assert(ram@ == Seq::new(8 * KIBI_BYTE as nat, |i: int| 0u8));
        Self { rom, ram }
    }
}

impl Mbc for NoMbc {
    fn read_byte(&self, address: u16) -> (r: u8)
        ensures
            r == no_mbc_read(self@, address),
    {
        match address {
            0..=0x7FFF => self.rom[address as usize],
            0xA000..=0xBFFF => self.ram[address as usize - 0xA000],
            _ => 0xFF,
        }
    }

    fn write_byte(&mut self, address: u16, byte: u8)
        ensures
            final(self)@ == no_mbc_write(old(self)@, address, byte),
    {
        match address {
            0xA000..=0xBFFF => {
                self.ram[address as usize - 0xA000] = byte;
            },
            _ => (),
        }
    }
}

/// A cartridge without a bank controller, as plain values.
pub struct NoMbcParts {
    pub rom: Vec<u8>,
    pub ram: Vec<u8>,
}

impl View for NoMbcParts {
    type V = NoMbcView;

    open spec fn view(&self) -> NoMbcView {
        NoMbcView { rom: self.rom@, ram: self.ram@ }
    }
}

/// The states such a cartridge can be in: 32 KiB of ROM and 8 KiB of RAM.
pub open spec fn no_mbc_shape(v: NoMbcView) -> bool {
    v.rom.len() == NO_MBC_ROM_LENGTH && v.ram.len() == NO_MBC_RAM_LENGTH
}

impl NoMbc {
    /// The cartridge's state as plain values.
    pub fn to_parts(&self) -> (p: NoMbcParts)
        ensures
            p@ == self@,
            no_mbc_shape(p@),
    {
        let mut rom: Vec<u8> = Vec::new();
        let mut i: usize = 0;
        while i < NO_MBC_ROM_LENGTH
            invariant
                i <= NO_MBC_ROM_LENGTH,
                rom@.len() == i,
                forall|k: int| 0 <= k < i ==> rom@[k] == self.rom@[k],
            decreases NO_MBC_ROM_LENGTH - i,
        {
            rom.push(self.rom[i]);
            i = i + 1;
        }
        let mut ram: Vec<u8> = Vec::new();
        let mut i: usize = 0;
        while i < NO_MBC_RAM_LENGTH
            invariant
                i <= NO_MBC_RAM_LENGTH,
                ram@.len() == i,
                forall|k: int| 0 <= k < i ==> ram@[k] == self.ram@[k],
            decreases NO_MBC_RAM_LENGTH - i,
        {
            ram.push(self.ram[i]);
            i = i + 1;
        }
        assert(rom@ =~= self.rom@);
        assert(ram@ =~= self.ram@);
        NoMbcParts { rom, ram }
    }

    /// The cartridge in the state `p`, when it is one a cartridge can be in.
    pub fn from_parts(p: NoMbcParts) -> (r: Option<NoMbc>)
        ensures
            r is Some <==> no_mbc_shape(p@),
            r matches Some(m) ==> m@ == p@,
    {
        if p.rom.len() != NO_MBC_ROM_LENGTH || p.ram.len() != NO_MBC_RAM_LENGTH {
            return None;
        }
        let mut rom = [0u8; NO_MBC_ROM_LENGTH];
        let mut i: usize = 0;
        while i < NO_MBC_ROM_LENGTH
            invariant
                i <= NO_MBC_ROM_LENGTH,
                p.rom@.len() == NO_MBC_ROM_LENGTH,
                forall|k: int| 0 <= k < i ==> rom@[k] == p.rom@[k],
            decreases NO_MBC_ROM_LENGTH - i,
        {
            rom[i] = p.rom[i];
            i = i + 1;
        }
        let mut ram = [0u8; NO_MBC_RAM_LENGTH];
        let mut i: usize = 0;
        while i < NO_MBC_RAM_LENGTH
            invariant
                i <= NO_MBC_RAM_LENGTH,
                p.ram@.len() == NO_MBC_RAM_LENGTH,
                forall|k: int| 0 <= k < i ==> ram@[k] == p.ram@[k],
            decreases NO_MBC_RAM_LENGTH - i,
        {
            ram[i] = p.ram[i];
            i = i + 1;
        }
        assert(rom@ =~= p.rom@);
        assert(ram@ =~= p.ram@);
        Some(NoMbc { rom, ram })
    }
}

} // verus!
