use vstd::prelude::*;

use crate::cpu::{bit_of, is_bit_set};

use super::mbc1::{lemma_and_le, lemma_byte_masks, mbc1_ram_bank_count, LENGTH_RAM_BANK, LENGTH_ROM_BANK};
use super::{
    byte_or_ff, bytes_from, check_rom_fits_mask, copy_all, copy_bytes, get_or_ff, lemma_mask_is_mod, rom_bank_count,
    rom_fits_mask, set_if_in, store_if_in, Mbc,
};

verus! {

/// The MBC3 controller: up to 128 ROM banks, up to 4 RAM banks, and a real time clock whose
/// registers (0x08-0x0C) are mapped at 0xA000 in place of RAM and read through a latch.
pub struct Mbc3 {
    ram_rtc_enabled: bool,
    ram_bank_rtc_register_index: usize,
    rom_bank_index: usize,
    rom_bank_mask: u16,
    ram_bank_index_mask: usize,
    rom_banks: Vec<u8>,
    ram_banks: Vec<u8>,
    latch_clock_data: u8,
    latched_hours: u8,
    latched_minutes: u8,
    latched_seconds: u8,
    latched_low_byte_day_counter: u8,
    latched_high_byte_day_counter: u8,
    hours: u8,
    minutes: u8,
    seconds: u8,
    low_byte_day_counter: u8,
    high_byte_day_counter: u8,
}

pub struct Mbc3View {
    pub ram_rtc_enabled: bool,
    pub ram_bank_rtc_register_index: usize,
    pub rom_bank_index: usize,
    pub rom_bank_mask: u16,
    pub ram_bank_index_mask: usize,
    pub rom_banks: Seq<u8>,
    pub ram_banks: Seq<u8>,
    pub latch_clock_data: u8,
    pub latched_hours: u8,
    pub latched_minutes: u8,
    pub latched_seconds: u8,
    pub latched_low_byte_day_counter: u8,
    pub latched_high_byte_day_counter: u8,
    pub hours: u8,
    pub minutes: u8,
    pub seconds: u8,
    pub low_byte_day_counter: u8,
    pub high_byte_day_counter: u8,
}

/// The controller that a ROM image starts with.
pub open spec fn initial_mbc3(rom: Seq<u8>) -> Mbc3View {
    let banks = rom_bank_count(rom[0x148]);
    let ram_banks = mbc1_ram_bank_count(rom[0x149]);
    Mbc3View {
        ram_rtc_enabled: false,
        ram_bank_rtc_register_index: 0,
        rom_bank_index: 1,
        rom_bank_mask: (banks - 1) as u16,
        ram_bank_index_mask: if ram_banks == 4 { 3usize } else { 0usize },
        rom_banks: bytes_from(rom, 0, banks * LENGTH_ROM_BANK),
        ram_banks: bytes_from(rom, banks * LENGTH_ROM_BANK, ram_banks * LENGTH_RAM_BANK),
        latch_clock_data: 0,
        latched_hours: 0,
        latched_minutes: 0,
        latched_seconds: 0,
        latched_low_byte_day_counter: 0,
        latched_high_byte_day_counter: 0,
        hours: 0,
        minutes: 0,
        seconds: 0,
        low_byte_day_counter: 0,
        high_byte_day_counter: 0,
    }
}

impl View for Mbc3 {
    type V = Mbc3View;

    closed spec fn view(&self) -> Mbc3View {
        Mbc3View {
            ram_rtc_enabled: self.ram_rtc_enabled,
            ram_bank_rtc_register_index: self.ram_bank_rtc_register_index,
            rom_bank_index: self.rom_bank_index,
            rom_bank_mask: self.rom_bank_mask,
            ram_bank_index_mask: self.ram_bank_index_mask,
            rom_banks: self.rom_banks@,
            ram_banks: self.ram_banks@,
            latch_clock_data: self.latch_clock_data,
            latched_hours: self.latched_hours,
            latched_minutes: self.latched_minutes,
            latched_seconds: self.latched_seconds,
            latched_low_byte_day_counter: self.latched_low_byte_day_counter,
            latched_high_byte_day_counter: self.latched_high_byte_day_counter,
            hours: self.hours,
            minutes: self.minutes,
            seconds: self.seconds,
            low_byte_day_counter: self.low_byte_day_counter,
            high_byte_day_counter: self.high_byte_day_counter,
        }
    }
}

pub open spec fn mbc3_rom_offset(v: Mbc3View, address: u16) -> int {
    address + (v.rom_bank_index & (v.rom_bank_mask as usize)) * LENGTH_ROM_BANK - 0x4000
}

pub open spec fn mbc3_ram_offset(v: Mbc3View, address: u16) -> int {
    address + (v.ram_bank_rtc_register_index & v.ram_bank_index_mask) * LENGTH_RAM_BANK - 0xA000
}

pub open spec fn mbc3_read(v: Mbc3View, address: u16) -> u8 {
    if address <= 0x3FFF {
        v.rom_banks[address as int]
    } else if address <= 0x7FFF {
        v.rom_banks[mbc3_rom_offset(v, address)]
    } else if 0xA000 <= address <= 0xBFFF {
        let reg = v.ram_bank_rtc_register_index;
        if !v.ram_rtc_enabled {
            0xFF
        } else if reg < 5 {
            byte_or_ff(v.ram_banks, mbc3_ram_offset(v, address))
        } else if reg == 8 {
            v.latched_seconds
        } else if reg == 9 {
            v.latched_minutes
        } else if reg == 0xA {
            v.latched_hours
        } else if reg == 0xB {
            v.latched_low_byte_day_counter
        } else if reg == 0xC {
            v.latched_high_byte_day_counter
        } else {
            0xFF
        }
    } else {
        0xFF
    }
}

pub open spec fn mbc3_write(v: Mbc3View, address: u16, byte: u8) -> Mbc3View {
    if address <= 0x1FFF {
        Mbc3View { ram_rtc_enabled: byte % 16 == 0xA, ..v }
    } else if address <= 0x3FFF {
        let index = (byte % 128) as usize;
        Mbc3View { rom_bank_index: if index == 0 { 1 } else { index }, ..v }
    } else if address <= 0x5FFF {
        if v.ram_rtc_enabled { Mbc3View { ram_bank_rtc_register_index: (byte % 16) as usize, ..v } } else { v }
    } else if address <= 0x7FFF {
        if v.latch_clock_data != 0 {
            v
        } else if byte == 1 {
            Mbc3View {
                latch_clock_data: byte,
                latched_seconds: v.seconds,
                latched_minutes: v.minutes,
                latched_hours: v.hours,
                latched_high_byte_day_counter: v.high_byte_day_counter,
                latched_low_byte_day_counter: v.low_byte_day_counter,
                ..v
            }
        } else {
            Mbc3View { latch_clock_data: byte, ..v }
        }
    } else if 0xA000 <= address <= 0xBFFF {
        let reg = v.ram_bank_rtc_register_index;
        if !v.ram_rtc_enabled {
            v
        } else if reg < 5 {
            Mbc3View { ram_banks: store_if_in(v.ram_banks, mbc3_ram_offset(v, address), byte), ..v }
        } else if reg == 8 {
            Mbc3View { seconds: byte, ..v }
        } else if reg == 9 {
            Mbc3View { minutes: byte, ..v }
        } else if reg == 0xA {
            Mbc3View { hours: byte, ..v }
        } else if reg == 0xB {
            Mbc3View { low_byte_day_counter: byte, ..v }
        } else if reg == 0xC {
            Mbc3View { high_byte_day_counter: byte, ..v }
        } else {
            v
        }
    } else {
        v
    }
}

/// Counters that `tick_second` may increment without going past 255.
pub open spec fn mbc3_tick_fits(v: Mbc3View) -> bool {
    !bit_of(v.high_byte_day_counter, 6) ==> {
        &&& v.seconds < 255
        &&& v.seconds + 1 > 59 ==> v.minutes < 255
        &&& (v.seconds + 1 > 59 && v.minutes + 1 > 59) ==> v.hours < 255
    }
}

/// The clock one second later. Bit 6 of the high day counter byte halts the clock;
/// a day counter overflow past 255 sets bit 0 of the high byte, and sets the carry bit 7 too
/// when bit 0 was already set.
pub open spec fn mbc3_tick_second(v: Mbc3View) -> Mbc3View {
    if bit_of(v.high_byte_day_counter, 6) {
        v
    } else if v.seconds + 1 <= 59 {
        Mbc3View { seconds: (v.seconds + 1) as u8, ..v }
    } else if v.minutes + 1 <= 59 {
        Mbc3View { seconds: 0, minutes: (v.minutes + 1) as u8, ..v }
    } else if v.hours + 1 <= 23 {
        Mbc3View { seconds: 0, minutes: 0, hours: (v.hours + 1) as u8, ..v }
    } else {
        let overflow = v.low_byte_day_counter == 255;
        let high = if overflow {
            let with_carry = if bit_of(v.high_byte_day_counter, 0) {
                v.high_byte_day_counter | 0x80
            } else {
                v.high_byte_day_counter
            };
            (with_carry & 0xFE) | 1
        } else {
            v.high_byte_day_counter
        };
        Mbc3View {
            seconds: 0,
            minutes: 0,
            hours: 0,
            low_byte_day_counter: ((v.low_byte_day_counter + 1) % 256) as u8,
            high_byte_day_counter: high,
            ..v
        }
    }
}

impl Mbc3 {
    #[verifier::type_invariant]
    spec fn inv(&self) -> bool {
        &&& self.ram_bank_index_mask <= 3
        &&& self.rom_bank_shape()
    }

    spec fn rom_bank_shape(&self) -> bool {
        ||| (self.rom_bank_mask == 1 && self.rom_banks@.len() == 2 * LENGTH_ROM_BANK)
        ||| (self.rom_bank_mask == 3 && self.rom_banks@.len() == 4 * LENGTH_ROM_BANK)
        ||| (self.rom_bank_mask == 7 && self.rom_banks@.len() == 8 * LENGTH_ROM_BANK)
        ||| (self.rom_bank_mask == 15 && self.rom_banks@.len() == 16 * LENGTH_ROM_BANK)
        ||| (self.rom_bank_mask == 31 && self.rom_banks@.len() == 32 * LENGTH_ROM_BANK)
        ||| (self.rom_bank_mask == 63 && self.rom_banks@.len() == 64 * LENGTH_ROM_BANK)
        ||| (self.rom_bank_mask == 127 && self.rom_banks@.len() == 128 * LENGTH_ROM_BANK)
    }

    /// Builds the controller from a ROM image: the ROM banks the header announces are filled
    /// from the start of the image, then the RAM banks it announces from what follows
    /// (zeros past the end of the image); the clock starts at zero.
    pub fn new(total_rom: Vec<u8>) -> (r: Self)
        requires
            total_rom@.len() > 0x149,
            total_rom@[0x148] <= 6,
        ensures
            ({
                let banks = rom_bank_count(total_rom@[0x148]);
                let ram_banks = mbc1_ram_bank_count(total_rom@[0x149]);
                r@ == Mbc3View {
                    ram_rtc_enabled: false,
                    ram_bank_rtc_register_index: 0,
                    rom_bank_index: 1,
                    rom_bank_mask: (banks - 1) as u16,
                    ram_bank_index_mask: if ram_banks == 4 { 3usize } else { 0usize },
                    rom_banks: bytes_from(total_rom@, 0, banks * LENGTH_ROM_BANK),
                    ram_banks: bytes_from(total_rom@, banks * LENGTH_ROM_BANK, ram_banks * LENGTH_RAM_BANK),
                    latch_clock_data: 0,
                    latched_hours: 0,
                    latched_minutes: 0,
                    latched_seconds: 0,
                    latched_low_byte_day_counter: 0,
                    latched_high_byte_day_counter: 0,
                    hours: 0,
                    minutes: 0,
                    seconds: 0,
                    low_byte_day_counter: 0,
                    high_byte_day_counter: 0,
                }
            }),
            r@ == initial_mbc3(total_rom@),
    {
        let num_of_banks: usize = match total_rom[0x148] {
            0 => 2,
            1 => 4,
            2 => 8,
            3 => 16,
            4 => 32,
            5 => 64,
            _ => 128,
        };

        let rom_bank_mask: u16 = match num_of_banks {
            2 => 1u16,
            4 => 0b11u16,
            8 => 0b111u16,
            16 => 0b1111u16,
            32 => 0b1_1111u16,
            64 => 0b11_1111u16,
            _ => 0b111_1111u16,
        };

        let rom_banks = copy_bytes(&total_rom, 0, num_of_banks * LENGTH_ROM_BANK);

        let num_ram_banks: usize = match total_rom[0x149] {
            2 => 1,
            3 => 4,
            _ => 0,
        };

        let ram_bank_index_mask: usize = match num_ram_banks {
            4 => 0b11,
            _ => 0,
        };

        let ram_banks = copy_bytes(&total_rom, num_of_banks * LENGTH_ROM_BANK, num_ram_banks * LENGTH_RAM_BANK);

        Self {
            ram_rtc_enabled: false,
            ram_bank_rtc_register_index: 0,
            rom_bank_index: 1,
            rom_bank_mask,
            rom_banks,
            ram_banks,
            ram_bank_index_mask,
            latch_clock_data: 0,
            latched_hours: 0,
            latched_minutes: 0,
            latched_seconds: 0,
            latched_low_byte_day_counter: 0,
            latched_high_byte_day_counter: 0,
            hours: 0,
            minutes: 0,
            seconds: 0,
            low_byte_day_counter: 0,
            high_byte_day_counter: 0,
        }
    }

    /// Advances the real time clock by one second.
    pub fn tick_second(&mut self)
        requires
            mbc3_tick_fits(old(self)@),
        ensures
            final(self)@ == mbc3_tick_second(old(self)@),
    {
        proof {
            use_type_invariant(&*self);
        }
        if is_bit_set(self.high_byte_day_counter, 6) {
            return;
        }

        self.seconds = self.seconds + 1;

        if self.seconds > 59 {
            self.seconds = 0;
            self.minutes = self.minutes + 1;

            if self.minutes > 59 {
                self.minutes = 0;
                self.hours = self.hours + 1;

                if self.hours > 23 {
                    self.hours = 0;
                    let high_bit_day_counter = self.low_byte_day_counter == 255;
                    self.low_byte_day_counter = self.low_byte_day_counter.wrapping_add(1);

                    if high_bit_day_counter {
                        if is_bit_set(self.high_byte_day_counter, 0) {
                            self.high_byte_day_counter = self.high_byte_day_counter | 0x80;
                        }
                        self.high_byte_day_counter = self.high_byte_day_counter & 0xFE | 1;
                    }
                }
            }
        }
    }
}

impl Mbc for Mbc3 {
    fn read_byte(&self, address: u16) -> (r: u8)
        ensures
            r == mbc3_read(self@, address),
    {
        proof {
            use_type_invariant(self);
            lemma_and_le(self.rom_bank_index, self.rom_bank_mask as usize);
        }
        match address {
            0..=0x3FFF => self.rom_banks[address as usize],
            0x4000..=0x7FFF => {
                let bank = self.rom_bank_index & self.rom_bank_mask as usize;
                assert(bank <= 127);
                let address = address as usize + bank * LENGTH_ROM_BANK - 0x4000;
                self.rom_banks[address]
            },
            0xA000..=0xBFFF => {
                if !self.ram_rtc_enabled {
                    return 0xFF;
                }
                if self.ram_bank_rtc_register_index < 5 {
                    proof {
                        lemma_and_le(self.ram_bank_rtc_register_index, self.ram_bank_index_mask);
                    }
                    let bank = self.ram_bank_rtc_register_index & self.ram_bank_index_mask;
                    assert(bank <= 3);
                    let address = address as usize + bank * LENGTH_RAM_BANK - 0xA000;
                    get_or_ff(&self.ram_banks, address)
                } else if 8 <= self.ram_bank_rtc_register_index && self.ram_bank_rtc_register_index < 0xD {
                    match self.ram_bank_rtc_register_index {
                        0x8 => self.latched_seconds,
                        0x9 => self.latched_minutes,
                        0xA => self.latched_hours,
                        0xB => self.latched_low_byte_day_counter,
                        _ => self.latched_high_byte_day_counter,
                    }
                } else {
                    0xFF
                }
            },
            _ => 0xFF,
        }
    }

    fn write_byte(&mut self, address: u16, byte: u8)
        ensures
            final(self)@ == mbc3_write(old(self)@, address, byte),
    {
        proof {
            use_type_invariant(&*self);
            lemma_byte_masks(byte);
        }
        match address {
            0..=0x1FFF => {
                if byte & 0xF == 0xA {
                    self.ram_rtc_enabled = true;
                } else {
                    self.ram_rtc_enabled = false;
                }
            },
            0x2000..=0x3FFF => {
                self.rom_bank_index = (byte & 0x7F) as usize;
                if self.rom_bank_index == 0 {
                    self.rom_bank_index = 1;
                }
            },
            0x4000..=0x5FFF => {
                if self.ram_rtc_enabled {
                    self.ram_bank_rtc_register_index = (byte & 0b1111) as usize;
                }
            },
            0x6000..=0x7FFF => {
                if self.latch_clock_data == 0 {
                    self.latch_clock_data = byte;
                    if byte == 1 {
                        self.latched_seconds = self.seconds;
                        self.latched_minutes = self.minutes;
                        self.latched_hours = self.hours;
                        self.latched_high_byte_day_counter = self.high_byte_day_counter;
                        self.latched_low_byte_day_counter = self.low_byte_day_counter;
                    }
                }
            },
            0xA000..=0xBFFF => {
                if !self.ram_rtc_enabled {
                    return;
                }
                if self.ram_bank_rtc_register_index < 5 {
                    proof {
                        lemma_and_le(self.ram_bank_rtc_register_index, self.ram_bank_index_mask);
                    }
                    let bank = self.ram_bank_rtc_register_index & self.ram_bank_index_mask;
                    assert(bank <= 3);
                    let address = address as usize + bank * LENGTH_RAM_BANK - 0xA000;
                    let mut ram: Vec<u8> = Vec::new();
                    std::mem::swap(&mut ram, &mut self.ram_banks);
                    set_if_in(&mut ram, address, byte);
                    std::mem::swap(&mut ram, &mut self.ram_banks);
                } else if 8 <= self.ram_bank_rtc_register_index && self.ram_bank_rtc_register_index < 0xD {
                    match self.ram_bank_rtc_register_index {
                        0x8 => self.seconds = byte,
                        0x9 => self.minutes = byte,
                        0xA => self.hours = byte,
                        0xB => self.low_byte_day_counter = byte,
                        _ => self.high_byte_day_counter = byte,
                    }
                }
            },
            _ => (),
        }
    }
}

/// The clock registers the CPU reads are the latched copies: a second of the running clock
/// does not change what they read until the next latch.
pub proof fn law_latched_clock_unaffected_by_ticks(v: Mbc3View, address: u16)
    requires
        0xA000 <= address <= 0xBFFF,
        8 <= v.ram_bank_rtc_register_index <= 0xC,
    ensures
        mbc3_read(mbc3_tick_second(v), address) == mbc3_read(v, address),
{
}

/// An MBC3 controller's state as plain values, field by field.
pub struct Mbc3Parts {
    pub ram_rtc_enabled: bool,
    pub ram_bank_rtc_register_index: usize,
    pub rom_bank_index: usize,
    pub rom_bank_mask: u16,
    pub ram_bank_index_mask: usize,
    pub rom_banks: Vec<u8>,
    pub ram_banks: Vec<u8>,
    pub latch_clock_data: u8,
    pub latched_hours: u8,
    pub latched_minutes: u8,
    pub latched_seconds: u8,
    pub latched_low_byte_day_counter: u8,
    pub latched_high_byte_day_counter: u8,
    pub hours: u8,
    pub minutes: u8,
    pub seconds: u8,
    pub low_byte_day_counter: u8,
    pub high_byte_day_counter: u8,
}

impl View for Mbc3Parts {
    type V = Mbc3View;

    open spec fn view(&self) -> Mbc3View {
        Mbc3View {
            ram_rtc_enabled: self.ram_rtc_enabled,
            ram_bank_rtc_register_index: self.ram_bank_rtc_register_index,
            rom_bank_index: self.rom_bank_index,
            rom_bank_mask: self.rom_bank_mask,
            ram_bank_index_mask: self.ram_bank_index_mask,
            rom_banks: self.rom_banks@,
            ram_banks: self.ram_banks@,
            latch_clock_data: self.latch_clock_data,
            latched_hours: self.latched_hours,
            latched_minutes: self.latched_minutes,
            latched_seconds: self.latched_seconds,
            latched_low_byte_day_counter: self.latched_low_byte_day_counter,
            latched_high_byte_day_counter: self.latched_high_byte_day_counter,
            hours: self.hours,
            minutes: self.minutes,
            seconds: self.seconds,
            low_byte_day_counter: self.low_byte_day_counter,
            high_byte_day_counter: self.high_byte_day_counter,
        }
    }
}

/// The states an MBC3 controller can be in: at most four RAM banks addressed, and a ROM of
/// 2 to 128 banks that the bank mask selects exactly.
pub open spec fn mbc3_shape(v: Mbc3View) -> bool {
    v.ram_bank_index_mask <= 3 && rom_fits_mask(v.rom_bank_mask as int, 127, v.rom_banks.len() as int)
}

impl Mbc3 {
    /// The controller's state as plain values.
    pub fn to_parts(&self) -> (p: Mbc3Parts)
        ensures
            p@ == self@,
            mbc3_shape(p@),
    {
        proof {
            use_type_invariant(self);
        }
        Mbc3Parts {
            ram_rtc_enabled: self.ram_rtc_enabled,
            ram_bank_rtc_register_index: self.ram_bank_rtc_register_index,
            rom_bank_index: self.rom_bank_index,
            rom_bank_mask: self.rom_bank_mask,
            ram_bank_index_mask: self.ram_bank_index_mask,
            rom_banks: copy_all(&self.rom_banks),
            ram_banks: copy_all(&self.ram_banks),
            latch_clock_data: self.latch_clock_data,
            latched_hours: self.latched_hours,
            latched_minutes: self.latched_minutes,
            latched_seconds: self.latched_seconds,
            latched_low_byte_day_counter: self.latched_low_byte_day_counter,
            latched_high_byte_day_counter: self.latched_high_byte_day_counter,
            hours: self.hours,
            minutes: self.minutes,
            seconds: self.seconds,
            low_byte_day_counter: self.low_byte_day_counter,
            high_byte_day_counter: self.high_byte_day_counter,
        }
    }

    /// The controller in the state `p`, when it is one a controller can be in.
    pub fn from_parts(p: Mbc3Parts) -> (r: Option<Mbc3>)
        ensures
            r is Some <==> mbc3_shape(p@),
            r matches Some(m) ==> m@ == p@,
    {
        if p.ram_bank_index_mask <= 3 && check_rom_fits_mask(p.rom_bank_mask as usize, 127, p.rom_banks.len()) {
            Some(
                Mbc3 {
                    ram_rtc_enabled: p.ram_rtc_enabled,
                    ram_bank_rtc_register_index: p.ram_bank_rtc_register_index,
                    rom_bank_index: p.rom_bank_index,
                    rom_bank_mask: p.rom_bank_mask,
                    ram_bank_index_mask: p.ram_bank_index_mask,
                    rom_banks: p.rom_banks,
                    ram_banks: p.ram_banks,
                    latch_clock_data: p.latch_clock_data,
                    latched_hours: p.latched_hours,
                    latched_minutes: p.latched_minutes,
                    latched_seconds: p.latched_seconds,
                    latched_low_byte_day_counter: p.latched_low_byte_day_counter,
                    latched_high_byte_day_counter: p.latched_high_byte_day_counter,
                    hours: p.hours,
                    minutes: p.minutes,
                    seconds: p.seconds,
                    low_byte_day_counter: p.low_byte_day_counter,
                    high_byte_day_counter: p.high_byte_day_counter,
                },
            )
        } else {
            None
        }
    }
}

/// Switching the ROM bank: after a write of `byte` to 0x2000-0x3FFF, a read of 0x4000-0x7FFF
/// gives the byte of ROM bank `byte & 0x7F` (the register holds seven bits, and 0 selects
/// bank 1), taken modulo the number of banks the cartridge has.
pub proof fn law_mbc3_rom_bank_switch(v: Mbc3View, written: u16, byte: u8, address: u16)
    requires
        mbc3_shape(v),
        0x2000 <= written <= 0x3FFF,
        0x4000 <= address <= 0x7FFF,
    ensures
        ({
            let number: int = if byte & 0x7F == 0 { 1 } else { (byte & 0x7F) as int };
            let bank = number % (v.rom_bank_mask + 1);
            mbc3_read(mbc3_write(v, written, byte), address) == v.rom_banks[bank * 0x4000 + (address - 0x4000)]
        }),
{
    lemma_byte_masks(byte);
    let index = (byte % 128) as usize;
    let selected: usize = if index == 0 { 1 } else { index };
    lemma_mask_is_mod(selected, v.rom_bank_mask as usize);
}

/// The clock's day count: the low day byte and bit 0 of the high one, nine bits.
pub open spec fn rtc_days(v: Mbc3View) -> int {
    v.low_byte_day_counter + (if bit_of(v.high_byte_day_counter, 0) { 256int } else { 0int })
}

/// The clock's time as a number of seconds.
pub open spec fn rtc_total_seconds(v: Mbc3View) -> int {
    rtc_days(v) * 86400 + v.hours * 3600 + v.minutes * 60 + v.seconds
}

proof fn lemma_day_carry_bits(h: u8)
    by (bit_vector)
    ensures
        (((h & 0xFE) | 1) >> 0u8) & 1 == 1,
        (((h & 0xFE) | 1) >> 6u8) & 1 == (h >> 6u8) & 1,
{
}

/// The real time clock counts seconds: one second later a running clock (bit 6 of the high
/// day byte clear) with a valid time of day shows a time one second further on, counting
/// seconds, minutes, hours and days; it stays running. A halted clock stands still.
pub proof fn law_rtc_counts_seconds(v: Mbc3View)
    requires
        v.seconds < 60,
        v.minutes < 60,
        v.hours < 24,
        rtc_days(v) < 511,
    ensures
        bit_of(v.high_byte_day_counter, 6) ==> mbc3_tick_second(v) == v,
        !bit_of(v.high_byte_day_counter, 6) ==> {
            &&& rtc_total_seconds(mbc3_tick_second(v)) == rtc_total_seconds(v) + 1
            &&& !bit_of(mbc3_tick_second(v).high_byte_day_counter, 6)
        },
{
    lemma_day_carry_bits(v.high_byte_day_counter);
}

/// Latching and reading the clock: with RAM and clock access enabled and no latch written
/// yet, writing 1 to 0x6000-0x7FFF copies the running clock; selecting register 0x08,
/// 0x09, 0x0A, 0x0B or 0x0C by a write to 0x4000-0x5FFF then makes 0xA000-0xBFFF read the
/// seconds, minutes, hours, low or high day byte of the clock as it was at the latch.
pub proof fn law_rtc_latch_then_read(v: Mbc3View, latch_at: u16, select_at: u16, register: u8, address: u16)
    requires
        v.ram_rtc_enabled,
        v.latch_clock_data == 0,
        0x6000 <= latch_at <= 0x7FFF,
        0x4000 <= select_at <= 0x5FFF,
        0x08 <= register <= 0x0C,
        0xA000 <= address <= 0xBFFF,
    ensures
        ({
            let after = mbc3_write(mbc3_write(v, latch_at, 1), select_at, register);
            mbc3_read(after, address) == (if register == 0x08 {
                v.seconds
            } else if register == 0x09 {
                v.minutes
            } else if register == 0x0A {
                v.hours
            } else if register == 0x0B {
                v.low_byte_day_counter
            } else {
                v.high_byte_day_counter
            })
        }),
{
}

} // verus!
