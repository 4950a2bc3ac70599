use vstd::prelude::*;

pub mod mbc1;
pub mod mbc3;
pub mod mbc5;
pub mod no_mbc;

use self::mbc1::{mbc1_ram_offset, mbc1_read, mbc1_write, Mbc1, Mbc1View};
use self::mbc3::{mbc3_ram_offset, mbc3_read, mbc3_write, Mbc3, Mbc3View};
use self::mbc5::{mbc5_ram_offset, mbc5_read, mbc5_write, Mbc5, Mbc5View};
use self::no_mbc::{no_mbc_read, no_mbc_write, NoMbc, NoMbcView};

verus! {

/// A cartridge's memory bank controller: what the CPU sees of ROM (0x0000-0x7FFF) and of
/// cartridge RAM (0xA000-0xBFFF), and how writes to those ranges switch banks.
pub trait Mbc {
    fn read_byte(&self, address: u16) -> u8;

    fn write_byte(&mut self, address: u16, byte: u8);
}

/// The cartridge of a game, by the kind of its bank controller.
pub enum Cartridge {
    NoMbc(NoMbc),
    Mbc1(Mbc1),
    Mbc3(Mbc3),
    Mbc5(Mbc5),
}

pub enum CartridgeView {
    NoMbc(NoMbcView),
    Mbc1(Mbc1View),
    Mbc3(Mbc3View),
    Mbc5(Mbc5View),
}

impl View for Cartridge {
    type V = CartridgeView;

    open spec fn view(&self) -> CartridgeView {
        match self {
            Cartridge::NoMbc(m) => CartridgeView::NoMbc(m@),
            Cartridge::Mbc1(m) => CartridgeView::Mbc1(m@),
            Cartridge::Mbc3(m) => CartridgeView::Mbc3(m@),
            Cartridge::Mbc5(m) => CartridgeView::Mbc5(m@),
        }
    }
}

pub open spec fn cartridge_read(c: CartridgeView, address: u16) -> u8 {
    match c {
        CartridgeView::NoMbc(m) => no_mbc_read(m, address),
        CartridgeView::Mbc1(m) => mbc1_read(m, address),
        CartridgeView::Mbc3(m) => mbc3_read(m, address),
        CartridgeView::Mbc5(m) => mbc5_read(m, address),
    }
}

pub open spec fn cartridge_write(c: CartridgeView, address: u16, byte: u8) -> CartridgeView {
    match c {
        CartridgeView::NoMbc(m) => CartridgeView::NoMbc(no_mbc_write(m, address, byte)),
        CartridgeView::Mbc1(m) => CartridgeView::Mbc1(mbc1_write(m, address, byte)),
        CartridgeView::Mbc3(m) => CartridgeView::Mbc3(mbc3_write(m, address, byte)),
        CartridgeView::Mbc5(m) => CartridgeView::Mbc5(mbc5_write(m, address, byte)),
    }
}

impl Mbc for Cartridge {
    fn read_byte(&self, address: u16) -> (r: u8)
        ensures
            r == cartridge_read(self@, address),
    {
        match self {
            Cartridge::NoMbc(m) => m.read_byte(address),
            Cartridge::Mbc1(m) => m.read_byte(address),
            Cartridge::Mbc3(m) => m.read_byte(address),
            Cartridge::Mbc5(m) => m.read_byte(address),
        }
    }

    fn write_byte(&mut self, address: u16, byte: u8)
        ensures
            final(self)@ == cartridge_write(old(self)@, address, byte),
    {
        match self {
            Cartridge::NoMbc(m) => m.write_byte(address, byte),
            Cartridge::Mbc1(m) => m.write_byte(address, byte),
            Cartridge::Mbc3(m) => m.write_byte(address, byte),
            Cartridge::Mbc5(m) => m.write_byte(address, byte),
        }
    }
}

/// `count` bytes of `rom` starting at `start`, with zeros past its end.
pub open spec fn bytes_from(rom: Seq<u8>, start: int, count: int) -> Seq<u8> {
    Seq::new(count as nat, |j: int| if start + j < rom.len() { rom[start + j] } else { 0u8 })
}

/// The number of 16 KiB ROM banks that the header byte 0x148 announces.
pub open spec fn rom_bank_count(code: u8) -> nat {
    if code == 0 { 2 } else if code == 1 { 4 } else if code == 2 { 8 } else if code == 3 { 16 }
    else if code == 4 { 32 } else if code == 5 { 64 } else if code == 6 { 128 } else if code == 7 { 256 }
    else { 512 }
}

/// Copies `count` bytes of `rom` from `start` on; bytes past the end of `rom` read as zero.
pub(crate) fn copy_bytes(rom: &Vec<u8>, start: usize, count: usize) -> (r: Vec<u8>)
    requires
        start + count <= usize::MAX,
    ensures
        r@ == bytes_from(rom@, start as int, count as int),
{
    let mut out: Vec<u8> = Vec::new();
    let mut j: usize = 0;
    while j < count
        invariant
            j <= count,
            start + count <= usize::MAX,
            out@.len() == j,
            forall|k: int| 0 <= k < j ==> out@[k] == (if start + k < rom@.len() { rom@[start + k] } else { 0u8 }),
        decreases count - j,
    {
        let x = if start + j < rom.len() { rom[start + j] } else { 0u8 };
        out.push(x);
        j = j + 1;
    }
    assert(out@ == bytes_from(rom@, start as int, count as int));
    out
}

/// The byte at `index` of `bytes`, or 0xFF where `index` is past its end.
pub open spec fn byte_or_ff(bytes: Seq<u8>, index: int) -> u8 {
    if 0 <= index < bytes.len() { bytes[index] } else { 0xFF }
}

/// `bytes` with the byte at `index` replaced, or unchanged where `index` is past its end.
pub open spec fn store_if_in(bytes: Seq<u8>, index: int, byte: u8) -> Seq<u8> {
    if 0 <= index < bytes.len() { bytes.update(index, byte) } else { bytes }
}

pub(crate) fn get_or_ff(bytes: &Vec<u8>, index: usize) -> (r: u8)
    ensures
        r == byte_or_ff(bytes@, index as int),
{
    if index < bytes.len() { bytes[index] } else { 0xFF }
}

/// Stores `byte` at `index` of `bytes` when `index` is within it.
pub(crate) fn set_if_in(bytes: &mut Vec<u8>, index: usize, byte: u8)
    ensures
        final(bytes)@ == store_if_in(old(bytes)@, index as int, byte),
{
    if index < bytes.len() {
        bytes.set(index, byte);
    }
}

/// Whether the cartridge RAM byte at `address` (0xA000-0xBFFF) can be reached: RAM is enabled
/// (for MBC3, with a RAM bank and not a clock register selected) and the selected bank holds
/// the byte.
pub open spec fn ram_reachable(c: CartridgeView, address: u16) -> bool {
    match c {
        CartridgeView::NoMbc(v) => address - 0xA000 < v.ram.len(),
        CartridgeView::Mbc1(v) => v.ram_enabled && 0 <= mbc1_ram_offset(v, address) < v.ram_banks.len(),
        CartridgeView::Mbc3(v) => v.ram_rtc_enabled && v.ram_bank_rtc_register_index < 5 && 0
            <= mbc3_ram_offset(v, address) < v.ram_banks.len(),
        CartridgeView::Mbc5(v) => v.ram_enabled && 0 <= mbc5_ram_offset(v, address) < v.ram_banks.len(),
    }
}

/// Writes never change the ROM: a read of the fixed bank (0x0000-0x3FFF) gives the same byte
/// before and after any write to the cartridge.
pub proof fn law_fixed_rom_bank_unchanged_by_writes(c: CartridgeView, written: u16, byte: u8, address: u16)
    requires
        address <= 0x3FFF,
    ensures
        cartridge_read(cartridge_write(c, written, byte), address) == cartridge_read(c, address),
{
}

/// Cartridge RAM gives back what was written to it, where the byte can be reached.
pub proof fn law_cartridge_ram_read_after_write(c: CartridgeView, address: u16, byte: u8)
    requires
        0xA000 <= address <= 0xBFFF,
        ram_reachable(c, address),
    ensures
        cartridge_read(cartridge_write(c, address, byte), address) == byte,
{
}

/// Whether `mask` is a ROM bank mask (one less than a power of two, from 1 up to `max_mask`)
/// and a ROM of `len` bytes holds exactly the 16 KiB banks it selects.
pub open spec fn rom_fits_mask(mask: int, max_mask: int, len: int) -> bool {
    &&& (mask == 1 || mask == 3 || mask == 7 || mask == 15 || mask == 31 || mask == 63 || mask == 127
        || mask == 255 || mask == 511)
    &&& mask <= max_mask
    &&& len == (mask + 1) * (16 * 1024)
}

pub(crate) fn check_rom_fits_mask(mask: usize, max_mask: usize, len: usize) -> (r: bool)
    ensures
        r == rom_fits_mask(mask as int, max_mask as int, len as int),
{
    (mask == 1 || mask == 3 || mask == 7 || mask == 15 || mask == 31 || mask == 63 || mask == 127 || mask == 255
        || mask == 511) && mask <= max_mask && len == (mask + 1) * (16 * 1024)
}

/// A copy of all of `bytes`.
pub(crate) fn copy_all(bytes: &Vec<u8>) -> (r: Vec<u8>)
    ensures
        r@ == bytes@,
{
    let r = copy_bytes(bytes, 0, bytes.len());
    assert(r@ =~= bytes@);
    r
}

/// A bank number masked by a ROM bank mask (one less than a power of two) is the bank
/// number modulo the bank count.
pub(crate) proof fn lemma_mask_is_mod(x: usize, mask: usize)
    requires
        mask == 1 || mask == 3 || mask == 7 || mask == 15 || mask == 31 || mask == 63 || mask == 127
            || mask == 255 || mask == 511,
    ensures
        (x & mask) as int == (x as int) % (mask + 1),
{
    assert(
        (x & 1 == x % 2) && (x & 3 == x % 4) && (x & 7 == x % 8) && (x & 15 == x % 16) && (x & 31 == x % 32)
        && (x & 63 == x % 64) && (x & 127 == x % 128) && (x & 255 == x % 256) && (x & 511 == x % 512)
    ) by (bit_vector);
}

/// Enabling and disabling cartridge RAM (MBC1, MBC3, MBC5): a write to 0x0000-0x1FFF
/// enables RAM exactly when the low four bits of the byte are 0xA. While disabled, every
/// read of 0xA000-0xBFFF gives 0xFF; once enabled, a byte of the selected RAM bank can be
/// read and written (for MBC3, when a RAM bank rather than a clock register is selected).
pub proof fn law_ram_enable(c: CartridgeView, written: u16, byte: u8, address: u16)
    requires
        written <= 0x1FFF,
        0xA000 <= address <= 0xBFFF,
        !(c is NoMbc),
    ensures
        ({
            let after = cartridge_write(c, written, byte);
            &&& byte & 0x0F != 0x0A ==> cartridge_read(after, address) == 0xFF
            &&& byte & 0x0F == 0x0A ==> match after {
                CartridgeView::Mbc1(v) => ram_reachable(after, address) == (0 <= mbc1_ram_offset(v, address) < v.ram_banks.len()),
                CartridgeView::Mbc3(v) => ram_reachable(after, address) == (v.ram_bank_rtc_register_index < 5 && 0
                    <= mbc3_ram_offset(v, address) < v.ram_banks.len()),
                CartridgeView::Mbc5(v) => ram_reachable(after, address) == (0 <= mbc5_ram_offset(v, address) < v.ram_banks.len()),
                CartridgeView::NoMbc(_) => true,
            }
        }),
{
    self::mbc1::lemma_byte_masks(byte);
}

} // verus!
