use vstd::prelude::*;

use crate::cpu::{bit_of, CpuState};
use crate::hdma_controller::HdmaController;
use crate::interrupt_handler::InterruptHandler;
use crate::joypad::{spec_write_to_byte, Joypad, JoypadView};
use crate::mbc::{cartridge_read, cartridge_write, law_cartridge_ram_read_after_write, ram_reachable, Cartridge, CartridgeView, Mbc};
use crate::ppu::{initial_ppu, lemma_palette_index_bounded, palette_index_after_write, ppu_wf, selected_vram, Ppu, PpuView};
use crate::serial::{starts_transfer, Serial};
use crate::timer::{spec_read, spec_write, Timer, TimerView};

verus! {

/// The memory map: what a read or a write of each address reaches.
pub struct Mmu {
    pub hram: [u8; 0x7F],
    pub joypad: Joypad,
    pub mbc: Cartridge,
    pub timer: Timer,
    pub ppu: Ppu,
    pub serial: Serial,
    pub wram_banks: [[u8; 0x2000]; 8],
    pub wram_bank_index: usize,
    pub dma_iterator: u8,
    pub dma_source: u8,
    pub key1: u8,
    pub hdma_controller: HdmaController,
}

pub struct MmuView {
    pub hram: Seq<u8>,
    pub joypad: JoypadView,
    pub mbc: CartridgeView,
    pub timer: TimerView,
    pub ppu: PpuView,
    pub serial: Serial,
    pub wram_banks: Seq<Seq<u8>>,
    pub wram_bank_index: usize,
    pub dma_iterator: u8,
    pub dma_source: u8,
    pub key1: u8,
    pub hdma_controller: HdmaController,
}

impl View for Mmu {
    type V = MmuView;

    open spec fn view(&self) -> MmuView {
        MmuView {
            hram: self.hram@,
            joypad: self.joypad@,
            mbc: self.mbc@,
            timer: self.timer@,
            ppu: self.ppu@,
            serial: self.serial,
            wram_banks: self.wram_banks@.map_values(|b: [u8; 0x2000]| b@),
            wram_bank_index: self.wram_bank_index,
            dma_iterator: self.dma_iterator,
            dma_source: self.dma_source,
            key1: self.key1,
            hdma_controller: self.hdma_controller,
        }
    }
}

/// The states the memory map keeps to: a well formed PPU, a switchable work RAM bank from 1
/// to 7, and a serial control value of 0 or 1.
pub open spec fn mmu_wf(m: MmuView) -> bool {
    &&& ppu_wf(m.ppu)
    &&& m.hram.len() == 0x7F
    &&& m.wram_banks.len() == 8
    &&& forall|i: int| 0 <= i < 8 ==> (#[trigger] m.wram_banks[i]).len() == 0x2000
    &&& 1 <= m.wram_bank_index <= 7
    &&& m.serial.serial_data_control <= 1
}

/// The reads that have a defined value: the CGB palette data registers only while their index
/// is within the 64 palette bytes.
pub open spec fn read_defined(m: MmuView, address: u16) -> bool {
    &&& address == 0xFF69 ==> m.ppu.bg_palette_index < 64
    &&& address == 0xFF6B ==> m.ppu.sprite_palette_index < 64
}

/// What a read of `address` gives.
pub open spec fn spec_fetch_byte(m: MmuView, ih: InterruptHandler, address: u16) -> u8 {
    if address <= 0x7FFF {
        cartridge_read(m.mbc, address)
    } else if address <= 0x9FFF {
        selected_vram(m.ppu)[address - 0x8000]
    } else if address <= 0xBFFF {
        cartridge_read(m.mbc, address)
    } else if address <= 0xCFFF {
        m.wram_banks[0][(address % 0x2000) as int]
    } else if address <= 0xDFFF {
        m.wram_banks[m.wram_bank_index as int][(address % 0x2000) as int]
    } else if address <= 0xFDFF {
        m.wram_banks[0][(address % 0x2000) as int]
    } else if address <= 0xFE9F {
        m.ppu.oam_ram[address - 0xFE00]
    } else if address == 0xFF00 {
        m.joypad.byte
    } else if address == 0xFF01 {
        m.serial.serial_data_transfer
    } else if address == 0xFF02 {
        0
    } else if 0xFF04 <= address <= 0xFF07 {
        spec_read(m.timer, address)
    } else if address == 0xFF0F {
        ih.IF
    } else if address == 0xFF40 {
        m.ppu.lcdc
    } else if address == 0xFF41 {
        m.ppu.lcd_status
    } else if address == 0xFF42 {
        m.ppu.scy
    } else if address == 0xFF43 {
        m.ppu.scx
    } else if address == 0xFF44 {
        m.ppu.ly
    } else if address == 0xFF45 {
        m.ppu.lyc
    } else if address == 0xFF46 {
        m.ppu.oam_ram[159]
    } else if address == 0xFF47 {
        m.ppu.bgp
    } else if address == 0xFF48 {
        m.ppu.obp0
    } else if address == 0xFF49 {
        m.ppu.obp1
    } else if address == 0xFF68 {
        m.ppu.bg_palette_index as u8
    } else if address == 0xFF69 {
        m.ppu.bg_color_ram[m.ppu.bg_palette_index as int]
    } else if address == 0xFF6A {
        m.ppu.sprite_palette_index as u8
    } else if address == 0xFF6B {
        m.ppu.sprite_color_ram[m.ppu.sprite_palette_index as int]
    } else if address == 0xFF4A {
        m.ppu.wy
    } else if address == 0xFF4B {
        m.ppu.wx
    } else if address == 0xFF70 {
        m.wram_bank_index as u8
    } else if 0xFF80 <= address <= 0xFFFE {
        m.hram[address - 0xFF80]
    } else if address == 0xFFFF {
        ih.IE
    } else {
        0xFF
    }
}

/// The PPU after a VRAM write at `offset` of the selected bank.
pub open spec fn ppu_vram_write(p: PpuView, offset: int, byte: u8) -> PpuView {
    if p.vram_bank_index & 1 == 0 {
        PpuView { vram_0: p.vram_0.update(offset, byte), ..p }
    } else {
        PpuView { vram_1: p.vram_1.update(offset, byte), ..p }
    }
}

/// Work RAM after a write at `offset` of `bank`.
pub open spec fn wram_write(m: MmuView, bank: int, offset: int, byte: u8) -> MmuView {
    MmuView { wram_banks: m.wram_banks.update(bank, m.wram_banks[bank].update(offset, byte)), ..m }
}

/// What a write of `byte` to `address` changes: the memory map, the CPU state (OAM DMA
/// requests, boot ROM unmapping) and the interrupt registers.
pub open spec fn spec_write_byte(m: MmuView, cs: CpuState, ih: InterruptHandler, address: u16, byte: u8) -> (
    MmuView,
    CpuState,
    InterruptHandler,
) {
    if address <= 0x7FFF {
        (MmuView { mbc: cartridge_write(m.mbc, address, byte), ..m }, cs, ih)
    } else if address <= 0x9FFF {
        (MmuView { ppu: ppu_vram_write(m.ppu, address - 0x8000, byte), ..m }, cs, ih)
    } else if address <= 0xBFFF {
        (MmuView { mbc: cartridge_write(m.mbc, address, byte), ..m }, cs, ih)
    } else if address <= 0xCFFF {
        (wram_write(m, 0, (address % 0x2000) as int, byte), cs, ih)
    } else if address <= 0xDFFF {
        (wram_write(m, m.wram_bank_index as int, (address % 0x2000) as int, byte), cs, ih)
    } else if address <= 0xFDFF {
        (wram_write(m, 0, (address % 0x2000) as int, byte), cs, ih)
    } else if address <= 0xFE9F {
        (MmuView { ppu: PpuView { oam_ram: m.ppu.oam_ram.update(address - 0xFE00, byte), ..m.ppu }, ..m }, cs, ih)
    } else if address == 0xFF00 {
        let (j, request) = spec_write_to_byte(m.joypad, byte);
        (MmuView { joypad: j, ..m }, cs, if request { ih.requested(crate::interrupt_handler::Interrupt::Joypad) } else { ih })
    } else if address == 0xFF01 {
        (m, cs, ih)
    } else if address == 0xFF02 {
        if starts_transfer(m.serial.serial_data_control, byte) {
            (
                MmuView { serial: Serial { serial_data_transfer: 0xFF, serial_data_control: 1, ..m.serial }, ..m },
                cs,
                ih.requested(crate::interrupt_handler::Interrupt::Serial),
            )
        } else {
            (m, cs, ih)
        }
    } else if 0xFF04 <= address <= 0xFF07 {
        (MmuView { timer: spec_write(m.timer, address, byte), ..m }, cs, ih)
    } else if address == 0xFF0F {
        (m, cs, InterruptHandler { IF: (byte & 0x1F) | 0xE0, ..ih })
    } else if address == 0xFF40 {
        let status = if bit_of(byte, 7) { m.ppu.lcd_status } else { m.ppu.lcd_status & 0xFC };
        (MmuView { ppu: PpuView { lcdc: byte, lcd_status: status, ..m.ppu }, ..m }, cs, ih)
    } else if address == 0xFF41 {
        (MmuView { ppu: PpuView { lcd_status: 0x87 | (byte & 0x78), ..m.ppu }, ..m }, cs, ih)
    } else if address == 0xFF42 {
        (MmuView { ppu: PpuView { scy: byte, ..m.ppu }, ..m }, cs, ih)
    } else if address == 0xFF43 {
        (MmuView { ppu: PpuView { scx: byte, ..m.ppu }, ..m }, cs, ih)
    } else if address == 0xFF45 {
        (MmuView { ppu: PpuView { lyc: byte, ..m.ppu }, ..m }, cs, ih)
    } else if address == 0xFF46 {
        (MmuView { dma_iterator: 0, dma_source: byte, ..m }, CpuState::DMA, ih)
    } else if address == 0xFF47 {
        (MmuView { ppu: PpuView { bgp: byte, ..m.ppu }, ..m }, cs, ih)
    } else if address == 0xFF48 {
        (MmuView { ppu: PpuView { obp0: byte, ..m.ppu }, ..m }, cs, ih)
    } else if address == 0xFF49 {
        (MmuView { ppu: PpuView { obp1: byte, ..m.ppu }, ..m }, cs, ih)
    } else if address == 0xFF4A {
        (MmuView { ppu: PpuView { wy: byte, ..m.ppu }, ..m }, cs, ih)
    } else if address == 0xFF4B {
        (MmuView { ppu: PpuView { wx: byte, ..m.ppu }, ..m }, cs, ih)
    } else if address == 0xFF4F {
        (MmuView { ppu: PpuView { vram_bank_index: (byte % 2) as usize, ..m.ppu }, ..m }, cs, ih)
    } else if address == 0xFF50 {
        (m, if byte > 0 { CpuState::NonBoot } else { cs }, ih)
    } else if address == 0xFF68 {
        (MmuView { ppu: PpuView { bg_palette_index: byte as usize, ..m.ppu }, ..m }, cs, ih)
    } else if address == 0xFF69 {
        (
            MmuView {
                ppu: PpuView {
                    bg_color_ram: m.ppu.bg_color_ram.update((m.ppu.bg_palette_index & 0x3F) as int, byte),
                    bg_palette_index: palette_index_after_write(m.ppu.bg_palette_index),
                    ..m.ppu
                },
                ..m
            },
            cs,
            ih,
        )
    } else if address == 0xFF6A {
        (MmuView { ppu: PpuView { sprite_palette_index: byte as usize, ..m.ppu }, ..m }, cs, ih)
    } else if address == 0xFF70 {
        let index = (byte % 8) as usize;
        (MmuView { wram_bank_index: if index == 0 { 1 } else { index }, ..m }, cs, ih)
    } else if 0xFF80 <= address <= 0xFFFE {
        (MmuView { hram: m.hram.update(address - 0xFF80, byte), ..m }, cs, ih)
    } else if address == 0xFFFF {
        (m, cs, InterruptHandler { IE: (byte & 0x1F) | 0xE0, ..ih })
    } else {
        (m, cs, ih)
    }
}

/// A memory map as `Mmu::new` makes it around the cartridge `mbc`: cleared RAM, work RAM
/// bank 1 selected, the initial PPU, timer, joypad and serial registers, and no transfer running.
pub open spec fn fresh_mmu(m: MmuView, mbc: CartridgeView, is_dmg: bool) -> bool {
    &&& m.mbc == mbc
    &&& m.ppu == initial_ppu(is_dmg)
    &&& m.hram == Seq::new(0x7F, |i: int| 0u8)
    &&& m.wram_banks == Seq::new(8, |i: int| Seq::new(0x2000, |j: int| 0u8))
    &&& m.wram_bank_index == 1
    &&& m.dma_iterator == 0
    &&& m.dma_source == 0
    &&& m.key1 == 0
    &&& m.joypad == (JoypadView { byte: 0xFF, group_action: 0, group_direction: 0 })
    &&& m.timer == (TimerView {
        divider: 0,
        tima: 0,
        tma: 0,
        tima_was_reloaded: false,
        timer_control: 0,
        reload_tima_next_m_cycle: false,
    })
    &&& m.serial.serial_data_transfer == 0
    &&& m.serial.serial_data_control == 0
    &&& m.serial.current_word@ == Seq::<char>::empty()
    &&& m.hdma_controller == (HdmaController {
        hdma1: 0,
        hdma2: 0,
        hdma3: 0,
        hdma4: 0,
        length: 0,
        is_active: false,
        iterator_hdma: 0,
        destination_hdma: 0,
    })
    &&& mmu_wf(m)
}

proof fn lemma_word_bytes(word: u16)
    by (bit_vector)
    ensures
        word as u8 == (word % 256u16) as u8,
        (word >> 8u16) as u8 == (word / 256u16) as u8,
{
}

impl Mmu {
    /// Whether the memory map is in a state it keeps to (`mmu_wf`).
    pub fn is_well_formed(&self) -> (r: bool)
        ensures
            r == mmu_wf(self@),
    {
        proof {
            assert(self@.wram_banks.len() == 8);
            assert(forall|i: int| 0 <= i < 8 ==> (#[trigger] self@.wram_banks[i]).len() == 0x2000);
        }
        self.ppu.is_well_formed() && 1 <= self.wram_bank_index && self.wram_bank_index <= 7
            && self.serial.serial_data_control <= 1
    }

    /// A new memory map around a cartridge, with cleared RAM and work RAM bank 1 selected.
    pub fn new(mbc: Cartridge, is_dmg: bool) -> (r: Self)
        ensures
            fresh_mmu(r@, mbc@, is_dmg),
    {
        let r = Self {
            mbc,
            hram: [0x00u8; 0x7F],
            ppu: Ppu::new(is_dmg),
            joypad: Joypad::new(),
            serial: Serial::new(),
            timer: Timer::default(),
            dma_iterator: 0,
            dma_source: 0,
            key1: 0,
            wram_banks: [[0u8; 0x2000]; 8],
            wram_bank_index: 1,
            hdma_controller: HdmaController::new(),
        };
        assert(r@.hram =~= Seq::new(0x7F, |i: int| 0u8));
        assert forall|i: int| 0 <= i < 8 implies r@.wram_banks[i] =~= Seq::new(0x2000, |j: int| 0u8) by {
        }
        assert(r@.wram_banks =~= Seq::new(8, |i: int| Seq::new(0x2000, |j: int| 0u8)));
        r
    }

    /// Reads `address`. Reading never changes the machine.
    pub fn fetch_byte(&mut self, address: u16, cpu_state: &CpuState, interrupt_handler: &mut InterruptHandler) -> (r: u8)
        requires
            mmu_wf(old(self)@),
            read_defined(old(self)@, address),
        ensures
            r == spec_fetch_byte(old(self)@, *old(interrupt_handler), address),
            *final(self) == *old(self),
            *final(interrupt_handler) == *old(interrupt_handler),
    {
        match address {
            0..=0x7FFF => self.mbc.read_byte(address),
            0x8000..=0x9FFF => self.ppu.fetch_vram(address - 0x8000),
            0xA000..=0xBFFF => self.mbc.read_byte(address),
            0xC000..=0xCFFF => {
                let local_address = (address % 0x2000) as usize;
                self.read_wram(0, local_address)
            },
            0xD000..=0xDFFF => {
                let local_address = (address % 0x2000) as usize;
                self.read_wram(self.wram_bank_index, local_address)
            },
            0xE000..=0xFDFF => {
                let local_address = (address % 0x2000) as usize;
                self.read_wram(0, local_address)
            },
            0xFE00..=0xFE9F => self.ppu.fetch_oam(address - 0xFE00),
            0xFF00 => self.joypad.byte(),
            0xFF01 => self.serial.serial_data_transfer,
            0xFF02 => 0,
            0xFF04..=0xFF07 => self.timer.read_byte(address),
            0xFF0F => interrupt_handler.IF,
            0xFF40 => self.ppu.lcdc,
            0xFF41 => self.ppu.lcd_status,
            0xFF42 => self.ppu.scy,
            0xFF43 => self.ppu.scx,
            0xFF44 => self.ppu.ly,
            0xFF45 => self.ppu.lyc,
            0xFF46 => self.ppu.oam_ram[159],
            0xFF47 => self.ppu.bgp,
            0xFF48 => self.ppu.obp0,
            0xFF49 => self.ppu.obp1,
            0xFF68 => self.ppu.bg_palette_index as u8,
            0xFF69 => self.ppu.fetch_bg_palette_data(),
            0xFF6A => self.ppu.sprite_palette_index as u8,
            0xFF6B => self.ppu.fetch_sprite_palette_data(),
            0xFF4A => self.ppu.wy,
            0xFF4B => self.ppu.wx,
            0xFF70 => self.wram_bank_index as u8,
            0xFF80..=0xFFFE => self.hram[(address - 0xFF80) as usize],
            0xFFFF => interrupt_handler.IE,
            _ => 0xFF,
        }
    }

    /// Writes the low byte of `word` to `address` and its high byte to the next address.
    pub fn write_word(
        &mut self,
        address: u16,
        word: u16,
        cpu_state: &mut CpuState,
        interrupt_handler: &mut InterruptHandler,
    )
        requires
            mmu_wf(old(self)@),
            address < 0xFFFF,
        ensures
            ({
                let (m1, cs1, ih1) = spec_write_byte(
                    old(self)@,
                    *old(cpu_state),
                    *old(interrupt_handler),
                    address,
                    (word % 256) as u8,
                );
                (final(self)@, *final(cpu_state), *final(interrupt_handler)) == spec_write_byte(
                    m1,
                    cs1,
                    ih1,
                    (address + 1) as u16,
                    (word / 256) as u8,
                )
            }),
            mmu_wf(final(self)@),
    {
        proof {
            lemma_word_bytes(word);
        }
        let lower = word as u8;
        self.write_byte(address, lower, cpu_state, interrupt_handler);
        let high = (word >> 8) as u8;
        self.write_byte(address + 1, high, cpu_state, interrupt_handler);
    }

    /// Writes `received_byte` to `address`.
    pub fn write_byte(
        &mut self,
        address: u16,
        received_byte: u8,
        cpu_state: &mut CpuState,
        interrupt_handler: &mut InterruptHandler,
    )
        requires
            mmu_wf(old(self)@),
        ensures
            (final(self)@, *final(cpu_state), *final(interrupt_handler)) == spec_write_byte(
                old(self)@,
                *old(cpu_state),
                *old(interrupt_handler),
                address,
                received_byte,
            ),
            mmu_wf(final(self)@),
    {
        proof {
            lemma_write_keeps_wf(self@, *cpu_state, *interrupt_handler, address, received_byte);
        }
        match address {
            0..=0x7FFF => self.mbc.write_byte(address, received_byte),
            0x8000..=0x9FFF => self.ppu.write_vram(address - 0x8000, received_byte),
            0xA000..=0xBFFF => self.mbc.write_byte(address, received_byte),
            0xC000..=0xCFFF => {
                let local_address = (address % 0x2000) as usize;
                self.write_wram(0, local_address, received_byte);
            },
            0xD000..=0xDFFF => {
                let local_address = (address % 0x2000) as usize;
                self.write_wram(self.wram_bank_index, local_address, received_byte);
            },
            0xE000..=0xFDFF => {
                let local_address = (address % 0x2000) as usize;
                self.write_wram(0, local_address, received_byte);
            },
            0xFE00..=0xFE9F => self.ppu.write_oam(address - 0xFE00, received_byte),
            0xFF00 => self.joypad.write_to_byte(received_byte, interrupt_handler),
            0xFF01 => self.serial.write_to_transfer(interrupt_handler, received_byte),
            0xFF02 => self.serial.write_to_control(received_byte, interrupt_handler),
            0xFF04..=0xFF07 => self.timer.write_byte(address, received_byte),
            0xFF0F => {
                interrupt_handler.IF = received_byte & 0x1F;
                interrupt_handler.IF = interrupt_handler.IF | 0b1110_0000;
            },
            0xFF40 => self.ppu.write_lcdc(received_byte),
            0xFF41 => self.ppu.write_to_lcd_status(received_byte),
            0xFF42 => self.ppu.scy = received_byte,
            0xFF43 => self.ppu.scx = received_byte,
            0xFF45 => self.ppu.lyc = received_byte,
            0xFF46 => self.request_dma(received_byte, cpu_state),
            0xFF47 => self.ppu.bgp = received_byte,
            0xFF48 => self.ppu.obp0 = received_byte,
            0xFF49 => self.ppu.obp1 = received_byte,
            0xFF4A => self.ppu.wy = received_byte,
            0xFF4B => self.ppu.wx = received_byte,
            0xFF4F => self.ppu.vram_bank_index = (received_byte % 2) as usize,
            0xFF50 => {
                if received_byte > 0 {
                    *cpu_state = CpuState::NonBoot;
                }
            },
            0xFF68 => self.ppu.bg_palette_index = received_byte as usize,
            0xFF69 => self.ppu.write_bg_palette_data(received_byte),
            0xFF6A => self.ppu.sprite_palette_index = received_byte as usize,
            0xFF70 => {
                self.wram_bank_index = (received_byte % 8) as usize;
                if self.wram_bank_index == 0 {
                    self.wram_bank_index = 1;
                }
            },
            0xFF80..=0xFFFE => {
                self.hram[(address - 0xFF80) as usize] = received_byte;
            },
            0xFFFF => {
                interrupt_handler.IE = received_byte & 0x1F;
                interrupt_handler.IE = interrupt_handler.IE | 0b1110_0000;
            },
            _ => (),
        };
    }

    fn read_wram(&self, bank: usize, offset: usize) -> (r: u8)
        requires
            bank < 8,
            offset < 0x2000,
        ensures
            r == self@.wram_banks[bank as int][offset as int],
    {
        self.wram_banks[bank][offset]
    }

    fn write_wram(&mut self, bank: usize, offset: usize, byte: u8)
        requires
            bank < 8,
            offset < 0x2000,
        ensures
            final(self)@ == wram_write(old(self)@, bank as int, offset as int, byte),
    {
        self.wram_banks[bank][offset] = byte;
        assert(self@.wram_banks =~= wram_write(old(self)@, bank as int, offset as int, byte).wram_banks) by {
            assert forall|i: int| 0 <= i < 8 implies #[trigger] self@.wram_banks[i] =~= wram_write(
                old(self)@,
                bank as int,
                offset as int,
                byte,
            ).wram_banks[i] by {
            }
        }
    }

    /// Starts an OAM DMA transfer from `byte` * 0x100.
    fn request_dma(&mut self, byte: u8, cpu_state: &mut CpuState)
        ensures
            final(self)@ == (MmuView { dma_iterator: 0, dma_source: byte, ..old(self)@ }),
            *final(cpu_state) == CpuState::DMA,
    {
        self.dma_iterator = 0;
        self.dma_source = byte;
        *cpu_state = CpuState::DMA;
    }
}

/// A write keeps the memory map in the states of `mmu_wf`.
proof fn lemma_write_keeps_wf(m: MmuView, cs: CpuState, ih: InterruptHandler, address: u16, byte: u8)
    requires
        mmu_wf(m),
    ensures
        mmu_wf(spec_write_byte(m, cs, ih, address, byte).0),
{
    lemma_palette_index_bounded(m.ppu.bg_palette_index);
}

/// The RAM of the machine: VRAM, work RAM and its echo, OAM, high RAM, and cartridge RAM
/// where the cartridge lets the byte be reached.
pub open spec fn is_ram_address(m: MmuView, address: u16) -> bool {
    ||| 0x8000 <= address <= 0x9FFF
    ||| 0xC000 <= address <= 0xFE9F
    ||| 0xFF80 <= address <= 0xFFFE
    ||| (0xA000 <= address <= 0xBFFF && ram_reachable(m.mbc, address))
}

/// A read of a RAM address gives back the byte last written there.
pub proof fn law_ram_read_after_write(m: MmuView, cs: CpuState, ih: InterruptHandler, address: u16, byte: u8)
    requires
        mmu_wf(m),
        is_ram_address(m, address),
    ensures
        ({
            let (m2, cs2, ih2) = spec_write_byte(m, cs, ih, address, byte);
            spec_fetch_byte(m2, ih2, address) == byte
        }),
{
    if 0xA000 <= address <= 0xBFFF {
        law_cartridge_ram_read_after_write(m.mbc, address, byte);
    }
}

/// Work RAM from 0xC000 shows again from 0xE000 (echo RAM): a byte written at one address
/// reads back at the other.
pub proof fn law_echo_ram(m: MmuView, cs: CpuState, ih: InterruptHandler, offset: u16, byte: u8)
    requires
        mmu_wf(m),
        offset < 0x1000,
    ensures
        ({
            let (m2, cs2, ih2) = spec_write_byte(m, cs, ih, (0xC000 + offset) as u16, byte);
            spec_fetch_byte(m2, ih2, (0xE000 + offset) as u16) == byte
        }),
        ({
            let (m2, cs2, ih2) = spec_write_byte(m, cs, ih, (0xE000 + offset) as u16, byte);
            spec_fetch_byte(m2, ih2, (0xC000 + offset) as u16) == byte
        }),
{
}

/// IF and IE keep the five interrupt bits that are written; their three upper bits read as one.
pub proof fn law_interrupt_registers_read_back(m: MmuView, cs: CpuState, ih: InterruptHandler, byte: u8)
    ensures
        ({
            let (m2, cs2, ih2) = spec_write_byte(m, cs, ih, 0xFF0F, byte);
            spec_fetch_byte(m2, ih2, 0xFF0F) == (byte & 0x1F) | 0xE0
        }),
        ({
            let (m2, cs2, ih2) = spec_write_byte(m, cs, ih, 0xFFFF, byte);
            spec_fetch_byte(m2, ih2, 0xFFFF) == (byte & 0x1F) | 0xE0
        }),
{
}

/// SVBK selects work RAM bank 1 to 7 by its low three bits, and bank 1 for zero.
pub proof fn law_wram_bank_select(m: MmuView, cs: CpuState, ih: InterruptHandler, byte: u8)
    ensures
        ({
            let (m2, cs2, ih2) = spec_write_byte(m, cs, ih, 0xFF70, byte);
            spec_fetch_byte(m2, ih2, 0xFF70) == (if byte % 8 == 0 { 1 } else { byte % 8 })
        }),
{
}

/// The PPU's plain registers read back what was written to them: LCDC (0xFF40), SCY, SCX
/// (0xFF42, 0xFF43), LYC (0xFF45), the palettes BGP, OBP0, OBP1 (0xFF47-0xFF49) and the
/// window position WY, WX (0xFF4A, 0xFF4B). STAT (0xFF41) keeps the four interrupt enable
/// bits written (3 to 6). A write to the OAM DMA register (0xFF46) starts a transfer from
/// that page, and high RAM (0xFF80-0xFFFE) reads back its bytes.
pub proof fn law_io_registers_read_back(m: MmuView, cs: CpuState, ih: InterruptHandler, address: u16, byte: u8)
    ensures
        address == 0xFF40 || address == 0xFF42 || address == 0xFF43 || address == 0xFF45 || (0xFF47 <= address
            <= 0xFF4B) ==> {
            let (m2, cs2, ih2) = spec_write_byte(m, cs, ih, address, byte);
            spec_fetch_byte(m2, ih2, address) == byte
        },
        ({
            let (m2, cs2, ih2) = spec_write_byte(m, cs, ih, 0xFF41, byte);
            spec_fetch_byte(m2, ih2, 0xFF41) & 0x78 == byte & 0x78
        }),
        ({
            let (m2, cs2, ih2) = spec_write_byte(m, cs, ih, 0xFF46, byte);
            &&& cs2 == CpuState::DMA
            &&& m2.dma_source == byte
            &&& m2.dma_iterator == 0
        }),
        0xFF80 <= address <= 0xFFFE && m.hram.len() == 0x7F ==> {
            let (m2, cs2, ih2) = spec_write_byte(m, cs, ih, address, byte);
            spec_fetch_byte(m2, ih2, address) == byte
        },
{
    assert((0x87 | (byte & 0x78)) & 0x78 == byte & 0x78) by (bit_vector);
}

} // verus!
