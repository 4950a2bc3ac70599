use vstd::prelude::*;

use crate::cpu::instructions::{execute_step, jumps_step, returns_step, stack_step};
use crate::cpu_registers::{carry_flag, half_carry_flag, n_flag, with_carry, with_half, with_zero, word, wrap16, wrap8, zero_flag, CpuRegisters};
use crate::custom_errors::EmulationError;
use crate::hdma_controller::HdmaController;
use crate::interrupt_handler::{Interrupt, InterruptHandler};
use crate::mmu::{mmu_wf, ppu_vram_write, spec_fetch_byte, spec_write_byte, Mmu, MmuView};
use crate::ppu::{spec_ppu_tick, PpuModes, PpuView};
use crate::timer;

pub mod cb_instructions;
pub mod cpu_registers;
pub mod instruction_laws;
pub mod instructions;
pub mod memory_mapper;

verus! {

/// What the CPU is doing besides running instructions.
#[derive(PartialEq, Eq, Structural, Clone, Copy, Debug)]
pub enum CpuState {
    NonBoot,
    Stopped,
    DMA,
    Halt,
}

/// Whether bit `bit_index` of `num` is one.
pub open spec fn bit_of(num: u8, bit_index: u8) -> bool {
    (num >> bit_index) & 1 == 1
}

/// Reports whether bit `bit_index` (0 is the least significant) of `num` is set.
pub fn is_bit_set(num: u8, bit_index: u8) -> (r: bool)
    requires
        bit_index < 8,
    ensures
        r == bit_of(num, bit_index),
        r == ((num as nat / pow2_u8(bit_index)) % 2 == 1),
{
    proof {
        lemma_bit_of_div(num, bit_index);
    }
    ((num >> bit_index) & 1) > 0
}

/// `2^i` for the eight bit positions of a byte.
pub open spec fn pow2_u8(i: u8) -> nat {
    if i == 0 { 1 } else if i == 1 { 2 } else if i == 2 { 4 } else if i == 3 { 8 }
    else if i == 4 { 16 } else if i == 5 { 32 } else if i == 6 { 64 } else { 128 }
}

proof fn lemma_byte_bits(num: u8)
    by (bit_vector)
    ensures
        ((num >> 0u8) & 1) == 1 <==> (num / 1) % 2 == 1,
        ((num >> 1u8) & 1) == 1 <==> (num / 2) % 2 == 1,
        ((num >> 2u8) & 1) == 1 <==> (num / 4) % 2 == 1,
        ((num >> 3u8) & 1) == 1 <==> (num / 8) % 2 == 1,
        ((num >> 4u8) & 1) == 1 <==> (num / 16) % 2 == 1,
        ((num >> 5u8) & 1) == 1 <==> (num / 32) % 2 == 1,
        ((num >> 6u8) & 1) == 1 <==> (num / 64) % 2 == 1,
        ((num >> 7u8) & 1) == 1 <==> (num / 128) % 2 == 1,
        forall|i: u8| ((num >> i) & 1) > 0 <==> ((num >> i) & 1) == 1,
{
}

proof fn lemma_bit_of_div(num: u8, i: u8)
    requires
        i < 8,
    ensures
        bit_of(num, i) == ((num as nat / pow2_u8(i)) % 2 == 1),
        bit_of(num, i) == (((num >> i) & 1) > 0),
{
    lemma_byte_bits(num);
}


/// The Game Boy CPU. It decodes and runs instructions and, one m-cycle at a time, drives the
/// other components (PPU, DMA, HDMA, timer) through `tick`.
pub struct Cpu {
    pub state: CpuState,
    pub mmu: Mmu,
    pub pc: u16,
    pub sp: u16,
    pub interrupt_handler: InterruptHandler,
    pub registers: CpuRegisters,
    /// The t-cycles spent so far by the current instruction.
    pub delta_t_cycles: i32,
    pub halt_bug: bool,
    pub enable_interrupts_next_tick: bool,
    /// Counts m-cycles; in double speed mode the PPU runs on every second one.
    pub double_speed_delta_counter: u8,
}

/// The state of a `Cpu`, with the memory map by its view.
pub struct CpuView {
    pub state: CpuState,
    pub mmu: MmuView,
    pub pc: u16,
    pub sp: u16,
    pub ih: InterruptHandler,
    pub registers: CpuRegisters,
    pub delta_t_cycles: i32,
    pub halt_bug: bool,
    pub enable_interrupts_next_tick: bool,
    pub double_speed_delta_counter: u8,
}

impl View for Cpu {
    type V = CpuView;

    open spec fn view(&self) -> CpuView {
        CpuView {
            state: self.state,
            mmu: self.mmu@,
            pc: self.pc,
            sp: self.sp,
            ih: self.interrupt_handler,
            registers: self.registers,
            delta_t_cycles: self.delta_t_cycles,
            halt_bug: self.halt_bug,
            enable_interrupts_next_tick: self.enable_interrupts_next_tick,
            double_speed_delta_counter: self.double_speed_delta_counter,
        }
    }
}

/// An active HDMA transfer has at least one block left, and its remaining blocks stay within
/// the address space and within VRAM.
pub open spec fn hdma_wf(h: HdmaController) -> bool {
    h.is_active ==> {
        &&& 1 <= h.length
        &&& h.iterator_hdma + 16 * h.length <= 0xFFFF
        &&& h.destination_hdma + 16 * h.length <= 0x2000
    }
}

/// The states the machine keeps to between m-cycles.
pub open spec fn cpu_wf(c: CpuView) -> bool {
    mmu_wf(c.mmu) && hdma_wf(c.mmu.hdma_controller) && 0 <= c.delta_t_cycles
}

/// Whether `r` is what `expected` describes: the same error, or success with the machine in
/// the expected state.
pub open spec fn outcome(r: Result<(), EmulationError>, after: CpuView, expected: Result<CpuView, EmulationError>) -> bool {
    match expected {
        Ok(c) => r is Ok && after == c,
        Err(e) => r == Err::<(), EmulationError>(e),
    }
}

/// As `outcome`, for steps that also produce a value.
pub open spec fn outcome_with<T>(
    r: Result<T, EmulationError>,
    after: CpuView,
    expected: Result<(CpuView, T), EmulationError>,
) -> bool {
    match expected {
        Ok((c, v)) => r == Ok::<T, EmulationError>(v) && after == c,
        Err(e) => r == Err::<T, EmulationError>(e),
    }
}

/// The reads the emulator cannot serve: the CGB palette data while its index is past the
/// 64 palette bytes.
pub open spec fn read_fault(m: MmuView, address: u16) -> Option<EmulationError> {
    if address == 0xFF69 && m.ppu.bg_palette_index >= 64 {
        Some(EmulationError::BgPaletteIndexOutOfRange)
    } else if address == 0xFF6B && m.ppu.sprite_palette_index >= 64 {
        Some(EmulationError::SpritePaletteIndexOutOfRange)
    } else {
        None
    }
}

/// A read of `address` on the bus.
#[verifier::opaque]
pub open spec fn bus_read(c: CpuView, address: u16) -> Result<u8, EmulationError> {
    match read_fault(c.mmu, address) {
        Some(e) => Err(e),
        None => Ok(spec_fetch_byte(c.mmu, c.ih, address)),
    }
}

/// A write of `byte` to `address` on the bus.
#[verifier::opaque]
pub open spec fn bus_write(c: CpuView, address: u16, byte: u8) -> CpuView {
    let (m, cs, ih) = spec_write_byte(c.mmu, c.state, c.ih, address, byte);
    CpuView { mmu: m, state: cs, ih, ..c }
}

/// One PPU dot.
#[verifier::opaque]
pub open spec fn dot_step(c: CpuView) -> CpuView {
    let (p, ih) = spec_ppu_tick(c.mmu.ppu, c.ih);
    CpuView { mmu: MmuView { ppu: p, ..c.mmu }, ih, ..c }
}

/// The first `k` bytes of an HDMA block: each is read at the source and written to VRAM,
/// and both addresses move on by one.
pub open spec fn hdma_copy(m: MmuView, ih: InterruptHandler, k: nat) -> Result<MmuView, EmulationError>
    decreases k,
{
    if k == 0 {
        Ok(m)
    } else {
        match hdma_copy(m, ih, (k - 1) as nat) {
            Err(e) => Err(e),
            Ok(m1) => {
                let h = m1.hdma_controller;
                match read_fault(m1, h.iterator_hdma) {
                    Some(e) => Err(e),
                    None => Ok(
                        MmuView {
                            ppu: ppu_vram_write(
                                m1.ppu,
                                h.destination_hdma as int,
                                spec_fetch_byte(m1, ih, h.iterator_hdma),
                            ),
                            hdma_controller: HdmaController {
                                iterator_hdma: (h.iterator_hdma + 1) as u16,
                                destination_hdma: (h.destination_hdma + 1) as u16,
                                ..h
                            },
                            ..m1
                        },
                    ),
                }
            },
        }
    }
}

/// One HDMA step: while a transfer is active, one block of 16 bytes.
#[verifier::opaque]
pub open spec fn hdma_step(c: CpuView) -> Result<CpuView, EmulationError> {
    let h = c.mmu.hdma_controller;
    if !h.is_active {
        Ok(c)
    } else {
        let m0 = MmuView { hdma_controller: HdmaController { length: (h.length - 1) as u8, ..h }, ..c.mmu };
        match hdma_copy(m0, c.ih, 16) {
            Err(e) => Err(e),
            Ok(m1) => {
                let m2 = if m1.hdma_controller.length == 0 {
                    MmuView {
                        hdma_controller: HdmaController { is_active: false, length: 0xFF, ..m1.hdma_controller },
                        ..m1
                    }
                } else {
                    m1
                };
                Ok(CpuView { mmu: m2, ..c })
            },
        }
    }
}

/// The address an OAM DMA transfer reads next.
pub open spec fn dma_address(m: MmuView) -> u16 {
    ((m.dma_source as u16) << 8u16) | (m.dma_iterator as u16)
}

/// One OAM DMA step: while a transfer runs, one byte is copied into OAM; after the 160th the
/// transfer ends.
#[verifier::opaque]
pub open spec fn dma_step(c: CpuView) -> Result<CpuView, EmulationError> {
    if c.state != CpuState::DMA {
        Ok(c)
    } else if c.mmu.dma_iterator > 159 {
        Ok(CpuView { state: CpuState::NonBoot, mmu: MmuView { dma_iterator: 0, ..c.mmu }, ..c })
    } else {
        match bus_read(c, dma_address(c.mmu)) {
            Err(e) => Err(e),
            Ok(b) => Ok(
                CpuView {
                    mmu: MmuView {
                        ppu: PpuView { oam_ram: c.mmu.ppu.oam_ram.update(c.mmu.dma_iterator as int, b), ..c.mmu.ppu },
                        dma_iterator: (c.mmu.dma_iterator + 1) as u8,
                        ..c.mmu
                    },
                    ..c
                },
            ),
        }
    }
}

/// Whether the PPU runs on this m-cycle: always at normal speed, every second one at double speed.
pub open spec fn ppu_runs(c: CpuView) -> bool {
    !bit_of(c.mmu.key1, 7) || c.double_speed_delta_counter % 2 == 0
}

/// Four PPU dots, then an HDMA block if the PPU has just entered horizontal blank.
#[verifier::opaque]
pub open spec fn ppu_phase(c: CpuView) -> Result<CpuView, EmulationError> {
    let c4 = dot_step(dot_step(dot_step(dot_step(c))));
    if c4.mmu.ppu.mode == PpuModes::HBlank && c.mmu.ppu.mode != PpuModes::HBlank {
        hdma_step(c4)
    } else {
        Ok(c4)
    }
}

/// The timer's m-cycle, then a pending EI takes effect.
#[verifier::opaque]
pub open spec fn timer_and_ei(c: CpuView) -> CpuView {
    let (t, irq) = timer::spec_tick(c.mmu.timer);
    let ih = if irq { c.ih.requested(Interrupt::Timer) } else { c.ih };
    let c1 = CpuView { mmu: MmuView { timer: t, ..c.mmu }, ih, ..c };
    if c1.enable_interrupts_next_tick {
        CpuView { ih: InterruptHandler { enabled: true, ..c1.ih }, enable_interrupts_next_tick: false, ..c1 }
    } else {
        c1
    }
}

/// One m-cycle of the whole machine: four t-cycles are counted, the PPU (and HDMA) run when
/// the speed mode lets them, then OAM DMA, the timer and a delayed EI.
#[verifier::opaque]
pub open spec fn machine_tick(c: CpuView) -> Result<CpuView, EmulationError> {
    let c1 = CpuView { delta_t_cycles: (c.delta_t_cycles + 4) as i32, ..c };
    let phased = if ppu_runs(c1) { ppu_phase(c1) } else { Ok(c1) };
    match phased {
        Err(e) => Err(e),
        Ok(c2) => match dma_step(
            CpuView {
                double_speed_delta_counter: if c2.double_speed_delta_counter == 255 {
                    0
                } else {
                    (c2.double_speed_delta_counter + 1) as u8
                },
                ..c2
            },
        ) {
            Err(e) => Err(e),
            Ok(c3) => Ok(timer_and_ei(c3)),
        },
    }
}


/// The byte at PC is read, the machine runs an m-cycle and PC moves on; after a HALT bug it
/// stays, once.
pub open spec fn pc_fetch(c: CpuView) -> Result<(CpuView, u8), EmulationError> {
    match bus_read(c, c.pc) {
        Err(e) => Err(e),
        Ok(b) => match machine_tick(c) {
            Err(e) => Err(e),
            Ok(c1) => {
                let pc1 = wrap16(c1.pc + 1);
                if !c1.halt_bug {
                    Ok((CpuView { pc: pc1, ..c1 }, b))
                } else if pc1 == 0 {
                    Err(EmulationError::ProgramCounterUnderflow)
                } else {
                    Ok((CpuView { pc: (pc1 - 1) as u16, halt_bug: false, ..c1 }, b))
                }
            },
        },
    }
}

/// Two bytes at PC, low byte first.
pub open spec fn word_fetch(c: CpuView) -> Result<(CpuView, u16), EmulationError> {
    match pc_fetch(c) {
        Err(e) => Err(e),
        Ok((c1, lo)) => match pc_fetch(c1) {
            Err(e) => Err(e),
            Ok((c2, hi)) => Ok((c2, word(hi, lo))),
        },
    }
}

/// Pushes `value` on the stack, high byte first, an m-cycle per byte.
pub open spec fn stack_push(c: CpuView, value: u16) -> Result<CpuView, EmulationError> {
    let c1 = CpuView { sp: wrap16(c.sp - 1), ..c };
    match machine_tick(bus_write(c1, c1.sp, (value / 256) as u8)) {
        Err(e) => Err(e),
        Ok(c2) => {
            let c3 = CpuView { sp: wrap16(c2.sp - 1), ..c2 };
            machine_tick(bus_write(c3, c3.sp, (value % 256) as u8))
        },
    }
}

/// Pops a word from the stack, low byte first, an m-cycle before each byte.
pub open spec fn stack_pop(c: CpuView) -> Result<(CpuView, u16), EmulationError> {
    match machine_tick(c) {
        Err(e) => Err(e),
        Ok(c1) => match bus_read(c1, c1.sp) {
            Err(e) => Err(e),
            Ok(lo) => match machine_tick(CpuView { sp: wrap16(c1.sp + 1), ..c1 }) {
                Err(e) => Err(e),
                Ok(c2) => match bus_read(c2, c2.sp) {
                    Err(e) => Err(e),
                    Ok(hi) => Ok((CpuView { sp: wrap16(c2.sp + 1), ..c2 }, word(hi, lo))),
                },
            },
        },
    }
}

/// RET: PC from the stack, then an m-cycle.
pub open spec fn ret_step(c: CpuView) -> Result<CpuView, EmulationError> {
    match stack_pop(c) {
        Err(e) => Err(e),
        Ok((c1, w)) => machine_tick(CpuView { pc: w, ..c1 }),
    }
}

/// RST: PC to the stack, a jump to `address`, then an m-cycle.
pub open spec fn rst_step(c: CpuView, address: u16) -> Result<CpuView, EmulationError> {
    match stack_push(c, c.pc) {
        Err(e) => Err(e),
        Ok(c1) => machine_tick(CpuView { pc: address, ..c1 }),
    }
}

/// CALL: the target is fetched, and called when `condition` holds.
pub open spec fn call_step(c: CpuView, condition: bool) -> Result<CpuView, EmulationError> {
    match word_fetch(c) {
        Err(e) => Err(e),
        Ok((c1, address)) => if condition { rst_step(c1, address) } else { Ok(c1) },
    }
}

/// JP: the target is fetched, and jumped to (with an m-cycle) when `condition` holds.
pub open spec fn jp_step(c: CpuView, condition: bool) -> Result<CpuView, EmulationError> {
    match word_fetch(c) {
        Err(e) => Err(e),
        Ok((c1, address)) => if condition { machine_tick(CpuView { pc: address, ..c1 }) } else { Ok(c1) },
    }
}

/// PC moved by the signed byte `offset`.
pub open spec fn relative_target(pc: u16, offset: u8) -> u16 {
    ((pc as i32) + ((offset as i8) as i32)) as u16
}

/// JR: the offset is fetched, and jumped by (with an m-cycle) when `condition` holds.
pub open spec fn jr_step(c: CpuView, condition: bool) -> Result<CpuView, EmulationError> {
    match pc_fetch(c) {
        Err(e) => Err(e),
        Ok((c1, offset)) => if condition {
            machine_tick(CpuView { pc: relative_target(c1.pc, offset), ..c1 })
        } else {
            Ok(c1)
        },
    }
}

/// DAA: corrects A to a binary coded decimal after an addition or a subtraction.
pub open spec fn daa_result(r: CpuRegisters) -> CpuRegisters {
    let r2 = if !n_flag(r.f) {
        let r1 = if carry_flag(r.f) || r.a > 0x99 {
            CpuRegisters { a: wrap8(r.a + 0x60), f: with_carry(r.f, true), ..r }
        } else {
            r
        };
        if half_carry_flag(r1.f) || (r1.a & 0x0F) > 0x9 {
            CpuRegisters { a: wrap8(r1.a + 0x6), ..r1 }
        } else {
            r1
        }
    } else {
        let r1 = if carry_flag(r.f) { CpuRegisters { a: wrap8(r.a - 0x60), ..r } } else { r };
        if half_carry_flag(r1.f) {
            CpuRegisters { a: wrap8(r1.a - 0x6), ..r1 }
        } else {
            r1
        }
    };
    CpuRegisters { f: with_half(with_zero(r2.f, r2.a == 0), false), ..r2 }
}

/// The interrupts in the order they are served.
pub open spec fn interrupt_at(i: int) -> Interrupt {
    if i == 0 {
        Interrupt::Vblank
    } else if i == 1 {
        Interrupt::Stat
    } else if i == 2 {
        Interrupt::Timer
    } else if i == 3 {
        Interrupt::Serial
    } else {
        Interrupt::Joypad
    }
}

/// Serving `it` when it is requested and enabled and IME is set: its IF bit is cleared, PC is
/// pushed, the CPU jumps to its vector and IME is cleared.
pub open spec fn serve(c: CpuView, it: Interrupt) -> Result<CpuView, EmulationError> {
    let mask = it.spec_mask();
    if mask & c.ih.IF > 0 && mask & c.ih.IE > 0 && c.ih.enabled {
        let c1 = CpuView { ih: c.ih.unrequested(it), ..c };
        match stack_push(c1, c1.pc) {
            Err(e) => Err(e),
            Ok(c2) => Ok(
                CpuView { pc: it.spec_jump_vector(), ih: InterruptHandler { enabled: false, ..c2.ih }, ..c2 },
            ),
        }
    } else {
        Ok(c)
    }
}

/// The first `k` interrupts, in priority order, each served if it can be.
pub open spec fn serve_interrupts(c: CpuView, k: nat) -> Result<CpuView, EmulationError>
    decreases k,
{
    if k == 0 {
        Ok(c)
    } else {
        match serve_interrupts(c, (k - 1) as nat) {
            Err(e) => Err(e),
            Ok(c1) => serve(c1, interrupt_at(k - 1)),
        }
    }
}

/// Interrupts are looked at while IME is set and some interrupt is enabled.
pub open spec fn serve_if_enabled(c: CpuView) -> Result<CpuView, EmulationError> {
    if c.ih.enabled && c.ih.IE > 0 {
        serve_interrupts(c, 5)
    } else {
        Ok(c)
    }
}

/// The end of a cycle: the t-cycles it took are handed back and the count starts again.
pub open spec fn finish_cycle(r: Result<CpuView, EmulationError>) -> Result<(CpuView, i32), EmulationError> {
    match r {
        Err(e) => Err(e),
        Ok(c) => Ok((CpuView { delta_t_cycles: 0, ..c }, c.delta_t_cycles)),
    }
}

/// One cycle of the CPU. Halted, it checks for the HALT bug, runs an m-cycle and leaves
/// HALT when an interrupt is pending; otherwise it fetches and runs one instruction. Then
/// interrupts are served, and the t-cycles spent are handed back.
#[verifier::opaque]
pub open spec fn cycle_step(c: CpuView) -> Result<(CpuView, i32), EmulationError> {
    if c.state == CpuState::Halt {
        let c1 = if !c.ih.enabled && c.ih.spec_pending() {
            CpuView { state: CpuState::NonBoot, halt_bug: true, ..c }
        } else {
            c
        };
        match machine_tick(c1) {
            Err(e) => Err(e),
            Ok(c2) => {
                let c3 = if c2.ih.spec_pending() { CpuView { state: CpuState::NonBoot, ..c2 } } else { c2 };
                finish_cycle(serve_if_enabled(c3))
            },
        }
    } else {
        match pc_fetch(c) {
            Err(e) => Err(e),
            Ok((c1, op)) => match execute_step(c1, op) {
                Err(e) => Err(e),
                Ok(c2) => finish_cycle(serve_if_enabled(c2)),
            },
        }
    }
}

/// The registers as the boot ROM leaves them.
pub open spec fn boot_registers() -> CpuRegisters {
    CpuRegisters { a: 0x11, b: 0, c: 0x13, d: 0, e: 0xD8, f: 0xB0, h: 0x1, l: 0x4D }
}

/// The machine as the boot ROM leaves it, around the memory map `m`: registers, PC at
/// 0x100, SP at 0xFFFE and the LCD switched on.
pub open spec fn cpu_at_boot(m: MmuView) -> CpuView {
    CpuView {
        state: CpuState::NonBoot,
        mmu: MmuView { ppu: PpuView { lcdc: 0x80, ..m.ppu }, ..m },
        pc: 0x100,
        sp: 0xFFFE,
        ih: InterruptHandler { enabled: false, IF: 0, IE: 0 },
        registers: boot_registers(),
        delta_t_cycles: 0,
        halt_bug: false,
        enable_interrupts_next_tick: false,
        double_speed_delta_counter: 0,
    }
}

/// Once serving an interrupt fails, serving all of them fails with the same error.
proof fn lemma_serve_fails(c: CpuView, i: nat, j: nat, e: EmulationError)
    requires
        i <= j,
        serve_interrupts(c, i) == Err::<CpuView, EmulationError>(e),
    ensures
        serve_interrupts(c, j) == Err::<CpuView, EmulationError>(e),
    decreases j - i,
{
    if i < j {
        lemma_serve_fails(c, i, (j - 1) as nat, e);
    }
}

/// Once a byte of an HDMA block fails, the whole block fails with the same error.
proof fn lemma_hdma_copy_fails(m: MmuView, ih: InterruptHandler, i: nat, j: nat, e: EmulationError)
    requires
        i <= j,
        hdma_copy(m, ih, i) == Err::<MmuView, EmulationError>(e),
    ensures
        hdma_copy(m, ih, j) == Err::<MmuView, EmulationError>(e),
    decreases j - i,
{
    if i < j {
        lemma_hdma_copy_fails(m, ih, i, (j - 1) as nat, e);
    }
}

proof fn lemma_word_parts(hi: u8, lo: u8, w: u16)
    by (bit_vector)
    ensures
        ((hi as u16) << 8u16) | (lo as u16) == ((hi as u16) * 256u16 + (lo as u16)) as u16,
        (w >> 8u16) as u8 == (w / 256u16) as u8,
        w as u8 == (w % 256u16) as u8,
{
}

impl Cpu {
    /// Whether the machine is in a state it keeps to between m-cycles (`cpu_wf`): the one a
    /// restored snapshot has to be in before it runs.
    pub fn is_well_formed(&self) -> (r: bool)
        ensures
            r == cpu_wf(self@),
    {
        let h = &self.mmu.hdma_controller;
        let hdma_ok = !h.is_active || (1 <= h.length && h.iterator_hdma as u32 + 16 * (h.length as u32) <= 0xFFFF
            && h.destination_hdma as u32 + 16 * (h.length as u32) <= 0x2000);
        self.mmu.is_well_formed() && hdma_ok && 0 <= self.delta_t_cycles
    }

    /// Reads `address`, or reports the read the emulator cannot serve.
    fn read(&mut self, address: u16) -> (r: Result<u8, EmulationError>)
        requires
            mmu_wf(old(self).mmu@),
        ensures
            r == bus_read(old(self)@, address),
            *final(self) == *old(self),
    {
        proof {
            reveal(bus_read);
        }
        if address == 0xFF69 && self.mmu.ppu.bg_palette_index >= 64 {
            return Err(EmulationError::BgPaletteIndexOutOfRange);
        }
        if address == 0xFF6B && self.mmu.ppu.sprite_palette_index >= 64 {
            return Err(EmulationError::SpritePaletteIndexOutOfRange);
        }
        Ok(self.mmu.fetch_byte(address, &self.state, &mut self.interrupt_handler))
    }

    /// Writes `byte` to `address`.
    fn write(&mut self, address: u16, byte: u8)
        requires
            cpu_wf(old(self)@),
        ensures
            final(self)@ == bus_write(old(self)@, address, byte),
            cpu_wf(final(self)@),
            final(self).delta_t_cycles == old(self).delta_t_cycles,
    {
        proof {
            reveal(bus_write);
        }
        self.mmu.write_byte(address, byte, &mut self.state, &mut self.interrupt_handler);
    }

    /// Transfers one byte of OAM DMA while a transfer is active.
    fn tick_dma(&mut self) -> (r: Result<(), EmulationError>)
        requires
            cpu_wf(old(self)@),
        ensures
            outcome(r, final(self)@, dma_step(old(self)@)),
            r is Ok ==> cpu_wf(final(self)@),
            r is Ok ==> final(self).delta_t_cycles == old(self).delta_t_cycles,
    {
        proof {
            reveal(dma_step);
            reveal(bus_read);
        }
        if self.state != CpuState::DMA {
            return Ok(());
        }
        if self.mmu.dma_iterator > 159 {
            self.state = CpuState::NonBoot;
            self.mmu.dma_iterator = 0;
            return Ok(());
        }
        let address: u16 = ((self.mmu.dma_source as u16) << 8) | self.mmu.dma_iterator as u16;
        let dma_byte = self.read(address)?;
        let destination = self.mmu.dma_iterator as usize;
        self.mmu.ppu.oam_ram[destination] = dma_byte;
        self.mmu.dma_iterator = self.mmu.dma_iterator + 1;
        Ok(())
    }

    /// Copies the 16 bytes of one HDMA block.
    fn hdma_copy_block(&mut self) -> (r: Result<(), EmulationError>)
        requires
            mmu_wf(old(self)@.mmu),
            old(self).mmu.hdma_controller.iterator_hdma + 16 <= 0xFFFF,
            old(self).mmu.hdma_controller.destination_hdma + 16 <= 0x2000,
        ensures
            match hdma_copy(old(self)@.mmu, old(self).interrupt_handler, 16) {
                Ok(m) => r is Ok && final(self)@ == (CpuView { mmu: m, ..old(self)@ }),
                Err(e) => r == Err::<(), EmulationError>(e),
            },
            r is Ok ==> mmu_wf(final(self)@.mmu),
            r is Ok ==> final(self).mmu.hdma_controller == (HdmaController {
                iterator_hdma: (old(self).mmu.hdma_controller.iterator_hdma + 16) as u16,
                destination_hdma: (old(self).mmu.hdma_controller.destination_hdma + 16) as u16,
                ..old(self).mmu.hdma_controller
            }),
    {
        proof {
            reveal(bus_read);
        }
        let ghost c0 = self@;
        let mut i: u8 = 0;
        while i < 16
            invariant
                i <= 16,
                c0 == old(self)@,
                hdma_copy(c0.mmu, c0.ih, i as nat) == Ok::<MmuView, EmulationError>(self@.mmu),
                self@ == (CpuView { mmu: self@.mmu, ..c0 }),
                mmu_wf(self@.mmu),
                self.mmu.hdma_controller == (HdmaController {
                    iterator_hdma: (c0.mmu.hdma_controller.iterator_hdma + i) as u16,
                    destination_hdma: (c0.mmu.hdma_controller.destination_hdma + i) as u16,
                    ..c0.mmu.hdma_controller
                }),
                c0.mmu.hdma_controller.iterator_hdma + 16 <= 0xFFFF,
                c0.mmu.hdma_controller.destination_hdma + 16 <= 0x2000,
            decreases 16 - i,
        {
            proof {
                reveal(bus_read);
            }
            let byte = match self.read(self.mmu.hdma_controller.iterator_hdma) {
                Ok(b) => b,
                Err(e) => {
                    proof {
                        assert(hdma_copy(c0.mmu, c0.ih, (i + 1) as nat) == Err::<MmuView, EmulationError>(e));
                        lemma_hdma_copy_fails(c0.mmu, c0.ih, (i + 1) as nat, 16, e);
                    }
                    return Err(e);
                },
            };
            self.mmu.ppu.write_vram(self.mmu.hdma_controller.destination_hdma, byte);
            self.mmu.hdma_controller.iterator_hdma = self.mmu.hdma_controller.iterator_hdma + 1;
            self.mmu.hdma_controller.destination_hdma = self.mmu.hdma_controller.destination_hdma + 1;
            i = i + 1;
        }
        Ok(())
    }

    /// Transfers one 16-byte block while an HDMA transfer is active.
    fn tick_hdma(&mut self) -> (r: Result<(), EmulationError>)
        requires
            cpu_wf(old(self)@),
        ensures
            outcome(r, final(self)@, hdma_step(old(self)@)),
            r is Ok ==> cpu_wf(final(self)@),
            r is Ok ==> final(self).delta_t_cycles == old(self).delta_t_cycles,
    {
        proof {
            reveal(hdma_step);
        }
        if !self.mmu.hdma_controller.is_active {
            return Ok(());
        }
        self.mmu.hdma_controller.length = self.mmu.hdma_controller.length - 1;
        self.hdma_copy_block()?;
        if self.mmu.hdma_controller.length == 0 {
            self.mmu.hdma_controller.is_active = false;
            self.mmu.hdma_controller.length = 0xFF;
        }
        Ok(())
    }

    /// One PPU dot.
    fn ppu_dot(&mut self)
        requires
            cpu_wf(old(self)@),
        ensures
            final(self)@ == dot_step(old(self)@),
            cpu_wf(final(self)@),
            final(self)@ == (CpuView { mmu: final(self)@.mmu, ih: final(self)@.ih, ..old(self)@ }),
            final(self)@.mmu == (MmuView { ppu: final(self)@.mmu.ppu, ..old(self)@.mmu }),
    {
        proof {
            reveal(dot_step);
        }
        self.mmu.ppu.tick(&mut self.interrupt_handler);
    }

    /// Four PPU dots, then an HDMA block if the PPU has just entered horizontal blank.
    fn run_ppu_phase(&mut self) -> (r: Result<(), EmulationError>)
        requires
            cpu_wf(old(self)@),
        ensures
            outcome(r, final(self)@, ppu_phase(old(self)@)),
            r is Ok ==> cpu_wf(final(self)@),
            r is Ok ==> final(self).delta_t_cycles == old(self).delta_t_cycles,
    {
        proof {
            reveal(ppu_phase);
        }
        let ppu_was_in_hblank = self.mmu.ppu.mode == PpuModes::HBlank;
        self.ppu_dot();
        self.ppu_dot();
        self.ppu_dot();
        self.ppu_dot();
        if self.mmu.ppu.mode == PpuModes::HBlank && !ppu_was_in_hblank {
            self.tick_hdma()?;
        }
        Ok(())
    }

    /// Runs every component for one m-cycle (four t-cycles).
    fn tick(&mut self) -> (r: Result<(), EmulationError>)
        requires
            cpu_wf(old(self)@),
            old(self).delta_t_cycles <= i32::MAX - 4,
        ensures
            outcome(r, final(self)@, machine_tick(old(self)@)),
            r is Ok ==> cpu_wf(final(self)@),
            r is Ok ==> final(self).delta_t_cycles == old(self).delta_t_cycles + 4,
    {
        proof {
            reveal(machine_tick);
        }
        self.delta_t_cycles = self.delta_t_cycles + 4;
        let double_speed = is_bit_set(self.mmu.key1, 7);
        if !double_speed || (double_speed && self.double_speed_delta_counter % 2 == 0) {
            self.run_ppu_phase()?;
        }
        self.double_speed_delta_counter = self.double_speed_delta_counter.wrapping_add(1);
        self.tick_dma()?;
        self.tick_timer_and_ei();
        Ok(())
    }

    /// The timer's m-cycle, then a pending EI takes effect.
    fn tick_timer_and_ei(&mut self)
        requires
            cpu_wf(old(self)@),
        ensures
            final(self)@ == timer_and_ei(old(self)@),
            cpu_wf(final(self)@),
            final(self).delta_t_cycles == old(self).delta_t_cycles,
    {
        proof {
            reveal(timer_and_ei);
        }
        self.mmu.timer.tick(&mut self.interrupt_handler);
        if self.enable_interrupts_next_tick {
            self.interrupt_handler.enabled = true;
            self.enable_interrupts_next_tick = false;
        }
    }

    /// Reads the byte at PC and moves PC on (one m-cycle).
    fn fetch_byte_pc(&mut self) -> (r: Result<u8, EmulationError>)
        requires
            cpu_wf(old(self)@),
            old(self).delta_t_cycles <= i32::MAX - 4,
        ensures
            outcome_with(r, final(self)@, pc_fetch(old(self)@)),
            r is Ok ==> cpu_wf(final(self)@),
            r is Ok ==> final(self).delta_t_cycles == old(self).delta_t_cycles + 4,
    {
        let byte = self.read(self.pc)?;
        self.tick()?;
        self.pc = self.pc.wrapping_add(1);
        if self.halt_bug {
            if self.pc == 0 {
                return Err(EmulationError::ProgramCounterUnderflow);
            }
            self.pc = self.pc - 1;
            self.halt_bug = false;
        }
        Ok(byte)
    }

    /// Reads the word at PC, low byte first, and moves PC past it (two m-cycles).
    pub fn fetch_word(&mut self) -> (r: Result<u16, EmulationError>)
        requires
            cpu_wf(old(self)@),
            old(self).delta_t_cycles <= i32::MAX - 8,
        ensures
            outcome_with(r, final(self)@, word_fetch(old(self)@)),
            r is Ok ==> cpu_wf(final(self)@),
            r is Ok ==> final(self).delta_t_cycles == old(self).delta_t_cycles + 8,
    {
        let fetch_byte_lower = self.fetch_byte_pc()?;
        let fetch_byte_high = self.fetch_byte_pc()?;
        proof {
            lemma_word_parts(fetch_byte_high, fetch_byte_lower, 0);
        }
        Ok((fetch_byte_high as u16) << 8 | fetch_byte_lower as u16)
    }

    fn push_u16_to_stack(&mut self, value_to_push: u16) -> (r: Result<(), EmulationError>)
        requires
            cpu_wf(old(self)@),
            old(self).delta_t_cycles <= i32::MAX - 8,
        ensures
            outcome(r, final(self)@, stack_push(old(self)@, value_to_push)),
            r is Ok ==> cpu_wf(final(self)@),
            r is Ok ==> final(self).delta_t_cycles == old(self).delta_t_cycles + 8,
    {
        proof {
            lemma_word_parts(0, 0, value_to_push);
        }
        self.sp = self.sp.wrapping_sub(1);
        self.write(self.sp, (value_to_push >> 8) as u8);
        self.tick()?;
        self.sp = self.sp.wrapping_sub(1);
        self.write(self.sp, value_to_push as u8);
        self.tick()
    }

    fn pop_u16_from_stack(&mut self) -> (r: Result<u16, EmulationError>)
        requires
            cpu_wf(old(self)@),
            old(self).delta_t_cycles <= i32::MAX - 8,
        ensures
            outcome_with(r, final(self)@, stack_pop(old(self)@)),
            r is Ok ==> cpu_wf(final(self)@),
            r is Ok ==> final(self).delta_t_cycles == old(self).delta_t_cycles + 8,
    {
        self.tick()?;
        let lower_byte = self.read(self.sp)?;
        self.sp = self.sp.wrapping_add(1);
        self.tick()?;
        let high_byte = self.read(self.sp)?;
        self.sp = self.sp.wrapping_add(1);
        proof {
            lemma_word_parts(high_byte, lower_byte, 0);
        }
        Ok((high_byte as u16) << 8 | lower_byte as u16)
    }

    /// Returns from a subroutine (three m-cycles).
    fn ret(&mut self) -> (r: Result<(), EmulationError>)
        requires
            cpu_wf(old(self)@),
            old(self).delta_t_cycles <= i32::MAX - 12,
        ensures
            outcome(r, final(self)@, ret_step(old(self)@)),
            r is Ok ==> cpu_wf(final(self)@),
            r is Ok ==> final(self).delta_t_cycles == old(self).delta_t_cycles + 12,
    {
        self.pc = self.pop_u16_from_stack()?;
        self.tick()
    }

    fn rst(&mut self, address: u16) -> (r: Result<(), EmulationError>)
        requires
            cpu_wf(old(self)@),
            old(self).delta_t_cycles <= i32::MAX - 12,
        ensures
            outcome(r, final(self)@, rst_step(old(self)@, address)),
            r is Ok ==> cpu_wf(final(self)@),
            r is Ok ==> final(self).delta_t_cycles == old(self).delta_t_cycles + 12,
    {
        self.push_u16_to_stack(self.pc)?;
        self.pc = address;
        self.tick()
    }

    /// Calls a subroutine when `condition` holds.
    fn call_u16(&mut self, condition: bool) -> (r: Result<(), EmulationError>)
        requires
            cpu_wf(old(self)@),
            old(self).delta_t_cycles <= i32::MAX - 20,
        ensures
            outcome(r, final(self)@, call_step(old(self)@, condition)),
            r is Ok ==> cpu_wf(final(self)@),
            r is Ok ==> final(self).delta_t_cycles <= old(self).delta_t_cycles + 20,
            r is Ok ==> old(self).delta_t_cycles <= final(self).delta_t_cycles,
    {
        let address = self.fetch_word()?;
        if condition {
            self.rst(address)?;
        }
        Ok(())
    }

    fn jp_u16(&mut self, condition: bool) -> (r: Result<(), EmulationError>)
        requires
            cpu_wf(old(self)@),
            old(self).delta_t_cycles <= i32::MAX - 12,
        ensures
            outcome(r, final(self)@, jp_step(old(self)@, condition)),
            r is Ok ==> cpu_wf(final(self)@),
            r is Ok ==> final(self).delta_t_cycles <= old(self).delta_t_cycles + 12,
            r is Ok ==> old(self).delta_t_cycles <= final(self).delta_t_cycles,
    {
        let address = self.fetch_word()?;
        if condition {
            self.pc = address;
            self.tick()?;
        }
        Ok(())
    }

    fn jr_i8(&mut self, jump_condition: bool) -> (r: Result<(), EmulationError>)
        requires
            cpu_wf(old(self)@),
            old(self).delta_t_cycles <= i32::MAX - 8,
        ensures
            outcome(r, final(self)@, jr_step(old(self)@, jump_condition)),
            r is Ok ==> cpu_wf(final(self)@),
            r is Ok ==> final(self).delta_t_cycles <= old(self).delta_t_cycles + 8,
            r is Ok ==> old(self).delta_t_cycles <= final(self).delta_t_cycles,
    {
        let offset = self.fetch_byte_pc()?;
        if jump_condition {
            self.pc = ((self.pc as i32) + ((offset as i8) as i32)) as u16;
            self.tick()?;
        }
        Ok(())
    }

    /// DAA.
    fn daa(&mut self)
        ensures
            final(self)@ == (CpuView { registers: daa_result(old(self).registers), ..old(self)@ }),
    {
        daa_registers(&mut self.registers);
    }

    /// Writes `word` to `address`, low byte first.
    fn store_word(&mut self, address: u16, word: u16)
        requires
            cpu_wf(old(self)@),
            address < 0xFFFF,
        ensures
            final(self)@ == bus_write(
                bus_write(old(self)@, address, (word % 256) as u8),
                (address + 1) as u16,
                (word / 256) as u8,
            ),
            cpu_wf(final(self)@),
            final(self).delta_t_cycles == old(self).delta_t_cycles,
    {
        proof {
            reveal(bus_write);
        }
        self.mmu.write_word(address, word, &mut self.state, &mut self.interrupt_handler);
    }

    /// A CPU around `mmu`, in the state the boot ROM leaves: registers, PC at 0x100, SP at
    /// 0xFFFE and the LCD switched on.
    pub fn new(mmu: Mmu) -> (cpu: Cpu)
        requires
            mmu_wf(mmu@),
            hdma_wf(mmu.hdma_controller),
        ensures
            cpu@ == cpu_at_boot(mmu@),
            cpu_wf(cpu@),
    {
        let mut cpu = Cpu {
            pc: 0,
            sp: 0,
            mmu,
            state: CpuState::NonBoot,
            delta_t_cycles: 0,
            registers: CpuRegisters::default(),
            interrupt_handler: InterruptHandler::new(),
            halt_bug: false,
            enable_interrupts_next_tick: false,
            double_speed_delta_counter: 0,
        };
        initialize_cpu_state_defaults(&mut cpu);
        cpu
    }

    /// Runs one cycle (an instruction, or an m-cycle while halted, then the interrupts) and
    /// returns the t-cycles it took.
    #[verifier::rlimit(50)]
    pub fn cycle(&mut self) -> (r: Result<i32, EmulationError>)
        requires
            cpu_wf(old(self)@),
            old(self).delta_t_cycles <= i32::MAX - 64,
        ensures
            outcome_with(r, final(self)@, cycle_step(old(self)@)),
            r is Ok ==> cpu_wf(final(self)@),
            r matches Ok(d) ==> old(self).delta_t_cycles + 4 <= d <= old(self).delta_t_cycles + 64,
            r is Ok ==> final(self).delta_t_cycles == 0,
    {
        proof {
            reveal(cycle_step);
        }
        if self.state == CpuState::Halt {
            if !self.interrupt_handler.enabled && self.interrupt_handler.is_interrupt_pending() {
                self.state = CpuState::NonBoot;
                self.halt_bug = true;
            }
            self.tick()?;
            if self.interrupt_handler.is_interrupt_pending() {
                self.state = CpuState::NonBoot;
            }
            if self.interrupt_handler.enabled && self.interrupt_handler.IE > 0 {
                self.handle_interrupts()?;
            }
            let instruction_delta_t_cycles = self.delta_t_cycles;
            self.delta_t_cycles = 0;
            return Ok(instruction_delta_t_cycles);
        }
        let first_byte = self.fetch_byte_pc()?;
        self.execute(first_byte)?;
        if self.interrupt_handler.enabled && self.interrupt_handler.IE > 0 {
            self.handle_interrupts()?;
        }
        let instruction_delta_t_cycles = self.delta_t_cycles;
        self.delta_t_cycles = 0;
        Ok(instruction_delta_t_cycles)
    }

    /// Serves, in priority order, each interrupt that is requested and enabled while IME is set.
    fn handle_interrupts(&mut self) -> (r: Result<(), EmulationError>)
        requires
            cpu_wf(old(self)@),
            old(self).delta_t_cycles <= i32::MAX - 40,
        ensures
            outcome(r, final(self)@, serve_interrupts(old(self)@, 5)),
            r is Ok ==> cpu_wf(final(self)@),
            r is Ok ==> final(self).delta_t_cycles <= old(self).delta_t_cycles + 40,
            r is Ok ==> old(self).delta_t_cycles <= final(self).delta_t_cycles,
    {
        let ghost c0 = self@;
        let mut i: usize = 0;
        while i < 5
            invariant
                i <= 5,
                c0 == old(self)@,
                c0.delta_t_cycles <= i32::MAX - 40,
                serve_interrupts(c0, i as nat) == Ok::<CpuView, EmulationError>(self@),
                cpu_wf(self@),
                self.delta_t_cycles <= c0.delta_t_cycles + 8 * i,
                c0.delta_t_cycles <= self.delta_t_cycles,
            decreases 5 - i,
        {
            let interrupt_type = interrupt_in_order(i);
            if interrupt_type.mask() & self.interrupt_handler.IF > 0 && interrupt_type.mask()
                & self.interrupt_handler.IE > 0 && self.interrupt_handler.enabled {
                self.interrupt_handler.unrequest_interrupt(&interrupt_type);
                match self.push_u16_to_stack(self.pc) {
                    Ok(()) => {},
                    Err(e) => {
                        proof {
                            lemma_serve_fails(c0, (i + 1) as nat, 5, e);
                        }
                        return Err(e);
                    },
                }
                self.pc = interrupt_type.jump_vector();
                self.interrupt_handler.enabled = false;
            }
            i = i + 1;
        }
        Ok(())
    }
}

/// The interrupt served `i`-th.
fn interrupt_in_order(i: usize) -> (it: Interrupt)
    requires
        i < 5,
    ensures
        it == interrupt_at(i as int),
{
    match i {
        0 => Interrupt::Vblank,
        1 => Interrupt::Stat,
        2 => Interrupt::Timer,
        3 => Interrupt::Serial,
        _ => Interrupt::Joypad,
    }
}

/// Puts the CPU in the state the boot ROM leaves.
fn initialize_cpu_state_defaults(cpu: &mut Cpu)
    ensures
        final(cpu)@ == (CpuView {
            state: CpuState::NonBoot,
            mmu: MmuView { ppu: PpuView { lcdc: 0x80, ..old(cpu)@.mmu.ppu }, ..old(cpu)@.mmu },
            pc: 0x100,
            sp: 0xFFFE,
            registers: CpuRegisters {
                a: 0x11,
                f: 0xB0,
                c: 0x13,
                e: 0xD8,
                h: 0x1,
                l: 0x4D,
                ..old(cpu).registers
            },
            ..old(cpu)@
        }),
{
    cpu.registers.a = 0x11;
    cpu.registers.f = 0xB0;
    cpu.registers.c = 0x13;
    cpu.registers.e = 0xD8;
    cpu.registers.h = 0x1;
    cpu.registers.l = 0x4D;
    cpu.pc = 0x100;
    cpu.sp = 0xfffe;
    cpu.state = CpuState::NonBoot;
    cpu.mmu.ppu.lcdc = 0b1000_0000;
}

proof fn lemma_wrap8_steps(x: u8, k: u8)
    ensures
        wrap8(x + k) == (if x + k > 255 { (x + k - 256) as u8 } else { (x + k) as u8 }),
        wrap8(x - k) == (if x < k { (x - k + 256) as u8 } else { (x - k) as u8 }),
{
}

/// DAA on the registers.
fn daa_registers(registers: &mut CpuRegisters)
    ensures
        *final(registers) == daa_result(*old(registers)),
{
    proof {
        lemma_wrap8_steps(registers.a, 0x60);
    }
    if !registers.is_n_flag_high() {
        if registers.is_carry_flag_high() || registers.a > 0x99 {
            registers.a = registers.a.wrapping_add(0x60);
            registers.set_carry_flag(true);
        }
        proof {
            lemma_wrap8_steps(registers.a, 0x6);
        }
        if registers.is_half_carry_flag_high() || (registers.a & 0x0F) > 0x9 {
            registers.a = registers.a.wrapping_add(0x6);
        }
    } else {
        if registers.is_carry_flag_high() {
            registers.a = registers.a.wrapping_sub(0x60);
        }
        proof {
            lemma_wrap8_steps(registers.a, 0x6);
        }
        if registers.is_half_carry_flag_high() {
            registers.a = registers.a.wrapping_sub(0x6);
        }
    }
    registers.set_zero_flag(registers.a == 0);
    registers.set_half_carry_flag(false);
}

/// Copying an HDMA block touches VRAM and the transfer registers only.
proof fn lemma_hdma_copy_keeps_ram(m: MmuView, ih: InterruptHandler, k: nat)
    ensures
        hdma_copy(m, ih, k) matches Ok(m2) ==> {
            &&& m2.wram_banks == m.wram_banks
            &&& m2.hram == m.hram
            &&& m2.wram_bank_index == m.wram_bank_index
        },
    decreases k,
{
    if k > 0 {
        lemma_hdma_copy_keeps_ram(m, ih, (k - 1) as nat);
    }
}

/// An m-cycle leaves the registers, PC, SP, work RAM and high RAM as they were.
pub proof fn lemma_tick_keeps_ram(c: CpuView)
    ensures
        machine_tick(c) matches Ok(c2) ==> {
            &&& c2.registers == c.registers
            &&& c2.pc == c.pc
            &&& c2.sp == c.sp
            &&& c2.halt_bug == c.halt_bug
            &&& (c.delta_t_cycles <= i32::MAX - 4 ==> c2.delta_t_cycles == c.delta_t_cycles + 4)
            &&& c2.mmu.wram_banks == c.mmu.wram_banks
            &&& c2.mmu.hram == c.mmu.hram
            &&& c2.mmu.wram_bank_index == c.mmu.wram_bank_index
        },
{
    reveal(machine_tick);
    reveal(ppu_phase);
    reveal(dot_step);
    reveal(hdma_step);
    reveal(dma_step);
    reveal(timer_and_ei);
    let c1 = CpuView { delta_t_cycles: (c.delta_t_cycles + 4) as i32, ..c };
    if ppu_runs(c1) {
        let c4 = dot_step(dot_step(dot_step(dot_step(c1))));
        let h = c4.mmu.hdma_controller;
        let m0 = MmuView { hdma_controller: HdmaController { length: (h.length - 1) as u8, ..h }, ..c4.mmu };
        lemma_hdma_copy_keeps_ram(m0, c4.ih, 16);
    }
}

/// The stack addresses a push or pop from `sp` uses lie in work RAM or in high RAM.
pub open spec fn stack_in_ram(sp: u16) -> bool {
    (0xC002 <= sp <= 0xFE00) || (0xFF82 <= sp <= 0xFFFF)
}

/// Work RAM (with its echo) and high RAM.
spec fn plain_ram_address(address: u16) -> bool {
    (0xC000 <= address <= 0xFDFF) || (0xFF80 <= address <= 0xFFFE)
}

/// The sizes of work RAM and high RAM, and a switchable bank from 1 to 7.
spec fn ram_shape(m: MmuView) -> bool {
    &&& m.hram.len() == 0x7F
    &&& m.wram_banks.len() == 8
    &&& forall|i: int| 0 <= i < 8 ==> (#[trigger] m.wram_banks[i]).len() == 0x2000
    &&& 1 <= m.wram_bank_index <= 7
}

/// A read depends on the memory map and the interrupt registers only.
proof fn lemma_read_frame(c: CpuView, d: CpuView, address: u16)
    requires
        c.mmu == d.mmu,
        c.ih == d.ih,
    ensures
        bus_read(c, address) == bus_read(d, address),
{
    reveal(bus_read);
}

/// A write to work RAM or high RAM reads back, leaves the next address alone and changes
/// only the memory.
proof fn lemma_plain_ram_write(c: CpuView, address: u16, byte: u8)
    requires
        ram_shape(c.mmu),
        plain_ram_address(address),
    ensures
        ({
            let c2 = bus_write(c, address, byte);
            &&& ram_shape(c2.mmu)
            &&& c2 == (CpuView { mmu: c2.mmu, ..c })
            &&& bus_read(c2, address) == Ok::<u8, EmulationError>(byte)
            &&& plain_ram_address((address + 1) as u16) && address < 0xFFFF ==> bus_read(c2, (address + 1) as u16)
                == bus_read(c, (address + 1) as u16)
        }),
{
    reveal(bus_read);
    reveal(bus_write);
}

/// An m-cycle does not change what work RAM and high RAM read, nor SP.
proof fn lemma_tick_keeps_reads(c: CpuView, address: u16)
    requires
        plain_ram_address(address),
    ensures
        machine_tick(c) matches Ok(c2) ==> {
            &&& bus_read(c2, address) == bus_read(c, address)
            &&& c2.sp == c.sp
            &&& ram_shape(c2.mmu) == ram_shape(c.mmu)
        },
{
    reveal(bus_read);
    lemma_tick_keeps_ram(c);
}

/// A push onto a stack in RAM writes the word just below SP, high byte on top, moves SP
/// down by two and leaves the registers, PC and the HALT bug as they were.
proof fn lemma_push_frame(c: CpuView, value: u16)
    requires
        ram_shape(c.mmu),
        stack_in_ram(c.sp),
    ensures
        stack_push(c, value) is Ok ==> {
            let c2 = stack_push(c, value)->Ok_0;
            &&& c2.sp == c.sp - 2
            &&& c2.registers == c.registers
            &&& c2.pc == c.pc
            &&& c2.halt_bug == c.halt_bug
            &&& ram_shape(c2.mmu)
            &&& bus_read(c2, c2.sp) == Ok::<u8, EmulationError>((value % 256) as u8)
            &&& bus_read(c2, (c2.sp + 1) as u16) == Ok::<u8, EmulationError>((value / 256) as u8)
        },
{
    let hi = (value / 256) as u8;
    let lo = (value % 256) as u8;
    let high_address = wrap16(c.sp - 1);
    let low_address = wrap16(c.sp - 2);
    assert(plain_ram_address(high_address) && plain_ram_address(low_address));
    assert(low_address + 1 == high_address);
    let c1 = CpuView { sp: high_address, ..c };
    lemma_plain_ram_write(c1, high_address, hi);
    let ca = bus_write(c1, high_address, hi);
    lemma_tick_keeps_reads(ca, high_address);
    lemma_tick_keeps_ram(ca);
    if machine_tick(ca) is Ok {
        let cb = machine_tick(ca)->Ok_0;
        let c3 = CpuView { sp: wrap16(cb.sp - 1), ..cb };
        lemma_read_frame(c3, cb, high_address);
        lemma_plain_ram_write(c3, low_address, lo);
        let cc = bus_write(c3, low_address, lo);
        lemma_tick_keeps_reads(cc, low_address);
        lemma_tick_keeps_reads(cc, high_address);
        lemma_tick_keeps_ram(cc);
    }
}

/// A pop from a stack in RAM gives the word at SP, low byte first, moves SP up by two and
/// leaves the registers, PC and the HALT bug as they were.
proof fn lemma_pop_frame(d: CpuView)
    requires
        ram_shape(d.mmu),
        plain_ram_address(d.sp),
        plain_ram_address((d.sp + 1) as u16),
        d.sp < 0xFFFF,
    ensures
        stack_pop(d) is Ok ==> {
            let (d2, w) = stack_pop(d)->Ok_0;
            &&& bus_read(d, d.sp) is Ok
            &&& bus_read(d, (d.sp + 1) as u16) is Ok
            &&& w == word(bus_read(d, (d.sp + 1) as u16)->Ok_0, bus_read(d, d.sp)->Ok_0)
            &&& d2.sp == d.sp + 2
            &&& d2.registers == d.registers
            &&& d2.pc == d.pc
            &&& d2.halt_bug == d.halt_bug
            &&& ram_shape(d2.mmu)
        },
{
    let low_address = d.sp;
    let high_address = (d.sp + 1) as u16;
    lemma_tick_keeps_reads(d, low_address);
    lemma_tick_keeps_reads(d, high_address);
    lemma_tick_keeps_ram(d);
    if machine_tick(d) is Ok {
        let d1 = machine_tick(d)->Ok_0;
        let e0 = CpuView { sp: wrap16(d1.sp + 1), ..d1 };
        lemma_read_frame(e0, d1, high_address);
        lemma_tick_keeps_reads(e0, high_address);
        lemma_tick_keeps_ram(e0);
    }
}

/// A word pushed on a stack in RAM pops back unchanged, with SP where it started.
pub proof fn law_push_then_pop(c: CpuView, value: u16)
    requires
        cpu_wf(c),
        stack_in_ram(c.sp),
        stack_push(c, value) is Ok,
        stack_pop(stack_push(c, value)->Ok_0) is Ok,
    ensures
        ({
            let (c2, popped) = stack_pop(stack_push(c, value)->Ok_0)->Ok_0;
            popped == value && c2.sp == c.sp
        }),
{
    lemma_push_frame(c, value);
    lemma_pop_frame(stack_push(c, value)->Ok_0);
}

/// The register pair that the PUSH opcode `op` stores (0xC5 BC, 0xD5 DE, 0xE5 HL, 0xF5 AF).
pub open spec fn pushed_pair(r: CpuRegisters, op: u8) -> u16 {
    if op == 0xC5 {
        r.bc()
    } else if op == 0xD5 {
        r.de()
    } else if op == 0xE5 {
        r.hl()
    } else {
        r.af()
    }
}

/// The registers after the POP opcode `op` loads `w` (0xC1 BC, 0xD1 DE, 0xE1 HL, 0xF1 AF).
pub open spec fn popped_into(r: CpuRegisters, op: u8, w: u16) -> CpuRegisters {
    if op == 0xC1 {
        r.with_bc(w)
    } else if op == 0xD1 {
        r.with_de(w)
    } else if op == 0xE1 {
        r.with_hl(w)
    } else {
        r.with_af(w)
    }
}

/// A PUSH rr followed by a POP rr' on a stack in RAM copies the pair rr into rr': the other
/// registers, SP and PC end as they were. (So PUSH BC, POP DE sets DE to BC.)
pub proof fn law_push_then_pop_instructions(c: CpuView, push_op: u8, pop_op: u8)
    requires
        cpu_wf(c),
        stack_in_ram(c.sp),
        push_op == 0xC5 || push_op == 0xD5 || push_op == 0xE5 || push_op == 0xF5,
        pop_op == 0xC1 || pop_op == 0xD1 || pop_op == 0xE1 || pop_op == 0xF1,
        execute_step(c, push_op) is Ok,
        execute_step(execute_step(c, push_op)->Ok_0, pop_op) is Ok,
    ensures
        ({
            let c2 = execute_step(execute_step(c, push_op)->Ok_0, pop_op)->Ok_0;
            &&& c2.registers == popped_into(c.registers, pop_op, pushed_pair(c.registers, push_op))
            &&& c2.sp == c.sp
            &&& c2.pc == c.pc
        }),
{
    reveal(stack_step);
    let value = pushed_pair(c.registers, push_op);
    lemma_push_frame(c, value);
    let c0 = stack_push(c, value)->Ok_0;
    let low_address = c0.sp;
    let high_address = (c0.sp + 1) as u16;
    lemma_tick_keeps_reads(c0, low_address);
    lemma_tick_keeps_reads(c0, high_address);
    lemma_tick_keeps_ram(c0);
    let c1 = machine_tick(c0)->Ok_0;
    assert(execute_step(c, push_op) == Ok::<CpuView, EmulationError>(c1));
    lemma_pop_frame(c1);
    assert(word((value / 256) as u8, (value % 256) as u8) == value);
}

/// Fetching a two-byte operand moves PC past it (past its first byte only under the HALT
/// bug, which it clears) and leaves SP, the registers and RAM's shape as they were.
proof fn lemma_word_fetch_frame(c: CpuView)
    ensures
        word_fetch(c) is Ok ==> {
            let f = word_fetch(c)->Ok_0.0;
            &&& f.pc == (if c.halt_bug { wrap16(c.pc + 1) } else { wrap16(c.pc + 2) })
            &&& f.sp == c.sp
            &&& f.registers == c.registers
            &&& !f.halt_bug
            &&& ram_shape(f.mmu) == ram_shape(c.mmu)
        },
{
    lemma_tick_keeps_ram(c);
    if pc_fetch(c) is Ok {
        let f1 = pc_fetch(c)->Ok_0.0;
        lemma_tick_keeps_ram(f1);
    }
}

/// A call to `target` on a stack in RAM pushes the PC it was called from and leaves the
/// registers as they were.
proof fn lemma_call_frame(c: CpuView, target: u16)
    requires
        ram_shape(c.mmu),
        stack_in_ram(c.sp),
    ensures
        rst_step(c, target) is Ok ==> {
            let c1 = rst_step(c, target)->Ok_0;
            &&& c1.sp == c.sp - 2
            &&& c1.registers == c.registers
            &&& ram_shape(c1.mmu)
            &&& bus_read(c1, c1.sp) == Ok::<u8, EmulationError>((c.pc % 256) as u8)
            &&& bus_read(c1, (c1.sp + 1) as u16) == Ok::<u8, EmulationError>((c.pc / 256) as u8)
        },
{
    lemma_push_frame(c, c.pc);
    if stack_push(c, c.pc) is Ok {
        let p = stack_push(c, c.pc)->Ok_0;
        let p1 = CpuView { pc: target, ..p };
        lemma_read_frame(p1, p, p.sp);
        lemma_read_frame(p1, p, (p.sp + 1) as u16);
        lemma_tick_keeps_reads(p1, p.sp);
        lemma_tick_keeps_reads(p1, (p.sp + 1) as u16);
        lemma_tick_keeps_ram(p1);
    }
}

/// CALL nn followed by RET on a stack in RAM comes back to the instruction after the CALL
/// (the one after its opcode byte only, when the CALL ran under the HALT bug), with SP and
/// the registers as they were.
pub proof fn law_call_then_ret(c: CpuView)
    requires
        cpu_wf(c),
        stack_in_ram(c.sp),
        execute_step(c, 0xCD) is Ok,
        execute_step(execute_step(c, 0xCD)->Ok_0, 0xC9) is Ok,
    ensures
        ({
            let c2 = execute_step(execute_step(c, 0xCD)->Ok_0, 0xC9)->Ok_0;
            &&& c2.pc == (if c.halt_bug { wrap16(c.pc + 1) } else { wrap16(c.pc + 2) })
            &&& c2.sp == c.sp
            &&& c2.registers == c.registers
        }),
{
    reveal(jumps_step);
    reveal(returns_step);
    lemma_word_fetch_frame(c);
    let (f, target) = word_fetch(c)->Ok_0;
    lemma_call_frame(f, target);
    let c1 = rst_step(f, target)->Ok_0;
    assert(execute_step(c, 0xCD) == Ok::<CpuView, EmulationError>(c1));
    lemma_pop_frame(c1);
    let (q, w) = stack_pop(c1)->Ok_0;
    assert(w == f.pc);
    lemma_tick_keeps_ram(CpuView { pc: w, ..q });
}

/// Whether both hexadecimal digits of `b` are decimal digits.
pub open spec fn is_bcd(b: u8) -> bool {
    b / 16 <= 9 && b % 16 <= 9
}

/// The number from 0 to 99 that the binary coded decimal `b` stands for.
pub open spec fn bcd_value(b: u8) -> int {
    (b / 16) * 10 + b % 16
}

/// The binary coded decimal of `n`, from 0 to 99.
pub open spec fn bcd_byte(n: int) -> u8 {
    ((n / 10) * 16 + n % 10) as u8
}

/// ADD then DAA on decimal digits, as bytes: the sum wraps at 256 and sets the carry, then
/// 0x60 is added when the carry is set or the sum is past 0x99, then 6 when the half carry
/// is set or the low digit is past 9.
proof fn lemma_bcd_correction(x: u8, y: u8)
    by (bit_vector)
    requires
        x / 16 <= 9,
        x % 16 <= 9,
        y / 16 <= 9,
        y % 16 <= 9,
    ensures
        ({
            let a: u8 = ((x + y) % 256) as u8;
            let c1: bool = x + y > 255 || a > 0x99;
            let a1: u8 = if c1 { ((a + 0x60) % 256) as u8 } else { a };
            let a2: u8 = if x % 16 + y % 16 > 15 || (a1 & 0x0F) > 0x9 { ((a1 + 0x6) % 256) as u8 } else { a1 };
            let s: u8 = ((x / 16) * 10 + x % 16 + (y / 16) * 10 + y % 16) as u8;
            &&& a2 == ((((s % 100) / 10) * 16 + (s % 100) % 10) as u8)
            &&& c1 == (s >= 100)
        }),
{
}

/// DAA after ADD of two binary coded decimals gives their decimal sum: A holds the last two
/// digits, the carry flag the hundreds, the zero flag whether A is zero, and N and the half
/// carry are clear. (0x15 + 0x27 gives 0x42; 0x99 + 0x01 gives 0x00 with the carry set.)
pub proof fn law_daa_after_add(r: CpuRegisters, y: u8)
    requires
        is_bcd(r.a),
        is_bcd(y),
    ensures
        ({
            let d = daa_result(r.alu_add(y));
            let s = bcd_value(r.a) + bcd_value(y);
            &&& d.a == bcd_byte(s % 100)
            &&& carry_flag(d.f) == (s >= 100)
            &&& zero_flag(d.f) == (d.a == 0)
            &&& !n_flag(d.f)
            &&& !half_carry_flag(d.f)
            &&& d == (CpuRegisters { a: d.a, f: d.f, ..r })
        }),
{
    broadcast use crate::cpu_registers::group_flags;
    lemma_bcd_correction(r.a, y);
}

/// OAM DMA, one m-cycle at a time: while a transfer runs, the byte at source page * 256 +
/// n is copied to OAM byte n, for n from 0 to 159, one per m-cycle; after the 160th the
/// transfer ends and the CPU leaves the DMA state.
pub proof fn law_oam_dma_step(c: CpuView)
    requires
        c.state == CpuState::DMA,
        dma_step(c) is Ok,
    ensures
        ({
            let c2 = dma_step(c)->Ok_0;
            let n = c.mmu.dma_iterator;
            &&& n <= 159 ==> {
                &&& bus_read(c, (c.mmu.dma_source * 256 + n) as u16) is Ok
                &&& c2.mmu.ppu.oam_ram == c.mmu.ppu.oam_ram.update(
                    n as int,
                    bus_read(c, (c.mmu.dma_source * 256 + n) as u16)->Ok_0,
                )
                &&& c2.mmu.dma_iterator == n + 1
                &&& c2.state == CpuState::DMA
            }
            &&& n > 159 ==> c2.state == CpuState::NonBoot && c2.mmu.dma_iterator == 0
            &&& c2.registers == c.registers && c2.pc == c.pc && c2.sp == c.sp
        }),
{
    reveal(dma_step);
    let src = c.mmu.dma_source;
    let n = c.mmu.dma_iterator;
    assert(((src as u16) << 8u16) | (n as u16) == (src as u16) * 256 + (n as u16)) by (bit_vector);
}

} // verus!
