use vstd::prelude::*;

use crate::cpu::cb_instructions::cb_step;
use crate::cpu::{
    bus_read, bus_write, call_step, cpu_wf, daa_result, jp_step, jr_step, machine_tick, outcome, pc_fetch,
    ret_step, rst_step, stack_pop, stack_push, word_fetch, Cpu, CpuState, CpuView,
};
use crate::cpu_registers::{carry_flag, wrap16, wrap8, zero_flag, with_carry, with_half, with_n, with_zero, CpuRegisters};
use crate::custom_errors::EmulationError;
use crate::interrupt_handler::InterruptHandler;

verus! {

/// The machine with other registers.
pub open spec fn with_registers(c: CpuView, r: CpuRegisters) -> CpuView {
    CpuView { registers: r, ..c }
}

/// The machine after `step` and two m-cycles.
pub open spec fn then_two_ticks(r: Result<CpuView, EmulationError>) -> Result<CpuView, EmulationError> {
    match r {
        Err(e) => Err(e),
        Ok(c) => match machine_tick(c) {
            Err(e) => Err(e),
            Ok(c1) => machine_tick(c1),
        },
    }
}

/// A read of `address` into the register that `index` names, then an m-cycle.
pub open spec fn load_step(c: CpuView, index: u8, address: u16) -> Result<CpuView, EmulationError> {
    match bus_read(c, address) {
        Err(e) => Err(e),
        Ok(b) => machine_tick(with_registers(c, c.registers.with_reg(index, b))),
    }
}

/// A write of A to `address`, then an m-cycle.
pub open spec fn store_a_step(c: CpuView, address: u16) -> Result<CpuView, EmulationError> {
    machine_tick(bus_write(c, address, c.registers.a))
}

/// A pop into a register pair chosen by `pair` (0 BC, 1 DE, 2 HL, 3 AF).
pub open spec fn pop_step(c: CpuView, pair: u8) -> Result<CpuView, EmulationError> {
    match stack_pop(c) {
        Err(e) => Err(e),
        Ok((c1, w)) => Ok(
            with_registers(
                c1,
                if pair == 0 {
                    c1.registers.with_bc(w)
                } else if pair == 1 {
                    c1.registers.with_de(w)
                } else if pair == 2 {
                    c1.registers.with_hl(w)
                } else {
                    c1.registers.with_af(w)
                },
            ),
        ),
    }
}

/// A push of `value`, then an m-cycle.
pub open spec fn push_step(c: CpuView, value: u16) -> Result<CpuView, EmulationError> {
    match stack_push(c, value) {
        Err(e) => Err(e),
        Ok(c1) => machine_tick(c1),
    }
}

/// An immediate byte operand applied to A by the operation numbered `operation` (see `alu`).
pub open spec fn alu_immediate_step(c: CpuView, operation: u8) -> Result<CpuView, EmulationError> {
    match pc_fetch(c) {
        Err(e) => Err(e),
        Ok((c1, n)) => Ok(with_registers(c1, c1.registers.alu(operation, n))),
    }
}

/// A conditional RET: an m-cycle, then a return when the condition, read after it, holds.
pub open spec fn ret_if_step(c: CpuView, flag_is_carry: bool, when_set: bool) -> Result<CpuView, EmulationError> {
    match machine_tick(c) {
        Err(e) => Err(e),
        Ok(c1) => {
            let flag = if flag_is_carry { carry_flag(c1.registers.f) } else { zero_flag(c1.registers.f) };
            if flag == when_set { ret_step(c1) } else { Ok(c1) }
        },
    }
}

/// RRCA as the opcode table writes it: flags cleared, carry from bit 0.
pub open spec fn rrca_result(r: CpuRegisters) -> CpuRegisters {
    CpuRegisters { a: (r.a >> 1u8) | ((r.a & 1) << 7u8), f: with_carry(0, r.a & 1 > 0), ..r }
}

/// RLA: A rotated left through the carry flag.
pub open spec fn rla_result(r: CpuRegisters) -> CpuRegisters {
    let old_carry: u8 = if carry_flag(r.f) { 1 } else { 0 };
    CpuRegisters {
        a: (((r.a << 1u8) | (r.a >> 7u8)) & 0xFE) | old_carry,
        f: with_n(with_half(with_zero(with_carry(r.f, r.a & 0x80 > 0), false), false), false),
        ..r
    }
}

/// RRA: A rotated right through the carry flag.
pub open spec fn rra_result(r: CpuRegisters) -> CpuRegisters {
    let old_carry: u8 = if carry_flag(r.f) { 1 } else { 0 };
    CpuRegisters {
        a: (r.a >> 1u8) | (old_carry << 7u8),
        f: with_zero(with_half(with_n(with_carry(r.f, r.a & 1 == 1), false), false), false),
        ..r
    }
}

/// The signed byte `b` extended to 16 bits.
pub open spec fn sign_extend(b: u8) -> u16 {
    ((b as i8) as i16) as u16
}

/// LD rr, d16.
#[verifier::opaque]
pub open spec fn pair_load_step(c: CpuView, op: u8) -> Result<CpuView, EmulationError> {
    match word_fetch(c) {
        Err(e) => Err(e),
        Ok((c1, n)) => Ok(
            if op == 0x01 {
                with_registers(c1, c1.registers.with_bc(n))
            } else if op == 0x11 {
                with_registers(c1, c1.registers.with_de(n))
            } else if op == 0x21 {
                with_registers(c1, c1.registers.with_hl(n))
            } else {
                CpuView { sp: n, ..c1 }
            },
        ),
    }
}

/// LD (BC), A; LD (DE), A; LD A, (BC); LD A, (DE).
#[verifier::opaque]
pub open spec fn indirect_a_step(c: CpuView, op: u8) -> Result<CpuView, EmulationError> {
    let r = c.registers;
    if op == 0x02 {
        store_a_step(c, r.bc())
    } else if op == 0x12 {
        store_a_step(c, r.de())
    } else if op == 0x0A {
        load_step(c, 7, r.bc())
    } else {
        load_step(c, 7, r.de())
    }
}

/// INC rr and DEC rr, with an m-cycle.
#[verifier::opaque]
pub open spec fn pair_inc_dec_step(c: CpuView, op: u8) -> Result<CpuView, EmulationError> {
    let r = c.registers;
    if op == 0x03 {
        machine_tick(with_registers(c, r.with_bc(wrap16(r.bc() + 1))))
    } else if op == 0x13 {
        machine_tick(with_registers(c, r.with_de(wrap16(r.de() + 1))))
    } else if op == 0x23 {
        machine_tick(with_registers(c, r.with_hl(wrap16(r.hl() + 1))))
    } else if op == 0x33 {
        machine_tick(CpuView { sp: wrap16(c.sp + 1), ..c })
    } else if op == 0x0B {
        machine_tick(with_registers(c, r.with_bc(wrap16(r.bc() - 1))))
    } else if op == 0x1B {
        machine_tick(with_registers(c, r.with_de(wrap16(r.de() - 1))))
    } else if op == 0x2B {
        machine_tick(with_registers(c, r.with_hl(wrap16(r.hl() - 1))))
    } else {
        machine_tick(CpuView { sp: wrap16(c.sp - 1), ..c })
    }
}

/// The rotates of A, DAA, CPL, SCF and CCF.
#[verifier::opaque]
pub open spec fn accumulator_step(c: CpuView, op: u8) -> Result<CpuView, EmulationError> {
    let r = c.registers;
    if op == 0x07 {
        Ok(with_registers(c, r.rlca_result()))
    } else if op == 0x0F {
        Ok(with_registers(c, rrca_result(r)))
    } else if op == 0x17 {
        Ok(with_registers(c, rla_result(r)))
    } else if op == 0x1F {
        Ok(with_registers(c, rra_result(r)))
    } else if op == 0x27 {
        Ok(with_registers(c, daa_result(r)))
    } else if op == 0x2F {
        Ok(with_registers(c, r.cpl_result()))
    } else if op == 0x37 {
        Ok(with_registers(c, CpuRegisters { f: with_half(with_n(with_carry(r.f, true), false), false), ..r }))
    } else {
        let f1 = with_half(with_n(r.f, false), false);
        Ok(with_registers(c, CpuRegisters { f: with_carry(f1, !carry_flag(f1)), ..r }))
    }
}

/// ADD HL, rr: an m-cycle, then the addition.
#[verifier::opaque]
pub open spec fn add_hl_step(c: CpuView, op: u8) -> Result<CpuView, EmulationError> {
    match machine_tick(c) {
        Err(e) => Err(e),
        Ok(c1) => {
            let n = if op == 0x09 {
                c1.registers.bc()
            } else if op == 0x19 {
                c1.registers.de()
            } else if op == 0x29 {
                c1.registers.hl()
            } else {
                c1.sp
            };
            Ok(with_registers(c1, c1.registers.add_hl_result(n)))
        },
    }
}

/// LD (a16), SP: the word can not be written at the last address.
#[verifier::opaque]
pub open spec fn store_sp_step(c: CpuView, op: u8) -> Result<CpuView, EmulationError> {
    match word_fetch(c) {
        Err(e) => Err(e),
        Ok((c1, address)) => if address == 0xFFFF {
            Err(EmulationError::WordWriteAtLastAddress)
        } else {
            then_two_ticks(
                Ok(bus_write(bus_write(c1, address, (c1.sp % 256) as u8), (address + 1) as u16, (c1.sp / 256) as u8)),
            )
        },
    }
}

/// JR and JR cc.
#[verifier::opaque]
pub open spec fn relative_jump_step(c: CpuView, op: u8) -> Result<CpuView, EmulationError> {
    let f = c.registers.f;
    if op == 0x18 {
        jr_step(c, true)
    } else if op == 0x20 {
        jr_step(c, !zero_flag(f))
    } else if op == 0x28 {
        jr_step(c, zero_flag(f))
    } else if op == 0x30 {
        jr_step(c, !carry_flag(f))
    } else {
        jr_step(c, carry_flag(f))
    }
}

/// LD (HL+), A; LD (HL-), A; LD A, (HL+); LD A, (HL-).
#[verifier::opaque]
pub open spec fn hl_access_step(c: CpuView, op: u8) -> Result<CpuView, EmulationError> {
    let r = c.registers;
    if op == 0x22 || op == 0x32 {
        let c1 = bus_write(c, r.hl(), r.a);
        let hl = c1.registers.hl();
        machine_tick(with_registers(c1, c1.registers.with_hl(if op == 0x22 { wrap16(hl + 1) } else { wrap16(hl - 1) })))
    } else {
        match bus_read(c, r.hl()) {
            Err(e) => Err(e),
            Ok(b) => {
                let r1 = CpuRegisters { a: b, ..r };
                let hl = r1.hl();
                machine_tick(with_registers(c, r1.with_hl(if op == 0x2A { wrap16(hl + 1) } else { wrap16(hl - 1) })))
            },
        }
    }
}

/// INC (HL), DEC (HL) and LD (HL), d8.
#[verifier::opaque]
pub open spec fn hl_memory_step(c: CpuView, op: u8) -> Result<CpuView, EmulationError> {
    let r = c.registers;
    if op == 0x36 {
        match pc_fetch(c) {
            Err(e) => Err(e),
            Ok((c1, b)) => store_value_step(c1, c1.registers.hl(), b),
        }
    } else {
        match bus_read(c, r.hl()) {
            Err(e) => Err(e),
            Ok(v) => match machine_tick(c) {
                Err(e) => Err(e),
                Ok(c1) => {
                    let c2 = if op == 0x34 {
                        with_registers(c1, c1.registers.inc_flags(v))
                    } else {
                        with_registers(c1, c1.registers.dec_flags(v))
                    };
                    store_value_step(c2, c2.registers.hl(), if op == 0x34 { wrap8(v + 1) } else { wrap8(v - 1) })
                },
            },
        }
    }
}

/// INC r, DEC r and LD r, d8.
#[verifier::opaque]
pub open spec fn register_step(c: CpuView, op: u8) -> Result<CpuView, EmulationError> {
    let r = c.registers;
    let index = op / 8;
    if op % 8 == 4 {
        let v = r.reg(index);
        Ok(with_registers(c, r.inc_flags(v).with_reg(index, wrap8(v + 1))))
    } else if op % 8 == 5 {
        let v = r.reg(index);
        Ok(with_registers(c, r.dec_flags(v).with_reg(index, wrap8(v - 1))))
    } else {
        match pc_fetch(c) {
            Err(e) => Err(e),
            Ok((c1, b)) => Ok(with_registers(c1, c1.registers.with_reg(index, b))),
        }
    }
}

/// RET, RET cc and RETI.
#[verifier::opaque]
pub open spec fn returns_step(c: CpuView, op: u8) -> Result<CpuView, EmulationError> {
    if op == 0xC0 {
        ret_if_step(c, false, false)
    } else if op == 0xC8 {
        ret_if_step(c, false, true)
    } else if op == 0xD0 {
        ret_if_step(c, true, false)
    } else if op == 0xD8 {
        ret_if_step(c, true, true)
    } else if op == 0xC9 {
        ret_step(c)
    } else {
        match ret_step(c) {
            Err(e) => Err(e),
            Ok(c1) => Ok(CpuView { ih: InterruptHandler { enabled: true, ..c1.ih }, ..c1 }),
        }
    }
}

/// POP rr and PUSH rr.
#[verifier::opaque]
pub open spec fn stack_step(c: CpuView, op: u8) -> Result<CpuView, EmulationError> {
    let r = c.registers;
    if op == 0xC1 {
        pop_step(c, 0)
    } else if op == 0xD1 {
        pop_step(c, 1)
    } else if op == 0xE1 {
        pop_step(c, 2)
    } else if op == 0xF1 {
        pop_step(c, 3)
    } else if op == 0xC5 {
        push_step(c, r.bc())
    } else if op == 0xD5 {
        push_step(c, r.de())
    } else if op == 0xE5 {
        push_step(c, r.hl())
    } else {
        push_step(c, r.af())
    }
}

/// JP, JP cc, JP HL, CALL and CALL cc.
#[verifier::opaque]
pub open spec fn jumps_step(c: CpuView, op: u8) -> Result<CpuView, EmulationError> {
    let f = c.registers.f;
    if op == 0xC2 {
        jp_step(c, !zero_flag(f))
    } else if op == 0xCA {
        jp_step(c, zero_flag(f))
    } else if op == 0xD2 {
        jp_step(c, !carry_flag(f))
    } else if op == 0xDA {
        jp_step(c, carry_flag(f))
    } else if op == 0xC3 {
        jp_step(c, true)
    } else if op == 0xE9 {
        Ok(CpuView { pc: c.registers.hl(), ..c })
    } else if op == 0xC4 {
        call_step(c, !zero_flag(f))
    } else if op == 0xCC {
        call_step(c, zero_flag(f))
    } else if op == 0xD4 {
        call_step(c, !carry_flag(f))
    } else if op == 0xDC {
        call_step(c, carry_flag(f))
    } else {
        call_step(c, true)
    }
}

/// The loads and stores of A at 0xFF00 + n, 0xFF00 + C and a16.
#[verifier::opaque]
pub open spec fn high_memory_step(c: CpuView, op: u8) -> Result<CpuView, EmulationError> {
    let r = c.registers;
    if op == 0xE0 {
        match pc_fetch(c) {
            Err(e) => Err(e),
            Ok((c1, b)) => store_a_step(c1, (0xFF00 + b) as u16),
        }
    } else if op == 0xE2 {
        store_a_step(c, (0xFF00 + r.c) as u16)
    } else if op == 0xEA {
        match word_fetch(c) {
            Err(e) => Err(e),
            Ok((c1, address)) => store_a_step(c1, address),
        }
    } else if op == 0xF0 {
        match pc_fetch(c) {
            Err(e) => Err(e),
            Ok((c1, b)) => load_step(c1, 7, (0xFF00 + b) as u16),
        }
    } else if op == 0xF2 {
        load_step(c, 7, (0xFF00 + r.c) as u16)
    } else {
        match word_fetch(c) {
            Err(e) => Err(e),
            Ok((c1, address)) => load_step(c1, 7, address),
        }
    }
}

/// ADD SP, r8; LD HL, SP + r8; LD SP, HL.
#[verifier::opaque]
pub open spec fn stack_pointer_step(c: CpuView, op: u8) -> Result<CpuView, EmulationError> {
    if op == 0xE8 {
        match pc_fetch(c) {
            Err(e) => Err(e),
            Ok((c1, b)) => {
                let n = sign_extend(b);
                let f = with_carry(
                    with_half(with_n(with_zero(c1.registers.f, false), false), (n & 0xF) + (c1.sp & 0xF) > 0xF),
                    (n & 0xFF) + (c1.sp & 0xFF) > 0xFF,
                );
                match then_two_ticks(Ok(with_registers(c1, CpuRegisters { f, ..c1.registers }))) {
                    Err(e) => Err(e),
                    Ok(c2) => Ok(CpuView { sp: wrap16(c2.sp + n), ..c2 }),
                }
            },
        }
    } else if op == 0xF8 {
        match pc_fetch(c) {
            Err(e) => Err(e),
            Ok((c1, b)) => match machine_tick(c1) {
                Err(e) => Err(e),
                Ok(c2) => {
                    let n = sign_extend(b);
                    let f = with_half(
                        with_carry(with_n(with_zero(c2.registers.f, false), false), (n & 0xFF) + (c2.sp & 0xFF) > 0xFF),
                        (c2.sp & 0x0F) + (n & 0x0F) > 0x0F,
                    );
                    Ok(with_registers(c2, CpuRegisters { f, ..c2.registers }.with_hl(wrap16(c2.sp + n))))
                },
            },
        }
    } else {
        machine_tick(CpuView { sp: c.registers.hl(), ..c })
    }
}

/// The opcodes 0x00 to 0x3F.
pub open spec fn low_step(c: CpuView, op: u8) -> Result<CpuView, EmulationError> {
    if op % 8 == 4 || op % 8 == 5 || op % 8 == 6 {
        if op / 8 == 6 {
            hl_memory_step(c, op)
        } else {
            register_step(c, op)
        }
    } else if op == 0x00 {
        Ok(c)
    } else if op == 0x10 {
        Err(EmulationError::InstructionNotImplemented(op))
    } else if op == 0x01 || op == 0x11 || op == 0x21 || op == 0x31 {
        pair_load_step(c, op)
    } else if op == 0x02 || op == 0x12 || op == 0x0A || op == 0x1A {
        indirect_a_step(c, op)
    } else if op % 8 == 3 {
        pair_inc_dec_step(c, op)
    } else if op % 8 == 7 {
        accumulator_step(c, op)
    } else if op == 0x09 || op == 0x19 || op == 0x29 || op == 0x39 {
        add_hl_step(c, op)
    } else if op == 0x08 {
        store_sp_step(c, op)
    } else if op == 0x18 || op == 0x20 || op == 0x28 || op == 0x30 || op == 0x38 {
        relative_jump_step(c, op)
    } else {
        hl_access_step(c, op)
    }
}

/// The opcodes 0x40 to 0xBF: loads between registers and (HL), HALT, and the arithmetic and
/// logic operations on A.
pub open spec fn block_step(c: CpuView, op: u8) -> Result<CpuView, EmulationError> {
    let r = c.registers;
    let src = op % 8;
    if op == 0x76 {
        Ok(CpuView { state: CpuState::Halt, ..c })
    } else if op < 0x80 {
        let dst = ((op - 0x40) / 8) as u8;
        if dst == 6 {
            store_value_step(c, r.hl(), r.reg(src))
        } else if src == 6 {
            load_step(c, dst, r.hl())
        } else {
            Ok(with_registers(c, r.with_reg(dst, r.reg(src))))
        }
    } else {
        let operation = ((op - 0x80) / 8) as u8;
        if src == 6 {
            match bus_read(c, r.hl()) {
                Err(e) => Err(e),
                Ok(b) => machine_tick(with_registers(c, r.alu(operation, b))),
            }
        } else {
            Ok(with_registers(c, r.alu(operation, r.reg(src))))
        }
    }
}

/// A write of `value` to `address`, then an m-cycle.
pub open spec fn store_value_step(c: CpuView, address: u16, value: u8) -> Result<CpuView, EmulationError> {
    machine_tick(bus_write(c, address, value))
}

/// The opcodes the CPU does not implement: STOP (0x10) and the eleven undefined opcodes.
/// Running one is the error `InstructionNotImplemented`.
pub open spec fn unimplemented(op: u8) -> bool {
    op == 0x10 || op == 0xD3 || op == 0xDB || op == 0xDD || op == 0xE3 || op == 0xE4 || op == 0xEB
        || op == 0xEC || op == 0xED || op == 0xF4 || op == 0xFC || op == 0xFD
}

/// The opcodes 0xC0 to 0xFF.
pub open spec fn high_step(c: CpuView, op: u8) -> Result<CpuView, EmulationError> {
    if unimplemented(op) {
        Err(EmulationError::InstructionNotImplemented(op))
    } else if op % 8 == 7 {
        rst_step(c, (op - 0xC7) as u16)
    } else if op % 8 == 6 {
        alu_immediate_step(c, ((op - 0xC6) / 8) as u8)
    } else if op == 0xCB {
        cb_step(c)
    } else if op == 0xC0 || op == 0xC8 || op == 0xD0 || op == 0xD8 || op == 0xC9 || op == 0xD9 {
        returns_step(c, op)
    } else if op % 8 == 1 && op != 0xC9 && op != 0xD9 && op != 0xE9 && op != 0xF9 || op % 8 == 5 && op != 0xCD {
        stack_step(c, op)
    } else if op == 0xC2 || op == 0xCA || op == 0xD2 || op == 0xDA || op == 0xC3 || op == 0xE9 || op == 0xC4
        || op == 0xCC || op == 0xD4 || op == 0xDC || op == 0xCD {
        jumps_step(c, op)
    } else if op == 0xE0 || op == 0xE2 || op == 0xEA || op == 0xF0 || op == 0xF2 || op == 0xFA {
        high_memory_step(c, op)
    } else if op == 0xE8 || op == 0xF8 || op == 0xF9 {
        stack_pointer_step(c, op)
    } else if op == 0xF3 {
        Ok(CpuView { ih: InterruptHandler { enabled: false, ..c.ih }, ..c })
    } else {
        Ok(CpuView { ih: InterruptHandler { enabled: true, ..c.ih }, ..c })
    }
}

/// The instruction `op`, whose opcode byte has been fetched.
pub open spec fn execute_step(c: CpuView, op: u8) -> Result<CpuView, EmulationError> {
    if op < 0x40 {
        low_step(c, op)
    } else if op < 0xC0 {
        block_step(c, op)
    } else {
        high_step(c, op)
    }
}

proof fn lemma_wrap16_step(x: u16)
    ensures
        wrap16(x + 1) == (if x == 0xFFFF { 0 } else { x + 1 }),
        wrap16(x - 1) == (if x == 0 { 0xFFFF } else { x - 1 }),
{
}

proof fn lemma_low_masks(x: u16)
    by (bit_vector)
    ensures
        x & 0xF <= 0xF,
        x & 0xFF <= 0xFF,
{
}

impl Cpu {
    /// Runs the instruction `first_byte`, whose opcode byte has been fetched.
    pub(crate) fn execute(&mut self, first_byte: u8) -> (r: Result<(), EmulationError>)
        requires
            cpu_wf(old(self)@),
            old(self).delta_t_cycles <= i32::MAX - 20,
        ensures
            outcome(r, final(self)@, execute_step(old(self)@, first_byte)),
            unimplemented(first_byte) ==> r == Err::<(), EmulationError>(
                EmulationError::InstructionNotImplemented(first_byte),
            ),
            r is Ok ==> cpu_wf(final(self)@),
            r is Ok ==> final(self).delta_t_cycles <= old(self).delta_t_cycles + 20,
            r is Ok ==> old(self).delta_t_cycles <= final(self).delta_t_cycles,
    {
        if first_byte < 0x40 {
            self.execute_low(first_byte)
        } else if first_byte < 0xC0 {
            self.execute_block(first_byte)
        } else {
            self.execute_high(first_byte)
        }
    }

    /// A read of `address` into the register that `index` names, then an m-cycle.
    fn load(&mut self, index: u8, address: u16) -> (r: Result<(), EmulationError>)
        requires
            cpu_wf(old(self)@),
            old(self).delta_t_cycles <= i32::MAX - 4,
            index < 8,
            index != 6,
        ensures
            outcome(r, final(self)@, load_step(old(self)@, index, address)),
            r is Ok ==> cpu_wf(final(self)@),
            r is Ok ==> final(self).delta_t_cycles == old(self).delta_t_cycles + 4,
    {
        let b = self.read(address)?;
        self.registers.set_reg(index, b);
        self.tick()
    }

    /// A write of `value` to `address`, then an m-cycle.
    fn store(&mut self, address: u16, value: u8) -> (r: Result<(), EmulationError>)
        requires
            cpu_wf(old(self)@),
            old(self).delta_t_cycles <= i32::MAX - 4,
        ensures
            outcome(r, final(self)@, store_value_step(old(self)@, address, value)),
            r is Ok ==> cpu_wf(final(self)@),
            r is Ok ==> final(self).delta_t_cycles == old(self).delta_t_cycles + 4,
    {
        self.write(address, value);
        self.tick()
    }

    /// Applies the arithmetic or logic operation numbered `operation` (see `alu`) to A and `n`.
    fn alu_op(&mut self, operation: u8, n: u8)
        ensures
            final(self)@ == with_registers(old(self)@, old(self).registers.alu(operation, n)),
    {
        if operation == 0 {
            self.registers.add_u8(n);
        } else if operation == 1 {
            self.registers.adc_u8(n);
        } else if operation == 2 {
            self.registers.sub_u8(n);
        } else if operation == 3 {
            self.registers.sbc_u8(n);
        } else if operation == 4 {
            self.registers.and_u8(n);
        } else if operation == 5 {
            self.registers.xor_u8(n);
        } else if operation == 6 {
            self.registers.or_u8(n);
        } else {
            self.registers.cp_u8(n);
        }
    }

    /// A pop into the register pair `pair` (0 BC, 1 DE, 2 HL, 3 AF).
    fn pop_into(&mut self, pair: u8) -> (r: Result<(), EmulationError>)
        requires
            cpu_wf(old(self)@),
            old(self).delta_t_cycles <= i32::MAX - 8,
        ensures
            outcome(r, final(self)@, pop_step(old(self)@, pair)),
            r is Ok ==> cpu_wf(final(self)@),
            r is Ok ==> final(self).delta_t_cycles == old(self).delta_t_cycles + 8,
    {
        let popped_value = self.pop_u16_from_stack()?;
        if pair == 0 {
            self.registers.set_bc(popped_value);
        } else if pair == 1 {
            self.registers.set_de(popped_value);
        } else if pair == 2 {
            self.registers.set_hl(popped_value);
        } else {
            self.registers.set_af(popped_value);
        }
        Ok(())
    }

    /// A push of `value`, then an m-cycle.
    fn push_then_tick(&mut self, value: u16) -> (r: Result<(), EmulationError>)
        requires
            cpu_wf(old(self)@),
            old(self).delta_t_cycles <= i32::MAX - 12,
        ensures
            outcome(r, final(self)@, push_step(old(self)@, value)),
            r is Ok ==> cpu_wf(final(self)@),
            r is Ok ==> final(self).delta_t_cycles == old(self).delta_t_cycles + 12,
    {
        self.push_u16_to_stack(value)?;
        self.tick()
    }

    /// A conditional RET.
    fn ret_if(&mut self, flag_is_carry: bool, when_set: bool) -> (r: Result<(), EmulationError>)
        requires
            cpu_wf(old(self)@),
            old(self).delta_t_cycles <= i32::MAX - 16,
        ensures
            outcome(r, final(self)@, ret_if_step(old(self)@, flag_is_carry, when_set)),
            r is Ok ==> cpu_wf(final(self)@),
            r is Ok ==> final(self).delta_t_cycles <= old(self).delta_t_cycles + 16,
            r is Ok ==> old(self).delta_t_cycles <= final(self).delta_t_cycles,
    {
        self.tick()?;
        let flag = if flag_is_carry {
            self.registers.is_carry_flag_high()
        } else {
            self.registers.is_zero_flag_high()
        };
        if flag == when_set {
            self.ret()?;
        }
        Ok(())
    }

    /// The opcodes 0x00 to 0x3F.
    fn execute_low(&mut self, op: u8) -> (r: Result<(), EmulationError>)
        requires
            cpu_wf(old(self)@),
            old(self).delta_t_cycles <= i32::MAX - 20,
            op < 0x40,
        ensures
            outcome(r, final(self)@, low_step(old(self)@, op)),
            r is Ok ==> cpu_wf(final(self)@),
            r is Ok ==> final(self).delta_t_cycles <= old(self).delta_t_cycles + 20,
            r is Ok ==> old(self).delta_t_cycles <= final(self).delta_t_cycles,
    {
        if op % 8 == 4 || op % 8 == 5 || op % 8 == 6 {
            if op / 8 == 6 {
                self.execute_hl_memory(op)
            } else {
                self.execute_register_op(op)
            }
        } else if op == 0x00 {
            Ok(())
        } else if op == 0x10 {
            Err(EmulationError::InstructionNotImplemented(op))
        } else if op == 0x01 || op == 0x11 || op == 0x21 || op == 0x31 {
            self.execute_pair_load(op)
        } else if op == 0x02 || op == 0x12 || op == 0x0A || op == 0x1A {
            self.execute_indirect_a(op)
        } else if op % 8 == 3 {
            self.execute_pair_inc_dec(op)
        } else if op % 8 == 7 {
            self.execute_accumulator(op)
        } else if op == 0x09 || op == 0x19 || op == 0x29 || op == 0x39 {
            self.execute_add_hl(op)
        } else if op == 0x08 {
            self.execute_store_sp(op)
        } else if op == 0x18 || op == 0x20 || op == 0x28 || op == 0x30 || op == 0x38 {
            self.execute_relative_jump(op)
        } else {
            self.execute_hl_access(op)
        }
    }

    /// The opcodes 0x40 to 0xBF.
    fn execute_block(&mut self, op: u8) -> (r: Result<(), EmulationError>)
        requires
            cpu_wf(old(self)@),
            old(self).delta_t_cycles <= i32::MAX - 20,
            0x40 <= op < 0xC0,
        ensures
            outcome(r, final(self)@, block_step(old(self)@, op)),
            r is Ok ==> cpu_wf(final(self)@),
            r is Ok ==> final(self).delta_t_cycles <= old(self).delta_t_cycles + 20,
            r is Ok ==> old(self).delta_t_cycles <= final(self).delta_t_cycles,
    {
        let src = op % 8;
        if op == 0x76 {
            self.state = CpuState::Halt;
            return Ok(());
        }
        if op < 0x80 {
            let dst = (op - 0x40) / 8;
            if dst == 6 {
                let address = self.registers.get_hl();
                let value = self.registers.get_reg(src);
                self.store(address, value)
            } else if src == 6 {
                let address = self.registers.get_hl();
                self.load(dst, address)
            } else {
                let value = self.registers.get_reg(src);
                self.registers.set_reg(dst, value);
                Ok(())
            }
        } else {
            let operation = (op - 0x80) / 8;
            if src == 6 {
                let address = self.registers.get_hl();
                let n = self.read(address)?;
                self.alu_op(operation, n);
                self.tick()
            } else {
                let n = self.registers.get_reg(src);
                self.alu_op(operation, n);
                Ok(())
            }
        }
    }

    /// The opcodes 0xC0 to 0xFF.
    fn execute_high(&mut self, op: u8) -> (r: Result<(), EmulationError>)
        requires
            cpu_wf(old(self)@),
            old(self).delta_t_cycles <= i32::MAX - 20,
            0xC0 <= op,
        ensures
            outcome(r, final(self)@, high_step(old(self)@, op)),
            r is Ok ==> cpu_wf(final(self)@),
            r is Ok ==> final(self).delta_t_cycles <= old(self).delta_t_cycles + 20,
            r is Ok ==> old(self).delta_t_cycles <= final(self).delta_t_cycles,
    {
        if op == 0x10 || op == 0xD3 || op == 0xDB || op == 0xDD || op == 0xE3 || op == 0xE4 || op == 0xEB
            || op == 0xEC || op == 0xED || op == 0xF4 || op == 0xFC || op == 0xFD {
            Err(EmulationError::InstructionNotImplemented(op))
        } else if op % 8 == 7 {
            self.rst((op - 0xC7) as u16)
        } else if op % 8 == 6 {
            let n = self.fetch_byte_pc()?;
            self.alu_op((op - 0xC6) / 8, n);
            Ok(())
        } else if op == 0xCB {
            self.execute_cb()
        } else if op == 0xC0 || op == 0xC8 || op == 0xD0 || op == 0xD8 || op == 0xC9 || op == 0xD9 {
            self.execute_returns(op)
        } else if op % 8 == 1 && op != 0xC9 && op != 0xD9 && op != 0xE9 && op != 0xF9 || op % 8 == 5 && op != 0xCD {
            self.execute_stack(op)
        } else if op == 0xC2 || op == 0xCA || op == 0xD2 || op == 0xDA || op == 0xC3 || op == 0xE9 || op == 0xC4
            || op == 0xCC || op == 0xD4 || op == 0xDC || op == 0xCD {
            self.execute_jumps(op)
        } else if op == 0xE0 || op == 0xE2 || op == 0xEA || op == 0xF0 || op == 0xF2 || op == 0xFA {
            self.execute_high_memory(op)
        } else if op == 0xE8 || op == 0xF8 || op == 0xF9 {
            self.execute_stack_pointer(op)
        } else if op == 0xF3 {
            self.interrupt_handler.enabled = false;
            Ok(())
        } else {
            self.interrupt_handler.enabled = true;
            Ok(())
        }
    }

    /// LD rr, d16.
    fn execute_pair_load(&mut self, op: u8) -> (r: Result<(), EmulationError>)
        requires
            cpu_wf(old(self)@),
            old(self).delta_t_cycles <= i32::MAX - 20,
            op == 0x01 || op == 0x11 || op == 0x21 || op == 0x31,
        ensures
            outcome(r, final(self)@, pair_load_step(old(self)@, op)),
            r is Ok ==> cpu_wf(final(self)@),
            r is Ok ==> final(self).delta_t_cycles <= old(self).delta_t_cycles + 20,
            r is Ok ==> old(self).delta_t_cycles <= final(self).delta_t_cycles,
    {
        proof {
            reveal(pair_load_step);
        }
        let n = self.fetch_word()?;
        if op == 0x01 {
            self.registers.set_bc(n);
        } else if op == 0x11 {
            self.registers.set_de(n);
        } else if op == 0x21 {
            self.registers.set_hl(n);
        } else {
            self.sp = n;
        }
        Ok(())
    }

    /// LD (BC), A; LD (DE), A; LD A, (BC); LD A, (DE).
    fn execute_indirect_a(&mut self, op: u8) -> (r: Result<(), EmulationError>)
        requires
            cpu_wf(old(self)@),
            old(self).delta_t_cycles <= i32::MAX - 20,
            op == 0x02 || op == 0x12 || op == 0x0A || op == 0x1A,
        ensures
            outcome(r, final(self)@, indirect_a_step(old(self)@, op)),
            r is Ok ==> cpu_wf(final(self)@),
            r is Ok ==> final(self).delta_t_cycles <= old(self).delta_t_cycles + 20,
            r is Ok ==> old(self).delta_t_cycles <= final(self).delta_t_cycles,
    {
        proof {
            reveal(indirect_a_step);
        }
        if op == 0x02 {
            let address = self.registers.get_bc();
            self.store(address, self.registers.a)
        } else if op == 0x12 {
            let address = self.registers.get_de();
            self.store(address, self.registers.a)
        } else if op == 0x0A {
            let address = self.registers.get_bc();
            self.load(7, address)
        } else {
            let address = self.registers.get_de();
            self.load(7, address)
        }
    }

    /// INC rr and DEC rr, with an m-cycle.
    fn execute_pair_inc_dec(&mut self, op: u8) -> (r: Result<(), EmulationError>)
        requires
            cpu_wf(old(self)@),
            old(self).delta_t_cycles <= i32::MAX - 20,
            op == 0x03 || op == 0x13 || op == 0x23 || op == 0x33 || op == 0x0B || op == 0x1B || op == 0x2B || op == 0x3B,
        ensures
            outcome(r, final(self)@, pair_inc_dec_step(old(self)@, op)),
            r is Ok ==> cpu_wf(final(self)@),
            r is Ok ==> final(self).delta_t_cycles <= old(self).delta_t_cycles + 20,
            r is Ok ==> old(self).delta_t_cycles <= final(self).delta_t_cycles,
    {
        proof {
            reveal(pair_inc_dec_step);
        }
        let bc = self.registers.get_bc();
        let de = self.registers.get_de();
        let hl = self.registers.get_hl();
        proof {
            lemma_wrap16_step(bc);
            lemma_wrap16_step(de);
            lemma_wrap16_step(hl);
            lemma_wrap16_step(self.sp);
        }
        if op == 0x03 {
            let n = self.registers.get_bc().wrapping_add(1);
            self.registers.set_bc(n);
            self.tick()
        } else if op == 0x13 {
            let n = self.registers.get_de().wrapping_add(1);
            self.registers.set_de(n);
            self.tick()
        } else if op == 0x23 {
            let n = self.registers.get_hl().wrapping_add(1);
            self.registers.set_hl(n);
            self.tick()
        } else if op == 0x33 {
            self.sp = self.sp.wrapping_add(1);
            self.tick()
        } else if op == 0x0B {
            self.registers.dec_bc();
            self.tick()
        } else if op == 0x1B {
            self.registers.dec_de();
            self.tick()
        } else if op == 0x2B {
            self.registers.dec_hl();
            self.tick()
        } else {
            self.sp = self.sp.wrapping_sub(1);
            self.tick()
        }
    }

    /// The rotates of A, DAA, CPL, SCF and CCF.
    fn execute_accumulator(&mut self, op: u8) -> (r: Result<(), EmulationError>)
        requires
            cpu_wf(old(self)@),
            old(self).delta_t_cycles <= i32::MAX - 20,
            op == 0x07 || op == 0x0F || op == 0x17 || op == 0x1F || op == 0x27 || op == 0x2F || op == 0x37 || op == 0x3F,
        ensures
            outcome(r, final(self)@, accumulator_step(old(self)@, op)),
            r is Ok ==> cpu_wf(final(self)@),
            r is Ok ==> final(self).delta_t_cycles <= old(self).delta_t_cycles + 20,
            r is Ok ==> old(self).delta_t_cycles <= final(self).delta_t_cycles,
    {
        proof {
            reveal(accumulator_step);
        }
        if op == 0x07 {
            self.registers.rlca();
        } else if op == 0x0F {
            let least_bit = self.registers.a & 0x1;
            self.registers.set_flags(0);
            self.registers.set_carry_flag(least_bit > 0);
            self.registers.a = (self.registers.a >> 1) | least_bit << 7;
        } else if op == 0x17 {
            let old_carry: u8 = if self.registers.is_carry_flag_high() { 1 } else { 0 };
            self.registers.set_carry_flag(self.registers.a & 0b1000_0000 > 0);
            self.registers.a = (self.registers.a << 1) | (self.registers.a >> 7);
            self.registers.a = self.registers.a & 0b1111_1110;
            self.registers.a = self.registers.a | old_carry;
            self.registers.set_zero_flag(false);
            self.registers.set_half_carry_flag(false);
            self.registers.set_n_flag(false);
        } else if op == 0x1F {
            let new_carry = self.registers.a & 0x1 == 1;
            let old_carry: u8 = if self.registers.is_carry_flag_high() { 1 } else { 0 };
            self.registers.a = self.registers.a >> 1;
            self.registers.a = self.registers.a | (old_carry << 7);
            self.registers.set_carry_flag(new_carry);
            self.registers.set_n_flag(false);
            self.registers.set_half_carry_flag(false);
            self.registers.set_zero_flag(false);
        } else if op == 0x27 {
            self.daa();
        } else if op == 0x2F {
            self.registers.cpl();
        } else if op == 0x37 {
            self.registers.set_carry_flag(true);
            self.registers.set_n_flag(false);
            self.registers.set_half_carry_flag(false);
        } else {
            self.registers.set_n_flag(false);
            self.registers.set_half_carry_flag(false);
            let carry = self.registers.is_carry_flag_high();
            self.registers.set_carry_flag(!carry);
        }
        Ok(())
    }

    /// ADD HL, rr: an m-cycle, then the addition.
    fn execute_add_hl(&mut self, op: u8) -> (r: Result<(), EmulationError>)
        requires
            cpu_wf(old(self)@),
            old(self).delta_t_cycles <= i32::MAX - 20,
            op == 0x09 || op == 0x19 || op == 0x29 || op == 0x39,
        ensures
            outcome(r, final(self)@, add_hl_step(old(self)@, op)),
            r is Ok ==> cpu_wf(final(self)@),
            r is Ok ==> final(self).delta_t_cycles <= old(self).delta_t_cycles + 20,
            r is Ok ==> old(self).delta_t_cycles <= final(self).delta_t_cycles,
    {
        proof {
            reveal(add_hl_step);
        }
        self.tick()?;
        let n = if op == 0x09 {
            self.registers.get_bc()
        } else if op == 0x19 {
            self.registers.get_de()
        } else if op == 0x29 {
            self.registers.get_hl()
        } else {
            self.sp
        };
        self.registers.add_to_hl_u16(n);
        Ok(())
    }

    /// LD (a16), SP: the word can not be written at the last address.
    fn execute_store_sp(&mut self, op: u8) -> (r: Result<(), EmulationError>)
        requires
            cpu_wf(old(self)@),
            old(self).delta_t_cycles <= i32::MAX - 20,
            op == 0x08,
        ensures
            outcome(r, final(self)@, store_sp_step(old(self)@, op)),
            r is Ok ==> cpu_wf(final(self)@),
            r is Ok ==> final(self).delta_t_cycles <= old(self).delta_t_cycles + 20,
            r is Ok ==> old(self).delta_t_cycles <= final(self).delta_t_cycles,
    {
        proof {
            reveal(store_sp_step);
        }
        let address = self.fetch_word()?;
        if address == 0xFFFF {
            return Err(EmulationError::WordWriteAtLastAddress);
        }
        self.store_word(address, self.sp);
        self.tick()?;
        self.tick()
    }

    /// JR and JR cc.
    fn execute_relative_jump(&mut self, op: u8) -> (r: Result<(), EmulationError>)
        requires
            cpu_wf(old(self)@),
            old(self).delta_t_cycles <= i32::MAX - 20,
            op == 0x18 || op == 0x20 || op == 0x28 || op == 0x30 || op == 0x38,
        ensures
            outcome(r, final(self)@, relative_jump_step(old(self)@, op)),
            r is Ok ==> cpu_wf(final(self)@),
            r is Ok ==> final(self).delta_t_cycles <= old(self).delta_t_cycles + 20,
            r is Ok ==> old(self).delta_t_cycles <= final(self).delta_t_cycles,
    {
        proof {
            reveal(relative_jump_step);
        }
        let condition = if op == 0x18 {
            true
        } else if op == 0x20 {
            !self.registers.is_zero_flag_high()
        } else if op == 0x28 {
            self.registers.is_zero_flag_high()
        } else if op == 0x30 {
            !self.registers.is_carry_flag_high()
        } else {
            self.registers.is_carry_flag_high()
        };
        self.jr_i8(condition)
    }

    /// LD (HL+), A; LD (HL-), A; LD A, (HL+); LD A, (HL-).
    fn execute_hl_access(&mut self, op: u8) -> (r: Result<(), EmulationError>)
        requires
            cpu_wf(old(self)@),
            old(self).delta_t_cycles <= i32::MAX - 20,
            op == 0x22 || op == 0x32 || op == 0x2A || op == 0x3A,
        ensures
            outcome(r, final(self)@, hl_access_step(old(self)@, op)),
            r is Ok ==> cpu_wf(final(self)@),
            r is Ok ==> final(self).delta_t_cycles <= old(self).delta_t_cycles + 20,
            r is Ok ==> old(self).delta_t_cycles <= final(self).delta_t_cycles,
    {
        proof {
            reveal(hl_access_step);
        }
        let address = self.registers.get_hl();
        if op == 0x22 || op == 0x32 {
            self.write(address, self.registers.a);
            let hl = self.registers.get_hl();
            proof {
                lemma_wrap16_step(hl);
            }
            let n = if op == 0x22 { hl.wrapping_add(1) } else { hl.wrapping_sub(1) };
            self.registers.set_hl(n);
            self.tick()
        } else {
            let b = self.read(address)?;
            self.registers.a = b;
            let hl = self.registers.get_hl();
            proof {
                lemma_wrap16_step(hl);
            }
            let n = if op == 0x2A { hl.wrapping_add(1) } else { hl.wrapping_sub(1) };
            self.registers.set_hl(n);
            self.tick()
        }
    }

    /// INC (HL), DEC (HL) and LD (HL), d8.
    fn execute_hl_memory(&mut self, op: u8) -> (r: Result<(), EmulationError>)
        requires
            cpu_wf(old(self)@),
            old(self).delta_t_cycles <= i32::MAX - 20,
            op == 0x34 || op == 0x35 || op == 0x36,
        ensures
            outcome(r, final(self)@, hl_memory_step(old(self)@, op)),
            r is Ok ==> cpu_wf(final(self)@),
            r is Ok ==> final(self).delta_t_cycles <= old(self).delta_t_cycles + 20,
            r is Ok ==> old(self).delta_t_cycles <= final(self).delta_t_cycles,
    {
        proof {
            reveal(hl_memory_step);
        }
        if op == 0x36 {
            let byte = self.fetch_byte_pc()?;
            let address = self.registers.get_hl();
            return self.store(address, byte);
        }
        let address = self.registers.get_hl();
        let value = self.read(address)?;
        self.tick()?;
        let new_value = if op == 0x34 {
            self.registers.inc_u8_reg(value)
        } else {
            self.registers.dec_u8_reg(value)
        };
        let address = self.registers.get_hl();
        self.store(address, new_value)
    }

    /// INC r, DEC r and LD r, d8.
    fn execute_register_op(&mut self, op: u8) -> (r: Result<(), EmulationError>)
        requires
            cpu_wf(old(self)@),
            old(self).delta_t_cycles <= i32::MAX - 20,
            op < 0x40,
            op % 8 == 4 || op % 8 == 5 || op % 8 == 6,
            op / 8 != 6,
        ensures
            outcome(r, final(self)@, register_step(old(self)@, op)),
            r is Ok ==> cpu_wf(final(self)@),
            r is Ok ==> final(self).delta_t_cycles <= old(self).delta_t_cycles + 20,
            r is Ok ==> old(self).delta_t_cycles <= final(self).delta_t_cycles,
    {
        proof {
            reveal(register_step);
        }
        let index = op / 8;
        if op % 8 == 4 {
            let v = self.registers.get_reg(index);
            let nv = self.registers.inc_u8_reg(v);
            self.registers.set_reg(index, nv);
        } else if op % 8 == 5 {
            let v = self.registers.get_reg(index);
            let nv = self.registers.dec_u8_reg(v);
            self.registers.set_reg(index, nv);
        } else {
            let b = self.fetch_byte_pc()?;
            self.registers.set_reg(index, b);
        }
        Ok(())
    }

    /// RET, RET cc and RETI.
    fn execute_returns(&mut self, op: u8) -> (r: Result<(), EmulationError>)
        requires
            cpu_wf(old(self)@),
            old(self).delta_t_cycles <= i32::MAX - 20,
            op == 0xC0 || op == 0xC8 || op == 0xD0 || op == 0xD8 || op == 0xC9 || op == 0xD9,
        ensures
            outcome(r, final(self)@, returns_step(old(self)@, op)),
            r is Ok ==> cpu_wf(final(self)@),
            r is Ok ==> final(self).delta_t_cycles <= old(self).delta_t_cycles + 20,
            r is Ok ==> old(self).delta_t_cycles <= final(self).delta_t_cycles,
    {
        proof {
            reveal(returns_step);
        }
        if op == 0xC0 {
            self.ret_if(false, false)
        } else if op == 0xC8 {
            self.ret_if(false, true)
        } else if op == 0xD0 {
            self.ret_if(true, false)
        } else if op == 0xD8 {
            self.ret_if(true, true)
        } else if op == 0xC9 {
            self.ret()
        } else {
            self.ret()?;
            self.interrupt_handler.enabled = true;
            Ok(())
        }
    }

    /// POP rr and PUSH rr.
    fn execute_stack(&mut self, op: u8) -> (r: Result<(), EmulationError>)
        requires
            cpu_wf(old(self)@),
            old(self).delta_t_cycles <= i32::MAX - 20,
            op == 0xC1 || op == 0xD1 || op == 0xE1 || op == 0xF1 || op == 0xC5 || op == 0xD5 || op == 0xE5 || op == 0xF5,
        ensures
            outcome(r, final(self)@, stack_step(old(self)@, op)),
            r is Ok ==> cpu_wf(final(self)@),
            r is Ok ==> final(self).delta_t_cycles <= old(self).delta_t_cycles + 20,
            r is Ok ==> old(self).delta_t_cycles <= final(self).delta_t_cycles,
    {
        proof {
            reveal(stack_step);
        }
        if op == 0xC1 {
            self.pop_into(0)
        } else if op == 0xD1 {
            self.pop_into(1)
        } else if op == 0xE1 {
            self.pop_into(2)
        } else if op == 0xF1 {
            self.pop_into(3)
        } else {
            let value = if op == 0xC5 {
                self.registers.get_bc()
            } else if op == 0xD5 {
                self.registers.get_de()
            } else if op == 0xE5 {
                self.registers.get_hl()
            } else {
                self.registers.get_af()
            };
            self.push_then_tick(value)
        }
    }

    /// JP, JP cc, JP HL, CALL and CALL cc.
    fn execute_jumps(&mut self, op: u8) -> (r: Result<(), EmulationError>)
        requires
            cpu_wf(old(self)@),
            old(self).delta_t_cycles <= i32::MAX - 20,
            op == 0xC2 || op == 0xCA || op == 0xD2 || op == 0xDA || op == 0xC3 || op == 0xE9 || op == 0xC4 || op == 0xCC || op == 0xD4 || op == 0xDC || op == 0xCD,
        ensures
            outcome(r, final(self)@, jumps_step(old(self)@, op)),
            r is Ok ==> cpu_wf(final(self)@),
            r is Ok ==> final(self).delta_t_cycles <= old(self).delta_t_cycles + 20,
            r is Ok ==> old(self).delta_t_cycles <= final(self).delta_t_cycles,
    {
        proof {
            reveal(jumps_step);
        }
        if op == 0xE9 {
            self.pc = self.registers.get_hl();
            return Ok(());
        }
        let condition = if op == 0xC2 || op == 0xC4 {
            !self.registers.is_zero_flag_high()
        } else if op == 0xCA || op == 0xCC {
            self.registers.is_zero_flag_high()
        } else if op == 0xD2 || op == 0xD4 {
            !self.registers.is_carry_flag_high()
        } else if op == 0xDA || op == 0xDC {
            self.registers.is_carry_flag_high()
        } else {
            true
        };
        if op == 0xC2 || op == 0xCA || op == 0xD2 || op == 0xDA || op == 0xC3 {
            self.jp_u16(condition)
        } else {
            self.call_u16(condition)
        }
    }

    /// The loads and stores of A at 0xFF00 + n, 0xFF00 + C and a16.
    fn execute_high_memory(&mut self, op: u8) -> (r: Result<(), EmulationError>)
        requires
            cpu_wf(old(self)@),
            old(self).delta_t_cycles <= i32::MAX - 20,
            op == 0xE0 || op == 0xE2 || op == 0xEA || op == 0xF0 || op == 0xF2 || op == 0xFA,
        ensures
            outcome(r, final(self)@, high_memory_step(old(self)@, op)),
            r is Ok ==> cpu_wf(final(self)@),
            r is Ok ==> final(self).delta_t_cycles <= old(self).delta_t_cycles + 20,
            r is Ok ==> old(self).delta_t_cycles <= final(self).delta_t_cycles,
    {
        proof {
            reveal(high_memory_step);
        }
        if op == 0xE0 {
            let b = self.fetch_byte_pc()?;
            let address = 0xFF00u16.wrapping_add(b as u16);
            self.store(address, self.registers.a)
        } else if op == 0xE2 {
            let address = 0xFF00u16 + self.registers.c as u16;
            self.store(address, self.registers.a)
        } else if op == 0xEA {
            let address = self.fetch_word()?;
            self.store(address, self.registers.a)
        } else if op == 0xF0 {
            let add_on = self.fetch_byte_pc()? as u16;
            self.load(7, 0xFF00 + add_on)
        } else if op == 0xF2 {
            let address = 0xFF00u16.wrapping_add(self.registers.c as u16);
            self.load(7, address)
        } else {
            let address = self.fetch_word()?;
            self.load(7, address)
        }
    }

    /// ADD SP, r8; LD HL, SP + r8; LD SP, HL.
    #[verifier::rlimit(40)]
    fn execute_stack_pointer(&mut self, op: u8) -> (r: Result<(), EmulationError>)
        requires
            cpu_wf(old(self)@),
            old(self).delta_t_cycles <= i32::MAX - 20,
            op == 0xE8 || op == 0xF8 || op == 0xF9,
        ensures
            outcome(r, final(self)@, stack_pointer_step(old(self)@, op)),
            r is Ok ==> cpu_wf(final(self)@),
            r is Ok ==> final(self).delta_t_cycles <= old(self).delta_t_cycles + 20,
            r is Ok ==> old(self).delta_t_cycles <= final(self).delta_t_cycles,
    {
        proof {
            reveal(stack_pointer_step);
        }
        if op == 0xE8 {
            let b = self.fetch_byte_pc()?;
            let number = ((b as i8) as i16) as u16;
            proof {
                lemma_low_masks(number);
                lemma_low_masks(self.sp);
            }
            self.registers.set_zero_flag(false);
            self.registers.set_n_flag(false);
            self.registers.set_half_carry_flag((number & 0xF) + (self.sp & 0xF) > 0xF);
            self.registers.set_carry_flag((number & 0xFF) + (self.sp & 0xFF) > 0xFF);
            self.tick()?;
            self.tick()?;
            self.sp = self.sp.wrapping_add(number);
            Ok(())
        } else if op == 0xF8 {
            let b = self.fetch_byte_pc()?;
            let offset = ((b as i8) as i16) as u16;
            self.tick()?;
            proof {
                lemma_low_masks(offset);
                lemma_low_masks(self.sp);
            }
            let new_sp = self.sp.wrapping_add(offset);
            self.registers.set_zero_flag(false);
            self.registers.set_n_flag(false);
            self.registers.set_carry_flag((offset & 0xFF) + (self.sp & 0xFF) > 0xFF);
            self.registers.set_half_carry_flag((self.sp & 0x0F) + (offset & 0x0F) > 0x0F);
            self.registers.set_hl(new_sp);
            Ok(())
        } else {
            self.sp = self.registers.get_hl();
            self.tick()
        }
    }
}

} // verus!
