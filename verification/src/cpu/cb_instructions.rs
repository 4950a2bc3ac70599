use vstd::prelude::*;

use crate::cpu::{bit_of, bus_read, bus_write, cpu_wf, is_bit_set, machine_tick, outcome, pc_fetch, Cpu, CpuView};
use crate::cpu::instructions::with_registers;
use crate::cpu_registers::{carry_flag, with_carry, with_half, with_n, with_zero, CpuRegisters};
use crate::custom_errors::EmulationError;

verus! {

/// The flags byte with Z from `zero`, N and H cleared, after the carry has been set.
pub open spec fn shift_flags(f: u8, zero: bool) -> u8 {
    with_n(with_half(with_zero(f, zero), false), false)
}

/// The rotates, shifts and SWAP of the CB table, numbered as there (RLC, RRC, RL, RR, SLA,
/// SRA, SWAP, SRL): the new value and the registers with the new flags.
/// As this emulator has them, RRC, RR, SRA and SRL take the carry from bit 1 of the value.
pub open spec fn cb_shift(kind: u8, v: u8, r: CpuRegisters) -> (u8, CpuRegisters) {
    if kind == 0 {
        let carry = bit_of(v, 7);
        let nv = (v << 1u8) | (if carry { 1u8 } else { 0u8 });
        (nv, CpuRegisters { f: shift_flags(with_carry(r.f, carry), nv == 0), ..r })
    } else if kind == 1 {
        let carry = bit_of(v, 1);
        let nv = (v >> 1u8) | ((if carry { 1u8 } else { 0u8 }) << 7u8);
        (nv, CpuRegisters { f: shift_flags(with_carry(r.f, carry), nv == 0), ..r })
    } else if kind == 2 {
        let old_carry: u8 = if carry_flag(r.f) { 1 } else { 0 };
        let nv = ((v << 1u8) & 0xFE) | old_carry;
        (nv, CpuRegisters { f: shift_flags(with_carry(r.f, bit_of(v, 7)), nv == 0), ..r })
    } else if kind == 3 {
        let old_carry: u8 = if carry_flag(r.f) { 1 } else { 0 };
        let nv = (v >> 1u8) | (old_carry << 7u8);
        (nv, CpuRegisters { f: shift_flags(with_carry(r.f, bit_of(v, 1)), nv == 0), ..r })
    } else if kind == 4 {
        let nv = v << 1u8;
        (nv, CpuRegisters { f: shift_flags(with_carry(r.f, bit_of(v, 7)), nv == 0), ..r })
    } else if kind == 5 {
        let nv = ((v >> 1u8) & 0x7F) | (v & 0x80);
        (nv, CpuRegisters { f: shift_flags(with_carry(r.f, bit_of(v, 1)), nv == 0), ..r })
    } else if kind == 6 {
        let nv = ((v & 0x0F) << 4u8) | ((v & 0xF0) >> 4u8);
        (nv, CpuRegisters { f: with_n(with_carry(with_half(with_zero(r.f, v == 0), false), false), false), ..r })
    } else {
        let nv = v >> 1u8;
        (nv, CpuRegisters { f: shift_flags(with_carry(r.f, bit_of(v, 1)), nv == 0), ..r })
    }
}

/// BIT `bit`: Z tells whether the bit of `v` is clear; N cleared, H set.
pub open spec fn bit_flags(r: CpuRegisters, v: u8, bit: u8) -> CpuRegisters {
    CpuRegisters { f: with_half(with_n(with_zero(r.f, v & (1u8 << bit) == 0), false), true), ..r }
}

/// The value that RES (`kind` 16 to 23) or SET (24 to 31) makes of `v`.
pub open spec fn res_set(kind: u8, v: u8) -> u8 {
    if kind < 24 { v & !(1u8 << ((kind - 16) as u8)) } else { v | (1u8 << ((kind - 24) as u8)) }
}

/// A CB-prefixed instruction: the second opcode byte is fetched; its low three bits name the
/// operand (6 is the byte at HL) and the rest the operation.
pub open spec fn cb_step(c: CpuView) -> Result<CpuView, EmulationError> {
    match pc_fetch(c) {
        Err(e) => Err(e),
        Ok((c1, op)) => cb_operation(c1, op),
    }
}

/// The CB operation `op` on a running machine.
pub open spec fn cb_operation(c: CpuView, op: u8) -> Result<CpuView, EmulationError> {
    let index = op % 8;
    let kind = op / 8;
    let r = c.registers;
    if index == 6 {
        match bus_read(c, r.hl()) {
            Err(e) => Err(e),
            Ok(v) => if 8 <= kind < 16 {
                machine_tick(with_registers(c, bit_flags(r, v, (kind - 8) as u8)))
            } else {
                match machine_tick(c) {
                    Err(e) => Err(e),
                    Ok(c1) => {
                        let (nv, r2) = if kind < 8 {
                            cb_shift(kind, v, c1.registers)
                        } else {
                            (res_set(kind, v), c1.registers)
                        };
                        machine_tick(bus_write(with_registers(c1, r2), r2.hl(), nv))
                    },
                }
            },
        }
    } else {
        let v = r.reg(index);
        if 8 <= kind < 16 {
            Ok(with_registers(c, bit_flags(r, v, (kind - 8) as u8)))
        } else if kind < 8 {
            let (nv, r2) = cb_shift(kind, v, r);
            Ok(with_registers(c, r2.with_reg(index, nv)))
        } else {
            Ok(with_registers(c, r.with_reg(index, res_set(kind, v))))
        }
    }
}

impl Cpu {
    /// Runs a CB-prefixed instruction: fetches its second byte and decodes it.
    pub(crate) fn execute_cb(&mut self) -> (r: Result<(), EmulationError>)
        requires
            cpu_wf(old(self)@),
            old(self).delta_t_cycles <= i32::MAX - 12,
        ensures
            outcome(r, final(self)@, cb_step(old(self)@)),
            r is Ok ==> cpu_wf(final(self)@),
            r is Ok ==> final(self).delta_t_cycles <= old(self).delta_t_cycles + 12,
            r is Ok ==> old(self).delta_t_cycles <= final(self).delta_t_cycles,
    {
        let instruction = self.fetch_byte_pc()?;
        let index = instruction % 8;
        let kind = instruction / 8;
        if index == 6 {
            let address = self.registers.get_hl();
            let value = self.read(address)?;
            if 8 <= kind && kind < 16 {
                self.bit(value, kind - 8);
                self.tick()?;
            } else {
                self.tick()?;
                let new_value = if kind < 8 {
                    self.shift_op(kind, value)
                } else if kind < 24 {
                    value & !(1u8 << (kind - 16))
                } else {
                    value | (1u8 << (kind - 24))
                };
                let address = self.registers.get_hl();
                self.write(address, new_value);
                self.tick()?;
            }
        } else {
            let value = self.registers.get_reg(index);
            if 8 <= kind && kind < 16 {
                self.bit(value, kind - 8);
            } else if kind < 8 {
                let new_value = self.shift_op(kind, value);
                self.registers.set_reg(index, new_value);
            } else {
                let new_value = if kind < 24 {
                    value & !(1u8 << (kind - 16))
                } else {
                    value | (1u8 << (kind - 24))
                };
                self.registers.set_reg(index, new_value);
            }
        }
        Ok(())
    }

    /// The rotate, shift or SWAP numbered `kind` (see `cb_shift`).
    fn shift_op(&mut self, kind: u8, reg: u8) -> (r: u8)
        requires
            kind < 8,
        ensures
            (r, final(self).registers) == cb_shift(kind, reg, old(self).registers),
            final(self)@ == with_registers(old(self)@, final(self).registers),
    {
        match kind {
            0 => self.rlc(reg),
            1 => self.rrc(reg),
            2 => self.rl(reg),
            3 => self.rr(reg),
            4 => self.sla(reg),
            5 => self.sra(reg),
            6 => self.swap(reg),
            _ => self.srl(reg),
        }
    }

    fn rr(&mut self, reg: u8) -> (r: u8)
        ensures
            (r, final(self).registers) == cb_shift(3, reg, old(self).registers),
            final(self)@ == with_registers(old(self)@, final(self).registers),
    {
        let old_carry = self.registers.is_carry_flag_high();
        let new_carry = is_bit_set(reg, 1);
        self.registers.set_carry_flag(new_carry);
        let old_carry_bit: u8 = if old_carry { 1 } else { 0 };
        let result = (reg >> 1) | (old_carry_bit << 7);
        self.registers.set_zero_flag(result == 0);
        self.registers.set_half_carry_flag(false);
        self.registers.set_n_flag(false);
        result
    }

    fn rlc(&mut self, reg: u8) -> (r: u8)
        ensures
            (r, final(self).registers) == cb_shift(0, reg, old(self).registers),
            final(self)@ == with_registers(old(self)@, final(self).registers),
    {
        let carry = is_bit_set(reg, 7);
        self.registers.set_carry_flag(carry);
        let result = (reg << 1) | if carry { 1u8 } else { 0u8 };
        self.registers.set_zero_flag(result == 0);
        self.registers.set_half_carry_flag(false);
        self.registers.set_n_flag(false);
        result
    }

    fn rrc(&mut self, reg: u8) -> (r: u8)
        ensures
            (r, final(self).registers) == cb_shift(1, reg, old(self).registers),
            final(self)@ == with_registers(old(self)@, final(self).registers),
    {
        let carry = is_bit_set(reg, 1);
        self.registers.set_carry_flag(carry);
        let carry_bit: u8 = if carry { 1 } else { 0 };
        let result = (reg >> 1) | (carry_bit << 7);
        self.registers.set_zero_flag(result == 0);
        self.registers.set_half_carry_flag(false);
        self.registers.set_n_flag(false);
        result
    }

    fn rl(&mut self, reg: u8) -> (r: u8)
        ensures
            (r, final(self).registers) == cb_shift(2, reg, old(self).registers),
            final(self)@ == with_registers(old(self)@, final(self).registers),
    {
        let carry: u8 = if self.registers.is_carry_flag_high() { 1 } else { 0 };
        self.registers.set_carry_flag(is_bit_set(reg, 7));
        let result = ((reg << 1) & 0xFE) | carry;
        self.registers.set_zero_flag(result == 0);
        self.registers.set_half_carry_flag(false);
        self.registers.set_n_flag(false);
        result
    }

    fn sla(&mut self, reg: u8) -> (r: u8)
        ensures
            (r, final(self).registers) == cb_shift(4, reg, old(self).registers),
            final(self)@ == with_registers(old(self)@, final(self).registers),
    {
        let carry = is_bit_set(reg, 7);
        self.registers.set_carry_flag(carry);
        let result = reg << 1;
        self.registers.set_zero_flag(result == 0);
        self.registers.set_half_carry_flag(false);
        self.registers.set_n_flag(false);
        result
    }

    fn sra(&mut self, reg: u8) -> (r: u8)
        ensures
            (r, final(self).registers) == cb_shift(5, reg, old(self).registers),
            final(self)@ == with_registers(old(self)@, final(self).registers),
    {
        let signal = reg & 0x80;
        self.registers.set_carry_flag(is_bit_set(reg, 1));
        let result = ((reg >> 1) & 0b0111_1111) | signal;
        self.registers.set_zero_flag(result == 0);
        self.registers.set_half_carry_flag(false);
        self.registers.set_n_flag(false);
        result
    }

    fn srl(&mut self, reg: u8) -> (r: u8)
        ensures
            (r, final(self).registers) == cb_shift(7, reg, old(self).registers),
            final(self)@ == with_registers(old(self)@, final(self).registers),
    {
        self.registers.set_carry_flag(is_bit_set(reg, 1));
        let result = reg >> 1;
        self.registers.set_zero_flag(result == 0);
        self.registers.set_half_carry_flag(false);
        self.registers.set_n_flag(false);
        result
    }

    fn swap(&mut self, reg: u8) -> (r: u8)
        ensures
            (r, final(self).registers) == cb_shift(6, reg, old(self).registers),
            final(self)@ == with_registers(old(self)@, final(self).registers),
    {
        self.registers.set_zero_flag(reg == 0);
        self.registers.set_half_carry_flag(false);
        self.registers.set_carry_flag(false);
        self.registers.set_n_flag(false);
        let high = reg & 0xF0;
        let low = reg & 0x0F;
        low << 4 | high >> 4
    }

    /// BIT `bit_index` of `reg`: Z is set when the bit is clear.
    fn bit(&mut self, reg: u8, bit_index: u8)
        requires
            bit_index < 8,
        ensures
            final(self)@ == with_registers(old(self)@, bit_flags(old(self).registers, reg, bit_index)),
    {
        if (reg & (1u8 << bit_index)) == 0 {
            self.registers.set_zero_flag(true);
        } else {
            self.registers.set_zero_flag(false);
        }
        self.registers.set_n_flag(false);
        self.registers.set_half_carry_flag(true);
    }
}

} // verus!
