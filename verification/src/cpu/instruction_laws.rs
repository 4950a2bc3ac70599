use vstd::prelude::*;

use crate::cpu::cb_instructions::{cb_operation, cb_shift, res_set};
use crate::cpu::instructions::{
    accumulator_step, block_step, execute_step, jumps_step, register_step, relative_jump_step, returns_step, with_registers,
};
use crate::cpu::{
    bit_of, bus_read, interrupt_at, lemma_tick_keeps_ram, machine_tick, pc_fetch, relative_target, serve,
    serve_if_enabled, serve_interrupts, stack_pop, stack_push, word_fetch, CpuView,
};
use crate::cpu_registers::{group_flags, CpuRegisters};
use crate::custom_errors::EmulationError;

verus! {

/// The condition that bits 3 and 4 of a conditional jump, call or return opcode name:
/// NZ (Z flag, bit 7 of F, clear), Z (set), NC (carry flag, bit 4 of F, clear), C (set).
pub open spec fn condition_met(op: u8, f: u8) -> bool {
    let cc = (op / 8) % 4;
    if cc == 0 {
        f & 0x80 == 0
    } else if cc == 1 {
        f & 0x80 != 0
    } else if cc == 2 {
        f & 0x10 == 0
    } else {
        f & 0x10 != 0
    }
}

/// The byte `b` read as a two's complement number, from -128 to 127.
pub open spec fn signed_byte(b: u8) -> int {
    if b < 128 { b as int } else { b - 256 }
}

proof fn lemma_relative_target(q: u16, b: u8, t: u16)
    by (bit_vector)
    requires
        t == ((q as i32) + ((b as i8) as i32)) as u16,
    ensures
        b < 128 && q + b < 65536 ==> t == q + b,
        b < 128 && q + b >= 65536 ==> t == q + b - 65536,
        b >= 128 && q + b >= 256 ==> t == q + b - 256,
        b >= 128 && q + b < 256 ==> t == q + b + 65280,
{
}

/// JR's effect for a given outcome of its condition.
#[verifier::rlimit(100)]
proof fn lemma_jr(c: CpuView, taken: bool)
    requires
        !c.halt_bug,
        c.delta_t_cycles <= i32::MAX - 8,
        crate::cpu::jr_step(c, taken) is Ok,
    ensures
        bus_read(c, c.pc) is Ok,
        ({
            let c2 = crate::cpu::jr_step(c, taken)->Ok_0;
            let offset = bus_read(c, c.pc)->Ok_0;
            &&& c2.pc == (if taken { (c.pc + 1 + signed_byte(offset)) % 65536 } else { (c.pc + 1) % 65536 })
            &&& c2.delta_t_cycles == c.delta_t_cycles + (if taken { 8int } else { 4int })
            &&& c2.registers == c.registers
            &&& c2.sp == c.sp
        }),
{
    lemma_tick_keeps_ram(c);
    let (c1, offset) = pc_fetch(c)->Ok_0;
    if taken {
        let t = relative_target(c1.pc, offset);
        lemma_relative_target(c1.pc, offset, t);
        lemma_tick_keeps_ram(CpuView { pc: t, ..c1 });
    }
}

/// JR e (0x18) always, and JR NZ, JR Z, JR NC, JR C (0x20, 0x28, 0x30, 0x38) exactly when
/// their condition holds, add the signed offset byte that follows the opcode to the address
/// after the instruction, and take 8 t-cycles; otherwise PC only moves past the offset, in
/// 4 t-cycles. The registers and SP are untouched. (`c` is the machine after the opcode
/// fetch: PC holds the address of the offset byte.)
#[verifier::rlimit(100)]
pub proof fn law_relative_jump(c: CpuView, op: u8)
    requires
        op == 0x18 || op == 0x20 || op == 0x28 || op == 0x30 || op == 0x38,
        !c.halt_bug,
        c.delta_t_cycles <= i32::MAX - 8,
        execute_step(c, op) is Ok,
    ensures
        bus_read(c, c.pc) is Ok,
        ({
            let c2 = execute_step(c, op)->Ok_0;
            let taken = op == 0x18 || condition_met(op, c.registers.f);
            let offset = bus_read(c, c.pc)->Ok_0;
            &&& c2.pc == (if taken { (c.pc + 1 + signed_byte(offset)) % 65536 } else { (c.pc + 1) % 65536 })
            &&& c2.delta_t_cycles == c.delta_t_cycles + (if taken { 8int } else { 4int })
            &&& c2.registers == c.registers
            &&& c2.sp == c.sp
        }),
{
    let taken = op == 0x18 || condition_met(op, c.registers.f);
    assert(execute_step(c, op) == relative_jump_step(c, op)) by {}
    assert(relative_jump_step(c, op) == crate::cpu::jr_step(c, taken)) by {
        reveal(relative_jump_step);
        let f = c.registers.f;
        assert(op == 0x20 ==> (condition_met(op, f) <==> f & 0x80 == 0));
        assert(op == 0x28 ==> (condition_met(op, f) <==> f & 0x80 != 0));
        assert(op == 0x30 ==> (condition_met(op, f) <==> f & 0x10 == 0));
        assert(op == 0x38 ==> (condition_met(op, f) <==> f & 0x10 != 0));
    }
    lemma_jr(c, taken);
}

/// The rotates and shifts of the CB table in arithmetic terms, numbered as there (RLC, RRC,
/// RL, RR, SLA, SRA, SWAP, SRL): the new value and the carry out, for the operand `v` and
/// the carry in. As this emulator has them, RRC, RR, SRA and SRL take the carry out from
/// bit 1 of the operand, and RRC rotates that bit into bit 7.
pub open spec fn shifted(kind: u8, v: u8, carry_in: bool) -> (u8, bool) {
    let bit1 = (v / 2) % 2 == 1;
    if kind == 0 {
        (((v * 2) % 256 + v / 128) as u8, v >= 128)
    } else if kind == 1 {
        ((v / 2 + (if bit1 { 128int } else { 0int })) as u8, bit1)
    } else if kind == 2 {
        (((v * 2) % 256 + (if carry_in { 1int } else { 0int })) as u8, v >= 128)
    } else if kind == 3 {
        ((v / 2 + (if carry_in { 128int } else { 0int })) as u8, bit1)
    } else if kind == 4 {
        (((v * 2) % 256) as u8, v >= 128)
    } else if kind == 5 {
        ((v / 2 + (if v >= 128 { 128int } else { 0int })) as u8, bit1)
    } else if kind == 6 {
        (((v % 16) * 16 + v / 16) as u8, false)
    } else {
        ((v / 2) as u8, bit1)
    }
}

proof fn lemma_shift_bits(v: u8)
    by (bit_vector)
    ensures
        v < 128 ==> (v << 1u8) == v * 2,
        v >= 128 ==> (v << 1u8) == v * 2 - 256,
        (v >> 1u8) == v / 2,
        ((v >> 7u8) & 1 == 1) == (v >= 128),
        ((v >> 1u8) & 1 == 1) == ((v / 2) % 2 == 1),
        ((v << 1u8) | 1u8) == (v << 1u8) + 1,
        ((v << 1u8) | 0u8) == (v << 1u8),
        ((v << 1u8) & 0xFE) == (v << 1u8),
        (((v << 1u8) & 0xFE) | 1u8) == (v << 1u8) + 1,
        (((v << 1u8) & 0xFE) | 0u8) == (v << 1u8),
        ((v >> 1u8) | (1u8 << 7u8)) == (v >> 1u8) + 128,
        ((v >> 1u8) | (0u8 << 7u8)) == (v >> 1u8),
        v >= 128 ==> (((v >> 1u8) & 0x7F) | (v & 0x80)) == v / 2 + 128,
        v < 128 ==> (((v >> 1u8) & 0x7F) | (v & 0x80)) == v / 2,
        (((v & 0x0F) << 4u8) | ((v & 0xF0) >> 4u8)) == (v % 16) * 16 + v / 16,
{
}

/// A rotate, shift or SWAP of a register (CB 0x00-0x3F, operand other than (HL)) writes the
/// value `shifted` gives into that register, sets the carry to its carry out and Z to whether
/// the new value is zero, clears N and H, and changes nothing else.
#[verifier::rlimit(100)]
pub proof fn law_cb_shifts(c: CpuView, op: u8)
    requires
        op < 0x40,
        op % 8 != 6,
    ensures
        cb_operation(c, op) is Ok,
        ({
            let index = op % 8;
            let r = c.registers;
            let (nv, carry) = shifted(op / 8, r.reg(index), r.f & 0x10 != 0);
            let c2 = cb_operation(c, op)->Ok_0;
            &&& c2.registers.reg(index) == nv
            &&& (c2.registers.f & 0x10 != 0) == carry
            &&& (c2.registers.f & 0x80 != 0) == (nv == 0)
            &&& c2.registers.f & 0x40 == 0
            &&& c2.registers.f & 0x20 == 0
            &&& c2.registers == (CpuRegisters { f: c2.registers.f, ..r.with_reg(index, nv) })
            &&& c2 == (CpuView { registers: c2.registers, ..c })
        }),
{
    broadcast use group_flags;
    let v = c.registers.reg(op % 8);
    lemma_shift_bits(v);
    assert(cb_shift(op / 8, v, c.registers).0 == shifted(op / 8, v, c.registers.f & 0x10 != 0).0);
}

/// The eight operations on A of the opcode table (ADD, ADC, SUB, SBC, AND, XOR, OR, CP) in
/// arithmetic terms: the new A, then the Z, N, H and C flags, for A = `a`, operand `n` and
/// carry in `cy`. H is the carry out of (or borrow into) bit 3, C out of (into) bit 7.
pub open spec fn alu_expected(operation: u8, a: u8, n: u8, cy: bool) -> (u8, bool, bool, bool, bool) {
    let c: int = if cy { 1 } else { 0 };
    if operation == 0 {
        let s = (a + n) % 256;
        (s as u8, s == 0, false, a % 16 + n % 16 > 15, a + n > 255)
    } else if operation == 1 {
        let s = (a + n + c) % 256;
        (s as u8, s == 0, false, a % 16 + n % 16 + c > 15, a + n + c > 255)
    } else if operation == 2 {
        let d = (a - n + 256) % 256;
        (d as u8, d == 0, true, a % 16 < n % 16, a < n)
    } else if operation == 3 {
        let d = (a - n - c + 512) % 256;
        (d as u8, d == 0, true, a % 16 < n % 16 + c, a < n + c)
    } else if operation == 4 {
        (a & n, a & n == 0, false, true, false)
    } else if operation == 5 {
        (a ^ n, a ^ n == 0, false, false, false)
    } else if operation == 6 {
        (a | n, a | n == 0, false, false, false)
    } else {
        (a, a == n, true, a % 16 < n % 16, a < n)
    }
}

/// The operations on A set A and the four flags as `alu_expected` says, and change no other
/// register.
pub open spec fn alu_matches(r: CpuRegisters, operation: u8, n: u8) -> bool {
    let (a, z, nf, h, cy) = alu_expected(operation, r.a, n, r.f & 0x10 != 0);
    let r2 = r.alu(operation, n);
    &&& r2.a == a
    &&& (r2.f & 0x80 != 0) == z
    &&& (r2.f & 0x40 != 0) == nf
    &&& (r2.f & 0x20 != 0) == h
    &&& (r2.f & 0x10 != 0) == cy
    &&& r2 == (CpuRegisters { a: r2.a, f: r2.f, ..r })
}

#[verifier::rlimit(100)]
proof fn lemma_alu_0(r: CpuRegisters, n: u8)
    ensures
        alu_matches(r, 0, n),
{
    broadcast use group_flags;
}

#[verifier::rlimit(100)]
proof fn lemma_alu_1(r: CpuRegisters, n: u8)
    ensures
        alu_matches(r, 1, n),
{
    broadcast use group_flags;
}

#[verifier::rlimit(100)]
proof fn lemma_alu_2(r: CpuRegisters, n: u8)
    ensures
        alu_matches(r, 2, n),
{
    broadcast use group_flags;
    let d: int = r.a - n;
    assert(d % 256 == (d + 256) % 256);
    assert(r.alu(2, n) == r.alu_sub(n));
}

#[verifier::rlimit(100)]
proof fn lemma_alu_3(r: CpuRegisters, n: u8)
    ensures
        alu_matches(r, 3, n),
{
    broadcast use group_flags;
    let cy: int = if r.f & 0x10 != 0 { 1 } else { 0 };
    let d: int = r.a - n - cy;
    assert(d % 256 == (d + 512) % 256);
    assert(r.alu(3, n) == r.alu_sbc(n));
}

#[verifier::rlimit(100)]
proof fn lemma_alu_4(r: CpuRegisters, n: u8)
    ensures
        alu_matches(r, 4, n),
{
    broadcast use group_flags;
}

#[verifier::rlimit(100)]
proof fn lemma_alu_5(r: CpuRegisters, n: u8)
    ensures
        alu_matches(r, 5, n),
{
    broadcast use group_flags;
}

#[verifier::rlimit(100)]
proof fn lemma_alu_6(r: CpuRegisters, n: u8)
    ensures
        alu_matches(r, 6, n),
{
    broadcast use group_flags;
}

#[verifier::rlimit(100)]
proof fn lemma_alu_7(r: CpuRegisters, n: u8)
    ensures
        alu_matches(r, 7, n),
{
    broadcast use group_flags;
}

/// ADD, ADC, SUB, SBC, AND, XOR, OR and CP set A and the Z, N, H and C flags as
/// `alu_expected` says in arithmetic terms, and change no other register.
pub proof fn law_alu(r: CpuRegisters, operation: u8, n: u8)
    requires
        operation < 8,
    ensures
        alu_matches(r, operation, n),
{
    if operation == 0 {
        lemma_alu_0(r, n);
    } else if operation == 1 {
        lemma_alu_1(r, n);
    } else if operation == 2 {
        lemma_alu_2(r, n);
    } else if operation == 3 {
        lemma_alu_3(r, n);
    } else if operation == 4 {
        lemma_alu_4(r, n);
    } else if operation == 5 {
        lemma_alu_5(r, n);
    } else if operation == 6 {
        lemma_alu_6(r, n);
    } else {
        lemma_alu_7(r, n);
    }
}

/// An operation on A with a register operand (0x80-0xBF, operand other than (HL)) applies the
/// operation in bits 3-5 to A and the register in bits 0-2 (see `law_alu`), and changes
/// nothing but A and F.
#[verifier::rlimit(100)]
pub proof fn law_alu_register(c: CpuView, op: u8)
    requires
        0x80 <= op <= 0xBF,
        op % 8 != 6,
    ensures
        execute_step(c, op) == Ok::<CpuView, EmulationError>(
            CpuView { registers: c.registers.alu(((op - 0x80) / 8) as u8, c.registers.reg(op % 8)), ..c },
        ),
{
    assert(execute_step(c, op) == block_step(c, op)) by {}
}

proof fn lemma_bit_ops(v: u8, b: u8, i: u8)
    by (bit_vector)
    requires
        b < 8,
        i < 8,
    ensures
        (((v & !(1u8 << b)) >> i) & 1 == 1) == (i != b && (v >> i) & 1 == 1),
        (((v | (1u8 << b)) >> i) & 1 == 1) == (i == b || (v >> i) & 1 == 1),
        (v & (1u8 << b) == 0) == !((v >> b) & 1 == 1),
{
}

/// BIT, RES and SET on a register (CB 0x40-0xFF, operand other than (HL)), for the bit
/// numbered in bits 3-5 of the opcode: BIT sets Z exactly when that bit is clear, clears N,
/// sets H and keeps C and every register; RES clears that bit of the register and SET sets
/// it, each keeping the other seven bits, the flags and the other registers.
#[verifier::rlimit(100)]
pub proof fn law_cb_bits(c: CpuView, op: u8)
    requires
        op >= 0x40,
        op % 8 != 6,
    ensures
        cb_operation(c, op) is Ok,
        ({
            let index = op % 8;
            let b = (op / 8) % 8;
            let r = c.registers;
            let v = r.reg(index);
            let c2 = cb_operation(c, op)->Ok_0;
            let r2 = c2.registers;
            &&& c2 == (CpuView { registers: r2, ..c })
            &&& op < 0x80 ==> {
                &&& (r2.f & 0x80 != 0) == !bit_of(v, b)
                &&& r2.f & 0x40 == 0
                &&& r2.f & 0x20 != 0
                &&& (r2.f & 0x10 != 0) == (r.f & 0x10 != 0)
                &&& r2 == (CpuRegisters { f: r2.f, ..r })
            }
            &&& op >= 0x80 ==> {
                &&& forall|i: u8| i < 8 ==> bit_of(#[trigger] r2.reg(index), i) == (if i == b { op >= 0xC0 } else { bit_of(v, i) })
                &&& r2 == r.with_reg(index, r2.reg(index))
            }
        }),
{
    broadcast use group_flags;
    let index = op % 8;
    let b = (op / 8) % 8;
    let v = c.registers.reg(index);
    let kind = op / 8;
    if op >= 0x80 {
        assert(kind < 24 ==> (kind - 16) as u8 == b);
        assert(kind >= 24 ==> (kind - 24) as u8 == b);
        let nv = res_set(kind, v);
        assert forall|i: u8| i < 8 implies bit_of(nv, i) == (if i == b { op >= 0xC0 } else { bit_of(v, i) }) by {
            lemma_bit_ops(v, b, i);
        }
    } else {
        assert((kind - 8) as u8 == b);
        lemma_bit_ops(v, b, 0);
    }
}

/// JP cc (0xC2 NZ, 0xCA Z, 0xD2 NC, 0xDA C) jumps exactly when its condition holds: then PC
/// becomes the address fetched after the opcode and the instruction takes 12 t-cycles;
/// otherwise PC moves past the address in 8 t-cycles. The registers and SP are untouched.
#[verifier::rlimit(100)]
pub proof fn law_conditional_jump(c: CpuView, op: u8)
    requires
        op == 0xC2 || op == 0xCA || op == 0xD2 || op == 0xDA,
        !c.halt_bug,
        c.delta_t_cycles <= i32::MAX - 12,
        execute_step(c, op) is Ok,
    ensures
        word_fetch(c) is Ok,
        ({
            let c2 = execute_step(c, op)->Ok_0;
            let taken = condition_met(op, c.registers.f);
            &&& c2.pc == (if taken { word_fetch(c)->Ok_0.1 as int } else { (c.pc + 2) % 65536 })
            &&& c2.delta_t_cycles == c.delta_t_cycles + (if taken { 12int } else { 8int })
            &&& c2.registers == c.registers
            &&& c2.sp == c.sp
        }),
{
    assert(execute_step(c, op) == jumps_step(c, op)) by {}
    reveal(jumps_step);
    let f = c.registers.f;
    assert(op == 0xC2 ==> (condition_met(op, f) <==> f & 0x80 == 0));
    assert(op == 0xCA ==> (condition_met(op, f) <==> f & 0x80 != 0));
    assert(op == 0xD2 ==> (condition_met(op, f) <==> f & 0x10 == 0));
    assert(op == 0xDA ==> (condition_met(op, f) <==> f & 0x10 != 0));
    lemma_tick_keeps_ram(c);
    let (c1, lo) = pc_fetch(c)->Ok_0;
    lemma_tick_keeps_ram(c1);
    let (c3, w) = word_fetch(c)->Ok_0;
    if condition_met(op, f) {
        lemma_tick_keeps_ram(CpuView { pc: w, ..c3 });
    }
}

/// RET cc (0xC0 NZ, 0xC8 Z, 0xD0 NC, 0xD8 C) returns exactly when its condition holds: then
/// it pops PC, moving SP up by two, in 16 t-cycles; otherwise it takes 4 t-cycles and leaves
/// PC and SP as they were. The registers are untouched either way.
#[verifier::rlimit(100)]
pub proof fn law_conditional_return(c: CpuView, op: u8)
    requires
        op == 0xC0 || op == 0xC8 || op == 0xD0 || op == 0xD8,
        c.sp <= 0xFFFD,
        c.delta_t_cycles <= i32::MAX - 16,
        execute_step(c, op) is Ok,
    ensures
        ({
            let c2 = execute_step(c, op)->Ok_0;
            let taken = condition_met(op, c.registers.f);
            &&& c2.delta_t_cycles == c.delta_t_cycles + (if taken { 16int } else { 4int })
            &&& c2.sp == (if taken { c.sp + 2 } else { c.sp as int })
            &&& !taken ==> c2.pc == c.pc
            &&& c2.registers == c.registers
        }),
{
    assert(execute_step(c, op) == returns_step(c, op)) by {}
    reveal(returns_step);
    let f = c.registers.f;
    assert(op == 0xC0 ==> (condition_met(op, f) <==> f & 0x80 == 0));
    assert(op == 0xC8 ==> (condition_met(op, f) <==> f & 0x80 != 0));
    assert(op == 0xD0 ==> (condition_met(op, f) <==> f & 0x10 == 0));
    assert(op == 0xD8 ==> (condition_met(op, f) <==> f & 0x10 != 0));
    lemma_tick_keeps_ram(c);
    let c1 = machine_tick(c)->Ok_0;
    if condition_met(op, f) {
        lemma_tick_keeps_ram(c1);
        let d1 = machine_tick(c1)->Ok_0;
        let e0 = CpuView { sp: (d1.sp + 1) as u16, ..d1 };
        lemma_tick_keeps_ram(e0);
        let (q, w) = stack_pop(c1)->Ok_0;
        lemma_tick_keeps_ram(CpuView { pc: w, ..q });
    }
}

/// CALL cc (0xC4 NZ, 0xCC Z, 0xD4 NC, 0xDC C) calls exactly when its condition holds: then PC
/// becomes the address fetched after the opcode, SP moves down by two for the return
/// address, and the instruction takes 20 t-cycles; otherwise PC moves past the address in
/// 8 t-cycles and SP stays. The registers are untouched either way.
#[verifier::rlimit(100)]
pub proof fn law_conditional_call(c: CpuView, op: u8)
    requires
        op == 0xC4 || op == 0xCC || op == 0xD4 || op == 0xDC,
        !c.halt_bug,
        c.sp >= 2,
        c.delta_t_cycles <= i32::MAX - 20,
        execute_step(c, op) is Ok,
    ensures
        word_fetch(c) is Ok,
        ({
            let c2 = execute_step(c, op)->Ok_0;
            let taken = condition_met(op, c.registers.f);
            &&& c2.pc == (if taken { word_fetch(c)->Ok_0.1 as int } else { (c.pc + 2) % 65536 })
            &&& c2.sp == (if taken { c.sp - 2 } else { c.sp as int })
            &&& c2.delta_t_cycles == c.delta_t_cycles + (if taken { 20int } else { 8int })
            &&& c2.registers == c.registers
        }),
{
    assert(execute_step(c, op) == jumps_step(c, op)) by {}
    reveal(jumps_step);
    let f = c.registers.f;
    assert(op == 0xC4 ==> (condition_met(op, f) <==> f & 0x80 == 0));
    assert(op == 0xCC ==> (condition_met(op, f) <==> f & 0x80 != 0));
    assert(op == 0xD4 ==> (condition_met(op, f) <==> f & 0x10 == 0));
    assert(op == 0xDC ==> (condition_met(op, f) <==> f & 0x10 != 0));
    lemma_tick_keeps_ram(c);
    let (c1, lo) = pc_fetch(c)->Ok_0;
    lemma_tick_keeps_ram(c1);
    let (c3, w) = word_fetch(c)->Ok_0;
    if condition_met(op, f) {
        let a = CpuView { sp: (c3.sp - 1) as u16, ..c3 };
        let a1 = crate::cpu::bus_write(a, a.sp, (c3.pc / 256) as u8);
        assert(a1.sp == a.sp && a1.registers == a.registers && a1.delta_t_cycles == a.delta_t_cycles) by {
            reveal(crate::cpu::bus_write);
        }
        lemma_tick_keeps_ram(a1);
        let b = machine_tick(a1)->Ok_0;
        let b0 = CpuView { sp: (b.sp - 1) as u16, ..b };
        let b1 = crate::cpu::bus_write(b0, b0.sp, (c3.pc % 256) as u8);
        assert(b1.sp == b0.sp && b1.registers == b0.registers && b1.delta_t_cycles == b0.delta_t_cycles) by {
            reveal(crate::cpu::bus_write);
        }
        lemma_tick_keeps_ram(b1);
        let p = stack_push(c3, c3.pc)->Ok_0;
        lemma_tick_keeps_ram(CpuView { pc: w, ..p });
    }
}

/// LD r, r' (0x40-0x7F but HALT, neither operand (HL)) copies the register named in bits
/// 0-2 into the one named in bits 3-5 and changes nothing else.
#[verifier::rlimit(100)]
pub proof fn law_register_load(c: CpuView, op: u8)
    requires
        0x40 <= op <= 0x7F,
        op != 0x76,
        op % 8 != 6,
        (op / 8) % 8 != 6,
    ensures
        execute_step(c, op) == Ok::<CpuView, EmulationError>(
            CpuView { registers: c.registers.with_reg((op / 8) % 8, c.registers.reg(op % 8)), ..c },
        ),
{
    let dst = ((op - 0x40) / 8) as u8;
    assert(dst == (op / 8) % 8);
    assert(op < 0x80 && op != 0x76 && dst != 6 && op % 8 != 6);
    assert(execute_step(c, op) == block_step(c, op)) by {}
    assert(block_step(c, op) == Ok::<CpuView, EmulationError>(
        with_registers(c, c.registers.with_reg(dst, c.registers.reg(op % 8))),
    )) by {}
}

/// INC r and DEC r (0x04/0x05 + 8 * r, r not (HL)) add or subtract one modulo 256; Z tells
/// whether the result is zero, N is set for DEC, H is the carry out of bit 3 (INC: the low
/// nibble was 0xF) or the borrow into it (DEC: the low nibble was 0); C and every other
/// register are kept.
#[verifier::rlimit(100)]
pub proof fn law_inc_dec_register(c: CpuView, op: u8)
    requires
        op < 0x40,
        op % 8 == 4 || op % 8 == 5,
        op / 8 != 6,
    ensures
        execute_step(c, op) is Ok,
        ({
            let index = op / 8;
            let r = c.registers;
            let v = r.reg(index);
            let inc = op % 8 == 4;
            let nv: int = if inc { (v + 1) % 256 } else { (v + 255) % 256 };
            let c2 = execute_step(c, op)->Ok_0;
            let r2 = c2.registers;
            &&& r2.reg(index) == nv
            &&& (r2.f & 0x80 != 0) == (nv == 0)
            &&& (r2.f & 0x40 != 0) == !inc
            &&& (r2.f & 0x20 != 0) == (if inc { v % 16 == 15 } else { v % 16 == 0 })
            &&& (r2.f & 0x10 != 0) == (r.f & 0x10 != 0)
            &&& r2 == (CpuRegisters { f: r2.f, ..r.with_reg(index, r2.reg(index)) })
            &&& c2 == (CpuView { registers: r2, ..c })
        }),
{
    assert(execute_step(c, op) == register_step(c, op)) by {}
    broadcast use group_flags;
    reveal(register_step);
    let v = c.registers.reg(op / 8);
    assert((v - 1) % 256 == (v + 255) % 256);
}

proof fn lemma_accumulator_bits(a: u8)
    by (bit_vector)
    ensures
        ((a >> 1u8) | ((a & 1) << 7u8)) == a / 2 + (a % 2) * 128,
        (a & 1 > 0) == (a % 2 == 1),
        (a & 1 == 1) == (a % 2 == 1),
        (a & 0x80 > 0) == (a >= 128),
        a < 128 ==> ((((a << 1u8) | (a >> 7u8)) & 0xFE) | 1u8) == a * 2 + 1,
        a < 128 ==> ((((a << 1u8) | (a >> 7u8)) & 0xFE) | 0u8) == a * 2,
        a >= 128 ==> ((((a << 1u8) | (a >> 7u8)) & 0xFE) | 1u8) == a * 2 - 255,
        a >= 128 ==> ((((a << 1u8) | (a >> 7u8)) & 0xFE) | 0u8) == a * 2 - 256,
        ((a >> 1u8) | (1u8 << 7u8)) == a / 2 + 128,
        ((a >> 1u8) | (0u8 << 7u8)) == a / 2,
        0u8 & 0x80 == 0 && 0u8 & 0x40 == 0 && 0u8 & 0x20 == 0,
{
}

/// What the rotates of A and the flag instructions do, in arithmetic terms: RLCA (0x07) and
/// RRCA (0x0F) rotate A, the bit that leaves going to the carry; RLA (0x17) and RRA (0x1F)
/// rotate A through the carry; all four clear Z, N and H. CPL (0x2F) complements A and sets
/// N and H; SCF (0x37) sets the carry, CCF (0x3F) flips it, both clearing N and H and
/// keeping Z. Only A and F change.
pub open spec fn accumulator_op_matches(c: CpuView, op: u8, c2: CpuView) -> bool {
    let r = c.registers;
    let a = r.a;
    let cin: int = if r.f & 0x10 != 0 { 1 } else { 0 };
    let r2 = c2.registers;
    let z = r2.f & 0x80 != 0;
    let n = r2.f & 0x40 != 0;
    let h = r2.f & 0x20 != 0;
    let cy = r2.f & 0x10 != 0;
    &&& c2 == (CpuView { registers: r2, ..c })
    &&& r2 == (CpuRegisters { a: r2.a, f: r2.f, ..r })
    &&& op == 0x07 ==> r2.a == (a * 2) % 256 + a / 128 && cy == (a >= 128) && !z && !n && !h
    &&& op == 0x0F ==> r2.a == a / 2 + (a % 2) * 128 && cy == (a % 2 == 1) && !z && !n && !h
    &&& op == 0x17 ==> r2.a == (a * 2) % 256 + cin && cy == (a >= 128) && !z && !n && !h
    &&& op == 0x1F ==> r2.a == a / 2 + cin * 128 && cy == (a % 2 == 1) && !z && !n && !h
    &&& op == 0x2F ==> r2.a == 255 - a && n && h && z == (r.f & 0x80 != 0) && cy == (cin == 1)
    &&& op == 0x37 ==> r2.a == a && cy && !n && !h && z == (r.f & 0x80 != 0)
    &&& op == 0x3F ==> r2.a == a && cy == (cin == 0) && !n && !h && z == (r.f & 0x80 != 0)
}

#[verifier::rlimit(100)]
proof fn lemma_accumulator_07(c: CpuView)
    ensures
        execute_step(c, 0x07) is Ok,
        accumulator_op_matches(c, 0x07, execute_step(c, 0x07)->Ok_0),
{
    assert(execute_step(c, 0x07) == accumulator_step(c, 0x07)) by {}
    assert(accumulator_step(c, 0x07) is Ok && accumulator_op_matches(c, 0x07, accumulator_step(c, 0x07)->Ok_0)) by {
        broadcast use group_flags;
        reveal(accumulator_step);
        lemma_accumulator_bits(c.registers.a);
        lemma_accumulator_bits(0);
        let a = c.registers.a;
        assert(a < 128 ==> (a * 2) % 256 == a * 2);
        assert(a >= 128 ==> (a * 2) % 256 == a * 2 - 256);
    }
}

#[verifier::rlimit(100)]
proof fn lemma_accumulator_0f(c: CpuView)
    ensures
        execute_step(c, 0x0F) is Ok,
        accumulator_op_matches(c, 0x0F, execute_step(c, 0x0F)->Ok_0),
{
    assert(execute_step(c, 0x0F) == accumulator_step(c, 0x0F)) by {}
    assert(accumulator_step(c, 0x0F) is Ok && accumulator_op_matches(c, 0x0F, accumulator_step(c, 0x0F)->Ok_0)) by {
        broadcast use group_flags;
        reveal(accumulator_step);
        lemma_accumulator_bits(c.registers.a);
        lemma_accumulator_bits(0);
        let a = c.registers.a;
        assert(a < 128 ==> (a * 2) % 256 == a * 2);
        assert(a >= 128 ==> (a * 2) % 256 == a * 2 - 256);
    }
}

#[verifier::rlimit(100)]
proof fn lemma_accumulator_17(c: CpuView)
    ensures
        execute_step(c, 0x17) is Ok,
        accumulator_op_matches(c, 0x17, execute_step(c, 0x17)->Ok_0),
{
    assert(execute_step(c, 0x17) == accumulator_step(c, 0x17)) by {}
    assert(accumulator_step(c, 0x17) is Ok && accumulator_op_matches(c, 0x17, accumulator_step(c, 0x17)->Ok_0)) by {
        broadcast use group_flags;
        reveal(accumulator_step);
        lemma_accumulator_bits(c.registers.a);
        lemma_accumulator_bits(0);
        let a = c.registers.a;
        assert(a < 128 ==> (a * 2) % 256 == a * 2);
        assert(a >= 128 ==> (a * 2) % 256 == a * 2 - 256);
    }
}

#[verifier::rlimit(100)]
proof fn lemma_accumulator_1f(c: CpuView)
    ensures
        execute_step(c, 0x1F) is Ok,
        accumulator_op_matches(c, 0x1F, execute_step(c, 0x1F)->Ok_0),
{
    assert(execute_step(c, 0x1F) == accumulator_step(c, 0x1F)) by {}
    assert(accumulator_step(c, 0x1F) is Ok && accumulator_op_matches(c, 0x1F, accumulator_step(c, 0x1F)->Ok_0)) by {
        broadcast use group_flags;
        reveal(accumulator_step);
        lemma_accumulator_bits(c.registers.a);
        lemma_accumulator_bits(0);
        let a = c.registers.a;
        assert(a < 128 ==> (a * 2) % 256 == a * 2);
        assert(a >= 128 ==> (a * 2) % 256 == a * 2 - 256);
    }
}

#[verifier::rlimit(100)]
proof fn lemma_accumulator_2f(c: CpuView)
    ensures
        execute_step(c, 0x2F) is Ok,
        accumulator_op_matches(c, 0x2F, execute_step(c, 0x2F)->Ok_0),
{
    assert(execute_step(c, 0x2F) == accumulator_step(c, 0x2F)) by {}
    assert(accumulator_step(c, 0x2F) is Ok && accumulator_op_matches(c, 0x2F, accumulator_step(c, 0x2F)->Ok_0)) by {
        broadcast use group_flags;
        reveal(accumulator_step);
        lemma_accumulator_bits(c.registers.a);
        lemma_accumulator_bits(0);
        let a = c.registers.a;
        assert(a < 128 ==> (a * 2) % 256 == a * 2);
        assert(a >= 128 ==> (a * 2) % 256 == a * 2 - 256);
    }
}

#[verifier::rlimit(100)]
proof fn lemma_accumulator_37(c: CpuView)
    ensures
        execute_step(c, 0x37) is Ok,
        accumulator_op_matches(c, 0x37, execute_step(c, 0x37)->Ok_0),
{
    assert(execute_step(c, 0x37) == accumulator_step(c, 0x37)) by {}
    assert(accumulator_step(c, 0x37) is Ok && accumulator_op_matches(c, 0x37, accumulator_step(c, 0x37)->Ok_0)) by {
        broadcast use group_flags;
        reveal(accumulator_step);
        lemma_accumulator_bits(c.registers.a);
        lemma_accumulator_bits(0);
        let a = c.registers.a;
        assert(a < 128 ==> (a * 2) % 256 == a * 2);
        assert(a >= 128 ==> (a * 2) % 256 == a * 2 - 256);
    }
}

#[verifier::rlimit(100)]
proof fn lemma_accumulator_3f(c: CpuView)
    ensures
        execute_step(c, 0x3F) is Ok,
        accumulator_op_matches(c, 0x3F, execute_step(c, 0x3F)->Ok_0),
{
    assert(execute_step(c, 0x3F) == accumulator_step(c, 0x3F)) by {}
    assert(accumulator_step(c, 0x3F) is Ok && accumulator_op_matches(c, 0x3F, accumulator_step(c, 0x3F)->Ok_0)) by {
        broadcast use group_flags;
        reveal(accumulator_step);
        lemma_accumulator_bits(c.registers.a);
        lemma_accumulator_bits(0);
        let a = c.registers.a;
        assert(a < 128 ==> (a * 2) % 256 == a * 2);
        assert(a >= 128 ==> (a * 2) % 256 == a * 2 - 256);
    }
}

/// RLCA, RRCA, RLA, RRA, CPL, SCF and CCF do what `accumulator_op_matches` says.
pub proof fn law_accumulator_ops(c: CpuView, op: u8)
    requires
        op == 0x07 || op == 0x0F || op == 0x17 || op == 0x1F || op == 0x2F || op == 0x37 || op == 0x3F,
    ensures
        execute_step(c, op) is Ok,
        accumulator_op_matches(c, op, execute_step(c, op)->Ok_0),
{
    if op == 0x07 {
        lemma_accumulator_07(c);
    } else if op == 0x0F {
        lemma_accumulator_0f(c);
    } else if op == 0x17 {
        lemma_accumulator_17(c);
    } else if op == 0x1F {
        lemma_accumulator_1f(c);
    } else if op == 0x2F {
        lemma_accumulator_2f(c);
    } else if op == 0x37 {
        lemma_accumulator_37(c);
    } else {
        lemma_accumulator_3f(c);
    }
}

/// The interrupts that are both requested (IF) and enabled (IE), among the five.
pub open spec fn pending_bits(c: CpuView) -> u8 {
    c.ih.IE & c.ih.IF & 0x1F
}

/// The lowest set bit of `bits` (4 when none of bits 0 to 3 is set).
pub open spec fn lowest_bit(bits: u8) -> u8 {
    if bits & 1 != 0 {
        0
    } else if bits & 2 != 0 {
        1
    } else if bits & 4 != 0 {
        2
    } else if bits & 8 != 0 {
        3
    } else {
        4
    }
}

/// What serving the interrupt of bit `i` does to PC, SP, the registers and IME: PC is pushed
/// (two bytes below SP), the CPU jumps to 0x40 + 8 * i and IME is cleared.
pub open spec fn interrupt_served(c: CpuView, i: u8, c2: CpuView) -> bool {
    &&& c2.pc == 0x40 + 8 * i
    &&& c2.sp == c.sp - 2
    &&& c2.registers == c.registers
    &&& !c2.ih.enabled
}

proof fn lemma_interrupt_masks(i: u8, f: u8, e: u8)
    by (bit_vector)
    requires
        i < 5,
    ensures
        i == 0 ==> (1u8 << i) == 1,
        i == 1 ==> (1u8 << i) == 2,
        i == 2 ==> (1u8 << i) == 4,
        i == 3 ==> (1u8 << i) == 8,
        i == 4 ==> (1u8 << i) == 16,
        ((1u8 << i) & f > 0) == (f & (1u8 << i) != 0),
        ((1u8 << i) & e > 0) == (e & (1u8 << i) != 0),
{
}

#[verifier::rlimit(100)]
proof fn lemma_serve_one(c: CpuView, i: u8)
    requires
        i < 5,
    ensures
        ({
            let m = 1u8 << i;
            let it = interrupt_at(i as int);
            &&& !(c.ih.enabled && c.ih.IF & m != 0 && c.ih.IE & m != 0) ==> serve(c, it) == Ok::<CpuView, EmulationError>(c)
            &&& (c.ih.enabled && c.ih.IF & m != 0 && c.ih.IE & m != 0 && serve(c, it) is Ok && c.sp >= 2) ==> interrupt_served(c, i, serve(c, it)->Ok_0)
        }),
{
    let it = interrupt_at(i as int);
    let m = 1u8 << i;
    let f = c.ih.IF;
    let e = c.ih.IE;
    lemma_interrupt_masks(i, c.ih.IF, c.ih.IE);
    assert(m == it.spec_mask());
    assert(it.spec_jump_vector() == 0x40 + 8 * i);
    let c1 = CpuView { ih: c.ih.unrequested(it), ..c };
    let a = CpuView { sp: (c1.sp - 1) as u16, ..c1 };
    let a1 = crate::cpu::bus_write(a, a.sp, (c1.pc / 256) as u8);
    assert(a1.sp == a.sp && a1.registers == a.registers) by {
        reveal(crate::cpu::bus_write);
    }
    lemma_tick_keeps_ram(a1);
    if machine_tick(a1) is Ok {
        let b = machine_tick(a1)->Ok_0;
        let b0 = CpuView { sp: (b.sp - 1) as u16, ..b };
        let b1 = crate::cpu::bus_write(b0, b0.sp, (c1.pc % 256) as u8);
        assert(b1.sp == b0.sp && b1.registers == b0.registers) by {
            reveal(crate::cpu::bus_write);
        }
        lemma_tick_keeps_ram(b1);
    }
}

proof fn lemma_pending(e: u8, f: u8)
    by (bit_vector)
    ensures
        ((e & f & 0x1F) & 1 != 0) == (f & 1 != 0 && e & 1 != 0),
        ((e & f & 0x1F) & 2 != 0) == (f & 2 != 0 && e & 2 != 0),
        ((e & f & 0x1F) & 4 != 0) == (f & 4 != 0 && e & 4 != 0),
        ((e & f & 0x1F) & 8 != 0) == (f & 8 != 0 && e & 8 != 0),
        ((e & f & 0x1F) & 16 != 0) == (f & 16 != 0 && e & 16 != 0),
        (e & f & 0x1F) != 0 ==> (e & f & 0x1F) & 1 != 0 || (e & f & 0x1F) & 2 != 0 || (e & f & 0x1F) & 4 != 0
            || (e & f & 0x1F) & 8 != 0 || (e & f & 0x1F) & 16 != 0,
        (e & f & 0x1F) != 0 ==> e != 0,
        (e & f & 0x1F) == 0 ==> !(f & 1 != 0 && e & 1 != 0) && !(f & 2 != 0 && e & 2 != 0) && !(f & 4 != 0 && e
            & 4 != 0) && !(f & 8 != 0 && e & 8 != 0) && !(f & 16 != 0 && e & 16 != 0),
{
}

/// Interrupt dispatch at the end of a cycle: when IME is set and some interrupt is both
/// requested and enabled, exactly one is served, the one of the lowest bit (V-blank, then
/// STAT, timer, serial, joypad): PC is pushed and the CPU jumps to 0x40 + 8 * bit, with IME
/// cleared. Otherwise the machine is left as it is.
#[verifier::rlimit(100)]
pub proof fn law_interrupt_dispatch(c: CpuView)
    requires
        c.sp >= 2,
        serve_if_enabled(c) is Ok,
    ensures
        ({
            let c2 = serve_if_enabled(c)->Ok_0;
            &&& c.ih.enabled && pending_bits(c) != 0 ==> interrupt_served(c, lowest_bit(pending_bits(c)), c2)
            &&& !(c.ih.enabled && pending_bits(c) != 0) ==> c2 == c
        }),
{
    let p = pending_bits(c);
    lemma_pending(c.ih.IE, c.ih.IF);
    lemma_interrupt_masks(0, c.ih.IF, c.ih.IE);
    lemma_interrupt_masks(1, c.ih.IF, c.ih.IE);
    lemma_interrupt_masks(2, c.ih.IF, c.ih.IE);
    lemma_interrupt_masks(3, c.ih.IF, c.ih.IE);
    lemma_interrupt_masks(4, c.ih.IF, c.ih.IE);
    if c.ih.enabled && c.ih.IE > 0 {
        assert(serve_if_enabled(c) == serve_interrupts(c, 5));
        lemma_prefix_ok(c, 1);
        lemma_prefix_ok(c, 2);
        lemma_prefix_ok(c, 3);
        lemma_prefix_ok(c, 4);
        let s1 = serve_interrupts(c, 1)->Ok_0;
        let s2 = serve_interrupts(c, 2)->Ok_0;
        let s3 = serve_interrupts(c, 3)->Ok_0;
        let s4 = serve_interrupts(c, 4)->Ok_0;
        let s5 = serve_interrupts(c, 5)->Ok_0;
        assert(serve_interrupts(c, 0) == Ok::<CpuView, EmulationError>(c));
        assert(serve_interrupts(c, 1) == serve(c, interrupt_at(0)));
        assert(serve_interrupts(c, 2) == serve(s1, interrupt_at(1)));
        assert(serve_interrupts(c, 3) == serve(s2, interrupt_at(2)));
        assert(serve_interrupts(c, 4) == serve(s3, interrupt_at(3)));
        assert(serve_interrupts(c, 5) == serve(s4, interrupt_at(4)));
        lemma_serve_one(c, 0);
        lemma_serve_one(s1, 1);
        lemma_serve_one(s2, 2);
        lemma_serve_one(s3, 3);
        lemma_serve_one(s4, 4);
        if p != 0 {
            let k = lowest_bit(p);
            assert(k == 0 ==> interrupt_served(c, 0, s1) && !s1.ih.enabled);
            assert(k == 1 ==> s1 == c && interrupt_served(c, 1, s2));
            assert(k == 2 ==> s1 == c && s2 == c && interrupt_served(c, 2, s3));
            assert(k == 3 ==> s1 == c && s2 == c && s3 == c && interrupt_served(c, 3, s4));
            assert(k == 4 ==> s1 == c && s2 == c && s3 == c && s4 == c && interrupt_served(c, 4, s5));
        } else {
            assert(s1 == c);
            assert(s2 == c);
            assert(s3 == c);
            assert(s4 == c);
            assert(s5 == c);
        }
    }
}

/// A prefix of a successful dispatch succeeds.
proof fn lemma_prefix_ok(c: CpuView, i: nat)
    requires
        i <= 5,
        serve_interrupts(c, 5) is Ok,
    ensures
        serve_interrupts(c, i) is Ok,
{
    if serve_interrupts(c, i) is Err {
        crate::cpu::lemma_serve_fails(c, i, 5, serve_interrupts(c, i)->Err_0);
    }
}

} // verus!
