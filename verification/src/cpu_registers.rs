use vstd::prelude::*;

verus! {

/// The eight 8-bit registers of the Game Boy CPU.
/// `f` holds the flags: bit 7 zero, bit 6 subtraction (N), bit 5 half carry, bit 4 carry.
pub struct CpuRegisters {
    pub a: u8,
    pub b: u8,
    pub c: u8,
    pub d: u8,
    pub e: u8,
    pub f: u8,
    pub h: u8,
    pub l: u8,
}

/// The 16-bit value whose high byte is `hi` and low byte is `lo`.
pub open spec fn word(hi: u8, lo: u8) -> u16 {
    (hi * 256 + lo) as u16
}

/// Reduction of an integer to a byte, modulo 256.
pub open spec fn wrap8(x: int) -> u8 {
    (x % 256) as u8
}

/// Reduction of an integer to a 16-bit word, modulo 65536.
pub open spec fn wrap16(x: int) -> u16 {
    (x % 65536) as u16
}

pub open spec fn zero_flag(f: u8) -> bool {
    f & 0x80 != 0
}

pub open spec fn n_flag(f: u8) -> bool {
    f & 0x40 != 0
}

pub open spec fn half_carry_flag(f: u8) -> bool {
    f & 0x20 != 0
}

pub open spec fn carry_flag(f: u8) -> bool {
    f & 0x10 != 0
}

/// The flags byte after the zero flag is set to `high`
/// (clearing a flag also clears the unused low nibble).
pub open spec fn with_zero(f: u8, high: bool) -> u8 {
    if high { f | 0x80 } else { f & 0x70 }
}

pub open spec fn with_n(f: u8, high: bool) -> u8 {
    if high { f | 0x40 } else { f & 0xB0 }
}

pub open spec fn with_half(f: u8, high: bool) -> u8 {
    if high { f | 0x20 } else { f & 0xD0 }
}

pub open spec fn with_carry(f: u8, high: bool) -> u8 {
    if high { f | 0x10 } else { f & 0xE0 }
}

/// The four flags of `f`, in the order zero, N, half carry, carry.
pub open spec fn flags_of(f: u8) -> (bool, bool, bool, bool) {
    (zero_flag(f), n_flag(f), half_carry_flag(f), carry_flag(f))
}

proof fn lemma_flag_bits(f: u8)
    by (bit_vector)
    ensures
        (f | 0x80) & 0x80 != 0,
        (f | 0x80) & 0x40 == f & 0x40,
        (f | 0x80) & 0x20 == f & 0x20,
        (f | 0x80) & 0x10 == f & 0x10,
        (f | 0x80) & 0x0F == f & 0x0F,
        (f & 0x70) & 0x80 == 0,
        (f & 0x70) & 0x40 == f & 0x40,
        (f & 0x70) & 0x20 == f & 0x20,
        (f & 0x70) & 0x10 == f & 0x10,
        (f & 0x70) & 0x0F == 0,
        (f | 0x40) & 0x80 == f & 0x80,
        (f | 0x40) & 0x40 != 0,
        (f | 0x40) & 0x20 == f & 0x20,
        (f | 0x40) & 0x10 == f & 0x10,
        (f | 0x40) & 0x0F == f & 0x0F,
        (f & 0xB0) & 0x80 == f & 0x80,
        (f & 0xB0) & 0x40 == 0,
        (f & 0xB0) & 0x20 == f & 0x20,
        (f & 0xB0) & 0x10 == f & 0x10,
        (f & 0xB0) & 0x0F == 0,
        (f | 0x20) & 0x80 == f & 0x80,
        (f | 0x20) & 0x40 == f & 0x40,
        (f | 0x20) & 0x20 != 0,
        (f | 0x20) & 0x10 == f & 0x10,
        (f | 0x20) & 0x0F == f & 0x0F,
        (f & 0xD0) & 0x80 == f & 0x80,
        (f & 0xD0) & 0x40 == f & 0x40,
        (f & 0xD0) & 0x20 == 0,
        (f & 0xD0) & 0x10 == f & 0x10,
        (f & 0xD0) & 0x0F == 0,
        (f | 0x10) & 0x80 == f & 0x80,
        (f | 0x10) & 0x40 == f & 0x40,
        (f | 0x10) & 0x20 == f & 0x20,
        (f | 0x10) & 0x10 != 0,
        (f | 0x10) & 0x0F == f & 0x0F,
        (f & 0xE0) & 0x80 == f & 0x80,
        (f & 0xE0) & 0x40 == f & 0x40,
        (f & 0xE0) & 0x20 == f & 0x20,
        (f & 0xE0) & 0x10 == 0,
        (f & 0xE0) & 0x0F == 0,
{
}

/// Setting the zero flag reads back as set, and leaves the other three flags alone.
pub broadcast proof fn lemma_with_zero(f: u8, high: bool)
    ensures
        #![trigger with_zero(f, high)]
        flags_of(with_zero(f, high)) == (high, n_flag(f), half_carry_flag(f), carry_flag(f)),
        zero_flag(with_zero(f, high)) == high,
        n_flag(with_zero(f, high)) == n_flag(f),
        half_carry_flag(with_zero(f, high)) == half_carry_flag(f),
        carry_flag(with_zero(f, high)) == carry_flag(f),
        with_zero(f, high) & 0x0F == (if high { f & 0x0F } else { 0 }),
{
    lemma_flag_bits(f);
}

/// Setting the N flag reads back as set, and leaves the other three flags alone.
pub broadcast proof fn lemma_with_n(f: u8, high: bool)
    ensures
        #![trigger with_n(f, high)]
        flags_of(with_n(f, high)) == (zero_flag(f), high, half_carry_flag(f), carry_flag(f)),
        zero_flag(with_n(f, high)) == zero_flag(f),
        n_flag(with_n(f, high)) == high,
        half_carry_flag(with_n(f, high)) == half_carry_flag(f),
        carry_flag(with_n(f, high)) == carry_flag(f),
        with_n(f, high) & 0x0F == (if high { f & 0x0F } else { 0 }),
{
    lemma_flag_bits(f);
}

/// Setting the half carry flag reads back as set, and leaves the other three flags alone.
pub broadcast proof fn lemma_with_half(f: u8, high: bool)
    ensures
        #![trigger with_half(f, high)]
        flags_of(with_half(f, high)) == (zero_flag(f), n_flag(f), high, carry_flag(f)),
        zero_flag(with_half(f, high)) == zero_flag(f),
        n_flag(with_half(f, high)) == n_flag(f),
        half_carry_flag(with_half(f, high)) == high,
        carry_flag(with_half(f, high)) == carry_flag(f),
        with_half(f, high) & 0x0F == (if high { f & 0x0F } else { 0 }),
{
    lemma_flag_bits(f);
}

/// Setting the carry flag reads back as set, and leaves the other three flags alone.
pub broadcast proof fn lemma_with_carry(f: u8, high: bool)
    ensures
        #![trigger with_carry(f, high)]
        flags_of(with_carry(f, high)) == (zero_flag(f), n_flag(f), half_carry_flag(f), high),
        zero_flag(with_carry(f, high)) == zero_flag(f),
        n_flag(with_carry(f, high)) == n_flag(f),
        half_carry_flag(with_carry(f, high)) == half_carry_flag(f),
        carry_flag(with_carry(f, high)) == high,
        with_carry(f, high) & 0x0F == (if high { f & 0x0F } else { 0 }),
{
    lemma_flag_bits(f);
}

pub broadcast group group_flags {
    lemma_with_zero,
    lemma_with_n,
    lemma_with_half,
    lemma_with_carry,
}

proof fn lemma_word_bits(hi: u8, lo: u8, n: u16)
    by (bit_vector)
    ensures
        ((hi as u16) << 8u16 | (lo as u16)) == ((hi as u16) * 256u16 + (lo as u16)) as u16,
        (n >> 8u16) as u8 == (n / 256u16) as u8,
        n as u8 == (n % 256u16) as u8,
{
}

proof fn lemma_byte_arith(a: u8, r: u8)
    by (bit_vector)
    ensures
        a & 0x0F == a % 16u8,
        r & 0x0F == r % 16u8,
        a ^ 0xFF == (255u8 - a) as u8,
        a & 0xF0 == (a - a % 16u8) as u8,
        (((a ^ r ^ ((a - r) as u8)) & 0x10) > 0) == (a % 16u8 < r % 16u8),
        a < r ==> (((a ^ r ^ ((a - r + 256) as u8)) & 0x10) > 0) == (a % 16u8 < r % 16u8),
        ((a & 0x80) >> 7u8) == a / 128u8,
        (a << 1u8) | ((a & 0x80) >> 7u8) == ((a % 128u8) * 2u8 + a / 128u8) as u8,
        (a >> 1u8) | ((a & 0x1) << 7u8) == (a / 2u8 + (a % 2u8) * 128u8) as u8,
        a & 1 == a % 2u8,
{
}

proof fn lemma_word_arith(x: u16)
    by (bit_vector)
    ensures
        x & 0xFFF == x % 4096u16,
{
}

impl CpuRegisters {
    /// The registers other than A and F are the same in `self` and `other`.
    pub open spec fn same_except_af(self, other: CpuRegisters) -> bool {
        &&& self.b == other.b
        &&& self.c == other.c
        &&& self.d == other.d
        &&& self.e == other.e
        &&& self.h == other.h
        &&& self.l == other.l
    }

    pub open spec fn af(self) -> u16 {
        word(self.a, self.f)
    }

    pub open spec fn bc(self) -> u16 {
        word(self.b, self.c)
    }

    pub open spec fn de(self) -> u16 {
        word(self.d, self.e)
    }

    pub open spec fn hl(self) -> u16 {
        word(self.h, self.l)
    }

    /// The registers with BC set to `n`.
    pub open spec fn with_bc(self, n: u16) -> CpuRegisters {
        CpuRegisters { b: (n / 256) as u8, c: (n % 256) as u8, ..self }
    }

    /// The registers with DE set to `n`.
    pub open spec fn with_de(self, n: u16) -> CpuRegisters {
        CpuRegisters { d: (n / 256) as u8, e: (n % 256) as u8, ..self }
    }

    /// The registers with HL set to `n`.
    pub open spec fn with_hl(self, n: u16) -> CpuRegisters {
        CpuRegisters { h: (n / 256) as u8, l: (n % 256) as u8, ..self }
    }

    /// The registers with AF set to `n`; the low nibble of F stays zero.
    pub open spec fn with_af(self, n: u16) -> CpuRegisters {
        CpuRegisters { a: (n / 256) as u8, f: ((n % 256) - (n % 16)) as u8, ..self }
    }

    /// The register that `index` names in an opcode: 0 B, 1 C, 2 D, 3 E, 4 H, 5 L, 7 A.
    pub open spec fn reg(self, index: u8) -> u8 {
        if index == 0 {
            self.b
        } else if index == 1 {
            self.c
        } else if index == 2 {
            self.d
        } else if index == 3 {
            self.e
        } else if index == 4 {
            self.h
        } else if index == 5 {
            self.l
        } else {
            self.a
        }
    }

    /// The registers with the one that `index` names set to `v`.
    pub open spec fn with_reg(self, index: u8, v: u8) -> CpuRegisters {
        if index == 0 {
            CpuRegisters { b: v, ..self }
        } else if index == 1 {
            CpuRegisters { c: v, ..self }
        } else if index == 2 {
            CpuRegisters { d: v, ..self }
        } else if index == 3 {
            CpuRegisters { e: v, ..self }
        } else if index == 4 {
            CpuRegisters { h: v, ..self }
        } else if index == 5 {
            CpuRegisters { l: v, ..self }
        } else {
            CpuRegisters { a: v, ..self }
        }
    }

    /// RLCA.
    pub open spec fn rlca_result(self) -> CpuRegisters {
        CpuRegisters {
            a: ((self.a * 2) % 256 + self.a / 128) as u8,
            f: with_zero(with_half(with_n(with_carry(self.f, self.a >= 128), false), false), false),
            ..self
        }
    }

    /// CPL.
    pub open spec fn cpl_result(self) -> CpuRegisters {
        CpuRegisters { a: (255 - self.a) as u8, f: with_half(with_n(self.f, true), true), ..self }
    }

    /// ADD HL, n.
    pub open spec fn add_hl_result(self, n: u16) -> CpuRegisters {
        CpuRegisters {
            f: with_n(
                with_half(with_carry(self.f, self.hl() + n > 0xFFFF), self.hl() % 4096 + n % 4096 > 0xFFF),
                false,
            ),
            ..self.with_hl(wrap16(self.hl() + n))
        }
    }

    /// ADD A, n.
    pub open spec fn alu_add(self, n: u8) -> CpuRegisters {
        let a = wrap8(self.a + n);
        CpuRegisters {
            a,
            f: with_n(
                with_zero(with_half(with_carry(self.f, self.a + n > 255), self.a % 16 + n % 16 > 15), a == 0),
                false,
            ),
            ..self
        }
    }

    /// ADC A, n.
    pub open spec fn alu_adc(self, n: u8) -> CpuRegisters {
        let cy: int = if carry_flag(self.f) { 1 } else { 0 };
        let a = wrap8(self.a + n + cy);
        CpuRegisters {
            a,
            f: with_zero(
                with_half(with_n(with_carry(self.f, self.a + cy + n > 0xFF), false), self.a % 16 + cy + n % 16 > 0xF),
                a == 0,
            ),
            ..self
        }
    }

    /// SUB A, n.
    pub open spec fn alu_sub(self, n: u8) -> CpuRegisters {
        CpuRegisters {
            a: wrap8(self.a - n),
            f: with_half(
                with_n(with_zero(with_carry(self.f, self.a < n), self.a == n), true),
                self.a % 16 < n % 16,
            ),
            ..self
        }
    }

    /// SBC A, n.
    pub open spec fn alu_sbc(self, n: u8) -> CpuRegisters {
        let cy: int = if carry_flag(self.f) { 1 } else { 0 };
        let a = wrap8(self.a - n - cy);
        CpuRegisters {
            a,
            f: with_zero(
                with_half(with_n(with_carry(self.f, self.a < cy + n), true), self.a % 16 < cy + n % 16),
                a == 0,
            ),
            ..self
        }
    }

    /// AND A, n.
    pub open spec fn alu_and(self, n: u8) -> CpuRegisters {
        let a = self.a & n;
        CpuRegisters { a, f: with_carry(with_half(with_n(with_zero(self.f, a == 0), false), true), false), ..self }
    }

    /// XOR A, n.
    pub open spec fn alu_xor(self, n: u8) -> CpuRegisters {
        let a = self.a ^ n;
        CpuRegisters { a, f: with_carry(with_half(with_n(with_zero(self.f, a == 0), false), false), false), ..self }
    }

    /// OR A, n.
    pub open spec fn alu_or(self, n: u8) -> CpuRegisters {
        let a = self.a | n;
        CpuRegisters { a, f: with_carry(with_half(with_n(with_zero(self.f, a == 0), false), false), false), ..self }
    }

    /// CP A, n: the flags of SUB A, n with A kept.
    pub open spec fn alu_cp(self, n: u8) -> CpuRegisters {
        CpuRegisters {
            f: with_carry(
                with_n(with_half(with_zero(self.f, self.a == n), self.a % 16 < n % 16), true),
                n > self.a,
            ),
            ..self
        }
    }

    /// The eight arithmetic and logic operations on A, numbered as in the opcode table
    /// (ADD, ADC, SUB, SBC, AND, XOR, OR, CP).
    pub open spec fn alu(self, operation: u8, n: u8) -> CpuRegisters {
        if operation == 0 {
            self.alu_add(n)
        } else if operation == 1 {
            self.alu_adc(n)
        } else if operation == 2 {
            self.alu_sub(n)
        } else if operation == 3 {
            self.alu_sbc(n)
        } else if operation == 4 {
            self.alu_and(n)
        } else if operation == 5 {
            self.alu_xor(n)
        } else if operation == 6 {
            self.alu_or(n)
        } else {
            self.alu_cp(n)
        }
    }

    /// The flags after INC of `reg` (carry kept).
    pub open spec fn inc_flags(self, reg: u8) -> CpuRegisters {
        CpuRegisters { f: with_n(with_zero(with_half(self.f, reg % 16 == 15), wrap8(reg + 1) == 0), false), ..self }
    }

    /// The flags after DEC of `reg` (carry kept).
    pub open spec fn dec_flags(self, reg: u8) -> CpuRegisters {
        CpuRegisters { f: with_n(with_half(with_zero(self.f, wrap8(reg - 1) == 0), reg % 16 == 0), true), ..self }
    }

    /// The register that `index` names in an opcode (6, the memory operand, is not a register).
    pub fn get_reg(&self, index: u8) -> (r: u8)
        requires
            index < 8,
            index != 6,
        ensures
            r == self.reg(index),
    {
        match index {
            0 => self.b,
            1 => self.c,
            2 => self.d,
            3 => self.e,
            4 => self.h,
            5 => self.l,
            _ => self.a,
        }
    }

    /// Sets the register that `index` names in an opcode.
    pub fn set_reg(&mut self, index: u8, v: u8)
        requires
            index < 8,
            index != 6,
        ensures
            *final(self) == old(self).with_reg(index, v),
    {
        match index {
            0 => self.b = v,
            1 => self.c = v,
            2 => self.d = v,
            3 => self.e = v,
            4 => self.h = v,
            5 => self.l = v,
            _ => self.a = v,
        }
    }

    pub fn get_af(&self) -> (r: u16)
        ensures
            r == self.a * 256 + self.f,
            r == self.af(),
    {
        proof {
            lemma_word_bits(self.a, self.f, 0);
        }
        (self.a as u16) << 8 | (self.f as u16)
    }

    pub fn get_bc(&self) -> (r: u16)
        ensures
            r == self.b * 256 + self.c,
            r == self.bc(),
    {
        proof {
            lemma_word_bits(self.b, self.c, 0);
        }
        (self.b as u16) << 8 | (self.c as u16)
    }

    pub fn get_de(&self) -> (r: u16)
        ensures
            r == self.d * 256 + self.e,
            r == self.de(),
    {
        proof {
            lemma_word_bits(self.d, self.e, 0);
        }
        (self.d as u16) << 8 | (self.e as u16)
    }

    pub fn get_hl(&self) -> (r: u16)
        ensures
            r == self.h * 256 + self.l,
            r == self.hl(),
    {
        proof {
            lemma_word_bits(self.h, self.l, 0);
        }
        (self.h as u16) << 8 | (self.l as u16)
    }

    /// Writes AF; the low nibble of F does not exist in hardware and is kept zero.
    pub fn set_af(&mut self, n: u16)
        ensures
            *final(self) == (CpuRegisters { a: (n / 256) as u8, f: ((n % 256) - (n % 16)) as u8, ..*old(self) }),
            *final(self) == old(self).with_af(n),
    {
        proof {
            lemma_word_bits(0, 0, n);
            lemma_byte_arith(n as u8, 0);
        }
        self.a = (n >> 8) as u8;
        self.f = n as u8;
        self.f = self.f & 0xF0;
    }

    pub fn set_bc(&mut self, n: u16)
        ensures
            *final(self) == (CpuRegisters { b: (n / 256) as u8, c: (n % 256) as u8, ..*old(self) }),
            final(self).bc() == n,
            *final(self) == old(self).with_bc(n),
    {
        proof {
            lemma_word_bits(0, 0, n);
        }
        self.b = (n >> 8) as u8;
        self.c = n as u8;
    }

    pub fn set_de(&mut self, n: u16)
        ensures
            *final(self) == (CpuRegisters { d: (n / 256) as u8, e: (n % 256) as u8, ..*old(self) }),
            final(self).de() == n,
            *final(self) == old(self).with_de(n),
    {
        proof {
            lemma_word_bits(0, 0, n);
        }
        self.d = (n >> 8) as u8;
        self.e = n as u8;
    }

    pub fn set_hl(&mut self, n: u16)
        ensures
            *final(self) == (CpuRegisters { h: (n / 256) as u8, l: (n % 256) as u8, ..*old(self) }),
            final(self).hl() == n,
            *final(self) == old(self).with_hl(n),
    {
        proof {
            lemma_word_bits(0, 0, n);
        }
        self.h = (n >> 8) as u8;
        self.l = n as u8;
    }

    /// RLCA: rotate A left; the bit that leaves through bit 7 goes to carry and to bit 0.
    pub fn rlca(&mut self)
        ensures
            final(self).a == (old(self).a * 2) % 256 + old(self).a / 128,
            final(self).f == with_zero(
                with_half(with_n(with_carry(old(self).f, old(self).a >= 128), false), false),
                false,
            ),
            flags_of(final(self).f) == (false, false, false, old(self).a >= 128),
            final(self).same_except_af(*old(self)),
            *final(self) == old(self).rlca_result(),
    {
        broadcast use group_flags;
        proof {
            lemma_byte_arith(self.a, 0);
        }
        let high_bit = (self.a & 0x80) >> 7;
        self.set_carry_flag(high_bit > 0);
        self.set_n_flag(false);
        self.set_half_carry_flag(false);
        self.set_zero_flag(false);
        self.a = self.a << 1;
        self.a = self.a | high_bit;
    }

    /// RRCA: rotate A right; the bit that leaves through bit 0 goes to carry and to bit 7.
    pub fn rrca(&mut self)
        ensures
            final(self).a == old(self).a / 2 + (old(self).a % 2) * 128,
            final(self).f == with_zero(
                with_half(with_n(with_carry(old(self).f, old(self).a % 2 == 1), false), false),
                false,
            ),
            flags_of(final(self).f) == (false, false, false, old(self).a % 2 == 1),
            final(self).same_except_af(*old(self)),
    {
        broadcast use group_flags;
        proof {
            lemma_byte_arith(self.a, 0);
        }
        let low_bit = self.a & 0x1;
        self.set_carry_flag(low_bit > 0);
        self.set_n_flag(false);
        self.set_half_carry_flag(false);
        self.set_zero_flag(false);
        self.a = self.a >> 1;
        self.a = self.a | (low_bit << 7);
    }

    pub fn and_u8(&mut self, reg: u8)
        ensures
            final(self).a == old(self).a & reg,
            final(self).f == with_carry(
                with_half(with_n(with_zero(old(self).f, final(self).a == 0), false), true),
                false,
            ),
            flags_of(final(self).f) == (final(self).a == 0, false, true, false),
            final(self).same_except_af(*old(self)),
            *final(self) == old(self).alu_and(reg),
    {
        broadcast use group_flags;
        self.a = self.a & reg;
        self.set_zero_flag(self.a == 0);
        self.set_n_flag(false);
        self.set_half_carry_flag(true);
        self.set_carry_flag(false);
    }

    pub fn or_u8(&mut self, c: u8)
        ensures
            final(self).a == old(self).a | c,
            final(self).f == with_carry(
                with_half(with_n(with_zero(old(self).f, final(self).a == 0), false), false),
                false,
            ),
            flags_of(final(self).f) == (final(self).a == 0, false, false, false),
            final(self).same_except_af(*old(self)),
            *final(self) == old(self).alu_or(c),
    {
        broadcast use group_flags;
        self.a = self.a | c;
        self.set_zero_flag(self.a == 0);
        self.set_n_flag(false);
        self.set_half_carry_flag(false);
        self.set_carry_flag(false);
    }

    pub fn xor_u8(&mut self, c: u8)
        ensures
            final(self).a == old(self).a ^ c,
            final(self).f == with_carry(
                with_half(with_n(with_zero(old(self).f, final(self).a == 0), false), false),
                false,
            ),
            flags_of(final(self).f) == (final(self).a == 0, false, false, false),
            final(self).same_except_af(*old(self)),
            *final(self) == old(self).alu_xor(c),
    {
        broadcast use group_flags;
        self.a = self.a ^ c;
        self.set_zero_flag(self.a == 0);
        self.set_n_flag(false);
        self.set_half_carry_flag(false);
        self.set_carry_flag(false);
    }

    /// Decrements `reg` by one (modulo 256) and sets Z, N and H for that result; carry is kept.
    pub fn dec_u8_reg(&mut self, reg: u8) -> (r: u8)
        ensures
            r == wrap8(reg - 1),
            *final(self) == (CpuRegisters {
                f: with_n(with_half(with_zero(old(self).f, r == 0), reg % 16 == 0), true),
                ..*old(self)
            }),
            flags_of(final(self).f) == (r == 0, true, reg % 16 == 0, carry_flag(old(self).f)),
            *final(self) == old(self).dec_flags(reg),
    {
        broadcast use group_flags;
        proof {
            lemma_byte_arith(reg, 0);
        }
        let new_reg = reg.wrapping_sub(1);
        self.set_zero_flag(new_reg == 0);
        self.set_half_carry_flag((reg & 0x0F) == 0);
        self.set_n_flag(true);
        new_reg
    }

    pub fn dec_bc(&mut self)
        ensures
            final(self).bc() == wrap16(old(self).bc() - 1),
            *final(self) == (CpuRegisters { b: final(self).b, c: final(self).c, ..*old(self) }),
            *final(self) == old(self).with_bc(wrap16(old(self).bc() - 1)),
    {
        let new = self.get_bc().wrapping_sub(1);
        self.set_bc(new);
    }

    pub fn dec_de(&mut self)
        ensures
            final(self).de() == wrap16(old(self).de() - 1),
            *final(self) == (CpuRegisters { d: final(self).d, e: final(self).e, ..*old(self) }),
            *final(self) == old(self).with_de(wrap16(old(self).de() - 1)),
    {
        let new = self.get_de().wrapping_sub(1);
        self.set_de(new);
    }

    pub fn dec_hl(&mut self)
        ensures
            final(self).hl() == wrap16(old(self).hl() - 1),
            *final(self) == (CpuRegisters { h: final(self).h, l: final(self).l, ..*old(self) }),
            *final(self) == old(self).with_hl(wrap16(old(self).hl() - 1)),
    {
        let new = self.get_hl().wrapping_sub(1);
        self.set_hl(new);
    }

    /// Increments `reg` by one (modulo 256) and sets Z, N and H for that result; carry is kept.
    pub fn inc_u8_reg(&mut self, reg: u8) -> (r: u8)
        ensures
            r == wrap8(reg + 1),
            *final(self) == (CpuRegisters {
                f: with_n(with_zero(with_half(old(self).f, reg % 16 == 15), r == 0), false),
                ..*old(self)
            }),
            flags_of(final(self).f) == (r == 0, false, reg % 16 == 15, carry_flag(old(self).f)),
            *final(self) == old(self).inc_flags(reg),
    {
        broadcast use group_flags;
        proof {
            lemma_byte_arith(reg, 0);
        }
        self.set_half_carry_flag((reg & 0x0F) as u16 + 1 > 0x0F);
        let new_reg = reg.wrapping_add(1);
        self.set_zero_flag(new_reg == 0);
        self.set_n_flag(false);
        new_reg
    }

    /// CP: compares A with `value` by a subtraction whose result is dropped.
    pub fn cp_u8(&mut self, value: u8)
        ensures
            final(self).a == old(self).a,
            final(self).f == with_carry(
                with_n(
                    with_half(
                        with_zero(old(self).f, old(self).a == value),
                        old(self).a % 16 < value % 16,
                    ),
                    true,
                ),
                value > old(self).a,
            ),
            flags_of(final(self).f) == (
                old(self).a == value,
                true,
                old(self).a % 16 < value % 16,
                value > old(self).a,
            ),
            final(self).same_except_af(*old(self)),
            *final(self) == old(self).alu_cp(value),
    {
        broadcast use group_flags;
        proof {
            lemma_byte_arith(self.a, value);
        }
        let result = self.a.wrapping_sub(value);
        self.set_zero_flag(result == 0);
        self.set_half_carry_flag((self.a & 0xF).wrapping_sub(value & 0xF) > 0xF);
        self.set_n_flag(true);
        self.set_carry_flag(value > self.a);
    }

    /// ADD A, n
    pub fn add_u8(&mut self, n: u8)
        ensures
            final(self).a == wrap8(old(self).a + n),
            final(self).f == with_n(
                with_zero(
                    with_half(
                        with_carry(old(self).f, old(self).a + n > 255),
                        old(self).a % 16 + n % 16 > 15,
                    ),
                    final(self).a == 0,
                ),
                false,
            ),
            flags_of(final(self).f) == (
                final(self).a == 0,
                false,
                old(self).a % 16 + n % 16 > 15,
                old(self).a + n > 255,
            ),
            final(self).same_except_af(*old(self)),
            *final(self) == old(self).alu_add(n),
    {
        broadcast use group_flags;
        proof {
            lemma_byte_arith(self.a, n);
        }
        self.set_carry_flag(self.a > self.a.wrapping_add(n));
        self.set_half_carry_flag((self.a & 0x0F) + (n & 0x0F) > 0x0F);
        self.a = self.a.wrapping_add(n);
        self.set_zero_flag(self.a == 0);
        self.set_n_flag(false);
    }

    /// ADD HL, n: zero flag is kept.
    pub fn add_to_hl_u16(&mut self, n: u16)
        ensures
            final(self).hl() == wrap16(old(self).hl() + n),
            final(self).f == with_n(
                with_half(
                    with_carry(old(self).f, old(self).hl() + n > 0xFFFF),
                    old(self).hl() % 4096 + n % 4096 > 0xFFF,
                ),
                false,
            ),
            flags_of(final(self).f) == (
                zero_flag(old(self).f),
                false,
                old(self).hl() % 4096 + n % 4096 > 0xFFF,
                old(self).hl() + n > 0xFFFF,
            ),
            *final(self) == (CpuRegisters {
                f: final(self).f,
                h: final(self).h,
                l: final(self).l,
                ..*old(self)
            }),
            *final(self) == old(self).add_hl_result(n),
    {
        broadcast use group_flags;
        let new_reg = self.get_hl().wrapping_add(n);
        self.set_carry_flag(new_reg < self.get_hl());
        let hl = self.get_hl();
        proof {
            lemma_word_arith(hl);
            lemma_word_arith(n);
        }
        self.set_half_carry_flag((hl & 0xFFF) + (n & 0xFFF) > 0xFFF);
        self.set_n_flag(false);
        self.set_hl(new_reg);
    }

    /// SUB A, reg
    pub fn sub_u8(&mut self, reg: u8)
        ensures
            final(self).a == wrap8(old(self).a - reg),
            final(self).f == with_half(
                with_n(with_zero(with_carry(old(self).f, old(self).a < reg), old(self).a == reg), true),
                old(self).a % 16 < reg % 16,
            ),
            flags_of(final(self).f) == (
                old(self).a == reg,
                true,
                old(self).a % 16 < reg % 16,
                old(self).a < reg,
            ),
            final(self).same_except_af(*old(self)),
            *final(self) == old(self).alu_sub(reg),
    {
        broadcast use group_flags;
        proof {
            lemma_byte_arith(self.a, reg);
        }
        self.set_carry_flag(self.a < reg);
        let result = self.a.wrapping_sub(reg);
        self.set_zero_flag(result == 0);
        self.set_n_flag(true);
        self.set_half_carry_flag(((self.a ^ reg ^ result) & 0x10) > 0);
        self.a = result;
    }

    pub fn set_zero_flag(&mut self, is_high: bool)
        ensures
            *final(self) == (CpuRegisters { f: with_zero(old(self).f, is_high), ..*old(self) }),
    {
        if is_high {
            self.f = self.f | 0b1000_0000;
        } else {
            self.f = self.f & 0b0111_0000;
        }
    }

    pub fn set_carry_flag(&mut self, is_high: bool)
        ensures
            *final(self) == (CpuRegisters { f: with_carry(old(self).f, is_high), ..*old(self) }),
    {
        if is_high {
            self.f = self.f | 0b0001_0000;
        } else {
            self.f = self.f & 0b1110_0000;
        }
    }

    pub fn set_n_flag(&mut self, is_high: bool)
        ensures
            *final(self) == (CpuRegisters { f: with_n(old(self).f, is_high), ..*old(self) }),
    {
        if is_high {
            self.f = self.f | 0b0100_0000;
        } else {
            self.f = self.f & 0b1011_0000;
        }
    }

    pub fn set_half_carry_flag(&mut self, is_high: bool)
        ensures
            *final(self) == (CpuRegisters { f: with_half(old(self).f, is_high), ..*old(self) }),
    {
        if is_high {
            self.f = self.f | 0b0010_0000;
        } else {
            self.f = self.f & 0b1101_0000;
        }
    }

    pub fn is_half_carry_flag_high(&self) -> (r: bool)
        ensures
            r == half_carry_flag(self.f),
    {
        (self.f & 0b0010_0000) > 0
    }

    pub fn is_carry_flag_high(&self) -> (r: bool)
        ensures
            r == carry_flag(self.f),
    {
        (self.f & 0b0001_0000) > 0
    }

    pub fn is_zero_flag_high(&self) -> (r: bool)
        ensures
            r == zero_flag(self.f),
    {
        (self.f & 0b1000_0000) > 0
    }

    pub fn is_n_flag_high(&self) -> (r: bool)
        ensures
            r == n_flag(self.f),
    {
        (self.f & 0b0100_0000) > 0
    }

    /// Uses the low four bits of `flags` as the flags (Z N H C from bit 3 down to bit 0).
    pub fn set_flags(&mut self, flags: u8)
        ensures
            *final(self) == (CpuRegisters { f: ((flags * 16) % 256) as u8, ..*old(self) }),
    {
        proof {
            assert(flags << 4u8 == (flags * 16) % 256) by (bit_vector);
        }
        self.f = flags << 4;
    }

    pub fn unset_flags(&mut self)
        ensures
            *final(self) == (CpuRegisters { f: 0, ..*old(self) }),
    {
        self.f = 0;
    }

    /// CPL: complements A and sets N and H.
    pub fn cpl(&mut self)
        ensures
            final(self).a == 255 - old(self).a,
            final(self).f == with_half(with_n(old(self).f, true), true),
            flags_of(final(self).f) == (zero_flag(old(self).f), true, true, carry_flag(old(self).f)),
            final(self).same_except_af(*old(self)),
            *final(self) == old(self).cpl_result(),
    {
        broadcast use group_flags;
        proof {
            lemma_byte_arith(self.a, 0);
        }
        self.a = self.a ^ 0xFF;
        self.set_n_flag(true);
        self.set_half_carry_flag(true);
    }

    /// ADC A, reg: adds `reg` and the carry flag to A.
    pub fn adc_u8(&mut self, reg: u8)
        ensures
            ({
                let cy: int = if carry_flag(old(self).f) { 1 } else { 0 };
                &&& final(self).a == wrap8(old(self).a + reg + cy)
                &&& final(self).f == with_zero(
                    with_half(
                        with_n(with_carry(old(self).f, old(self).a + cy + reg > 0xFF), false),
                        old(self).a % 16 + cy + reg % 16 > 0xF,
                    ),
                    final(self).a == 0,
                )
                &&& flags_of(final(self).f) == (
                    final(self).a == 0,
                    false,
                    old(self).a % 16 + cy + reg % 16 > 0xF,
                    old(self).a + cy + reg > 0xFF,
                )
            }),
            final(self).same_except_af(*old(self)),
            *final(self) == old(self).alu_adc(reg),
    {
        broadcast use group_flags;
        proof {
            lemma_byte_arith(self.a, reg);
        }
        let carry = if self.is_carry_flag_high() { 1u8 } else { 0u8 };

        self.set_carry_flag((self.a as u32) + carry as u32 + (reg as u32) > 0xFF);
        self.set_n_flag(false);
        self.set_half_carry_flag((self.a & 0xF) + carry + (reg & 0xF) > 0xF);

        self.a = self.a.wrapping_add(reg.wrapping_add(carry));
        self.set_zero_flag(self.a == 0);
    }

    /// SBC A, reg: subtracts `reg` and the carry flag from A.
    pub fn sbc_u8(&mut self, reg: u8)
        ensures
            ({
                let cy: int = if carry_flag(old(self).f) { 1 } else { 0 };
                &&& final(self).a == wrap8(old(self).a - reg - cy)
                &&& final(self).f == with_zero(
                    with_half(
                        with_n(with_carry(old(self).f, old(self).a < cy + reg), true),
                        old(self).a % 16 < cy + reg % 16,
                    ),
                    final(self).a == 0,
                )
                &&& flags_of(final(self).f) == (
                    final(self).a == 0,
                    true,
                    old(self).a % 16 < cy + reg % 16,
                    old(self).a < cy + reg,
                )
            }),
            final(self).same_except_af(*old(self)),
            *final(self) == old(self).alu_sbc(reg),
    {
        broadcast use group_flags;
        proof {
            lemma_byte_arith(self.a, reg);
        }
        let carry = if self.is_carry_flag_high() { 1u8 } else { 0u8 };

        self.set_carry_flag((self.a as u32) < carry as u32 + (reg as u32));
        self.set_n_flag(true);
        self.set_half_carry_flag((self.a & 0xF) < carry + (reg & 0xF));

        self.a = self.a.wrapping_sub(reg).wrapping_sub(carry);
        self.set_zero_flag(self.a == 0);
    }
}

impl Default for CpuRegisters {
    fn default() -> (r: Self)
        ensures
            r == (CpuRegisters { a: 0, b: 0, c: 0, d: 0, e: 0, f: 0, h: 0, l: 0 }),
    {
        CpuRegisters { a: 0, b: 0, c: 0, d: 0, e: 0, f: 0, h: 0, l: 0 }
    }
}

/// A register pair reads back the word written to it; AF reads back without the low nibble
/// of F, which the hardware does not have.
pub proof fn law_register_pairs_read_back(r: CpuRegisters, n: u16)
    ensures
        r.with_bc(n).bc() == n,
        r.with_de(n).de() == n,
        r.with_hl(n).hl() == n,
        r.with_af(n).af() == n - n % 16,
        r.with_af(n).f % 16 == 0,
{
}

/// A flag reads back as it was set, the other flags stay, and the low nibble of F stays clear
/// when it was.
pub proof fn law_flags_read_back(f: u8, high: bool)
    ensures
        flags_of(with_zero(f, high)) == (high, n_flag(f), half_carry_flag(f), carry_flag(f)),
        flags_of(with_n(f, high)) == (zero_flag(f), high, half_carry_flag(f), carry_flag(f)),
        flags_of(with_half(f, high)) == (zero_flag(f), n_flag(f), high, carry_flag(f)),
        flags_of(with_carry(f, high)) == (zero_flag(f), n_flag(f), half_carry_flag(f), high),
        f & 0x0F == 0 ==> {
            &&& with_zero(f, high) & 0x0F == 0
            &&& with_n(f, high) & 0x0F == 0
            &&& with_half(f, high) & 0x0F == 0
            &&& with_carry(f, high) & 0x0F == 0
        },
{
    lemma_with_zero(f, high);
    lemma_with_n(f, high);
    lemma_with_half(f, high);
    lemma_with_carry(f, high);
}

/// The flag numbered `k` of `f`: 0 zero, 1 N, 2 half carry, 3 carry.
pub open spec fn flag(f: u8, k: u8) -> bool {
    if k == 0 {
        zero_flag(f)
    } else if k == 1 {
        n_flag(f)
    } else if k == 2 {
        half_carry_flag(f)
    } else {
        carry_flag(f)
    }
}

/// F after the setter of the flag numbered `k` (`set_zero_flag`, `set_n_flag`,
/// `set_half_carry_flag`, `set_carry_flag` for 0 to 3) sets it to `high`; any other
/// number names no setter and leaves F alone.
pub open spec fn with_flag(f: u8, k: u8, high: bool) -> u8 {
    if k == 0 {
        with_zero(f, high)
    } else if k == 1 {
        with_n(f, high)
    } else if k == 2 {
        with_half(f, high)
    } else if k == 3 {
        with_carry(f, high)
    } else {
        f
    }
}

/// F after a sequence of setter calls, in order; each step names the flag and the value it
/// is set to.
pub open spec fn with_flags(f: u8, steps: Seq<(u8, bool)>) -> u8
    decreases steps.len(),
{
    if steps.len() == 0 {
        f
    } else {
        let (k, high) = steps.last();
        with_flag(with_flags(f, steps.drop_last()), k, high)
    }
}

/// The four flags are independent: once a flag is set to `high`, any sequence of calls of
/// the other three setters leaves it reading `high`. (So after `set_carry_flag(b)`, any
/// number of `set_zero_flag`, `set_n_flag` and `set_half_carry_flag` calls keep the carry
/// at `b`, and likewise for each other flag.)
pub proof fn law_flags_independent(f: u8, k: u8, high: bool, steps: Seq<(u8, bool)>)
    requires
        k < 4,
        forall|i: int| 0 <= i < steps.len() ==> (#[trigger] steps[i]).0 != k,
    ensures
        flag(with_flags(with_flag(f, k, high), steps), k) == high,
    decreases steps.len(),
{
    broadcast use group_flags;
    if steps.len() > 0 {
        let rest = steps.drop_last();
        assert forall|i: int| 0 <= i < rest.len() implies (#[trigger] rest[i]).0 != k by {
            assert(rest[i] == steps[i]);
        }
        law_flags_independent(f, k, high, rest);
        assert(steps.last() == steps[steps.len() - 1]);
    }
}

} // verus!
