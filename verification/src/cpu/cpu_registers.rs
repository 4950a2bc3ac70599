use vstd::prelude::*;

verus! {

/// The plain register file: eight bytes addressed singly or in 16-bit pairs,
/// with no flag logic attached.
pub struct CpuRegisters {
    pub a: u8,
    pub b: u8,
    pub c: u8,
    pub d: u8,
    pub e: u8,
    pub f: u8,
    pub h: u8,
    pub l: u8,
}

proof fn lemma_pair_bits(hi: u8, lo: u8, n: u16)
    by (bit_vector)
    ensures
        ((hi as u16) << 8u16 | (lo as u16)) == ((hi as u16) * 256u16 + (lo as u16)) as u16,
        (n >> 8u16) as u8 == (n / 256u16) as u8,
        n as u8 == (n % 256u16) as u8,
{
}

impl CpuRegisters {
    pub fn get_af(&self) -> (r: u16)
        ensures
            r == self.a * 256 + self.f,
    {
        proof {
            lemma_pair_bits(self.a, self.f, 0);
        }
        (self.a as u16) << 8 | self.f as u16
    }

    pub fn get_bc(&self) -> (r: u16)
        ensures
            r == self.b * 256 + self.c,
    {
        proof {
            lemma_pair_bits(self.b, self.c, 0);
        }
        (self.b as u16) << 8 | self.c as u16
    }

    pub fn get_de(&self) -> (r: u16)
        ensures
            r == self.d * 256 + self.e,
    {
        proof {
            lemma_pair_bits(self.d, self.e, 0);
        }
        (self.d as u16) << 8 | self.e as u16
    }

    pub fn get_hl(&self) -> (r: u16)
        ensures
            r == self.h * 256 + self.l,
    {
        proof {
            lemma_pair_bits(self.h, self.l, 0);
        }
        (self.h as u16) << 8 | self.l as u16
    }

    /// Writes AF: A takes the high byte, F the low byte, unmasked.
    pub fn set_af(&mut self, n: u16)
        ensures
            *final(self) == (CpuRegisters { a: (n / 256) as u8, f: (n % 256) as u8, ..*old(self) }),
    {
        proof {
            lemma_pair_bits(0, 0, n);
        }
        self.a = (n >> 8) as u8;
        self.f = n as u8;
    }

    pub fn set_bc(&mut self, n: u16)
        ensures
            *final(self) == (CpuRegisters { b: (n / 256) as u8, c: (n % 256) as u8, ..*old(self) }),
    {
        proof {
            lemma_pair_bits(0, 0, n);
        }
        self.b = (n >> 8) as u8;
        self.c = n as u8;
    }

    pub fn set_de(&mut self, n: u16)
        ensures
            *final(self) == (CpuRegisters { d: (n / 256) as u8, e: (n % 256) as u8, ..*old(self) }),
    {
        proof {
            lemma_pair_bits(0, 0, n);
        }
        self.d = (n >> 8) as u8;
        self.e = n as u8;
    }

    pub fn set_hl(&mut self, n: u16)
        ensures
            *final(self) == (CpuRegisters { h: (n / 256) as u8, l: (n % 256) as u8, ..*old(self) }),
    {
        proof {
            lemma_pair_bits(0, 0, n);
        }
        self.h = (n >> 8) as u8;
        self.l = n as u8;
    }
}

impl Default for CpuRegisters {
    fn default() -> (r: Self)
        ensures
            r == (CpuRegisters { a: 0, b: 0, c: 0, d: 0, e: 0, f: 0, h: 0, l: 0 }),
    {
        CpuRegisters { a: 0, b: 0, c: 0, d: 0, e: 0, f: 0, h: 0, l: 0 }
    }
}

} // verus!
