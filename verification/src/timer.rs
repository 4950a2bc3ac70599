use vstd::prelude::*;

use crate::interrupt_handler::{Interrupt, InterruptHandler};

verus! {

/// The Game Boy timer.
/// `divider` counts t-cycles and always runs; `tima` counts at the rate that the low two
/// bits of `timer_control` (TAC) select, while bit 2 of TAC is set; when `tima` overflows
/// it is reloaded from `tma` one m-cycle later and the timer interrupt is requested.
pub struct Timer {
    /// Kept at zero; the timer counts from `divider`.
    pub delta_cycles_tima: i32,
    pub divider: u16,
    pub tima: u8,
    pub tma: u8,
    pub tima_was_reloaded: bool,
    pub timer_control: u8,
    pub reload_tima_next_m_cycle: bool,
}

/// The state of a `Timer`, field by field.
pub struct TimerView {
    pub divider: u16,
    pub tima: u8,
    pub tma: u8,
    pub tima_was_reloaded: bool,
    pub timer_control: u8,
    pub reload_tima_next_m_cycle: bool,
}

/// The divider bit whose falling edge advances TIMA, for the clock select bits of `tac`.
pub open spec fn frequency_mask(tac: u8) -> u16 {
    let sel = tac % 4;
    if sel == 0 { 0x200 } else if sel == 1 { 0x8 } else if sel == 2 { 0x20 } else { 0x80 }
}

/// The timer state after one m-cycle (four t-cycles), and whether the timer interrupt is requested.
pub open spec fn spec_tick(t: TimerView) -> (TimerView, bool) {
    let mask = frequency_mask(t.timer_control);
    let was_one = mask & t.divider != 0;
    let div = ((t.divider + 4) % 65536) as u16;
    if t.timer_control & 4 == 0 {
        (TimerView { divider: div, ..t }, false)
    } else {
        let reload = t.reload_tima_next_m_cycle;
        let tima1 = if reload { t.tma } else { t.tima };
        let edge = div & mask == 0 && was_one;
        (TimerView {
            divider: div,
            tima: if edge { ((tima1 + 1) % 256) as u8 } else { tima1 },
            tima_was_reloaded: reload,
            reload_tima_next_m_cycle: if edge { tima1 == 255 } else { false },
            ..t
        }, reload)
    }
}

/// What a read of `address` gives.
pub open spec fn spec_read(t: TimerView, address: u16) -> u8 {
    if address == 0xFF04 {
        (t.divider / 256) as u8
    } else if address == 0xFF05 {
        t.tima
    } else if address == 0xFF06 {
        t.tma
    } else if address == 0xFF07 {
        t.timer_control
    } else {
        0xFF
    }
}

/// The timer state after `byte` is written to `address`.
pub open spec fn spec_write(t: TimerView, address: u16, byte: u8) -> TimerView {
    if address == 0xFF04 {
        TimerView { divider: 0, ..t }
    } else if address == 0xFF05 {
        if t.tima_was_reloaded {
            TimerView { tima_was_reloaded: false, ..t }
        } else {
            TimerView { tima: byte, reload_tima_next_m_cycle: false, ..t }
        }
    } else if address == 0xFF06 {
        TimerView { tma: byte, tima: if t.tima_was_reloaded { byte } else { t.tima }, ..t }
    } else if address == 0xFF07 {
        TimerView { timer_control: byte, ..t }
    } else {
        t
    }
}

impl View for Timer {
    type V = TimerView;

    open spec fn view(&self) -> TimerView {
        TimerView {
            divider: self.divider,
            tima: self.tima,
            tma: self.tma,
            tima_was_reloaded: self.tima_was_reloaded,
            timer_control: self.timer_control,
            reload_tima_next_m_cycle: self.reload_tima_next_m_cycle,
        }
    }
}

proof fn lemma_div_shift(d: u16)
    by (bit_vector)
    ensures
        (d >> 8u16) as u8 == (d / 256u16) as u8,
{
}

impl Timer {
    pub fn default() -> (r: Timer)
        ensures
            r@ == (TimerView {
                divider: 0,
                tima: 0,
                tma: 0,
                tima_was_reloaded: false,
                timer_control: 0,
                reload_tima_next_m_cycle: false,
            }),
    {
        Timer {
            delta_cycles_tima: 0,
            divider: 0,
            tima: 0,
            tma: 0,
            tima_was_reloaded: false,
            timer_control: 0,
            reload_tima_next_m_cycle: false,
        }
    }

    /// Advances the timer by one m-cycle.
    pub fn tick(&mut self, interrupt_handler: &mut InterruptHandler)
        ensures
            final(self)@ == spec_tick(old(self)@).0,
            *final(interrupt_handler) == (if spec_tick(old(self)@).1 {
                old(interrupt_handler).requested(Interrupt::Timer)
            } else {
                *old(interrupt_handler)
            }),
    {
        let threshold = self.get_mask_of_timer_frequency();

        let threshold_bit_was_one = threshold & self.divider > 0;

        self.divider = self.divider.wrapping_add(4);

        if self.timer_control & 0x4 == 0 {
            return;
        }

        self.tima_was_reloaded = self.tima_was_reloaded ^ self.tima_was_reloaded;

        if self.reload_tima_next_m_cycle {
            self.tima = self.tma;
            self.tima_was_reloaded = true;
            self.reload_tima_next_m_cycle = false;
            interrupt_handler.request_interrupt(Interrupt::Timer);
        }

        if self.divider & threshold == 0 && threshold_bit_was_one {
            let overflow = self.tima == 255;
            let added_timer_counter = self.tima.wrapping_add(1);

            self.reload_tima_next_m_cycle = overflow;
            self.tima = added_timer_counter;
        }
    }

    /// The divider bit selected by the clock select bits of TAC.
    fn get_mask_of_timer_frequency(&mut self) -> (r: u16)
        ensures
            r == frequency_mask(old(self).timer_control),
            *final(self) == *old(self),
    {
        let threshold = match self.timer_control & 0b0000_0011 {
            0x0 => 1u16 << 9,
            0x1 => 1u16 << 3,
            0x2 => 1u16 << 5,
            _ => 1u16 << 7,
        };
        proof {
            let tc = self.timer_control;
            assert(tc & 3 == tc % 4) by (bit_vector);
            assert(1u16 << 9u16 == 0x200 && 1u16 << 3u16 == 8 && 1u16 << 5u16 == 0x20 && 1u16 << 7u16 == 0x80) by (bit_vector);
        }
        threshold
    }

    pub fn read_byte(&self, address: u16) -> (r: u8)
        ensures
            r == spec_read(self@, address),
    {
        proof {
            lemma_div_shift(self.divider);
        }
        match address {
            0xFF04 => (self.divider >> 8) as u8,
            0xFF05 => self.tima,
            0xFF06 => self.tma,
            0xFF07 => self.timer_control,
            _ => 0xFF,
        }
    }

    pub fn write_byte(&mut self, address: u16, byte: u8)
        ensures
            final(self)@ == spec_write(old(self)@, address, byte),
    {
        match address {
            0xFF04 => {
                self.divider = 0;
            },
            0xFF05 => {
                if self.tima_was_reloaded {
                    self.tima_was_reloaded = false;
                    return;
                }
                self.tima = byte;
                self.reload_tima_next_m_cycle = self.reload_tima_next_m_cycle ^ self.reload_tima_next_m_cycle;
            },
            0xFF06 => {
                self.tma = byte;
                if self.tima_was_reloaded {
                    self.tima = byte;
                }
            },
            0xFF07 => {
                self.timer_control = byte;
            },
            _ => (),
        }
    }
}

/// A write to DIV resets it: reading DIV right after gives zero.
pub proof fn law_div_write_resets(t: TimerView, byte: u8)
    ensures
        spec_read(spec_write(t, 0xFF04, byte), 0xFF04) == 0,
{
}

/// TMA and TAC read back what was written to them.
pub proof fn law_tma_tac_read_back(t: TimerView, byte: u8)
    ensures
        spec_read(spec_write(t, 0xFF06, byte), 0xFF06) == byte,
        spec_read(spec_write(t, 0xFF07, byte), 0xFF07) == byte,
{
}

/// A write to TIMA reads back, unless TIMA was reloaded from TMA in the same m-cycle,
/// in which case the write is ignored.
pub proof fn law_tima_write(t: TimerView, byte: u8)
    ensures
        spec_read(spec_write(t, 0xFF05, byte), 0xFF05) == (if t.tima_was_reloaded { t.tima } else { byte }),
{
}

/// While TAC's enable bit is clear, a tick only advances the divider, by four,
/// and never requests the timer interrupt.
pub proof fn law_disabled_timer_only_divides(t: TimerView)
    requires
        t.timer_control & 4 == 0,
    ensures
        spec_tick(t).0 == (TimerView { divider: ((t.divider + 4) % 65536) as u16, ..t }),
        !spec_tick(t).1,
{
}

/// TIMA overflow is reloaded from TMA on the next tick, which requests the timer interrupt.
pub proof fn law_overflow_reloads_and_interrupts(t: TimerView)
    requires
        t.timer_control & 4 != 0,
        spec_tick(t).0.reload_tima_next_m_cycle,
    ensures
        spec_tick(spec_tick(t).0).1,
        spec_tick(spec_tick(t).0).0.tima_was_reloaded,
{
}

/// The timer after `n` m-cycles, that is `n` calls of `Timer::tick`, and whether any of them
/// requested the timer interrupt (when none did, the interrupt handler is as it was).
pub open spec fn spec_ticks(t: TimerView, n: nat) -> (TimerView, bool)
    decreases n,
{
    if n == 0 {
        (t, false)
    } else {
        let (t1, irq1) = spec_ticks(t, (n - 1) as nat);
        let (t2, irq2) = spec_tick(t1);
        (t2, irq1 || irq2)
    }
}

/// The number of t-cycles per TIMA increment for TAC `tac`: 1024, 16, 64 or 256 for the clock
/// select bits 00, 01, 10 and 11.
pub open spec fn tima_period(tac: u8) -> nat {
    let sel = tac % 4;
    if sel == 0 { 1024 } else if sel == 1 { 16 } else if sel == 2 { 64 } else { 256 }
}

/// Adding four to a divider that is a multiple of four makes the selected bit fall exactly
/// when the divider reaches a multiple of twice the bit.
proof fn lemma_falling_edge(d: u16, e: u16)
    by (bit_vector)
    requires
        d % 4 == 0,
        (d == 65532 && e == 0) || (d < 65532 && e == d + 4),
    ensures
        (e & 0x200 == 0 && 0x200 & d != 0) == (e % 0x400 == 0),
        (e & 0x8 == 0 && 0x8 & d != 0) == (e % 0x10 == 0),
        (e & 0x20 == 0 && 0x20 & d != 0) == (e % 0x40 == 0),
        (e & 0x80 == 0 && 0x80 & d != 0) == (e % 0x100 == 0),
{
}

/// One m-cycle more on the divider and on the count, for a period `p` that divides 65536.
proof fn lemma_period_step(d: int, k1: int, p: int)
    requires
        p == 16 || p == 64 || p == 256 || p == 1024,
        0 <= d < 65536,
        0 <= k1,
        d % p == (4 * k1) % p,
    ensures
        d % 4 == 0,
        ((d + 4) % 65536) % p == (4 * (k1 + 1)) % p,
        (4 * (k1 + 1)) / p == (4 * k1) / p + (if (4 * (k1 + 1)) % p == 0 { 1int } else { 0int }),
{
    let q4 = p / 4;
    assert(p == 4 * q4);
    assert(p * (65536int / p) == 65536);
    // the divider stays a multiple of four
    vstd::arithmetic::div_mod::lemma_mod_mod(d, 4, q4);
    vstd::arithmetic::div_mod::lemma_mod_mod(4 * k1, 4, q4);
    vstd::arithmetic::div_mod::lemma_mod_multiples_basic(k1, 4);
    assert(k1 * 4 == 4 * k1);
    // the divider moves on by four, modulo the period
    vstd::arithmetic::div_mod::lemma_mod_mod(d + 4, p, 65536int / p);
    vstd::arithmetic::div_mod::lemma_add_mod_noop(d, 4, p);
    vstd::arithmetic::div_mod::lemma_add_mod_noop(4 * k1, 4, p);
    // the count goes up by one exactly when a period ends
    let q = (4 * k1) / p;
    let r = (4 * k1) % p;
    vstd::arithmetic::div_mod::lemma_fundamental_div_mod(4 * k1, p);
    vstd::arithmetic::div_mod::lemma_mod_mod(4 * k1, 4, q4);
    assert(r % 4 == 0 && 0 <= r < p);
    assert(r + 4 <= p);
    if r + 4 == p {
        vstd::arithmetic::div_mod::lemma_fundamental_div_mod_converse(4 * (k1 + 1), p, q + 1, 0);
    } else {
        vstd::arithmetic::div_mod::lemma_fundamental_div_mod_converse(4 * (k1 + 1), p, q, r + 4);
    }
}

/// The count after `k` m-cycles, from a divider on a period boundary with no reload pending.
proof fn lemma_ticks_count(t: TimerView, k: nat)
    requires
        t.timer_control & 4 != 0,
        !t.reload_tima_next_m_cycle,
        t.divider as nat % tima_period(t.timer_control) == 0,
        t.tima + (4 * k) / tima_period(t.timer_control) <= 255,
    ensures
        spec_ticks(t, k).0.tima == t.tima + (4 * k) / tima_period(t.timer_control),
        spec_ticks(t, k).0.divider as nat % tima_period(t.timer_control) == (4 * k) % tima_period(t.timer_control),
        spec_ticks(t, k).0.timer_control == t.timer_control,
        !spec_ticks(t, k).0.reload_tima_next_m_cycle,
        !spec_ticks(t, k).1,
    decreases k,
{
    let p = tima_period(t.timer_control);
    assert(p == 1024 || p == 16 || p == 64 || p == 256);
    if k > 0 {
        let k1 = (k - 1) as nat;
        assert((4 * k1) / p <= (4 * k) / p) by (nonlinear_arith)
            requires
                k1 < k,
                p > 0,
        ;
        lemma_ticks_count(t, k1);
        let t1 = spec_ticks(t, k1).0;
        let d = t1.divider;
        lemma_period_step(d as int, k1 as int, p as int);
        let e = ((d + 4) % 65536) as u16;
        assert(e as int == (d + 4) % 65536);
        lemma_falling_edge(d, e);
        let edge = e & frequency_mask(t.timer_control) == 0 && frequency_mask(t.timer_control) & d != 0;
        assert(edge == ((4 * k) % p == 0));
        assert(spec_tick(t1).0.divider == e);
        assert(e as nat % p == ((d + 4) % 65536) % (p as int));
        assert(spec_ticks(t, k).0 == spec_tick(t1).0);
    }
}

/// While TIMA is enabled it counts at the rate that TAC selects, once per 1024, 16, 64 or 256
/// t-cycles for the clock select bits 00, 01, 10 and 11: starting on a period boundary with
/// no reload pending, `n` m-cycles (4 * n t-cycles) add 4 * n / period to TIMA, as long as
/// that does not overflow it, and request no interrupt.
pub proof fn law_tima_rate(t: TimerView, n: nat)
    requires
        t.timer_control & 4 != 0,
        !t.reload_tima_next_m_cycle,
        t.divider as nat % tima_period(t.timer_control) == 0,
        t.tima + (4 * n) / tima_period(t.timer_control) <= 255,
    ensures
        spec_ticks(t, n).0.tima == t.tima + (4 * n) / tima_period(t.timer_control),
        !spec_ticks(t, n).1,
{
    lemma_ticks_count(t, n);
}

} // verus!
