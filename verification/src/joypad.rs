use vstd::prelude::*;

use crate::cpu::is_bit_set;
use crate::interrupt_handler::{Interrupt, InterruptHandler};

verus! {

/// Which of the eight Game Boy buttons are held down.
#[derive(Clone, Copy, Debug, PartialEq, Eq, Structural)]
pub struct PressedButtons {
    pub right: bool,
    pub left: bool,
    pub up: bool,
    pub down: bool,
    pub a: bool,
    pub b: bool,
    pub select: bool,
    pub start: bool,
}

/// The joypad register (P1/JOYP, 0xFF00) and the two button groups it multiplexes.
/// In each group a pressed button is a one bit: bit 0 right / A, bit 1 left / B,
/// bit 2 up / select, bit 3 down / start.
pub struct Joypad {
    pub byte: u8,
    pub group_action: u8,
    pub group_direction: u8,
}

pub struct JoypadView {
    pub byte: u8,
    pub group_action: u8,
    pub group_direction: u8,
}

impl View for Joypad {
    type V = JoypadView;

    open spec fn view(&self) -> JoypadView {
        JoypadView { byte: self.byte, group_action: self.group_action, group_direction: self.group_direction }
    }
}

pub open spec fn bit_value(b: bool, v: u8) -> u8 {
    if b { v } else { 0 }
}

/// The direction group of `p`, one bit per pressed button.
pub open spec fn direction_bits(p: PressedButtons) -> u8 {
    (bit_value(p.right, 1) + bit_value(p.left, 2) + bit_value(p.up, 4) + bit_value(p.down, 8)) as u8
}

/// The action group of `p`, one bit per pressed button.
pub open spec fn action_bits(p: PressedButtons) -> u8 {
    (bit_value(p.a, 1) + bit_value(p.b, 2) + bit_value(p.select, 4) + bit_value(p.start, 8)) as u8
}

/// The register after the buttons are polled: the select bits 4 (directions) and 5 (actions)
/// of the current register decide which group shows.
pub open spec fn spec_update_input(j: JoypadView, p: PressedButtons) -> JoypadView {
    let dir = direction_bits(p);
    let act = action_bits(p);
    let byte = if j.byte & 0x20 == 0 && j.byte & 0x10 == 0 {
        0xC0u8 ^ (dir & act)
    } else if j.byte & 0x10 == 0 {
        0xE0u8 | !dir
    } else if j.byte & 0x20 == 0 {
        0xD0u8 | !act
    } else {
        0xFF
    };
    JoypadView { byte, group_action: act, group_direction: dir }
}

/// The register after the CPU writes `received` to it, and whether the joypad interrupt
/// is requested.
pub open spec fn spec_write_to_byte(j: JoypadView, received: u8) -> (JoypadView, bool) {
    let base = (received & 0x30) | 0xCF;
    if base & 0x20 == 0 && base & 0x10 == 0 {
        let byte = base ^ (j.group_direction & j.group_action);
        (JoypadView { byte, ..j }, byte != 0xCF)
    } else if base & 0x10 == 0 {
        let byte = base ^ j.group_direction;
        (JoypadView { byte, ..j }, byte != 0xEF)
    } else if base & 0x20 == 0 {
        let byte = base ^ j.group_action;
        (JoypadView { byte, ..j }, byte != 0xDF)
    } else {
        (JoypadView { byte: base, ..j }, false)
    }
}

proof fn lemma_or_small(x: u8)
    by (bit_vector)
    ensures
        x < 1 ==> x | 1 == x + 1,
        x < 2 ==> x | 2 == x + 2,
        x < 4 ==> x | 4 == x + 4,
        x < 8 ==> x | 8 == x + 8,
{
}

proof fn lemma_select_bits(x: u8)
    by (bit_vector)
    ensures
        ((x >> 4u8) & 1 == 1) == (x & 0x10 != 0),
        ((x >> 5u8) & 1 == 1) == (x & 0x20 != 0),
{
}

/// The group of four buttons as bits 0 to 3.
fn group_bits(b0: bool, b1: bool, b2: bool, b3: bool) -> (r: u8)
    ensures
        r == bit_value(b0, 1) + bit_value(b1, 2) + bit_value(b2, 4) + bit_value(b3, 8),
{
    let mut g: u8 = 0;
    proof {
        lemma_or_small(0);
    }
    if b0 {
        g = g | 0b0000_0001;
    }
    proof {
        lemma_or_small(g);
    }
    if b1 {
        g = g | 0b0000_0010;
    }
    proof {
        lemma_or_small(g);
    }
    if b2 {
        g = g | 0b0000_0100;
    }
    proof {
        lemma_or_small(g);
    }
    if b3 {
        g = g | 0b0000_1000;
    }
    g
}

impl Joypad {
    pub fn new() -> (r: Self)
        ensures
            r@ == (JoypadView { byte: 0xFF, group_action: 0, group_direction: 0 }),
    {
        Self { byte: 0xFF, group_action: 0, group_direction: 0 }
    }

    pub fn byte(&self) -> (r: u8)
        ensures
            r == self@.byte,
    {
        self.byte
    }

    /// Records which buttons are held and refreshes the register accordingly.
    pub fn update_input(&mut self, pressed: &PressedButtons, interrupt_handler: &mut InterruptHandler)
        ensures
            final(self)@ == spec_update_input(old(self)@, *pressed),
            *final(interrupt_handler) == *old(interrupt_handler),
    {
        self.group_direction = group_bits(pressed.right, pressed.left, pressed.up, pressed.down);
        self.group_action = group_bits(pressed.a, pressed.b, pressed.select, pressed.start);
        proof {
            lemma_select_bits(self.byte);
        }
        if !is_bit_set(self.byte, 5) && !is_bit_set(self.byte, 4) {
            self.byte = 0xC0;
            self.byte = self.byte ^ (self.group_direction & self.group_action);
            return;
        }
        if !is_bit_set(self.byte, 4) {
            self.byte = 0xE0;
            self.byte = self.byte | !self.group_direction;
            return;
        }
        if !is_bit_set(self.byte, 5) {
            self.byte = 0xD0;
            self.byte = self.byte | !self.group_action;
            return;
        }
        self.byte = 0xFF;
    }

    /// The CPU selects a button group by writing bits 4 and 5 of the register.
    pub fn write_to_byte(&mut self, received_byte: u8, interrupt_handler: &mut InterruptHandler)
        ensures
            final(self)@ == spec_write_to_byte(old(self)@, received_byte).0,
            *final(interrupt_handler) == (if spec_write_to_byte(old(self)@, received_byte).1 {
                old(interrupt_handler).requested(Interrupt::Joypad)
            } else {
                *old(interrupt_handler)
            }),
    {
        self.byte = (received_byte & 0b0011_0000) | 0b1100_1111;
        proof {
            lemma_select_bits(self.byte);
        }
        if !is_bit_set(self.byte, 5) && !is_bit_set(self.byte, 4) {
            self.byte = self.byte ^ (self.group_direction & self.group_action);
            if self.byte != 0b1100_1111 {
                interrupt_handler.request_interrupt(Interrupt::Joypad);
            }
            return;
        }
        if !is_bit_set(self.byte, 4) {
            self.byte = self.byte ^ self.group_direction;
            if self.byte != 0b1110_1111 {
                interrupt_handler.request_interrupt(Interrupt::Joypad);
            }
            return;
        }
        if !is_bit_set(self.byte, 5) {
            self.byte = self.byte ^ self.group_action;
            if self.byte != 0b1101_1111 {
                interrupt_handler.request_interrupt(Interrupt::Joypad);
            }
            return;
        }
    }
}

proof fn lemma_group_bits(a: u8, b: u8, c: u8, d: u8, base: u8)
    by (bit_vector)
    requires
        a <= 1,
        b <= 1,
        c <= 1,
        d <= 1,
        base == 0xEF || base == 0xDF,
    ensures
        ((base ^ ((a + 2 * b + 4 * c + 8 * d) as u8)) & 1 == 0) == (a == 1),
        ((base ^ ((a + 2 * b + 4 * c + 8 * d) as u8)) & 2 == 0) == (b == 1),
        ((base ^ ((a + 2 * b + 4 * c + 8 * d) as u8)) & 4 == 0) == (c == 1),
        ((base ^ ((a + 2 * b + 4 * c + 8 * d) as u8)) & 8 == 0) == (d == 1),
{
}

/// Once the CPU selects a button group in P1, a held button of that group reads as a clear
/// bit: right / A on bit 0, left / B on bit 1, up / select on bit 2, down / start on bit 3.
pub proof fn law_selected_group_shows_held_buttons(j: JoypadView, pressed: PressedButtons, select: u8)
    ensures
        ({
            let (j2, irq) = spec_write_to_byte(spec_update_input(j, pressed), select);
            &&& select & 0x30 == 0x20 ==> {
                &&& (j2.byte & 1 == 0) == pressed.right
                &&& (j2.byte & 2 == 0) == pressed.left
                &&& (j2.byte & 4 == 0) == pressed.up
                &&& (j2.byte & 8 == 0) == pressed.down
            }
            &&& select & 0x30 == 0x10 ==> {
                &&& (j2.byte & 1 == 0) == pressed.a
                &&& (j2.byte & 2 == 0) == pressed.b
                &&& (j2.byte & 4 == 0) == pressed.select
                &&& (j2.byte & 8 == 0) == pressed.start
            }
        }),
{
    let base = (select & 0x30) | 0xCF;
    assert(select & 0x30 == 0x20 ==> base == 0xEF && base & 0x20 != 0 && base & 0x10 == 0) by (bit_vector)
        requires
            base == (select & 0x30) | 0xCF,
    ;
    assert(select & 0x30 == 0x10 ==> base == 0xDF && base & 0x10 != 0 && base & 0x20 == 0) by (bit_vector)
        requires
            base == (select & 0x30) | 0xCF,
    ;
    if select & 0x30 == 0x20 {
        lemma_group_bits(
            bit_value(pressed.right, 1),
            bit_value(pressed.left, 1),
            bit_value(pressed.up, 1),
            bit_value(pressed.down, 1),
            0xEF,
        );
    }
    if select & 0x30 == 0x10 {
        lemma_group_bits(
            bit_value(pressed.a, 1),
            bit_value(pressed.b, 1),
            bit_value(pressed.select, 1),
            bit_value(pressed.start, 1),
            0xDF,
        );
    }
}

} // verus!
