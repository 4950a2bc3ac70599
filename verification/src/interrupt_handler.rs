use vstd::prelude::*;

verus! {

/// The five interrupt sources, in priority order (Vblank is served first).
#[derive(PartialEq, Eq, Structural, Clone, Copy, Debug)]
pub enum Interrupt {
    Vblank,
    Stat,
    Timer,
    Serial,
    Joypad,
}

impl Interrupt {
    /// The bit of this interrupt in the IF and IE registers.
    pub open spec fn spec_mask(&self) -> u8 {
        match *self {
            Interrupt::Vblank => 0x1,
            Interrupt::Stat => 0x2,
            Interrupt::Timer => 0x4,
            Interrupt::Serial => 0x8,
            Interrupt::Joypad => 0x10,
        }
    }

    /// The address the CPU jumps to when it serves this interrupt.
    pub open spec fn spec_jump_vector(&self) -> u16 {
        match *self {
            Interrupt::Vblank => 0x40,
            Interrupt::Stat => 0x48,
            Interrupt::Timer => 0x50,
            Interrupt::Serial => 0x58,
            Interrupt::Joypad => 0x60,
        }
    }

    pub fn mask(&self) -> (r: u8)
        ensures
            r == self.spec_mask(),
    {
        match *self {
            Self::Vblank => 0x1,
            Self::Stat => 0x2,
            Self::Timer => 0x4,
            Self::Serial => 0x8,
            Self::Joypad => 0x10,
        }
    }

    pub fn jump_vector(&self) -> (r: u16)
        ensures
            r == self.spec_jump_vector(),
    {
        match *self {
            Self::Vblank => 0x40,
            Self::Stat => 0x48,
            Self::Timer => 0x50,
            Self::Serial => 0x58,
            Self::Joypad => 0x60,
        }
    }
}

/// The interrupt master enable (IME) and the IF (requested) and IE (enabled) registers.
#[allow(non_snake_case)]
pub struct InterruptHandler {
    pub enabled: bool,
    pub IF: u8,
    pub IE: u8,
}

impl InterruptHandler {
    /// The handler after `interrupt` is requested.
    pub open spec fn requested(self, interrupt: Interrupt) -> InterruptHandler {
        InterruptHandler { IF: self.IF | interrupt.spec_mask(), ..self }
    }

    pub fn new() -> (r: Self)
        ensures
            r == (InterruptHandler { enabled: false, IF: 0, IE: 0 }),
    {
        InterruptHandler { enabled: false, IF: 0, IE: 0 }
    }

    /// Sets the interrupt's bit in IF.
    pub fn request_interrupt(&mut self, interrupt: Interrupt)
        ensures
            *final(self) == old(self).requested(interrupt),
    {
        self.IF = self.IF | interrupt.mask();
    }

    /// Sets the interrupt's bit in IE.
    pub fn enable_interrupt(&mut self, interrupt: Interrupt)
        ensures
            *final(self) == (InterruptHandler { IE: old(self).IE | interrupt.spec_mask(), ..*old(self) }),
    {
        self.IE = self.IE | interrupt.mask();
    }

    /// The handler after `interrupt` is cleared in IF.
    pub open spec fn unrequested(self, interrupt: Interrupt) -> InterruptHandler {
        InterruptHandler { IF: self.IF & !interrupt.spec_mask(), ..self }
    }

    /// Clears the interrupt's bit in IF, whether or not it was requested.
    pub fn unrequest_interrupt(&mut self, interrupt_type: &Interrupt)
        ensures
            *final(self) == old(self).unrequested(*interrupt_type),
    {
        self.IF = self.IF & !interrupt_type.mask();
    }

    /// Some interrupt is both requested and enabled.
    pub open spec fn spec_pending(&self) -> bool {
        self.IF & self.IE & 0x1F != 0
    }

    pub fn is_interrupt_pending(&self) -> (r: bool)
        ensures
            r == self.spec_pending(),
    {
        self.IF & self.IE & 0x1F != 0
    }
}

impl Default for InterruptHandler {
    fn default() -> (r: Self)
        ensures
            r == (InterruptHandler { enabled: false, IF: 0, IE: 0 }),
    {
        InterruptHandler::new()
    }
}

/// Clearing an interrupt leaves its IF bit low and the other bits as they were; clearing it
/// after a request gives back the IF bits other than its own.
pub proof fn law_request_then_unrequest(ih: InterruptHandler, interrupt: Interrupt)
    ensures
        ih.unrequested(interrupt).IF & interrupt.spec_mask() == 0,
        ih.unrequested(interrupt).IF & !interrupt.spec_mask() == ih.IF & !interrupt.spec_mask(),
        ih.requested(interrupt).unrequested(interrupt) == ih.unrequested(interrupt),
{
    let m = interrupt.spec_mask();
    let f = ih.IF;
    assert((f & !m) & m == 0 && (f & !m) & !m == f & !m && (f | m) & !m == f & !m) by (bit_vector);
}

} // verus!
