use vstd::prelude::*;

use crate::cpu::{bit_of, is_bit_set};
use crate::interrupt_handler::{Interrupt, InterruptHandler};

verus! {

/// The serial port registers SB (0xFF01) and SC (0xFF02). No link partner is emulated.
pub struct Serial {
    pub serial_data_transfer: u8,
    pub serial_data_control: u8,
    pub current_word: String,
}

/// Whether a write of `received_byte` to SC starts a transfer; the test on the current
/// control value looks at bit `control` of the constant 7.
pub open spec fn starts_transfer(control: u8, received_byte: u8) -> bool {
    bit_of(received_byte, 7) && !bit_of(7, control)
}

impl Serial {
    pub fn new() -> (r: Self)
        ensures
            r.serial_data_transfer == 0,
            r.serial_data_control == 0,
            r.current_word@ == Seq::<char>::empty(),
    {
        Self { serial_data_transfer: 0, serial_data_control: 0, current_word: String::new() }
    }

    /// Writes to SB are dropped.
    pub fn write_to_transfer(&mut self, _interrupt_handler: &mut InterruptHandler, _data: u8)
        ensures
            *final(self) == *old(self),
            *final(_interrupt_handler) == *old(_interrupt_handler),
    {
    }

    /// A write to SC with bit 7 set starts a transfer that completes at once: with no partner
    /// connected SB reads 0xFF, and the serial interrupt is requested. The test on the current
    /// control value looks at bit `serial_data_control` of the constant 7.
    pub fn write_to_control(&mut self, received_byte: u8, interrupt_handler: &mut InterruptHandler)
        requires
            bit_of(received_byte, 7) ==> old(self).serial_data_control < 8,
        ensures
            ({
                let starts = starts_transfer(old(self).serial_data_control, received_byte);
                &&& final(self).current_word == old(self).current_word
                &&& final(self).serial_data_transfer == (if starts { 0xFF } else { old(self).serial_data_transfer })
                &&& final(self).serial_data_control == (if starts { 1 } else { old(self).serial_data_control })
                &&& *final(interrupt_handler) == (if starts {
                    old(interrupt_handler).requested(Interrupt::Serial)
                } else {
                    *old(interrupt_handler)
                })
            }),
    {
        if is_bit_set(received_byte, 7) && !is_bit_set(7, self.serial_data_control) {
            self.serial_data_transfer = 0xFF;
            interrupt_handler.request_interrupt(Interrupt::Serial);
            self.serial_data_control = 0x01;
        }
    }
}

} // verus!
