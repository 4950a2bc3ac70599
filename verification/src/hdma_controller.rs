use vstd::prelude::*;

verus! {

/// The state of a CGB HDMA transfer: `length` is the number of 16-byte blocks minus one
/// that remain, `iterator_hdma` the next source address and `destination_hdma` the next
/// VRAM offset.
pub struct HdmaController {
    pub hdma1: u8,
    pub hdma2: u8,
    pub hdma3: u8,
    pub hdma4: u8,
    pub length: u8,
    pub is_active: bool,
    pub iterator_hdma: u16,
    pub destination_hdma: u16,
}

impl HdmaController {
    pub fn new() -> (r: Self)
        ensures
            r == (HdmaController {
                hdma1: 0,
                hdma2: 0,
                hdma3: 0,
                hdma4: 0,
                length: 0,
                is_active: false,
                iterator_hdma: 0,
                destination_hdma: 0,
            }),
    {
        Self {
            hdma1: 0,
            hdma2: 0,
            hdma3: 0,
            hdma4: 0,
            length: 0,
            is_active: false,
            iterator_hdma: 0,
            destination_hdma: 0,
        }
    }
}

} // verus!
