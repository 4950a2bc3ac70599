use vstd::prelude::*;

verus! {

/// The one sound register that is kept (NR50); no sound is produced.
pub struct AudioController {
    pub nr50: u8,
}

impl AudioController {
    pub fn new() -> (r: Self)
        ensures
            r.nr50 == 0,
    {
        Self { nr50: 0 }
    }
}

} // verus!
