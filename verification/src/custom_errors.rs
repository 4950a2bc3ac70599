use vstd::prelude::*;

verus! {

/// A state in which the emulated machine cannot go on: the instruction or memory access that
/// would follow has no defined behaviour in this emulator.
#[derive(PartialEq, Eq, Structural, Clone, Copy, Debug)]
pub enum EmulationError {
    /// The opcode is not one the CPU implements: STOP (0x10) and the eleven undefined
    /// opcodes (0xD3, 0xDB, 0xDD, 0xE3, 0xE4, 0xEB, 0xEC, 0xED, 0xF4, 0xFC, 0xFD).
    InstructionNotImplemented(u8),
    /// A read of the CGB background palette data (0xFF69) while its index is past the 64 bytes.
    BgPaletteIndexOutOfRange,
    /// A read of the CGB sprite palette data (0xFF6B) while its index is past the 64 bytes.
    SpritePaletteIndexOutOfRange,
    /// A 16-bit write to the last address, 0xFFFF, whose high byte has no address.
    WordWriteAtLastAddress,
    /// The HALT bug would move the program counter back from address 0.
    ProgramCounterUnderflow,
}

/// The error reported when the file the user picked cannot be opened.
pub struct UnableToOpenSelectedFileError {
    v: String,
}

impl UnableToOpenSelectedFileError {
    /// The message the error carries.
    pub closed spec fn message(&self) -> Seq<char> {
        self.v@
    }

    pub fn new() -> (r: UnableToOpenSelectedFileError)
        ensures
            r.message() == "Selected file could not be opened."@,
    {
        UnableToOpenSelectedFileError { v: "Selected file could not be opened.".to_string() }
    }

    pub fn change_message(&mut self, new_message: &str)
        ensures
            final(self).message() == new_message@,
    {
        self.v = new_message.to_string();
    }

    /// The text the error displays: `MyError: ` followed by its message.
    pub fn display_string(&self) -> (r: String)
        ensures
            r@ == "MyError: "@ + self.message(),
    {
        let prefix = String::from_str("MyError: ");
        prefix.concat(self.v.as_str())
    }
}

} // verus!
