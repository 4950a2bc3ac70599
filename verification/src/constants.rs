use vstd::prelude::*;

verus! {

/// Width of the Game Boy screen in pixels.
pub const GAMEBOY_WIDTH: usize = 160;

/// Height of the Game Boy screen in pixels.
pub const GAMEBOY_HEIGHT: usize = 144;

/// Number of pixels of a frame: `GAMEBOY_WIDTH * GAMEBOY_HEIGHT`.
pub const FRAMEBUFFER_LENGTH: usize = 23040;

/// Bits of the LCD control register (LCDC, 0xFF40).
pub const LCD_ENABLED_BIT: u8 = 7;

pub const WINDOW_TILEMAP_AREA_BIT: u8 = 6;

pub const WINDOW_ENABLED_BIT: u8 = 5;

pub const BG_WIN_TILEDATA_AREA_BIT: u8 = 4;

pub const BG_TILEMAP_AREA_BIT: u8 = 3;

} // verus!
