use vstd::prelude::*;

use crate::constants::{
    BG_TILEMAP_AREA_BIT, BG_WIN_TILEDATA_AREA_BIT, FRAMEBUFFER_LENGTH, GAMEBOY_WIDTH, LCD_ENABLED_BIT,
    WINDOW_ENABLED_BIT, WINDOW_TILEMAP_AREA_BIT,
};
use crate::cpu::{bit_of, is_bit_set};
use crate::interrupt_handler::{Interrupt, InterruptHandler};

verus! {

/// An RGBA colour with 8 bits per channel.
#[derive(Clone, Copy, PartialEq, Eq, Structural, Debug)]
pub struct Color {
    pub r: u8,
    pub g: u8,
    pub b: u8,
    pub a: u8,
}

impl Color {
    /// The opaque colour with the given red, green and blue.
    pub fn from_rgb(r: u8, g: u8, b: u8) -> (c: Color)
        ensures
            c == (Color { r, g, b, a: 255 }),
    {
        Color { r, g, b, a: 255 }
    }
}

/// The green shades of the Game Boy (DMG) screen, from lightest (colour 0) to darkest.
pub open spec fn dmg_shades() -> Seq<Color> {
    seq![
        Color { r: 155, g: 188, b: 15, a: 255 },
        Color { r: 139, g: 172, b: 15, a: 255 },
        Color { r: 48, g: 98, b: 48, a: 255 },
        Color { r: 15, g: 56, b: 15, a: 255 },
    ]
}

/// Scanline based rendering of the picture processing unit.
/// The fields are public so that the memory map and the CPU can reach the registers.
pub struct Ppu {
    pub is_dmg: bool,
    pub vram_0: [u8; 0x2000],
    pub vram_1: [u8; 0x2000],
    pub vram_bank_index: usize,
    pub oam_ram: [u8; 160],
    pub mode: PpuModes,
    pub current_elapsed_dots: u16,
    pub bgp: u8,
    pub obp0: u8,
    pub obp1: u8,
    pub color_lookup_table: [Color; 4],
    pub scy: u8,
    pub scx: u8,
    pub ly: u8,
    pub lyc: u8,
    pub lcdc: u8,
    pub current_framebuffer: [Color; FRAMEBUFFER_LENGTH],
    pub current_framebuffer_bg_pixel_info: [u8; FRAMEBUFFER_LENGTH],
    pub lcd_status: u8,
    pub wy: u8,
    pub wx: u8,
    pub win_ly: u8,
    pub wy_condition: bool,
    pub stat_requested_on_current_line: bool,
    pub bg_color_ram: [u8; 64],
    pub sprite_color_ram: [u8; 64],
    pub bg_palette_index: usize,
    pub sprite_palette_index: usize,
}

/// The bits of the LCD control register, from bit 7 down to bit 0.
#[allow(dead_code)]
pub enum LCDCBit {
    LcdEnabled,
    WindowTileMapArea,
    WindowEnabled,
    BgWinTileDataArea,
    BgTileMapArea,
    ObjSize,
    ObjEnable,
    BgWinEnablePriority,
}

/// The four modes a scanline goes through.
#[derive(Clone, Copy, PartialEq, Eq, Structural, Debug)]
pub enum PpuModes {
    HBlank,
    Vblank,
    OamScan,
    DrawPixels,
}

/// The state of a `Ppu`, field by field, with the arrays as sequences.
pub struct PpuView {
    pub is_dmg: bool,
    pub vram_0: Seq<u8>,
    pub vram_1: Seq<u8>,
    pub vram_bank_index: usize,
    pub oam_ram: Seq<u8>,
    pub mode: PpuModes,
    pub current_elapsed_dots: u16,
    pub bgp: u8,
    pub obp0: u8,
    pub obp1: u8,
    pub color_lookup_table: Seq<Color>,
    pub scy: u8,
    pub scx: u8,
    pub ly: u8,
    pub lyc: u8,
    pub lcdc: u8,
    pub current_framebuffer: Seq<Color>,
    pub current_framebuffer_bg_pixel_info: Seq<u8>,
    pub lcd_status: u8,
    pub wy: u8,
    pub wx: u8,
    pub win_ly: u8,
    pub wy_condition: bool,
    pub stat_requested_on_current_line: bool,
    pub bg_color_ram: Seq<u8>,
    pub sprite_color_ram: Seq<u8>,
    pub bg_palette_index: usize,
    pub sprite_palette_index: usize,
}

impl View for Ppu {
    type V = PpuView;

    open spec fn view(&self) -> PpuView {
        PpuView {
            is_dmg: self.is_dmg,
            vram_0: self.vram_0@,
            vram_1: self.vram_1@,
            vram_bank_index: self.vram_bank_index,
            oam_ram: self.oam_ram@,
            mode: self.mode,
            current_elapsed_dots: self.current_elapsed_dots,
            bgp: self.bgp,
            obp0: self.obp0,
            obp1: self.obp1,
            color_lookup_table: self.color_lookup_table@,
            scy: self.scy,
            scx: self.scx,
            ly: self.ly,
            lyc: self.lyc,
            lcdc: self.lcdc,
            current_framebuffer: self.current_framebuffer@,
            current_framebuffer_bg_pixel_info: self.current_framebuffer_bg_pixel_info@,
            lcd_status: self.lcd_status,
            wy: self.wy,
            wx: self.wx,
            win_ly: self.win_ly,
            wy_condition: self.wy_condition,
            stat_requested_on_current_line: self.stat_requested_on_current_line,
            bg_color_ram: self.bg_color_ram@,
            sprite_color_ram: self.sprite_color_ram@,
            bg_palette_index: self.bg_palette_index,
            sprite_palette_index: self.sprite_palette_index,
        }
    }
}

/// The sizes of the memories of a `Ppu`.
pub open spec fn sizes_ok(v: PpuView) -> bool {
    &&& v.vram_0.len() == 0x2000
    &&& v.vram_1.len() == 0x2000
    &&& v.oam_ram.len() == 160
    &&& v.color_lookup_table.len() == 4
    &&& v.current_framebuffer.len() == FRAMEBUFFER_LENGTH
    &&& v.current_framebuffer_bg_pixel_info.len() == FRAMEBUFFER_LENGTH
    &&& v.bg_color_ram.len() == 64
    &&& v.sprite_color_ram.len() == 64
}

/// The states the scanline state machine keeps to: a visible line (below 144) outside
/// vertical blank, at most line 153, a dot counter that stays small, and palette indices
/// that auto-increment stays within.
pub open spec fn ppu_wf(v: PpuView) -> bool {
    &&& sizes_ok(v)
    &&& v.ly <= 153
    &&& v.mode != PpuModes::Vblank ==> v.ly < 144
    &&& v.current_elapsed_dots <= 454
    &&& v.mode == PpuModes::OamScan ==> v.current_elapsed_dots <= 452
    &&& v.mode == PpuModes::DrawPixels ==> v.current_elapsed_dots <= 453
    &&& v.bg_palette_index <= 0x100
    &&& v.sprite_palette_index <= 0x100
}

/// The LY == LYC check: sets the coincidence bit of STAT and, if its interrupt is enabled,
/// requests the STAT interrupt once per line.
pub open spec fn spec_compare_ly_lyc(v: PpuView, ih: InterruptHandler) -> (PpuView, InterruptHandler) {
    if v.ly == v.lyc && !v.stat_requested_on_current_line {
        let status = v.lcd_status | 0x4;
        if bit_of(status, 6) {
            (PpuView { lcd_status: status, stat_requested_on_current_line: true, ..v }, ih.requested(Interrupt::Stat))
        } else {
            (PpuView { lcd_status: status, ..v }, ih)
        }
    } else {
        (v, ih)
    }
}

pub open spec fn spec_oam_scan(v: PpuView) -> PpuView {
    if v.current_elapsed_dots > 76 { PpuView { mode: PpuModes::DrawPixels, ..v } } else { v }
}

/// The line as mode 3 leaves it: background (and window) first, then sprites when they are enabled.
pub open spec fn spec_render_line(v: PpuView) -> PpuView {
    let with_bg = if !v.is_dmg || bit_of(v.lcdc, 0) { spec_render_background(v) } else { v };
    if bit_of(v.lcdc, 1) { spec_render_sprites(with_bg) } else { with_bg }
}

pub open spec fn spec_draw_pixels(v: PpuView, ih: InterruptHandler) -> (PpuView, InterruptHandler) {
    if v.current_elapsed_dots > 247 {
        let drawn = spec_render_line(v);
        let ih2 = if bit_of(drawn.lcd_status, 3) { ih.requested(Interrupt::Stat) } else { ih };
        (PpuView { mode: PpuModes::HBlank, ..drawn }, ih2)
    } else {
        (v, ih)
    }
}

/// Whether the window starts on the line: WY equals LY while the window is enabled.
pub open spec fn window_starts(v: PpuView) -> bool {
    v.wy == v.ly && bit_of(v.lcdc, WINDOW_ENABLED_BIT)
}

pub open spec fn spec_horizontal_blank(v: PpuView, ih: InterruptHandler) -> (PpuView, InterruptHandler) {
    if v.current_elapsed_dots > 451 {
        let v1 = PpuView { current_elapsed_dots: 1, ..v };
        let (v2, ih2) = spec_compare_ly_lyc(v1, ih);
        let v3 = PpuView { ly: (v2.ly + 1) as u8, ..v2 };
        let (v4, ih4) = spec_compare_ly_lyc(v3, ih2);
        if v4.ly == 144 {
            let ih5 = ih4.requested(Interrupt::Vblank);
            let ih6 = if bit_of(v4.lcd_status, 4) { ih5.requested(Interrupt::Stat) } else { ih5 };
            (PpuView { stat_requested_on_current_line: false, mode: PpuModes::Vblank, ..v4 }, ih6)
        } else {
            let ih5 = if bit_of(v4.lcd_status, 5) { ih4.requested(Interrupt::Stat) } else { ih4 };
            let v5 = PpuView { stat_requested_on_current_line: false, mode: PpuModes::OamScan, ..v4 };
            let wy = if !v5.wy_condition && window_starts(v5) { true } else { v5.wy_condition };
            (PpuView { wy_condition: wy, ..v5 }, ih5)
        }
    } else {
        (v, ih)
    }
}

pub open spec fn spec_vertical_blank(v: PpuView, ih: InterruptHandler) -> (PpuView, InterruptHandler) {
    if v.current_elapsed_dots > 451 {
        let v1 = PpuView { current_elapsed_dots: 1, ly: (v.ly + 1) as u8, ..v };
        let (v2, ih2) = spec_compare_ly_lyc(v1, ih);
        if v2.ly > 153 {
            let v3 = PpuView { ly: 0, ..v2 };
            let (v4, ih4) = spec_compare_ly_lyc(v3, ih2);
            let ih5 = if bit_of(v4.lcd_status, 5) { ih4.requested(Interrupt::Stat) } else { ih4 };
            let v5 = PpuView {
                stat_requested_on_current_line: false,
                mode: PpuModes::OamScan,
                wy_condition: false,
                win_ly: 0,
                ..v4
            };
            (PpuView { wy_condition: window_starts(v5), ..v5 }, ih5)
        } else {
            (v2, ih2)
        }
    } else {
        (v, ih)
    }
}

/// The two low bits of STAT show the current mode.
pub open spec fn mode_bits(mode: PpuModes) -> u8 {
    match mode {
        PpuModes::HBlank => 0,
        PpuModes::Vblank => 1,
        PpuModes::OamScan => 2,
        PpuModes::DrawPixels => 3,
    }
}

pub open spec fn spec_update_mode_in_status(v: PpuView) -> PpuView {
    PpuView { lcd_status: (v.lcd_status & 0xFC) | mode_bits(v.mode), ..v }
}

/// The mode step of one dot, before the LY == LYC check and the STAT update.
pub open spec fn spec_mode_step(v: PpuView, ih: InterruptHandler) -> (PpuView, InterruptHandler) {
    match v.mode {
        PpuModes::OamScan => (spec_oam_scan(v), ih),
        PpuModes::DrawPixels => spec_draw_pixels(v, ih),
        PpuModes::HBlank => spec_horizontal_blank(v, ih),
        PpuModes::Vblank => spec_vertical_blank(v, ih),
    }
}

/// One dot of the PPU. Nothing happens while the LCD is off.
pub open spec fn spec_ppu_tick(v: PpuView, ih: InterruptHandler) -> (PpuView, InterruptHandler) {
    if !bit_of(v.lcdc, LCD_ENABLED_BIT) {
        (v, ih)
    } else {
        let v1 = PpuView { current_elapsed_dots: (v.current_elapsed_dots + 1) as u16, ..v };
        let (v2, ih2) = spec_mode_step(v1, ih);
        let (v3, ih3) = spec_compare_ly_lyc(v2, ih2);
        (spec_update_mode_in_status(v3), ih3)
    }
}

// ----- Background and window -----

/// The base of the tile map that `bit` of LCDC selects, as an offset in VRAM.
pub open spec fn tilemap_base(lcdc: u8, bit: u8) -> u16 {
    if bit_of(lcdc, bit) { 0x1C00 } else { 0x1800 }
}

/// Whether the window, rather than the background, covers column `x` of the line.
pub open spec fn window_covers(v: PpuView, x: u8) -> bool {
    bit_of(v.lcdc, WINDOW_ENABLED_BIT) && x + 7 >= v.wx && v.wy_condition
}

/// The tile data byte offset at which a tile's row begins: unsigned tile numbers from 0x0000,
/// or signed ones around 0x1000, as LCDC bit 4 selects.
pub open spec fn tile_row_start(lcdc: u8, tile_id: u8, row: u8) -> int {
    if bit_of(lcdc, BG_WIN_TILEDATA_AREA_BIT) {
        tile_id * 16 + (row % 8) * 2
    } else {
        0x1000 + (if tile_id < 128 { tile_id as int } else { tile_id - 256 }) * 16 + (row % 8) * 2
    }
}

/// The colour number (0 to 3) of pixel `x_offset` (0 is leftmost) of a tile row given by its
/// low and high bit planes.
pub open spec fn color_number(lsb_plane: u8, msb_plane: u8, x_offset: u8) -> u8 {
    let lsb = (lsb_plane >> ((7 - x_offset) as u8)) & 1;
    let msb = (msb_plane >> ((7 - x_offset) as u8)) & 1;
    ((msb * 2) + lsb) as u8
}

/// A 5-bit colour channel widened to 8 bits.
pub open spec fn expand5(c: u8) -> u8 {
    (c << 3u8) | (c >> 2u8)
}

/// The CGB colour stored little-endian (xbbbbbgg gggrrrrr) at `index` of a palette memory.
pub open spec fn cgb_color(ram: Seq<u8>, index: int) -> Color {
    let c: u16 = (ram[index] as u16) | ((ram[index + 1] as u16) << 8u16);
    let red = (c & 0x1F) as u8;
    let green = ((c >> 5u16) & 0x1F) as u8;
    let blue = ((c >> 10u16) & 0x1F) as u8;
    Color { r: expand5(red), g: expand5(green), b: expand5(blue), a: 255 }
}

/// The tile map position shown at column `x` of the current line, and the tile map's base.
pub open spec fn bg_coordinates(v: PpuView, x: u8) -> (u8, u8, u16) {
    if window_covers(v, x) {
        ((x + 7 - v.wx) as u8, v.win_ly, tilemap_base(v.lcdc, WINDOW_TILEMAP_AREA_BIT))
    } else {
        (((x + v.scx) % 256) as u8, ((v.ly + v.scy) % 256) as u8, tilemap_base(v.lcdc, BG_TILEMAP_AREA_BIT))
    }
}

/// The colour number at tile map position (`tx`, `ty`) of the map at `map`, and the tile's
/// CGB attributes (flips, bank, palette and priority; ignored on DMG).
pub open spec fn bg_color_number(v: PpuView, tx: u8, ty: u8, map: u16) -> (u8, u8) {
    let tile_x = tx % 32;
    let address = map + tx / 8 + (ty / 8) * 32;
    let tile_id = v.vram_0[address];
    let attributes = v.vram_1[address];
    let cgb = !v.is_dmg;
    let tile_y: u8 = if cgb && bit_of(attributes, 6) { (7 - ty % 8) as u8 } else { ty % 32 };
    let row = tile_row_start(v.lcdc, tile_id, tile_y);
    let bank = if cgb && bit_of(attributes, 3) { v.vram_1 } else { v.vram_0 };
    let x_offset: u8 = if cgb && bit_of(attributes, 5) { (7 - tile_x % 8) as u8 } else { tile_x % 8 };
    (color_number(bank[row], bank[row + 1], x_offset), attributes)
}

/// The colour of column `x` of the current line from the background or window, and the
/// byte kept for sprite priority: the colour number with the tile's priority bit 7.
pub open spec fn bg_pixel(v: PpuView, x: u8) -> (Color, u8) {
    let (tx, ty, map) = bg_coordinates(v, x);
    let (number, attributes) = bg_color_number(v, tx, ty, map);
    let color = if !v.is_dmg {
        cgb_color(v.bg_color_ram, (attributes % 8) * 8 + number * 2)
    } else {
        v.color_lookup_table[((v.bgp >> ((number * 2) as u8)) & 3) as int]
    };
    (color, number | (attributes & 0x80))
}

/// Whether the window covers some column of the line.
pub open spec fn window_drawn_on_line(v: PpuView) -> bool {
    exists|x: u8| x < 160 && #[trigger] window_covers(v, x)
}

/// The first frame buffer index of the current line.
pub open spec fn line_start(v: PpuView) -> int {
    v.ly * 160
}

/// The current line drawn from the background and window; the window line counter moves on
/// when the window showed on the line.
pub open spec fn spec_render_background(v: PpuView) -> PpuView {
    let start = line_start(v);
    PpuView {
        current_framebuffer: Seq::new(
            FRAMEBUFFER_LENGTH as nat,
            |i: int| if start <= i < start + 160 { bg_pixel(v, (i - start) as u8).0 } else { v.current_framebuffer[i] },
        ),
        current_framebuffer_bg_pixel_info: Seq::new(
            FRAMEBUFFER_LENGTH as nat,
            |i: int|
                if start <= i < start + 160 {
                    bg_pixel(v, (i - start) as u8).1
                } else {
                    v.current_framebuffer_bg_pixel_info[i]
                },
        ),
        win_ly: if window_drawn_on_line(v) && v.win_ly < 144 { (v.win_ly + 1) as u8 } else { v.win_ly },
        ..v
    }
}

// ----- Sprites -----

/// Height of the sprites, 8 or 16 pixels, as LCDC bit 2 selects.
pub open spec fn sprite_height(v: PpuView) -> u8 {
    if bit_of(v.lcdc, 2) { 16 } else { 8 }
}

/// Whether the sprite whose attributes start at `i` in OAM covers the current line: its top
/// row is at its OAM Y position minus 16.
pub open spec fn sprite_on_line(v: PpuView, i: int) -> bool {
    let top = v.oam_ram[i] - 16;
    top <= v.ly < top + sprite_height(v)
}

/// The OAM offsets of the sprites on the current line among the first `k` OAM entries,
/// keeping at most ten, in OAM order.
pub open spec fn sprites_selected(v: PpuView, k: nat) -> Seq<int>
    decreases k,
{
    if k == 0 {
        seq![]
    } else {
        let before = sprites_selected(v, (k - 1) as nat);
        let i = 4 * (k - 1);
        if sprite_on_line(v, i) && before.len() < 10 { before.push(i) } else { before }
    }
}

/// The sprites drawn on the current line.
pub open spec fn line_sprites(v: PpuView) -> Seq<int> {
    sprites_selected(v, 40)
}

/// Whether sprite `i` is drawn before sprite `j` (so that `j` wins where both paint):
/// on CGB the lower OAM entry wins, on DMG the sprite further left wins and the lower OAM
/// entry breaks ties.
pub open spec fn drawn_before(v: PpuView, i: int, j: int) -> bool {
    if v.is_dmg {
        v.oam_ram[i + 1] > v.oam_ram[j + 1] || (v.oam_ram[i + 1] == v.oam_ram[j + 1] && i > j)
    } else {
        i > j
    }
}

/// The frame buffer index of column `pixel_x` of the current line.
pub open spec fn buffer_index(v: PpuView, pixel_x: u8) -> int {
    pixel_x + v.ly * 160
}

/// The on-screen columns a sprite at OAM offset `i` covers: from its X position minus 8 (not
/// below 0) up to its X position, excluded, and below the screen width of 160.
pub open spec fn sprite_column(v: PpuView, i: int, pixel_x: u8) -> bool {
    let x = v.oam_ram[i + 1];
    (if x >= 8 { x - 8 } else { 0 }) <= pixel_x < x && pixel_x < 160
}

/// The colour number that sprite `i` shows at column `pixel_x` of the current line.
pub open spec fn sprite_color_number(v: PpuView, i: int, pixel_x: u8) -> u8 {
    let height = sprite_height(v);
    let y = v.oam_ram[i];
    let x = v.oam_ram[i + 1];
    let tile = if height == 8 { v.oam_ram[i + 2] } else { v.oam_ram[i + 2] & 0xFE };
    let attributes = v.oam_ram[i + 3];
    let tile_y: int = if bit_of(attributes, 6) {
        height - 1 - (v.ly + 16 - y) % (height as int)
    } else if v.ly + 16 >= y {
        v.ly + 16 - y
    } else {
        0
    };
    let row = tile_y * 2 + tile * 16;
    let bank = if bit_of(attributes, 3) && !v.is_dmg { v.vram_1 } else { v.vram_0 };
    let diff: int = if pixel_x >= x { pixel_x - x } else { pixel_x - x + 256 };
    let column = (diff % 8) as u8;
    let x_offset: u8 = if bit_of(attributes, 5) { (7 - column) as u8 } else { column };
    color_number(bank[row], bank[row + 1], x_offset)
}

/// The colour of sprite `i` at column `pixel_x`, when the sprite paints that pixel: colour 0 is
/// transparent, and the background keeps pixels it has priority over.
pub open spec fn sprite_paint(v: PpuView, i: int, pixel_x: u8) -> Option<Color> {
    let number = sprite_color_number(v, i, pixel_x);
    let attributes = v.oam_ram[i + 3];
    let info = v.current_framebuffer_bg_pixel_info[buffer_index(v, pixel_x)];
    if number == 0 {
        None
    } else if !v.is_dmg {
        let color = cgb_color(v.sprite_color_ram, (attributes % 8) * 8 + number * 2);
        if info & 7 == 0 || !bit_of(v.lcdc, 0) {
            Some(color)
        } else if !bit_of(attributes, 7) && !bit_of(info, 7) {
            Some(color)
        } else {
            None
        }
    } else {
        let palette = if bit_of(attributes, 4) { v.obp1 } else { v.obp0 };
        let color = v.color_lookup_table[((palette >> ((number * 2) as u8)) & 3) as int];
        if !bit_of(attributes, 7) {
            Some(color)
        } else if info & 7 == 0 {
            Some(color)
        } else {
            None
        }
    }
}

/// Sprite `i` paints frame buffer index `b`.
pub open spec fn paints(v: PpuView, i: int, b: int) -> bool {
    let pixel_x = b - v.ly * 160;
    0 <= pixel_x < 256 && sprite_column(v, i, pixel_x as u8) && sprite_paint(v, i, pixel_x as u8) is Some
}

/// Sprite `i` is the one whose pixel shows at frame buffer index `b`.
pub open spec fn wins_pixel(v: PpuView, i: int, b: int) -> bool {
    &&& line_sprites(v).contains(i)
    &&& paints(v, i, b)
    &&& forall|j: int| #![trigger line_sprites(v).contains(j)]
        line_sprites(v).contains(j) && paints(v, j, b) && j != i ==> drawn_before(v, j, i)
}

/// The frame buffer pixel `b` after the sprites of the line are drawn.
pub open spec fn sprite_result(v: PpuView, b: int) -> Color {
    if exists|i: int| wins_pixel(v, i, b) {
        let i = choose|i: int| wins_pixel(v, i, b);
        sprite_paint(v, i, (b - v.ly * 160) as u8)->Some_0
    } else {
        v.current_framebuffer[b]
    }
}

/// The current line after its sprites are drawn over the background.
pub open spec fn spec_render_sprites(v: PpuView) -> PpuView {
    PpuView {
        current_framebuffer: Seq::new(FRAMEBUFFER_LENGTH as nat, |b: int| sprite_result(v, b)),
        ..v
    }
}

/// The sprites of `s` are listed in drawing order: each is drawn before every later one.
pub open spec fn sorted_for_drawing(v: PpuView, s: Seq<int>) -> bool {
    forall|a: int, c: int| 0 <= a < c < s.len() ==> #[trigger] drawn_before(v, s[a], s[c])
}

/// The pixel at frame buffer index `b` after the sprites of `s` are drawn in order.
pub open spec fn painted_by(v: PpuView, s: Seq<int>, b: int) -> Color
    decreases s.len(),
{
    if s.len() == 0 {
        v.current_framebuffer[b]
    } else if paints(v, s.last(), b) {
        sprite_paint(v, s.last(), (b - v.ly * 160) as u8)->Some_0
    } else {
        painted_by(v, s.drop_last(), b)
    }
}

/// Every element of `sprites_selected(v, k)` is the offset of an OAM entry below `k` whose
/// sprite covers the line, and they come in increasing order, at most ten of them.
proof fn lemma_selected_shape(v: PpuView, k: nat)
    requires
        k <= 40,
    ensures
        sprites_selected(v, k).len() <= 10,
        forall|a: int| 0 <= a < sprites_selected(v, k).len() ==> {
            let e = #[trigger] sprites_selected(v, k)[a];
            &&& 0 <= e < 4 * k
            &&& e % 4 == 0
            &&& sprite_on_line(v, e)
        },
        forall|a: int, c: int| 0 <= a < c < sprites_selected(v, k).len()
            ==> #[trigger] sprites_selected(v, k)[a] < #[trigger] sprites_selected(v, k)[c],
    decreases k,
{
    if k > 0 {
        lemma_selected_shape(v, (k - 1) as nat);
    }
}

/// Drawing order is a strict order: no two sprites are each drawn before the other.
proof fn lemma_drawn_before_asymmetric(v: PpuView, i: int, j: int)
    ensures
        !(drawn_before(v, i, j) && drawn_before(v, j, i)),
        i != j && v.is_dmg ==> drawn_before(v, i, j) || drawn_before(v, j, i),
        i != j && !v.is_dmg ==> drawn_before(v, i, j) || drawn_before(v, j, i),
{
}

/// OAM offsets as integers.
pub open spec fn as_ints(s: Seq<usize>) -> Seq<int> {
    s.map_values(|x: usize| x as int)
}

/// The pixel that `painted_by` leaves is that of the last sprite of `s` that paints it, if any.
proof fn lemma_painted_by_last(v: PpuView, s: Seq<int>, b: int)
    ensures
        (exists|q: int| 0 <= q < s.len() && #[trigger] paints(v, s[q], b)) ==> exists|q: int|
            0 <= q < s.len() && #[trigger] paints(v, s[q], b) && (forall|r: int| q < r < s.len() ==> !#[trigger] paints(v, s[r], b))
                && painted_by(v, s, b) == sprite_paint(v, s[q], (b - v.ly * 160) as u8)->Some_0,
        !(exists|q: int| 0 <= q < s.len() && #[trigger] paints(v, s[q], b)) ==> painted_by(v, s, b)
            == v.current_framebuffer[b],
    decreases s.len(),
{
    if s.len() > 0 {
        let t = s.drop_last();
        lemma_painted_by_last(v, t, b);
        if paints(v, s.last(), b) {
            assert(paints(v, s[s.len() - 1], b));
        } else {
            if exists|q: int| 0 <= q < s.len() && #[trigger] paints(v, s[q], b) {
                let q0 = choose|q: int| 0 <= q < s.len() && #[trigger] paints(v, s[q], b);
                assert(q0 < s.len() - 1);
                assert(t[q0] == s[q0]);
                assert(exists|q: int| 0 <= q < t.len() && #[trigger] paints(v, t[q], b));
                let q = choose|q: int|
                    0 <= q < t.len() && #[trigger] paints(v, t[q], b) && (forall|r: int| q < r < t.len() ==> !#[trigger] paints(v, t[r], b))
                        && painted_by(v, t, b) == sprite_paint(v, t[q], (b - v.ly * 160) as u8)->Some_0;
                assert(s[q] == t[q]);
                assert forall|r: int| q < r < s.len() implies !#[trigger] paints(v, s[r], b) by {
                    if r < s.len() - 1 {
                        assert(s[r] == t[r]);
                    }
                }
            } else {
                assert forall|q: int| 0 <= q < t.len() implies !#[trigger] paints(v, t[q], b) by {
                    assert(s[q] == t[q]);
                }
            }
        }
    }
}

/// Drawing the line's sprites in drawing order leaves each pixel to its winning sprite.
proof fn lemma_painted_by_is_result(v: PpuView, order: Seq<int>, b: int)
    requires
        sorted_for_drawing(v, order),
        forall|x: int| #[trigger] order.contains(x) <==> line_sprites(v).contains(x),
    ensures
        painted_by(v, order, b) == sprite_result(v, b),
{
    lemma_painted_by_last(v, order, b);
    if exists|q: int| 0 <= q < order.len() && #[trigger] paints(v, order[q], b) {
        let q = choose|q: int|
            0 <= q < order.len() && #[trigger] paints(v, order[q], b) && (forall|r: int|
                q < r < order.len() ==> !#[trigger] paints(v, order[r], b)) && painted_by(v, order, b)
                == sprite_paint(v, order[q], (b - v.ly * 160) as u8)->Some_0;
        let w = order[q];
        assert(order.contains(w));
        assert forall|j: int|
            #![trigger line_sprites(v).contains(j)]
            line_sprites(v).contains(j) && paints(v, j, b) && j != w implies drawn_before(v, j, w) by {
            assert(order.contains(j));
            let r = choose|r: int| 0 <= r < order.len() && order[r] == j;
            assert(r != q);
            if r > q {
                assert(!paints(v, order[r], b));
            } else {
                assert(drawn_before(v, order[r], order[q]));
            }
        }
        assert(wins_pixel(v, w, b));
        let w2 = choose|i: int| wins_pixel(v, i, b);
        if w2 != w {
            lemma_drawn_before_asymmetric(v, w, w2);
        }
    } else {
        if exists|i: int| wins_pixel(v, i, b) {
            let w = choose|i: int| wins_pixel(v, i, b);
            assert(order.contains(w));
            let r = choose|r: int| 0 <= r < order.len() && order[r] == w;
            assert(paints(v, order[r], b));
        }
    }
}

/// The sequence read backwards.
fn reversed_offsets(sprites: &Vec<usize>) -> (r: Vec<usize>)
    ensures
        r@.len() == sprites@.len(),
        forall|a: int| 0 <= a < r@.len() ==> #[trigger] r@[a] == sprites@[sprites@.len() - 1 - a],
{
    let n = sprites.len();
    let mut reversed: Vec<usize> = Vec::new();
    let mut k: usize = 0;
    while k < n
        invariant
            n == sprites@.len(),
            k <= n,
            reversed@.len() == k,
            forall|a: int| 0 <= a < k ==> #[trigger] reversed@[a] == sprites@[n - 1 - a],
        decreases n - k,
    {
        reversed.push(sprites[n - 1 - k]);
        k = k + 1;
    }
    reversed
}

/// Membership of offsets is the same read as integers.
proof fn lemma_contains_as_ints(s: Seq<usize>)
    ensures
        forall|x: usize| s.contains(x) <==> #[trigger] as_ints(s).contains(x as int),
        forall|x: int| #[trigger] as_ints(s).contains(x) ==> 0 <= x && s.contains(x as usize),
{
    assert forall|x: usize| s.contains(x) <==> #[trigger] as_ints(s).contains(x as int) by {
        if s.contains(x) {
            let i = choose|i: int| 0 <= i < s.len() && s[i] == x;
            assert(as_ints(s)[i] == x as int);
        }
        if as_ints(s).contains(x as int) {
            let i = choose|i: int| 0 <= i < as_ints(s).len() && as_ints(s)[i] == x as int;
            assert(s[i] == x);
        }
    }
    assert forall|x: int| #[trigger] as_ints(s).contains(x) implies 0 <= x && s.contains(x as usize) by {
        let i = choose|i: int| 0 <= i < as_ints(s).len() && as_ints(s)[i] == x;
        assert(s[i] as int == x);
    }
}

/// Membership in a sequence after an insertion.
proof fn lemma_insert_contains(s: Seq<usize>, p: int, e: usize)
    requires
        0 <= p <= s.len(),
    ensures
        forall|x: usize| #[trigger] s.insert(p, e).contains(x) <==> s.contains(x) || x == e,
        s.insert(p, e).len() == s.len() + 1,
{
    let t = s.insert(p, e);
    assert forall|x: usize| #[trigger] t.contains(x) <==> s.contains(x) || x == e by {
        if t.contains(x) {
            let i = choose|i: int| 0 <= i < t.len() && t[i] == x;
            if i < p {
                assert(s[i] == x);
            } else if i > p {
                assert(s[i - 1] == x);
            }
        }
        if s.contains(x) {
            let i = choose|i: int| 0 <= i < s.len() && s[i] == x;
            if i < p {
                assert(t[i] == x);
            } else {
                assert(t[i + 1] == x);
            }
        }
        if x == e {
            assert(t[p] == x);
        }
    }
}

/// Inserting a sprite with a lower OAM offset than all the others after the last sprite at
/// or right of it keeps a DMG drawing order.
proof fn lemma_insert_in_drawing_order(v: PpuView, s: Seq<usize>, p: int, e: usize)
    requires
        v.is_dmg,
        sorted_for_drawing(v, as_ints(s)),
        0 <= p <= s.len(),
        forall|a: int| 0 <= a < s.len() ==> #[trigger] s[a] > e,
        forall|a: int| 0 <= a < p ==> v.oam_ram[s[a] + 1] >= v.oam_ram[e + 1],
        p < s.len() ==> v.oam_ram[s[p] + 1] < v.oam_ram[e + 1],
    ensures
        sorted_for_drawing(v, as_ints(s.insert(p, e))),
{
    let t = s.insert(p, e);
    assert forall|a: int, c: int| 0 <= a < c < s.len() implies v.oam_ram[s[a] + 1] >= v.oam_ram[s[c] + 1] by {
        assert(drawn_before(v, as_ints(s)[a], as_ints(s)[c]));
    }
    assert forall|a: int, c: int| 0 <= a < c < t.len() implies #[trigger] drawn_before(
        v,
        as_ints(t)[a],
        as_ints(t)[c],
    ) by {
        if c < p {
            assert(drawn_before(v, as_ints(s)[a], as_ints(s)[c]));
        } else if c == p {
            assert(s[a] > e);
        } else if a < p {
            assert(drawn_before(v, as_ints(s)[a], as_ints(s)[c - 1]));
        } else if a == p {
            if c - 1 > p {
                assert(v.oam_ram[s[p] + 1] >= v.oam_ram[s[c - 1] + 1]);
            }
        } else {
            assert(drawn_before(v, as_ints(s)[a - 1], as_ints(s)[c - 1]));
        }
    }
}

/// What the sprites paint does not depend on the frame buffer they paint into.
proof fn lemma_sprites_ignore_framebuffer(v: PpuView, w: PpuView, i: int)
    requires
        w == (PpuView { current_framebuffer: w.current_framebuffer, ..v }),
    ensures
        forall|b: int| #[trigger] paints(w, i, b) == paints(v, i, b),
        forall|q: u8| #[trigger] sprite_paint(w, i, q) == sprite_paint(v, i, q),
        forall|q: u8| #[trigger] sprite_column(w, i, q) == sprite_column(v, i, q),
        forall|q: u8| #[trigger] sprite_color_number(w, i, q) == sprite_color_number(v, i, q),
        w.ly == v.ly,
{
    assert forall|q: u8| #[trigger] sprite_paint(w, i, q) == sprite_paint(v, i, q) by {
        assert(sprite_color_number(w, i, q) == sprite_color_number(v, i, q));
    }
    assert forall|b: int| #[trigger] paints(w, i, b) == paints(v, i, b) by {
        let q = (b - v.ly * 160) as u8;
        assert(sprite_paint(w, i, q) == sprite_paint(v, i, q));
    }
}

/// A line's rendering leaves the sizes, LY, the mode, the dot counter and the palette
/// indices as they were.
proof fn lemma_render_line_keeps(v: PpuView)
    requires
        sizes_ok(v),
    ensures
        ({
            let w = spec_render_line(v);
            &&& sizes_ok(w)
            &&& w.ly == v.ly && w.mode == v.mode && w.current_elapsed_dots == v.current_elapsed_dots
            &&& w.bg_palette_index == v.bg_palette_index && w.sprite_palette_index == v.sprite_palette_index
            &&& w.lcd_status == v.lcd_status && w.lcdc == v.lcdc
        }),
{
}

/// One dot keeps the PPU in the states of `ppu_wf`.
pub proof fn lemma_tick_keeps_wf(v: PpuView, ih: InterruptHandler)
    requires
        ppu_wf(v),
    ensures
        ppu_wf(spec_ppu_tick(v, ih).0),
{
    if bit_of(v.lcdc, LCD_ENABLED_BIT) {
        let v1 = PpuView { current_elapsed_dots: (v.current_elapsed_dots + 1) as u16, ..v };
        if v1.mode == PpuModes::DrawPixels {
            lemma_render_line_keeps(v1);
        }
    }
}

/// The palette index after a write to the palette data: with bit 7 set it moves to the next
/// of the 64 bytes, and past the last one back to 0 (keeping bit 7).
pub open spec fn palette_index_after_write(index: usize) -> usize {
    if bit_of(index as u8, 7) {
        let next = (index + 1) as usize;
        if next & 0x7F > 0x3F { index & 0x80 } else { next }
    } else {
        index
    }
}

proof fn lemma_index_byte(i: usize)
    by (bit_vector)
    requires
        i <= 0x100,
    ensures
        i & 0x3F < 64,
        i & 0x80 <= 0x80,
        (((i as u8) >> 7u8) & 1 == 1) ==> 128 <= i <= 255,
{
}

/// Writes to the palette data keep the palette index within 0x100.
pub proof fn lemma_palette_index_bounded(i: usize)
    requires
        i <= 0x100,
    ensures
        i & 0x3F < 64,
        palette_index_after_write(i) <= 0x100,
{
    lemma_index_byte(i);
}

/// The VRAM bank that `vram_bank_index` selects: bank 1 when its bit 0 is set.
pub open spec fn selected_vram(v: PpuView) -> Seq<u8> {
    if v.vram_bank_index & 1 == 0 { v.vram_0 } else { v.vram_1 }
}

proof fn lemma_u8_masks(x: u8)
    by (bit_vector)
    ensures
        x & 7 == x % 8,
        x & 7 <= 7,
        x % 32 < 32,
        (x >> 7u8) & 1 <= 1,
        x & 0x80 == 0 || x & 0x80 == 0x80,
        x & 3 <= 3,
{
}

/// The PPU at power on: everything cleared, the screen in the lightest shade, in OAM scan.
pub open spec fn initial_ppu(is_dmg: bool) -> PpuView {
    PpuView {
        is_dmg,
        vram_0: Seq::new(0x2000, |i: int| 0u8),
        vram_1: Seq::new(0x2000, |i: int| 0u8),
        vram_bank_index: 0,
        oam_ram: Seq::new(160, |i: int| 0u8),
        mode: PpuModes::OamScan,
        current_elapsed_dots: 1,
        bgp: 0,
        obp0: 0,
        obp1: 0,
        color_lookup_table: dmg_shades(),
        scy: 0,
        scx: 0,
        ly: 0,
        lyc: 0,
        lcdc: 0,
        current_framebuffer: Seq::new(FRAMEBUFFER_LENGTH as nat, |i: int| dmg_shades()[0]),
        current_framebuffer_bg_pixel_info: Seq::new(FRAMEBUFFER_LENGTH as nat, |i: int| 0u8),
        lcd_status: 2,
        wy: 0,
        wx: 0,
        win_ly: 0,
        wy_condition: false,
        stat_requested_on_current_line: false,
        bg_color_ram: Seq::new(64, |i: int| 0u8),
        sprite_color_ram: Seq::new(64, |i: int| 0u8),
        bg_palette_index: 0,
        sprite_palette_index: 0,
    }
}

/// The memories of a `Ppu` have their fixed sizes.
pub proof fn lemma_ppu_sizes(p: Ppu)
    ensures
        sizes_ok(p@),
{
}

proof fn lemma_plane_bits(lsb_plane: u8, msb_plane: u8, shift: u8)
    by (bit_vector)
    requires
        shift <= 7,
    ensures
        ((lsb_plane >> shift) & 1) <= 1,
        ((msb_plane >> shift) & 1) <= 1,
        (((msb_plane >> shift) & 1) << 1u8) | ((lsb_plane >> shift) & 1)
            == ((msb_plane >> shift) & 1) * 2 + ((lsb_plane >> shift) & 1),
        (((msb_plane >> shift) & 1) << 1u8) | ((lsb_plane >> shift) & 1) <= 3,
{
}

proof fn lemma_palette_bits(attr: u8, pal: u8, number: u8)
    by (bit_vector)
    requires
        number <= 3,
    ensures
        attr & 0b111 == attr % 8,
        (pal >> (number * 2)) & 0b11 <= 3,
{
}

impl Ppu {
    /// Whether the PPU is in a state its scanline machine keeps to (`ppu_wf`).
    pub fn is_well_formed(&self) -> (r: bool)
        ensures
            r == ppu_wf(self@),
    {
        self.ly <= 153 && (self.mode == PpuModes::Vblank || self.ly < 144) && self.current_elapsed_dots <= 454 && (
        self.mode != PpuModes::OamScan || self.current_elapsed_dots <= 452) && (self.mode != PpuModes::DrawPixels
            || self.current_elapsed_dots <= 453) && self.bg_palette_index <= 0x100 && self.sprite_palette_index <= 0x100
    }

    pub fn new(is_dmg: bool) -> (r: Ppu)
        ensures
            r@ == initial_ppu(is_dmg),
            ppu_wf(r@),
    {
        let r = Ppu {
            is_dmg,
            oam_ram: [0u8; 160],
            mode: PpuModes::OamScan,
            current_elapsed_dots: 1,
            current_framebuffer: [Color::from_rgb(155, 188, 15); FRAMEBUFFER_LENGTH],
            current_framebuffer_bg_pixel_info: [0u8; FRAMEBUFFER_LENGTH],
            lcd_status: 2,
            vram_0: [0u8; 0x2000],
            vram_1: [0u8; 0x2000],
            bg_color_ram: [0u8; 64],
            sprite_color_ram: [0u8; 64],
            vram_bank_index: 0,
            bg_palette_index: 0,
            sprite_palette_index: 0,
            ly: 0,
            lyc: 0,
            lcdc: 0,
            scy: 0,
            scx: 0,
            wy: 0,
            wx: 0,
            wy_condition: false,
            win_ly: 0,
            bgp: 0,
            obp0: 0,
            obp1: 0,
            stat_requested_on_current_line: false,
            color_lookup_table: [
                Color::from_rgb(155, 188, 15),
                Color::from_rgb(139, 172, 15),
                Color::from_rgb(48, 98, 48),
                Color::from_rgb(15, 56, 15),
            ],
        };
        assert(r@.vram_0 =~= Seq::new(0x2000, |i: int| 0u8));
        assert(r@.vram_1 =~= Seq::new(0x2000, |i: int| 0u8));
        assert(r@.oam_ram =~= Seq::new(160, |i: int| 0u8));
        assert(r@.color_lookup_table =~= dmg_shades());
        assert(r@.current_framebuffer =~= Seq::new(FRAMEBUFFER_LENGTH as nat, |i: int| dmg_shades()[0]));
        assert(r@.current_framebuffer_bg_pixel_info =~= Seq::new(FRAMEBUFFER_LENGTH as nat, |i: int| 0u8));
        assert(r@.bg_color_ram =~= Seq::new(64, |i: int| 0u8));
        assert(r@.sprite_color_ram =~= Seq::new(64, |i: int| 0u8));
        r
    }


    fn compare_ly_lyc(&mut self, interrupt_handler: &mut InterruptHandler)
        ensures
            (final(self)@, *final(interrupt_handler)) == spec_compare_ly_lyc(old(self)@, *old(interrupt_handler)),
    {
        if self.ly == self.lyc && !self.stat_requested_on_current_line {
            self.lcd_status = self.lcd_status | 0b0000_0100;
            if is_bit_set(self.lcd_status, 6) {
                interrupt_handler.request_interrupt(Interrupt::Stat);
                self.stat_requested_on_current_line = true;
            }
        }
    }

    pub fn fetch_oam(&self, address: u16) -> (r: u8)
        requires
            address < 160,
        ensures
            r == self@.oam_ram[address as int],
    {
        self.oam_ram[address as usize]
    }

    pub fn write_oam(&mut self, address: u16, byte: u8)
        requires
            address < 160,
        ensures
            final(self)@ == (PpuView { oam_ram: old(self)@.oam_ram.update(address as int, byte), ..old(self)@ }),
    {
        self.oam_ram[address as usize] = byte;
    }

    /// Writes to the VRAM bank that bit 0 of `vram_bank_index` selects.
    pub fn write_vram(&mut self, address: u16, byte: u8)
        requires
            address < 0x2000,
        ensures
            final(self)@ == (if old(self)@.vram_bank_index & 1 == 0 {
                PpuView { vram_0: old(self)@.vram_0.update(address as int, byte), ..old(self)@ }
            } else {
                PpuView { vram_1: old(self)@.vram_1.update(address as int, byte), ..old(self)@ }
            }),
    {
        if self.vram_bank_index & 1 == 0 {
            self.vram_0[address as usize] = byte;
        } else {
            self.vram_1[address as usize] = byte;
        }
    }

    /// Reads from the VRAM bank that bit 0 of `vram_bank_index` selects.
    pub fn fetch_vram(&self, address: u16) -> (r: u8)
        requires
            address < 0x2000,
        ensures
            r == selected_vram(self@)[address as int],
    {
        if self.vram_bank_index & 1 == 0 {
            self.vram_0[address as usize]
        } else {
            self.vram_1[address as usize]
        }
    }

    fn oam_scan(&mut self)
        ensures
            final(self)@ == spec_oam_scan(old(self)@),
    {
        if self.current_elapsed_dots > 76 {
            self.mode = PpuModes::DrawPixels;
        }
    }

    /// Writes STAT: bits 3 to 6 (the interrupt selects) come from the CPU, bit 7 and the mode
    /// and coincidence bits read as set until the PPU updates them.
    pub fn write_to_lcd_status(&mut self, received_byte: u8)
        ensures
            final(self)@ == (PpuView { lcd_status: 0x87 | (received_byte & 0x78), ..old(self)@ }),
    {
        self.lcd_status = 0b1000_0111 | (received_byte & 0b0111_1000);
    }

    fn update_current_mode_in_lcd_status(&mut self)
        ensures
            final(self)@ == spec_update_mode_in_status(old(self)@),
    {
        self.lcd_status = self.lcd_status & 0b1111_1100;
        proof {
            let st = self.lcd_status;
            assert(st | 0 == st && (st & 0xFC) & 0xFC == st & 0xFC) by (bit_vector);
        }
        match self.mode {
            PpuModes::HBlank => {},
            PpuModes::Vblank => self.lcd_status = self.lcd_status | 0x1,
            PpuModes::OamScan => self.lcd_status = self.lcd_status | 0x2,
            PpuModes::DrawPixels => self.lcd_status = self.lcd_status | 0x3,
        }
    }

    /// Writes LCDC; turning the LCD off clears the mode bits of STAT.
    pub fn write_lcdc(&mut self, byte: u8)
        ensures
            final(self)@ == (PpuView {
                lcdc: byte,
                lcd_status: if bit_of(byte, 7) { old(self)@.lcd_status } else { old(self)@.lcd_status & 0xFC },
                ..old(self)@
            }),
    {
        self.lcdc = byte;
        if !is_bit_set(self.lcdc, 7) {
            self.lcd_status = self.lcd_status & 0b1111_1100;
        }
    }

    pub fn fetch_bg_palette_data(&self) -> (r: u8)
        requires
            self@.bg_palette_index < 64,
        ensures
            r == self@.bg_color_ram[self@.bg_palette_index as int],
    {
        self.bg_color_ram[self.bg_palette_index]
    }

    pub fn fetch_sprite_palette_data(&self) -> (r: u8)
        requires
            self@.sprite_palette_index < 64,
        ensures
            r == self@.sprite_color_ram[self@.sprite_palette_index as int],
    {
        self.sprite_color_ram[self.sprite_palette_index]
    }

    pub fn write_sprite_palette_data(&mut self, received_byte: u8)
        requires
            old(self)@.sprite_palette_index < usize::MAX,
        ensures
            final(self)@ == (PpuView {
                sprite_color_ram: old(self)@.sprite_color_ram.update(
                    (old(self)@.sprite_palette_index & 0x3F) as int,
                    received_byte,
                ),
                sprite_palette_index: palette_index_after_write(old(self)@.sprite_palette_index),
                ..old(self)@
            }),
    {
        proof {
            lemma_index_mask(self.sprite_palette_index);
        }
        self.sprite_color_ram[self.sprite_palette_index & 0x3F] = received_byte;

        let increment_bit = self.sprite_palette_index & 0x80;
        if is_bit_set(self.sprite_palette_index as u8, 7) {
            self.sprite_palette_index = self.sprite_palette_index + 1;
            if self.sprite_palette_index & 0b0111_1111 > 0b11_1111 {
                self.sprite_palette_index = increment_bit;
            }
        }
    }

    pub fn write_bg_palette_data(&mut self, received_byte: u8)
        requires
            old(self)@.bg_palette_index < usize::MAX,
        ensures
            final(self)@ == (PpuView {
                bg_color_ram: old(self)@.bg_color_ram.update((old(self)@.bg_palette_index & 0x3F) as int, received_byte),
                bg_palette_index: palette_index_after_write(old(self)@.bg_palette_index),
                ..old(self)@
            }),
    {
        proof {
            lemma_index_mask(self.bg_palette_index);
        }
        self.bg_color_ram[self.bg_palette_index & 0x3F] = received_byte;

        let increment_bit = self.bg_palette_index & 0x80;
        if is_bit_set(self.bg_palette_index as u8, 7) {
            self.bg_palette_index = self.bg_palette_index + 1;
            if self.bg_palette_index & 0b0111_1111 > 0b11_1111 {
                self.bg_palette_index = increment_bit;
            }
        }
    }

    fn horizontal_blank(&mut self, interrupt_handler: &mut InterruptHandler)
        requires
            old(self)@.ly < 255,
        ensures
            (final(self)@, *final(interrupt_handler)) == spec_horizontal_blank(old(self)@, *old(interrupt_handler)),
    {
        if self.current_elapsed_dots > 451 {
            self.current_elapsed_dots = 1;

            self.compare_ly_lyc(interrupt_handler);
            self.ly = self.ly + 1;
            self.compare_ly_lyc(interrupt_handler);

            if self.ly == 144 {
                interrupt_handler.request_interrupt(Interrupt::Vblank);

                if is_bit_set(self.lcd_status, 4) {
                    interrupt_handler.request_interrupt(Interrupt::Stat);
                }
                self.stat_requested_on_current_line = false;

                self.mode = PpuModes::Vblank;
            } else {
                if is_bit_set(self.lcd_status, 5) {
                    interrupt_handler.request_interrupt(Interrupt::Stat);
                }

                self.stat_requested_on_current_line = false;
                self.mode = PpuModes::OamScan;

                if !self.wy_condition {
                    if self.wy == self.ly && is_bit_set(self.lcdc, WINDOW_ENABLED_BIT) {
                        self.wy_condition = true;
                    }
                }
            }
        }
    }

    fn vertical_blank(&mut self, interrupt_handler: &mut InterruptHandler)
        requires
            old(self)@.ly < 255,
        ensures
            (final(self)@, *final(interrupt_handler)) == spec_vertical_blank(old(self)@, *old(interrupt_handler)),
    {
        if self.current_elapsed_dots > 451 {
            self.current_elapsed_dots = 1;
            self.ly = self.ly + 1;
            self.compare_ly_lyc(interrupt_handler);

            if self.ly > 153 {
                self.ly = 0;
                self.compare_ly_lyc(interrupt_handler);

                if is_bit_set(self.lcd_status, 5) {
                    interrupt_handler.request_interrupt(Interrupt::Stat);
                }

                self.stat_requested_on_current_line = false;

                self.mode = PpuModes::OamScan;

                self.wy_condition = false;
                self.win_ly = 0;
                if !self.wy_condition {
                    if self.wy == self.ly && is_bit_set(self.lcdc, WINDOW_ENABLED_BIT) {
                        self.wy_condition = true;
                    }
                }
            }
        }
    }

    /// Mode 3: after its 172 dots the line is drawn, the HBlank STAT interrupt is requested
    /// if enabled, and the PPU enters HBlank.
    fn draw_pixels(&mut self, interrupt_handler: &mut InterruptHandler)
        requires
            old(self)@.ly < 144,
        ensures
            (final(self)@, *final(interrupt_handler)) == spec_draw_pixels(old(self)@, *old(interrupt_handler)),
    {
        if self.current_elapsed_dots > 247 {
            if !self.is_dmg {
                self.render_background();
                if is_bit_set(self.lcdc, 1) {
                    self.render_sprites();
                }
            } else {
                if is_bit_set(self.lcdc, 0) {
                    self.render_background();
                }
                if is_bit_set(self.lcdc, 1) {
                    self.render_sprites();
                }
            }

            if is_bit_set(self.lcd_status, 3) {
                interrupt_handler.request_interrupt(Interrupt::Stat);
            }

            self.mode = PpuModes::HBlank;
        }
    }

    /// Advances the PPU state machine one dot.
    pub fn tick(&mut self, interrupt_handler: &mut InterruptHandler)
        requires
            ppu_wf(old(self)@),
        ensures
            (final(self)@, *final(interrupt_handler)) == spec_ppu_tick(old(self)@, *old(interrupt_handler)),
            ppu_wf(final(self)@),
    {
        proof {
            lemma_tick_keeps_wf(self@, *interrupt_handler);
        }
        if !is_bit_set(self.lcdc, LCD_ENABLED_BIT) {
            return;
        }

        self.current_elapsed_dots = self.current_elapsed_dots + 1;

        match self.mode {
            PpuModes::OamScan => self.oam_scan(),
            PpuModes::DrawPixels => self.draw_pixels(interrupt_handler),
            PpuModes::HBlank => {
                self.horizontal_blank(interrupt_handler);
            },
            PpuModes::Vblank => self.vertical_blank(interrupt_handler),
        }

        self.compare_ly_lyc(interrupt_handler);
        self.update_current_mode_in_lcd_status();
    }

    /// The CGB colour stored at `index` of a palette memory.
    fn cgb_color_at(ram: &[u8; 64], index: usize) -> (c: Color)
        requires
            index + 1 < 64,
        ensures
            c == cgb_color(ram@, index as int),
    {
        let color_rgb555 = ram[index] as u16 | ((ram[index + 1] as u16) << 8);

        let red = (color_rgb555 & 0b1_1111) as u8;
        let green = ((color_rgb555 >> 5) & 0b1_1111) as u8;
        let blue = ((color_rgb555 >> 10) & 0b1_1111) as u8;

        Color::from_rgb((red << 3) | (red >> 2), (green << 3) | (green >> 2), (blue << 3) | (blue >> 2))
    }

    fn tile_coordinates(&self, pixel_x: u8) -> (r: (u8, u8, u16))
        requires
            pixel_x < 160,
        ensures
            r == bg_coordinates(self@, pixel_x),
    {
        let bg_tilemap: u16 = if is_bit_set(self.lcdc, BG_TILEMAP_AREA_BIT) { 0x1C00 } else { 0x1800 };
        let win_tilemap: u16 = if is_bit_set(self.lcdc, WINDOW_TILEMAP_AREA_BIT) { 0x1C00 } else { 0x1800 };

        let window_draw = is_bit_set(self.lcdc, WINDOW_ENABLED_BIT) && pixel_x + 7 >= self.wx && self.wy_condition;

        if window_draw {
            (pixel_x + 7 - self.wx, self.win_ly, win_tilemap)
        } else {
            (pixel_x.wrapping_add(self.scx), self.ly.wrapping_add(self.scy), bg_tilemap)
        }
    }

    #[verifier::rlimit(30)]
    fn tile_color_number(&self, tilemap_pixel_x: u8, tilemap_pixel_y: u8, tilemap: u16) -> (r: (u8, u8))
        requires
            tilemap == 0x1800 || tilemap == 0x1C00,
        ensures
            r == bg_color_number(self@, tilemap_pixel_x, tilemap_pixel_y, tilemap),
            r.0 <= 3,
    {
        let tilemap_tile_x = tilemap_pixel_x % 32;
        let mut tilemap_tile_y = tilemap_pixel_y % 32;
        let tile_index: u16 = (tilemap_pixel_x / 8) as u16 + (tilemap_pixel_y / 8) as u16 * 32;

        let tile_id_address = tilemap as usize + tile_index as usize;

        let tile_id = self.vram_0[tile_id_address];
        let tile_attributes = self.vram_1[tile_id_address];

        if !self.is_dmg && is_bit_set(tile_attributes, 6) {
            tilemap_tile_y = 7u8 - (tilemap_pixel_y % 8);
        }
        proof {
            lemma_u8_masks(tilemap_tile_y);
        }

        let row_start_address: usize = if is_bit_set(self.lcdc, BG_WIN_TILEDATA_AREA_BIT) {
            tile_id as usize * 16 + (tilemap_tile_y & 7) as usize * 2
        } else {
            let signed_id: i32 = if tile_id < 128 { tile_id as i32 } else { tile_id as i32 - 256 };
            (0x1000i32 + signed_id * 16 + (tilemap_tile_y & 7) as i32 * 2) as usize
        };

        let tiledata_lsb = if !self.is_dmg && is_bit_set(tile_attributes, 3) {
            self.vram_1[row_start_address]
        } else {
            self.vram_0[row_start_address]
        };
        let tiledata_msb = if !self.is_dmg && is_bit_set(tile_attributes, 3) {
            self.vram_1[row_start_address + 1]
        } else {
            self.vram_0[row_start_address + 1]
        };

        let mut x_offset: u8 = tilemap_tile_x % 8;
        if !self.is_dmg && is_bit_set(tile_attributes, 5) {
            x_offset = 7u8.saturating_sub(tilemap_tile_x % 8);
        }

        let lsb = (tiledata_lsb >> (7 - x_offset)) & 1;
        let msb = (tiledata_msb >> (7 - x_offset)) & 1;
        proof {
            lemma_plane_bits(tiledata_lsb, tiledata_msb, (7 - x_offset) as u8);
        }
        ((msb << 1) | lsb, tile_attributes)
    }

    /// Column `pixel_x` of the current line from the background or window.
    fn background_pixel(&self, pixel_x: u8) -> (r: (Color, u8))
        requires
            pixel_x < 160,
        ensures
            r == bg_pixel(self@, pixel_x),
    {
        let (tilemap_pixel_x, tilemap_pixel_y, tilemap) = self.tile_coordinates(pixel_x);
        let (color_index, tile_attributes) = self.tile_color_number(tilemap_pixel_x, tilemap_pixel_y, tilemap);
        proof {
            lemma_palette_bits(tile_attributes, self.bgp, color_index);
        }
        let color = if !self.is_dmg {
            let color_lsb_index = (tile_attributes & 0b111) as usize * 8 + color_index as usize * 2;
            Self::cgb_color_at(&self.bg_color_ram, color_lsb_index)
        } else {
            self.color_lookup_table[((self.bgp >> (color_index * 2)) & 0b11) as usize]
        };

        (color, color_index | tile_attributes & 0x80)
    }

    /// Renders the background and window of the current line.
    fn render_background(&mut self)
        requires
            old(self)@.ly < 144,
        ensures
            final(self)@ == spec_render_background(old(self)@),
    {
        let ghost old_view = self@;
        let mut window_was_drawn = false;
        let mut pixel_x: u8 = 0;
        while pixel_x < 160
            invariant
                pixel_x <= 160,
                old_view.ly < 144,
                self@ == (PpuView {
                    current_framebuffer: self@.current_framebuffer,
                    current_framebuffer_bg_pixel_info: self@.current_framebuffer_bg_pixel_info,
                    ..old_view
                }),
                window_was_drawn == (exists|x: u8| x < pixel_x && #[trigger] window_covers(old_view, x)),
                forall|i: int|
                    0 <= i < FRAMEBUFFER_LENGTH ==> #[trigger] self@.current_framebuffer[i] == (if line_start(old_view) <= i
                        < line_start(old_view) + pixel_x {
                        bg_pixel(old_view, (i - line_start(old_view)) as u8).0
                    } else {
                        old_view.current_framebuffer[i]
                    }),
                forall|i: int|
                    0 <= i < FRAMEBUFFER_LENGTH ==> #[trigger] self@.current_framebuffer_bg_pixel_info[i] == (if line_start(
                        old_view,
                    ) <= i < line_start(old_view) + pixel_x {
                        bg_pixel(old_view, (i - line_start(old_view)) as u8).1
                    } else {
                        old_view.current_framebuffer_bg_pixel_info[i]
                    }),
            decreases 160 - pixel_x,
        {
            let window_draw = is_bit_set(self.lcdc, WINDOW_ENABLED_BIT) && pixel_x + 7 >= self.wx && self.wy_condition;
            if window_draw {
                window_was_drawn = true;
            }
            let (color, info) = self.background_pixel(pixel_x);
            assert(bg_pixel(self@, pixel_x) == bg_pixel(old_view, pixel_x));

            let buffer_index = pixel_x as usize + self.ly as usize * GAMEBOY_WIDTH;
            self.current_framebuffer[buffer_index] = color;
            self.current_framebuffer_bg_pixel_info[buffer_index] = info;
            pixel_x = pixel_x + 1;
        }

        if window_was_drawn && self.win_ly < 144 {
            self.win_ly = self.win_ly + 1;
        }
        assert(window_was_drawn == window_drawn_on_line(old_view));
        assert(self@.current_framebuffer =~= spec_render_background(old_view).current_framebuffer);
        assert(self@.current_framebuffer_bg_pixel_info =~= spec_render_background(
            old_view,
        ).current_framebuffer_bg_pixel_info);
    }

    /// The colour number sprite `i` shows at column `pixel_x` of the current line.
    #[verifier::rlimit(30)]
    fn sprite_pixel_number(&self, i: usize, pixel_x: u8) -> (r: u8)
        requires
            i < 160,
            i % 4 == 0,
            self@.ly < 144,
            sprite_on_line(self@, i as int),
        ensures
            r == sprite_color_number(self@, i as int, pixel_x),
            r <= 3,
    {
        let obj_size: usize = if is_bit_set(self.lcdc, 2) { 16 } else { 8 };
        let obj_y = self.oam_ram[i];
        let obj_x = self.oam_ram[i + 1];
        let tile_index: u8 = if obj_size == 8 { self.oam_ram[i + 2] } else { self.oam_ram[i + 2] & 0xFE };
        let attributes = self.oam_ram[i + 3];

        let horizontal_flip = is_bit_set(attributes, 5);
        let vertical_flip = is_bit_set(attributes, 6);

        let mut tilemap_tile_y = (self.ly as usize + 16).saturating_sub(obj_y as usize);
        if vertical_flip {
            tilemap_tile_y = obj_size - 1 - (self.ly as usize + 16 - obj_y as usize) % obj_size;
        }

        let row_start_address = tilemap_tile_y * 2 + tile_index as usize * 16;

        let lsb_plane = if is_bit_set(attributes, 3) && !self.is_dmg {
            self.vram_1[row_start_address]
        } else {
            self.vram_0[row_start_address]
        };
        let msb_plane = if is_bit_set(attributes, 3) && !self.is_dmg {
            self.vram_1[row_start_address + 1]
        } else {
            self.vram_0[row_start_address + 1]
        };

        let mut x_offset: u8 = pixel_x.wrapping_sub(obj_x) % 8;
        if horizontal_flip {
            x_offset = 7u8.saturating_sub(pixel_x.wrapping_sub(obj_x) % 8);
        }

        let lsb = (lsb_plane >> (7 - x_offset)) & 1;
        let msb = (msb_plane >> (7 - x_offset)) & 1;
        proof {
            lemma_plane_bits(lsb_plane, msb_plane, (7 - x_offset) as u8);
        }
        (msb << 1) | lsb
    }

    /// The colour sprite `i` paints at column `pixel_x`, if it paints there.
    fn sprite_pixel_paint(&self, i: usize, pixel_x: u8, color_index: u8) -> (r: Option<Color>)
        requires
            i < 160,
            i % 4 == 0,
            color_index <= 3,
            color_index == sprite_color_number(self@, i as int, pixel_x),
            buffer_index(self@, pixel_x) < FRAMEBUFFER_LENGTH,
        ensures
            r == sprite_paint(self@, i as int, pixel_x),
    {
        let attributes = self.oam_ram[i + 3];
        let buffer_index = pixel_x as usize + self.ly as usize * GAMEBOY_WIDTH;
        if color_index == 0 {
            return None;
        }
        proof {
            lemma_palette_bits(attributes, self.obp0, color_index);
            lemma_palette_bits(attributes, self.obp1, color_index);
        }
        if !self.is_dmg {
            let color_lsb_index = (attributes & 0b111) as usize * 8 + color_index as usize * 2;
            let color = Self::cgb_color_at(&self.sprite_color_ram, color_lsb_index);
            if self.current_framebuffer_bg_pixel_info[buffer_index] & 0x7 == 0 || !is_bit_set(self.lcdc, 0) {
                Some(color)
            } else if !is_bit_set(attributes, 7) && !is_bit_set(self.current_framebuffer_bg_pixel_info[buffer_index], 7) {
                Some(color)
            } else {
                None
            }
        } else {
            let palette = if is_bit_set(attributes, 4) { self.obp1 } else { self.obp0 };
            let color_lookup = self.color_lookup_table[((palette >> (color_index * 2)) & 0b11) as usize];
            if !is_bit_set(attributes, 7) {
                Some(color_lookup)
            } else if self.current_framebuffer_bg_pixel_info[buffer_index] & 0b111 == 0 {
                Some(color_lookup)
            } else {
                None
            }
        }
    }

    /// Draws sprite `i` over the current line.
    fn draw_sprite(&mut self, i: usize)
        requires
            i < 160,
            i % 4 == 0,
            old(self)@.ly < 144,
            sprite_on_line(old(self)@, i as int),
        ensures
            final(self)@ == (PpuView { current_framebuffer: final(self)@.current_framebuffer, ..old(self)@ }),
            forall|b: int|
                0 <= b < FRAMEBUFFER_LENGTH ==> #[trigger] final(self)@.current_framebuffer[b] == (if paints(
                    old(self)@,
                    i as int,
                    b,
                ) {
                    sprite_paint(old(self)@, i as int, (b - old(self)@.ly * 160) as u8)->Some_0
                } else {
                    old(self)@.current_framebuffer[b]
                }),
    {
        let ghost v = self@;
        proof {
            lemma_ppu_sizes(*self);
        }
        let obj_x = self.oam_ram[i + 1];
        let mut pixel_x = obj_x.saturating_sub(8);
        let ghost start = pixel_x;
        while pixel_x < obj_x
            invariant
                v == old(self)@,
                v.ly < 144,
                i < 160,
                i % 4 == 0,
                sprite_on_line(v, i as int),
                obj_x == v.oam_ram[i + 1],
                start == (if obj_x >= 8 { obj_x - 8 } else { 0 }),
                start <= pixel_x <= obj_x,
                self@ == (PpuView { current_framebuffer: self@.current_framebuffer, ..v }),
                sizes_ok(self@),
                forall|b: int|
                    0 <= b < FRAMEBUFFER_LENGTH ==> #[trigger] self@.current_framebuffer[b] == (if start <= b - v.ly
                        * 160 < pixel_x && paints(v, i as int, b) {
                        sprite_paint(v, i as int, (b - v.ly * 160) as u8)->Some_0
                    } else {
                        v.current_framebuffer[b]
                    }),
            decreases obj_x - pixel_x,
        {
            if pixel_x < 160 {
                let color_index = self.sprite_pixel_number(i, pixel_x);
                assert(sprite_color_number(self@, i as int, pixel_x) == sprite_color_number(v, i as int, pixel_x));
                let buffer_index = pixel_x as usize + self.ly as usize * GAMEBOY_WIDTH;
                let paint = self.sprite_pixel_paint(i, pixel_x, color_index);
                assert(sprite_paint(self@, i as int, pixel_x) == sprite_paint(v, i as int, pixel_x));
                if let Some(color) = paint {
                    self.current_framebuffer[buffer_index] = color;
                }
                proof {
                    assert(paints(v, i as int, buffer_index as int) == (paint is Some));
                }
            }
            pixel_x = pixel_x + 1;
        }
        proof {
            assert forall|b: int| 0 <= b < FRAMEBUFFER_LENGTH && #[trigger] paints(v, i as int, b)
                implies start <= b - v.ly * 160 < obj_x by {
            }
        }
    }

    /// Draws the sprites of the current line over its background.
    fn render_sprites(&mut self)
        requires
            old(self)@.ly < 144,
        ensures
            final(self)@ == spec_render_sprites(old(self)@),
    {
        let ghost v = self@;
        let sprites = self.line_sprite_offsets();
        let order = self.drawing_order(&sprites);
        let n = order.len();
        let mut k: usize = 0;
        while k < n
            invariant
                v == old(self)@,
                v.ly < 144,
                n == order@.len(),
                k <= n,
                sorted_for_drawing(v, as_ints(order@)),
                forall|x: int| #[trigger] as_ints(order@).contains(x) <==> line_sprites(v).contains(x),
                forall|a: int| 0 <= a < n ==> #[trigger] order@[a] < 160 && order@[a] % 4 == 0 && sprite_on_line(v, order@[a] as int),
                self@ == (PpuView { current_framebuffer: self@.current_framebuffer, ..v }),
                forall|b: int|
                    0 <= b < FRAMEBUFFER_LENGTH ==> #[trigger] self@.current_framebuffer[b] == painted_by(
                        v,
                        as_ints(order@).take(k as int),
                        b,
                    ),
            decreases n - k,
        {
            let ghost before = self@;
            let i = order[k];
            proof {
                assert(as_ints(order@)[k as int] == i as int);
                assert(as_ints(order@).contains(i as int));
                lemma_sprites_ignore_framebuffer(v, before, i as int);
            }
            self.draw_sprite(i);
            proof {
                assert(as_ints(order@).take(k + 1).drop_last() == as_ints(order@).take(k as int));
                assert(as_ints(order@).take(k + 1).last() == i as int);
            }
            k = k + 1;
        }
        proof {
            assert(as_ints(order@).take(n as int) == as_ints(order@));
            assert forall|b: int| 0 <= b < FRAMEBUFFER_LENGTH implies #[trigger] self@.current_framebuffer[b]
                == sprite_result(v, b) by {
                lemma_painted_by_is_result(v, as_ints(order@), b);
            }
            assert(self@.current_framebuffer =~= spec_render_sprites(v).current_framebuffer);
        }
    }

    /// The OAM offsets of the sprites on the current line, at most ten, in OAM order.
    #[verifier::rlimit(40)]
    fn line_sprite_offsets(&self) -> (r: Vec<usize>)
        ensures
            as_ints(r@) == line_sprites(self@),
    {
        let mut sprites: Vec<usize> = Vec::new();
        let mut k: usize = 0;
        while k < 40
            invariant
                k <= 40,
                as_ints(sprites@) == sprites_selected(self@, k as nat),
            decreases 40 - k,
        {
            let i = 4 * k;
            let obj_y = self.oam_ram[i] as u16;
            let obj_size: u16 = if is_bit_set(self.lcdc, 2) { 16 } else { 8 };
            let line = self.ly as u16 + 16;
            let ghost before = sprites@;
            if obj_y <= line && line < obj_y + obj_size && sprites.len() < 10 {
                sprites.push(i);
                assert(as_ints(sprites@) =~= as_ints(before).push(i as int));
            }
            k = k + 1;
        }
        sprites
    }

    /// The line's sprites in the order they are drawn: higher OAM entries first, and on DMG
    /// sprites further right first (the leftmost sprite ends on top).
    fn drawing_order(&self, sprites: &Vec<usize>) -> (r: Vec<usize>)
        requires
            as_ints(sprites@) == line_sprites(self@),
        ensures
            sorted_for_drawing(self@, as_ints(r@)),
            forall|x: int| #[trigger] as_ints(r@).contains(x) <==> line_sprites(self@).contains(x),
            forall|a: int| 0 <= a < r@.len() ==> #[trigger] r@[a] < 160 && r@[a] % 4 == 0 && sprite_on_line(self@, r@[a] as int),
    {
        proof {
            lemma_selected_shape(self@, 40);
        }
        let reversed = reversed_offsets(sprites);
        proof {
            let n = sprites@.len() as int;
            let sel = line_sprites(self@);
            assert forall|a: int| 0 <= a < n implies #[trigger] reversed@[a] < 160 && reversed@[a] % 4 == 0
                && sprite_on_line(self@, reversed@[a] as int) by {
                assert(sel[n - 1 - a] == reversed@[a] as int);
            }
            assert forall|a: int, c: int| 0 <= a < c < n implies #[trigger] reversed@[a] > #[trigger] reversed@[c] by {
                assert(sel[n - 1 - c] < sel[n - 1 - a]);
            }
            lemma_contains_as_ints(reversed@);
            lemma_contains_as_ints(sprites@);
            assert forall|x: usize| #[trigger] reversed@.contains(x) <==> sprites@.contains(x) by {
                if reversed@.contains(x) {
                    let a = choose|a: int| 0 <= a < reversed@.len() && reversed@[a] == x;
                    assert(sprites@[n - 1 - a] == x);
                }
                if sprites@.contains(x) {
                    let a = choose|a: int| 0 <= a < sprites@.len() && sprites@[a] == x;
                    assert(reversed@[n - 1 - a] == x);
                }
            }
        }
        let out = if !self.is_dmg {
            proof {
                assert forall|a: int, c: int| 0 <= a < c < reversed@.len() implies #[trigger] drawn_before(
                    self@,
                    as_ints(reversed@)[a],
                    as_ints(reversed@)[c],
                ) by {
                    assert(reversed@[a] > reversed@[c]);
                }
            }
            reversed
        } else {
            self.sort_by_x(&reversed)
        };
        proof {
            lemma_contains_as_ints(out@);
            assert forall|a: int| 0 <= a < out@.len() implies #[trigger] out@[a] < 160 && out@[a] % 4 == 0
                && sprite_on_line(self@, out@[a] as int) by {
                assert(out@.contains(out@[a]));
                let u = choose|u: int| 0 <= u < reversed@.len() && reversed@[u] == out@[a];
            }
        }
        out
    }

    /// Stable insertion sort of the sprites by X position, rightmost first; `input` lists
    /// them by decreasing OAM offset, so sprites at the same X keep that order.
    fn sort_by_x(&self, input: &Vec<usize>) -> (out: Vec<usize>)
        requires
            self@.is_dmg,
            forall|a: int| 0 <= a < input@.len() ==> #[trigger] input@[a] < 160 && input@[a] % 4 == 0,
            forall|a: int, c: int| 0 <= a < c < input@.len() ==> #[trigger] input@[a] > #[trigger] input@[c],
        ensures
            sorted_for_drawing(self@, as_ints(out@)),
            forall|x: usize| #[trigger] out@.contains(x) <==> input@.contains(x),
            out@.len() == input@.len(),
    {
        proof {
            lemma_ppu_sizes(*self);
        }
        let n = input.len();
        let mut out: Vec<usize> = Vec::new();
        let mut k: usize = 0;
        while k < n
            invariant
                self@.is_dmg,
                sizes_ok(self@),
                n == input@.len(),
                k <= n,
                forall|a: int| 0 <= a < n ==> #[trigger] input@[a] < 160 && input@[a] % 4 == 0,
                forall|a: int, c: int| 0 <= a < c < n ==> #[trigger] input@[a] > #[trigger] input@[c],
                forall|a: int| 0 <= a < out@.len() ==> #[trigger] out@[a] < 160 && out@[a] % 4 == 0,
                forall|a: int| 0 <= a < out@.len() ==> #[trigger] out@[a] > input@[k as int] || k == n,
                sorted_for_drawing(self@, as_ints(out@)),
                out@.len() == k,
                forall|x: usize| #[trigger] out@.contains(x) <==> input@.subrange(0, k as int).contains(x),
            decreases n - k,
        {
            let e = input[k];
            let mut p: usize = 0;
            while p < out.len() && self.oam_ram[out[p] + 1] >= self.oam_ram[e + 1]
                invariant
                    e < 160,
                    e % 4 == 0,
                    sizes_ok(self@),
                    p <= out@.len(),
                    forall|a: int| 0 <= a < out@.len() ==> #[trigger] out@[a] < 160 && out@[a] % 4 == 0,
                    forall|a: int| 0 <= a < p ==> self@.oam_ram[out@[a] + 1] >= self@.oam_ram[e + 1],
                decreases out@.len() - p,
            {
                p = p + 1;
            }
            let ghost before = out@;
            proof {
                lemma_insert_in_drawing_order(self@, before, p as int, e);
            }
            out.insert(p, e);
            proof {
                lemma_insert_contains(before, p as int, e);
                assert(out@ == before.insert(p as int, e));
                let old_sub = input@.subrange(0, k as int);
                let sub = input@.subrange(0, k + 1);
                assert(sub[k as int] == e);
                assert forall|x: usize| #[trigger] out@.contains(x) <==> sub.contains(x) by {
                    if old_sub.contains(x) {
                        let t = choose|t: int| 0 <= t < old_sub.len() && old_sub[t] == x;
                        assert(sub[t] == x);
                    }
                    if sub.contains(x) && x != e {
                        let t = choose|t: int| 0 <= t < sub.len() && sub[t] == x;
                        assert(old_sub[t] == x);
                    }
                    if x == e {
                        assert(sub.contains(x));
                    }
                }
                assert forall|a: int| 0 <= a < out@.len() implies #[trigger] out@[a] > input@[k + 1] || k + 1 == n by {
                    if k + 1 < n {
                        assert(out@.contains(out@[a]));
                        let t = choose|t: int| 0 <= t < sub.len() && sub[t] == out@[a];
                        assert(input@[t] > input@[k + 1]);
                    }
                }
            }
            k = k + 1;
        }
        assert(input@.subrange(0, n as int) == input@);
        out
    }
}

/// With the LCD switched off (bit 7 of LCDC clear) the PPU stands still: a dot changes
/// neither the PPU nor the interrupt registers.
pub proof fn law_lcd_off_stands_still(v: PpuView, ih: InterruptHandler)
    requires
        !bit_of(v.lcdc, LCD_ENABLED_BIT),
    ensures
        spec_ppu_tick(v, ih) == (v, ih),
{
}

/// A dot keeps the PPU in the states of `ppu_wf`.
pub proof fn law_tick_keeps_ppu_wf(v: PpuView, ih: InterruptHandler)
    requires
        ppu_wf(v),
    ensures
        ppu_wf(spec_ppu_tick(v, ih).0),
{
    lemma_tick_keeps_wf(v, ih);
}

/// The LY=LYC coincidence check: when LY equals LYC and the STAT interrupt has not yet been
/// requested on the line, STAT's coincidence bit (bit 2) is set and, exactly when STAT bit 6
/// is set, the STAT interrupt (bit 1 of IF) is requested and the line is marked so that it
/// is requested only once. The other STAT bits, the mode interrupt enables (3 to 5) among
/// them, play no part. In every other case nothing changes.
#[verifier::rlimit(100)]
pub proof fn law_ly_lyc_coincidence(v: PpuView, ih: InterruptHandler)
    ensures
        ({
            let (v2, ih2) = spec_compare_ly_lyc(v, ih);
            let enabled = v.lcd_status & 0x40 != 0;
            &&& v.ly == v.lyc && !v.stat_requested_on_current_line ==> {
                &&& v2.lcd_status == v.lcd_status | 0x04
                &&& ih2.IF == (if enabled { ih.IF | 0x02 } else { ih.IF })
                &&& ih2.IE == ih.IE
                &&& ih2.enabled == ih.enabled
                &&& v2.stat_requested_on_current_line == enabled
                &&& v2 == (PpuView {
                    lcd_status: v2.lcd_status,
                    stat_requested_on_current_line: v2.stat_requested_on_current_line,
                    ..v
                })
            }
            &&& !(v.ly == v.lyc && !v.stat_requested_on_current_line) ==> v2 == v && ih2 == ih
            &&& v.ly == v.lyc && enabled ==> spec_compare_ly_lyc(v2, ih2) == (v2, ih2)
        }),
{
    lemma_interrupt_bits(ih.IF, v.lcd_status);
}

/// The shade a Game Boy (DMG) shows for pixel (`px`, `py`) of the 256x256 picture that the
/// 32x32 tile map at VRAM offset `map` describes, read from VRAM as the hardware does: the
/// pixel's 8x8 tile is named at entry (py / 8) * 32 + px / 8 of the map; LCDC bit 4 picks
/// unsigned tile numbers from 0x8000 or signed ones around 0x9000; a tile row is two bytes,
/// the low and high bit of each pixel's colour number, leftmost pixel in bit 7; BGP maps the
/// colour number to a shade, two bits per number.
pub open spec fn dmg_map_shade(v: PpuView, map: int, px: int, py: int) -> Color {
    let tile = v.vram_0[map + (py / 8) * 32 + px / 8];
    let signed_tile: int = if tile < 128 { tile as int } else { tile - 256 };
    let row: int = if v.lcdc & 0x10 != 0 {
        tile * 16 + (py % 8) * 2
    } else {
        0x1000 + signed_tile * 16 + (py % 8) * 2
    };
    let bit = (7 - px % 8) as u8;
    let number: int = (if bit_of(v.vram_0[row + 1], bit) { 2int } else { 0int }) + (if bit_of(v.vram_0[row], bit) {
        1int
    } else {
        0int
    });
    let shade_index: int = if number == 0 {
        (v.bgp % 4) as int
    } else if number == 1 {
        ((v.bgp / 4) % 4) as int
    } else if number == 2 {
        ((v.bgp / 16) % 4) as int
    } else {
        ((v.bgp / 64) % 4) as int
    };
    v.color_lookup_table[shade_index]
}

/// Whether the window covers column `x` of the line: the window is on (LCDC bit 5), it has
/// started on this frame (WY was reached) and the column is at or right of WX - 7.
pub open spec fn window_shown_at(v: PpuView, x: u8) -> bool {
    v.lcdc & 0x20 != 0 && x + 7 >= v.wx && v.wy_condition
}

/// The shade of column `x` of line LY on a Game Boy: the window's pixel (column x + 7 - WX,
/// row given by the window's own line counter, map by LCDC bit 6) where the window covers
/// the column, else the background's, scrolled: column (x + SCX) mod 256 and row
/// (LY + SCY) mod 256, map by LCDC bit 3.
pub open spec fn dmg_background_shade(v: PpuView, x: u8) -> Color {
    if window_shown_at(v, x) {
        dmg_map_shade(v, if v.lcdc & 0x40 != 0 { 0x1C00 } else { 0x1800 }, x + 7 - v.wx, v.win_ly as int)
    } else {
        dmg_map_shade(v, if v.lcdc & 0x08 != 0 { 0x1C00 } else { 0x1800 }, (x + v.scx) % 256, (v.ly + v.scy) % 256)
    }
}

proof fn lemma_bit_value(b: u8, s: u8)
    by (bit_vector)
    ensures
        ((b >> s) & 1 == 0) || ((b >> s) & 1 == 1),
{
}

/// The colour `bg_pixel` gives on a Game Boy is the shade read from VRAM.
#[verifier::rlimit(100)]
proof fn lemma_dmg_bg_pixel(v: PpuView, x: u8)
    requires
        v.is_dmg,
        sizes_ok(v),
        x < 160,
    ensures
        bg_pixel(v, x).0 == dmg_background_shade(v, x),
{
    lemma_register_bits(v.lcdc, v.bgp);
    let (tx, ty, map) = bg_coordinates(v, x);
    assert(window_covers(v, x) == window_shown_at(v, x));
    if window_covers(v, x) {
        assert(tx == x + 7 - v.wx && ty == v.win_ly);
    } else {
        assert(tx == (x + v.scx) % 256 && ty == (v.ly + v.scy) % 256);
    }
    assert((tx % 32) % 8 == tx % 8);
    assert((ty % 32) % 8 == ty % 8);
    let tile_id = v.vram_0[map + tx / 8 + (ty / 8) * 32];
    let row = tile_row_start(v.lcdc, tile_id, ty % 32);
    let bit = (7 - tx % 8) as u8;
    lemma_bit_value(v.vram_0[row], bit);
    lemma_bit_value(v.vram_0[row + 1], bit);
}

/// On a Game Boy, drawing the background and window of a visible line puts at each column
/// the shade `dmg_background_shade` reads from VRAM: the window's pixel where the window
/// covers the column, else the background pixel at row (LY + SCY) mod 256 and column
/// (x + SCX) mod 256 of the scrolled background picture.
pub proof fn law_dmg_background_pixel(v: PpuView, x: u8)
    requires
        v.is_dmg,
        sizes_ok(v),
        v.ly < 144,
        x < 160,
    ensures
        spec_render_background(v).current_framebuffer[v.ly * 160 + x] == dmg_background_shade(v, x),
{
    lemma_dmg_bg_pixel(v, x);
    let i = v.ly * 160 + x;
    assert(line_start(v) <= i < line_start(v) + 160);
    assert(spec_render_background(v).current_framebuffer[i] == bg_pixel(v, x).0);
}

proof fn lemma_interrupt_bits(x: u8, s: u8)
    by (bit_vector)
    ensures
        (x | 1) & 1 != 0,
        (x | 2) & 2 != 0,
        (x | 2) & 1 == x & 1,
        ((s | 4) >> 3u8) & 1 == 1 <==> s & 0x08 != 0,
        ((s | 4) >> 4u8) & 1 == 1 <==> s & 0x10 != 0,
        ((s | 4) >> 5u8) & 1 == 1 <==> s & 0x20 != 0,
        (s >> 3u8) & 1 == 1 <==> s & 0x08 != 0,
        (s >> 4u8) & 1 == 1 <==> s & 0x10 != 0,
        (s >> 5u8) & 1 == 1 <==> s & 0x20 != 0,
        (s >> 2u8) & 1 == 1 <==> s & 0x04 != 0,
        ((s | 4) >> 6u8) & 1 == 1 <==> s & 0x40 != 0,
{
}

proof fn lemma_index_mask(i: usize)
    by (bit_vector)
    ensures
        i & 0x3F < 64,
{
}

proof fn lemma_register_bits(l: u8, p: u8)
    by (bit_vector)
    ensures
        ((l >> 3u8) & 1 == 1) == (l & 0x08 != 0),
        ((l >> 4u8) & 1 == 1) == (l & 0x10 != 0),
        ((l >> 5u8) & 1 == 1) == (l & 0x20 != 0),
        ((l >> 6u8) & 1 == 1) == (l & 0x40 != 0),
        ((p >> 0u8) & 3) == p % 4,
        ((p >> 2u8) & 3) == (p / 4) % 4,
        ((p >> 4u8) & 3) == (p / 16) % 4,
        ((p >> 6u8) & 3) == (p / 64) % 4,
{
}

/// The ends of the PPU's modes, at the dot counts where they happen:
/// - drawing ends after dot 247 of the line: the line is drawn, the mode becomes horizontal
///   blank and, when STAT bit 3 is set, the STAT interrupt is requested;
/// - a line ends after dot 451: LY moves on by one and the dot count restarts at 1; reaching
///   line 144 enters vertical blank, requests the V-blank interrupt and, when STAT bit 4 is
///   set, the STAT interrupt; any other line starts with the OAM scan and, when STAT bit 5
///   is set, requests the STAT interrupt, V-blank left alone;
/// - in vertical blank, the end of line 153 wraps LY to 0 and starts the OAM scan (STAT
///   interrupt when bit 5 is set); earlier lines only move LY on.
/// IE and IME are never touched.
#[verifier::rlimit(100)]
pub proof fn law_mode_ends(v: PpuView, ih: InterruptHandler)
    ensures
        v.mode == PpuModes::DrawPixels && v.current_elapsed_dots > 247 ==> {
            let (v2, ih2) = spec_draw_pixels(v, ih);
            &&& v2.mode == PpuModes::HBlank
            &&& v2.current_framebuffer == spec_render_line(v).current_framebuffer
            &&& (v.lcd_status & 0x08 != 0 ==> ih2.IF & 0x02 != 0)
            &&& (v.lcd_status & 0x08 == 0 ==> ih2 == ih)
        },
        v.mode == PpuModes::HBlank && v.current_elapsed_dots > 451 && v.ly < 144 ==> {
            let (v2, ih2) = spec_horizontal_blank(v, ih);
            &&& v2.ly == v.ly + 1
            &&& v2.current_elapsed_dots == 1
            &&& ih2.IE == ih.IE && ih2.enabled == ih.enabled
            &&& v.ly + 1 == 144 ==> {
                &&& v2.mode == PpuModes::Vblank
                &&& ih2.IF & 0x01 != 0
                &&& (v.lcd_status & 0x10 != 0 ==> ih2.IF & 0x02 != 0)
            }
            &&& v.ly + 1 < 144 ==> {
                &&& v2.mode == PpuModes::OamScan
                &&& ih2.IF & 0x01 == ih.IF & 0x01
                &&& (v.lcd_status & 0x20 != 0 ==> ih2.IF & 0x02 != 0)
            }
        },
        v.mode == PpuModes::Vblank && v.current_elapsed_dots > 451 && v.ly <= 153 ==> {
            let (v2, ih2) = spec_vertical_blank(v, ih);
            &&& v2.current_elapsed_dots == 1
            &&& ih2.IE == ih.IE && ih2.enabled == ih.enabled
            &&& ih2.IF & 0x01 == ih.IF & 0x01
            &&& v.ly == 153 ==> v2.ly == 0 && v2.mode == PpuModes::OamScan && (v.lcd_status & 0x20 != 0 ==> ih2.IF
                & 0x02 != 0)
            &&& v.ly < 153 ==> v2.ly == v.ly + 1 && v2.mode == PpuModes::Vblank
        },
{
    lemma_interrupt_bits(ih.IF, v.lcd_status);
    lemma_interrupt_bits(ih.IF | 2, v.lcd_status);
    lemma_interrupt_bits(ih.IF | 1, v.lcd_status);
    lemma_interrupt_bits((ih.IF | 2) | 1, v.lcd_status);
    lemma_interrupt_bits((ih.IF | 2) | 2, v.lcd_status);
    if v.mode == PpuModes::DrawPixels && v.current_elapsed_dots > 247 {
        let drawn = spec_render_line(v);
        assert(drawn.lcd_status == v.lcd_status) by {
            assert(spec_render_background(v).lcd_status == v.lcd_status);
            assert(spec_render_sprites(spec_render_background(v)).lcd_status == v.lcd_status);
            assert(spec_render_sprites(v).lcd_status == v.lcd_status);
        }
    }
}

/// Whether the sprite at OAM offset `e` covers line LY: its top row is its OAM Y minus 16,
/// and it is 16 rows tall when LCDC bit 2 is set, else 8.
pub open spec fn sprite_covers_line(v: PpuView, e: int) -> bool {
    let top = v.oam_ram[e] - 16;
    top <= v.ly < top + (if v.lcdc & 0x04 != 0 { 16int } else { 8int })
}

/// What the selection of the sprites of a line among the first `k` OAM entries is: at most
/// ten OAM offsets, in increasing OAM order, each of a sprite covering the line; and every
/// sprite of those entries that covers the line is selected unless ten earlier ones were.
pub open spec fn selection_correct(v: PpuView, k: nat, s: Seq<int>) -> bool {
    &&& s.len() <= 10
    &&& forall|a: int, b: int| 0 <= a < b < s.len() ==> s[a] < s[b]
    &&& forall|a: int| 0 <= a < s.len() ==> 0 <= #[trigger] s[a] < 4 * k && s[a] % 4 == 0 && sprite_covers_line(v, s[a])
    &&& forall|j: int|
        0 <= j < k && #[trigger] sprite_covers_line(v, 4 * j) ==> s.contains(4 * j) || (s.len() == 10 && s[9] < 4 * j)
}

proof fn lemma_sprites_selected(v: PpuView, k: nat)
    requires
        k <= 40,
    ensures
        selection_correct(v, k, sprites_selected(v, k)),
    decreases k,
{
    lemma_interrupt_bits(0, v.lcdc);
    assert forall|e: int| sprite_on_line(v, e) == sprite_covers_line(v, e) by {}
    if k > 0 {
        let k1 = (k - 1) as nat;
        lemma_sprites_selected(v, k1);
        let before = sprites_selected(v, k1);
        let i: int = 4 * (k1 as int);
        if sprite_on_line(v, i) && before.len() < 10 {
            let s = before.push(i);
            assert(s[s.len() - 1] == i);
            assert forall|a: int| 0 <= a < before.len() implies s[a] == before[a] by {}
            assert forall|j: int| 0 <= j < k && #[trigger] sprite_covers_line(v, 4 * j) implies s.contains(4 * j) || (
            s.len() == 10 && s[9] < 4 * j) by {
                if j < k1 {
                    if before.contains(4 * j) {
                        let a = choose|a: int| 0 <= a < before.len() && before[a] == 4 * j;
                        assert(s[a] == 4 * j);
                    }
                } else {
                    assert(s[s.len() - 1] == 4 * j);
                }
            }
        } else {
            assert forall|j: int| 0 <= j < k && #[trigger] sprite_covers_line(v, 4 * j) implies before.contains(4 * j)
                || (before.len() == 10 && before[9] < 4 * j) by {
                if j == k1 {
                    assert(before.len() == 10);
                    assert(before[9] < 4 * k1);
                }
            }
        }
    }
}

/// The sprites drawn on a line are chosen as the hardware's OAM scan does: at most ten, in
/// OAM order, each covering the line (top row at OAM Y - 16, 8 or 16 rows as LCDC bit 2
/// says), and every sprite covering the line is among them unless ten earlier sprites were.
pub proof fn law_line_sprites(v: PpuView)
    ensures
        selection_correct(v, 40, line_sprites(v)),
{
    lemma_sprites_selected(v, 40);
}

/// A 5-bit colour channel widened to 8 bits, its top bits repeated below.
pub open spec fn widen5(x: int) -> u8 {
    (x * 8 + x / 4) as u8
}

/// The CGB colour stored at `index` of a palette memory: two bytes, little-endian, holding
/// red in bits 0-4, green in bits 5-9 and blue in bits 10-14.
pub open spec fn palette_color(ram: Seq<u8>, index: int) -> Color {
    let lo = ram[index];
    let hi = ram[index + 1];
    Color {
        r: widen5((lo % 32) as int),
        g: widen5(lo / 32 + (hi % 4) * 8),
        b: widen5(((hi / 4) % 32) as int),
        a: 255,
    }
}

/// The colour a Game Boy Color shows for pixel (`px`, `py`) of the picture that the tile map
/// at VRAM offset `map` describes: the tile number is in bank 0 of the map, its attributes
/// at the same place in bank 1 (bits 0-2 palette, bit 3 the VRAM bank of the tile data,
/// bit 5 horizontal flip, bit 6 vertical flip); the colour number picks one of the four
/// colours of that palette in background palette memory.
pub open spec fn cgb_map_color(v: PpuView, map: int, px: int, py: int) -> Color {
    let entry = map + (py / 8) * 32 + px / 8;
    let tile = v.vram_0[entry];
    let attributes = v.vram_1[entry];
    let signed_tile: int = if tile < 128 { tile as int } else { tile - 256 };
    let tile_row: int = if attributes & 0x40 != 0 { 7 - py % 8 } else { py % 8 };
    let start: int = if v.lcdc & 0x10 != 0 { tile * 16 + tile_row * 2 } else { 0x1000 + signed_tile * 16 + tile_row * 2 };
    let data = if attributes & 0x08 != 0 { v.vram_1 } else { v.vram_0 };
    let bit = (if attributes & 0x20 != 0 { px % 8 } else { 7 - px % 8 }) as u8;
    let number: int = (if bit_of(data[start + 1], bit) { 2int } else { 0int }) + (if bit_of(data[start], bit) {
        1int
    } else {
        0int
    });
    palette_color(v.bg_color_ram, (attributes % 8) * 8 + number * 2)
}

/// The colour of column `x` of line LY on a Game Boy Color: the window's pixel where the
/// window covers the column, else the scrolled background's, as for the Game Boy.
pub open spec fn cgb_background_color(v: PpuView, x: u8) -> Color {
    if window_shown_at(v, x) {
        cgb_map_color(v, if v.lcdc & 0x40 != 0 { 0x1C00 } else { 0x1800 }, x + 7 - v.wx, v.win_ly as int)
    } else {
        cgb_map_color(v, if v.lcdc & 0x08 != 0 { 0x1C00 } else { 0x1800 }, (x + v.scx) % 256, (v.ly + v.scy) % 256)
    }
}

proof fn lemma_cgb_bits(lo: u8, hi: u8, x: u8, attributes: u8)
    by (bit_vector)
    ensures
        (((lo as u16) | ((hi as u16) << 8u16)) & 0x1F) as u8 == lo % 32,
        ((((lo as u16) | ((hi as u16) << 8u16)) >> 5u16) & 0x1F) as u8 == lo / 32 + (hi % 4) * 8,
        ((((lo as u16) | ((hi as u16) << 8u16)) >> 10u16) & 0x1F) as u8 == (hi / 4) % 32,
        x < 32 ==> ((x << 3u8) | (x >> 2u8)) == x * 8 + x / 4,
        ((attributes >> 3u8) & 1 == 1) == (attributes & 0x08 != 0),
        ((attributes >> 5u8) & 1 == 1) == (attributes & 0x20 != 0),
        ((attributes >> 6u8) & 1 == 1) == (attributes & 0x40 != 0),
{
}

/// The palette colours decode as `palette_color` says.
proof fn lemma_palette_color(ram: Seq<u8>, index: int)
    ensures
        cgb_color(ram, index) == palette_color(ram, index),
{
    let lo = ram[index];
    let hi = ram[index + 1];
    lemma_cgb_bits(lo, hi, 0, 0);
    lemma_cgb_bits(lo, hi, lo % 32, 0);
    lemma_cgb_bits(lo, hi, (lo / 32 + (hi % 4) * 8) as u8, 0);
    lemma_cgb_bits(lo, hi, (hi / 4) % 32, 0);
}

/// The colour `bg_pixel` gives on a Game Boy Color is the one read from VRAM and palette
/// memory.
#[verifier::rlimit(100)]
proof fn lemma_cgb_bg_pixel(v: PpuView, x: u8)
    requires
        !v.is_dmg,
        sizes_ok(v),
        x < 160,
    ensures
        bg_pixel(v, x).0 == cgb_background_color(v, x),
{
    lemma_register_bits(v.lcdc, v.bgp);
    let (tx, ty, map) = bg_coordinates(v, x);
    assert(window_covers(v, x) == window_shown_at(v, x));
    if window_covers(v, x) {
        assert(tx == x + 7 - v.wx && ty == v.win_ly);
    } else {
        assert(tx == (x + v.scx) % 256 && ty == (v.ly + v.scy) % 256);
    }
    assert((tx % 32) % 8 == tx % 8);
    assert((ty % 32) % 8 == ty % 8);
    let address = map + tx / 8 + (ty / 8) * 32;
    let attributes = v.vram_1[address];
    lemma_cgb_bits(0, 0, 0, attributes);
    let (number, attr) = bg_color_number(v, tx, ty, map);
    let tile_id = v.vram_0[address];
    let tile_y: u8 = if attributes & 0x40 != 0 { (7 - ty % 8) as u8 } else { ty % 32 };
    let row = tile_row_start(v.lcdc, tile_id, tile_y);
    let bank = if attributes & 0x08 != 0 { v.vram_1 } else { v.vram_0 };
    let x_offset: u8 = if attributes & 0x20 != 0 { (7 - (tx % 32) % 8) as u8 } else { (tx % 32) % 8 };
    let bit = (7 - x_offset) as u8;
    lemma_bit_value(bank[row], bit);
    lemma_bit_value(bank[row + 1], bit);
    lemma_palette_color(v.bg_color_ram, (attributes % 8) * 8 + number * 2);
}

/// On a Game Boy Color, drawing the background and window of a visible line puts at each
/// column the colour `cgb_background_color` reads from VRAM and palette memory, with the
/// tile attributes (palette, bank, flips) applied.
pub proof fn law_cgb_background_pixel(v: PpuView, x: u8)
    requires
        !v.is_dmg,
        sizes_ok(v),
        v.ly < 144,
        x < 160,
    ensures
        spec_render_background(v).current_framebuffer[v.ly * 160 + x] == cgb_background_color(v, x),
{
    lemma_cgb_bg_pixel(v, x);
    let i = v.ly * 160 + x;
    assert(line_start(v) <= i < line_start(v) + 160);
    assert(spec_render_background(v).current_framebuffer[i] == bg_pixel(v, x).0);
}

} // verus!
