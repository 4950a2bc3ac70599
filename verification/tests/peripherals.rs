use rusty_boy::audio_controller::AudioController;
use rusty_boy::cpu::is_bit_set;
use rusty_boy::custom_errors::UnableToOpenSelectedFileError;
use rusty_boy::hdma_controller::HdmaController;
use rusty_boy::interrupt_handler::{Interrupt, InterruptHandler};
use rusty_boy::joypad::{Joypad, PressedButtons};
use rusty_boy::ppu::{Ppu, PpuModes};
use rusty_boy::serial::Serial;
use rusty_boy::timer::Timer;

fn no_buttons() -> PressedButtons {
    PressedButtons { right: false, left: false, up: false, down: false, a: false, b: false, select: false, start: false }
}

#[test]
fn bit_test() {
    assert!(is_bit_set(0b1000_0000, 7));
    assert!(!is_bit_set(0b0111_1111, 7));
    assert!(is_bit_set(0b0000_0001, 0));
}

#[test]
fn interrupt_masks_and_vectors() {
    assert_eq!(Interrupt::Vblank.mask(), 0x01);
    assert_eq!(Interrupt::Joypad.mask(), 0x10);
    assert_eq!(Interrupt::Stat.jump_vector(), 0x48);
    assert_eq!(Interrupt::Serial.jump_vector(), 0x58);
    assert_eq!(Interrupt::Timer.jump_vector(), 0x50);
}

#[test]
fn request_then_unrequest_clears_the_bit() {
    let mut ih = InterruptHandler::new();
    ih.IF = 0b0000_0100;
    ih.request_interrupt(Interrupt::Stat);
    assert_eq!(ih.IF, 0b0000_0110);
    ih.unrequest_interrupt(&Interrupt::Stat);
    assert_eq!(ih.IF, 0b0000_0100);
    ih.enable_interrupt(Interrupt::Timer);
    assert_eq!(ih.IE, 0b0000_0100);
    assert!(ih.is_interrupt_pending());
}

#[test]
fn divider_write_resets() {
    let mut timer = Timer::default();
    let mut ih = InterruptHandler::new();
    for _ in 0..100 {
        timer.tick(&mut ih);
    }
    assert_eq!(timer.read_byte(0xFF04), 1);
    timer.write_byte(0xFF04, 0x55);
    assert_eq!(timer.read_byte(0xFF04), 0);
}

#[test]
fn disabled_timer_only_divides() {
    let mut timer = Timer::default();
    let mut ih = InterruptHandler::new();
    timer.write_byte(0xFF05, 0x10);
    for _ in 0..1000 {
        timer.tick(&mut ih);
    }
    assert_eq!(timer.read_byte(0xFF05), 0x10);
    assert_eq!(ih.IF, 0);
}

#[test]
fn timer_overflow_reloads_and_requests_interrupt() {
    let mut timer = Timer::default();
    let mut ih = InterruptHandler::new();
    timer.write_byte(0xFF06, 0xAB);
    timer.write_byte(0xFF07, 0b101);
    timer.write_byte(0xFF05, 0xFF);
    let mut ticks = 0;
    while ih.IF & 0x04 == 0 && ticks < 100 {
        timer.tick(&mut ih);
        ticks += 1;
    }
    assert_eq!(ih.IF & 0x04, 0x04);
    assert_eq!(timer.read_byte(0xFF05), 0xAB);
    assert_eq!(timer.read_byte(0xFF06), 0xAB);
    assert_eq!(timer.read_byte(0xFF07), 0b101);
}

#[test]
fn joypad_shows_held_buttons_of_the_selected_group() {
    let mut joypad = Joypad::new();
    let mut ih = InterruptHandler::new();
    let mut pressed = no_buttons();
    pressed.right = true;
    pressed.start = true;
    joypad.update_input(&pressed, &mut ih);
    joypad.write_to_byte(0x20, &mut ih);
    assert_eq!(joypad.byte() & 0x0F, 0b1110);
    joypad.write_to_byte(0x10, &mut ih);
    assert_eq!(joypad.byte() & 0x0F, 0b0111);
    assert_eq!(ih.IF & 0x10, 0x10);
}

#[test]
fn joypad_with_nothing_held() {
    let mut joypad = Joypad::new();
    let mut ih = InterruptHandler::new();
    joypad.update_input(&no_buttons(), &mut ih);
    joypad.write_to_byte(0x20, &mut ih);
    assert_eq!(joypad.byte(), 0xEF);
    assert_eq!(ih.IF, 0);
}

#[test]
fn serial_control_write() {
    let mut serial = Serial::new();
    let mut ih = InterruptHandler::new();
    serial.write_to_transfer(&mut ih, 0x41);
    assert_eq!(serial.serial_data_transfer, 0);
    serial.write_to_control(0x81, &mut ih);
    assert_eq!(serial.serial_data_transfer, 0);
    assert_eq!(ih.IF, 0);
    serial.serial_data_control = 3;
    serial.write_to_control(0x81, &mut ih);
    assert_eq!(serial.serial_data_transfer, 0xFF);
    assert_eq!(serial.serial_data_control, 1);
    assert_eq!(ih.IF, 0x08);
}

#[test]
fn lcd_off_ppu_stands_still() {
    let mut ppu = Ppu::new(true);
    let mut ih = InterruptHandler::new();
    ppu.lcdc = 0;
    let ly = ppu.ly;
    for _ in 0..1000 {
        ppu.tick(&mut ih);
    }
    assert_eq!(ppu.ly, ly);
    assert_eq!(ih.IF, 0);
}

#[test]
fn lcd_on_ppu_reaches_vertical_blank() {
    let mut ppu = Ppu::new(true);
    let mut ih = InterruptHandler::new();
    ppu.lcdc = 0x80;
    for _ in 0..(456 * 145) {
        ppu.tick(&mut ih);
    }
    assert!(ppu.mode == PpuModes::Vblank);
    assert_eq!(ih.IF & 0x01, 0x01);
}

#[test]
fn ppu_memories() {
    let mut ppu = Ppu::new(false);
    ppu.write_oam(0x10, 0x99);
    assert_eq!(ppu.fetch_oam(0x10), 0x99);
    ppu.write_vram(0x1FFF, 0x42);
    assert_eq!(ppu.fetch_vram(0x1FFF), 0x42);
}

#[test]
fn error_message() {
    let mut error = UnableToOpenSelectedFileError::new();
    assert_eq!(error.display_string(), "MyError: Selected file could not be opened.");
    error.change_message("no ROM");
    assert_eq!(error.display_string(), "MyError: no ROM");
}

#[test]
fn controllers_start_idle() {
    let hdma = HdmaController::new();
    assert!(!hdma.is_active);
    assert_eq!(hdma.length, 0);
    let audio = AudioController::new();
    assert_eq!(audio.nr50, 0);
}

#[test]
fn palette_data_auto_increments() {
    let mut ppu = Ppu::new(false);
    ppu.bg_palette_index = 0x80;
    ppu.write_bg_palette_data(0x12);
    assert_eq!(ppu.bg_color_ram[0], 0x12);
    assert_eq!(ppu.bg_palette_index, 0x81);
    ppu.sprite_palette_index = 0x3F;
    ppu.write_sprite_palette_data(0x34);
    assert_eq!(ppu.sprite_color_ram[0x3F], 0x34);
    assert_eq!(ppu.sprite_palette_index, 0x3F);
    ppu.bg_palette_index = 0xBF;
    ppu.write_bg_palette_data(0x56);
    assert_eq!(ppu.bg_color_ram[0x3F], 0x56);
    assert_eq!(ppu.bg_palette_index, 0x80);
}

fn shade(r: u8, g: u8, b: u8) -> rusty_boy::ppu::Color {
    rusty_boy::ppu::Color::from_rgb(r, g, b)
}

#[test]
fn background_and_sprite_of_the_first_line() {
    let mut ppu = Ppu::new(true);
    let mut ih = InterruptHandler::new();
    ppu.lcdc = 0x93;
    ppu.bgp = 0xE4;
    ppu.obp0 = 0xE4;
    // tile 0: every pixel of its rows has colour number 1
    for row in 0..8 {
        ppu.vram_0[row * 2] = 0xFF;
        ppu.vram_0[row * 2 + 1] = 0x00;
    }
    // tile 1: the leftmost pixel of its first row has colour number 3
    ppu.vram_0[0x10] = 0x80;
    ppu.vram_0[0x11] = 0x80;
    // sprite 0 at the top left corner, showing tile 1
    ppu.oam_ram[0] = 16;
    ppu.oam_ram[1] = 8;
    ppu.oam_ram[2] = 1;
    ppu.oam_ram[3] = 0;
    while ppu.ly == 0 {
        ppu.tick(&mut ih);
    }
    assert_eq!(ppu.current_framebuffer[0], shade(15, 56, 15));
    assert_eq!(ppu.current_framebuffer[1], shade(139, 172, 15));
    assert_eq!(ppu.current_framebuffer[159], shade(139, 172, 15));
    assert_eq!(ppu.current_framebuffer[160], shade(155, 188, 15));
}

#[test]
fn unrequesting_a_clear_interrupt_keeps_it_clear() {
    let mut ih = InterruptHandler::new();
    ih.IF = 0b0000_0001;
    ih.unrequest_interrupt(&Interrupt::Timer);
    assert_eq!(ih.IF, 0b0000_0001);
    ih.unrequest_interrupt(&Interrupt::Vblank);
    assert_eq!(ih.IF, 0);
    ih.unrequest_interrupt(&Interrupt::Vblank);
    assert_eq!(ih.IF, 0);
}

#[test]
fn tima_counts_at_the_selected_rate() {
    let mut ih = InterruptHandler::new();
    // TAC 01: one count per 16 t-cycles, four m-cycles
    let mut timer = Timer::default();
    timer.timer_control = 0x05;
    for _ in 0..40 {
        timer.tick(&mut ih);
    }
    assert_eq!(timer.tima, 10);
    // TAC 00: one count per 1024 t-cycles, 256 m-cycles
    let mut slow = Timer::default();
    slow.timer_control = 0x04;
    for _ in 0..255 {
        slow.tick(&mut ih);
    }
    assert_eq!(slow.tima, 0);
    slow.tick(&mut ih);
    assert_eq!(slow.tima, 1);
    // TAC 10 and 11: 64 and 256 t-cycles
    let mut mid = Timer::default();
    mid.timer_control = 0x06;
    let mut late = Timer::default();
    late.timer_control = 0x07;
    for _ in 0..128 {
        mid.tick(&mut ih);
        late.tick(&mut ih);
    }
    assert_eq!(mid.tima, 8);
    assert_eq!(late.tima, 2);
    assert_eq!(ih.IF, 0);
}

fn sprite_test_ppu() -> Ppu {
    let mut ppu = Ppu::new(true);
    ppu.lcdc = 0x93;
    ppu.bgp = 0xE4;
    ppu.obp0 = 0xE4;
    // tile 0: background colour number 1 everywhere
    for row in 0..8 {
        ppu.vram_0[row * 2] = 0xFF;
        ppu.vram_0[row * 2 + 1] = 0x00;
    }
    // tiles 1 to 3: colour number 3 everywhere
    for i in 0x10..0x40 {
        ppu.vram_0[i] = 0xFF;
    }
    ppu
}

#[test]
fn sprite_above_the_screen_is_not_drawn() {
    for y in [0u8, 4, 7] {
        let mut ppu = sprite_test_ppu();
        let mut ih = InterruptHandler::new();
        ppu.oam_ram[0] = y;
        ppu.oam_ram[1] = 8;
        ppu.oam_ram[2] = 1;
        ppu.oam_ram[3] = 0;
        while ppu.ly == 0 {
            ppu.tick(&mut ih);
        }
        assert_eq!(ppu.current_framebuffer[0], shade(139, 172, 15));
        assert_eq!(ppu.current_framebuffer[7], shade(139, 172, 15));
    }
}

#[test]
fn sprite_partly_above_the_screen_shows_its_lower_rows() {
    let mut ppu = sprite_test_ppu();
    let mut ih = InterruptHandler::new();
    ppu.oam_ram[0] = 10;
    ppu.oam_ram[1] = 8;
    ppu.oam_ram[2] = 1;
    ppu.oam_ram[3] = 0;
    while ppu.ly == 0 {
        ppu.tick(&mut ih);
    }
    assert_eq!(ppu.current_framebuffer[0], shade(15, 56, 15));
}

#[test]
fn sprite_past_the_right_edge_is_not_drawn_on_the_next_line() {
    let mut ppu = sprite_test_ppu();
    let mut ih = InterruptHandler::new();
    ppu.oam_ram[0] = 16;
    ppu.oam_ram[1] = 164;
    ppu.oam_ram[2] = 1;
    ppu.oam_ram[3] = 0;
    let next_line: Vec<_> = (160..168).map(|p| ppu.current_framebuffer[p]).collect();
    while ppu.ly == 0 {
        ppu.tick(&mut ih);
    }
    assert_eq!(ppu.current_framebuffer[156], shade(15, 56, 15));
    assert_eq!(ppu.current_framebuffer[159], shade(15, 56, 15));
    for (k, p) in (160..168).enumerate() {
        assert_eq!(ppu.current_framebuffer[p], next_line[k]);
    }
}
