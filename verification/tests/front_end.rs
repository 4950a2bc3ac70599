use rusty_boy::game_app::{
    frames_to_run, handle_input, load_cpu_with_rom, rom_header_is_supported, run_frame, FrontEndState, KeyboardInput,
    LoadRomError,
};
use rusty_boy::joypad::PressedButtons;

fn keys() -> KeyboardInput {
    KeyboardInput { shift_held: false, ctrl_held: false, space_pressed: false, o_pressed: false, s_pressed: false }
}

#[test]
fn rom_too_small() {
    let result = load_cpu_with_rom(vec![0u8; 0x100]);
    assert!(matches!(result, Err(LoadRomError::RomIsTooSmall)));
    let result = load_cpu_with_rom(vec![0u8; 0x145]);
    assert!(matches!(result, Err(LoadRomError::RomIsTooSmall)));
}

#[test]
fn unsupported_controller() {
    let mut rom = vec![0u8; 0x8000];
    rom[0x147] = 0x05;
    assert!(rom_header_is_supported(&rom));
    assert!(matches!(load_cpu_with_rom(rom), Err(LoadRomError::MBCNotSupported(0x05))));
}

#[test]
fn header_checks() {
    let mut rom = vec![0u8; 0x10000];
    assert!(!rom_header_is_supported(&rom));
    rom[0x147] = 0x01;
    rom[0x148] = 0x02;
    assert!(rom_header_is_supported(&rom));
    rom[0x148] = 0x05;
    assert!(!rom_header_is_supported(&rom));
}

#[test]
fn header_chooses_the_cartridge_and_the_model() {
    let mut rom = vec![0u8; 0x4000 * 4];
    rom[0x143] = 0x80;
    rom[0x147] = 0x13;
    rom[0x148] = 0x01;
    match load_cpu_with_rom(rom) {
        Ok(Some(cpu)) => {
            assert!(!cpu.mmu.ppu.is_dmg);
            assert!(matches!(cpu.mmu.mbc, rusty_boy::mbc::Cartridge::Mbc3(_)));
        },
        _ => panic!("an MBC3 image loads"),
    }
}

#[test]
fn a_frame_of_no_ops() {
    let rom = vec![0u8; 0x8000];
    let mut cpu = match load_cpu_with_rom(rom) {
        Ok(Some(cpu)) => cpu,
        _ => panic!("a plain image loads"),
    };
    let pressed = PressedButtons { right: false, left: false, up: false, down: false, a: true, b: false, select: false, start: false };
    assert!(run_frame(&mut cpu, &pressed).is_ok());
    assert_eq!(cpu.pc, 0x100 + 17557);
    assert_eq!(cpu.delta_t_cycles, 0);
}

#[test]
fn space_toggles_pause() {
    let state = FrontEndState { paused: false, double_speed: false };
    let mut k = keys();
    k.space_pressed = true;
    let (first, _) = handle_input(&state, &k);
    assert!(first.paused);
    let (second, _) = handle_input(&first, &k);
    assert!(!second.paused);
    assert_eq!(frames_to_run(&first), 0);
}

#[test]
fn shift_runs_double_speed() {
    let state = FrontEndState { paused: false, double_speed: false };
    let mut k = keys();
    k.shift_held = true;
    let (next, requests) = handle_input(&state, &k);
    assert!(next.double_speed);
    assert_eq!(frames_to_run(&next), 2);
    assert!(!requests.open_rom);
    assert_eq!(frames_to_run(&state), 1);
}

#[test]
fn control_shortcuts() {
    let state = FrontEndState { paused: false, double_speed: false };
    let mut k = keys();
    k.ctrl_held = true;
    k.o_pressed = true;
    let (_, requests) = handle_input(&state, &k);
    assert!(requests.open_rom);
    k.ctrl_held = false;
    let (_, requests) = handle_input(&state, &k);
    assert!(!requests.open_rom);
}

#[test]
fn control_s_asks_to_save_the_state() {
    let state = FrontEndState { paused: false, double_speed: false };
    let mut k = keys();
    k.ctrl_held = true;
    k.s_pressed = true;
    let (next, requests) = handle_input(&state, &k);
    assert!(requests.save_state);
    assert!(!requests.open_rom);
    assert_eq!(next, state);
    k.ctrl_held = false;
    let (_, requests) = handle_input(&state, &k);
    assert!(!requests.save_state);
}

#[test]
fn loaded_machine_is_well_formed() {
    let mut rom = vec![0u8; 0x8000];
    rom[0x100] = 0x00;
    let mut cpu = match load_cpu_with_rom(rom) {
        Ok(Some(cpu)) => cpu,
        _ => panic!("the test image should load"),
    };
    assert!(cpu.is_well_formed());
    cpu.mmu.wram_bank_index = 0;
    assert!(!cpu.is_well_formed());
    cpu.mmu.wram_bank_index = 3;
    assert!(cpu.is_well_formed());
    cpu.mmu.ppu.ly = 200;
    assert!(!cpu.is_well_formed());
    cpu.mmu.ppu.ly = 0;
    cpu.delta_t_cycles = -4;
    assert!(!cpu.is_well_formed());
    cpu.delta_t_cycles = 0;
    cpu.mmu.hdma_controller.is_active = true;
    cpu.mmu.hdma_controller.length = 0;
    assert!(!cpu.is_well_formed());
}
