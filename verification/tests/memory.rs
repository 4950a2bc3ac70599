use rusty_boy::cpu::CpuState;
use rusty_boy::interrupt_handler::InterruptHandler;
use rusty_boy::mbc::mbc1::Mbc1;
use rusty_boy::mbc::mbc3::Mbc3;
use rusty_boy::mbc::mbc5::Mbc5;
use rusty_boy::mbc::no_mbc::NoMbc;
use rusty_boy::mbc::{Cartridge, Mbc};
use rusty_boy::mmu::Mmu;

fn rom_of(len: usize, rom_size_code: u8, ram_size_code: u8) -> Vec<u8> {
    let mut rom = vec![0u8; len];
    for i in 0..len {
        rom[i] = (i % 251) as u8;
    }
    rom[0x148] = rom_size_code;
    rom[0x149] = ram_size_code;
    rom
}

fn plain_mmu() -> Mmu {
    let rom = rom_of(0x8000, 0, 0);
    Mmu::new(Cartridge::NoMbc(NoMbc::new(rom)), true)
}

fn write(mmu: &mut Mmu, ih: &mut InterruptHandler, address: u16, byte: u8) {
    let mut state = CpuState::NonBoot;
    mmu.write_byte(address, byte, &mut state, ih);
}

#[test]
fn ram_reads_back_what_was_written() {
    let mut mmu = plain_mmu();
    let mut ih = InterruptHandler::new();
    for &(address, byte) in &[(0x8123u16, 0x11u8), (0xC456, 0x22), (0xD789, 0x33), (0xFE10, 0x44), (0xFF90, 0x55), (0xA010, 0x66)] {
        write(&mut mmu, &mut ih, address, byte);
        assert_eq!(mmu.fetch_byte(address, &CpuState::NonBoot, &mut ih), byte);
    }
}

#[test]
fn echo_ram_mirrors_work_ram() {
    let mut mmu = plain_mmu();
    let mut ih = InterruptHandler::new();
    write(&mut mmu, &mut ih, 0xC123, 0xAB);
    assert_eq!(mmu.fetch_byte(0xE123, &CpuState::NonBoot, &mut ih), 0xAB);
    write(&mut mmu, &mut ih, 0xE456, 0xCD);
    assert_eq!(mmu.fetch_byte(0xC456, &CpuState::NonBoot, &mut ih), 0xCD);
}

#[test]
fn interrupt_registers_read_with_upper_bits_set() {
    let mut mmu = plain_mmu();
    let mut ih = InterruptHandler::new();
    write(&mut mmu, &mut ih, 0xFF0F, 0x05);
    assert_eq!(mmu.fetch_byte(0xFF0F, &CpuState::NonBoot, &mut ih), 0xE5);
    write(&mut mmu, &mut ih, 0xFFFF, 0xFF);
    assert_eq!(ih.IE, 0xFF);
    assert_eq!(mmu.fetch_byte(0xFFFF, &CpuState::NonBoot, &mut ih), 0xFF);
}

#[test]
fn work_ram_bank_select() {
    let mut mmu = plain_mmu();
    let mut ih = InterruptHandler::new();
    write(&mut mmu, &mut ih, 0xFF70, 0x08);
    assert_eq!(mmu.fetch_byte(0xFF70, &CpuState::NonBoot, &mut ih), 1);
    write(&mut mmu, &mut ih, 0xD000, 0x11);
    write(&mut mmu, &mut ih, 0xFF70, 0x03);
    assert_eq!(mmu.fetch_byte(0xFF70, &CpuState::NonBoot, &mut ih), 3);
    assert_eq!(mmu.fetch_byte(0xD000, &CpuState::NonBoot, &mut ih), 0);
    write(&mut mmu, &mut ih, 0xFF70, 0x01);
    assert_eq!(mmu.fetch_byte(0xD000, &CpuState::NonBoot, &mut ih), 0x11);
}

#[test]
fn oam_dma_request_sets_state() {
    let mut mmu = plain_mmu();
    let mut ih = InterruptHandler::new();
    let mut state = CpuState::NonBoot;
    mmu.write_byte(0xFF46, 0xC1, &mut state, &mut ih);
    assert!(state == CpuState::DMA);
    assert_eq!(mmu.dma_source, 0xC1);
    assert_eq!(mmu.dma_iterator, 0);
}

#[test]
fn write_word_stores_low_byte_first() {
    let mut mmu = plain_mmu();
    let mut ih = InterruptHandler::new();
    let mut state = CpuState::NonBoot;
    mmu.write_word(0xC000, 0xBEEF, &mut state, &mut ih);
    assert_eq!(mmu.fetch_byte(0xC000, &CpuState::NonBoot, &mut ih), 0xEF);
    assert_eq!(mmu.fetch_byte(0xC001, &CpuState::NonBoot, &mut ih), 0xBE);
}

#[test]
fn serial_writes_from_the_cpu_start_nothing() {
    let mut mmu = plain_mmu();
    let mut ih = InterruptHandler::new();
    write(&mut mmu, &mut ih, 0xFF01, 0x42);
    assert_eq!(mmu.fetch_byte(0xFF01, &CpuState::NonBoot, &mut ih), 0);
    write(&mut mmu, &mut ih, 0xFF02, 0x81);
    assert_eq!(mmu.fetch_byte(0xFF01, &CpuState::NonBoot, &mut ih), 0);
    assert_eq!(mmu.fetch_byte(0xFF02, &CpuState::NonBoot, &mut ih), 0);
    assert_eq!(ih.IF & 0x08, 0);
}

#[test]
fn no_mbc_reads_rom_and_ram() {
    let rom = rom_of(0x8000, 0, 0);
    let mut cart = NoMbc::new(rom.clone());
    assert_eq!(cart.read_byte(0x0150), rom[0x150]);
    assert_eq!(cart.read_byte(0x7FFF), rom[0x7FFF]);
    cart.write_byte(0x2000, 0x99);
    assert_eq!(cart.read_byte(0x2000), rom[0x2000]);
    cart.write_byte(0xA001, 0x77);
    assert_eq!(cart.read_byte(0xA001), 0x77);
}

#[test]
fn mbc1_switches_rom_banks_and_keeps_bank_zero() {
    let rom = rom_of(0x4000 * 4, 1, 2);
    let mut cart = Mbc1::new(rom.clone());
    assert_eq!(cart.read_byte(0x4000), rom[0x4000]);
    cart.write_byte(0x2000, 2);
    assert_eq!(cart.read_byte(0x4000), rom[0x8000]);
    assert_eq!(cart.read_byte(0x0100), rom[0x0100]);
    cart.write_byte(0x2000, 0);
    assert_eq!(cart.read_byte(0x4001), rom[0x4001]);
}

#[test]
fn mbc1_ram_needs_enabling() {
    let rom = rom_of(0x4000 * 2, 0, 2);
    let mut cart = Mbc1::new(rom);
    cart.write_byte(0xA000, 0x12);
    assert_eq!(cart.read_byte(0xA000), 0xFF);
    cart.write_byte(0x0000, 0x0A);
    cart.write_byte(0xA000, 0x12);
    assert_eq!(cart.read_byte(0xA000), 0x12);
    cart.write_byte(0x0000, 0x00);
    assert_eq!(cart.read_byte(0xA000), 0xFF);
}

#[test]
fn mbc3_ram_and_banks() {
    let rom = rom_of(0x4000 * 4, 1, 3);
    let mut cart = Mbc3::new(rom.clone());
    cart.write_byte(0x2000, 3);
    assert_eq!(cart.read_byte(0x4002), rom[0xC002]);
    cart.write_byte(0x0000, 0x0A);
    cart.write_byte(0xA100, 0x5A);
    assert_eq!(cart.read_byte(0xA100), 0x5A);
    assert_eq!(cart.read_byte(0x0000), rom[0]);
}

#[test]
fn mbc3_clock_latches() {
    let rom = rom_of(0x4000 * 2, 0, 0);
    let mut cart = Mbc3::new(rom);
    cart.write_byte(0x0000, 0x0A);
    cart.tick_second();
    cart.tick_second();
    cart.write_byte(0x6000, 0x00);
    cart.write_byte(0x6000, 0x01);
    cart.write_byte(0x4000, 0x08);
    assert_eq!(cart.read_byte(0xA000), 2);
    cart.tick_second();
    assert_eq!(cart.read_byte(0xA000), 2);
}

#[test]
fn mbc3_halt_bit_stops_the_clock() {
    let rom = rom_of(0x4000 * 2, 0, 0);
    let mut cart = Mbc3::new(rom);
    cart.write_byte(0x0000, 0x0A);
    cart.write_byte(0x4000, 0x0C);
    cart.write_byte(0xA000, 0x40);
    cart.tick_second();
    cart.tick_second();
    cart.tick_second();
    cart.write_byte(0x6000, 0x00);
    cart.write_byte(0x6000, 0x01);
    cart.write_byte(0x4000, 0x08);
    assert_eq!(cart.read_byte(0xA000), 0);
}

#[test]
fn mbc5_nine_bit_bank_number() {
    let rom = rom_of(0x4000 * 4, 1, 0);
    let mut cart = Mbc5::new(rom.clone());
    cart.write_byte(0x2000, 3);
    assert_eq!(cart.read_byte(0x4010), rom[0xC010]);
    cart.write_byte(0x2000, 0);
    assert_eq!(cart.read_byte(0x4010), rom[0x0010]);
}

#[test]
fn cartridge_dispatches_to_its_controller() {
    let rom = rom_of(0x8000, 0, 0);
    let mut cart = Cartridge::NoMbc(NoMbc::new(rom.clone()));
    assert_eq!(cart.read_byte(0x1234), rom[0x1234]);
    cart.write_byte(0xA000, 9);
    assert_eq!(cart.read_byte(0xA000), 9);
}

#[test]
fn memory_mapper_keeps_first_bytes() {
    let rom = rom_of(0x2000, 0, 0);
    let mapper = rusty_boy::cpu::memory_mapper::MemoryMapper::new(&rom, String::from("game.gb"));
    assert_eq!(mapper.fetch_byte(0x0FFF), rom[0x0FFF]);
    assert_eq!(mapper.fetch_byte(0), rom[0]);
}

#[test]
fn mbc1_without_ram_in_the_header_has_none() {
    let rom = rom_of(0x4000 * 4, 1, 0);
    let mut cart = Mbc1::new(rom);
    cart.write_byte(0x0000, 0x0A);
    cart.write_byte(0xA000, 0x12);
    assert_eq!(cart.read_byte(0xA000), 0xFF);
    assert_eq!(cart.read_byte(0xBFFF), 0xFF);
}

#[test]
fn mbc1_parts_round_trip() {
    let rom = rom_of(0x4000 * 4, 1, 2);
    let mut cart = Mbc1::new(rom.clone());
    cart.write_byte(0x0000, 0x0A);
    cart.write_byte(0xA000, 0x33);
    cart.write_byte(0x2000, 2);
    let parts = cart.to_parts();
    assert_eq!(parts.rom_banks, rom[..0x10000].to_vec());
    assert_eq!(parts.ram_banks.len(), 0x2000);
    assert_eq!(parts.rom_bank_index, 2);
    assert_eq!(parts.rom_bank_mask, 3);
    assert!(parts.ram_enabled);
    let back = match Mbc1::from_parts(parts) {
        Some(m) => m,
        None => panic!("the parts of a controller make a controller"),
    };
    assert_eq!(back.read_byte(0xA000), 0x33);
    assert_eq!(back.read_byte(0x4000), rom[0x8000]);
    let mut broken = cart.to_parts();
    broken.rom_bank_mask = 7;
    assert!(Mbc1::from_parts(broken).is_none());
    let mut broken = cart.to_parts();
    broken.ram_bank_index_mask = 4;
    assert!(Mbc1::from_parts(broken).is_none());
}

#[test]
fn mbc3_parts_round_trip_keep_the_clock() {
    let rom = rom_of(0x4000 * 4, 1, 3);
    let mut cart = Mbc3::new(rom);
    cart.write_byte(0x0000, 0x0A);
    for _ in 0..61 {
        cart.tick_second();
    }
    cart.write_byte(0x4000, 0x01);
    cart.write_byte(0xA010, 0x77);
    let parts = cart.to_parts();
    assert_eq!(parts.seconds, 1);
    assert_eq!(parts.minutes, 1);
    assert_eq!(parts.ram_banks.len(), 4 * 0x2000);
    let back = match Mbc3::from_parts(parts) {
        Some(m) => m,
        None => panic!("the parts of a controller make a controller"),
    };
    assert_eq!(back.read_byte(0xA010), 0x77);
    let mut broken = cart.to_parts();
    broken.rom_banks.pop();
    assert!(Mbc3::from_parts(broken).is_none());
}

#[test]
fn mbc5_parts_round_trip() {
    let rom = rom_of(0x4000 * 8, 2, 0);
    let mut cart = Mbc5::new(rom.clone());
    cart.write_byte(0x2000, 5);
    let parts = cart.to_parts();
    assert_eq!(parts.rom_bank_mask, 7);
    let back = match Mbc5::from_parts(parts) {
        Some(m) => m,
        None => panic!("the parts of a controller make a controller"),
    };
    assert_eq!(back.read_byte(0x4000), rom[5 * 0x4000]);
    let mut broken = cart.to_parts();
    broken.rom_bank_mask = 6;
    assert!(Mbc5::from_parts(broken).is_none());
}

#[test]
fn no_mbc_parts_round_trip() {
    let rom = rom_of(0x8000, 0, 0);
    let mut cart = NoMbc::new(rom.clone());
    cart.write_byte(0xA123, 0x44);
    let parts = cart.to_parts();
    assert_eq!(parts.rom, rom);
    assert_eq!(parts.ram[0x123], 0x44);
    let back = match NoMbc::from_parts(parts) {
        Some(m) => m,
        None => panic!("the parts of a cartridge make a cartridge"),
    };
    assert_eq!(back.read_byte(0xA123), 0x44);
    assert_eq!(back.read_byte(0x0150), rom[0x150]);
    let mut broken = cart.to_parts();
    broken.ram.push(0);
    assert!(NoMbc::from_parts(broken).is_none());
}
