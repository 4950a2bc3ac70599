use rusty_boy::cpu::{Cpu, CpuState};
use rusty_boy::custom_errors::EmulationError;
use rusty_boy::game_app::load_cpu_with_rom;

fn machine_with_program(program: &[u8]) -> Cpu {
    let mut rom = vec![0u8; 0x8000];
    for (i, b) in program.iter().enumerate() {
        rom[0x100 + i] = *b;
    }
    match load_cpu_with_rom(rom) {
        Ok(Some(cpu)) => cpu,
        _ => panic!("the test image should load"),
    }
}

#[test]
fn boot_state() {
    let cpu = machine_with_program(&[]);
    assert_eq!(cpu.pc, 0x100);
    assert_eq!(cpu.sp, 0xFFFE);
    assert_eq!(cpu.registers.a, 0x11);
    assert_eq!(cpu.registers.f, 0xB0);
    assert_eq!(cpu.registers.get_hl(), 0x014D);
    assert_eq!(cpu.mmu.ppu.lcdc, 0x80);
    assert!(cpu.state == CpuState::NonBoot);
}

#[test]
fn nop_takes_one_m_cycle() {
    let mut cpu = machine_with_program(&[0x00]);
    assert_eq!(cpu.cycle(), Ok(4));
    assert_eq!(cpu.pc, 0x101);
    assert_eq!(cpu.delta_t_cycles, 0);
}

#[test]
fn load_immediate() {
    let mut cpu = machine_with_program(&[0x3E, 0x42, 0x06, 0x07]);
    assert_eq!(cpu.cycle(), Ok(8));
    assert_eq!(cpu.registers.a, 0x42);
    assert_eq!(cpu.cycle(), Ok(8));
    assert_eq!(cpu.registers.b, 0x07);
    assert_eq!(cpu.pc, 0x104);
}

#[test]
fn register_to_register_loads_and_alu() {
    // LD B,A ; ADD A,B ; CP B ; XOR A
    let mut cpu = machine_with_program(&[0x47, 0x80, 0xB8, 0xAF]);
    cpu.cycle().unwrap();
    assert_eq!(cpu.registers.b, 0x11);
    cpu.cycle().unwrap();
    assert_eq!(cpu.registers.a, 0x22);
    cpu.cycle().unwrap();
    assert!(!cpu.registers.is_zero_flag_high());
    cpu.cycle().unwrap();
    assert_eq!(cpu.registers.a, 0);
    assert!(cpu.registers.is_zero_flag_high());
}

#[test]
fn push_then_pop_round_trip() {
    // LD BC,0x1234 ; PUSH BC ; POP DE
    let mut cpu = machine_with_program(&[0x01, 0x34, 0x12, 0xC5, 0xD1]);
    assert_eq!(cpu.cycle(), Ok(12));
    assert_eq!(cpu.cycle(), Ok(16));
    assert_eq!(cpu.sp, 0xFFFC);
    assert_eq!(cpu.cycle(), Ok(12));
    assert_eq!(cpu.registers.get_de(), 0x1234);
    assert_eq!(cpu.sp, 0xFFFE);
}

#[test]
fn call_and_return() {
    let mut program = vec![0u8; 0x60];
    program[0] = 0xCD;
    program[1] = 0x50;
    program[2] = 0x01;
    program[0x50] = 0xC9;
    let mut cpu = machine_with_program(&program);
    assert_eq!(cpu.cycle(), Ok(24));
    assert_eq!(cpu.pc, 0x150);
    assert_eq!(cpu.sp, 0xFFFC);
    assert_eq!(cpu.cycle(), Ok(16));
    assert_eq!(cpu.pc, 0x103);
    assert_eq!(cpu.sp, 0xFFFE);
}

#[test]
fn relative_jump_backwards() {
    let mut cpu = machine_with_program(&[0x18, 0xFE]);
    assert_eq!(cpu.cycle(), Ok(12));
    assert_eq!(cpu.pc, 0x100);
}

#[test]
fn conditional_jump_not_taken() {
    // the boot flags have Z set: JR NZ falls through
    let mut cpu = machine_with_program(&[0x20, 0x10]);
    assert_eq!(cpu.cycle(), Ok(8));
    assert_eq!(cpu.pc, 0x102);
}

#[test]
fn unimplemented_opcode_is_an_error() {
    let mut cpu = machine_with_program(&[0xD3]);
    assert_eq!(cpu.cycle(), Err(EmulationError::InstructionNotImplemented(0xD3)));
}

#[test]
fn stack_pointer_store_at_last_address_is_an_error() {
    let mut cpu = machine_with_program(&[0x08, 0xFF, 0xFF]);
    assert_eq!(cpu.cycle(), Err(EmulationError::WordWriteAtLastAddress));
}

#[test]
fn stack_pointer_store() {
    let mut cpu = machine_with_program(&[0x08, 0x00, 0xC0]);
    assert_eq!(cpu.cycle(), Ok(20));
    assert_eq!(cpu.mmu.wram_banks[0][0], 0xFE);
    assert_eq!(cpu.mmu.wram_banks[0][1], 0xFF);
}

#[test]
fn decimal_adjust_after_addition() {
    // LD A,0x15 ; ADD A,0x27 ; DAA
    let mut cpu = machine_with_program(&[0x3E, 0x15, 0xC6, 0x27, 0x27]);
    cpu.cycle().unwrap();
    cpu.cycle().unwrap();
    assert_eq!(cpu.registers.a, 0x3C);
    cpu.cycle().unwrap();
    assert_eq!(cpu.registers.a, 0x42);
}

#[test]
fn cb_prefixed_operations() {
    // LD A,0xF1 ; SWAP A ; BIT 7,A ; SET 7,A ; RES 0,A
    let mut cpu = machine_with_program(&[0x3E, 0xF1, 0xCB, 0x37, 0xCB, 0x7F, 0xCB, 0xFF, 0xCB, 0x87]);
    cpu.cycle().unwrap();
    assert_eq!(cpu.cycle(), Ok(8));
    assert_eq!(cpu.registers.a, 0x1F);
    cpu.cycle().unwrap();
    assert!(cpu.registers.is_zero_flag_high());
    assert!(cpu.registers.is_half_carry_flag_high());
    cpu.cycle().unwrap();
    assert_eq!(cpu.registers.a, 0x9F);
    cpu.cycle().unwrap();
    assert_eq!(cpu.registers.a, 0x9E);
}

#[test]
fn cb_operation_on_memory_takes_four_m_cycles() {
    // LD HL,0xC010 ; LD (HL),0x81 ; RLC (HL)
    let mut cpu = machine_with_program(&[0x21, 0x10, 0xC0, 0x36, 0x81, 0xCB, 0x06]);
    cpu.cycle().unwrap();
    assert_eq!(cpu.cycle(), Ok(12));
    assert_eq!(cpu.cycle(), Ok(16));
    assert_eq!(cpu.mmu.wram_banks[0][0x10], 0x03);
    assert!(cpu.registers.is_carry_flag_high());
}

#[test]
fn halted_cpu_serves_an_interrupt() {
    // EI ; HALT
    let mut cpu = machine_with_program(&[0xFB, 0x76]);
    cpu.interrupt_handler.IE = 0x01;
    cpu.cycle().unwrap();
    cpu.cycle().unwrap();
    assert!(cpu.state == CpuState::Halt);
    cpu.interrupt_handler.IF = 0x01;
    cpu.cycle().unwrap();
    assert_eq!(cpu.pc, 0x40);
    assert_eq!(cpu.interrupt_handler.IF & 0x01, 0);
    assert!(!cpu.interrupt_handler.enabled);
    assert_eq!(cpu.sp, 0xFFFC);
}

#[test]
fn oam_dma_copies_work_ram() {
    // LD A,0xC0 ; LDH (0x46),A ; then no-ops
    let mut cpu = machine_with_program(&[0x3E, 0xC0, 0xE0, 0x46]);
    cpu.mmu.wram_banks[0][5] = 0x77;
    cpu.cycle().unwrap();
    cpu.cycle().unwrap();
    assert!(cpu.state == CpuState::DMA);
    for _ in 0..170 {
        cpu.cycle().unwrap();
    }
    assert_eq!(cpu.mmu.ppu.oam_ram[5], 0x77);
    assert!(cpu.state == CpuState::NonBoot);
}

#[test]
fn fetch_word_reads_low_byte_first() {
    let mut cpu = machine_with_program(&[0x34, 0x12]);
    assert_eq!(cpu.fetch_word(), Ok(0x1234));
    assert_eq!(cpu.pc, 0x102);
    assert_eq!(cpu.delta_t_cycles, 8);
}

#[test]
fn palette_read_past_its_memory_is_an_error() {
    // LD A,0x80 ; LDH (0x68),A ; LDH A,(0x69)
    let mut cpu = machine_with_program(&[0x3E, 0xFF, 0xE0, 0x68, 0xF0, 0x69]);
    cpu.cycle().unwrap();
    cpu.cycle().unwrap();
    assert_eq!(cpu.cycle(), Err(EmulationError::BgPaletteIndexOutOfRange));
}

#[test]
fn decimal_adjust_carries_into_the_hundreds() {
    // LD A,0x99 ; ADD A,0x01 ; DAA
    let mut cpu = machine_with_program(&[0x3E, 0x99, 0xC6, 0x01, 0x27]);
    cpu.cycle().unwrap();
    cpu.cycle().unwrap();
    cpu.cycle().unwrap();
    assert_eq!(cpu.registers.a, 0x00);
    assert!(cpu.registers.is_carry_flag_high());
    assert!(cpu.registers.is_zero_flag_high());
    assert!(!cpu.registers.is_half_carry_flag_high());
    assert!(!cpu.registers.is_n_flag_high());
}

#[test]
fn push_af_then_pop_hl_copies_the_pair() {
    // PUSH AF ; POP HL
    let mut cpu = machine_with_program(&[0xF5, 0xE1]);
    let af = cpu.registers.get_af();
    let bc = cpu.registers.get_bc();
    cpu.cycle().unwrap();
    cpu.cycle().unwrap();
    assert_eq!(cpu.registers.get_hl(), af);
    assert_eq!(cpu.registers.get_af(), af);
    assert_eq!(cpu.registers.get_bc(), bc);
    assert_eq!(cpu.sp, 0xFFFE);
}

#[test]
fn call_then_return_keeps_the_registers() {
    let mut program = vec![0u8; 0x30];
    program[0] = 0xCD;
    program[1] = 0x20;
    program[2] = 0x01;
    program[0x20] = 0xC9;
    let mut cpu = machine_with_program(&program);
    let before = (cpu.registers.get_af(), cpu.registers.get_bc(), cpu.registers.get_de(), cpu.registers.get_hl());
    cpu.cycle().unwrap();
    cpu.cycle().unwrap();
    assert_eq!(cpu.pc, 0x103);
    assert_eq!(cpu.sp, 0xFFFE);
    let after = (cpu.registers.get_af(), cpu.registers.get_bc(), cpu.registers.get_de(), cpu.registers.get_hl());
    assert_eq!(after, before);
}
