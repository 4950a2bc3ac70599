use rusty_boy::cpu_registers::CpuRegisters;

fn zeroed() -> CpuRegisters {
    CpuRegisters { a: 0, b: 0, c: 0, d: 0, e: 0, f: 0, h: 0, l: 0 }
}

#[test]
fn register_pairs_read_back() {
    let mut r = zeroed();
    r.set_bc(0x1234);
    r.set_de(0xABCD);
    r.set_hl(0xFF01);
    assert_eq!(r.get_bc(), 0x1234);
    assert_eq!(r.get_de(), 0xABCD);
    assert_eq!(r.get_hl(), 0xFF01);
    assert_eq!((r.b, r.c), (0x12, 0x34));
}

#[test]
fn af_drops_low_nibble_of_f() {
    let mut r = zeroed();
    r.set_af(0x12FF);
    assert_eq!(r.a, 0x12);
    assert_eq!(r.f, 0xF0);
    assert_eq!(r.get_af(), 0x12F0);
}

#[test]
fn flags_read_back() {
    let mut r = zeroed();
    r.set_zero_flag(true);
    r.set_carry_flag(true);
    assert!(r.is_zero_flag_high());
    assert!(r.is_carry_flag_high());
    assert!(!r.is_n_flag_high());
    assert!(!r.is_half_carry_flag_high());
    r.set_zero_flag(false);
    assert!(!r.is_zero_flag_high());
    assert!(r.is_carry_flag_high());
    assert_eq!(r.f & 0x0F, 0);
}

#[test]
fn add_sets_zero_half_and_carry() {
    let mut r = zeroed();
    r.a = 0x3A;
    r.add_u8(0xC6);
    assert_eq!(r.a, 0x00);
    assert_eq!(r.f, 0b1011_0000);
}

#[test]
fn sub_of_equal_values() {
    let mut r = zeroed();
    r.a = 0x3E;
    r.sub_u8(0x3E);
    assert_eq!(r.a, 0);
    assert!(r.is_zero_flag_high());
    assert!(r.is_n_flag_high());
    assert!(!r.is_carry_flag_high());
    assert!(!r.is_half_carry_flag_high());
}

#[test]
fn sub_borrows() {
    let mut r = zeroed();
    r.a = 0x10;
    r.sub_u8(0x21);
    assert_eq!(r.a, 0xEF);
    assert!(r.is_carry_flag_high());
    assert!(r.is_half_carry_flag_high());
}

#[test]
fn adc_and_sbc_use_the_carry() {
    let mut r = zeroed();
    r.a = 0xE1;
    r.set_carry_flag(true);
    r.adc_u8(0x0F);
    assert_eq!(r.a, 0xF1);
    assert!(r.is_half_carry_flag_high());
    assert!(!r.is_carry_flag_high());

    let mut s = zeroed();
    s.a = 0x3B;
    s.set_carry_flag(true);
    s.sbc_u8(0x2A);
    assert_eq!(s.a, 0x10);
    assert!(s.is_n_flag_high());
    assert!(!s.is_carry_flag_high());
}

#[test]
fn logic_operations() {
    let mut r = zeroed();
    r.a = 0b1100_1100;
    r.and_u8(0b1010_1010);
    assert_eq!(r.a, 0b1000_1000);
    assert_eq!(r.f, 0b0010_0000);
    r.or_u8(0b0000_0011);
    assert_eq!(r.a, 0b1000_1011);
    assert_eq!(r.f, 0);
    r.xor_u8(0b1000_1011);
    assert_eq!(r.a, 0);
    assert_eq!(r.f, 0b1000_0000);
}

#[test]
fn compare_keeps_a() {
    let mut r = zeroed();
    r.a = 0x3C;
    r.cp_u8(0x40);
    assert_eq!(r.a, 0x3C);
    assert!(r.is_carry_flag_high());
    assert!(!r.is_zero_flag_high());
    assert!(r.is_n_flag_high());
}

#[test]
fn increment_and_decrement() {
    let mut r = zeroed();
    r.set_carry_flag(true);
    let v = r.inc_u8_reg(0xFF);
    assert_eq!(v, 0);
    assert!(r.is_zero_flag_high());
    assert!(r.is_half_carry_flag_high());
    assert!(r.is_carry_flag_high());
    let w = r.dec_u8_reg(0x10);
    assert_eq!(w, 0x0F);
    assert!(r.is_n_flag_high());
    assert!(r.is_half_carry_flag_high());
    assert!(r.is_carry_flag_high());
}

#[test]
fn pair_decrements_wrap() {
    let mut r = zeroed();
    r.dec_bc();
    assert_eq!(r.get_bc(), 0xFFFF);
    r.set_de(1);
    r.dec_de();
    assert_eq!(r.get_de(), 0);
    r.set_hl(0x1000);
    r.dec_hl();
    assert_eq!(r.get_hl(), 0x0FFF);
}

#[test]
fn add_to_hl_carries() {
    let mut r = zeroed();
    r.set_zero_flag(true);
    r.set_hl(0x8A23);
    r.add_to_hl_u16(0x8A23);
    assert_eq!(r.get_hl(), 0x1446);
    assert!(r.is_carry_flag_high());
    assert!(r.is_half_carry_flag_high());
    assert!(r.is_zero_flag_high());
}

#[test]
fn rotates_of_a() {
    let mut r = zeroed();
    r.a = 0x85;
    r.rlca();
    assert_eq!(r.a, 0x0B);
    assert!(r.is_carry_flag_high());
    let mut s = zeroed();
    s.a = 0x3B;
    s.rrca();
    assert_eq!(s.a, 0x9D);
    assert!(s.is_carry_flag_high());
}

#[test]
fn complement_a() {
    let mut r = zeroed();
    r.a = 0x35;
    r.cpl();
    assert_eq!(r.a, 0xCA);
    assert!(r.is_n_flag_high());
    assert!(r.is_half_carry_flag_high());
}

#[test]
fn set_and_unset_flags() {
    let mut r = zeroed();
    r.set_flags(0b1010);
    assert_eq!(r.f, 0b1010_0000);
    r.unset_flags();
    assert_eq!(r.f, 0);
}

#[test]
fn registers_start_cleared() {
    let r = CpuRegisters::default();
    assert_eq!((r.a, r.f, r.b, r.c, r.d, r.e, r.h, r.l), (0, 0, 0, 0, 0, 0, 0, 0));
}

#[test]
fn legacy_register_pairs() {
    let mut r = rusty_boy::cpu::cpu_registers::CpuRegisters::default();
    r.set_af(0xBEEF);
    r.set_bc(0x0102);
    assert_eq!(r.get_af(), 0xBEEF);
    assert_eq!(r.get_bc(), 0x0102);
    r.set_de(0x0304);
    r.set_hl(0x0506);
    assert_eq!(r.get_de(), 0x0304);
    assert_eq!(r.get_hl(), 0x0506);
}

#[test]
fn carry_survives_the_other_flag_setters() {
    let mut r = zeroed();
    r.set_carry_flag(true);
    r.set_zero_flag(true);
    r.set_n_flag(true);
    r.set_half_carry_flag(true);
    r.set_zero_flag(false);
    r.set_n_flag(false);
    r.set_half_carry_flag(false);
    assert!(r.is_carry_flag_high());
    r.set_carry_flag(false);
    r.set_zero_flag(true);
    r.set_half_carry_flag(true);
    assert!(!r.is_carry_flag_high());
}

#[test]
fn each_flag_survives_the_other_setters() {
    let mut r = zeroed();
    r.set_zero_flag(true);
    r.set_n_flag(false);
    r.set_half_carry_flag(true);
    r.set_carry_flag(true);
    r.set_carry_flag(false);
    assert!(r.is_zero_flag_high());
    r.set_n_flag(true);
    r.set_zero_flag(false);
    r.set_half_carry_flag(false);
    r.set_carry_flag(true);
    assert!(r.is_n_flag_high());
    r.set_half_carry_flag(true);
    r.set_zero_flag(true);
    r.set_n_flag(false);
    r.set_carry_flag(false);
    assert!(r.is_half_carry_flag_high());
}
