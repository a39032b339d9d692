use chip8::cpu::CPU;
use chip8::rng::StepRandom;

fn new_cpu() -> CPU<StepRandom> {
    CPU::new(StepRandom::new(0, 0))
}

#[test]
fn instr_ret() {
    let mut cpu = new_cpu();
    cpu.set_ip(0x1234);
    cpu.set_stack(0, 0x1111);
    cpu.set_stack(1, 0x2222);
    cpu.set_stack(2, 0x3333);
    cpu.set_sp(1);

    cpu.run_instr(0x00EE).unwrap();

    assert_eq!(0, cpu.sp());
    assert_eq!(0x2222, cpu.ip());
}

#[test]
fn instr_jmp_imm() {
    let mut cpu = new_cpu();
    cpu.set_ip(0x1234);
    cpu.set_sp(1);

    cpu.run_instr(0x1456).unwrap();

    assert_eq!(1, cpu.sp());
    assert_eq!(0x0456, cpu.ip());
}

#[test]
fn instr_call() {
    let mut cpu = new_cpu();
    cpu.set_ip(0x1234);
    cpu.set_stack(0, 0x1111);
    cpu.set_stack(1, 0x2222);
    cpu.set_stack(2, 0x3333);
    cpu.set_sp(0);

    cpu.run_instr(0x2456).unwrap();

    assert_eq!(1, cpu.sp());
    assert_eq!(0x0456, cpu.ip());
    assert_eq!(0x1111, cpu.stack_at(0));
    assert_eq!(0x1234 + 2, cpu.stack_at(1));
    assert_eq!(0x3333, cpu.stack_at(2));
}

#[test]
fn instr_se_imm() {
    let mut cpu = new_cpu();
    cpu.set_ip(0x0100);
    cpu.set_register(1, 0x12);

    cpu.run_instr(0x3113).unwrap();
    assert_eq!(0x0102, cpu.ip());

    cpu.run_instr(0x3112).unwrap();
    assert_eq!(0x0106, cpu.ip());
}

#[test]
fn instr_sne_imm() {
    let mut cpu = new_cpu();
    cpu.set_ip(0x0100);
    cpu.set_register(1, 0x12);

    cpu.run_instr(0x4113).unwrap();
    assert_eq!(0x0104, cpu.ip());

    cpu.run_instr(0x4112).unwrap();
    assert_eq!(0x0106, cpu.ip());
}

#[test]
fn instr_se_reg() {
    let mut cpu = new_cpu();
    cpu.set_ip(0x0100);
    cpu.set_register(1, 0x12);
    cpu.set_register(2, 0x12);
    cpu.set_register(3, 0x13);

    cpu.run_instr(0x5130).unwrap();
    assert_eq!(0x0102, cpu.ip());

    cpu.run_instr(0x5120).unwrap();
    assert_eq!(0x0106, cpu.ip());
}

#[test]
fn instr_ld_imm() {
    let mut cpu = new_cpu();
    cpu.run_instr(0x6123).unwrap();
    assert_eq!(0x23, cpu.get_register(1));
}

#[test]
fn instr_add_imm() {
    let mut cpu = new_cpu();
    cpu.set_register(1, 0x11);
    cpu.run_instr(0x7122).unwrap();
    assert_eq!(0x33, cpu.get_register(1));
}

#[test]
fn instr_ld_reg() {
    let mut cpu = new_cpu();
    cpu.set_register(1, 0x11);
    cpu.set_register(2, 0x22);
    cpu.run_instr(0x8120).unwrap();
    assert_eq!(0x22, cpu.get_register(1));
}

#[test]
fn instr_or() {
    let mut cpu = new_cpu();
    cpu.set_register(1, 0b00110011);
    cpu.set_register(2, 0b00001111);
    cpu.run_instr(0x8121).unwrap();
    assert_eq!(0b00111111, cpu.get_register(1));
}

#[test]
fn instr_and() {
    let mut cpu = new_cpu();
    cpu.set_register(1, 0b00110011);
    cpu.set_register(2, 0b00001111);
    cpu.run_instr(0x8122).unwrap();
    assert_eq!(0b00000011, cpu.get_register(1));
}

#[test]
fn instr_xor() {
    let mut cpu = new_cpu();
    cpu.set_register(1, 0b00110011);
    cpu.set_register(2, 0b00001111);
    cpu.run_instr(0x8123).unwrap();
    assert_eq!(0b00111100, cpu.get_register(1));
}

#[test]
fn instr_add() {
    let mut cpu = new_cpu();
    cpu.set_register(1, 250);
    cpu.set_register(2, 5);

    cpu.run_instr(0x8124).unwrap();
    assert_eq!(255, cpu.get_register(1));
    assert_eq!(0, cpu.get_register(0xF));

    cpu.run_instr(0x8124).unwrap();
    assert_eq!(4, cpu.get_register(1));
    assert_eq!(1, cpu.get_register(0xF));
}

#[test]
fn instr_sub() {
    let mut cpu = new_cpu();
    cpu.set_register(1, 7);
    cpu.set_register(2, 5);

    cpu.run_instr(0x8125).unwrap();
    assert_eq!(2, cpu.get_register(1));
    assert_eq!(1, cpu.get_register(0xF));

    cpu.run_instr(0x8125).unwrap();
    assert_eq!(253, cpu.get_register(1));
    assert_eq!(0, cpu.get_register(0xF));
}

#[test]
fn instr_shr() {
    let mut cpu = new_cpu();
    cpu.set_register(1, 0b01011010);

    cpu.run_instr(0x8106).unwrap();
    assert_eq!(0b00101101, cpu.get_register(1));
    assert_eq!(0, cpu.get_register(0xF));

    cpu.run_instr(0x8106).unwrap();
    assert_eq!(0b00010110, cpu.get_register(1));
    assert_eq!(1, cpu.get_register(0xF));
}

#[test]
fn instr_sub_i() {
    let mut cpu = new_cpu();
    cpu.set_register(1, 5);
    cpu.set_register(2, 7);

    cpu.run_instr(0x8127).unwrap();
    assert_eq!(2, cpu.get_register(1));
    assert_eq!(1, cpu.get_register(0xF));

    cpu.set_register(2, 1);
    cpu.run_instr(0x8127).unwrap();
    assert_eq!(255, cpu.get_register(1));
    assert_eq!(0, cpu.get_register(0xF));
}

#[test]
fn instr_shl() {
    let mut cpu = new_cpu();
    cpu.set_register(1, 0b01011010);

    cpu.run_instr(0x810E).unwrap();
    assert_eq!(0b10110100, cpu.get_register(1));
    assert_eq!(0, cpu.get_register(0xF));

    cpu.run_instr(0x810E).unwrap();
    assert_eq!(0b01101000, cpu.get_register(1));
    assert_eq!(1, cpu.get_register(0xF));
}

#[test]
fn instr_sne_reg() {
    let mut cpu = new_cpu();
    cpu.set_ip(0x0100);
    cpu.set_register(1, 0x12);
    cpu.set_register(2, 0x12);
    cpu.set_register(3, 0x13);

    cpu.run_instr(0x9130).unwrap();
    assert_eq!(0x0104, cpu.ip());

    cpu.run_instr(0x9120).unwrap();
    assert_eq!(0x0106, cpu.ip());
}

#[test]
fn instr_ld_addr() {
    let mut cpu = new_cpu();
    cpu.run_instr(0xA123).unwrap();
    assert_eq!(0x0123, cpu.addr_reg());
}

#[test]
fn instr_jmp_reg() {
    let mut cpu = new_cpu();
    cpu.set_ip(0x1234);
    cpu.set_sp(1);
    cpu.set_register(0, 0x22);

    cpu.run_instr(0xB111).unwrap();

    assert_eq!(1, cpu.sp());
    assert_eq!(0x0133, cpu.ip());
}

#[test]
fn instr_rnd() {
    let mut cpu = CPU::new(StepRandom::new(0b00111100, 0));
    cpu.run_instr(0xC1F0).unwrap();
    assert_eq!(0b00110000, cpu.get_register(1));
}

#[test]
fn instr_ld_vx_dt() {
    let mut cpu = new_cpu();
    cpu.set_delay(100);
    cpu.run_instr(0xF507).unwrap();
    assert!(cpu.get_delay() > 98);
    assert!(cpu.get_delay() <= 100);
    assert!(cpu.get_register(5) > 98);
    assert!(cpu.get_register(5) <= 100);
}

#[test]
fn instr_ld_dt_vx() {
    let mut cpu = new_cpu();
    cpu.set_register(5, 100);
    cpu.run_instr(0xF515).unwrap();
    assert!(cpu.get_delay() > 98);
    assert!(cpu.get_delay() <= 100);
}

#[test]
fn instr_ld_st_vx() {
    let mut cpu = new_cpu();
    cpu.set_register(5, 100);
    cpu.run_instr(0xF518).unwrap();
    assert!(cpu.get_sound() > 98);
    assert!(cpu.get_sound() <= 100);
}

#[test]
fn instr_add_addr() {
    let mut cpu = new_cpu();
    cpu.set_addr_reg(0x9821);
    cpu.set_register(5, 0x56);
    cpu.run_instr(0xF51E).unwrap();
    assert_eq!(0x9877, cpu.addr_reg());
}
