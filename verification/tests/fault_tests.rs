use chip8::cpu::CPU;
use chip8::fault::Fault;
use chip8::rng::StepRandom;

fn new_cpu() -> CPU<StepRandom> {
    CPU::new(StepRandom::new(0, 0))
}

#[test]
fn ret_on_empty_stack_underflows() {
    let mut cpu = new_cpu();
    cpu.set_sp(0);
    assert_eq!(Err(Fault::StackUnderflow), cpu.run_instr(0x00EE));
}

#[test]
fn call_on_full_stack_overflows() {
    let mut cpu = new_cpu();
    cpu.set_sp(15);
    assert_eq!(Err(Fault::StackOverflow), cpu.run_instr(0x2456));
}

#[test]
fn call_ret_round_trip_restores_flow() {
    let mut cpu = new_cpu();
    cpu.set_ip(0x1234);
    cpu.set_sp(0);

    cpu.run_instr(0x2456).unwrap();
    assert_eq!(1, cpu.sp());
    assert_eq!(0x0456, cpu.ip());
    assert_eq!(0x1236, cpu.stack_at(1));

    cpu.run_instr(0x00EE).unwrap();
    assert_eq!(0x1236, cpu.ip());
    assert_eq!(0, cpu.sp());
}

#[test]
fn add_imm_wraps_without_flag() {
    let mut cpu = new_cpu();
    cpu.set_register(1, 250);
    cpu.set_register(0xF, 0x77);
    cpu.run_instr(0x710A).unwrap();
    assert_eq!(4, cpu.get_register(1));
    assert_eq!(0x77, cpu.get_register(0xF));
}

#[test]
fn skip_encodings_require_zero_low_nibble() {
    let mut cpu = new_cpu();
    assert_eq!(Err(Fault::InvalidEncoding), cpu.run_instr(0x5121));
    assert_eq!(Err(Fault::InvalidEncoding), cpu.run_instr(0x9127));
}

#[test]
fn unimplemented_opcodes_fault() {
    let mut cpu = new_cpu();
    assert_eq!(Err(Fault::UnimplementedOpcode), cpu.run_instr(0x0123));
    assert_eq!(Err(Fault::UnimplementedOpcode), cpu.run_instr(0x8128));
    assert_eq!(Err(Fault::UnimplementedOpcode), cpu.run_instr(0xF5FF));
    assert_eq!(Err(Fault::UnimplementedOpcode), cpu.run_instr(0xE19E));
}

#[test]
fn fault_advances_instruction_pointer() {
    let mut cpu = new_cpu();
    cpu.set_ip(0x0300);
    assert_eq!(Err(Fault::UnimplementedOpcode), cpu.run_instr(0x0123));
    assert_eq!(0x0302, cpu.ip());
}

#[test]
fn fetch_out_of_bounds_faults() {
    let mut cpu = new_cpu();
    cpu.set_ip(4095);
    assert_eq!(Err(Fault::MemoryOutOfBounds), cpu.tick());
    assert_eq!(4095, cpu.ip());
}

#[test]
fn oversized_program_is_rejected() {
    let mut cpu = new_cpu();
    let image = vec![0u8; 4096 - 512 + 1];
    assert_eq!(Err(Fault::LoadOversized), cpu.load_program(&image));
}

#[test]
fn program_loads_at_program_offset() {
    let mut cpu = new_cpu();
    let image = vec![0x12, 0x34, 0x56];
    cpu.load_program(&image).unwrap();
    assert_eq!(0x12, cpu.get_memory(512));
    assert_eq!(0x34, cpu.get_memory(513));
    assert_eq!(0x56, cpu.get_memory(514));
    assert_eq!(0x00, cpu.get_memory(515));
    assert_eq!(0x00, cpu.get_memory(511));
}

#[test]
fn tick_fetches_and_executes() {
    let mut cpu = new_cpu();
    let image = vec![0x61, 0x23];
    cpu.load_program(&image).unwrap();
    cpu.tick().unwrap();
    assert_eq!(0x23, cpu.get_register(1));
    assert_eq!(514, cpu.ip());
}

#[test]
fn sprite_draw_overwrites_and_reports_collision() {
    let mut cpu = new_cpu();
    cpu.load_glyphs();
    cpu.set_addr_reg(0);
    cpu.set_register(0, 10);
    cpu.set_register(1, 0);

    cpu.run_instr(0xD014).unwrap();
    assert_eq!(1, cpu.get_register(0xF));
    for x in 10..14 {
        assert_eq!(true, cpu.get_pixel(x, 0));
        assert_eq!(true, cpu.get_pixel(x, 4));
    }
    assert_eq!(true, cpu.get_pixel(10, 1));
    assert_eq!(false, cpu.get_pixel(11, 1));
    assert_eq!(false, cpu.get_pixel(12, 1));
    assert_eq!(true, cpu.get_pixel(13, 1));
    assert_eq!(false, cpu.get_pixel(14, 0));

    cpu.run_instr(0xD014).unwrap();
    assert_eq!(0, cpu.get_register(0xF));

    cpu.run_instr(0x00E0).unwrap();
    for y in 0..32 {
        for x in 0..64 {
            assert_eq!(false, cpu.get_pixel(x, y));
        }
    }
}

#[test]
fn sprite_draw_out_of_bounds_faults() {
    let mut cpu = new_cpu();
    cpu.load_glyphs();
    cpu.set_register(0, 10);
    cpu.set_register(1, 30);
    assert_eq!(Err(Fault::MemoryOutOfBounds), cpu.run_instr(0xD014));

    let mut cpu2 = new_cpu();
    cpu2.set_addr_reg(4095);
    assert_eq!(Err(Fault::MemoryOutOfBounds), cpu2.run_instr(0xD011));
}

#[test]
fn delay_timer_expires_to_zero() {
    let mut cpu = new_cpu();
    cpu.set_delay(0);
    assert_eq!(0, cpu.get_delay());
    cpu.set_sound(0);
    assert_eq!(0, cpu.get_sound());
}
