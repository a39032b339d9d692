use chip8::fault::Fault;
use chip8::font::{find_font_sprite, load_fonts};
use chip8::instr::{decode, Instr};
use chip8::Emulator;

#[test]
fn emulator_call_pushes_return_address() {
    let mut emu = Emulator::init();
    let image = vec![0x2A, 0xBC];
    emu.load_program(&image).unwrap();

    emu.iterate().unwrap();

    assert_eq!(0x0ABC, emu.ip());
    assert_eq!(1, emu.sp());
    assert_eq!(514, emu.stack_at(0));
}

#[test]
fn emulator_ld_addr_sets_address_register() {
    let mut emu = Emulator::init();
    let image = vec![0xA1, 0x23];
    emu.load_program(&image).unwrap();

    emu.iterate().unwrap();

    assert_eq!(0x0123, emu.addr_reg());
    assert_eq!(514, emu.ip());
}

#[test]
fn emulator_run_stops_at_first_fault() {
    let mut emu = Emulator::init();
    let image = vec![0xA1, 0x23, 0x00, 0x00];
    emu.load_program(&image).unwrap();

    assert_eq!(Err(Fault::UnimplementedOpcode), emu.run(10));
    assert_eq!(0x0123, emu.addr_reg());
    assert_eq!(516, emu.ip());
}

#[test]
fn emulator_run_zero_steps_is_a_no_op() {
    let mut emu = Emulator::init();
    assert_eq!(Ok(()), emu.run(0));
    assert_eq!(512, emu.ip());
    assert_eq!(0, emu.sp());
}

#[test]
fn emulator_fetch_out_of_bounds_faults() {
    let mut emu = Emulator::init();
    emu.set_ip(4095);
    assert_eq!(Err(Fault::MemoryOutOfBounds), emu.iterate());
    assert_eq!(4095, emu.ip());
}

#[test]
fn emulator_oversized_program_is_rejected() {
    let mut emu = Emulator::init();
    let image = vec![0u8; 4096 - 512 + 1];
    assert_eq!(Err(Fault::LoadOversized), emu.load_program(&image));
}

#[test]
fn emulator_stack_fills_to_depth_then_overflows() {
    let mut emu = Emulator::init();
    let image = vec![0x22u8, 0x00];
    emu.load_program(&image).unwrap();
    for _ in 0..16 {
        emu.set_ip(512);
        emu.iterate().unwrap();
    }
    assert_eq!(16, emu.sp());
    emu.set_ip(512);
    assert_eq!(Err(Fault::StackOverflow), emu.iterate());
}

#[test]
fn fonts_load_at_offset_zero() {
    let mut memory = vec![0xAAu8; 4096];
    load_fonts(&mut memory);
    assert_eq!(0xF0, memory[0]);
    assert_eq!(0x90, memory[1]);
    assert_eq!(0x20, memory[5]);
    assert_eq!(0x80, memory[79]);
    assert_eq!(0xAA, memory[80]);
    assert_eq!(0xAA, memory[4095]);
}

#[test]
fn font_sprite_addresses() {
    assert_eq!(0, find_font_sprite(0));
    assert_eq!(5, find_font_sprite(1));
    assert_eq!(50, find_font_sprite(0xA));
    assert_eq!(75, find_font_sprite(0xF));
    assert_eq!(0, find_font_sprite(0x10));
    assert_eq!(0, find_font_sprite(0xFF));
}

#[test]
fn decode_classifies_words() {
    assert_eq!(Ok(Instr::Cls), decode(0x00E0));
    assert_eq!(Ok(Instr::Ret), decode(0x00EE));
    assert_eq!(Ok(Instr::Jp(0x0456)), decode(0x1456));
    assert_eq!(Ok(Instr::Drw(1, 2, 3)), decode(0xD123));
    assert_eq!(Ok(Instr::Rnd(4, 0xF0)), decode(0xC4F0));
    assert_eq!(Err(Fault::InvalidEncoding), decode(0x5121));
    assert_eq!(Err(Fault::UnimplementedOpcode), decode(0xE000));
}
