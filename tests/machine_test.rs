use chip8vm::display::Display;
use chip8vm::keypad::Keypad;
use chip8vm::keypad::Keystate;
use chip8vm::vm::{Chip8, LoadError, FLAG, FONT_SET, PROGRAM_START};

#[test]
fn draw_twice_restores_screen() {
    let mut d = Display::new();
    d.gfx[5][10] = 1;
    let before = d.gfx;
    let sprite = [0xFFu8, 0x21, 0x3C];
    let first = d.draw(8, 4, &sprite);
    assert!(first); // the pixel at (10, 5) is under a set bit of row 1
    assert_ne!(d.gfx, before);
    let second = d.draw(8, 4, &sprite);
    assert!(second);
    assert_eq!(d.gfx, before);
}

#[test]
fn draw_reports_collision_only_when_a_set_pixel_clears() {
    let mut d = Display::new();
    assert!(!d.draw(0, 0, &[0x80]));
    assert_eq!(d.gfx[0][0], 1);
    assert!(!d.draw(0, 0, &[0x40]));
    assert_eq!(d.gfx[0][1], 1);
    assert!(d.draw(0, 0, &[0x80]));
    assert_eq!(d.gfx[0][0], 0);
    assert_eq!(d.gfx[0][1], 1);
}

#[test]
fn draw_wraps_around_both_edges() {
    let mut d = Display::new();
    d.dirty = false;
    assert!(!d.draw(60, 31, &[0xFF, 0x01]));
    assert!(d.dirty);
    for x in [60usize, 61, 62, 63, 0, 1, 2, 3] {
        assert_eq!(d.gfx[31][x], 1);
    }
    assert_eq!(d.gfx[0][3], 1);
    assert_eq!(d.gfx[0][2], 0);
    assert_eq!(d.gfx[31][4], 0);
}

#[test]
fn draw_empty_sprite_only_marks_dirty() {
    let mut d = Display::new();
    d.dirty = false;
    assert!(!d.draw(3, 3, &[]));
    assert!(d.dirty);
    assert_eq!(d.gfx, Display::new().gfx);
}

#[test]
fn clear_blanks_screen() {
    let mut d = Display::new();
    d.draw(0, 0, &[0xFF]);
    d.dirty = false;
    d.clear();
    assert!(d.dirty);
    assert_eq!(d.gfx[0][0], 0);
}

#[test]
fn keypad_states() {
    let mut k = Keypad::new();
    assert_eq!(k.is_pressed(3), Some(false));
    k.pressed(3);
    assert_eq!(k.is_pressed(3), Some(true));
    assert_eq!(k.get_key_state(3), Keystate::Pressed);
    k.released(3);
    assert_eq!(k.get_key_state(3), Keystate::Released);
    assert_eq!(k.is_pressed(16), None);
    k.set_key_state(15, Keystate::Pressed);
    assert_eq!(k.is_pressed(15), Some(true));
}

#[test]
fn new_machine_has_font_and_start_address() {
    let vm = Chip8::new();
    assert_eq!(vm.pc(), PROGRAM_START);
    assert_eq!(&vm.memory[0..80], &FONT_SET[..]);
    assert_eq!(vm.memory[80], 0);
    assert!(!vm.is_waiting_for_key());
    assert!(vm.is_runnable());
}

#[test]
fn add_immediate_wraps_without_flag() {
    let mut vm = Chip8::new();
    vm.execute_opcode(0x6F07);
    vm.execute_opcode(0x65F0);
    vm.execute_opcode(0x750F);
    assert_eq!(vm.register(5), 0xFF);
    vm.execute_opcode(0x7511);
    assert_eq!(vm.register(5), 0x10);
    assert_eq!(vm.register(FLAG), 0x07);
}

#[test]
fn add_registers_carry_flag_edges() {
    let mut vm = Chip8::new();
    vm.execute_opcode(0x61FF);
    vm.execute_opcode(0x6201);
    vm.execute_opcode(0x8124);
    assert_eq!(vm.register(1), 0x00);
    assert_eq!(vm.register(FLAG), 1);
    vm.execute_opcode(0x61FF);
    vm.execute_opcode(0x6200);
    vm.execute_opcode(0x8124);
    assert_eq!(vm.register(1), 0xFF);
    assert_eq!(vm.register(FLAG), 0);
}

#[test]
fn sub_borrow_flag_edges() {
    let mut vm = Chip8::new();
    vm.execute_opcode(0x6180);
    vm.execute_opcode(0x6280);
    vm.execute_opcode(0x8125);
    assert_eq!(vm.register(1), 0);
    assert_eq!(vm.register(FLAG), 0);
    vm.execute_opcode(0x61C8); // 200
    vm.execute_opcode(0x6232); // 50
    vm.execute_opcode(0x8125);
    assert_eq!(vm.register(1), 150);
    assert_eq!(vm.register(FLAG), 0);
    vm.execute_opcode(0x61C8);
    vm.execute_opcode(0x8127); // 50 - 200
    assert_eq!(vm.register(1), 106);
    assert_eq!(vm.register(FLAG), 1);
}

#[test]
fn shift_left_flag_is_masked_bit() {
    let mut vm = Chip8::new();
    vm.execute_opcode(0x63C1);
    vm.execute_opcode(0x830E);
    assert_eq!(vm.register(3), 0x82);
    assert_eq!(vm.register(FLAG), 0x80);
    vm.execute_opcode(0x8306);
    assert_eq!(vm.register(3), 0x41);
    assert_eq!(vm.register(FLAG), 0);
}

#[test]
fn block_store_and_load_move_index() {
    let mut vm = Chip8::new();
    vm.execute_opcode(0xA600);
    vm.execute_opcode(0xF055);
    assert_eq!(vm.index(), 0x601);
    vm.execute_opcode(0xFF55);
    assert_eq!(vm.index(), 0x601 + 16);
    vm.execute_opcode(0xA600);
    vm.execute_opcode(0xF565);
    assert_eq!(vm.index(), 0x606);
}

#[test]
fn font_address_and_jump_with_offset() {
    let mut vm = Chip8::new();
    vm.execute_opcode(0x600A);
    vm.execute_opcode(0xF029);
    assert_eq!(vm.index(), 50);
    vm.execute_opcode(0x60C8);
    vm.execute_opcode(0xF029);
    assert_eq!(vm.index(), 1000);
    vm.execute_opcode(0x6010);
    vm.execute_opcode(0xB300);
    assert_eq!(vm.pc(), 0x310);
}

#[test]
fn random_byte_is_masked() {
    let mut vm = Chip8::new();
    vm.execute_opcode(0xC400);
    assert_eq!(vm.register(4), 0);
    vm.execute_opcode(0xC40F);
    assert_eq!(vm.register(4) & 0xF0, 0);
    vm.execute_opcode_with(0xC4F0, 0xAB);
    assert_eq!(vm.register(4), 0xA0);
    assert_eq!(vm.pc(), PROGRAM_START + 6);
}

#[test]
fn unknown_opcodes_only_advance() {
    let mut vm = Chip8::new();
    vm.execute_opcode(0x6123);
    vm.execute_opcode(0x0123);
    vm.execute_opcode(0x5121);
    vm.execute_opcode(0xE1FF);
    assert_eq!(vm.pc(), PROGRAM_START + 8);
    assert_eq!(vm.register(1), 0x23);
}

#[test]
fn clear_screen_instruction() {
    let mut vm = Chip8::new();
    vm.display.gfx[3][3] = 1;
    vm.display.dirty = false;
    vm.execute_opcode(0x00E0);
    assert_eq!(vm.display.gfx[3][3], 0);
    assert!(vm.display.dirty);
    assert_eq!(vm.pc(), PROGRAM_START + 2);
}

#[test]
fn wait_for_key_holds_until_key() {
    let mut vm = Chip8::new();
    assert_eq!(vm.load(&[0xF3, 0x0A, 0x12, 0x00]), Ok(()));
    vm.delay_timer = 9;
    assert!(!vm.emulate_cycle());
    assert!(vm.is_waiting_for_key());
    let regs = vm.v;
    for _ in 0..5 {
        assert!(!vm.emulate_cycle());
        assert_eq!(vm.pc(), PROGRAM_START);
        assert_eq!(vm.v, regs);
        assert_eq!(vm.delay_timer, 9);
    }
    vm.end_wait_for_key(7);
    assert!(!vm.is_waiting_for_key());
    assert_eq!(vm.register(3), 7);
    assert_eq!(vm.pc(), PROGRAM_START + 2);
}

#[test]
fn end_wait_without_wait_does_nothing() {
    let mut vm = Chip8::new();
    vm.end_wait_for_key(4);
    assert_eq!(vm.pc(), PROGRAM_START);
    assert_eq!(vm.register(0), 0);
}

#[test]
fn emulate_cycle_fetches_big_endian() {
    let mut vm = Chip8::new();
    assert_eq!(vm.load(&[0x6A, 0x42, 0x1A, 0xBC]), Ok(()));
    assert!(!vm.emulate_cycle());
    assert_eq!(vm.register(0xA), 0x42);
    assert_eq!(vm.opcode, 0x6A42);
    assert!(!vm.emulate_cycle());
    assert_eq!(vm.pc(), 0xABC);
}

#[test]
fn emulate_cycle_finishes_at_end_of_memory() {
    let mut vm = Chip8::new();
    vm.pc = 4094;
    assert!(vm.emulate_cycle());
    assert_eq!(vm.pc(), 4094);
    vm.pc = 4092;
    assert!(!vm.emulate_cycle());
}

#[test]
fn emulate_cycle_stops_on_fault() {
    let mut vm = Chip8::new();
    assert_eq!(vm.load(&[0x00, 0xEE]), Ok(()));
    assert!(vm.emulate_cycle()); // return with an empty stack
    assert_eq!(vm.pc(), PROGRAM_START);
    assert_eq!(vm.sp, 0);
    assert!(!vm.is_executable(0x00EE));
    vm.i = 4094;
    assert!(!vm.is_executable(0xF033));
    vm.i = 4093;
    assert!(vm.is_executable(0xF033));
}

#[test]
fn load_refuses_oversized_program() {
    let mut vm = Chip8::new();
    let rom = vec![0xAAu8; 4096 - 0x200 + 1];
    assert_eq!(
        vm.load(&rom),
        Err(LoadError::RomTooLarge { size: 3585, available: 3584 })
    );
    assert_eq!(vm.memory[0x200], 0);
    let rom = vec![0xAAu8; 4096 - 0x200];
    assert_eq!(vm.load(&rom), Ok(()));
    assert_eq!(vm.memory[0x200], 0xAA);
    assert_eq!(vm.memory[4095], 0xAA);
}

#[test]
fn reset_keeps_program_and_option() {
    let mut vm = Chip8::new();
    assert_eq!(vm.load(&[0x12, 0x34]), Ok(()));
    vm.should_shift_op_use_vy(true);
    vm.execute_opcode(0x6155);
    vm.execute_opcode(0xF10A);
    vm.reset();
    assert_eq!(vm.memory[0x200], 0x12);
    assert_eq!(vm.register(1), 0);
    assert!(!vm.is_waiting_for_key());
    assert!(vm.shift_op_use_vy);
    assert_eq!(vm.pc(), PROGRAM_START);
}

#[test]
fn draw_scenario_redraw_first_row() {
    let mut vm = Chip8::new();
    vm.memory[0x300] = 0b1110_0111;
    vm.memory[0x301] = 0b0110_0110;
    vm.memory[0x302] = 0b0011_1100;
    vm.execute_opcode(0x6A19); // x = 25
    vm.execute_opcode(0x6B07); // y = 7
    vm.execute_opcode(0xA300);
    vm.execute_opcode(0xDAB3);
    assert_eq!(vm.register(FLAG), 0);
    let mut set = 0;
    for row in vm.display.gfx.iter() {
        set += row.iter().filter(|p| **p == 1).count();
    }
    assert_eq!(set, 6 + 4 + 4);
    vm.execute_opcode(0xDAB1);
    assert_eq!(vm.register(FLAG), 1);
    for i in 0..8 {
        assert_eq!(vm.display.gfx[7][25 + i], 0);
    }
    assert_eq!(vm.display.gfx[8][26], 1);
    assert_eq!(vm.display.gfx[9][27], 1);
}

#[test]
fn bcd_of_extremes() {
    let mut vm = Chip8::new();
    vm.execute_opcode(0xA400);
    vm.execute_opcode(0x60FF);
    vm.execute_opcode(0xF033);
    assert_eq!(&vm.memory[0x400..0x403], &[2, 5, 5]);
    vm.execute_opcode(0x6000);
    vm.execute_opcode(0xF033);
    assert_eq!(&vm.memory[0x400..0x403], &[0, 0, 0]);
}
