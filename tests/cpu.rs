use chip8::chip8::{COL, ROW};
use chip8::cpu::Cpu;

#[test]
fn cpu_clear_screen() {
    let mut chip = Cpu::new();
    chip.graphics.fill(1);
    chip.decode_and_execute(0x00E0);
    assert_eq!(chip.graphics, [0; ROW * COL]);
}

#[test]
fn cpu_clear_screen2() {
    let mut chip = Cpu::new();
    chip.graphics.fill(1);
    assert_eq!(chip.graphics, [1; ROW * COL]);
    chip.decode_and_execute(0xE0);
    assert_eq!(chip.graphics, [0; ROW * COL]);
}

#[test]
fn cpu_jump_to_address_0x1NNN() {
    let mut chip = Cpu::new();
    chip.decode_and_execute(0x1080);
    assert_eq!(chip.pc, 128);
}

#[test]
fn cpu_call_subroutine_0x2NNN() {
    let mut chip = Cpu::new();

    // call subroutine at address 128, and put current 512 on the stack
    chip.decode_and_execute(0x2080);
    assert_eq!(chip.pc, 128);

    // call subroutine at address 5, and put current address 128 on the stack
    chip.decode_and_execute(0x2005);
    assert_eq!(chip.pc, 5);

    assert_eq!(chip.stack[chip.sp as usize - 1], 128);
}

#[test]
fn cpu_skip_if_equal_0x3XNN() {
    let mut chip = Cpu::new();
    assert_eq!(chip.pc, 0x200);
    chip.v[2] = 4;

    chip.decode_and_execute(0x3205);
    assert_eq!(chip.pc, 0x200);
    chip.decode_and_execute(0x3204);

    assert_eq!(chip.pc, 0x202);
}
#[test]
fn cpu_skip_if_not_equal_0x4XNN() {
    let mut chip = Cpu::new();
    assert_eq!(chip.pc, 0x200);
    chip.v[2] = 4;
    chip.decode_and_execute(0x4204);
    assert_eq!(chip.pc, 0x200);

    chip.decode_and_execute(0x4205);
    assert_eq!(chip.pc, 0x202);
}

#[test]
fn cpu_skip_xy_0x5XY0() {
    let mut chip = Cpu::new();
    chip.v[1] = 10;
    chip.v[4] = 11;

    chip.decode_and_execute(0x5140);
    assert_eq!(chip.pc, 0x200);

    chip.v[4] = 10;
    chip.decode_and_execute(0x5140);
    assert_eq!(chip.pc, 0x202);
}

#[test]
fn cpu_set_value_0x6XNN() {
    let mut chip = Cpu::new();

    // set v[0] = 128
    chip.decode_and_execute(0x6080);
    assert_eq!(chip.v[0], 128);

    // set v[10] = 128
    chip.decode_and_execute(0x6a80);
    assert_eq!(chip.v[10], 128);

    println!("{:?}", chip.v);
}

#[test]
fn cpu_add_to_value_0x7XNN() {
    let mut chip = Cpu::new();

    // set v[10] = 8
    chip.decode_and_execute(0x6a08);
    assert_eq!(chip.v[10], 8);

    chip.decode_and_execute(0x7a08);
    assert_eq!(chip.v[10], 16);
}

#[test]
fn cpu_assign_value_0x8XY0() {
    let mut chip = Cpu::new();
    chip.v[3] = 4;
    chip.decode_and_execute(0x8430);
    assert_eq!(chip.v[4], 4);
}

#[test]
fn cpu_or_value_0x8XY1() {
    let mut chip = Cpu::new();
    chip.v[8] = 10;
    chip.v[11] = 172;

    chip.decode_and_execute(0x88b1);

    assert_eq!(chip.v[8], 10 | 172);
}

#[test]
fn cpu_and_value_0x8XY2() {
    let mut chip = Cpu::new();
    chip.v[8] = 10;
    chip.v[11] = 172;

    chip.decode_and_execute(0x88b2);

    assert_eq!(chip.v[8], 10 & 172);
}

#[test]
fn cpu_xor_value_0x8XY3() {
    let mut chip = Cpu::new();
    chip.v[8] = 10;
    chip.v[11] = 172;

    chip.decode_and_execute(0x88b3);

    assert_eq!(chip.v[8], 10 ^ 172);
}

#[test]
fn cpu_adding_registers_simple_0x8XY4() {
    let mut chip = Cpu::new();

    chip.v[2] = 5;
    chip.v[3] = 10;

    chip.decode_and_execute(0x8234);

    assert_eq!(chip.v[2], 15);
    assert_eq!(chip.v[0xF], 0x0);
}

#[test]
fn cpu_adding_registers_with_carry_0x8XY4() {
    let mut chip = Cpu::new();

    chip.v[2] = 255;
    chip.v[3] = 1;

    chip.decode_and_execute(0x8234);

    assert_eq!(chip.v[2], 0x1);
    assert_eq!(chip.v[0xF], 0x1);
}

#[test]
fn cpu_subtracting_registers_simple_0x8XY5() {
    let mut chip = Cpu::new();

    chip.v[2] = 10;
    chip.v[3] = 5;

    chip.decode_and_execute(0x8235);

    assert_eq!(chip.v[2], 5);
    assert_eq!(chip.v[0xF], 0x1);
}

#[test]
fn cpu_subtracting_registers_with_borrow_0x8XY5() {
    let mut chip = Cpu::new();

    chip.v[2] = 5;
    chip.v[3] = 10;

    chip.decode_and_execute(0x8235);

    assert_eq!(chip.v[2], 251);
    assert_eq!(chip.v[0xF], 0x0);
}

#[test]
fn cpu_right_shifting_0x8XY6() {
    let mut chip = Cpu::new();

    chip.v[2] = 3;
    chip.v[3] = 5;
    chip.decode_and_execute(0x8326);
    assert_eq!(chip.v[3], 0x1);
    assert_eq!(chip.v[0xF], 0x1);

    chip.v[2] = 3;
    chip.v[3] = 4;
    chip.decode_and_execute(0x8326);
    assert_eq!(chip.v[3], 0x1);
    assert_eq!(chip.v[0xF], 0x0);
}

#[test]
fn cpu_subtracting_y_x_simple_0x8XY7() {
    let mut chip = Cpu::new();

    chip.v[2] = 3;
    chip.v[3] = 1;

    chip.decode_and_execute(0x8327);

    assert_eq!(chip.v[3], 2);
    assert_eq!(chip.v[0xF], 1);
}

#[test]
fn cpu_subtracting_y_x_with_borrow_0x8XY7() {
    let mut chip = Cpu::new();

    chip.v[2] = 3;
    chip.v[3] = 10;

    chip.decode_and_execute(0x8327);

    assert_eq!(chip.v[3], 249);
    assert_eq!(chip.v[0xF], 0);
}

#[test]
fn cpu_left_shifting_0x8XYE() {
    let mut chip = Cpu::new();

    chip.v[3] = 4; //X
    chip.v[2] = 128; //Y

    chip.decode_and_execute(0x832E);

    assert_eq!(chip.v[0xF], 0x1);
    assert_eq!(chip.v[3], 0x0);
}

#[test]
fn cpu_skip_if_xy_not_equal_0x9000() {
    let mut chip = Cpu::new();

    chip.v[2] = 5;
    chip.v[3] = 5;
    chip.decode_and_execute(0x9230);

    assert_eq!(chip.pc, 0x200);

    chip.v[3] = 6;
    chip.decode_and_execute(0x9230);
    assert_eq!(chip.pc, 0x202);
}

#[test]
fn cpu_set_index_register_value_0xA000() {
    let mut chip = Cpu::new();

    chip.decode_and_execute(0xA001);
    assert_eq!(chip.i, 1);

    chip.decode_and_execute(0xA123);
    assert_eq!(chip.i, 291);
}

#[test]
fn cpu_jump_to_nnn_plus_v0_0xB000() {
    let mut chip = Cpu::new();
    assert_eq!(chip.pc, 0x200);
    chip.v[0] = 0x80;
    chip.decode_and_execute(0xB080);
    assert_eq!(chip.pc, 0x80 + 0x80);
}

#[test]
fn is_key_pressed_0xE000() {
    let mut chip = Cpu::new();
    assert_eq!(chip.pc, 0x200);

    // The key is the one V[3] names: V[3] = 0, and key 0 is up.
    chip.keypad[3] = 1;
    chip.decode_and_execute(0xE39E);
    assert_eq!(chip.pc, 0x200);
}

#[test]
fn is_key_not_pressed_0xE000() {
    let mut chip = Cpu::new();
    assert_eq!(chip.pc, 0x200);

    // The key is the one V[3] names: V[3] = 0, and key 0 is up.
    chip.keypad[3] = 1;
    chip.decode_and_execute(0xE3A1);
    assert_eq!(chip.pc, 0x202);

    chip.keypad[3] = 0;
    chip.decode_and_execute(0xE3A1);
    assert_eq!(chip.pc, 0x204);
}

#[test]
fn set_delay_timer_0xFX07() {
    let mut chip = Cpu::new();
    chip.delay_timer = 10;

    chip.decode_and_execute(0xFA07);

    assert_eq!(chip.v[10], 10);
}
