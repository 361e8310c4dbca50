use chip8_core::new_chip8;
use chip8_core::Chip8;

fn init() -> Chip8 {
    let mut chip = new_chip8();
    chip.init();
    chip
}

#[test]
fn should_clear_screen() {
    let mut chip = init();
    chip.clear_screen();
    assert_eq!(chip.display, [0; 32]);
}

#[test]
fn shouldnt_return_from_subroutine() {
    let mut chip = init();
    let pc = chip.pc;
    chip.return_from_sub();
    assert_eq!(chip.pc, pc);
    assert_eq!(chip.sp, 0);
    assert_eq!(chip.S, [0; 16]);
}

#[test]
fn should_return_from_subroutine() {
    let mut chip = init();
    chip.S[0] = 0x201;
    chip.sp = 1;
    chip.return_from_sub();
    assert_eq!(chip.pc, 0x0201);
    assert_eq!(chip.sp, 0);
    assert_eq!(chip.S, [0; 16]);
}

#[test]
fn should_jump() {
    let mut chip = init();
    chip.jump(0x201);
    assert_eq!(chip.pc, 0x201);
}

#[test]
fn should_call() {
    let mut chip = init();
    chip.call(0x201);
    assert_eq!(chip.pc, 0x201);
    assert_eq!(chip.S[0], 0x202);
    assert_eq!(chip.sp, 1);
}

#[test]
fn should_skip_when_vx_and_byte_equal() {
    let mut chip = init();
    chip.pc = 0;
    chip.V[0] = 1;
    chip.skip_if_reg_equals_byte(0, 1);
    assert_eq!(chip.pc, 4);
}

#[test]
fn shouldnt_skip_when_vx_and_byte_not_equal() {
    let mut chip = init();
    chip.pc = 0;
    chip.V[0] = 1;
    chip.skip_if_reg_equals_byte(0, 0);
    assert_eq!(chip.pc, 2);
}

#[test]
fn should_skip_when_vx_and_byte_not_equal() {
    let mut chip = init();
    chip.pc = 0;
    chip.V[0] = 1;
    chip.skip_if_reg_not_equals_byte(0, 0);
    assert_eq!(chip.pc, 4);
}

#[test]
fn shouldnt_skip_when_vx_and_byte_equal() {
    let mut chip = init();
    chip.pc = 0;
    chip.V[0] = 1;
    chip.skip_if_reg_not_equals_byte(0, 1);
    assert_eq!(chip.pc, 2);
}

#[test]
fn should_skip_when_vx_and_vy_not_equal() {
    let mut chip = init();
    chip.pc = 0;
    chip.V[0] = 1;
    chip.skip_if_reg_not_equals_reg(0, 1);
    assert_eq!(chip.pc, 4);
}

#[test]
fn shouldnt_skip_when_vx_and_vy_equal() {
    let mut chip = init();
    chip.pc = 0;
    chip.skip_if_reg_not_equals_reg(0, 1);
    assert_eq!(chip.pc, 2);
}

#[test]
fn should_skip_when_vx_and_vy_equal() {
    let mut chip = init();
    chip.pc = 0;
    chip.skip_if_reg_equals_reg(0, 1);
    assert_eq!(chip.pc, 4);
}

#[test]
fn shouldnt_skip_when_vx_and_vy_not_equal() {
    let mut chip = init();
    chip.pc = 0;
    chip.V[1] = 1;
    chip.skip_if_reg_equals_reg(0, 1);
    assert_eq!(chip.pc, 2);
}

#[test]
fn should_set_register() {
    let mut chip = init();
    chip.set_register(0, 1);
    assert_eq!(chip.V[0], 1);
}

#[test]
fn should_add_to_register() {
    let mut chip = init();
    chip.add_to_register(0, 1);
    assert_eq!(chip.V[0], 1);
}

#[test]
fn should_copy_to_register() {
    let mut chip = init();
    chip.V[1] = 1;
    chip.copy_to_register(0, 1);
    assert_eq!(chip.V[0], 1);
}

#[test]
fn should_or_with_register() {
    let mut chip = init();
    chip.V[0] = 0xf0;
    chip.V[1] = 0xf;
    chip.or_with_register(0, 1);
    assert_eq!(chip.V[0], 0xff);
}

#[test]
fn should_and_with_register() {
    let mut chip = init();
    chip.V[0] = 0xf0;
    chip.V[1] = 0xf;
    chip.and_with_register(0, 1);
    assert_eq!(chip.V[0], 0x0);
}

#[test]
fn should_xor_with_register() {
    let mut chip = init();
    chip.V[0] = 0xf8;
    chip.V[1] = 0xf;
    chip.xor_with_register(0, 1);
    assert_eq!(chip.V[0], 0xf7);
}

#[test]
fn should_add_registers() {
    let mut chip = init();
    chip.V[1] = 4;
    chip.add_registers(0, 1);
    assert_eq!(chip.V[0], 4);
}

#[test]
fn should_add_registers_and_carry() {
    let mut chip = init();
    chip.V[0] = 0xff;
    chip.V[1] = 4;
    chip.add_registers(0, 1);
    assert_eq!(chip.V[0], 3);
    assert_eq!(chip.V[0xf], 1);
}

#[test]
fn should_set_i() {
    let mut chip = init();
    chip.set_i(1);
    assert_eq!(chip.I, 1);
}

#[test]
fn should_set_register_to_random() {
    let mut chip = init();
    chip.random(0, 0xff);
}

#[test]
fn should_update_display() {
    let mut chip = init();
    chip.V[0] = 2;
    chip.I = 2048;
    chip.M[2048] = 0x0f;
    chip.M[2049] = 0xf0;
    chip.M[2050] = 0x0f;
    chip.M[2051] = 0xf0;
    chip.update_display(0, 0, 4);
    assert_eq!(chip.display[0], 0);
    assert_eq!(chip.display[1], 0);
    assert_eq!(chip.display[2] >> 54, 0x0f);
    assert_eq!(chip.display[3] >> 54, 0xf0);
    assert_eq!(chip.display[4] >> 54, 0x0f);
    assert_eq!(chip.display[5] >> 54, 0xf0);
    assert_eq!(chip.V[0xf], 0);
}

#[test]
fn should_display_digit() {
    let mut chip = init();
    chip.update_display(0, 0, 5);
    assert_eq!(chip.display[0] >> 56, 0xf0);
    assert_eq!(chip.display[1] >> 56, 0x90);
    assert_eq!(chip.display[2] >> 56, 0x90);
    assert_eq!(chip.display[3] >> 56, 0x90);
    assert_eq!(chip.display[4] >> 56, 0xf0);
}

#[test]
fn should_update_display_and_wrap() {
    let mut chip = init();
    chip.V[0] = 60;
    chip.V[1] = 30;
    chip.I = 2048;
    chip.M[2048] = 0x0f;
    chip.M[2049] = 0xf0;
    chip.M[2050] = 0x0f;
    chip.M[2051] = 0xf0;
    chip.update_display(0, 1, 4);
    assert_eq!(chip.display[0], 0xf000000000000000);
    assert_eq!(chip.display[1], 0x000000000000000f);
    assert_eq!(chip.display[30], 0xf000000000000000);
    assert_eq!(chip.display[31], 0x000000000000000f);
    assert_eq!(chip.V[0xf], 0);
}

#[test]
fn should_update_display_and_set_erased() {
    let mut chip = init();
    chip.I = 2048;
    chip.M[2048] = 0x0f;
    chip.M[2049] = 0xf0;
    chip.M[2050] = 0x0f;
    chip.M[2051] = 0xf0;
    chip.display[0] = 0x0f00000000000000;
    chip.update_display(0, 0, 4);
    assert_eq!(chip.display[0] >> 56, 0x00);
    assert_eq!(chip.display[1] >> 56, 0xf0);
    assert_eq!(chip.display[2] >> 56, 0x0f);
    assert_eq!(chip.display[3] >> 56, 0xf0);
    assert_eq!(chip.V[0xf], 1);
}

#[test]
fn should_skip_if_pressed() {
    let mut chip = init();
    chip.pc = 0;
    chip.V[0] = 2;
    chip.input[2] = true;
    chip.skip_if_pressed(0);
    assert_eq!(chip.pc, 4);
}

#[test]
fn shouldnt_skip_if_not_pressed() {
    let mut chip = init();
    chip.pc = 0;
    chip.V[0] = 2;
    chip.input[2] = false;
    chip.skip_if_pressed(0);
    assert_eq!(chip.pc, 2);
}

#[test]
fn shouldnt_skip_if_pressed() {
    let mut chip = init();
    chip.pc = 0;
    chip.V[0] = 2;
    chip.input[2] = true;
    chip.skip_if_not_pressed(0);
    assert_eq!(chip.pc, 2);
}

#[test]
fn should_skip_if_not_pressed() {
    let mut chip = init();
    chip.pc = 0;
    chip.V[0] = 2;
    chip.input[2] = false;
    chip.skip_if_not_pressed(0);
    assert_eq!(chip.pc, 4);
}

#[test]
fn should_wait_for_input() {
    let mut chip = init();
    let mut new_input = [false; 16];
    new_input[6] = true;
    chip.wait_for_input(1);
    assert_eq!(chip.wait, true);
    assert_eq!(chip.store_input_at, 1);
    chip.update_input(new_input);
    assert_eq!(chip.V[1], 6);
    assert_eq!(chip.wait, false);
    assert_eq!(chip.store_input_at, 0);
}

#[test]
fn should_set_dt() {
    let mut chip = init();
    chip.V[0] = 10;
    chip.set_dt(0);
    assert_eq!(chip.dt, 10);
}

#[test]
fn should_set_vx_to_dt() {
    let mut chip = init();
    chip.dt = 10;
    chip.set_reg_to_dt(0);
    assert_eq!(chip.V[0], 10);
}

#[test]
fn should_set_st() {
    let mut chip = init();
    chip.V[0] = 5;
    chip.set_st(0);
    assert_eq!(chip.st, 5);
}

#[test]
fn should_set_i_plus_vx() {
    let mut chip = init();
    chip.I = 5;
    chip.V[0] = 5;
    chip.i_plus_reg(0);
    assert_eq!(chip.I, 10);
}

#[test]
fn should_set_i_to_digit_locations() {
    let mut chip = init();
    chip.V[0] = 2;
    chip.V[1] = 0xa;
    chip.set_i_digit_sprite(0);
    assert_eq!(chip.I, 2 * 5);
    chip.set_i_digit_sprite(1);
    assert_eq!(chip.I, 0xa * 5);
}

#[test]
fn should_store_registers() {
    let mut chip = init();
    chip.V[0] = 1;
    chip.V[1] = 2;
    chip.V[2] = 3;
    chip.I = 1000;
    chip.store_regs_through(2);
    assert_eq!(chip.M[1000], 1);
    assert_eq!(chip.M[1001], 2);
    assert_eq!(chip.M[1002], 3);
}

#[test]
fn should_read_registers() {
    let mut chip = init();
    chip.M[1000] = 1;
    chip.M[1001] = 2;
    chip.M[1002] = 3;
    chip.I = 1000;
    chip.read_to_regs(2);
    assert_eq!(chip.V[0], 1);
    assert_eq!(chip.V[1], 2);
    assert_eq!(chip.V[2], 3);
}

#[test]
fn should_bcd() {
    let mut chip = init();
    chip.V[0] = 245;
    chip.I = 1000;
    chip.bcd(0);
    assert_eq!(chip.M[1000], 2);
    assert_eq!(chip.M[1001], 4);
    assert_eq!(chip.M[1002], 5);
}
