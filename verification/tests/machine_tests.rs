use chip8_core::new_chip8;
use chip8_core::Chip8;

fn init() -> Chip8 {
    let mut chip = new_chip8();
    chip.init();
    chip
}

#[test]
fn fresh_machine_runs_a_two_instruction_program() {
    // Set V0 to 10, then add 5 to it: after two cycles V0 is 15 and the
    // program counter has moved past both instructions.
    let mut chip = init();
    chip.load(&[0x60, 0x0A, 0x70, 0x05]);
    chip.cycle();
    chip.cycle();
    assert_eq!(chip.V[0], 15);
    assert_eq!(chip.pc, 0x204);
}

#[test]
fn init_installs_font_glyphs() {
    let chip = init();
    assert_eq!(&chip.M[0..5], &[0xF0, 0x90, 0x90, 0x90, 0xF0]);
    assert_eq!(&chip.M[75..80], &[0xF0, 0x80, 0xF0, 0x80, 0x80]);
    assert_eq!(chip.pc, 0x200);
}

#[test]
fn load_fills_memory_from_program_start() {
    let mut chip = init();
    let program = vec![7u8; 3584];
    chip.load(&program);
    assert_eq!(chip.M[0x200], 7);
    assert_eq!(chip.M[0xFFF], 7);
    assert_eq!(chip.M[0x1FF], 0);
}

#[test]
fn add_registers_without_carry_keeps_flag() {
    let mut chip = init();
    chip.V[0xf] = 1;
    chip.V[0] = 1;
    chip.V[1] = 2;
    chip.add_registers(0, 1);
    assert_eq!(chip.V[0], 3);
    // No carry: the flag register is left as it was, not cleared.
    assert_eq!(chip.V[0xf], 1);
}

#[test]
fn sub_sets_no_borrow_flag() {
    let mut chip = init();
    chip.V[0] = 7;
    chip.V[1] = 3;
    chip.sub(0, 1);
    assert_eq!(chip.V[0], 4);
    assert_eq!(chip.V[0xf], 1);
}

#[test]
fn sub_wraps_and_clears_flag_on_borrow() {
    let mut chip = init();
    chip.V[0] = 3;
    chip.V[1] = 7;
    chip.sub(0, 1);
    assert_eq!(chip.V[0], 252);
    assert_eq!(chip.V[0xf], 0);
}

#[test]
fn sub_reverse_subtracts_the_other_way() {
    let mut chip = init();
    chip.V[0] = 3;
    chip.V[1] = 7;
    chip.sub_reverse(0, 1);
    assert_eq!(chip.V[0], 4);
    assert_eq!(chip.V[0xf], 1);
}

#[test]
fn shift_right_reports_low_bit() {
    let mut chip = init();
    chip.V[0] = 0x05;
    chip.shift_right(0);
    assert_eq!(chip.V[0], 0x02);
    assert_eq!(chip.V[0xf], 1);
}

#[test]
fn shift_left_masks_bit_three() {
    let mut chip = init();
    chip.V[0] = 0x88;
    chip.shift_left(0);
    // The top bit is lost and the flag takes Vx & 0x8, not the top bit.
    assert_eq!(chip.V[0], 0x10);
    assert_eq!(chip.V[0xf], 0x8);
}

#[test]
fn call_then_return_restores_pc() {
    let mut chip = init();
    let pc = chip.pc;
    chip.call(0x400);
    chip.return_from_sub();
    assert_eq!(chip.pc, pc + 2);
    assert_eq!(chip.sp, 0);
    assert_eq!(chip.S[0], 0);
}

#[test]
fn draw_after_clear_reports_no_collision() {
    let mut chip = init();
    chip.display[0] = u64::MAX;
    chip.display[31] = u64::MAX;
    chip.clear_screen();
    chip.update_display(0, 0, 5);
    assert_eq!(chip.V[0xf], 0);
}

#[test]
fn drawing_twice_restores_blank_screen() {
    let mut chip = init();
    chip.update_display(0, 0, 5);
    chip.update_display(0, 0, 5);
    assert_eq!(chip.display, [0; 32]);
    assert_eq!(chip.V[0xf], 1);
}

#[test]
fn drawing_nothing_clears_flag() {
    let mut chip = init();
    chip.V[0xf] = 1;
    chip.update_display(0, 0, 0);
    assert_eq!(chip.V[0xf], 0);
}

#[test]
fn held_key_does_not_retrigger() {
    let mut chip = init();
    let mut keys = [false; 16];
    keys[3] = true;
    chip.wait_for_input(2);
    chip.update_input(keys);
    assert_eq!(chip.V[2], 3);
    assert_eq!(chip.wait, false);
    // The key is still held: handing the same snapshot back changes
    // nothing, and a new wait is not resolved by the held key.
    chip.wait_for_input(4);
    chip.update_input(keys);
    assert_eq!(chip.wait, true);
    assert_eq!(chip.V[4], 0);
}

#[test]
fn lowest_rising_edge_wins() {
    let mut chip = init();
    let mut keys = [false; 16];
    keys[5] = true;
    keys[9] = true;
    chip.wait_for_input(0);
    chip.update_input(keys);
    assert_eq!(chip.V[0], 5);
    assert_eq!(chip.wait, false);
}

#[test]
fn bcd_handles_extremes() {
    let mut chip = init();
    chip.I = 0x300;
    chip.V[0] = 0;
    chip.bcd(0);
    assert_eq!(&chip.M[0x300..0x303], &[0, 0, 0]);
    chip.V[1] = 255;
    chip.bcd(1);
    assert_eq!(&chip.M[0x300..0x303], &[2, 5, 5]);
}

#[test]
fn random_masks_the_drawn_byte() {
    let mut chip = init();
    chip.random(0, 0x0F);
    assert_eq!(chip.V[0] & 0xF0, 0);
}

#[test]
fn cycle_skips_unknown_opcode_but_ticks_timers() {
    let mut chip = init();
    chip.M[0x200] = 0x00;
    chip.M[0x201] = 0x01;
    chip.dt = 3;
    chip.st = 1;
    chip.cycle();
    // The unrecognised opcode neither executes nor advances the program
    // counter, but the timers still count down.
    assert_eq!(chip.pc, 0x200);
    assert_eq!(chip.dt, 2);
    assert_eq!(chip.st, 0);
}

#[test]
fn cycle_is_idle_while_waiting() {
    let mut chip = init();
    chip.load(&[0x60, 0x0A]);
    chip.wait = true;
    chip.store_input_at = 1;
    chip.dt = 5;
    chip.cycle();
    assert_eq!(chip.pc, 0x200);
    assert_eq!(chip.V[0], 0);
    // Timers freeze while the machine waits for a key.
    assert_eq!(chip.dt, 5);
}

#[test]
fn cycle_dispatches_display_and_font_opcodes() {
    // A whole little program through `cycle`: point I at the glyph for
    // digit 1 and draw it at (0, 0).
    let mut chip = init();
    chip.load(&[
        0x60, 0x01, // V0 = 1
        0xF0, 0x29, // I = glyph address for digit V0
        0x61, 0x00, // V1 = 0
        0xD1, 0x15, // draw 5 rows at (V1, V1)
    ]);
    chip.cycle();
    chip.cycle();
    chip.cycle();
    chip.cycle();
    assert_eq!(chip.I, 5);
    assert_eq!(chip.display[0] >> 56, 0x20);
    assert_eq!(chip.display[1] >> 56, 0x60);
    assert_eq!(chip.display[2] >> 56, 0x20);
    assert_eq!(chip.display[3] >> 56, 0x20);
    assert_eq!(chip.display[4] >> 56, 0x70);
    assert_eq!(chip.pc, 0x208);
}
