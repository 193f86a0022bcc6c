use chip8::cpu::Chip8;
use chip8::display::RES_WIDTH;
use chip8::font::FONT_SPRITES_MEM_ADDR;

#[test]
fn opcode_00e0_clear_display() {
    let mut emu = Chip8::new();
    emu.execute(0x00E0).unwrap();
    assert_eq!(emu.display.as_buffer(), [false; 2048]);
}

#[test]
fn opcode_00ee_return_from_subroutine() {
    let mut emu = Chip8::new();
    emu.stack.push(0xDD3);
    emu.execute(0x00EE).unwrap();
    assert_eq!(emu.pc, 0xDD3);
}

#[test]
fn opcode_1nnn_jump_to_nn() {
    let mut emu = Chip8::new();
    emu.execute(0x1AAF).unwrap();
    assert_eq!(emu.pc, 0xAAF);
}

#[test]
fn opcode_2nnn_call_subroutine_at_nn() {
    let mut emu = Chip8::new();
    let old_pc = emu.pc;
    emu.execute(0x2AAF).unwrap();
    assert_eq!(emu.pc, 0xAAF);
    assert_eq!(emu.stack[0], old_pc);
}

#[test]
fn opcode_3xnn_skip_next_op_if_vx_eq_nn() {
    let mut emu = Chip8::new();
    emu.pc = 0x230;
    emu.reg_v[1] = 0x3E;
    emu.execute(0x313E).unwrap();
    assert_eq!(emu.pc, 0x232);
}

#[test]
fn opcode_4xnn_skip_next_op_if_vx_ne_nn() {
    let mut emu = Chip8::new();
    emu.pc = 0x230;
    emu.reg_v[1] = 0x3E;
    emu.execute(0x4122).unwrap();
    assert_eq!(emu.pc, 0x232);
}

#[test]
fn opcode_5xnn_skip_next_op_if_vx_eq_vy() {
    let mut emu = Chip8::new();
    emu.pc = 0x230;
    emu.reg_v[0x1] = 0x3E;
    emu.reg_v[0xE] = 0x3E;
    emu.execute(0x51E0).unwrap();
    assert_eq!(emu.pc, 0x232);
}

#[test]
fn opcode_5xnn_not_skip_next_op_if_vx_ne_vy() {
    let mut emu = Chip8::new();
    emu.pc = 0x230;
    emu.reg_v[0x1] = 0x3E;
    emu.reg_v[0xE] = 0x1F;
    emu.execute(0x51E0).unwrap();
    assert_eq!(emu.pc, 0x230);
}

#[test]
fn opcode_4xnn_not_skip_next_op_if_vx_eq_nn() {
    let mut emu = Chip8::new();
    emu.pc = 0x230;
    emu.reg_v[1] = 0x3E;
    emu.execute(0x413E).unwrap();
    assert_eq!(emu.pc, 0x230);
}

#[test]
fn opcode_6xnn_set_vx_to_nn() {
    let mut emu = Chip8::new();
    emu.execute(0x602F).unwrap();
    assert_eq!(emu.reg_v[0], 0x2F);
}

#[test]
fn opcode_7xnn_add_nn_to_vx_without_overflow() {
    let mut emu = Chip8::new();
    emu.execute(0x702F).unwrap();
    assert_eq!(emu.reg_v[0], 0x2F);
    emu.execute(0x702F).unwrap();
    assert_eq!(emu.reg_v[0], 0x5E);
}

#[test]
fn opcode_7xnn_add_nn_to_vx_with_overflow() {
    let mut emu = Chip8::new();
    emu.execute(0x70F0).unwrap();
    assert_eq!(emu.reg_v[0], 0xF0);
    emu.execute(0x70F2).unwrap();
    assert_eq!(emu.reg_v[0], 0xE2);
}

#[test]
fn opcode_8xy0_set_vx_to_vy() {
    let mut emu = Chip8::new();
    emu.reg_v[0x3] = 0x4A;
    emu.reg_v[0x9] = 0x11;
    assert_ne!(emu.reg_v[0x3], emu.reg_v[9]);
    emu.execute(0x8390).unwrap();
    assert_eq!(emu.reg_v[0x3], emu.reg_v[0x9]);
}

#[test]
fn opcode_8xy1_set_vx_to_vx_or_vy() {
    let mut emu = Chip8::new();
    emu.reg_v[0x3] = 0x4A;
    emu.reg_v[0x9] = 0x11;
    emu.execute(0x8391).unwrap();
    assert_eq!(emu.reg_v[0x3], 0x5B);
}

#[test]
fn opcode_8xy2_set_vx_to_vx_and_vy() {
    let mut emu = Chip8::new();
    emu.reg_v[0x3] = 0x4A;
    emu.reg_v[0x9] = 0x11;
    emu.execute(0x8392).unwrap();
    assert_eq!(emu.reg_v[0x3], 0x00);
}

#[test]
fn opcode_8xy3_set_vx_to_vx_xor_vy() {
    let mut emu = Chip8::new();
    emu.reg_v[0x3] = 0x4A;
    emu.reg_v[0x9] = 0x11;
    emu.execute(0x8393).unwrap();
    assert_eq!(emu.reg_v[0x3], 0x5B);
}

#[test]
fn opcode_8xy4_add_vy_to_vx_without_carry() {
    let mut emu = Chip8::new();
    emu.reg_v[0x3] = 0x4A;
    emu.reg_v[0x9] = 0x11;
    emu.execute(0x8394).unwrap();
    assert_eq!(emu.reg_v[0x3], 0x5B);
    assert_eq!(emu.reg_v[0xF], 0x00);
}

#[test]
fn opcode_8xy4_add_vy_to_vx_with_carry() {
    let mut emu = Chip8::new();
    emu.reg_v[0x3] = 0x4A;
    emu.reg_v[0x9] = 0xFE;
    emu.execute(0x8394).unwrap();
    assert_eq!(emu.reg_v[0x3], 0x48);
    assert_eq!(emu.reg_v[0xF], 0x01);
}

#[test]
fn opcode_8xy5_sub_vy_from_vx_without_borrow() {
    let mut emu = Chip8::new();
    emu.reg_v[0x3] = 0x4A;
    emu.reg_v[0x9] = 0x11;
    emu.execute(0x8395).unwrap();
    assert_eq!(emu.reg_v[0x3], 0x39);
    assert_eq!(emu.reg_v[0xF], 0x01);
}

#[test]
fn opcode_8xy5_sub_vy_from_vx_with_borrow() {
    let mut emu = Chip8::new();
    emu.reg_v[0x3] = 0x4A;
    emu.reg_v[0x9] = 0x53;
    emu.execute(0x8395).unwrap();
    assert_eq!(emu.reg_v[0x3], 0xF7);
    assert_eq!(emu.reg_v[0xF], 0x00);
}

#[test]
fn opcode_8xy6_shift_vx_right() {
    let mut emu = Chip8::new();
    emu.reg_v[0x3] = 0x4A;
    emu.execute(0x8396).unwrap();
    assert_eq!(emu.reg_v[0x3], 0x25);
    assert_eq!(emu.reg_v[0xF], 0x00);
}

#[test]
fn opcode_8xy7_set_vx_as_vy_minus_vx_without_borrow() {
    let mut emu = Chip8::new();
    emu.reg_v[0x3] = 0x4A;
    emu.reg_v[0x9] = 0x53;
    emu.execute(0x8397).unwrap();
    assert_eq!(emu.reg_v[0x3], 0x09);
    assert_eq!(emu.reg_v[0xF], 0x01);
}

#[test]
fn opcode_8xy7_set_vx_as_vy_minus_vx_with_borrow() {
    let mut emu = Chip8::new();
    emu.reg_v[0x3] = 0x4A;
    emu.reg_v[0x9] = 0x22;
    emu.execute(0x8397).unwrap();
    assert_eq!(emu.reg_v[0x3], 0xD8);
    assert_eq!(emu.reg_v[0xF], 0x00);
}

#[test]
fn opcode_8xye_shift_vx_left() {
    let mut emu = Chip8::new();
    emu.reg_v[0x3] = 0x4A;
    emu.execute(0x839E).unwrap();
    assert_eq!(emu.reg_v[0x3], 0x94);
    assert_eq!(emu.reg_v[0xF], 0x00);
}

#[test]
fn opcode_9xnn_skip_next_op_if_vx_ne_vy() {
    let mut emu = Chip8::new();
    emu.pc = 0x230;
    emu.reg_v[0x1] = 0x3E;
    emu.reg_v[0xE] = 0x1F;
    emu.execute(0x91E0).unwrap();
    assert_eq!(emu.pc, 0x232);
}

#[test]
fn opcode_9xnn_not_skip_next_op_if_vx_eq_vy() {
    let mut emu = Chip8::new();
    emu.pc = 0x230;
    emu.reg_v[0x1] = 0x3E;
    emu.reg_v[0xE] = 0x3E;
    emu.execute(0x91E0).unwrap();
    assert_eq!(emu.pc, 0x230);
}

#[test]
fn opcode_annn_set_i_to_nn() {
    let mut emu = Chip8::new();
    emu.execute(0xAE12).unwrap();
    assert_eq!(emu.reg_i, 0xE12);
}

#[test]
fn opcode_bnnn_set_i_to_nn_plus_v0() {
    let mut emu = Chip8::new();
    emu.reg_v[0x0] = 0x3;
    emu.execute(0xBE12).unwrap();
    assert_eq!(emu.reg_i, 0xE15);
}

#[test]
fn opcode_ex9e_skip_next_if_key_vx_is_pressed() {
    let mut emu = Chip8::new();
    emu.pc = 0x206;
    emu.reg_v[0x7] = 0x4;
    emu.keyboard[0x4] = true;
    emu.execute(0xE79E).unwrap();
    assert_eq!(emu.pc, 0x208);
}

#[test]
fn opcode_ex9e_not_skip_next_if_key_vx_is_not_pressed() {
    let mut emu = Chip8::new();
    emu.pc = 0x206;
    emu.reg_v[0x7] = 0x4;
    emu.keyboard[0x4] = false;
    emu.execute(0xE79E).unwrap();
    assert_eq!(emu.pc, 0x206);
}

#[test]
fn opcode_exa1_not_skip_next_if_key_vx_is_pressed() {
    let mut emu = Chip8::new();
    emu.pc = 0x206;
    emu.reg_v[0x7] = 0x4;
    emu.keyboard[0x4] = true;
    emu.execute(0xE7A1).unwrap();
    assert_eq!(emu.pc, 0x206);
}

#[test]
fn opcode_exa1_skip_next_if_key_vx_is_not_pressed() {
    let mut emu = Chip8::new();
    emu.pc = 0x206;
    emu.reg_v[0x7] = 0x4;
    emu.keyboard[0x4] = false;
    emu.execute(0xE7A1).unwrap();
    assert_eq!(emu.pc, 0x208);
}

#[test]
fn opcode_dxyn_draw_sprite() {
    let mut emu = Chip8::new();
    emu.load_sprites();
    emu.execute(0xA000 + FONT_SPRITES_MEM_ADDR as u16).unwrap();
    emu.execute(0x6000).unwrap();
    emu.execute(0x6100).unwrap();
    emu.execute(0xD015).unwrap();
    assert_eq!(
        emu.display.as_buffer()[0..8],
        [true, true, true, true, false, false, false, false]
    );
    assert_eq!(
        emu.display.as_buffer()[0 + RES_WIDTH..8 + RES_WIDTH],
        [true, false, false, true, false, false, false, false]
    );
    assert_eq!(
        emu.display.as_buffer()[0 + RES_WIDTH * 2..8 + RES_WIDTH * 2],
        [true, false, false, true, false, false, false, false]
    );
    assert_eq!(
        emu.display.as_buffer()[0 + RES_WIDTH * 3..8 + RES_WIDTH * 3],
        [true, false, false, true, false, false, false, false]
    );
    assert_eq!(
        emu.display.as_buffer()[0 + RES_WIDTH * 4..8 + RES_WIDTH * 4],
        [true, true, true, true, false, false, false, false]
    );
}

#[test]
fn opcode_fx1e_add_vx_to_i() {
    let mut emu = Chip8::new();
    emu.reg_i = 0x342;
    emu.reg_v[0x5] = 0x4E;
    emu.execute(0xF51E).unwrap();
    assert_eq!(emu.reg_i, 0x390);
}

#[test]
fn opcode_fx07_set_vx_to_delay_timer() {
    let mut emu = Chip8::new();
    emu.delay_timer = 0x55;
    emu.execute(0xF607).unwrap();
    assert_eq!(emu.reg_v[0x6], 0x55);
}

#[test]
fn opcode_fx15_set_delay_timer_to_vx() {
    let mut emu = Chip8::new();
    emu.reg_v[0x6] = 0x55;
    emu.execute(0xF615).unwrap();
    assert_eq!(emu.delay_timer, 0x55);
}

#[test]
fn opcode_fx18_set_sound_timer_to_vx() {
    let mut emu = Chip8::new();
    emu.reg_v[0x6] = 0x55;
    emu.execute(0xF618).unwrap();
    assert_eq!(emu.sound_timer, 0x55);
}

#[test]
fn opcode_fx29_set_sprite_addr() {
    let mut emu = Chip8::new();
    emu.reg_v[0x3] = 0x3;
    emu.execute(0xF329).unwrap();
    assert_eq!(emu.reg_i, 0xF);
}

#[test]
fn opcode_fx33_store_bcd() {
    let mut emu = Chip8::new();
    emu.reg_i = 0x342;
    emu.reg_v[0x5] = 0x4E;
    emu.execute(0xF533).unwrap();
    assert_eq!(emu.ram[0x342], 0x00);
    assert_eq!(emu.ram[0x343], 0x07);
    assert_eq!(emu.ram[0x344], 0x08);
}

#[test]
fn opcode_fx55_reg_dump_from_v0_to_vx() {
    let mut emu = Chip8::new();
    emu.reg_v[0x0] = 0x11;
    emu.reg_v[0x1] = 0x22;
    emu.reg_v[0x2] = 0x33;
    emu.reg_i = 0x22A;
    assert_eq!(emu.ram[0x22A], 0x00);
    assert_eq!(emu.ram[0x22B], 0x00);
    assert_eq!(emu.ram[0x22C], 0x00);
    emu.execute(0xF255).unwrap();
    assert_eq!(emu.ram[0x22A], 0x11);
    assert_eq!(emu.ram[0x22B], 0x22);
    assert_eq!(emu.ram[0x22C], 0x33);
}

#[test]
fn opcode_fx65_reg_load_from_v0_to_vx() {
    let mut emu = Chip8::new();
    emu.ram[0x22A] = 0x11;
    emu.ram[0x22B] = 0x22;
    emu.ram[0x22C] = 0x33;
    emu.reg_i = 0x22A;
    assert_eq!(emu.reg_v[0x0], 0x00);
    assert_eq!(emu.reg_v[0x1], 0x00);
    assert_eq!(emu.reg_v[0x2], 0x00);
    emu.execute(0xF265).unwrap();
    assert_eq!(emu.reg_v[0x0], 0x11);
    assert_eq!(emu.reg_v[0x1], 0x22);
    assert_eq!(emu.reg_v[0x2], 0x33);
}
