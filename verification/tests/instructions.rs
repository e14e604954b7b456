//! The per-instruction behavior of the interpreter, exercised through the
//! public machine interface.

use crusty8::Chip8;

#[test]
fn init() {
    let c = Chip8::new_with_state();

    assert_eq!(0x200, c.pc());
    assert_eq!(4096, c.memory_len());
}

#[test]
fn instruction_00e0() {
    let mut c = Chip8::new_with_state();

    c.execute(0x00E0).unwrap();
    for i in 0..64 * 32 {
        assert_eq!(false, c.pixel(i));
    }
}

#[test]
fn instruction_00ee() {
    let mut c = Chip8::new_with_state();

    assert_eq!(0x200, c.pc());
    // Execute subroutine
    c.execute(0x2123).unwrap();
    assert_eq!(1, c.sp());
    assert_eq!(0x123, c.pc());
    // Execute second subroutine
    c.execute(0x2000).unwrap();
    assert_eq!(2, c.sp());
    // Return from subroutine
    c.execute(0x00EE).unwrap();
    assert_eq!(1, c.sp());
    assert_eq!(0x125, c.pc());
    // Return from subroutine
    c.execute(0x00EE).unwrap();
    assert_eq!(0, c.sp());
    assert_eq!(0x202, c.pc())
}

#[test]
fn instruction_1nnn() {
    let mut c = Chip8::new_with_state();

    c.execute(0x1123).unwrap();
    assert_eq!(0x123, c.pc());
}

#[test]
fn instruction_3xnn() {
    let mut c = Chip8::new_with_state();

    c.set_reg(0x3, 0x33);
    c.execute(0x3333).unwrap();
    assert_eq!(0x204, c.pc());
}

#[test]
fn instruction_4xnn() {
    let mut c = Chip8::new_with_state();

    c.set_reg(0x3, 0x33);
    c.execute(0x4333).unwrap();
    assert_eq!(0x202, c.pc());
}

#[test]
fn instruction_5xy0() {
    let mut c = Chip8::new_with_state();

    c.set_reg(0x3, 0x33);
    c.set_reg(0x4, 0x33);
    c.execute(0x4330).unwrap();
    assert_eq!(0x204, c.pc());
}

#[test]
fn instruction_6xnn() {
    let mut c = Chip8::new_with_state();

    c.execute(0x6123).unwrap();
    assert_eq!(0x23, c.reg(1));
}

#[test]
fn instruction_7xnn() {
    let mut c = Chip8::new_with_state();

    c.set_reg(1, 0x23);
    c.execute(0x7123).unwrap();
    assert_eq!(0x23 + 0x23, c.reg(1));
}

#[test]
fn instruction_8xy0() {
    let mut c = Chip8::new_with_state();

    c.set_reg(1, 0x23);
    assert_eq!(0x0, c.reg(0));
    c.execute(0x8010).unwrap();
    assert_eq!(0x23, c.reg(0));
}

#[test]
fn instruction_8xy1() {
    let mut c = Chip8::new_with_state();

    c.set_reg(1, 0x0F);
    c.set_reg(0, 0xF0);
    c.execute(0x8011).unwrap();
    assert_eq!(0xFF, c.reg(0));
}

#[test]
fn instruction_8xy2() {
    let mut c = Chip8::new_with_state();

    c.set_reg(1, 0x0F);
    c.set_reg(0, 0xF0);
    c.execute(0x8012).unwrap();
    assert_eq!(0x00, c.reg(0));
}

#[test]
fn instruction_8xy3() {
    let mut c = Chip8::new_with_state();

    c.set_reg(1, 0x0F);
    c.set_reg(0, 0xF0);
    c.execute(0x8013).unwrap();
    assert_eq!(0xFF, c.reg(0));
}

#[test]
fn instruction_8xy4() {
    let mut c = Chip8::new_with_state();

    c.set_reg(0, 0xFF);
    c.set_reg(1, 0x02);
    c.execute(0x8014).unwrap();
    assert_eq!(0x01, c.reg(0));
    assert_eq!(0x01, c.reg(0xF)); // Carry
    c.execute(0x8014).unwrap();
    assert_eq!(0x03, c.reg(0));
    assert_eq!(0x00, c.reg(0xF)); // Carry
}

#[test]
fn instruction_8xy5() {
    let mut c = Chip8::new_with_state();

    c.set_reg(0, 0x01);
    c.set_reg(1, 0x02);
    c.execute(0x8015).unwrap();
    assert_eq!(0xFF, c.reg(0));
    assert_eq!(0x00, c.reg(0xF)); // Carry
    c.execute(0x8015).unwrap();
    assert_eq!(0xFD, c.reg(0));
    assert_eq!(0x01, c.reg(0xF)); // No carry
}

#[test]
fn instruction_8xy6() {
    let mut c = Chip8::new_with_state();

    c.set_reg(1, 0xFF);
    c.execute(0x8016).unwrap();
    assert_eq!(127, c.reg(0));
    assert_eq!(255, c.reg(1));
    assert_eq!(0x00, c.reg(0xF));

    c.set_reg(0, 0x03);
    c.set_reg(1, 0x02);
    c.execute(0x8016).unwrap();
    assert_eq!(0x01, c.reg(0));
    assert_eq!(0x01, c.reg(0xF));
}

#[test]
fn instruction_8xy7() {
    let mut c = Chip8::new_with_state();

    c.set_reg(0, 0x01);
    c.set_reg(1, 0x00);

    c.execute(0x8017).unwrap();
    assert_eq!(0xFF, c.reg(0));
    assert_eq!(0x00, c.reg(0xF));

    c.set_reg(0, 0x01);
    c.set_reg(1, 0x02);
    c.execute(0x8017).unwrap();
    assert_eq!(0x01, c.reg(0));
    assert_eq!(0x01, c.reg(0xF));
}

#[test]
fn instruction_8xye() {
    let mut c = Chip8::new_with_state();

    c.set_reg(0, 255);
    c.set_reg(1, 64);
    c.execute(0x801E).unwrap();
    assert_eq!(128, c.reg(0));
    assert_eq!(0x01, c.reg(0xF));
}

#[test]
fn instruction_9xy0() {
    let mut c = Chip8::new_with_state();

    c.set_reg(0, 0xFF);
    c.set_reg(1, 0xFF);
    c.execute(0x9010).unwrap();
    assert_eq!(0x202, c.pc());

    c.set_reg(1, 0xFE);
    c.execute(0x9010).unwrap();
    assert_eq!(0x206, c.pc());
}

#[test]
fn instruction_annn() {
    let mut c = Chip8::new_with_state();

    assert_eq!(0x000, c.index());
    c.execute(0xafff).unwrap();
    assert_eq!(0xfff, c.index());
}

#[test]
fn instruction_bnnn() {
    let mut c = Chip8::new_with_state();
    c.set_reg(0, 0x0E);
    c.execute(0xb000).unwrap();
    assert_eq!(0x00E, c.pc());
}

#[test]
fn instruction_cxyn() {
    let mut c = Chip8::new_with_state();

    c.execute(0xc000).unwrap(); // Should always produce zero.
    assert_eq!(0x00, c.reg(0));

    c.execute(0xc0FF).unwrap();
    let valid_range = 0..255;
    assert!(valid_range.contains(&c.reg(0)));
}

// DXYN: draw a sprite at position VX, VY with N bytes of sprite data
// starting at the address stored in I; VF is set to 01 if any set pixels
// are changed to unset, and 00 otherwise.
#[test]
fn instruction_dxyn() {
    let mut c = Chip8::new_with_state();

    // A one-byte sprite with all eight bits set, drawn at (60, 31): the
    // row wraps around the right edge of the display.
    c.set_mem(0x300, 0xFF);
    c.set_index(0x300);
    c.set_reg(0, 60);
    c.set_reg(1, 31);
    c.execute(0xD011).unwrap();
    assert_eq!(0x00, c.reg(0xF));
    assert!(c.should_draw());
    for col in 0..8 {
        let x = (60 + col) % 64;
        assert_eq!(true, c.pixel(31 * 64 + x));
    }
    // Drawing the same sprite again toggles every cell back off and
    // reports the collision.
    c.execute(0xD011).unwrap();
    assert_eq!(0x01, c.reg(0xF));
    for i in 0..64 * 32 {
        assert_eq!(false, c.pixel(i));
    }
}

#[test]
fn instruction_ex9e() {
    let mut c = Chip8::new_with_state();

    c.set_key(0, true);
    c.execute(0xE09E).unwrap();
    assert_eq!(0x204, c.pc()); // Jump
    c.set_key(0, false);
    c.execute(0xE09E).unwrap();
    assert_eq!(0x206, c.pc()); // No jump
}

#[test]
fn instruction_exa1() {
    let mut c = Chip8::new_with_state();

    c.set_key(0, true);
    c.execute(0xE0A1).unwrap();
    assert_eq!(0x202, c.pc()); // No jump
    c.set_key(0, false);
    c.execute(0xE0A1).unwrap();
    assert_eq!(0x206, c.pc()); // Jump
}

#[test]
fn instruction_fx07() {
    let mut c = Chip8::new_with_state();

    c.set_delay_timer(0xFF);
    c.execute(0xF007).unwrap();
    assert_eq!(0xFF - 1, c.reg(0)); // Already ticked once
}

// FX0A: wait for a keypress and store the result in register VX.
#[test]
fn instruction_fx0a() {
    let mut c = Chip8::new_with_state();
    c.set_key(0xF, true);
    c.execute(0xF30A).unwrap();
    assert_eq!(0xF, c.reg(0x3));
}

#[test]
fn instruction_fx15() {
    let mut c = Chip8::new_with_state();

    c.set_reg(0, 0xFF);

    c.execute(0xf015).unwrap();

    assert_eq!(0xFF, c.delay_timer());
}

#[test]
fn instruction_fx18() {
    let mut c = Chip8::new_with_state();

    c.set_reg(0, 0xFF);

    c.execute(0xf018).unwrap();

    assert_eq!(0xFF, c.sound_timer());
}

#[test]
fn instruction_fx1e() {
    let mut c = Chip8::new_with_state();

    c.set_reg(0, 15);
    c.set_index(15);

    c.execute(0xf01e).unwrap();

    assert_eq!(30, c.index());
}

#[test]
fn instruction_fx29() {
    let mut c = Chip8::new_with_state();

    c.set_reg(0, 0xF);
    c.execute(0xf029).unwrap();

    assert_eq!(0xF * 5, c.index());
}

#[test]
fn instruction_fx33() {
    let mut c = Chip8::new_with_state();

    c.set_reg(0, 0xFF);
    c.execute(0xf033).unwrap();

    let index = c.index() as usize;
    assert_eq!(2, c.mem(index));
    assert_eq!(5, c.mem(index + 1));
    assert_eq!(5, c.mem(index + 2));
}

#[test]
fn instruction_fx55() {
    let mut c = Chip8::new_with_state();

    let base_address = 0x200;
    c.set_index(base_address);

    for i in 0..=0xF {
        c.set_reg(i, 0xEE);
    }

    c.execute(0xfF55).unwrap();

    for i in 0..=0xF {
        assert_eq!(0xEE, c.mem((base_address + i) as usize));
    }

    assert_eq!(base_address + 0xF + 1, c.index());
}

#[test]
fn instruction_fx65() {
    let mut c = Chip8::new_with_state();

    let base_address = 0x200;
    c.set_index(base_address);

    for i in 0..=0xF {
        c.set_mem((base_address + i) as usize, 0xFF);
    }

    c.execute(0xfF65).unwrap();

    for i in 0..=0xF {
        assert_eq!(0xFF, c.reg(i));
    }

    assert_eq!(base_address + 0xF + 1, c.index());
}
