//! The machine-level behavior around the instruction table: program
//! loading, the fetch cycle, the failure modes, and the properties that the
//! library states as laws, each checked here on concrete values.

use crusty8::{Chip8, Chip8Error};

#[test]
fn decode_splits_nibbles() {
    assert_eq!((0xA, 0xB, 0xC, 0xD), Chip8::decode(0xABCD));
    assert_eq!((0x0, 0x0, 0x0, 0x0), Chip8::decode(0x0000));
    assert_eq!((0xF, 0xF, 0xF, 0xF), Chip8::decode(0xFFFF));
}

#[test]
fn init_memory_holds_font() {
    let m = Chip8::init_memory();
    assert_eq!(4096, m.len());
    // First glyph (0) and last glyph (F), byte for byte.
    assert_eq!(&[0xF0, 0x90, 0x90, 0x90, 0xF0], &m[0..5]);
    assert_eq!(&[0xF0, 0x80, 0xF0, 0x80, 0x80], &m[75..80]);
    for k in 80..4096 {
        assert_eq!(0, m[k]);
    }
}

#[test]
fn reset_restores_power_on_state() {
    let mut c = Chip8::new_with_state();
    c.set_reg(3, 0x77);
    c.set_index(0x345);
    c.set_mem(0x200, 0xAB);
    c.set_delay_timer(9);
    c.execute(0x2400).unwrap();
    c.reset();
    assert_eq!(0x200, c.pc());
    assert_eq!(0, c.index());
    assert_eq!(0, c.reg(3));
    assert_eq!(0, c.mem(0x200));
    assert_eq!(0, c.delay_timer());
    assert_eq!(0, c.sp());
    assert_eq!(0xF0, c.mem(0)); // the font is back
    // Idempotent: a second reset changes nothing.
    c.reset();
    assert_eq!(0x200, c.pc());
    assert_eq!(0xF0, c.mem(0));
}

#[test]
fn load_rom_places_image() {
    let mut c = Chip8::new_with_state();
    let rom = vec![0x60, 0x42, 0x12, 0x00];
    c.load_rom(&rom).unwrap();
    assert_eq!(0x60, c.mem(0x200));
    assert_eq!(0x42, c.mem(0x201));
    assert_eq!(0x12, c.mem(0x202));
    assert_eq!(0x00, c.mem(0x203));
    // Nothing below the load address moved.
    assert_eq!(0xF0, c.mem(0));
}

#[test]
fn load_rom_rejects_oversized_image() {
    let mut c = Chip8::new_with_state();
    let rom = vec![0xAB; 4096 - 0x200 + 1];
    assert_eq!(Err(Chip8Error::ProgramTooLarge), c.load_rom(&rom));
    // The rejected image left no trace.
    assert_eq!(0x00, c.mem(0x200));
    // The largest image that fits is accepted.
    let rom = vec![0xAB; 4096 - 0x200];
    assert_eq!(Ok(()), c.load_rom(&rom));
    assert_eq!(0xAB, c.mem(4095));
}

#[test]
fn tick_fetches_big_endian() {
    let mut c = Chip8::new_with_state();
    let rom = vec![0x61, 0x23];
    c.load_rom(&rom).unwrap();
    c.tick().unwrap();
    assert_eq!(0x23, c.reg(1));
    assert_eq!(0x202, c.pc());
}

#[test]
fn legacy_call_is_unsupported() {
    let mut c = Chip8::new_with_state();
    assert_eq!(
        Err(Chip8Error::UnsupportedInstruction { opcode: 0x0123, pc: 0x200 }),
        c.execute(0x0123)
    );
    // The failed step left the machine untouched.
    assert_eq!(0x200, c.pc());
}

#[test]
fn return_without_call_underflows() {
    let mut c = Chip8::new_with_state();
    assert_eq!(
        Err(Chip8Error::StackUnderflow { opcode: 0x00EE, pc: 0x200 }),
        c.execute(0x00EE)
    );
    assert_eq!(0x200, c.pc());
}

#[test]
fn seventeenth_call_overflows() {
    let mut c = Chip8::new_with_state();
    for _ in 0..16 {
        c.execute(0x2300).unwrap();
    }
    assert_eq!(16, c.sp());
    assert_eq!(
        Err(Chip8Error::StackOverflow { opcode: 0x2300, pc: 0x300 }),
        c.execute(0x2300)
    );
    assert_eq!(16, c.sp());
    assert_eq!(0x300, c.pc());
}

#[test]
fn unknown_opcodes_are_ignored() {
    let mut c = Chip8::new_with_state();
    c.execute(0x5121).unwrap(); // 5XY1 is not an instruction
    c.execute(0x80AB).unwrap(); // 8XYB is not an instruction
    c.execute(0xE000).unwrap(); // EX00 is not an instruction
    c.execute(0xF0FF).unwrap(); // FXFF is not an instruction
    assert_eq!(0x208, c.pc());
    assert_eq!(0, c.reg(0xA));
}

// Storing registers and loading them back with the same index and count
// restores the register file.
#[test]
fn store_load_round_trip() {
    let mut c = Chip8::new_with_state();
    for i in 0..16 {
        c.set_reg(i, (7 * i + 3) as u8);
    }
    c.set_index(0x400);
    c.execute(0xF755).unwrap(); // store V0..=V7
    c.set_index(0x400);
    c.execute(0xF765).unwrap(); // load V0..=V7
    for i in 0..16 {
        assert_eq!((7 * i + 3) as u8, c.reg(i));
    }
}

// The counter after a matching return lands on the instruction after the
// call, across an unrelated instruction in the subroutine.
#[test]
fn call_return_restores_counter() {
    let mut c = Chip8::new_with_state();
    c.execute(0x2600).unwrap(); // call 0x600 from 0x200
    assert_eq!(0x600, c.pc());
    c.execute(0x6A07).unwrap(); // an unrelated instruction inside
    c.execute(0x00EE).unwrap(); // return
    assert_eq!(0x202, c.pc());
    assert_eq!(0, c.sp());
}

// One step decays a freshly set delay timer by exactly one.
#[test]
fn timer_decays_once_per_step() {
    let mut c = Chip8::new_with_state();
    c.set_reg(0, 0xFF);
    c.execute(0xF015).unwrap(); // delay timer = 0xFF
    assert_eq!(0xFF, c.delay_timer());
    c.execute(0x6100).unwrap(); // an unrelated instruction
    assert_eq!(0xFE, c.delay_timer());
    // A zero timer stays at zero.
    c.set_delay_timer(0);
    c.execute(0x6100).unwrap();
    assert_eq!(0, c.delay_timer());
}

// With no key pressed, the wait-for-key instruction holds the counter in
// place step after step; the first pressed key releases it.
#[test]
fn key_wait_blocks_until_pressed() {
    let mut c = Chip8::new_with_state();
    for _ in 0..3 {
        c.execute(0xF50A).unwrap();
        assert_eq!(0x200, c.pc());
    }
    c.set_key(0x8, true);
    c.execute(0xF50A).unwrap();
    assert_eq!(0x202, c.pc());
    assert_eq!(0x8, c.reg(5));
}

// The skip instruction moves the counter by 4 exactly when the register
// matches the immediate.
#[test]
fn skip_advances_by_four_or_two() {
    let mut c = Chip8::new_with_state();
    c.set_reg(2, 0x11);
    c.execute(0x3211).unwrap();
    assert_eq!(0x204, c.pc());
    c.execute(0x3212).unwrap();
    assert_eq!(0x206, c.pc());
}

// The index overflow flag of FX1E, in the convention this interpreter
// documents: VF reports the 16-bit wraparound.
#[test]
fn index_add_sets_overflow_flag() {
    let mut c = Chip8::new_with_state();
    c.set_index(0xFFFF);
    c.set_reg(0, 2);
    c.execute(0xF01E).unwrap();
    assert_eq!(1, c.index());
    assert_eq!(1, c.reg(0xF));
    c.execute(0xF01E).unwrap();
    assert_eq!(3, c.index());
    assert_eq!(0, c.reg(0xF));
}

// A masked random byte never shows bits outside the mask.
#[test]
fn random_byte_is_masked() {
    let mut c = Chip8::new_with_state();
    for _ in 0..32 {
        c.execute(0xC00F).unwrap();
        assert_eq!(0, c.reg(0) & 0xF0);
    }
}

// A sprite drawn across the bottom-right corner wraps on both axes.
#[test]
fn draw_wraps_both_axes() {
    let mut c = Chip8::new_with_state();
    c.set_mem(0x300, 0x80); // one set bit, leftmost
    c.set_mem(0x301, 0x80);
    c.set_index(0x300);
    c.set_reg(0, 63);
    c.set_reg(1, 31);
    c.execute(0xD012).unwrap(); // two rows at (63, 31)
    assert_eq!(true, c.pixel(31 * 64 + 63));
    assert_eq!(true, c.pixel(0 * 64 + 63)); // second row wrapped to the top
    assert_eq!(0, c.reg(0xF));
}
