//! The machine state: registers, memory, call stack, timers, display and
//! keypad, together with its mathematical model `Chip8View`.

use vstd::prelude::*;

verus! {

/// Width of the display in cells.
pub const WIDTH: usize = 64;

/// Height of the display in cells.
pub const HEIGHT: usize = 32;

/// Mathematical model of the whole machine state.
#[verifier::ext_equal]
pub ghost struct Chip8View {
    /// Program counter: byte address of the next instruction.
    pub pc: u16,
    /// Index register: general-purpose 16-bit address pointer.
    pub i: u16,
    /// The sixteen general-purpose registers `V0..VF`.
    pub v: Seq<u8>,
    /// The 4096 bytes of memory.
    pub memory: Seq<u8>,
    /// The return-address stack, 16 slots.
    pub stack: Seq<u16>,
    /// Stack pointer: number of frames in use.
    pub sp: nat,
    /// Delay timer, decremented once per step while nonzero.
    pub dt: u8,
    /// Sound timer, decremented once per step while nonzero.
    pub st: u8,
    /// Pressed/released state of the 16 keys.
    pub keys: Seq<bool>,
    /// Lit/unlit state of the 64x32 display cells, row-major.
    pub framebuffer: Seq<bool>,
    /// Whether the last executed instruction changed the display.
    pub should_draw: bool,
}

impl Chip8View {
    /// Well-formedness: every component has its fixed size and the stack
    /// pointer stays within the stack's capacity.
    pub open spec fn wf(self) -> bool {
        &&& self.v.len() == 16
        &&& self.memory.len() == 4096
        &&& self.stack.len() == 16
        &&& self.keys.len() == 16
        &&& self.framebuffer.len() == 2048
        &&& self.sp <= 16
    }
}

/// The 80-byte font table: 16 glyphs of 5 bytes each, seeded at address 0.
pub open spec fn spec_font() -> Seq<u8> {
    seq![
        0xF0u8, 0x90, 0x90, 0x90, 0xF0, // 0
        0x20, 0x60, 0x20, 0x20, 0x70, // 1
        0xF0, 0x10, 0xF0, 0x80, 0xF0, // 2
        0xF0, 0x10, 0xF0, 0x10, 0xF0, // 3
        0x90, 0x90, 0xF0, 0x10, 0x10, // 4
        0xF0, 0x80, 0xF0, 0x10, 0xF0, // 5
        0xF0, 0x80, 0xF0, 0x90, 0xF0, // 6
        0xF0, 0x10, 0x20, 0x40, 0x40, // 7
        0xF0, 0x90, 0xF0, 0x90, 0xF0, // 8
        0xF0, 0x90, 0xF0, 0x10, 0xF0, // 9
        0xF0, 0x90, 0xF0, 0x90, 0x90, // A
        0xE0, 0x90, 0xE0, 0x90, 0xE0, // B
        0xF0, 0x80, 0x80, 0x80, 0xF0, // C
        0xE0, 0x90, 0x90, 0x90, 0xE0, // D
        0xF0, 0x80, 0xF0, 0x80, 0xF0, // E
        0xF0, 0x80, 0xF0, 0x80, 0x80, // F
    ]
}

/// Memory as it stands at power-on: the font table at address 0, zero
/// everywhere else.
pub open spec fn initial_memory() -> Seq<u8> {
    Seq::new(4096, |a: int| if a < 80 { spec_font()[a] } else { 0u8 })
}

/// The machine state at power-on: cleared registers, stack, timers, keys and
/// display, the font seeded into memory, and the program counter at `0x200`.
pub open spec fn initial_state() -> Chip8View {
    Chip8View {
        pc: 0x200,
        i: 0,
        v: Seq::new(16, |k: int| 0u8),
        memory: initial_memory(),
        stack: Seq::new(16, |k: int| 0u16),
        sp: 0,
        dt: 0,
        st: 0,
        keys: Seq::new(16, |k: int| false),
        framebuffer: Seq::new(2048, |k: int| false),
        should_draw: false,
    }
}

/// Memory after a program image is copied in at `0x200`: the image covers
/// `0x200..0x200+len`, everything else keeps its contents.
pub open spec fn loaded_memory(mem: Seq<u8>, rom: Seq<u8>) -> Seq<u8> {
    Seq::new(
        4096,
        |a: int|
            if 0x200 <= a < 0x200 + rom.len() {
                rom[a - 0x200]
            } else {
                mem[a]
            },
    )
}

/// The errors a run can end with.
#[derive(Clone, Copy, Debug, PartialEq, Eq, Structural)]
pub enum Chip8Error {
    /// The program image does not fit in memory above `0x200`.
    ProgramTooLarge,
    /// The legacy machine-subroutine opcode family, which has no semantics
    /// here. Carries the opcode and the counter it was fetched at.
    UnsupportedInstruction { opcode: u16, pc: u16 },
    /// A call was executed with all 16 stack slots in use.
    StackOverflow { opcode: u16, pc: u16 },
    /// A return was executed with no frame on the stack.
    StackUnderflow { opcode: u16, pc: u16 },
}

} // verus!
