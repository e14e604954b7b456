//! The instruction semantics as a pure function on the machine model: one
//! fetch-decode-execute step is `spec_step`, the whole instruction table
//! written out over `Chip8View`.

use vstd::prelude::*;
use crate::decode::{op_a, op_n, op_nn, op_nnn, op_x, op_y};
use crate::state::{Chip8Error, Chip8View};

verus! {

/// The two bytes at the program counter combined as a big-endian opcode.
pub open spec fn spec_fetch(s: Chip8View) -> u16 {
    (s.memory[s.pc as int] * 256 + s.memory[s.pc + 1]) as u16
}

/// 8-bit addition with wraparound.
pub open spec fn wrap_add8(a: u8, b: u8) -> u8 {
    ((a + b) % 256) as u8
}

/// 8-bit subtraction with wraparound.
pub open spec fn wrap_sub8(a: u8, b: u8) -> u8 {
    if a >= b {
        (a - b) as u8
    } else {
        (a - b + 256) as u8
    }
}

/// The state every step reaches before dispatch: the program counter
/// pre-advanced past the fetched instruction, both timers decayed by one if
/// nonzero, and the draw flag cleared.
pub open spec fn ticked(s: Chip8View) -> Chip8View {
    Chip8View {
        pc: (s.pc + 2) as u16,
        dt: if s.dt > 0 { (s.dt - 1) as u8 } else { 0u8 },
        st: if s.st > 0 { (s.st - 1) as u8 } else { 0u8 },
        should_draw: false,
        ..s
    }
}

/// A skip: the program counter advanced one further instruction.
pub open spec fn skipped(t: Chip8View) -> Chip8View {
    Chip8View { pc: (t.pc + 2) as u16, ..t }
}

/// Whether bit `j` (most significant first) of a sprite byte is set.
pub open spec fn sprite_bit(b: u8, j: int) -> bool {
    (b >> ((7 - j) as u8)) & 1 == 1
}

/// The display cell toggled by bit `j` of sprite row `r` drawn at `(vx, vy)`:
/// coordinates wrap around the 64x32 grid, row-major indexing.
pub open spec fn cell_index(vx: u8, vy: u8, r: int, j: int) -> int {
    ((vy + r) % 32) * 64 + ((vx + j) % 64)
}

/// Whether the first `rows` rows of the sprite at `mem[i..]`, drawn at
/// `(vx, vy)`, toggle the display cell `idx`.
pub open spec fn draw_hits_cell(mem: Seq<u8>, i: u16, vx: u8, vy: u8, rows: int, idx: int) -> bool {
    exists|r: int, j: int|
        0 <= r < rows && 0 <= j < 8 && sprite_bit(mem[i + r], j) && #[trigger] cell_index(
            vx,
            vy,
            r,
            j,
        ) == idx
}

/// The display after the draw: every cell the sprite hits is toggled, every
/// other cell keeps its state.
pub open spec fn spec_draw_fb(
    fb: Seq<bool>,
    mem: Seq<u8>,
    i: u16,
    vx: u8,
    vy: u8,
    n: u8,
) -> Seq<bool> {
    Seq::new(
        2048,
        |idx: int|
            if draw_hits_cell(mem, i, vx, vy, n as int, idx) {
                !fb[idx]
            } else {
                fb[idx]
            },
    )
}

/// Whether a set bit of the first `rows` sprite rows lands on a cell that is
/// lit in `fb`.
pub open spec fn draw_lit_cell(
    fb: Seq<bool>,
    mem: Seq<u8>,
    i: u16,
    vx: u8,
    vy: u8,
    rows: int,
) -> bool {
    exists|r: int, j: int|
        0 <= r < rows && 0 <= j < 8 && sprite_bit(mem[i + r], j) && fb[#[trigger] cell_index(
            vx,
            vy,
            r,
            j,
        )]
}

/// Whether the draw turns some lit cell off: a set sprite bit lands on a cell
/// that was already lit.
pub open spec fn spec_draw_collision(
    fb: Seq<bool>,
    mem: Seq<u8>,
    i: u16,
    vx: u8,
    vy: u8,
    n: u8,
) -> bool {
    draw_lit_cell(fb, mem, i, vx, vy, n as int)
}

/// Memory after registers `V0..=Vx` are stored at addresses `i..=i+x`.
pub open spec fn store_regs(mem: Seq<u8>, i: u16, v: Seq<u8>, x: u8) -> Seq<u8> {
    Seq::new(
        4096,
        |a: int|
            if i <= a <= i + x {
                v[a - i]
            } else {
                mem[a]
            },
    )
}

/// Registers after `V0..=Vx` are loaded from addresses `i..=i+x`; the higher
/// registers keep their values.
pub open spec fn load_regs(v: Seq<u8>, mem: Seq<u8>, i: u16, x: u8) -> Seq<u8> {
    Seq::new(
        16,
        |r: int|
            if r <= x {
                mem[i + r]
            } else {
                v[r]
            },
    )
}

/// The lowest pressed key at or above index `k`, if any.
pub open spec fn first_pressed_from(keys: Seq<bool>, k: int) -> Option<u8>
    decreases 16 - k,
{
    if k < 0 || k >= 16 {
        None
    } else if keys[k] {
        Some(k as u8)
    } else {
        first_pressed_from(keys, k + 1)
    }
}

/// The lowest pressed key, if any key is pressed.
pub open spec fn first_pressed(keys: Seq<bool>) -> Option<u8> {
    first_pressed_from(keys, 0)
}

/// Whether the step on `op` takes a skip: the conditional-skip instructions,
/// on the operands that satisfy their condition.
pub open spec fn skip_taken(s: Chip8View, op: u16) -> bool {
    let a = op_a(op);
    let d = op_n(op);
    let nn = op_nn(op);
    let vx = s.v[op_x(op) as int];
    let vy = s.v[op_y(op) as int];
    ||| (a == 0x3 && vx == nn)
    ||| (a == 0x4 && vx != nn)
    ||| (a == 0x5 && d == 0x0 && vx == vy)
    ||| (a == 0x9 && d == 0x0 && vx != vy)
    ||| (a == 0xE && op_y(op) == 0x9 && d == 0xE && s.keys[vx as int])
    ||| (a == 0xE && op_y(op) == 0xA && d == 0x1 && !s.keys[vx as int])
}

/// The inputs a step is defined on: the machine limits the instruction table
/// leans on. The program counter must have room to advance (and to skip,
/// where the skip is taken), a key skip must name one of the 16 keys, and the
/// memory ranges read or written by draw, decimal store and the register
/// block transfers must lie inside the 4096 bytes.
pub open spec fn step_req(s: Chip8View, op: u16) -> bool {
    let a = op_a(op);
    let x = op_x(op);
    let c = op_y(op);
    let d = op_n(op);
    let vx = s.v[x as int];
    &&& s.pc + 2 <= 0xFFFF
    &&& (skip_taken(s, op) ==> s.pc + 4 <= 0xFFFF)
    &&& (a == 0xE && ((c == 0x9 && d == 0xE) || (c == 0xA && d == 0x1)) ==> vx < 16)
    &&& (a == 0xD ==> s.i + d <= 4096)
    &&& (a == 0xF && c == 0x3 && d == 0x3 ==> s.i + 2 < 4096)
    &&& (a == 0xF && c == 0x5 && d == 0x5 ==> s.i + x < 4096)
    &&& (a == 0xF && c == 0x6 && d == 0x5 ==> s.i + x < 4096)
}

/// One fetch-decode-execute step on the model, the opcode already fetched:
/// the instruction table of the machine. `rnd` is the byte the random source
/// produced for this step; only the random-number instruction reads it.
///
/// The meaning below is stated for states and opcodes that satisfy
/// `s.wf() && step_req(s, op)`.
pub open spec fn spec_step(s: Chip8View, op: u16, rnd: u8) -> Result<Chip8View, Chip8Error> {
    let a = op_a(op);
    let x = op_x(op) as int;
    let y = op_y(op) as int;
    let c = op_y(op);
    let d = op_n(op);
    let n = op_n(op);
    let nn = op_nn(op);
    let nnn = op_nnn(op);
    let vx = s.v[x];
    let vy = s.v[y];
    let t = ticked(s);
    if a == 0x0 {
        if op == 0x00E0 {
            // 00E0: clear every display cell.
            Ok(
                Chip8View {
                    framebuffer: Seq::new(2048, |k: int| false),
                    should_draw: true,
                    ..t
                },
            )
        } else if op == 0x00EE {
            // 00EE: return from a subroutine by popping the stored counter.
            if s.sp == 0 {
                Err(Chip8Error::StackUnderflow { opcode: op, pc: s.pc })
            } else {
                Ok(Chip8View { pc: s.stack[s.sp - 1], sp: (s.sp - 1) as nat, ..t })
            }
        } else {
            // 0NNN: legacy machine subroutine, unsupported.
            Err(Chip8Error::UnsupportedInstruction { opcode: op, pc: s.pc })
        }
    } else if a == 0x1 {
        // 1NNN: jump.
        Ok(Chip8View { pc: nnn, ..t })
    } else if a == 0x2 {
        // 2NNN: call; the pre-advanced counter is the return address.
        if s.sp >= 16 {
            Err(Chip8Error::StackOverflow { opcode: op, pc: s.pc })
        } else {
            Ok(
                Chip8View {
                    stack: s.stack.update(s.sp as int, t.pc),
                    sp: (s.sp + 1) as nat,
                    pc: nnn,
                    ..t
                },
            )
        }
    } else if a == 0x3 {
        // 3XNN: skip if VX == NN.
        Ok(if vx == nn { skipped(t) } else { t })
    } else if a == 0x4 {
        // 4XNN: skip if VX != NN.
        Ok(if vx != nn { skipped(t) } else { t })
    } else if a == 0x5 && d == 0x0 {
        // 5XY0: skip if VX == VY.
        Ok(if vx == vy { skipped(t) } else { t })
    } else if a == 0x6 {
        // 6XNN: VX = NN.
        Ok(Chip8View { v: s.v.update(x, nn), ..t })
    } else if a == 0x7 {
        // 7XNN: VX += NN with wraparound, no flag.
        Ok(Chip8View { v: s.v.update(x, wrap_add8(vx, nn)), ..t })
    } else if a == 0x8 && d == 0x0 {
        // 8XY0: VX = VY.
        Ok(Chip8View { v: s.v.update(x, vy), ..t })
    } else if a == 0x8 && d == 0x1 {
        // 8XY1: VX |= VY.
        Ok(Chip8View { v: s.v.update(x, vx | vy), ..t })
    } else if a == 0x8 && d == 0x2 {
        // 8XY2: VX &= VY.
        Ok(Chip8View { v: s.v.update(x, vx & vy), ..t })
    } else if a == 0x8 && d == 0x3 {
        // 8XY3: VX ^= VY.
        Ok(Chip8View { v: s.v.update(x, vx ^ vy), ..t })
    } else if a == 0x8 && d == 0x4 {
        // 8XY4: VX += VY; VF = 1 on carry, else 0.
        Ok(
            Chip8View {
                v: s.v.update(x, wrap_add8(vx, vy)).update(
                    15,
                    if vx + vy > 255 { 1u8 } else { 0u8 },
                ),
                ..t
            },
        )
    } else if a == 0x8 && d == 0x5 {
        // 8XY5: VX -= VY; VF = 0 on borrow, 1 otherwise.
        Ok(
            Chip8View {
                v: s.v.update(x, wrap_sub8(vx, vy)).update(15, if vy > vx { 0u8 } else { 1u8 }),
                ..t
            },
        )
    } else if a == 0x8 && d == 0x6 {
        // 8XY6: VX = VY >> 1; VF = lowest bit of VX before the shift.
        Ok(Chip8View { v: s.v.update(x, (vy / 2) as u8).update(15, (vx % 2) as u8), ..t })
    } else if a == 0x8 && d == 0x7 {
        // 8XY7: VX = VY - VX; VF = 0 on borrow, 1 otherwise.
        Ok(
            Chip8View {
                v: s.v.update(x, wrap_sub8(vy, vx)).update(15, if vx > vy { 0u8 } else { 1u8 }),
                ..t
            },
        )
    } else if a == 0x8 && d == 0xE {
        // 8XYE: VX = VY << 1 with wraparound; VF = highest bit of VX before.
        Ok(
            Chip8View {
                v: s.v.update(x, ((vy * 2) % 256) as u8).update(15, (vx / 128) as u8),
                ..t
            },
        )
    } else if a == 0x9 && d == 0x0 {
        // 9XY0: skip if VX != VY.
        Ok(if vx != vy { skipped(t) } else { t })
    } else if a == 0xA {
        // ANNN: I = NNN.
        Ok(Chip8View { i: nnn, ..t })
    } else if a == 0xB {
        // BNNN: jump to NNN + V0.
        Ok(Chip8View { pc: (nnn + s.v[0]) as u16, ..t })
    } else if a == 0xC {
        // CXNN: VX = random byte AND NN.
        Ok(Chip8View { v: s.v.update(x, rnd & nn), ..t })
    } else if a == 0xD {
        // DXYN: draw the n-row sprite at memory[I..I+n] at (VX, VY); every
        // hit cell toggles; VF = 1 when a lit cell went out, else 0.
        Ok(
            Chip8View {
                framebuffer: spec_draw_fb(s.framebuffer, s.memory, s.i, vx, vy, n),
                v: s.v.update(
                    15,
                    if spec_draw_collision(s.framebuffer, s.memory, s.i, vx, vy, n) {
                        1u8
                    } else {
                        0u8
                    },
                ),
                should_draw: true,
                ..t
            },
        )
    } else if a == 0xE && c == 0x9 && d == 0xE {
        // EX9E: skip if the key numbered by VX is pressed.
        Ok(if s.keys[vx as int] { skipped(t) } else { t })
    } else if a == 0xE && c == 0xA && d == 0x1 {
        // EXA1: skip if the key numbered by VX is released.
        Ok(if !s.keys[vx as int] { skipped(t) } else { t })
    } else if a == 0xF && c == 0x0 && d == 0x7 {
        // FX07: VX = delay timer (after this step's decay).
        Ok(Chip8View { v: s.v.update(x, t.dt), ..t })
    } else if a == 0xF && c == 0x0 && d == 0xA {
        // FX0A: wait for a key; the counter stays on this instruction until
        // some key is pressed, then the lowest pressed key lands in VX.
        match first_pressed(s.keys) {
            Option::None => Ok(Chip8View { pc: s.pc, ..t }),
            Option::Some(k) => Ok(Chip8View { v: s.v.update(x, k), ..t }),
        }
    } else if a == 0xF && c == 0x1 && d == 0x5 {
        // FX15: delay timer = VX.
        Ok(Chip8View { dt: vx, ..t })
    } else if a == 0xF && c == 0x1 && d == 0x8 {
        // FX18: sound timer = VX.
        Ok(Chip8View { st: vx, ..t })
    } else if a == 0xF && c == 0x1 && d == 0xE {
        // FX1E: I += VX with 16-bit wraparound; VF = 1 on overflow, else 0.
        Ok(
            Chip8View {
                i: ((s.i + vx) % 0x10000) as u16,
                v: s.v.update(15, if s.i + vx > 0xFFFF { 1u8 } else { 0u8 }),
                ..t
            },
        )
    } else if a == 0xF && c == 0x2 && d == 0x9 {
        // FX29: I = address of the font glyph for the value of VX.
        Ok(Chip8View { i: (vx * 5) as u16, ..t })
    } else if a == 0xF && c == 0x3 && d == 0x3 {
        // FX33: decimal digits of VX at I, I+1, I+2.
        Ok(
            Chip8View {
                memory: s.memory.update(s.i as int, (vx / 100) as u8).update(
                    s.i + 1,
                    ((vx / 10) % 10) as u8,
                ).update(s.i + 2, (vx % 10) as u8),
                ..t
            },
        )
    } else if a == 0xF && c == 0x5 && d == 0x5 {
        // FX55: store V0..=VX at I..; I moves past the block.
        Ok(
            Chip8View {
                memory: store_regs(s.memory, s.i, s.v, op_x(op)),
                i: (s.i + op_x(op) + 1) as u16,
                ..t
            },
        )
    } else if a == 0xF && c == 0x6 && d == 0x5 {
        // FX65: load V0..=VX from I..; I moves past the block.
        Ok(
            Chip8View {
                v: load_regs(s.v, s.memory, s.i, op_x(op)),
                i: (s.i + op_x(op) + 1) as u16,
                ..t
            },
        )
    } else {
        // Every other encoding is ignored.
        Ok(t)
    }
}

/// How one executed step relates the state before (`pre`) and after (`post`)
/// and its result `r` to the instruction table: on `Ok` the machine moved to
/// exactly the state `spec_step` gives, on `Err` it reports that error and
/// the machine is untouched.
pub open spec fn step_result_matches(
    pre: Chip8View,
    post: Chip8View,
    op: u16,
    rnd: u8,
    r: Result<(), Chip8Error>,
) -> bool {
    match spec_step(pre, op, rnd) {
        Result::Ok(v) => r == Result::<(), Chip8Error>::Ok(()) && post == v,
        Result::Err(e) => r == Result::<(), Chip8Error>::Err(e) && post == pre,
    }
}

} // verus!
