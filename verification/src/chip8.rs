//! The interpreter: the machine state record and the fetch-decode-execute
//! engine, verified against the instruction table `semantics::spec_step`.

use vstd::prelude::*;
use crate::rng::random_byte;
use crate::semantics::{spec_fetch, step_req, step_result_matches, ticked};
use crate::state::{initial_memory, initial_state, loaded_memory, spec_font, Chip8Error, Chip8View};
use crate::step::{clear_all, draw_sprite, load_block, scan_keys, store_block};

verus! {

/// The interpreter's machine state.
pub struct Chip8 {
    pc: u16,
    i: u16,
    v: Vec<u8>,
    memory: Vec<u8>,
    stack: Vec<u16>,
    sp: usize,
    dt: u8,
    st: u8,
    keys: Vec<bool>,
    framebuffer: Vec<bool>,
    should_draw: bool,
}

impl View for Chip8 {
    type V = Chip8View;

    closed spec fn view(&self) -> Chip8View {
        Chip8View {
            pc: self.pc,
            i: self.i,
            v: self.v@,
            memory: self.memory@,
            stack: self.stack@,
            sp: self.sp as nat,
            dt: self.dt,
            st: self.st,
            keys: self.keys@,
            framebuffer: self.framebuffer@,
            should_draw: self.should_draw,
        }
    }
}

/// A byte vector of the given length with every element equal to `val`.
fn filled_bytes(len: usize, val: u8) -> (r: Vec<u8>)
    ensures
        r@ == Seq::new(len as nat, |k: int| val),
{
    let mut out: Vec<u8> = Vec::new();
    let mut k: usize = 0;
    while k < len
        invariant
            k <= len,
            out@.len() == k,
            forall|j: int| 0 <= j < k ==> out@[j] == val,
        decreases len - k,
    {
        out.push(val);
        k = k + 1;
    }
    proof {
        assert(out@ =~= Seq::new(len as nat, |k: int| val));
    }
    out
}

/// A word vector of the given length with every element zero.
fn zero_words(len: usize) -> (r: Vec<u16>)
    ensures
        r@ == Seq::new(len as nat, |k: int| 0u16),
{
    let mut out: Vec<u16> = Vec::new();
    let mut k: usize = 0;
    while k < len
        invariant
            k <= len,
            out@.len() == k,
            forall|j: int| 0 <= j < k ==> out@[j] == 0u16,
        decreases len - k,
    {
        out.push(0u16);
        k = k + 1;
    }
    proof {
        assert(out@ =~= Seq::new(len as nat, |k: int| 0u16));
    }
    out
}

/// A boolean vector of the given length with every element false.
fn cleared_flags(len: usize) -> (r: Vec<bool>)
    ensures
        r@ == Seq::new(len as nat, |k: int| false),
{
    let mut out: Vec<bool> = Vec::new();
    let mut k: usize = 0;
    while k < len
        invariant
            k <= len,
            out@.len() == k,
            forall|j: int| 0 <= j < k ==> out@[j] == false,
        decreases len - k,
    {
        out.push(false);
        k = k + 1;
    }
    proof {
        assert(out@ =~= Seq::new(len as nat, |k: int| false));
    }
    out
}

/// The font table as a vector, glyph by glyph.
fn font() -> (r: Vec<u8>)
    ensures
        r@ == spec_font(),
{
    let mut f: Vec<u8> = Vec::new();
    f.push(0xF0); f.push(0x90); f.push(0x90); f.push(0x90); f.push(0xF0);
    f.push(0x20); f.push(0x60); f.push(0x20); f.push(0x20); f.push(0x70);
    f.push(0xF0); f.push(0x10); f.push(0xF0); f.push(0x80); f.push(0xF0);
    f.push(0xF0); f.push(0x10); f.push(0xF0); f.push(0x10); f.push(0xF0);
    f.push(0x90); f.push(0x90); f.push(0xF0); f.push(0x10); f.push(0x10);
    f.push(0xF0); f.push(0x80); f.push(0xF0); f.push(0x10); f.push(0xF0);
    f.push(0xF0); f.push(0x80); f.push(0xF0); f.push(0x90); f.push(0xF0);
    f.push(0xF0); f.push(0x10); f.push(0x20); f.push(0x40); f.push(0x40);
    f.push(0xF0); f.push(0x90); f.push(0xF0); f.push(0x90); f.push(0xF0);
    f.push(0xF0); f.push(0x90); f.push(0xF0); f.push(0x10); f.push(0xF0);
    f.push(0xF0); f.push(0x90); f.push(0xF0); f.push(0x90); f.push(0x90);
    f.push(0xE0); f.push(0x90); f.push(0xE0); f.push(0x90); f.push(0xE0);
    f.push(0xF0); f.push(0x80); f.push(0x80); f.push(0x80); f.push(0xF0);
    f.push(0xE0); f.push(0x90); f.push(0x90); f.push(0x90); f.push(0xE0);
    f.push(0xF0); f.push(0x80); f.push(0xF0); f.push(0x80); f.push(0xF0);
    f.push(0xF0); f.push(0x80); f.push(0xF0); f.push(0x80); f.push(0x80);
    proof {
        assert(f@ =~= spec_font());
    }
    f
}

impl Chip8 {
    /// Memory as it stands at power-on: the font at address 0, zeroes above.
    pub fn init_memory() -> (r: Vec<u8>)
        ensures
            r@ == initial_memory(),
    {
        let mut memory = font();
        let mut k: usize = memory.len();
        while k < 4096
            invariant
                80 <= k <= 4096,
                memory@.len() == k,
                memory@.subrange(0, 80) == spec_font(),
                forall|j: int| 80 <= j < k ==> memory@[j] == 0u8,
            decreases 4096 - k,
        {
            memory.push(0u8);
            k = k + 1;
        }
        proof {
            assert forall|a: int| 0 <= a < 80 implies memory@[a] == spec_font()[a] by {
                assert(memory@.subrange(0, 80)[a] == memory@[a]);
            }
            assert(memory@ =~= initial_memory());
        }
        memory
    }

    /// A machine at power-on.
    pub fn new_with_state() -> (r: Chip8)
        ensures
            r@ == initial_state(),
            r@.wf(),
    {
        let c = Chip8 {
            pc: 0x200,
            i: 0,
            v: filled_bytes(16, 0),
            stack: zero_words(16),
            sp: 0,
            dt: 0,
            st: 0,
            memory: Chip8::init_memory(),
            keys: cleared_flags(16),
            framebuffer: cleared_flags(2048),
            should_draw: false,
        };
        proof {
            assert(c@ =~~= initial_state());
        }
        c
    }

    /// Put the machine back in its power-on state: memory cleared and the
    /// font re-seeded, registers, stack, timers and keys zeroed, the display
    /// cleared, and the program counter at `0x200`. Idempotent.
    pub fn reset(&mut self)
        ensures
            final(self)@ == initial_state(),
            final(self)@.wf(),
    {
        *self = Chip8::new_with_state();
    }

    /// Copy a program image into memory starting at `0x200`. An image that
    /// does not fit is rejected whole, with no side effect.
    pub fn load_rom(&mut self, rom: &Vec<u8>) -> (r: Result<(), Chip8Error>)
        requires
            old(self)@.wf(),
        ensures
            final(self)@.wf(),
            rom@.len() + 0x200 > 4096 ==> r == Result::<(), Chip8Error>::Err(
                Chip8Error::ProgramTooLarge,
            ) && final(self)@ == old(self)@,
            rom@.len() + 0x200 <= 4096 ==> r == Result::<(), Chip8Error>::Ok(()) && final(self)@
                == (Chip8View { memory: loaded_memory(old(self)@.memory, rom@), ..old(self)@ }),
    {
        if rom.len() > 4096 - 0x200 {
            return Err(Chip8Error::ProgramTooLarge);
        }
        let ghost s = self@;
        let mut k: usize = 0;
        while k < rom.len()
            invariant
                k <= rom@.len(),
                rom@.len() <= 4096 - 0x200,
                self@.memory.len() == 4096,
                self@ == (Chip8View { memory: self@.memory, ..s }),
                s.memory.len() == 4096,
                forall|a: int|
                    0 <= a < 4096 && !(0x200 <= a < 0x200 + k) ==> self@.memory[a] == s.memory[a],
                forall|a: int|
                    0x200 <= a < 0x200 + k ==> self@.memory[a] == rom@[a - 0x200],
            decreases rom@.len() - k,
        {
            let b = rom[k];
            self.memory.set(0x200 + k, b);
            k = k + 1;
        }
        proof {
            assert(self@.memory =~= loaded_memory(s.memory, rom@));
            assert(self@ =~~= (Chip8View { memory: loaded_memory(s.memory, rom@), ..s }));
        }
        Ok(())
    }

    /// One fetch-decode-execute step: fetch the opcode at the program
    /// counter and execute it. The random byte a `CXNN` instruction consumes
    /// comes from the thread's generator, so the contract promises a step of
    /// the instruction table for some byte.
    pub fn tick(&mut self) -> (r: Result<(), Chip8Error>)
        requires
            old(self)@.wf(),
            old(self)@.pc + 1 < 4096,
            step_req(old(self)@, spec_fetch(old(self)@)),
        ensures
            final(self)@.wf(),
            exists|rnd: u8|
                #[trigger] step_result_matches(
                    old(self)@,
                    final(self)@,
                    spec_fetch(old(self)@),
                    rnd,
                    r,
                ),
    {
        let hi = self.memory[self.pc as usize];
        let lo = self.memory[self.pc as usize + 1];
        let opcode: u16 = ((hi as u16) << 8) | (lo as u16);
        proof {
            assert(((hi as u16) << 8) | (lo as u16) == hi as u16 * 256 + lo as u16)
                by (bit_vector);
            assert(opcode == spec_fetch(old(self)@));
        }
        self.execute(opcode)
    }

    /// Execute one already-fetched opcode, drawing the byte a `CXNN`
    /// instruction consumes from the thread's random generator: the machine
    /// takes a step of the instruction table for some byte.
    pub fn execute(&mut self, opcode: u16) -> (r: Result<(), Chip8Error>)
        requires
            old(self)@.wf(),
            step_req(old(self)@, opcode),
        ensures
            final(self)@.wf(),
            exists|rnd: u8|
                #[trigger] step_result_matches(old(self)@, final(self)@, opcode, rnd, r),
    {
        let rnd = random_byte();
        let r = self.execute_with(opcode, rnd);
        r
    }

    /// Execute one already-fetched opcode with the given random byte: the
    /// machine takes exactly the step the instruction table gives, or
    /// reports the table's error and stays unchanged.
    #[verifier::rlimit(100)]
    pub fn execute_with(&mut self, opcode: u16, rnd: u8) -> (r: Result<(), Chip8Error>)
        requires
            old(self)@.wf(),
            step_req(old(self)@, opcode),
        ensures
            final(self)@.wf(),
            step_result_matches(old(self)@, final(self)@, opcode, rnd, r),
    {
        let (a, b, c, d) = Chip8::decode(opcode);
        let x = b as usize;
        let y = c as usize;
        proof {
            assert((opcode / 0x100) % 0x10 < 16);
            assert((opcode / 0x10) % 0x10 < 16);
        }
        let vx = self.v[x];
        let vy = self.v[y];
        let nnn = opcode & 0x0FFF;
        let nn = (opcode & 0x00FF) as u8;
        proof {
            assert((opcode & 0x0FFF) == opcode % 0x1000) by (bit_vector);
            assert((opcode & 0x00FF) == opcode % 0x100) by (bit_vector);
        }

        // The three hard failures leave the machine untouched.
        if a == 0x0 && opcode != 0x00E0 && opcode != 0x00EE {
            return Err(Chip8Error::UnsupportedInstruction { opcode, pc: self.pc });
        }
        if opcode == 0x00EE && self.sp == 0 {
            return Err(Chip8Error::StackUnderflow { opcode, pc: self.pc });
        }
        if a == 0x2 && self.sp >= 16 {
            return Err(Chip8Error::StackOverflow { opcode, pc: self.pc });
        }

        let ghost s = self@;

        // Pre-advance the program counter; jumps, calls and skips overwrite
        // or extend it below. Both timers decay once per step.
        self.pc = self.pc + 2;
        self.should_draw = false;
        if self.dt > 0 {
            self.dt = self.dt - 1;
        }
        if self.st > 0 {
            self.st = self.st - 1;
        }
        proof {
            assert(self@ =~~= ticked(s));
        }

        if a == 0x0 {
            if opcode == 0x00E0 {
                // 00E0: clear the screen.
                clear_all(&mut self.framebuffer);
                self.should_draw = true;
            } else {
                // 00EE: return from a subroutine.
                self.sp = self.sp - 1;
                self.pc = self.stack[self.sp];
            }
        } else if a == 0x1 {
            // 1NNN: jump.
            self.pc = nnn;
        } else if a == 0x2 {
            // 2NNN: call a subroutine.
            self.stack.set(self.sp, self.pc);
            self.sp = self.sp + 1;
            self.pc = nnn;
        } else if a == 0x3 {
            // 3XNN: skip if VX == NN.
            if vx == nn {
                self.pc = self.pc + 2;
            }
        } else if a == 0x4 {
            // 4XNN: skip if VX != NN.
            if vx != nn {
                self.pc = self.pc + 2;
            }
        } else if a == 0x5 && d == 0x0 {
            // 5XY0: skip if VX == VY.
            if vx == vy {
                self.pc = self.pc + 2;
            }
        } else if a == 0x6 {
            // 6XNN: VX = NN.
            self.v.set(x, nn);
        } else if a == 0x7 {
            // 7XNN: VX += NN with wraparound.
            let sum: u16 = vx as u16 + nn as u16;
            self.v.set(x, (sum % 256) as u8);
        } else if a == 0x8 && d == 0x0 {
            // 8XY0: VX = VY.
            self.v.set(x, vy);
        } else if a == 0x8 && d == 0x1 {
            // 8XY1: VX |= VY.
            self.v.set(x, vx | vy);
        } else if a == 0x8 && d == 0x2 {
            // 8XY2: VX &= VY.
            self.v.set(x, vx & vy);
        } else if a == 0x8 && d == 0x3 {
            // 8XY3: VX ^= VY.
            self.v.set(x, vx ^ vy);
        } else if a == 0x8 && d == 0x4 {
            // 8XY4: VX += VY; VF reports the carry.
            let sum: u16 = vx as u16 + vy as u16;
            self.v.set(x, (sum % 256) as u8);
            let flag: u8 = if sum > 255 { 1 } else { 0 };
            self.v.set(15, flag);
        } else if a == 0x8 && d == 0x5 {
            // 8XY5: VX -= VY; VF clear exactly when a borrow occurred.
            let diff: u8 = if vx >= vy { vx - vy } else { ((vx as u16 + 256) - vy as u16) as u8 };
            self.v.set(x, diff);
            let flag: u8 = if vy > vx { 0 } else { 1 };
            self.v.set(15, flag);
        } else if a == 0x8 && d == 0x6 {
            // 8XY6: VX = VY >> 1; VF = dropped low bit of VX's prior value.
            self.v.set(x, vy / 2);
            self.v.set(15, vx % 2);
        } else if a == 0x8 && d == 0x7 {
            // 8XY7: VX = VY - VX; VF clear exactly when a borrow occurred.
            let diff: u8 = if vy >= vx { vy - vx } else { ((vy as u16 + 256) - vx as u16) as u8 };
            self.v.set(x, diff);
            let flag: u8 = if vx > vy { 0 } else { 1 };
            self.v.set(15, flag);
        } else if a == 0x8 && d == 0xE {
            // 8XYE: VX = VY << 1; VF = dropped high bit of VX's prior value.
            let doubled: u16 = vy as u16 * 2;
            self.v.set(x, (doubled % 256) as u8);
            self.v.set(15, vx / 128);
        } else if a == 0x9 && d == 0x0 {
            // 9XY0: skip if VX != VY.
            if vx != vy {
                self.pc = self.pc + 2;
            }
        } else if a == 0xA {
            // ANNN: I = NNN.
            self.i = nnn;
        } else if a == 0xB {
            // BNNN: jump to NNN + V0.
            self.pc = nnn + self.v[0] as u16;
        } else if a == 0xC {
            // CXNN: VX = random byte AND NN.
            self.v.set(x, rnd & nn);
        } else if a == 0xD {
            // DXYN: draw an n-row sprite from memory[I..] at (VX, VY).
            let hit = draw_sprite(&mut self.framebuffer, &self.memory, self.i, vx, vy, d);
            let flag: u8 = if hit { 1 } else { 0 };
            self.v.set(15, flag);
            self.should_draw = true;
        } else if a == 0xE && c == 0x9 && d == 0xE {
            // EX9E: skip if the key numbered by VX is pressed.
            if self.keys[vx as usize] {
                self.pc = self.pc + 2;
            }
        } else if a == 0xE && c == 0xA && d == 0x1 {
            // EXA1: skip if the key numbered by VX is released.
            if !self.keys[vx as usize] {
                self.pc = self.pc + 2;
            }
        } else if a == 0xF && c == 0x0 && d == 0x7 {
            // FX07: VX = delay timer.
            let t = self.dt;
            self.v.set(x, t);
        } else if a == 0xF && c == 0x0 && d == 0xA {
            // FX0A: wait for a keypress; rewind the counter until one shows.
            match scan_keys(&self.keys) {
                None => {
                    self.pc = self.pc - 2;
                },
                Some(k) => {
                    self.v.set(x, k);
                },
            }
        } else if a == 0xF && c == 0x1 && d == 0x5 {
            // FX15: delay timer = VX.
            self.dt = vx;
        } else if a == 0xF && c == 0x1 && d == 0x8 {
            // FX18: sound timer = VX.
            self.st = vx;
        } else if a == 0xF && c == 0x1 && d == 0xE {
            // FX1E: I += VX with wraparound; VF reports the overflow.
            let sum: u32 = self.i as u32 + vx as u32;
            let flag: u8 = if sum > 0xFFFF { 1 } else { 0 };
            self.v.set(15, flag);
            self.i = (sum % 0x10000) as u16;
        } else if a == 0xF && c == 0x2 && d == 0x9 {
            // FX29: I = address of the font glyph for VX's value.
            self.i = vx as u16 * 5;
        } else if a == 0xF && c == 0x3 && d == 0x3 {
            // FX33: decimal digits of VX at I, I+1, I+2.
            let base = self.i as usize;
            self.memory.set(base, vx / 100);
            self.memory.set(base + 1, (vx / 10) % 10);
            self.memory.set(base + 2, vx % 10);
        } else if a == 0xF && c == 0x5 && d == 0x5 {
            // FX55: store V0..=VX at I..; I moves past the block.
            store_block(&mut self.memory, self.i, &self.v, b);
            self.i = self.i + b as u16 + 1;
        } else if a == 0xF && c == 0x6 && d == 0x5 {
            // FX65: load V0..=VX from I..; I moves past the block.
            load_block(&mut self.v, &self.memory, self.i, b);
            self.i = self.i + b as u16 + 1;
        } else {
            // Every other encoding is ignored.
        }
        proof {
            assert(step_result_matches(s, self@, opcode, rnd, Result::<(), Chip8Error>::Ok(())));
        }
        Ok(())
    }
}

/// Accessors and mutators for every part of the state the engine and its
/// driver read or write: the driver renders from the display cells, feeds
/// the key states in, and inspects the rest.
impl Chip8 {
    /// The program counter.
    pub fn pc(&self) -> (r: u16)
        ensures
            r == self@.pc,
    {
        self.pc
    }

    /// The index register.
    pub fn index(&self) -> (r: u16)
        ensures
            r == self@.i,
    {
        self.i
    }

    /// Set the index register.
    pub fn set_index(&mut self, val: u16)
        ensures
            final(self)@ == (Chip8View { i: val, ..old(self)@ }),
    {
        self.i = val;
    }

    /// The value of register `idx`.
    pub fn reg(&self, idx: usize) -> (r: u8)
        requires
            self@.wf(),
            idx < 16,
        ensures
            r == self@.v[idx as int],
    {
        self.v[idx]
    }

    /// Set register `idx`.
    pub fn set_reg(&mut self, idx: usize, val: u8)
        requires
            old(self)@.wf(),
            idx < 16,
        ensures
            final(self)@ == (Chip8View { v: old(self)@.v.update(idx as int, val), ..old(self)@ }),
    {
        self.v.set(idx, val);
    }

    /// The byte at memory address `addr`.
    pub fn mem(&self, addr: usize) -> (r: u8)
        requires
            self@.wf(),
            addr < 4096,
        ensures
            r == self@.memory[addr as int],
    {
        self.memory[addr]
    }

    /// Set the byte at memory address `addr`.
    pub fn set_mem(&mut self, addr: usize, val: u8)
        requires
            old(self)@.wf(),
            addr < 4096,
        ensures
            final(self)@ == (Chip8View {
                memory: old(self)@.memory.update(addr as int, val),
                ..old(self)@
            }),
    {
        self.memory.set(addr, val);
    }

    /// How many bytes of memory the machine has.
    pub fn memory_len(&self) -> (r: usize)
        ensures
            r == self@.memory.len(),
    {
        self.memory.len()
    }

    /// The number of stack frames in use.
    pub fn sp(&self) -> (r: usize)
        ensures
            r == self@.sp,
    {
        self.sp
    }

    /// The return address in stack slot `k`.
    pub fn stack_at(&self, k: usize) -> (r: u16)
        requires
            self@.wf(),
            k < 16,
        ensures
            r == self@.stack[k as int],
    {
        self.stack[k]
    }

    /// The delay timer.
    pub fn delay_timer(&self) -> (r: u8)
        ensures
            r == self@.dt,
    {
        self.dt
    }

    /// Set the delay timer.
    pub fn set_delay_timer(&mut self, val: u8)
        ensures
            final(self)@ == (Chip8View { dt: val, ..old(self)@ }),
    {
        self.dt = val;
    }

    /// The sound timer.
    pub fn sound_timer(&self) -> (r: u8)
        ensures
            r == self@.st,
    {
        self.st
    }

    /// Set the sound timer.
    pub fn set_sound_timer(&mut self, val: u8)
        ensures
            final(self)@ == (Chip8View { st: val, ..old(self)@ }),
    {
        self.st = val;
    }

    /// Whether key `k` is pressed.
    pub fn key(&self, k: usize) -> (r: bool)
        requires
            self@.wf(),
            k < 16,
        ensures
            r == self@.keys[k as int],
    {
        self.keys[k]
    }

    /// Record key `k` as pressed or released.
    pub fn set_key(&mut self, k: usize, pressed: bool)
        requires
            old(self)@.wf(),
            k < 16,
        ensures
            final(self)@ == (Chip8View {
                keys: old(self)@.keys.update(k as int, pressed),
                ..old(self)@
            }),
    {
        self.keys.set(k, pressed);
    }

    /// Whether the display cell `idx` (row-major over the 64x32 grid) is
    /// lit.
    pub fn pixel(&self, idx: usize) -> (r: bool)
        requires
            self@.wf(),
            idx < 2048,
        ensures
            r == self@.framebuffer[idx as int],
    {
        self.framebuffer[idx]
    }

    /// Whether the last executed instruction changed the display.
    pub fn should_draw(&self) -> (r: bool)
        ensures
            r == self@.should_draw,
    {
        self.should_draw
    }
}

} // verus!
