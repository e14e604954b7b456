//! Laws of the instruction table: properties that hold of every state and
//! every operand, proved once and for all against `spec_step`.

use vstd::prelude::*;
use crate::decode::{op_a, op_n, op_nn, op_x, op_y};
use crate::semantics::{
    cell_index, draw_hits_cell, draw_lit_cell, first_pressed, first_pressed_from,
    spec_draw_collision, spec_draw_fb, spec_step, sprite_bit, step_req, store_regs,
};
use crate::state::Chip8View;

verus! {

/// Round trip: a register store (`FX55`) followed by a register load
/// (`FX65`) with the same index and the same register-count operand
/// restores the register file exactly. The store moves the index register
/// past the block, so the state handed to the load puts it back.
pub proof fn lemma_store_load_round_trip(
    s: Chip8View,
    op55: u16,
    op65: u16,
    rnd1: u8,
    rnd2: u8,
)
    requires
        s.wf(),
        step_req(s, op55),
        op_a(op55) == 0xF && op_y(op55) == 0x5 && op_n(op55) == 0x5,
        op_a(op65) == 0xF && op_y(op65) == 0x6 && op_n(op65) == 0x5,
        op_x(op65) == op_x(op55),
    ensures
        spec_step(s, op55, rnd1) is Ok,
        ({
            let s1 = spec_step(s, op55, rnd1)->Ok_0;
            let back = Chip8View { i: s.i, ..s1 };
            &&& spec_step(back, op65, rnd2) is Ok
            &&& spec_step(back, op65, rnd2)->Ok_0.v == s.v
        }),
{
    let x = op_x(op55);
    let s1 = spec_step(s, op55, rnd1)->Ok_0;
    let back = Chip8View { i: s.i, ..s1 };
    let s2 = spec_step(back, op65, rnd2)->Ok_0;
    assert(s1.memory == store_regs(s.memory, s.i, s.v, x));
    assert(s2.v =~= s.v);
}

/// Stack frames are stable: a successful step never rewrites a stack slot
/// below the frames that stay in use. Only a call writes a slot, at the
/// current stack pointer, and only a return drops one.
pub proof fn lemma_step_preserves_stack_frames(s: Chip8View, op: u16, rnd: u8)
    requires
        s.wf(),
        spec_step(s, op, rnd) is Ok,
    ensures
        ({
            let s1 = spec_step(s, op, rnd)->Ok_0;
            forall|k: int| 0 <= k < s.sp && k < s1.sp ==> s1.stack[k] == s.stack[k]
        }),
{
}

/// A successful step preserves well-formedness of the machine state.
#[verifier::rlimit(100)]
pub proof fn lemma_step_preserves_wf(s: Chip8View, op: u16, rnd: u8)
    requires
        s.wf(),
        step_req(s, op),
        spec_step(s, op, rnd) is Ok,
    ensures
        spec_step(s, op, rnd)->Ok_0.wf(),
{
}

/// Run a sequence of steps, each with its opcode and its random byte;
/// nothing if some step reports an error.
pub open spec fn run_steps(s: Chip8View, ops: Seq<(u16, u8)>) -> Option<Chip8View>
    decreases ops.len(),
{
    if ops.len() == 0 {
        Option::Some(s)
    } else {
        match spec_step(s, ops[0].0, ops[0].1) {
            Result::Ok(s1) => run_steps(s1, ops.drop_first()),
            Result::Err(e) => Option::None,
        }
    }
}

/// Whether every step of the run is within the machine limits (`step_req`)
/// and succeeds, and every state it passes through keeps at least `floor`
/// stack frames.
pub open spec fn run_stays_above(s: Chip8View, ops: Seq<(u16, u8)>, floor: nat) -> bool
    decreases ops.len(),
{
    if ops.len() == 0 {
        true
    } else {
        step_req(s, ops[0].0) && match spec_step(s, ops[0].0, ops[0].1) {
            Result::Ok(s1) => s1.sp >= floor && run_stays_above(s1, ops.drop_first(), floor),
            Result::Err(e) => false,
        }
    }
}

/// A run whose states all keep at least `floor` frames succeeds, stays
/// well-formed, and carries every stack slot below `floor` through
/// untouched.
pub proof fn lemma_run_preserves_deep_frames(
    s: Chip8View,
    ops: Seq<(u16, u8)>,
    floor: nat,
    k: int,
)
    requires
        s.wf(),
        s.sp >= floor,
        floor <= 16,
        0 <= k < floor,
        run_stays_above(s, ops, floor),
    ensures
        run_steps(s, ops) is Some,
        run_steps(s, ops)->Some_0.wf(),
        run_steps(s, ops)->Some_0.sp >= floor,
        run_steps(s, ops)->Some_0.stack[k] == s.stack[k],
    decreases ops.len(),
{
    if ops.len() > 0 {
        let s1 = spec_step(s, ops[0].0, ops[0].1)->Ok_0;
        lemma_step_preserves_wf(s, ops[0].0, ops[0].1);
        lemma_step_preserves_stack_frames(s, ops[0].0, ops[0].1);
        lemma_run_preserves_deep_frames(s1, ops.drop_first(), floor, k);
    }
}

/// Stack symmetry: a call, then any balanced run of successful steps that
/// never drops below the new frame and ends back at the call's depth, then
/// the matching return — the counter lands on the instruction after the
/// call, and the stack is back at its old depth. This holds at every
/// nesting depth the 16-slot stack admits.
pub proof fn lemma_stack_symmetry(
    s: Chip8View,
    call_op: u16,
    rnd0: u8,
    ops: Seq<(u16, u8)>,
    ret_rnd: u8,
)
    requires
        s.wf(),
        step_req(s, call_op),
        op_a(call_op) == 0x2,
        s.sp < 16,
        ({
            let s1 = spec_step(s, call_op, rnd0)->Ok_0;
            &&& run_stays_above(s1, ops, s1.sp)
            &&& run_steps(s1, ops) is Some ==> run_steps(s1, ops)->Some_0.sp == s1.sp
        }),
    ensures
        spec_step(s, call_op, rnd0) is Ok,
        ({
            let s1 = spec_step(s, call_op, rnd0)->Ok_0;
            let s2 = run_steps(s1, ops)->Some_0;
            let ret = spec_step(s2, 0x00EE, ret_rnd);
            &&& run_steps(s1, ops) is Some
            &&& ret is Ok
            &&& ret->Ok_0.pc == s.pc + 2
            &&& ret->Ok_0.sp == s.sp
        }),
{
    let s1 = spec_step(s, call_op, rnd0)->Ok_0;
    lemma_step_preserves_wf(s, call_op, rnd0);
    assert(s1.stack[s.sp as int] == (s.pc + 2) as u16);
    lemma_run_preserves_deep_frames(s1, ops, s1.sp, s.sp as int);
    let s2 = run_steps(s1, ops)->Some_0;
    assert(s2.stack[s.sp as int] == (s.pc + 2) as u16);
    assert(op_a(0x00EE) == 0x0);
}

/// Skip semantics: a `3XNN` step moves the counter 4 bytes in all (the
/// pre-advance and the skip) when VX equals NN, and 2 bytes when it does
/// not.
pub proof fn lemma_skip_semantics(s: Chip8View, op: u16, rnd: u8)
    requires
        s.wf(),
        step_req(s, op),
        op_a(op) == 0x3,
    ensures
        spec_step(s, op, rnd) is Ok,
        s.v[op_x(op) as int] == op_nn(op) ==> spec_step(s, op, rnd)->Ok_0.pc == s.pc + 4,
        s.v[op_x(op) as int] != op_nn(op) ==> spec_step(s, op, rnd)->Ok_0.pc == s.pc + 2,
{
}

/// Draw wraparound and collision: on a cleared display, drawing any
/// single-row sprite with at least one set bit reports no collision, and
/// drawing it again at the same position reports one and toggles every
/// affected cell back off — the display is cleared again.
pub proof fn lemma_draw_twice_restores(fb0: Seq<bool>, mem: Seq<u8>, i: u16, vx: u8, vy: u8)
    requires
        fb0.len() == 2048,
        mem.len() == 4096,
        i < 4096,
        forall|k: int| 0 <= k < 2048 ==> !fb0[k],
        mem[i as int] != 0,
    ensures
        !spec_draw_collision(fb0, mem, i, vx, vy, 1),
        spec_draw_collision(spec_draw_fb(fb0, mem, i, vx, vy, 1), mem, i, vx, vy, 1),
        spec_draw_fb(spec_draw_fb(fb0, mem, i, vx, vy, 1), mem, i, vx, vy, 1) == fb0,
{
    let b = mem[i as int];
    let fb1 = spec_draw_fb(fb0, mem, i, vx, vy, 1);
    // No collision on the cleared display: every cell a bit lands on is off.
    if spec_draw_collision(fb0, mem, i, vx, vy, 1) {
        let (r, j) = choose|r: int, j: int|
            0 <= r < 1 && 0 <= j < 8 && sprite_bit(mem[i + r], j) && fb0[#[trigger] cell_index(
                vx,
                vy,
                r,
                j,
            )];
        assert(0 <= cell_index(vx, vy, r, j) < 2048);
        assert(false);
    }
    // Some bit of the row is set.
    if !(sprite_bit(b, 0) || sprite_bit(b, 1) || sprite_bit(b, 2) || sprite_bit(b, 3)
        || sprite_bit(b, 4) || sprite_bit(b, 5) || sprite_bit(b, 6) || sprite_bit(b, 7)) {
        assert(b == 0) by (bit_vector)
            requires
                !((b >> 7u8) & 1 == 1),
                !((b >> 6u8) & 1 == 1),
                !((b >> 5u8) & 1 == 1),
                !((b >> 4u8) & 1 == 1),
                !((b >> 3u8) & 1 == 1),
                !((b >> 2u8) & 1 == 1),
                !((b >> 1u8) & 1 == 1),
                !((b >> 0u8) & 1 == 1),
        ;
    }
    let j0 = choose|j0: int| 0 <= j0 < 8 && sprite_bit(b, j0);
    // That bit's cell is lit after the first draw, so the second collides.
    let idx0 = cell_index(vx, vy, 0, j0);
    assert(0 <= idx0 < 2048);
    assert(draw_hits_cell(mem, i, vx, vy, 1, idx0));
    assert(fb1[idx0]);
    assert(draw_lit_cell(fb1, mem, i, vx, vy, 1));
    // Toggling the same cells twice restores every cell.
    assert forall|idx: int| 0 <= idx < 2048 implies spec_draw_fb(fb1, mem, i, vx, vy, 1)[idx]
        == fb0[idx] by {
        if draw_hits_cell(mem, i, vx, vy, 1, idx) {
            assert(fb1[idx] == !fb0[idx]);
        } else {
            assert(fb1[idx] == fb0[idx]);
        }
    }
    assert(spec_draw_fb(fb1, mem, i, vx, vy, 1) =~= fb0);
}

/// Draw wraparound and collision at machine level: after a clear-screen
/// step, a step drawing a one-row sprite with at least one set bit reports
/// no collision; a second identical step reports one and toggles every
/// affected cell back off, so the display is cleared again.
pub proof fn lemma_draw_twice_machine(s: Chip8View, op: u16, rnd0: u8, rnd1: u8, rnd2: u8)
    requires
        s.wf(),
        s.pc + 6 <= 0xFFFF,
        op_a(op) == 0xD,
        op_n(op) == 1,
        op_x(op) != 15,
        op_y(op) != 15,
        s.i + 1 <= 4096,
        s.memory[s.i as int] != 0,
    ensures
        spec_step(s, 0x00E0, rnd0) is Ok,
        ({
            let s1 = spec_step(s, 0x00E0, rnd0)->Ok_0;
            let draw1 = spec_step(s1, op, rnd1);
            let s2 = draw1->Ok_0;
            let draw2 = spec_step(s2, op, rnd2);
            &&& draw1 is Ok
            &&& draw2 is Ok
            &&& s2.v[15] == 0
            &&& draw2->Ok_0.v[15] == 1
            &&& draw2->Ok_0.framebuffer == s1.framebuffer
        }),
{
    let x = op_x(op) as int;
    let y = op_y(op) as int;
    let vx = s.v[x];
    let vy = s.v[y];
    let s1 = spec_step(s, 0x00E0, rnd0)->Ok_0;
    let s2 = spec_step(s1, op, rnd1)->Ok_0;
    let s3 = spec_step(s2, op, rnd2)->Ok_0;
    assert(op != 0x00E0 && op != 0x00EE);
    assert(s1.framebuffer == Seq::new(2048, |k: int| false));
    lemma_draw_twice_restores(s1.framebuffer, s.memory, s.i, vx, vy);
    assert(s2.v[x] == vx && s2.v[y] == vy);
    assert(s2.framebuffer == spec_draw_fb(s1.framebuffer, s.memory, s.i, vx, vy, 1));
    assert(s3.framebuffer == spec_draw_fb(s2.framebuffer, s.memory, s.i, vx, vy, 1));
}

/// Timer decay: every successful step that is not a delay-timer write
/// (`FX15`) leaves the delay timer one lower if it was nonzero, and at zero
/// if it was zero.
pub proof fn lemma_timer_decay(s: Chip8View, op: u16, rnd: u8)
    requires
        spec_step(s, op, rnd) is Ok,
        !(op_a(op) == 0xF && op_y(op) == 0x1 && op_n(op) == 0x5),
    ensures
        spec_step(s, op, rnd)->Ok_0.dt == (if s.dt > 0 {
            (s.dt - 1) as u8
        } else {
            0u8
        }),
{
}

/// What `first_pressed_from` finds: nothing exactly when no key at or above
/// `k` is pressed, else the lowest pressed key at or above `k`.
proof fn lemma_first_pressed_from(keys: Seq<bool>, k: int)
    requires
        keys.len() == 16,
        0 <= k <= 16,
    ensures
        first_pressed_from(keys, k) is None <==> (forall|j: int| k <= j < 16 ==> !keys[j]),
        first_pressed_from(keys, k) is Some ==> ({
            let p = first_pressed_from(keys, k)->Some_0;
            &&& k <= p < 16
            &&& keys[p as int]
        }),
    decreases 16 - k,
{
    if k < 16 && !keys[k] {
        lemma_first_pressed_from(keys, k + 1);
    }
}

/// Blocking key wait: with no key pressed, a `FX0A` step leaves the counter
/// where it was, so repeated steps stay on the instruction; with some key
/// pressed, the step advances the counter past the instruction and stores a
/// pressed key's index (the lowest) in the target register.
pub proof fn lemma_key_wait(s: Chip8View, op: u16, rnd: u8)
    requires
        s.wf(),
        step_req(s, op),
        op_a(op) == 0xF && op_y(op) == 0x0 && op_n(op) == 0xA,
    ensures
        spec_step(s, op, rnd) is Ok,
        spec_step(s, op, rnd)->Ok_0.keys == s.keys,
        (forall|k: int| 0 <= k < 16 ==> !s.keys[k]) ==> spec_step(s, op, rnd)->Ok_0.pc == s.pc,
        (exists|k: int| 0 <= k < 16 && s.keys[k]) ==> ({
            let post = spec_step(s, op, rnd)->Ok_0;
            let key = post.v[op_x(op) as int];
            &&& post.pc == s.pc + 2
            &&& key < 16
            &&& s.keys[key as int]
            &&& first_pressed(s.keys) == Option::Some(key)
        }),
{
    lemma_first_pressed_from(s.keys, 0);
    if exists|k: int| 0 <= k < 16 && s.keys[k] {
        let k0 = choose|k0: int| 0 <= k0 < 16 && s.keys[k0];
        assert(first_pressed(s.keys) is Some);
        assert(op_x(op) < 16);
    }
}

} // verus!
