//! The executable building blocks of a step: clearing the display, the
//! sprite draw, the register block transfers and the key scan, each
//! verified against its piece of the instruction semantics.

use vstd::prelude::*;
use crate::semantics::{
    cell_index, draw_hits_cell, draw_lit_cell, first_pressed, first_pressed_from,
    spec_draw_collision, spec_draw_fb, sprite_bit, load_regs, store_regs,
};
use vstd::arithmetic::div_mod::lemma_fundamental_div_mod;

verus! {

/// Turn every display cell off.
pub(crate) fn clear_all(fb: &mut Vec<bool>)
    requires
        old(fb)@.len() == 2048,
    ensures
        final(fb)@ == Seq::new(2048, |k: int| false),
{
    let mut k: usize = 0;
    while k < 2048
        invariant
            k <= 2048,
            fb@.len() == 2048,
            forall|j: int| 0 <= j < k ==> !fb@[j],
        decreases 2048 - k,
    {
        fb.set(k, false);
        k = k + 1;
    }
    proof {
        assert(fb@ =~= Seq::new(2048, |k: int| false));
    }
}

/// Store registers `V0..=Vx` into memory at addresses `i..=i+x`.
pub(crate) fn store_block(mem: &mut Vec<u8>, i: u16, v: &Vec<u8>, x: u8)
    requires
        old(mem)@.len() == 4096,
        v@.len() == 16,
        x < 16,
        i + x < 4096,
    ensures
        final(mem)@ == store_regs(old(mem)@, i, v@, x),
{
    let mut r: usize = 0;
    while r <= x as usize
        invariant
            r <= x + 1,
            mem@.len() == 4096,
            v@.len() == 16,
            x < 16,
            i + x < 4096,
            forall|a: int| 0 <= a < 4096 && !(i <= a < i + r) ==> mem@[a] == old(mem)@[a],
            forall|a: int| i <= a < i + r ==> mem@[a] == v@[a - i],
        decreases x + 1 - r,
    {
        mem.set(i as usize + r, v[r]);
        r = r + 1;
    }
    proof {
        assert(mem@ =~= store_regs(old(mem)@, i, v@, x));
    }
}

/// Load registers `V0..=Vx` from memory at addresses `i..=i+x`.
pub(crate) fn load_block(v: &mut Vec<u8>, mem: &Vec<u8>, i: u16, x: u8)
    requires
        old(v)@.len() == 16,
        mem@.len() == 4096,
        x < 16,
        i + x < 4096,
    ensures
        final(v)@ == load_regs(old(v)@, mem@, i, x),
{
    let mut r: usize = 0;
    while r <= x as usize
        invariant
            r <= x + 1,
            v@.len() == 16,
            mem@.len() == 4096,
            x < 16,
            i + x < 4096,
            forall|k: int| r <= k < 16 ==> v@[k] == old(v)@[k],
            forall|k: int| 0 <= k < r ==> v@[k] == mem@[i + k],
        decreases x + 1 - r,
    {
        v.set(r, mem[i as usize + r]);
        r = r + 1;
    }
    proof {
        assert(v@ =~= load_regs(old(v)@, mem@, i, x));
    }
}

/// Whether a set bit among the first `j` bits of sprite row `r` toggles the
/// display cell `idx`.
spec fn row_hits_upto(
    mem: Seq<u8>,
    i: u16,
    vx: u8,
    vy: u8,
    r: int,
    j: int,
    idx: int,
) -> bool {
    exists|j2: int|
        0 <= j2 < j && sprite_bit(mem[i + r], j2) && #[trigger] cell_index(vx, vy, r, j2) == idx
}

/// Whether a set bit among the first `j` bits of sprite row `r` lands on a
/// cell lit in `fb0`.
spec fn row_lit_upto(
    fb0: Seq<bool>,
    mem: Seq<u8>,
    i: u16,
    vx: u8,
    vy: u8,
    r: int,
    j: int,
) -> bool {
    exists|j2: int|
        0 <= j2 < j && sprite_bit(mem[i + r], j2) && fb0[#[trigger] cell_index(vx, vy, r, j2)]
}

/// Two distinct (row, bit) pairs of a sprite of at most 32 rows toggle two
/// distinct display cells: the rows stay distinct modulo the display height
/// and the bits modulo its width.
proof fn lemma_cell_index_injective(vx: u8, vy: u8, r1: int, j1: int, r2: int, j2: int)
    requires
        0 <= r1 < 32,
        0 <= j1 < 8,
        0 <= r2 < 32,
        0 <= j2 < 8,
        !(r1 == r2 && j1 == j2),
    ensures
        cell_index(vx, vy, r1, j1) != cell_index(vx, vy, r2, j2),
{
    lemma_fundamental_div_mod(vy + r1, 32);
    lemma_fundamental_div_mod(vy + r2, 32);
    lemma_fundamental_div_mod(vx + j1, 64);
    lemma_fundamental_div_mod(vx + j2, 64);
    if cell_index(vx, vy, r1, j1) == cell_index(vx, vy, r2, j2) {
        let y1 = (vy + r1) % 32;
        let y2 = (vy + r2) % 32;
        let x1 = (vx + j1) % 64;
        let x2 = (vx + j2) % 64;
        assert(0 <= y1 < 32 && 0 <= y2 < 32 && 0 <= x1 < 64 && 0 <= x2 < 64);
        assert(y1 * 64 + x1 == y2 * 64 + x2);
        assert(y1 == y2 && x1 == x2);
        assert(r1 - r2 == 32 * ((vy + r1) / 32 - (vy + r2) / 32));
        assert(j1 - j2 == 64 * ((vx + j1) / 64 - (vx + j2) / 64));
        assert(r1 == r2 && j1 == j2);
    }
}

/// Draw the `n`-row sprite held at `mem[i..i+n]` at position `(vx, vy)`:
/// each set bit toggles its cell, with both coordinates wrapping; the result
/// says whether some lit cell went out.
pub(crate) fn draw_sprite(fb: &mut Vec<bool>, mem: &Vec<u8>, i: u16, vx: u8, vy: u8, n: u8) -> (hit: bool)
    requires
        old(fb)@.len() == 2048,
        mem@.len() == 4096,
        n < 16,
        i + n <= 4096,
    ensures
        final(fb)@ == spec_draw_fb(old(fb)@, mem@, i, vx, vy, n),
        hit == spec_draw_collision(old(fb)@, mem@, i, vx, vy, n),
{
    let ghost fb0 = old(fb)@;
    let mut hit = false;
    let mut r: usize = 0;
    while r < n as usize
        invariant
            r <= n,
            n < 16,
            i + n <= 4096,
            fb@.len() == 2048,
            mem@.len() == 4096,
            fb0.len() == 2048,
            forall|idx: int|
                0 <= idx < 2048 ==> fb@[idx] == (if draw_hits_cell(
                    mem@,
                    i,
                    vx,
                    vy,
                    r as int,
                    idx,
                ) {
                    !fb0[idx]
                } else {
                    fb0[idx]
                }),
            hit == draw_lit_cell(fb0, mem@, i, vx, vy, r as int),
        decreases n - r,
    {
        let byte = mem[i as usize + r];
        let mut j: usize = 0;
        while j < 8
            invariant
                j <= 8,
                r < n,
                n < 16,
                i + n <= 4096,
                fb@.len() == 2048,
                mem@.len() == 4096,
                fb0.len() == 2048,
                byte == mem@[i + r],
                forall|idx: int|
                    0 <= idx < 2048 ==> fb@[idx] == (if draw_hits_cell(
                        mem@,
                        i,
                        vx,
                        vy,
                        r as int,
                        idx,
                    ) || row_hits_upto(mem@, i, vx, vy, r as int, j as int, idx) {
                        !fb0[idx]
                    } else {
                        fb0[idx]
                    }),
                hit == (draw_lit_cell(fb0, mem@, i, vx, vy, r as int) || row_lit_upto(
                    fb0,
                    mem@,
                    i,
                    vx,
                    vy,
                    r as int,
                    j as int,
                )),
            decreases 8 - j,
        {
            let ghost fb_in = fb@;
            let ghost hit_in = hit;
            if (byte >> ((7 - j) as u8)) & 1 == 1 {
                let xcoord: usize = (vx as usize + j) % 64;
                let ycoord: usize = (vy as usize + r) % 32;
                let idx0: usize = ycoord * 64 + xcoord;
                proof {
                    assert(sprite_bit(mem@[i + r], j as int));
                    assert(idx0 == cell_index(vx, vy, r as int, j as int));
                    assert(idx0 < 2048);
                    assert forall|r2: int, j2: int|
                        0 <= r2 < 32 && 0 <= j2 < 8 && !(r2 == r && j2 == j) implies #[trigger]
                    cell_index(vx, vy, r2, j2) != idx0 by {
                        lemma_cell_index_injective(vx, vy, r2, j2, r as int, j as int);
                    }
                    assert(!draw_hits_cell(mem@, i, vx, vy, r as int, idx0 as int));
                    assert(!row_hits_upto(mem@, i, vx, vy, r as int, j as int, idx0 as int));
                    assert(fb@[idx0 as int] == fb0[idx0 as int]);
                }
                let on = fb[idx0];
                if on {
                    hit = true;
                }
                fb.set(idx0, !on);
                proof {
                    let rr = r as int;
                    let jj = j as int;
                    assert forall|idx: int| 0 <= idx < 2048 implies fb@[idx] == (if draw_hits_cell(
                        mem@,
                        i,
                        vx,
                        vy,
                        rr,
                        idx,
                    ) || row_hits_upto(mem@, i, vx, vy, rr, jj + 1, idx) {
                        !fb0[idx]
                    } else {
                        fb0[idx]
                    }) by {
                        if idx == idx0 {
                            assert(cell_index(vx, vy, rr, jj) == idx);
                            assert(row_hits_upto(mem@, i, vx, vy, rr, jj + 1, idx));
                        } else {
                            assert(fb@[idx] == fb_in[idx]);
                            if row_hits_upto(mem@, i, vx, vy, rr, jj + 1, idx) {
                                let j2 = choose|j2: int|
                                    0 <= j2 < jj + 1 && sprite_bit(mem@[i + rr], j2)
                                        && #[trigger] cell_index(vx, vy, rr, j2) == idx;
                                assert(j2 != jj);
                                assert(row_hits_upto(mem@, i, vx, vy, rr, jj, idx));
                            }
                            if row_hits_upto(mem@, i, vx, vy, rr, jj, idx) {
                                let j2 = choose|j2: int|
                                    0 <= j2 < jj && sprite_bit(mem@[i + rr], j2)
                                        && #[trigger] cell_index(vx, vy, rr, j2) == idx;
                                assert(row_hits_upto(mem@, i, vx, vy, rr, jj + 1, idx));
                            }
                        }
                    }
                    if hit_in {
                        assert(hit);
                    }
                    if fb0[idx0 as int] {
                        assert(cell_index(vx, vy, rr, jj) == idx0 as int);
                        assert(row_lit_upto(fb0, mem@, i, vx, vy, rr, jj + 1));
                    }
                    if row_lit_upto(fb0, mem@, i, vx, vy, rr, jj + 1) {
                        let j2 = choose|j2: int|
                            0 <= j2 < jj + 1 && sprite_bit(mem@[i + rr], j2)
                                && fb0[#[trigger] cell_index(vx, vy, rr, j2)];
                        if j2 == jj {
                            assert(fb0[idx0 as int]);
                            assert(hit);
                        } else {
                            assert(row_lit_upto(fb0, mem@, i, vx, vy, rr, jj));
                            assert(hit);
                        }
                    }
                }
            } else {
                proof {
                    let rr = r as int;
                    let jj = j as int;
                    assert(!sprite_bit(mem@[i + rr], jj));
                    assert forall|idx: int|
                        row_hits_upto(mem@, i, vx, vy, rr, jj + 1, idx) implies row_hits_upto(
                        mem@,
                        i,
                        vx,
                        vy,
                        rr,
                        jj,
                        idx,
                    ) by {
                        let j2 = choose|j2: int|
                            0 <= j2 < jj + 1 && sprite_bit(mem@[i + rr], j2)
                                && #[trigger] cell_index(vx, vy, rr, j2) == idx;
                        assert(j2 != jj);
                    }
                    assert forall|idx: int|
                        row_hits_upto(mem@, i, vx, vy, rr, jj, idx) implies row_hits_upto(
                        mem@,
                        i,
                        vx,
                        vy,
                        rr,
                        jj + 1,
                        idx,
                    ) by {
                        let j2 = choose|j2: int|
                            0 <= j2 < jj && sprite_bit(mem@[i + rr], j2)
                                && #[trigger] cell_index(vx, vy, rr, j2) == idx;
                    }
                    if row_lit_upto(fb0, mem@, i, vx, vy, rr, jj + 1) {
                        let j2 = choose|j2: int|
                            0 <= j2 < jj + 1 && sprite_bit(mem@[i + rr], j2)
                                && fb0[#[trigger] cell_index(vx, vy, rr, j2)];
                        assert(j2 != jj);
                        assert(row_lit_upto(fb0, mem@, i, vx, vy, rr, jj));
                    }
                    if row_lit_upto(fb0, mem@, i, vx, vy, rr, jj) {
                        assert(row_lit_upto(fb0, mem@, i, vx, vy, rr, jj + 1));
                    }
                }
            }
            j = j + 1;
        }
        proof {
            let rr = r as int;
            assert forall|idx: int|
                draw_hits_cell(mem@, i, vx, vy, rr + 1, idx) implies (draw_hits_cell(
                mem@,
                i,
                vx,
                vy,
                rr,
                idx,
            ) || row_hits_upto(mem@, i, vx, vy, rr, 8, idx)) by {
                let (r2, j2) = choose|r2: int, j2: int|
                    0 <= r2 < rr + 1 && 0 <= j2 < 8 && sprite_bit(mem@[i + r2], j2)
                        && #[trigger] cell_index(vx, vy, r2, j2) == idx;
                if r2 == rr {
                    assert(row_hits_upto(mem@, i, vx, vy, rr, 8, idx));
                } else {
                    assert(draw_hits_cell(mem@, i, vx, vy, rr, idx));
                }
            }
            assert forall|idx: int|
                (draw_hits_cell(mem@, i, vx, vy, rr, idx) || row_hits_upto(
                    mem@,
                    i,
                    vx,
                    vy,
                    rr,
                    8,
                    idx,
                )) implies draw_hits_cell(mem@, i, vx, vy, rr + 1, idx) by {
                if draw_hits_cell(mem@, i, vx, vy, rr, idx) {
                    let (r2, j2) = choose|r2: int, j2: int|
                        0 <= r2 < rr && 0 <= j2 < 8 && sprite_bit(mem@[i + r2], j2)
                            && #[trigger] cell_index(vx, vy, r2, j2) == idx;
                    assert(draw_hits_cell(mem@, i, vx, vy, rr + 1, idx));
                } else {
                    let j2 = choose|j2: int|
                        0 <= j2 < 8 && sprite_bit(mem@[i + rr], j2) && #[trigger] cell_index(
                            vx,
                            vy,
                            rr,
                            j2,
                        ) == idx;
                    assert(draw_hits_cell(mem@, i, vx, vy, rr + 1, idx));
                }
            }
            if draw_lit_cell(fb0, mem@, i, vx, vy, rr + 1) {
                let (r2, j2) = choose|r2: int, j2: int|
                    0 <= r2 < rr + 1 && 0 <= j2 < 8 && sprite_bit(mem@[i + r2], j2)
                        && fb0[#[trigger] cell_index(vx, vy, r2, j2)];
                if r2 == rr {
                    assert(row_lit_upto(fb0, mem@, i, vx, vy, rr, 8));
                } else {
                    assert(draw_lit_cell(fb0, mem@, i, vx, vy, rr));
                }
                assert(hit);
            }
            if draw_lit_cell(fb0, mem@, i, vx, vy, rr) {
                let (r2, j2) = choose|r2: int, j2: int|
                    0 <= r2 < rr && 0 <= j2 < 8 && sprite_bit(mem@[i + r2], j2)
                        && fb0[#[trigger] cell_index(vx, vy, r2, j2)];
                assert(draw_lit_cell(fb0, mem@, i, vx, vy, rr + 1));
            }
            if row_lit_upto(fb0, mem@, i, vx, vy, rr, 8) {
                let j2 = choose|j2: int|
                    0 <= j2 < 8 && sprite_bit(mem@[i + rr], j2) && fb0[#[trigger] cell_index(
                        vx,
                        vy,
                        rr,
                        j2,
                    )];
                assert(draw_lit_cell(fb0, mem@, i, vx, vy, rr + 1));
            }
        }
        r = r + 1;
    }
    proof {
        assert(fb@ =~= spec_draw_fb(fb0, mem@, i, vx, vy, n));
    }
    hit
}

/// The lowest pressed key, if any key is pressed.
pub(crate) fn scan_keys(keys: &Vec<bool>) -> (r: Option<u8>)
    requires
        keys@.len() == 16,
    ensures
        r == first_pressed(keys@),
{
    let mut k: usize = 0;
    while k < 16
        invariant
            k <= 16,
            keys@.len() == 16,
            first_pressed(keys@) == first_pressed_from(keys@, k as int),
        decreases 16 - k,
    {
        if keys[k] {
            return Some(k as u8);
        }
        k = k + 1;
    }
    None
}

} // verus!
