//! Laws of the machine, stated over the ghost model and proved once and for
//! all: the glyph table after construction, the glyph-address instruction,
//! clear-screen, the stack's last-in-first-out discipline, the decimal
//! decomposition, determinism of every non-random step, and the behaviour of
//! sprite compositing drawn twice over the same spot.

use vstd::arithmetic::div_mod::lemma_fundamental_div_mod;
use vstd::prelude::*;

use crate::decode::{spec_decode, Instr};
use crate::semantics::{
    bcd_hundreds, bcd_ones, bcd_tens, draw_row, draw_sprite, fetched_word, pixel_index,
    spec_execute, spec_pop, spec_push, spec_tick, sprite_bit,
};
use crate::state::{glyph_row, initial_view, Chip8Error, MachineView, STACK_SIZE};

verus! {

/// After construction or reset, row `r` of digit `d`'s glyph sits at memory
/// address `5 * d + r`: the glyph table occupies addresses 0..80 byte-exactly.
pub proof fn lemma_glyph_table(d: int, r: int)
    requires
        0 <= d < 16,
        0 <= r < 5,
    ensures
        initial_view().ram[5 * d + r] == glyph_row(d, r),
{
    let j = 5 * d + r;
    assert(j / 5 == d && j % 5 == r) by (nonlinear_arith)
        requires
            0 <= d < 16,
            0 <= r < 5,
            j == 5 * d + r,
    ;
}

/// The glyph-address instruction sets the index register to five times the
/// digit register and changes nothing else.
pub proof fn lemma_glyph_address(s: MachineView, x: u8, rnd: u8)
    requires
        s.wf(),
        x < 16,
    ensures
        spec_execute(s, Instr::GlyphIndex(x), rnd) == Ok::<MachineView, Chip8Error>(
            MachineView { index: (s.regs[x as int] * 5) as u16, ..s },
        ),
        spec_execute(s, Instr::GlyphIndex(x), rnd)->Ok_0.index == 5 * s.regs[x as int],
{
}

/// Clear-screen turns every one of the display's bits off, whatever they
/// held, and touches nothing else.
pub proof fn lemma_clear_screen(s: MachineView, rnd: u8)
    requires
        s.wf(),
    ensures
        spec_execute(s, Instr::ClearScreen, rnd) matches Ok(v) && {
            &&& v.display.len() == s.display.len()
            &&& forall|i: int| 0 <= i < v.display.len() ==> !v.display[i]
            &&& v == (MachineView { display: v.display, ..s })
        },
{
}

/// A push followed by a pop hands the pushed value back, restores the stack
/// pointer, and leaves every other component and every live stack slot as it
/// was.
pub proof fn lemma_stack_round_trip(s: MachineView, val: u16)
    requires
        s.wf(),
        s.sp < STACK_SIZE,
    ensures
        spec_push(s, val) matches Ok(pushed) && spec_pop(pushed) matches Ok(popped) && {
            &&& popped.1 == val
            &&& popped.0.sp == s.sp
            &&& popped.0 == (MachineView { stack: popped.0.stack, ..s })
            &&& forall|j: int| 0 <= j < s.sp ==> popped.0.stack[j] == s.stack[j]
        },
{
}

/// The state after pushing every value of `vals` in order, provided each
/// push finds room.
pub open spec fn spec_push_all(s: MachineView, vals: Seq<u16>) -> MachineView
    decreases vals.len(),
{
    if vals.len() == 0 {
        s
    } else {
        spec_push(spec_push_all(s, vals.drop_last()), vals.last())->Ok_0
    }
}

/// With room for all of `vals`, every push succeeds: the pushed values sit
/// in order above the old stack pointer, the slots below it and every other
/// component keep their values.
pub proof fn lemma_push_all(s: MachineView, vals: Seq<u16>)
    requires
        s.wf(),
        s.sp + vals.len() <= STACK_SIZE,
    ensures
        ({
            let t = spec_push_all(s, vals);
            &&& t.wf()
            &&& t.sp == s.sp + vals.len()
            &&& t == (MachineView { stack: t.stack, sp: t.sp, ..s })
            &&& forall|j: int| 0 <= j < s.sp ==> t.stack[j] == s.stack[j]
            &&& forall|j: int| 0 <= j < vals.len() ==> t.stack[s.sp + j] == vals[j]
            &&& vals.len() > 0 ==> spec_push(spec_push_all(s, vals.drop_last()), vals.last())
                is Ok
        }),
    decreases vals.len(),
{
    if vals.len() == 0 {
        assert(spec_push_all(s, vals) == s);
        assert(s =~= (MachineView { stack: s.stack, sp: s.sp, ..s }));
    } else {
        lemma_push_all(s, vals.drop_last());
        let t0 = spec_push_all(s, vals.drop_last());
        assert(t0.sp < STACK_SIZE);
        let t = spec_push(t0, vals.last())->Ok_0;
        assert(t == (MachineView { stack: t0.stack.update(t0.sp, vals.last()), sp: t0.sp + 1, ..t0 }));
        assert(spec_push_all(s, vals) == t);
        assert(t =~= (MachineView { stack: t.stack, sp: t.sp, ..s }));
        assert(forall|j: int| 0 <= j < vals.len() - 1 ==> vals.drop_last()[j] == vals[j]);
        assert forall|j: int| 0 <= j < vals.len() implies t.stack[s.sp + j] == vals[j] by {
            if j < vals.len() - 1 {
                assert(t.stack[s.sp + j] == t0.stack[s.sp + j]);
            } else {
                assert(t.stack[s.sp + j] == vals.last());
            }
        }
    }
}

/// The values `k` consecutive pops return, paired with the state they leave;
/// pops past an empty stack return nothing further.
pub open spec fn spec_pop_all(s: MachineView, k: nat) -> (MachineView, Seq<u16>)
    decreases k,
{
    if k == 0 {
        (s, Seq::empty())
    } else {
        match spec_pop(s) {
            Ok((s1, v)) => {
                let rest = spec_pop_all(s1, (k - 1) as nat);
                (rest.0, seq![v] + rest.1)
            },
            Err(_) => (s, Seq::empty()),
        }
    }
}

/// Stack discipline: pushing the values of `vals` and then popping as many
/// times returns exactly the pushed values in reverse order, and leaves the
/// stack pointer where it began.
pub proof fn lemma_stack_lifo(s: MachineView, vals: Seq<u16>)
    requires
        s.wf(),
        s.sp + vals.len() <= STACK_SIZE,
    ensures
        ({
            let popped = spec_pop_all(spec_push_all(s, vals), vals.len());
            &&& popped.1.len() == vals.len()
            &&& forall|i: int| 0 <= i < vals.len() ==> popped.1[i] == vals[vals.len() - 1 - i]
            &&& popped.0.sp == s.sp
        }),
{
    lemma_push_all(s, vals);
    lemma_pop_layered(s, spec_push_all(s, vals), vals);
}

/// Helper for `lemma_stack_lifo`, generalized over any state `t` whose live
/// stack holds `s`'s slots with `vals` laid above them: popping
/// `vals.len()` times returns `vals` reversed.
proof fn lemma_pop_layered(s: MachineView, t: MachineView, vals: Seq<u16>)
    requires
        s.wf(),
        t.wf(),
        s.sp + vals.len() <= STACK_SIZE,
        t.sp == s.sp + vals.len(),
        forall|j: int| 0 <= j < vals.len() ==> t.stack[s.sp + j] == vals[j],
    ensures
        ({
            let popped = spec_pop_all(t, vals.len());
            &&& popped.1.len() == vals.len()
            &&& forall|i: int| 0 <= i < vals.len() ==> popped.1[i] == vals[vals.len() - 1 - i]
            &&& popped.0.sp == s.sp
        }),
    decreases vals.len(),
{
    if vals.len() > 0 {
        let (t1, v) = spec_pop(t)->Ok_0;
        assert(v == vals.last());
        lemma_pop_layered(s, t1, vals.drop_last());
    }
}

/// The decimal decomposition a byte is stored as: three digits that
/// recompose to the byte exactly, with no rounding at any boundary value.
pub proof fn lemma_bcd_digits(v: u8)
    ensures
        bcd_hundreds(v) <= 2,
        bcd_tens(v) <= 9,
        bcd_ones(v) <= 9,
        100 * bcd_hundreds(v) + 10 * bcd_tens(v) + bcd_ones(v) == v,
{
    assert((v / 100) * 100 + ((v / 10) % 10) * 10 + v % 10 == v) by (bit_vector);
    assert(v / 100 <= 2 && (v / 10) % 10 <= 9 && v % 10 <= 9) by (bit_vector);
}

/// Only the random instruction reads the byte the random source supplies: a
/// step whose fetched word decodes to anything else gives one state and one
/// outcome, whatever that byte was.
pub proof fn lemma_tick_deterministic(s: MachineView, r1: u8, r2: u8)
    requires
        !(s.pc + 1 < 4096 && spec_decode(fetched_word(s)) matches Some(Instr::Random(_, _))),
    ensures
        spec_tick(s, r1) == spec_tick(s, r2),
{
}

/// A sprite of one row composites exactly as `draw_row` of its single byte.
pub proof fn lemma_draw_single_row(disp: Seq<bool>, ram: Seq<u8>, i: int, x0: int, y0: int)
    ensures
        draw_sprite(disp, ram, i, x0, y0, 1) == draw_row(disp, ram[i], x0, y0 % 32, 8),
{
    assert(draw_sprite(disp, ram, i, x0, y0, 0) == (disp, false));
}

/// Whether drawing the first `ncols` columns of the sprite row `byte` at
/// origin column `x0` in display row `y` touches display index `j`.
pub open spec fn row_touches(byte: u8, x0: int, y: int, ncols: int, j: int) -> bool {
    exists|c: int| 0 <= c < ncols && #[trigger] pixel_index(x0, c, y) == j && sprite_bit(byte, c)
}

/// Two sprite columns of one row land on distinct display pixels: the
/// horizontal wrap cannot fold columns less than a screen width apart onto
/// each other.
proof fn lemma_pixel_index_distinct(x0: int, c1: int, c2: int, y: int)
    requires
        0 <= x0,
        0 <= c1 < c2 < 8,
    ensures
        pixel_index(x0, c1, y) != pixel_index(x0, c2, y),
{
    let a = x0 + c1;
    let b = x0 + c2;
    if a % 64 == b % 64 {
        lemma_fundamental_div_mod(a, 64);
        lemma_fundamental_div_mod(b, 64);
        assert(b - a == 64 * (b / 64 - a / 64));
    }
}

/// Pointwise description of drawing one sprite row: a pixel flips exactly
/// when some set sprite column lands on it, and a collision is reported
/// exactly when some set sprite column lands on a pixel that was on.
pub proof fn lemma_draw_row_points(disp: Seq<bool>, byte: u8, x0: int, y: int, ncols: int)
    requires
        disp.len() == 2048,
        0 <= x0,
        0 <= y < 32,
        0 <= ncols <= 8,
    ensures
        ({
            let r = draw_row(disp, byte, x0, y, ncols);
            &&& r.0.len() == 2048
            &&& forall|j: int|
                0 <= j < 2048 ==> r.0[j] == if row_touches(byte, x0, y, ncols, j) {
                    !disp[j]
                } else {
                    disp[j]
                }
            &&& r.1 == exists|c: int|
                0 <= c < ncols && sprite_bit(byte, c) && disp[#[trigger] pixel_index(x0, c, y)]
        }),
    decreases ncols,
{
    if ncols > 0 {
        lemma_draw_row_points(disp, byte, x0, y, ncols - 1);
        let prev = draw_row(disp, byte, x0, y, ncols - 1);
        let r = draw_row(disp, byte, x0, y, ncols);
        let col = ncols - 1;
        if sprite_bit(byte, col) {
            let idx = pixel_index(x0, col, y);
            assert(0 <= (x0 + col) % 64 < 64);
            assert(0 <= idx < 2048);
            assert forall|c: int| 0 <= c < col implies #[trigger] pixel_index(x0, c, y) != idx by {
                lemma_pixel_index_distinct(x0, c, col, y);
            }
            assert(!row_touches(byte, x0, y, col, idx));
            assert(prev.0[idx] == disp[idx]);
            assert(row_touches(byte, x0, y, ncols, idx));
            assert forall|j: int| 0 <= j < 2048 && j != idx implies row_touches(
                byte,
                x0,
                y,
                ncols,
                j,
            ) == row_touches(byte, x0, y, col, j) by {
                if row_touches(byte, x0, y, ncols, j) {
                    let c = choose|c: int|
                        0 <= c < ncols && #[trigger] pixel_index(x0, c, y) == j && sprite_bit(
                            byte,
                            c,
                        );
                    assert(c != col);
                    assert(row_touches(byte, x0, y, col, j));
                }
            }
            if disp[idx] {
                assert(r.1);
            }
        } else {
            assert forall|j: int| 0 <= j < 2048 implies row_touches(byte, x0, y, ncols, j)
                == row_touches(byte, x0, y, col, j) by {
                if row_touches(byte, x0, y, ncols, j) {
                    let c = choose|c: int|
                        0 <= c < ncols && #[trigger] pixel_index(x0, c, y) == j && sprite_bit(
                            byte,
                            c,
                        );
                    assert(c != col);
                    assert(row_touches(byte, x0, y, col, j));
                }
            }
            assert(r.1 == prev.1);
        }
    }
}

/// Drawing the same sprite row twice at the same coordinates restores every
/// pixel: the XOR compositing is its own inverse.
pub proof fn lemma_draw_row_involution(disp: Seq<bool>, byte: u8, x0: int, y: int)
    requires
        disp.len() == 2048,
        0 <= x0,
        0 <= y < 32,
    ensures
        draw_row(draw_row(disp, byte, x0, y, 8).0, byte, x0, y, 8).0 == disp,
{
    lemma_draw_row_points(disp, byte, x0, y, 8);
    let once = draw_row(disp, byte, x0, y, 8);
    lemma_draw_row_points(once.0, byte, x0, y, 8);
    let twice = draw_row(once.0, byte, x0, y, 8);
    assert(twice.0 =~= disp);
}

/// On a blank display, drawing a sprite row with any bit set reports no
/// collision; drawing it again at the same coordinates reports one and turns
/// the affected pixels back off.
pub proof fn lemma_draw_row_twice_blank(disp: Seq<bool>, byte: u8, x0: int, y: int)
    requires
        disp.len() == 2048,
        forall|j: int| 0 <= j < 2048 ==> !disp[j],
        byte != 0,
        0 <= x0,
        0 <= y < 32,
    ensures
        !draw_row(disp, byte, x0, y, 8).1,
        draw_row(draw_row(disp, byte, x0, y, 8).0, byte, x0, y, 8).1,
        draw_row(draw_row(disp, byte, x0, y, 8).0, byte, x0, y, 8).0 == disp,
{
    lemma_draw_row_points(disp, byte, x0, y, 8);
    let once = draw_row(disp, byte, x0, y, 8);
    lemma_draw_row_points(once.0, byte, x0, y, 8);
    lemma_draw_row_involution(disp, byte, x0, y);
    if once.1 {
        let c = choose|c: int|
            0 <= c < 8 && sprite_bit(byte, c) && disp[#[trigger] pixel_index(x0, c, y)];
        assert(0 <= (x0 + c) % 64 < 64);
        assert(!disp[pixel_index(x0, c, y)]);
    }
    assert((byte / 128) % 2 == 0 && (byte / 64) % 2 == 0 && (byte / 32) % 2 == 0 && (byte / 16) % 2
        == 0 && (byte / 8) % 2 == 0 && (byte / 4) % 2 == 0 && (byte / 2) % 2 == 0 && byte % 2 == 0
        ==> byte == 0) by (bit_vector);
    let c: int = if (byte / 128) % 2 == 1 {
        0
    } else if (byte / 64) % 2 == 1 {
        1
    } else if (byte / 32) % 2 == 1 {
        2
    } else if (byte / 16) % 2 == 1 {
        3
    } else if (byte / 8) % 2 == 1 {
        4
    } else if (byte / 4) % 2 == 1 {
        5
    } else if (byte / 2) % 2 == 1 {
        6
    } else {
        7
    };
    assert(sprite_bit(byte, c));
    let idx = pixel_index(x0, c, y);
    assert(0 <= (x0 + c) % 64 < 64);
    assert(0 <= idx < 2048);
    assert(row_touches(byte, x0, y, 8, idx));
    assert(once.0[idx]);
}

} // verus!
