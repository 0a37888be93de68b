//! The general laws of the interpreter, each stated over the mathematical
//! interpreter `spec_step` and proved once and for all.

use vstd::prelude::*;
use vstd::arithmetic::div_mod::lemma_fundamental_div_mod;
use crate::emulator::EmuView;
use crate::emulator::fetch_ok;
use crate::emulator::fetched_op;
use crate::emulator::nib1;
use crate::emulator::nib2;
use crate::emulator::nib3;
use crate::emulator::nib4;
use crate::emulator::imm_of;
use crate::emulator::spec_step;
use crate::emulator::draw_cols;
use crate::emulator::draw_rows;
use crate::emulator::sprite_bit;
use crate::emulator::pixel_index;
use crate::emulator::SCREEN_CELLS;
use crate::emulator::STACK_SIZE;
use crate::emulator::NUM_KEYS;
use crate::emulator::RAM_SIZE;
use crate::emulator::FLAG_REG;

verus! {

/// Clearing the screen: executing opcode 00E0 turns every framebuffer
/// cell off, whatever was lit before, and advances the program counter
/// past the instruction.
pub proof fn lemma_clear_screen(s: EmuView, b: u8)
    requires
        s.wf(),
        fetch_ok(s),
        fetched_op(s) == 0x00E0,
    ensures
        spec_step(s, b) is Ok,
        forall|i: int| 0 <= i < SCREEN_CELLS ==> !spec_step(s, b)->Ok_0.screen[i],
        spec_step(s, b)->Ok_0.pc == s.pc + 2,
{
}

/// A call followed, after any interlude that preserves the stack region
/// it used, by a return restores the program counter to the instruction
/// immediately after the call, at every nesting depth the stack can hold.
pub proof fn lemma_call_return(s: EmuView, u: EmuView, b1: u8, b2: u8)
    requires
        s.wf(),
        fetch_ok(s),
        nib1(fetched_op(s)) == 2,
        s.sp < STACK_SIZE,
        u.wf(),
        fetch_ok(u),
        fetched_op(u) == 0x00EE,
        u.sp == spec_step(s, b1)->Ok_0.sp,
        u.stack == spec_step(s, b1)->Ok_0.stack,
    ensures
        spec_step(s, b1) is Ok,
        spec_step(u, b2) is Ok,
        spec_step(u, b2)->Ok_0.pc == s.pc + 2,
{
}

/// Add-with-flag: for every register pair the flag register reads 1
/// exactly when the unsigned sum exceeds 255, and the destination holds
/// the sum modulo 256 — unless the destination is the flag register
/// itself, where the flag write, landing last, overwrites the sum.
pub proof fn lemma_add_with_carry(s: EmuView, b: u8)
    requires
        s.wf(),
        fetch_ok(s),
        nib1(fetched_op(s)) == 8,
        nib4(fetched_op(s)) == 4,
    ensures
        spec_step(s, b) is Ok,
        ({
            let x = nib2(fetched_op(s));
            let y = nib3(fetched_op(s));
            let t = spec_step(s, b)->Ok_0;
            &&& x != FLAG_REG ==> t.v_reg[x] == (s.v_reg[x] + s.v_reg[y]) % 256
            &&& (t.v_reg[FLAG_REG as int] == 1 <==> s.v_reg[x] + s.v_reg[y] > 255)
            &&& (t.v_reg[FLAG_REG as int] == 1 || t.v_reg[FLAG_REG as int] == 0)
        }),
{
}

/// Subtract-with-flag: for every register pair the flag register reads 1
/// exactly when no borrow occurred, that is when X was at least Y, and
/// the destination holds the wrapped difference — unless the destination
/// is the flag register itself, where the flag write, landing last,
/// overwrites the difference.
pub proof fn lemma_sub_no_borrow(s: EmuView, b: u8)
    requires
        s.wf(),
        fetch_ok(s),
        nib1(fetched_op(s)) == 8,
        nib4(fetched_op(s)) == 5,
    ensures
        spec_step(s, b) is Ok,
        ({
            let x = nib2(fetched_op(s));
            let y = nib3(fetched_op(s));
            let t = spec_step(s, b)->Ok_0;
            &&& x != FLAG_REG ==> t.v_reg[x] == (s.v_reg[x] - s.v_reg[y]) % 256
            &&& (t.v_reg[FLAG_REG as int] == 1 <==> s.v_reg[x] >= s.v_reg[y])
            &&& (t.v_reg[FLAG_REG as int] == 1 || t.v_reg[FLAG_REG as int] == 0)
        }),
{
}

/// Right-shift: for every register the flag register receives the bit
/// shifted out, the value's least-significant bit before the shift, and
/// the destination holds the value halved — unless the destination is
/// the flag register itself, where the flag write, landing last,
/// overwrites the halved value.
pub proof fn lemma_shift_right(s: EmuView, b: u8)
    requires
        s.wf(),
        fetch_ok(s),
        nib1(fetched_op(s)) == 8,
        nib4(fetched_op(s)) == 6,
    ensures
        spec_step(s, b) is Ok,
        ({
            let x = nib2(fetched_op(s));
            let t = spec_step(s, b)->Ok_0;
            &&& x != FLAG_REG ==> t.v_reg[x] == s.v_reg[x] / 2
            &&& t.v_reg[FLAG_REG as int] == s.v_reg[x] % 2
        }),
{
}

/// Whether an instruction word is one of the skip opcodes.
pub open spec fn is_skip_op(op: u16) -> bool {
    ||| nib1(op) == 3
    ||| nib1(op) == 4
    ||| (nib1(op) == 5 && nib4(op) == 0)
    ||| (nib1(op) == 9 && nib4(op) == 0)
    ||| (nib1(op) == 0xE && nib3(op) == 9 && nib4(op) == 0xE)
}

/// The condition a skip opcode tests, over the registers and the keypad.
pub open spec fn skip_cond(s: EmuView, op: u16) -> bool {
    let x = nib2(op);
    let y = nib3(op);
    if nib1(op) == 3 {
        s.v_reg[x] == imm_of(op)
    } else if nib1(op) == 4 {
        s.v_reg[x] != imm_of(op)
    } else if nib1(op) == 5 {
        s.v_reg[x] == s.v_reg[y]
    } else if nib1(op) == 9 {
        s.v_reg[x] != s.v_reg[y]
    } else {
        s.keys[s.v_reg[x] as int]
    }
}

/// Skip opcodes advance the program counter by four in all when their
/// condition holds (the fetch's two plus the skip's two), and by two
/// when it does not.
pub proof fn lemma_skip(s: EmuView, b: u8)
    requires
        s.wf(),
        fetch_ok(s),
        is_skip_op(fetched_op(s)),
        nib1(fetched_op(s)) == 0xE ==> s.v_reg[nib2(fetched_op(s))] < NUM_KEYS,
    ensures
        spec_step(s, b) is Ok,
        spec_step(s, b)->Ok_0.pc == s.pc + (if skip_cond(s, fetched_op(s)) {
            4int
        } else {
            2int
        }),
{
}

/// Whether any of the first `cols` bits of one sprite row lands on
/// framebuffer cell `i`.
pub open spec fn row_hits(byte: u8, vx: int, vy: int, row: int, cols: int, i: int) -> bool {
    exists|col: int|
        0 <= col < cols && #[trigger] sprite_bit(byte, col) && pixel_index(vx, vy, col, row) == i
}

/// Whether any bit of the first `rows` sprite rows lands on cell `i`.
pub open spec fn sprite_covers(ram: Seq<u8>, i0: int, vx: int, vy: int, rows: int, i: int) -> bool {
    exists|row: int| 0 <= row < rows && #[trigger] row_hits(ram[i0 + row], vx, vy, row, 8, i)
}

/// Adding two distinct offsets below the modulus to the same base gives
/// two distinct remainders.
proof fn lemma_mod_inj(v: int, a: int, c: int, m: int)
    requires
        0 <= v,
        0 <= a < m,
        0 <= c < m,
        a != c,
    ensures
        (v + a) % m != (v + c) % m,
{
    if (v + a) % m == (v + c) % m {
        lemma_fundamental_div_mod(v + a, m);
        lemma_fundamental_div_mod(v + c, m);
        let qa = (v + a) / m;
        let qc = (v + c) / m;
        assert(false) by (nonlinear_arith)
            requires
                v + a == m * qa + (v + a) % m,
                v + c == m * qc + (v + c) % m,
                (v + a) % m == (v + c) % m,
                0 <= a < m,
                0 <= c < m,
                a != c,
        ;
    }
}

/// Two distinct sprite bits land on two distinct framebuffer cells: the
/// column offsets stay below the width and the row offsets below the
/// height, so wrapping cannot make them collide.
proof fn lemma_pixel_index_inj(vx: int, vy: int, c1: int, r1: int, c2: int, r2: int)
    requires
        0 <= vx,
        0 <= vy,
        0 <= c1 < 8,
        0 <= c2 < 8,
        0 <= r1 < 32,
        0 <= r2 < 32,
        c1 != c2 || r1 != r2,
    ensures
        pixel_index(vx, vy, c1, r1) != pixel_index(vx, vy, c2, r2),
{
    let x1 = (vx + c1) % 64;
    let y1 = (vy + r1) % 32;
    let x2 = (vx + c2) % 64;
    let y2 = (vy + r2) % 32;
    assert(0 <= x1 < 64 && 0 <= x2 < 64 && 0 <= y1 < 32 && 0 <= y2 < 32);
    if c1 != c2 {
        lemma_mod_inj(vx, c1, c2, 64);
    } else {
        lemma_mod_inj(vy, r1, r2, 32);
    }
}

/// What one sprite row does to the framebuffer: each covered cell is
/// toggled, every other cell is untouched, and the collision flag picks
/// up whether a covered cell was lit.
proof fn lemma_draw_cols_spec(
    screen: Seq<bool>,
    flipped: bool,
    byte: u8,
    vx: int,
    vy: int,
    row: int,
    cols: int,
)
    requires
        0 <= vx,
        0 <= vy,
        0 <= row < 32,
        0 <= cols <= 8,
        screen.len() == SCREEN_CELLS,
    ensures
        ({
            let d = draw_cols(screen, flipped, byte, vx, vy, row, cols);
            &&& d.0.len() == SCREEN_CELLS
            &&& forall|i: int| 0 <= i < SCREEN_CELLS ==> d.0[i] == (screen[i] ^ #[trigger] row_hits(
                byte,
                vx,
                vy,
                row,
                cols,
                i,
            ))
            &&& d.1 == (flipped || exists|i: int|
                0 <= i < SCREEN_CELLS && #[trigger] screen[i] && row_hits(byte, vx, vy, row, cols, i))
        }),
    decreases cols,
{
    if cols <= 0 {
        assert(forall|i: int|
            0 <= i < SCREEN_CELLS ==> !(#[trigger] row_hits(byte, vx, vy, row, 0, i)));
    } else {
        lemma_draw_cols_spec(screen, flipped, byte, vx, vy, row, cols - 1);
        let prev = draw_cols(screen, flipped, byte, vx, vy, row, cols - 1);
        let d = draw_cols(screen, flipped, byte, vx, vy, row, cols);
        let col = cols - 1;
        if sprite_bit(byte, col) {
            let idx = pixel_index(vx, vy, col, row);
            assert(0 <= (vx + col) % 64 < 64 && 0 <= (vy + row) % 32 < 32);
            assert(0 <= idx < SCREEN_CELLS);
            assert forall|c: int| 0 <= c < col implies #[trigger] pixel_index(vx, vy, c, row) != idx by {
                lemma_pixel_index_inj(vx, vy, c, row, col, row);
            }
            assert(!row_hits(byte, vx, vy, row, cols - 1, idx));
            assert(prev.0[idx] == screen[idx]);
            assert(row_hits(byte, vx, vy, row, cols, idx)) by {
                assert(0 <= col < cols && sprite_bit(byte, col) && pixel_index(vx, vy, col, row)
                    == idx);
            }
            assert forall|i: int| 0 <= i < SCREEN_CELLS implies d.0[i] == (screen[i]
                ^ #[trigger] row_hits(byte, vx, vy, row, cols, i)) by {
                if i == idx {
                    assert(d.0[idx] == !prev.0[idx]);
                } else {
                    assert(d.0[i] == prev.0[i]);
                    if row_hits(byte, vx, vy, row, cols, i) {
                        let c = choose|c: int|
                            0 <= c < cols && #[trigger] sprite_bit(byte, c) && pixel_index(
                                vx,
                                vy,
                                c,
                                row,
                            ) == i;
                        assert(c != col);
                        assert(row_hits(byte, vx, vy, row, cols - 1, i));
                    }
                    if row_hits(byte, vx, vy, row, cols - 1, i) {
                        let c = choose|c: int|
                            0 <= c < cols - 1 && #[trigger] sprite_bit(byte, c) && pixel_index(
                                vx,
                                vy,
                                c,
                                row,
                            ) == i;
                        assert(row_hits(byte, vx, vy, row, cols, i));
                    }
                }
            }
            assert(d.1 == (prev.1 || screen[idx]));
            if d.1 {
                if prev.1 {
                    if !flipped {
                        let w = choose|i: int|
                            0 <= i < SCREEN_CELLS && #[trigger] screen[i] && row_hits(
                                byte,
                                vx,
                                vy,
                                row,
                                cols - 1,
                                i,
                            );
                        let c = choose|c: int|
                            0 <= c < cols - 1 && #[trigger] sprite_bit(byte, c) && pixel_index(
                                vx,
                                vy,
                                c,
                                row,
                            ) == w;
                        assert(row_hits(byte, vx, vy, row, cols, w));
                        assert(screen[w] && row_hits(byte, vx, vy, row, cols, w));
                    }
                } else {
                    assert(screen[idx] && row_hits(byte, vx, vy, row, cols, idx));
                }
            }
            if flipped || exists|i: int|
                0 <= i < SCREEN_CELLS && #[trigger] screen[i] && row_hits(byte, vx, vy, row, cols, i) {
                if !flipped && !d.1 {
                    let w = choose|i: int|
                        0 <= i < SCREEN_CELLS && #[trigger] screen[i] && row_hits(
                            byte,
                            vx,
                            vy,
                            row,
                            cols,
                            i,
                        );
                    let c = choose|c: int|
                        0 <= c < cols && #[trigger] sprite_bit(byte, c) && pixel_index(
                            vx,
                            vy,
                            c,
                            row,
                        ) == w;
                    if c == col {
                        assert(w == idx);
                        assert(false);
                    } else {
                        assert(row_hits(byte, vx, vy, row, cols - 1, w));
                        assert(false);
                    }
                }
            }
        } else {
            assert forall|i: int| 0 <= i < SCREEN_CELLS implies #[trigger] row_hits(
                byte,
                vx,
                vy,
                row,
                cols,
                i,
            ) == row_hits(byte, vx, vy, row, cols - 1, i) by {
                if row_hits(byte, vx, vy, row, cols, i) {
                    let c = choose|c: int|
                        0 <= c < cols && #[trigger] sprite_bit(byte, c) && pixel_index(
                            vx,
                            vy,
                            c,
                            row,
                        ) == i;
                    assert(c != col);
                    assert(row_hits(byte, vx, vy, row, cols - 1, i));
                }
                if row_hits(byte, vx, vy, row, cols - 1, i) {
                    let c = choose|c: int|
                        0 <= c < cols - 1 && #[trigger] sprite_bit(byte, c) && pixel_index(
                            vx,
                            vy,
                            c,
                            row,
                        ) == i;
                    assert(row_hits(byte, vx, vy, row, cols, i));
                }
            }
        }
    }
}

/// What a whole sprite does to the framebuffer: each covered cell is
/// toggled, every other cell is untouched, and the collision flag says
/// whether some covered cell was lit before.
proof fn lemma_draw_rows_spec(screen: Seq<bool>, ram: Seq<u8>, i0: int, vx: int, vy: int, rows: int)
    requires
        0 <= vx,
        0 <= vy,
        0 <= rows <= 15,
        screen.len() == SCREEN_CELLS,
    ensures
        ({
            let d = draw_rows(screen, false, ram, i0, vx, vy, rows);
            &&& d.0.len() == SCREEN_CELLS
            &&& forall|i: int| 0 <= i < SCREEN_CELLS ==> d.0[i] == (screen[i]
                ^ #[trigger] sprite_covers(ram, i0, vx, vy, rows, i))
            &&& d.1 == exists|i: int|
                0 <= i < SCREEN_CELLS && #[trigger] screen[i] && sprite_covers(ram, i0, vx, vy, rows, i)
        }),
    decreases rows,
{
    if rows <= 0 {
        assert(forall|i: int|
            0 <= i < SCREEN_CELLS ==> !(#[trigger] sprite_covers(ram, i0, vx, vy, 0, i)));
    } else {
        lemma_draw_rows_spec(screen, ram, i0, vx, vy, rows - 1);
        let prev = draw_rows(screen, false, ram, i0, vx, vy, rows - 1);
        let row = rows - 1;
        let byte = ram[i0 + row];
        let d = draw_rows(screen, false, ram, i0, vx, vy, rows);
        lemma_draw_cols_spec(prev.0, prev.1, byte, vx, vy, row, 8);
        assert(d == draw_cols(prev.0, prev.1, byte, vx, vy, row, 8));
        // A cell covered by an earlier row is never hit by this row.
        assert forall|i: int|
            0 <= i < SCREEN_CELLS && #[trigger] row_hits(byte, vx, vy, row, 8, i) implies
            !sprite_covers(ram, i0, vx, vy, rows - 1, i) by {
            if sprite_covers(ram, i0, vx, vy, rows - 1, i) {
                let r2 = choose|r2: int|
                    0 <= r2 < rows - 1 && #[trigger] row_hits(ram[i0 + r2], vx, vy, r2, 8, i);
                let c1 = choose|c: int|
                    0 <= c < 8 && #[trigger] sprite_bit(byte, c) && pixel_index(vx, vy, c, row) == i;
                let c2 = choose|c: int|
                    0 <= c < 8 && #[trigger] sprite_bit(ram[i0 + r2], c) && pixel_index(
                        vx,
                        vy,
                        c,
                        r2,
                    ) == i;
                lemma_pixel_index_inj(vx, vy, c1, row, c2, r2);
                assert(false);
            }
        }
        // Covering by `rows` rows splits into the earlier rows and this one.
        assert forall|i: int| 0 <= i < SCREEN_CELLS implies #[trigger] sprite_covers(
            ram,
            i0,
            vx,
            vy,
            rows,
            i,
        ) == (sprite_covers(ram, i0, vx, vy, rows - 1, i) || row_hits(byte, vx, vy, row, 8, i)) by {
            if sprite_covers(ram, i0, vx, vy, rows, i) {
                let r2 = choose|r2: int|
                    0 <= r2 < rows && #[trigger] row_hits(ram[i0 + r2], vx, vy, r2, 8, i);
                if r2 == row {
                    assert(row_hits(byte, vx, vy, row, 8, i));
                } else {
                    assert(sprite_covers(ram, i0, vx, vy, rows - 1, i));
                }
            }
            if sprite_covers(ram, i0, vx, vy, rows - 1, i) {
                let r2 = choose|r2: int|
                    0 <= r2 < rows - 1 && #[trigger] row_hits(ram[i0 + r2], vx, vy, r2, 8, i);
                assert(sprite_covers(ram, i0, vx, vy, rows, i));
            }
            if row_hits(byte, vx, vy, row, 8, i) {
                assert(0 <= row < rows && row_hits(ram[i0 + row], vx, vy, row, 8, i));
                assert(sprite_covers(ram, i0, vx, vy, rows, i));
            }
        }
        // The per-cell effect.
        assert forall|i: int| 0 <= i < SCREEN_CELLS implies d.0[i] == (screen[i]
            ^ #[trigger] sprite_covers(ram, i0, vx, vy, rows, i)) by {
            assert(d.0[i] == (prev.0[i] ^ row_hits(byte, vx, vy, row, 8, i)));
            assert(prev.0[i] == (screen[i] ^ sprite_covers(ram, i0, vx, vy, rows - 1, i)));
        }
        // The collision flag.
        if d.1 {
            if prev.1 {
                let w = choose|i: int|
                    0 <= i < SCREEN_CELLS && #[trigger] screen[i] && sprite_covers(
                        ram,
                        i0,
                        vx,
                        vy,
                        rows - 1,
                        i,
                    );
                assert(sprite_covers(ram, i0, vx, vy, rows, w));
                assert(screen[w] && sprite_covers(ram, i0, vx, vy, rows, w));
            } else {
                let w = choose|i: int|
                    0 <= i < SCREEN_CELLS && #[trigger] prev.0[i] && row_hits(
                        byte,
                        vx,
                        vy,
                        row,
                        8,
                        i,
                    );
                assert(!sprite_covers(ram, i0, vx, vy, rows - 1, w));
                assert(prev.0[w] == screen[w]);
                assert(sprite_covers(ram, i0, vx, vy, rows, w));
                assert(screen[w] && sprite_covers(ram, i0, vx, vy, rows, w));
            }
        }
        if exists|i: int|
            0 <= i < SCREEN_CELLS && #[trigger] screen[i] && sprite_covers(ram, i0, vx, vy, rows, i) {
            if !d.1 {
                let w = choose|i: int|
                    0 <= i < SCREEN_CELLS && #[trigger] screen[i] && sprite_covers(
                        ram,
                        i0,
                        vx,
                        vy,
                        rows,
                        i,
                    );
                if sprite_covers(ram, i0, vx, vy, rows - 1, w) {
                    assert(prev.1);
                    assert(false);
                } else {
                    assert(row_hits(byte, vx, vy, row, 8, w));
                    assert(prev.0[w] == screen[w]);
                    assert(prev.0[w] && row_hits(byte, vx, vy, row, 8, w));
                    assert(d.1);
                    assert(false);
                }
            }
        }
    }
}

/// Sprite drawing wraps both coordinates modulo the framebuffer's width
/// and height — `sprite_covers` places every bit through `pixel_index` —
/// toggles exactly the covered cells, and sets the flag register to 1
/// exactly when at least one cell went from lit to off.
pub proof fn lemma_draw(s: EmuView, b: u8)
    requires
        s.wf(),
        fetch_ok(s),
        nib1(fetched_op(s)) == 0xD,
        nib4(fetched_op(s)) == 0 || s.i_reg + nib4(fetched_op(s)) <= RAM_SIZE,
    ensures
        spec_step(s, b) is Ok,
        ({
            let op = fetched_op(s);
            let vx = s.v_reg[nib2(op)] as int;
            let vy = s.v_reg[nib3(op)] as int;
            let n = nib4(op);
            let t = spec_step(s, b)->Ok_0;
            &&& forall|i: int| 0 <= i < SCREEN_CELLS ==> t.screen[i] == (s.screen[i]
                ^ #[trigger] sprite_covers(s.ram, s.i_reg as int, vx, vy, n, i))
            &&& (t.v_reg[FLAG_REG as int] == 1 <==> exists|i: int|
                0 <= i < SCREEN_CELLS && #[trigger] s.screen[i] && !t.screen[i])
            &&& (t.v_reg[FLAG_REG as int] == 1 || t.v_reg[FLAG_REG as int] == 0)
        }),
{
    let op = fetched_op(s);
    let vx = s.v_reg[nib2(op)] as int;
    let vy = s.v_reg[nib3(op)] as int;
    let n = nib4(op);
    lemma_draw_rows_spec(s.screen, s.ram, s.i_reg as int, vx, vy, n);
    let d = draw_rows(s.screen, false, s.ram, s.i_reg as int, vx, vy, n);
    let t = spec_step(s, b)->Ok_0;
    assert(t.screen == d.0);
    assert forall|i: int| 0 <= i < SCREEN_CELLS implies (#[trigger] s.screen[i] && !t.screen[i])
        == (s.screen[i] && sprite_covers(s.ram, s.i_reg as int, vx, vy, n, i)) by {
        assert(t.screen[i] == (s.screen[i] ^ sprite_covers(s.ram, s.i_reg as int, vx, vy, n, i)));
    }
    if d.1 {
        let w = choose|i: int|
            0 <= i < SCREEN_CELLS && #[trigger] s.screen[i] && sprite_covers(
                s.ram,
                s.i_reg as int,
                vx,
                vy,
                n,
                i,
            );
        assert(s.screen[w] && !t.screen[w]);
    }
    if exists|i: int| 0 <= i < SCREEN_CELLS && #[trigger] s.screen[i] && !t.screen[i] {
        let w = choose|i: int| 0 <= i < SCREEN_CELLS && #[trigger] s.screen[i] && !t.screen[i];
        assert(s.screen[w] && sprite_covers(s.ram, s.i_reg as int, vx, vy, n, w));
        assert(d.1);
    }
}

} // verus!
