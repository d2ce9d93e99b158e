//! Laws of the instruction semantics: properties of `spec_step`,
//! `spec_cycle` and the drawing model that hold for all inputs, proved
//! once and for all against the same spec functions the executable
//! machine is verified against.
use vstd::prelude::*;

verus! {

use crate::graphics::{
    spec_bit_count, spec_bit_set, spec_draw_byte, spec_draw_collision, spec_draw_pos, RGB8,
    HEIGHT, PIXEL_COUNT, WIDTH,
};
use crate::semantics::{
    op_class, spec_cycle, spec_draw_sprite, spec_step, spec_wadd, spec_wsub, MachineState,
};

/// The sprite-bit offset of cell `p` within the row drawn at row index
/// `yk`: the same offset computation `spec_draw_byte` selects cells by.
pub open spec fn spec_row_off(x: int, yk: int, p: int) -> int {
    (p - ((WIDTH as int) * yk + x)) % (PIXEL_COUNT as int)
}

/// Whether cell `p` is touched by a sprite row drawn at `(x, yk)`.
pub open spec fn spec_in_row(x: int, yk: int, p: int) -> bool {
    yk <= HEIGHT && 0 <= spec_row_off(x, yk, p) < spec_bit_count(x)
}

/// The fields decoded from an opcode assembled out of a high nibble, a
/// register selector and a low byte are exactly those pieces.
proof fn lemma_decode_fields(hi: int, x: int, lo: int)
    by (nonlinear_arith)
    requires
        0 <= hi < 16,
        0 <= x < 16,
        0 <= lo < 256,
    ensures
        (hi * 0x1000 + x * 0x100 + lo) / 0x1000 % 16 == hi,
        (hi * 0x1000 + x * 0x100 + lo) / 0x100 % 16 == x,
        (hi * 0x1000 + x * 0x100 + lo) / 0x10 % 16 == lo / 0x10 % 16,
        (hi * 0x1000 + x * 0x100 + lo) % 256 == lo,
        (hi * 0x1000 + x * 0x100 + lo) % 16 == lo % 16,
        (hi * 0x1000 + x * 0x100 + lo) % 0x1000 == x * 0x100 + lo,
{
}

/// Loading an immediate with `6xnn` and then adding an immediate with
/// `7xnn` leaves `Vx` holding the sum of the two immediates modulo 256,
/// for every starting state and every pair of immediates.
#[verifier::rlimit(100)]
pub proof fn lemma_load_then_add_immediate(
    s: MachineState,
    x: int,
    nn1: u8,
    nn2: u8,
    rand: u8,
)
    requires
        s.wf(),
        0 <= x < 16,
    ensures
        ({
            let s1 = spec_step(s, 0x6000 + x * 0x100 + nn1, rand);
            let s2 = spec_step(s1, 0x7000 + x * 0x100 + nn2, rand);
            s2.regs[x] == (nn1 + nn2) % 256
        }),
{
    reveal(spec_step);
    let op1 = 0x6000 + x * 0x100 + nn1;
    let op2 = 0x7000 + x * 0x100 + nn2;
    lemma_decode_fields(0x6, x, nn1 as int);
    lemma_decode_fields(0x7, x, nn2 as int);
    assert(op_class(op1) == 0x6);
    assert(op_class(op2) == 0x7);
    let s1 = spec_step(s, op1, rand);
    assert(s1.regs[x] == nn1);
    let s2 = spec_step(s1, op2, rand);
    assert(s2.regs[x] == spec_wadd(nn1, nn2));
}

/// Calling a subroutine with `2nnn` and returning at once with `00EE`
/// brings the program counter to exactly two past the call site and the
/// stack pointer back to its old value, for any valid address.
pub proof fn lemma_call_then_return(s: MachineState, nnn: int, rand: u8)
    requires
        s.wf(),
        0 <= nnn < 0x1000,
        s.sp < 16,
        s.pc + 2 <= usize::MAX,
    ensures
        ({
            let s1 = spec_step(s, 0x2000 + nnn, rand);
            let s2 = spec_step(s1, 0x00EE, rand);
            &&& s2.pc == s.pc + 2
            &&& s2.sp == s.sp
        }),
{
    reveal(spec_step);
    assert(op_class(0x2000 + nnn) == 0x2);
    let s1 = spec_step(s, 0x2000 + nnn, rand);
    assert(s1.stack[s.sp as int] == (s.pc + 2) as usize);
    assert(s1.sp == s.sp + 1);
}

/// The four conditional skips `3xnn`, `4xnn`, `5xy0` and `9xy0` advance
/// the program counter by exactly 4 when their condition holds and by
/// exactly 2 otherwise, and change nothing else, for all register and
/// immediate combinations.
pub proof fn lemma_skip_widths(s: MachineState, op: int, rand: u8)
    requires
        s.wf(),
        0 <= op < 0x10000,
        op_class(op) == 0x3 || op_class(op) == 0x4 || op_class(op) == 0x5 || op_class(op)
            == 0x9,
        s.pc + 4 <= usize::MAX,
    ensures
        ({
            let vx = s.regs[(op / 0x100) % 16];
            let vy = s.regs[(op / 0x10) % 16];
            let nn = (op % 256) as u8;
            let cond = if op_class(op) == 0x3 {
                vx == nn
            } else if op_class(op) == 0x4 {
                vx != nn
            } else if op_class(op) == 0x5 {
                vx == vy
            } else {
                vx != vy
            };
            let s1 = spec_step(s, op, rand);
            &&& cond ==> s1.pc == s.pc + 4
            &&& !cond ==> s1.pc == s.pc + 2
            &&& s1 == (MachineState { pc: s1.pc, ..s })
        }),
{
    reveal(spec_step);
}

/// `8xy4` sets `VF` to 1 exactly when `Vx + Vy` overflows a byte, and
/// stores the wrapped sum in `Vx`.
#[verifier::rlimit(100)]
pub proof fn lemma_add_carry(s: MachineState, x: int, y: int, rand: u8)
    requires
        s.wf(),
        0 <= x < 16,
        0 <= y < 16,
    ensures
        ({
            let s1 = spec_step(s, 0x8004 + x * 0x100 + y * 0x10, rand);
            &&& s1.regs[15] == (if s.regs[x] + s.regs[y] > 255 {
                1u8
            } else {
                0u8
            })
            &&& x != 15 ==> s1.regs[x] == (s.regs[x] + s.regs[y]) % 256
        }),
{
    reveal(spec_step);
    let op = 0x8004 + x * 0x100 + y * 0x10;
    lemma_decode_fields(0x8, x, y * 0x10 + 4);
    assert(op_class(op) == 0x8);
    assert(op % 16 == 4);
    assert((op / 0x100) % 16 == x);
    assert((op / 0x10) % 16 == y);
}

/// `8xy5` sets `VF` to 1 exactly when there is no borrow, that is when
/// `Vx >= Vy`, and stores the wrapped difference in `Vx`.
#[verifier::rlimit(100)]
pub proof fn lemma_sub_borrow(s: MachineState, x: int, y: int, rand: u8)
    requires
        s.wf(),
        0 <= x < 16,
        0 <= y < 16,
    ensures
        ({
            let s1 = spec_step(s, 0x8005 + x * 0x100 + y * 0x10, rand);
            &&& s1.regs[15] == (if s.regs[x] >= s.regs[y] {
                1u8
            } else {
                0u8
            })
            &&& x != 15 ==> s1.regs[x] == spec_wsub(s.regs[x], s.regs[y])
        }),
{
    reveal(spec_step);
    let op = 0x8005 + x * 0x100 + y * 0x10;
    lemma_decode_fields(0x8, x, y * 0x10 + 5);
    assert(op_class(op) == 0x8);
    assert(op % 16 == 5);
    assert((op / 0x100) % 16 == x);
    assert((op / 0x10) % 16 == y);
}

/// `8xy7` is the mirror image of `8xy5`: `VF` is 1 exactly when
/// `Vy >= Vx`, and `Vx` receives the wrapped difference `Vy - Vx`.
#[verifier::rlimit(100)]
pub proof fn lemma_reverse_sub_borrow(s: MachineState, x: int, y: int, rand: u8)
    requires
        s.wf(),
        0 <= x < 16,
        0 <= y < 16,
    ensures
        ({
            let s1 = spec_step(s, 0x8007 + x * 0x100 + y * 0x10, rand);
            &&& s1.regs[15] == (if s.regs[y] >= s.regs[x] {
                1u8
            } else {
                0u8
            })
            &&& x != 15 ==> s1.regs[x] == spec_wsub(s.regs[y], s.regs[x])
        }),
{
    reveal(spec_step);
    let op = 0x8007 + x * 0x100 + y * 0x10;
    lemma_decode_fields(0x8, x, y * 0x10 + 7);
    assert(op_class(op) == 0x8);
    assert(op % 16 == 7);
    assert((op / 0x100) % 16 == x);
    assert((op / 0x10) % 16 == y);
}

/// The bitwise instructions `8xy1`, `8xy2` and `8xy3` always leave `VF`
/// cleared, whatever it held before.
pub proof fn lemma_logic_clears_flag(s: MachineState, op: int, rand: u8)
    requires
        s.wf(),
        0 <= op < 0x10000,
        op_class(op) == 0x8,
        op % 16 == 1 || op % 16 == 2 || op % 16 == 3,
    ensures
        spec_step(s, op, rand).regs[15] == 0,
{
    reveal(spec_step);
}

/// Drawing the same sprite byte twice at the same coordinates restores
/// the pixel grid to its state before the first draw.
pub proof fn lemma_draw_byte_involution(
    cells: Seq<RGB8>,
    fg: RGB8,
    bg: RGB8,
    x: int,
    y: int,
    data: u8,
)
    requires
        cells.len() == PIXEL_COUNT,
        forall|p: int| 0 <= p < PIXEL_COUNT ==> cells[p] == fg || cells[p] == bg,
    ensures
        spec_draw_byte(spec_draw_byte(cells, fg, bg, x, y, data), fg, bg, x, y, data) == cells,
{
    let once = spec_draw_byte(cells, fg, bg, x, y, data);
    let twice = spec_draw_byte(once, fg, bg, x, y, data);
    if y > HEIGHT {
        assert(twice =~= cells);
    } else {
        assert forall|p: int| 0 <= p < PIXEL_COUNT implies twice[p] == cells[p] by {
            let off = (p - ((WIDTH as int) * y + x)) % (PIXEL_COUNT as int);
            if 0 <= off < spec_bit_count(x) {
                let was_on = cells[p] == fg;
                let bit = spec_bit_set(data, off);
                assert(once[p] == (if bit != was_on {
                    fg
                } else {
                    bg
                }));
                if fg == bg {
                    assert(cells[p] == fg);
                } else {
                    assert((once[p] == fg) == (bit != was_on));
                }
            } else {
                assert(once[p] == cells[p]);
            }
        };
        assert(twice =~= cells);
    }
}

/// With distinct foreground and background colors, the second of two
/// identical draws reports a collision exactly where the sprite has a
/// set bit over a pixel that was off before the first draw -- that is,
/// exactly where the first draw turned a pixel on.
#[verifier::rlimit(100)]
pub proof fn lemma_second_draw_collision(
    cells: Seq<RGB8>,
    fg: RGB8,
    bg: RGB8,
    x: int,
    y: int,
    data: u8,
)
    requires
        cells.len() == PIXEL_COUNT,
        forall|p: int| 0 <= p < PIXEL_COUNT ==> cells[p] == fg || cells[p] == bg,
        fg != bg,
        0 <= x,
        0 <= y <= HEIGHT,
    ensures
        spec_draw_collision(spec_draw_byte(cells, fg, bg, x, y, data), fg, x, y, data)
            == (exists|b: int|
            0 <= b < spec_bit_count(x) && spec_bit_set(data, b) && cells[spec_draw_pos(
                x,
                y,
                b,
            )] == bg),
{
    let once = spec_draw_byte(cells, fg, bg, x, y, data);
    assert forall|b: int| 0 <= b < spec_bit_count(x) implies (once[spec_draw_pos(x, y, b)]
        == fg) == (spec_bit_set(data, b) != (cells[spec_draw_pos(x, y, b)] == fg)) by {
        let base = (WIDTH as int) * y + x;
        let pos = spec_draw_pos(x, y, b);
        assert(0 <= pos < PIXEL_COUNT);
        assert((pos - base) % (PIXEL_COUNT as int) == b) by {
            let m = PIXEL_COUNT as int;
            assert(0 <= x < WIDTH);
            assert(0 <= base + b < 2 * m);
            if base + b < m {
                vstd::arithmetic::div_mod::lemma_small_mod((base + b) as nat, m as nat);
                assert(pos == base + b);
                vstd::arithmetic::div_mod::lemma_small_mod(b as nat, m as nat);
            } else {
                vstd::arithmetic::div_mod::lemma_mod_multiples_vanish(1, base + b - m, m);
                vstd::arithmetic::div_mod::lemma_small_mod((base + b - m) as nat, m as nat);
                assert(pos == base + b - m);
                vstd::arithmetic::div_mod::lemma_mod_multiples_vanish(-1, b, m);
                vstd::arithmetic::div_mod::lemma_small_mod(b as nat, m as nat);
            }
        };
    };
    if spec_draw_collision(once, fg, x, y, data) {
        let b = choose|b: int|
            0 <= b < spec_bit_count(x) && spec_bit_set(data, b) && once[spec_draw_pos(
                x,
                y,
                b,
            )] == fg;
        assert(cells[spec_draw_pos(x, y, b)] == bg);
    }
    if exists|b: int|
        0 <= b < spec_bit_count(x) && spec_bit_set(data, b) && cells[spec_draw_pos(x, y, b)]
            == bg {
        let b = choose|b: int|
            0 <= b < spec_bit_count(x) && spec_bit_set(data, b) && cells[spec_draw_pos(
                x,
                y,
                b,
            )] == bg;
        assert(once[spec_draw_pos(x, y, b)] == fg);
        assert(spec_draw_collision(once, fg, x, y, data));
    }
}

/// The cell a sprite byte draw writes at `p` depends only on what the
/// grid holds at `p` itself.
proof fn lemma_draw_byte_pointwise(
    c1: Seq<RGB8>,
    c2: Seq<RGB8>,
    fg: RGB8,
    bg: RGB8,
    x: int,
    y: int,
    data: u8,
    p: int,
)
    requires
        c1.len() == PIXEL_COUNT,
        c2.len() == PIXEL_COUNT,
        0 <= p < PIXEL_COUNT,
        c1[p] == c2[p],
    ensures
        spec_draw_byte(c1, fg, bg, x, y, data)[p] == spec_draw_byte(c2, fg, bg, x, y, data)[p],
{
}

/// A sprite byte draw leaves every cell outside its row untouched.
proof fn lemma_draw_byte_untouched(
    cells: Seq<RGB8>,
    fg: RGB8,
    bg: RGB8,
    x: int,
    y: int,
    data: u8,
    p: int,
)
    requires
        cells.len() == PIXEL_COUNT,
        0 <= p < PIXEL_COUNT,
        !spec_in_row(x, y, p),
    ensures
        spec_draw_byte(cells, fg, bg, x, y, data)[p] == cells[p],
{
}

/// Two different rows of one sprite never write the same cell: their
/// row bases are at least a full screen row apart, which the eight-cell
/// row width cannot bridge, even across the bottom-edge wrap.
proof fn lemma_rows_disjoint(x: int, y: int, k1: int, k2: int, p: int)
    requires
        0 <= x < WIDTH,
        0 <= y,
        0 <= k1 < k2,
        k2 - k1 < 32,
        0 <= p < PIXEL_COUNT,
        spec_in_row(x, y + k1, p),
    ensures
        !spec_in_row(x, y + k2, p),
{
    if spec_in_row(x, y + k2, p) {
        let m = PIXEL_COUNT as int;
        let base1 = (WIDTH as int) * (y + k1) + x;
        let base2 = (WIDTH as int) * (y + k2) + x;
        let b1 = spec_row_off(x, y + k1, p);
        let b2 = spec_row_off(x, y + k2, p);
        vstd::arithmetic::div_mod::lemma_fundamental_div_mod(p - base1, m);
        vstd::arithmetic::div_mod::lemma_fundamental_div_mod(p - base2, m);
        let q1 = (p - base1) / m;
        let q2 = (p - base2) / m;
        assert(p - base1 == m * q1 + b1);
        assert(p - base2 == m * q2 + b2);
        let d = base2 - base1 + b2 - b1;
        assert(d == m * (q1 - q2)) by (nonlinear_arith)
            requires
                p - base1 == m * q1 + b1,
                p - base2 == m * q2 + b2,
                d == base2 - base1 + b2 - b1,
        ;
        assert(0 < d < m);
        // A positive multiple of the row count below the row count
        // cannot exist, so this branch is impossible.
        assert(q1 - q2 >= 1 ==> m * (q1 - q2) >= m) by (nonlinear_arith)
            requires
                m >= 0,
        ;
        assert(q1 - q2 <= 0 ==> m * (q1 - q2) <= 0) by (nonlinear_arith)
            requires
                m >= 0,
        ;
    }
}

/// What a whole sprite draw does to one cell: a cell inside some row is
/// drawn as if that row's byte were drawn alone, and a cell inside no
/// row keeps its old value.
proof fn lemma_sprite_frame(
    cells: Seq<RGB8>,
    fg: RGB8,
    bg: RGB8,
    x: int,
    y: int,
    rows: Seq<u8>,
    p: int,
)
    requires
        cells.len() == PIXEL_COUNT,
        0 <= x < WIDTH,
        0 <= y,
        rows.len() < 32,
        0 <= p < PIXEL_COUNT,
    ensures
        spec_draw_sprite(cells, fg, bg, x, y, rows).0.len() == cells.len(),
        forall|k: int|
            #![trigger spec_in_row(x, y + k, p)]
            0 <= k < rows.len() && spec_in_row(x, y + k, p) ==> spec_draw_sprite(
                cells,
                fg,
                bg,
                x,
                y,
                rows,
            ).0[p] == spec_draw_byte(cells, fg, bg, x, y + k, rows[k])[p],
        (forall|k: int| #![trigger spec_in_row(x, y + k, p)] 0 <= k < rows.len()
            ==> !spec_in_row(x, y + k, p)) ==> spec_draw_sprite(cells, fg, bg, x, y, rows).0[p]
            == cells[p],
    decreases rows.len(),
{
    if rows.len() > 0 {
        let rs = rows.drop_last();
        let kl = rows.len() - 1;
        lemma_sprite_frame(cells, fg, bg, x, y, rs, p);
        let prev = spec_draw_sprite(cells, fg, bg, x, y, rs).0;
        let out = spec_draw_sprite(cells, fg, bg, x, y, rows).0;
        assert(out == spec_draw_byte(prev, fg, bg, x, y + kl, rows[kl]));
        if spec_in_row(x, y + kl, p) {
            assert forall|k: int|
                #![trigger spec_in_row(x, y + k, p)]
                0 <= k < kl implies !spec_in_row(x, y + k, p) by {
                if spec_in_row(x, y + k, p) {
                    lemma_rows_disjoint(x, y, k, kl, p);
                }
            };
            assert(prev[p] == cells[p]);
            lemma_draw_byte_pointwise(prev, cells, fg, bg, x, y + kl, rows[kl], p);
        } else {
            lemma_draw_byte_untouched(prev, fg, bg, x, y + kl, rows[kl], p);
            assert forall|k: int|
                0 <= k < rows.len() && spec_in_row(x, y + k, p) implies out[p] == spec_draw_byte(
                cells,
                fg,
                bg,
                x,
                y + k,
                rows[k],
            )[p] by {
                assert(k < kl);
                assert(rs[k] == rows[k]);
            };
        }
    }
}

/// Drawing the same whole sprite twice at the same coordinates restores
/// the screen to its state before the first draw: each row toggles the
/// same cells back, and different rows never overlap.
pub proof fn lemma_draw_sprite_involution(
    cells: Seq<RGB8>,
    fg: RGB8,
    bg: RGB8,
    x: int,
    y: int,
    rows: Seq<u8>,
)
    requires
        cells.len() == PIXEL_COUNT,
        forall|p: int| 0 <= p < PIXEL_COUNT ==> cells[p] == fg || cells[p] == bg,
        0 <= x < WIDTH,
        0 <= y,
        rows.len() < 32,
    ensures
        spec_draw_sprite(spec_draw_sprite(cells, fg, bg, x, y, rows).0, fg, bg, x, y, rows).0
            == cells,
{
    let once = spec_draw_sprite(cells, fg, bg, x, y, rows).0;
    let twice = spec_draw_sprite(once, fg, bg, x, y, rows).0;
    lemma_sprite_frame(cells, fg, bg, x, y, rows, 0);
    lemma_sprite_frame(once, fg, bg, x, y, rows, 0);
    assert forall|p: int| 0 <= p < PIXEL_COUNT implies twice[p] == cells[p] by {
        lemma_sprite_frame(cells, fg, bg, x, y, rows, p);
        lemma_sprite_frame(once, fg, bg, x, y, rows, p);
        if exists|k: int| #![trigger spec_in_row(x, y + k, p)] 0 <= k < rows.len()
            && spec_in_row(x, y + k, p) {
            let k = choose|k: int|
                #![trigger spec_in_row(x, y + k, p)]
                0 <= k < rows.len() && spec_in_row(x, y + k, p);
            let after_row = spec_draw_byte(cells, fg, bg, x, y + k, rows[k]);
            lemma_draw_byte_involution(cells, fg, bg, x, y + k, rows[k]);
            assert(once[p] == after_row[p]);
            lemma_draw_byte_pointwise(once, after_row, fg, bg, x, y + k, rows[k], p);
            assert(twice[p] == spec_draw_byte(once, fg, bg, x, y + k, rows[k])[p]);
            assert(spec_draw_byte(after_row, fg, bg, x, y + k, rows[k])[p] == cells[p]);
        } else {
            assert(once[p] == cells[p]);
            assert(twice[p] == once[p]);
        }
    };
    assert(twice =~= cells);
}

/// Storing `V0..Vx` with `Fx55`, clearing those registers, and loading
/// them back with `Fx65` from the same index register value restores the
/// original register values bit for bit.
#[verifier::rlimit(100)]
pub proof fn lemma_store_then_load_registers(s: MachineState, x: int, rand: u8)
    requires
        s.wf(),
        0 <= x < 16,
        s.i + x + 1 <= 4096,
    ensures
        ({
            let s1 = spec_step(s, 0xF055 + x * 0x100, rand);
            let cleared = MachineState {
                regs: Seq::new(16, |j: int| if 0 <= j <= x { 0u8 } else { s1.regs[j] }),
                i: s.i,
                ..s1
            };
            let s2 = spec_step(cleared, 0xF065 + x * 0x100, rand);
            forall|j: int| 0 <= j <= x ==> s2.regs[j] == s.regs[j]
        }),
{
    reveal(spec_step);
    let op1 = 0xF055 + x * 0x100;
    let op2 = 0xF065 + x * 0x100;
    lemma_decode_fields(0xF, x, 0x55);
    lemma_decode_fields(0xF, x, 0x65);
    assert(op_class(op1) == 0xF);
    assert(op1 % 256 == 0x55);
    assert((op1 / 0x100) % 16 == x);
    assert(op_class(op2) == 0xF);
    assert(op2 % 256 == 0x65);
    assert((op2 / 0x100) % 16 == x);
    let s1 = spec_step(s, op1, rand);
    assert(forall|j: int| 0 <= j <= x ==> s1.mem[s.i + j] == s.regs[j]);
}

/// `Fx33` on a register holding 255 writes the decimal digits 2, 5, 5 to
/// memory at `I`, `I + 1` and `I + 2`.
pub proof fn lemma_bcd_of_255(s: MachineState, x: int, rand: u8)
    requires
        s.wf(),
        0 <= x < 16,
        s.regs[x] == 255,
        s.i + 3 <= 4096,
    ensures
        ({
            let s1 = spec_step(s, 0xF033 + x * 0x100, rand);
            &&& s1.mem[s.i as int] == 2
            &&& s1.mem[s.i + 1] == 5
            &&& s1.mem[s.i + 2] == 5
        }),
{
    reveal(spec_step);
    let op = 0xF033 + x * 0x100;
    assert(op_class(op) == 0xF);
    assert(op % 256 == 0x33);
    assert((op / 0x100) % 16 == x);
}

/// `Fx29` points the index register at the five-byte font glyph named by
/// `Vx`: glyph 10 (the digit `A`) lives at address 50.
pub proof fn lemma_font_glyph_address(s: MachineState, x: int, rand: u8)
    requires
        s.wf(),
        0 <= x < 16,
    ensures
        spec_step(s, 0xF029 + x * 0x100, rand).i == 5 * s.regs[x],
        s.regs[x] == 10 ==> spec_step(s, 0xF029 + x * 0x100, rand).i == 50,
{
    reveal(spec_step);
    let op = 0xF029 + x * 0x100;
    assert(op_class(op) == 0xF);
    assert(op % 256 == 0x29);
    assert((op / 0x100) % 16 == x);
}

/// `Fx0A` latches a key request: afterwards the machine is waiting, with
/// the request aimed at register `x`.
pub proof fn lemma_key_wait_latched(s: MachineState, x: int, rand: u8)
    requires
        s.wf(),
        0 <= x < 16,
    ensures
        spec_step(s, 0xF00A + x * 0x100, rand).waiting,
        spec_step(s, 0xF00A + x * 0x100, rand).request_reg == x,
{
    reveal(spec_step);
    let op = 0xF00A + x * 0x100;
    assert(op_class(op) == 0xF);
    assert(op % 256 == 0x0A);
    assert((op / 0x100) % 16 == x);
}

/// While the machine is waiting for a key press, a processor cycle
/// changes nothing at all: the program counter is frozen.
pub proof fn lemma_waiting_freezes_cycle(s: MachineState, rand: u8)
    requires
        s.waiting,
    ensures
        spec_cycle(s, rand) == s,
{
}

/// A pending key response is consumed by the next executing cycle: the
/// pressed key's code lands in the requested register and the response
/// is gone, after which the fetched instruction runs as usual.
pub proof fn lemma_response_written_to_register(s: MachineState, rand: u8)
    requires
        s.wf(),
        !s.waiting,
        s.response is Some,
    ensures
        ({
            let r = s.response->Some_0;
            let consumed = crate::semantics::spec_consume_response(s);
            &&& consumed.regs == s.regs.update(r.register as int, r.key_code)
            &&& consumed.response is None
            &&& consumed.pc == s.pc
        }),
{
}

} // verus!
