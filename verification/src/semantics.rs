//! The instruction semantics of the machine as a mathematical step
//! function over a ghost snapshot of the whole machine state.
//!
//! `spec_step` is the single source of truth for what every opcode does;
//! the executable processor is proved to match it cycle by cycle. The only
//! inputs left open are the byte drawn by the random-number instruction
//! and, at the cycle level, whether the 60Hz clock ticked.
use vstd::prelude::*;

verus! {

use crate::clock::spec_timer_dec;
use crate::graphics::{
    spec_draw_byte, spec_draw_collision, RGB8, HEIGHT, PIXEL_COUNT, WIDTH,
};
use crate::input::{KeyRequestResponse, KEY_COUNT};
use crate::memory::MEMORY_SIZE;

/// Everything the instruction semantics can observe or change, as one
/// ghost record. The sound timer is absent: it lives in a shared atomic
/// byte whose value the model does not track.
#[verifier::ext_equal]
pub ghost struct MachineState {
    /// The sixteen general-purpose registers `V0`..`VF`.
    pub regs: Seq<u8>,
    /// The index register `I`.
    pub i: usize,
    /// The program counter.
    pub pc: usize,
    /// The stack pointer: the number of occupied stack slots.
    pub sp: usize,
    /// The sixteen-level call stack.
    pub stack: Seq<usize>,
    /// Whether `8xy6`/`8xyE` first copy `Vy` into `Vx`.
    pub shift_quirk: bool,
    /// Whether `Dxyn` waits for the vertical blank before drawing.
    pub vblank_wait: bool,
    /// The 4096 bytes of memory.
    pub mem: Seq<u8>,
    /// The pixel grid.
    pub cells: Seq<RGB8>,
    /// The foreground color.
    pub fg: RGB8,
    /// The background color.
    pub bg: RGB8,
    /// The pressed state of the sixteen keys.
    pub keys: Seq<bool>,
    /// Whether the machine is frozen waiting for a key press.
    pub waiting: bool,
    /// The register a pending key request targets.
    pub request_reg: usize,
    /// The not-yet-consumed response to a key request, if any.
    pub response: Option<KeyRequestResponse>,
    /// The delay timer.
    pub delay: u8,
    /// The vertical-blank flag of the clock.
    pub vblank: bool,
}

impl MachineState {
    /// Structural validity: every component has its fixed size and the
    /// input bookkeeping stays within the sixteen registers and keys.
    pub open spec fn wf(self) -> bool {
        &&& self.regs.len() == 16
        &&& self.stack.len() == 16
        &&& self.sp <= 16
        &&& self.mem.len() == MEMORY_SIZE
        &&& self.cells.len() == PIXEL_COUNT
        &&& (forall|p: int|
            0 <= p < PIXEL_COUNT ==> self.cells[p] == self.fg || self.cells[p] == self.bg)
        &&& self.keys.len() == KEY_COUNT
        &&& self.request_reg < KEY_COUNT
        &&& match self.response {
            Some(r) => r.register < KEY_COUNT,
            None => true,
        }
    }
}

/// The high nibble of an opcode, selecting the instruction family.
pub open spec fn op_class(op: int) -> int {
    (op / 0x1000) % 16
}

/// The register selector `x` of an opcode.
pub open spec fn op_x(op: int) -> int {
    (op / 0x100) % 16
}

/// The register selector `y` of an opcode.
pub open spec fn op_y(op: int) -> int {
    (op / 0x10) % 16
}

/// The low nibble `n` of an opcode.
pub open spec fn op_n(op: int) -> int {
    op % 16
}

/// The immediate byte `nn` of an opcode.
pub open spec fn op_nn(op: int) -> u8 {
    (op % 256) as u8
}

/// The address part `nnn` of an opcode.
pub open spec fn op_nnn(op: int) -> int {
    op % 0x1000
}

/// Byte addition with wrap-around modulo 256.
pub open spec fn spec_wadd(a: u8, b: u8) -> u8 {
    ((a + b) % 256) as u8
}

/// Byte subtraction with wrap-around modulo 256.
pub open spec fn spec_wsub(a: u8, b: u8) -> u8 {
    if a >= b {
        (a - b) as u8
    } else {
        (a - b + 256) as u8
    }
}

/// Whether the key named by a register value is currently pressed: values
/// outside the sixteen key codes never count as pressed.
pub open spec fn spec_key_down(s: MachineState, code: u8) -> bool {
    code < KEY_COUNT && s.keys[code as int]
}

/// The pixel grid and collision flag after drawing all of a sprite's rows
/// at `(x, y)`, one row per byte, top row first.
pub open spec fn spec_draw_sprite(
    cells: Seq<RGB8>,
    fg: RGB8,
    bg: RGB8,
    x: int,
    y: int,
    rows: Seq<u8>,
) -> (Seq<RGB8>, bool)
    decreases rows.len(),
{
    if rows.len() <= 0 {
        (cells, false)
    } else {
        let prev = spec_draw_sprite(cells, fg, bg, x, y, rows.drop_last());
        let k = rows.len() - 1;
        let drawn = spec_draw_byte(prev.0, fg, bg, x, y + k, rows.last());
        let hit = spec_draw_collision(prev.0, fg, x, y + k, rows.last());
        (drawn, prev.1 || hit)
    }
}

/// Whether a machine whose next fetched opcode is `op` consults the
/// random-number source.
pub open spec fn op_uses_random(op: int) -> bool {
    op_class(op) == 0xC
}

/// One decoded instruction applied to the machine state, program-counter
/// update included. `rand` is the byte the random-number source produced;
/// instructions other than `Cxnn` ignore it.
///
/// Instructions whose memory or stack access would fall out of range --
/// where the machine offers no defined behavior -- leave the state alone
/// and move to the next instruction.
#[verifier::opaque]
pub open spec fn spec_step(s: MachineState, op: int, rand: u8) -> MachineState {
    let x = op_x(op);
    let y = op_y(op);
    let n = op_n(op);
    let nn = op_nn(op);
    let nnn = op_nnn(op);
    let vx = s.regs[x];
    let vy = s.regs[y];
    let next = MachineState { pc: (s.pc + 2) as usize, ..s };
    let class = op_class(op);
    if class == 0x0 {
        if n == 0x0 {
            // 00E0: clear the screen.
            MachineState {
                cells: Seq::new(PIXEL_COUNT as nat, |p: int| s.bg),
                pc: (s.pc + 2) as usize,
                ..s
            }
        } else if n == 0xE {
            // 00EE: return from a subroutine.
            if s.sp > 0 {
                MachineState { sp: (s.sp - 1) as usize, pc: s.stack[s.sp - 1], ..s }
            } else {
                next
            }
        } else {
            next
        }
    } else if class == 0x1 {
        // 1nnn: jump.
        MachineState { pc: nnn as usize, ..s }
    } else if class == 0x2 {
        // 2nnn: call a subroutine.
        if s.sp < 16 {
            MachineState {
                stack: s.stack.update(s.sp as int, (s.pc + 2) as usize),
                sp: (s.sp + 1) as usize,
                pc: nnn as usize,
                ..s
            }
        } else {
            next
        }
    } else if class == 0x3 {
        // 3xnn: skip if Vx == nn.
        MachineState { pc: (s.pc + if vx == nn { 4int } else { 2int }) as usize, ..s }
    } else if class == 0x4 {
        // 4xnn: skip if Vx != nn.
        MachineState { pc: (s.pc + if vx != nn { 4int } else { 2int }) as usize, ..s }
    } else if class == 0x5 {
        // 5xy0: skip if Vx == Vy.
        MachineState { pc: (s.pc + if vx == vy { 4int } else { 2int }) as usize, ..s }
    } else if class == 0x6 {
        // 6xnn: load immediate.
        MachineState { regs: s.regs.update(x, nn), pc: (s.pc + 2) as usize, ..s }
    } else if class == 0x7 {
        // 7xnn: add immediate, wrapping, flags untouched.
        MachineState { regs: s.regs.update(x, spec_wadd(vx, nn)), pc: (s.pc + 2) as usize, ..s }
    } else if class == 0x8 {
        let regs = if n == 0x0 {
            // 8xy0: copy.
            s.regs.update(x, vy)
        } else if n == 0x1 {
            // 8xy1: or; VF cleared.
            s.regs.update(x, vx | vy).update(15, 0u8)
        } else if n == 0x2 {
            // 8xy2: and; VF cleared.
            s.regs.update(x, vx & vy).update(15, 0u8)
        } else if n == 0x3 {
            // 8xy3: xor; VF cleared.
            s.regs.update(x, vx ^ vy).update(15, 0u8)
        } else if n == 0x4 {
            // 8xy4: add; VF is the carry.
            s.regs.update(x, spec_wadd(vx, vy)).update(
                15,
                if vx + vy > 255 {
                    1u8
                } else {
                    0u8
                },
            )
        } else if n == 0x5 {
            // 8xy5: subtract; VF set when there was no borrow.
            s.regs.update(x, spec_wsub(vx, vy)).update(
                15,
                if vx >= vy {
                    1u8
                } else {
                    0u8
                },
            )
        } else if n == 0x6 {
            // 8xy6: shift right; VF is the shifted-out bit.
            let src = if s.shift_quirk { vy } else { vx };
            s.regs.update(x, src / 2).update(15, src % 2)
        } else if n == 0x7 {
            // 8xy7: reverse subtract; VF set when there was no borrow.
            s.regs.update(x, spec_wsub(vy, vx)).update(
                15,
                if vy >= vx {
                    1u8
                } else {
                    0u8
                },
            )
        } else if n == 0xE {
            // 8xyE: shift left; VF is the shifted-out bit.
            let src = if s.shift_quirk { vy } else { vx };
            s.regs.update(x, ((src * 2) % 256) as u8).update(15, src / 128)
        } else {
            s.regs
        };
        MachineState { regs, pc: (s.pc + 2) as usize, ..s }
    } else if class == 0x9 {
        // 9xy0: skip if Vx != Vy.
        MachineState { pc: (s.pc + if vx != vy { 4int } else { 2int }) as usize, ..s }
    } else if class == 0xA {
        // Annn: load the index register.
        MachineState { i: nnn as usize, pc: (s.pc + 2) as usize, ..s }
    } else if class == 0xB {
        // Bnnn: jump with offset V0.
        MachineState { pc: (nnn + s.regs[0]) as usize, ..s }
    } else if class == 0xC {
        // Cxnn: random byte masked by nn.
        MachineState { regs: s.regs.update(x, rand & nn), pc: (s.pc + 2) as usize, ..s }
    } else if class == 0xD {
        // Dxyn: draw a sprite; with the vblank quirk the clock is ticked
        // until the next 60Hz boundary first, which decrements the delay
        // timer exactly once.
        let delay = if s.vblank_wait {
            spec_timer_dec(s.delay)
        } else {
            s.delay
        };
        let vblank = if s.vblank_wait {
            true
        } else {
            s.vblank
        };
        let xs = (vx as int) % (WIDTH as int);
        let ys = (vy as int) % (HEIGHT as int);
        if s.i + n <= MEMORY_SIZE {
            let rows = s.mem.subrange(s.i as int, s.i + n);
            let drawn = spec_draw_sprite(s.cells, s.fg, s.bg, xs, ys, rows);
            MachineState {
                cells: drawn.0,
                regs: s.regs.update(
                    15,
                    if drawn.1 {
                        1u8
                    } else {
                        0u8
                    },
                ),
                delay,
                vblank,
                pc: (s.pc + 2) as usize,
                ..s
            }
        } else {
            MachineState {
                regs: s.regs.update(15, 0u8),
                delay,
                vblank,
                pc: (s.pc + 2) as usize,
                ..s
            }
        }
    } else if class == 0xE {
        if n == 0xE {
            // Ex9E: skip if the key named by Vx is pressed.
            MachineState {
                pc: (s.pc + if spec_key_down(s, vx) { 4int } else { 2int }) as usize,
                ..s
            }
        } else if n == 0x1 {
            // ExA1: skip if the key named by Vx is not pressed.
            MachineState {
                pc: (s.pc + if !spec_key_down(s, vx) { 4int } else { 2int }) as usize,
                ..s
            }
        } else {
            next
        }
    } else if class == 0xF {
        let sub = op % 256;
        if sub == 0x07 {
            // Fx07: read the delay timer.
            MachineState { regs: s.regs.update(x, s.delay), pc: (s.pc + 2) as usize, ..s }
        } else if sub == 0x0A {
            // Fx0A: request a key press; later cycles freeze until one
            // arrives.
            MachineState {
                waiting: true,
                request_reg: x as usize,
                pc: (s.pc + 2) as usize,
                ..s
            }
        } else if sub == 0x15 {
            // Fx15: set the delay timer.
            MachineState { delay: vx, pc: (s.pc + 2) as usize, ..s }
        } else if sub == 0x18 {
            // Fx18: set the sound timer, which the model does not track.
            next
        } else if sub == 0x1E {
            // Fx1E: add Vx to the index register.
            MachineState {
                i: vstd::wrapping::usize_specs::wrapping_add(s.i, vx as usize),
                pc: (s.pc + 2) as usize,
                ..s
            }
        } else if sub == 0x29 {
            // Fx29: point the index register at a font glyph.
            MachineState { i: (5 * vx) as usize, pc: (s.pc + 2) as usize, ..s }
        } else if sub == 0x33 {
            // Fx33: store the BCD digits of Vx.
            if s.i + 3 <= MEMORY_SIZE {
                MachineState {
                    mem: s.mem.update(s.i as int, ((vx / 100) % 10) as u8).update(
                        s.i + 1,
                        ((vx / 10) % 10) as u8,
                    ).update(s.i + 2, (vx % 10) as u8),
                    pc: (s.pc + 2) as usize,
                    ..s
                }
            } else {
                next
            }
        } else if sub == 0x55 {
            // Fx55: store V0..Vx to memory at I; I advances past them.
            if s.i + x + 1 <= MEMORY_SIZE {
                MachineState {
                    mem: Seq::new(
                        MEMORY_SIZE as nat,
                        |j: int|
                            if s.i <= j < s.i + x + 1 {
                                s.regs[j - s.i]
                            } else {
                                s.mem[j]
                            },
                    ),
                    i: (s.i + x + 1) as usize,
                    pc: (s.pc + 2) as usize,
                    ..s
                }
            } else {
                next
            }
        } else if sub == 0x65 {
            // Fx65: load V0..Vx from memory at I; I advances past them.
            if s.i + x + 1 <= MEMORY_SIZE {
                MachineState {
                    regs: Seq::new(
                        16,
                        |j: int|
                            if 0 <= j <= x {
                                s.mem[s.i + j]
                            } else {
                                s.regs[j]
                            },
                    ),
                    i: (s.i + x + 1) as usize,
                    pc: (s.pc + 2) as usize,
                    ..s
                }
            } else {
                next
            }
        } else {
            next
        }
    } else {
        next
    }
}

/// A pending key response written into its target register and consumed.
pub open spec fn spec_consume_response(s: MachineState) -> MachineState {
    match s.response {
        Some(r) => MachineState {
            regs: s.regs.update(r.register as int, r.key_code),
            response: None,
            ..s
        },
        None => s,
    }
}

/// The opcode fetched big-endian at the program counter.
pub open spec fn spec_fetch(s: MachineState) -> int {
    s.mem[s.pc as int] * 256 + s.mem[s.pc + 1]
}

/// One whole processor cycle: frozen while waiting on input; otherwise any
/// pending key response is consumed, and unless the program counter has
/// run past memory, the next instruction is fetched and executed.
pub open spec fn spec_cycle(s: MachineState, rand: u8) -> MachineState {
    if s.waiting {
        s
    } else {
        let s1 = spec_consume_response(s);
        if s1.pc + 1 >= MEMORY_SIZE {
            s1
        } else {
            spec_step(s1, spec_fetch(s1), rand)
        }
    }
}

/// Whether a cycle from state `s` consults the random-number source.
pub open spec fn spec_cycle_uses_random(s: MachineState) -> bool {
    !s.waiting && spec_consume_response(s).pc + 1 < MEMORY_SIZE && op_uses_random(
        spec_fetch(spec_consume_response(s)),
    )
}

/// The clock's effect on a machine state: on a tick both the flag is
/// raised and the delay timer drops by one; otherwise only the flag is
/// cleared. Which of the two happens depends on the real time of day.
pub open spec fn spec_tick(s: MachineState, ticked: bool) -> MachineState {
    if ticked {
        MachineState { delay: spec_timer_dec(s.delay), vblank: true, ..s }
    } else {
        MachineState { vblank: false, ..s }
    }
}

} // verus!
