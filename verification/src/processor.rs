//! The processor: registers, stack, program counter, and the
//! fetch/decode/execute engine, proved to implement `spec_step` /
//! `spec_cycle` from the semantics module.
use vstd::prelude::*;

use crate::Bus;

verus! {

use crate::graphics::{HEIGHT, WIDTH};
use crate::memory::MEMORY_SIZE;
use crate::semantics::{
    op_class, op_uses_random, spec_consume_response, spec_cycle, spec_cycle_uses_random,
    spec_draw_sprite, spec_fetch, spec_step, MachineState,
};

/// The default starting address for the program counter.
pub const STARTING_PC: usize = 0x200;

/// The maximum number of entries kept in the executed-instruction history.
pub const INSTRUCTION_BUFFER_LENGTH: usize = 100;

/// Describes how the program counter should be updated after executing an
/// instruction.
#[derive(Clone, Copy, PartialEq, Eq, Structural, Debug)]
pub enum PCUpdate {
    /// Go directly to the next instruction (pc + 2).
    Next,
    /// Skip the next instruction (pc + 4).
    SkipNext,
    /// Jump to the given address.
    Jump(usize),
}

/// The program counter after applying a `PCUpdate` directive to `pc`.
pub open spec fn spec_apply_pc(dir: PCUpdate, pc: usize) -> usize {
    match dir {
        PCUpdate::Next => (pc + 2) as usize,
        PCUpdate::SkipNext => (pc + 4) as usize,
        PCUpdate::Jump(addr) => addr,
    }
}

/// One entry of the executed-instruction history.
#[derive(Clone, Debug)]
pub struct Instruction {
    /// The address of the instruction.
    pub address: usize,

    /// The instruction's opcode.
    pub opcode: usize,

    /// A display friendly string explaining what this instruction did.
    pub display: String,
}

/// The instruction history after recording one more entry: newest first,
/// with the oldest entry dropped once the buffer is full.
pub open spec fn spec_push_history(h: Seq<Instruction>, ins: Instruction) -> Seq<Instruction> {
    let grown = seq![ins] + h;
    if grown.len() > INSTRUCTION_BUFFER_LENGTH {
        grown.subrange(0, INSTRUCTION_BUFFER_LENGTH as int)
    } else {
        grown
    }
}

/// Relies on `getrandom::getrandom` to fill a one-byte buffer with random
/// data. A random result carries no promise; if the platform's random
/// source fails, zero is handed back and the machine keeps running.
#[verifier::external_body]
fn random_byte() -> u8 {
    let mut buf = [0u8; 1];
    match getrandom::getrandom(&mut buf) {
        Ok(()) => buf[0],
        Err(_) => 0,
    }
}

/// The CHIP-8 processor.
pub struct Processor {
    /// The sixteen general-purpose registers `V0`..`VF`.
    pub v: Vec<u8>,

    /// The index register `I`.
    pub i: usize,

    /// The program counter.
    pub pc: usize,

    /// The stack pointer: the number of occupied stack slots.
    pub sp: usize,

    /// The sixteen-level call stack.
    pub stack: Vec<usize>,

    /// Whether the shift quirk is enabled. This affects the `8xy6` and
    /// `8xyE` instructions: when true, `Vx` takes the value of `Vy`
    /// before being shifted.
    pub shift_quirk_enabled: bool,

    /// Whether the processor waits for the vertical blank interrupt
    /// before drawing a sprite, limiting drawing to 60 sprites a second.
    pub vblank_wait: bool,

    /// A display string explaining what the current opcode is doing.
    pub display: String,

    /// The most recently executed instructions, newest first, at most
    /// [`INSTRUCTION_BUFFER_LENGTH`] of them.
    pub instructions: std::collections::VecDeque<Instruction>,
}

/// The ghost snapshot of processor and bus that the instruction semantics
/// acts on.
pub open spec fn machine_view(p: Processor, b: Bus) -> MachineState {
    MachineState {
        regs: p.v@,
        i: p.i,
        pc: p.pc,
        sp: p.sp,
        stack: p.stack@,
        shift_quirk: p.shift_quirk_enabled,
        vblank_wait: p.vblank_wait,
        mem: b.memory@,
        cells: b.graphics.spec_cells(),
        fg: b.graphics.spec_fg(),
        bg: b.graphics.spec_bg(),
        keys: b.input.spec_keys(),
        waiting: b.input.spec_waiting(),
        request_reg: b.input.spec_request_reg(),
        response: b.input.spec_response(),
        delay: b.clock.delay_timer,
        vblank: b.clock.vblank_interrupt,
    }
}

/// How one run of the decode/execute stage relates the machine snapshots
/// before and after it: the state steps by `spec_step` except for the
/// program counter, whose new value is handed back as a directive instead.
pub open spec fn spec_post_matches(
    s0: MachineState,
    op: int,
    rand: u8,
    post: MachineState,
    dir: PCUpdate,
) -> bool {
    let s1 = spec_step(s0, op, rand);
    &&& post == MachineState { pc: s0.pc, ..s1 }
    &&& spec_apply_pc(dir, s0.pc) == s1.pc
}

/// The whole contract of one run of the decode/execute stage: both
/// machines stay well formed, the program counter, instruction history
/// and sound-timer handle are untouched, and the machine snapshot steps
/// by `spec_step` with `rand` as the drawn random byte.
pub open spec fn opcode_effect(
    pre_p: Processor,
    pre_b: Bus,
    post_p: Processor,
    post_b: Bus,
    opcode: usize,
    rand: u8,
    dir: PCUpdate,
) -> bool {
    &&& post_p.wf()
    &&& post_b.wf()
    &&& post_p.pc == pre_p.pc
    &&& post_p.instructions == pre_p.instructions
    &&& post_p.display == pre_p.display
    &&& post_p.shift_quirk_enabled == pre_p.shift_quirk_enabled
    &&& post_p.vblank_wait == pre_p.vblank_wait
    &&& post_b.clock.sound_timer == pre_b.clock.sound_timer
    &&& spec_post_matches(
        machine_view(pre_p, pre_b),
        opcode as int,
        rand,
        machine_view(post_p, post_b),
        dir,
    )
}

/// Whether a cycle from snapshot `s` gets past the input freeze and the
/// program-counter overrun check and so executes an instruction.
pub open spec fn spec_cycle_executes(s: MachineState) -> bool {
    !s.waiting && spec_consume_response(s).pc + 1 < MEMORY_SIZE
}

impl Processor {
    /// Fixed register and stack sizes, and a history within its bound.
    pub open spec fn wf(&self) -> bool {
        &&& self.v@.len() == 16
        &&& self.stack@.len() == 16
        &&& self.sp <= 16
        &&& self.instructions@.len() <= INSTRUCTION_BUFFER_LENGTH
    }

    /// Create a new `Processor` with cleared registers and the program
    /// counter at [`STARTING_PC`].
    pub fn new() -> (p: Processor)
        ensures
            p.wf(),
            p.v@ == Seq::new(16, |k: int| 0u8),
            p.i == 0,
            p.pc == STARTING_PC,
            p.sp == 0,
            p.stack@ == Seq::new(16, |k: int| 0usize),
            !p.shift_quirk_enabled,
            !p.vblank_wait,
            p.instructions@ == Seq::<Instruction>::empty(),
    {
        let mut v: Vec<u8> = Vec::new();
        let mut stack: Vec<usize> = Vec::new();
        let mut k: usize = 0;
        while k < 16
            invariant
                k <= 16,
                v@.len() == k,
                stack@.len() == k,
                forall|j: int| 0 <= j < k ==> v@[j] == 0u8,
                forall|j: int| 0 <= j < k ==> stack@[j] == 0usize,
            decreases 16 - k,
        {
            v.push(0);
            stack.push(0);
            k += 1;
        }
        let p = Processor {
            v,
            i: 0,
            pc: STARTING_PC,
            sp: 0,
            stack,
            shift_quirk_enabled: false,
            vblank_wait: false,
            display: String::new(),
            instructions: std::collections::VecDeque::new(),
        };
        proof {
            assert(p.v@ =~= Seq::new(16, |k: int| 0u8));
            assert(p.stack@ =~= Seq::new(16, |k: int| 0usize));
        }
        p
    }

    /// Record an executed instruction, dropping the oldest entry if the
    /// history has grown past its bound.
    fn push_instruction(&mut self, instruction: Instruction)
        requires
            old(self).wf(),
        ensures
            final(self).wf(),
            final(self).instructions@ == spec_push_history(
                old(self).instructions@,
                instruction,
            ),
            final(self).v == old(self).v,
            final(self).i == old(self).i,
            final(self).pc == old(self).pc,
            final(self).sp == old(self).sp,
            final(self).stack == old(self).stack,
            final(self).shift_quirk_enabled == old(self).shift_quirk_enabled,
            final(self).vblank_wait == old(self).vblank_wait,
            final(self).display == old(self).display,
    {
        self.instructions.push_front(instruction);
        if self.instructions.len() > INSTRUCTION_BUFFER_LENGTH {
            self.instructions.pop_back();
        }
        proof {
            assert(final(self).instructions@ =~= spec_push_history(
                old(self).instructions@,
                instruction,
            ));
        }
    }

    /// Execute one processor cycle: fetch, decode and execute the next
    /// opcode from memory, record it in the history, and move the program
    /// counter.
    ///
    /// While the input system is waiting for a key the whole machine is
    /// frozen and nothing happens. A pending key response is consumed
    /// first; a program counter at or past the end of memory makes the
    /// cycle a no-op.
    pub fn cycle(&mut self, bus: &mut Bus)
        requires
            old(self).wf(),
            old(bus).wf(),
        ensures
            final(self).wf(),
            final(bus).wf(),
            final(self).shift_quirk_enabled == old(self).shift_quirk_enabled,
            final(self).vblank_wait == old(self).vblank_wait,
            final(self).display == old(self).display,
            final(bus).clock.sound_timer == old(bus).clock.sound_timer,
            exists|rand: u8|
                machine_view(*final(self), *final(bus)) == spec_cycle(
                    machine_view(*old(self), *old(bus)),
                    rand,
                ),
            !spec_cycle_uses_random(machine_view(*old(self), *old(bus)))
                ==> machine_view(*final(self), *final(bus)) == spec_cycle(
                machine_view(*old(self), *old(bus)),
                0,
            ),
            !spec_cycle_executes(machine_view(*old(self), *old(bus)))
                ==> final(self).instructions == old(self).instructions,
            spec_cycle_executes(machine_view(*old(self), *old(bus))) ==> {
                let h = final(self).instructions@;
                let h0 = old(self).instructions@;
                &&& h.len() == if h0.len() < INSTRUCTION_BUFFER_LENGTH {
                    h0.len() + 1
                } else {
                    INSTRUCTION_BUFFER_LENGTH as nat
                }
                &&& h[0].address == old(self).pc
                &&& h[0].opcode == spec_fetch(
                    spec_consume_response(machine_view(*old(self), *old(bus))),
                )
                &&& h.subrange(1, h.len() as int) == h0.subrange(0, h.len() - 1)
            },
    {
        let ghost s0 = machine_view(*old(self), *old(bus));
        // If the input system is waiting for a key, don't process any
        // opcodes.
        if bus.input.waiting() {
            proof {
                assert(machine_view(*self, *bus) =~= spec_cycle(s0, 0));
            }
            return ;
        }
        match bus.input.request_response() {
            Some(request) => {
                self.v[request.register] = request.key_code;
            },
            None => {},
        }
        proof {
            assert(machine_view(*self, *bus) =~= spec_consume_response(s0));
        }
        if self.pc >= MEMORY_SIZE - 1 {
            proof {
                assert(machine_view(*self, *bus) =~= spec_cycle(s0, 0));
            }
            return ;
        }
        // Get the next two bytes and combine them into one big-endian
        // two-byte instruction.
        let hi = bus.memory.read(self.pc);
        let lo = bus.memory.read(self.pc + 1);
        let opcode = (hi as usize) * 256 + (lo as usize);
        let ghost s_mid = machine_view(*self, *bus);
        proof {
            assert(opcode as int == spec_fetch(s_mid));
        }

        let (pc_update, display) = self.process_opcode(opcode, bus);
        let ghost post_exec = machine_view(*self, *bus);

        // Record the executed instruction.
        let instruction = Instruction { address: self.pc, opcode, display };
        self.push_instruction(instruction);

        match pc_update {
            PCUpdate::Next => {
                self.pc = self.pc + 2;
            },
            PCUpdate::SkipNext => {
                self.pc = self.pc + 4;
            },
            PCUpdate::Jump(addr) => {
                self.pc = addr;
            },
        }
        proof {
            let rand = choose|rand: u8|
                spec_post_matches(s_mid, opcode as int, rand, post_exec, pc_update);
            assert(machine_view(*self, *bus) =~= spec_cycle(s0, rand));
            if !spec_cycle_uses_random(s0) {
                assert(spec_post_matches(s_mid, opcode as int, 0, post_exec, pc_update));
                assert(machine_view(*self, *bus) =~= spec_cycle(s0, 0));
            }
        }
    }

    /// Decode and execute a single opcode, applying its effects to this
    /// processor and the given bus. Returns the program-counter directive
    /// and a description of the instruction.
    ///
    /// The program counter itself is not moved here; [`Self::cycle`]
    /// applies the returned directive.
    pub fn process_opcode(&mut self, opcode: usize, bus: &mut Bus) -> (r: (PCUpdate, String))
        requires
            old(self).wf(),
            old(bus).wf(),
            old(self).pc <= usize::MAX - 2,
        ensures
            exists|rand: u8|
                #![trigger spec_step(machine_view(*old(self), *old(bus)), opcode as int, rand)]
                opcode_effect(
                    *old(self),
                    *old(bus),
                    *final(self),
                    *final(bus),
                    opcode,
                    rand,
                    r.0,
                ),
            !op_uses_random(opcode as int) ==> opcode_effect(
                *old(self),
                *old(bus),
                *final(self),
                *final(bus),
                opcode,
                0,
                r.0,
            ),
    {
        let class = (opcode / 0x1000) % 16;
        if class == 0x0 {
            self.exec_system(opcode, bus)
        } else if class == 0x1 {
            self.exec_jump(opcode, bus)
        } else if class == 0x2 {
            self.exec_call(opcode, bus)
        } else if class == 0x3 || class == 0x4 || class == 0x5 || class == 0x9 {
            self.exec_skip_compare(opcode, bus)
        } else if class == 0x6 {
            self.exec_load_immediate(opcode, bus)
        } else if class == 0x7 {
            self.exec_add_immediate(opcode, bus)
        } else if class == 0x8 {
            self.exec_alu(opcode, bus)
        } else if class == 0xA {
            self.exec_load_index(opcode, bus)
        } else if class == 0xB {
            self.exec_jump_offset(opcode, bus)
        } else if class == 0xC {
            self.exec_random(opcode, bus)
        } else if class == 0xD {
            self.exec_draw(opcode, bus)
        } else if class == 0xE {
            self.exec_skip_key(opcode, bus)
        } else {
            self.exec_misc(opcode, bus)
        }
    }

    /// `00E0` clears the screen and `00EE` returns from a subroutine;
    /// other system opcodes are ignored.
    fn exec_system(&mut self, opcode: usize, bus: &mut Bus) -> (r: (PCUpdate, String))
        requires
            old(self).wf(),
            old(bus).wf(),
            op_class(opcode as int) == 0x0,
        ensures
            opcode_effect(*old(self), *old(bus), *final(self), *final(bus), opcode, 0, r.0),
    {
        let ghost s0 = machine_view(*old(self), *old(bus));
        let n = opcode % 16;
        if n == 0x0 {
            // 00E0
            bus.graphics.clear();
            proof {
                assert(opcode_effect(
                    *old(self),
                    *old(bus),
                    *self,
                    *bus,
                    opcode,
                    0,
                    PCUpdate::Next,
                )) by {
                    reveal(spec_step);
                    assert(machine_view(*self, *bus) =~= MachineState {
                        pc: s0.pc,
                        ..spec_step(s0, opcode as int, 0)
                    });
                };
            }
            (PCUpdate::Next, "Clear the screen".to_string())
        } else if n == 0xE {
            // 00EE
            if self.sp > 0 {
                self.sp = self.sp - 1;
                let addr = self.stack[self.sp];
                proof {
                    assert(opcode_effect(
                        *old(self),
                        *old(bus),
                        *self,
                        *bus,
                        opcode,
                        0,
                        PCUpdate::Jump(addr),
                    )) by {
                        reveal(spec_step);
                        assert(machine_view(*self, *bus) =~= MachineState {
                            pc: s0.pc,
                            ..spec_step(s0, opcode as int, 0)
                        });
                    };
                }
                (PCUpdate::Jump(addr), "Return from subroutine".to_string())
            } else {
                proof {
                    assert(spec_step(s0, opcode as int, 0) == (MachineState {
                        pc: ((s0.pc + 2) as usize),
                        ..s0
                    })) by {
                        reveal(spec_step);
                    };
                    self.lemma_noop_effect(s0, *old(self), *old(bus), *bus, opcode);
                }
                (PCUpdate::Next, "Return ignored: empty stack".to_string())
            }
        } else {
            // Invalid.
            proof {
                assert(spec_step(s0, opcode as int, 0) == (MachineState {
                    pc: ((s0.pc + 2) as usize),
                    ..s0
                })) by {
                    reveal(spec_step);
                };
                self.lemma_noop_effect(s0, *old(self), *old(bus), *bus, opcode);
            }
            (PCUpdate::Next, "Invalid instruction".to_string())
        }
    }

    /// Opcodes that change nothing and move to the next instruction:
    /// invalid patterns and guarded-off accesses.
    proof fn lemma_noop_effect(
        &self,
        s0: MachineState,
        pre_p: Processor,
        pre_b: Bus,
        b: Bus,
        opcode: usize,
    )
        requires
            s0 == machine_view(pre_p, pre_b),
            *self == pre_p,
            b == pre_b,
            pre_p.wf(),
            pre_b.wf(),
            spec_step(s0, opcode as int, 0) == (MachineState {
                pc: ((s0.pc + 2) as usize),
                ..s0
            }),
        ensures
            opcode_effect(pre_p, pre_b, *self, b, opcode, 0, PCUpdate::Next),
    {
        assert(machine_view(*self, b) =~= MachineState {
            pc: s0.pc,
            ..spec_step(s0, opcode as int, 0)
        });
    }

    /// `1nnn`: jump to `nnn`.
    fn exec_jump(&mut self, opcode: usize, bus: &mut Bus) -> (r: (PCUpdate, String))
        requires
            old(self).wf(),
            old(bus).wf(),
            op_class(opcode as int) == 0x1,
        ensures
            opcode_effect(*old(self), *old(bus), *final(self), *final(bus), opcode, 0, r.0),
    {
        let ghost s0 = machine_view(*old(self), *old(bus));
        let nnn = opcode % 0x1000;
        proof {
            assert(opcode_effect(
                *old(self),
                *old(bus),
                *self,
                *bus,
                opcode,
                0,
                PCUpdate::Jump(nnn),
            )) by {
                reveal(spec_step);
                assert(machine_view(*self, *bus) =~= MachineState {
                    pc: s0.pc,
                    ..spec_step(s0, opcode as int, 0)
                });
            };
        }
        (PCUpdate::Jump(nnn), "Jump".to_string())
    }

    /// `2nnn`: push the return address and jump to `nnn`. With all
    /// sixteen stack slots in use the call is ignored.
    fn exec_call(&mut self, opcode: usize, bus: &mut Bus) -> (r: (PCUpdate, String))
        requires
            old(self).wf(),
            old(bus).wf(),
            old(self).pc <= usize::MAX - 2,
            op_class(opcode as int) == 0x2,
        ensures
            opcode_effect(*old(self), *old(bus), *final(self), *final(bus), opcode, 0, r.0),
    {
        let ghost s0 = machine_view(*old(self), *old(bus));
        let nnn = opcode % 0x1000;
        if self.sp < 16 {
            let ret = self.pc + 2;
            self.stack[self.sp] = ret;
            self.sp = self.sp + 1;
            proof {
                assert(opcode_effect(
                    *old(self),
                    *old(bus),
                    *self,
                    *bus,
                    opcode,
                    0,
                    PCUpdate::Jump(nnn),
                )) by {
                    reveal(spec_step);
                    assert(machine_view(*self, *bus) =~= MachineState {
                        pc: s0.pc,
                        ..spec_step(s0, opcode as int, 0)
                    });
                };
            }
            (PCUpdate::Jump(nnn), "Call subroutine".to_string())
        } else {
            proof {
                assert(spec_step(s0, opcode as int, 0) == MachineState {
                    pc: ((s0.pc + 2) as usize),
                    ..s0
                }) by {
                    reveal(spec_step);
                };
                self.lemma_noop_effect(s0, *old(self), *old(bus), *bus, opcode);
            }
            (PCUpdate::Next, "Call ignored: stack full".to_string())
        }
    }

    /// `3xnn`, `4xnn`, `5xy0` and `9xy0`: skip the next instruction when
    /// the comparison holds.
    fn exec_skip_compare(&mut self, opcode: usize, bus: &mut Bus) -> (r: (PCUpdate, String))
        requires
            old(self).wf(),
            old(bus).wf(),
            op_class(opcode as int) == 0x3 || op_class(opcode as int) == 0x4 || op_class(
                opcode as int,
            ) == 0x5 || op_class(opcode as int) == 0x9,
        ensures
            opcode_effect(*old(self), *old(bus), *final(self), *final(bus), opcode, 0, r.0),
    {
        let ghost s0 = machine_view(*old(self), *old(bus));
        let class = (opcode / 0x1000) % 16;
        let x = (opcode / 0x100) % 16;
        let y = (opcode / 0x10) % 16;
        let nn = (opcode % 256) as u8;
        let vx = self.v[x];
        let vy = self.v[y];
        let skip = if class == 0x3 {
            vx == nn
        } else if class == 0x4 {
            vx != nn
        } else if class == 0x5 {
            vx == vy
        } else {
            vx != vy
        };
        let dir = if skip {
            PCUpdate::SkipNext
        } else {
            PCUpdate::Next
        };
        proof {
            assert(opcode_effect(*old(self), *old(bus), *self, *bus, opcode, 0, dir)) by {
                reveal(spec_step);
                assert(machine_view(*self, *bus) =~= MachineState {
                    pc: s0.pc,
                    ..spec_step(s0, opcode as int, 0)
                });
            };
        }
        if skip {
            (dir, "Skip next instruction: condition holds".to_string())
        } else {
            (dir, "No skip: condition does not hold".to_string())
        }
    }

    /// `6xnn`: load the immediate byte into `Vx`.
    fn exec_load_immediate(&mut self, opcode: usize, bus: &mut Bus) -> (r: (PCUpdate, String))
        requires
            old(self).wf(),
            old(bus).wf(),
            op_class(opcode as int) == 0x6,
        ensures
            opcode_effect(*old(self), *old(bus), *final(self), *final(bus), opcode, 0, r.0),
    {
        let ghost s0 = machine_view(*old(self), *old(bus));
        let x = (opcode / 0x100) % 16;
        let nn = (opcode % 256) as u8;
        self.v[x] = nn;
        proof {
            assert(opcode_effect(
                *old(self),
                *old(bus),
                *self,
                *bus,
                opcode,
                0,
                PCUpdate::Next,
            )) by {
                reveal(spec_step);
                assert(machine_view(*self, *bus) =~= MachineState {
                    pc: s0.pc,
                    ..spec_step(s0, opcode as int, 0)
                });
            };
        }
        (PCUpdate::Next, "Load immediate".to_string())
    }

    /// `7xnn`: add the immediate byte to `Vx`, wrapping around; the flag
    /// register is left alone.
    fn exec_add_immediate(&mut self, opcode: usize, bus: &mut Bus) -> (r: (PCUpdate, String))
        requires
            old(self).wf(),
            old(bus).wf(),
            op_class(opcode as int) == 0x7,
        ensures
            opcode_effect(*old(self), *old(bus), *final(self), *final(bus), opcode, 0, r.0),
    {
        let ghost s0 = machine_view(*old(self), *old(bus));
        let x = (opcode / 0x100) % 16;
        let nn = (opcode % 256) as u8;
        let vx = self.v[x];
        self.v[x] = ((vx as u16 + nn as u16) % 256) as u8;
        proof {
            assert(opcode_effect(
                *old(self),
                *old(bus),
                *self,
                *bus,
                opcode,
                0,
                PCUpdate::Next,
            )) by {
                reveal(spec_step);
                assert(machine_view(*self, *bus) =~= MachineState {
                    pc: s0.pc,
                    ..spec_step(s0, opcode as int, 0)
                });
            };
        }
        (PCUpdate::Next, "Add immediate".to_string())
    }

    /// The `8xy_` family: register-to-register moves, bitwise logic,
    /// add/subtract with the flag register, and shifts.
    #[verifier::rlimit(100)]
    fn exec_alu(&mut self, opcode: usize, bus: &mut Bus) -> (r: (PCUpdate, String))
        requires
            old(self).wf(),
            old(bus).wf(),
            op_class(opcode as int) == 0x8,
        ensures
            opcode_effect(*old(self), *old(bus), *final(self), *final(bus), opcode, 0, r.0),
    {
        let ghost s0 = machine_view(*old(self), *old(bus));
        let x = (opcode / 0x100) % 16;
        let y = (opcode / 0x10) % 16;
        let n = opcode % 16;
        if n == 0x0 {
            // 8xy0
            let vy = self.v[y];
            self.v[x] = vy;
            proof {
                assert(opcode_effect(
                    *old(self),
                    *old(bus),
                    *self,
                    *bus,
                    opcode,
                    0,
                    PCUpdate::Next,
                )) by {
                    reveal(spec_step);
                    assert(machine_view(*self, *bus) =~= MachineState {
                        pc: s0.pc,
                        ..spec_step(s0, opcode as int, 0)
                    });
                };
            }
            (PCUpdate::Next, "Copy register".to_string())
        } else if n == 0x1 {
            // 8xy1
            let vx = self.v[x];
            let vy = self.v[y];
            self.v[x] = vx | vy;
            self.v[15] = 0;
            proof {
                assert(opcode_effect(
                    *old(self),
                    *old(bus),
                    *self,
                    *bus,
                    opcode,
                    0,
                    PCUpdate::Next,
                )) by {
                    reveal(spec_step);
                    assert(machine_view(*self, *bus) =~= MachineState {
                        pc: s0.pc,
                        ..spec_step(s0, opcode as int, 0)
                    });
                };
            }
            (PCUpdate::Next, "Bitwise or".to_string())
        } else if n == 0x2 {
            // 8xy2
            let vx = self.v[x];
            let vy = self.v[y];
            self.v[x] = vx & vy;
            self.v[15] = 0;
            proof {
                assert(opcode_effect(
                    *old(self),
                    *old(bus),
                    *self,
                    *bus,
                    opcode,
                    0,
                    PCUpdate::Next,
                )) by {
                    reveal(spec_step);
                    assert(machine_view(*self, *bus) =~= MachineState {
                        pc: s0.pc,
                        ..spec_step(s0, opcode as int, 0)
                    });
                };
            }
            (PCUpdate::Next, "Bitwise and".to_string())
        } else if n == 0x3 {
            // 8xy3
            let vx = self.v[x];
            let vy = self.v[y];
            self.v[x] = vx ^ vy;
            self.v[15] = 0;
            proof {
                assert(opcode_effect(
                    *old(self),
                    *old(bus),
                    *self,
                    *bus,
                    opcode,
                    0,
                    PCUpdate::Next,
                )) by {
                    reveal(spec_step);
                    assert(machine_view(*self, *bus) =~= MachineState {
                        pc: s0.pc,
                        ..spec_step(s0, opcode as int, 0)
                    });
                };
            }
            (PCUpdate::Next, "Bitwise xor".to_string())
        } else if n == 0x4 {
            // 8xy4
            let vx = self.v[x];
            let vy = self.v[y];
            let sum = vx as u16 + vy as u16;
            self.v[x] = (sum % 256) as u8;
            self.v[15] = if sum > 255 {
                1
            } else {
                0
            };
            proof {
                assert(opcode_effect(
                    *old(self),
                    *old(bus),
                    *self,
                    *bus,
                    opcode,
                    0,
                    PCUpdate::Next,
                )) by {
                    reveal(spec_step);
                    assert(machine_view(*self, *bus) =~= MachineState {
                        pc: s0.pc,
                        ..spec_step(s0, opcode as int, 0)
                    });
                };
            }
            (PCUpdate::Next, "Add with carry".to_string())
        } else if n == 0x5 {
            // 8xy5
            let vx = self.v[x];
            let vy = self.v[y];
            self.v[x] = if vx >= vy {
                vx - vy
            } else {
                (vx as u16 + 256 - vy as u16) as u8
            };
            self.v[15] = if vx >= vy {
                1
            } else {
                0
            };
            proof {
                assert(opcode_effect(
                    *old(self),
                    *old(bus),
                    *self,
                    *bus,
                    opcode,
                    0,
                    PCUpdate::Next,
                )) by {
                    reveal(spec_step);
                    assert(machine_view(*self, *bus) =~= MachineState {
                        pc: s0.pc,
                        ..spec_step(s0, opcode as int, 0)
                    });
                };
            }
            (PCUpdate::Next, "Subtract with borrow flag".to_string())
        } else if n == 0x6 {
            // 8xy6
            let src = if self.shift_quirk_enabled {
                self.v[y]
            } else {
                self.v[x]
            };
            self.v[x] = src / 2;
            self.v[15] = src % 2;
            proof {
                assert(opcode_effect(
                    *old(self),
                    *old(bus),
                    *self,
                    *bus,
                    opcode,
                    0,
                    PCUpdate::Next,
                )) by {
                    reveal(spec_step);
                    assert(machine_view(*self, *bus) =~= MachineState {
                        pc: s0.pc,
                        ..spec_step(s0, opcode as int, 0)
                    });
                };
            }
            (PCUpdate::Next, "Shift right".to_string())
        } else if n == 0x7 {
            // 8xy7
            let vx = self.v[x];
            let vy = self.v[y];
            self.v[x] = if vy >= vx {
                vy - vx
            } else {
                (vy as u16 + 256 - vx as u16) as u8
            };
            self.v[15] = if vy >= vx {
                1
            } else {
                0
            };
            proof {
                assert(opcode_effect(
                    *old(self),
                    *old(bus),
                    *self,
                    *bus,
                    opcode,
                    0,
                    PCUpdate::Next,
                )) by {
                    reveal(spec_step);
                    assert(machine_view(*self, *bus) =~= MachineState {
                        pc: s0.pc,
                        ..spec_step(s0, opcode as int, 0)
                    });
                };
            }
            (PCUpdate::Next, "Reverse subtract with borrow flag".to_string())
        } else if n == 0xE {
            // 8xyE
            let src = if self.shift_quirk_enabled {
                self.v[y]
            } else {
                self.v[x]
            };
            self.v[x] = ((src as u16 * 2) % 256) as u8;
            self.v[15] = src / 128;
            proof {
                assert(opcode_effect(
                    *old(self),
                    *old(bus),
                    *self,
                    *bus,
                    opcode,
                    0,
                    PCUpdate::Next,
                )) by {
                    reveal(spec_step);
                    assert(machine_view(*self, *bus) =~= MachineState {
                        pc: s0.pc,
                        ..spec_step(s0, opcode as int, 0)
                    });
                };
            }
            (PCUpdate::Next, "Shift left".to_string())
        } else {
            // Invalid.
            proof {
                assert(spec_step(s0, opcode as int, 0) == MachineState {
                    pc: ((s0.pc + 2) as usize),
                    ..s0
                }) by {
                    reveal(spec_step);
                };
                self.lemma_noop_effect(s0, *old(self), *old(bus), *bus, opcode);
            }
            (PCUpdate::Next, "Invalid instruction".to_string())
        }
    }

    /// `Annn`: load `nnn` into the index register.
    fn exec_load_index(&mut self, opcode: usize, bus: &mut Bus) -> (r: (PCUpdate, String))
        requires
            old(self).wf(),
            old(bus).wf(),
            op_class(opcode as int) == 0xA,
        ensures
            opcode_effect(*old(self), *old(bus), *final(self), *final(bus), opcode, 0, r.0),
    {
        let ghost s0 = machine_view(*old(self), *old(bus));
        let nnn = opcode % 0x1000;
        self.i = nnn;
        proof {
            assert(opcode_effect(
                *old(self),
                *old(bus),
                *self,
                *bus,
                opcode,
                0,
                PCUpdate::Next,
            )) by {
                reveal(spec_step);
                assert(machine_view(*self, *bus) =~= MachineState {
                    pc: s0.pc,
                    ..spec_step(s0, opcode as int, 0)
                });
            };
        }
        (PCUpdate::Next, "Load index register".to_string())
    }

    /// `Bnnn`: jump to `nnn` plus `V0`.
    fn exec_jump_offset(&mut self, opcode: usize, bus: &mut Bus) -> (r: (PCUpdate, String))
        requires
            old(self).wf(),
            old(bus).wf(),
            op_class(opcode as int) == 0xB,
        ensures
            opcode_effect(*old(self), *old(bus), *final(self), *final(bus), opcode, 0, r.0),
    {
        let ghost s0 = machine_view(*old(self), *old(bus));
        let nnn = opcode % 0x1000;
        let v0 = self.v[0];
        let target = nnn + v0 as usize;
        proof {
            assert(opcode_effect(
                *old(self),
                *old(bus),
                *self,
                *bus,
                opcode,
                0,
                PCUpdate::Jump(target),
            )) by {
                reveal(spec_step);
                assert(machine_view(*self, *bus) =~= MachineState {
                    pc: s0.pc,
                    ..spec_step(s0, opcode as int, 0)
                });
            };
        }
        (PCUpdate::Jump(target), "Jump with offset".to_string())
    }

    /// `Cxnn`: draw a random byte, mask it with `nn` and store it in
    /// `Vx`.
    fn exec_random(&mut self, opcode: usize, bus: &mut Bus) -> (r: (PCUpdate, String))
        requires
            old(self).wf(),
            old(bus).wf(),
            op_class(opcode as int) == 0xC,
        ensures
            exists|rand: u8|
                #![trigger spec_step(machine_view(*old(self), *old(bus)), opcode as int, rand)]
                opcode_effect(
                    *old(self),
                    *old(bus),
                    *final(self),
                    *final(bus),
                    opcode,
                    rand,
                    r.0,
                ),
    {
        let ghost s0 = machine_view(*old(self), *old(bus));
        let x = (opcode / 0x100) % 16;
        let nn = (opcode % 256) as u8;
        let rb = random_byte();
        self.v[x] = rb & nn;
        proof {
            assert(opcode_effect(
                *old(self),
                *old(bus),
                *self,
                *bus,
                opcode,
                rb,
                PCUpdate::Next,
            )) by {
                reveal(spec_step);
                assert(machine_view(*self, *bus) =~= MachineState {
                    pc: s0.pc,
                    ..spec_step(s0, opcode as int, rb)
                });
            };
        }
        (PCUpdate::Next, "Load random byte".to_string())
    }

    /// `Dxyn`: draw an `n`-row sprite from memory at `I` to the screen
    /// position named by `Vx` and `Vy`; `VF` reports the collision. With
    /// the vertical-blank quirk the clock first waits out the next 60Hz
    /// boundary. A sprite reaching past the end of memory is not drawn.
    #[verifier::rlimit(100)]
    fn exec_draw(&mut self, opcode: usize, bus: &mut Bus) -> (r: (PCUpdate, String))
        requires
            old(self).wf(),
            old(bus).wf(),
            op_class(opcode as int) == 0xD,
        ensures
            opcode_effect(*old(self), *old(bus), *final(self), *final(bus), opcode, 0, r.0),
    {
        let ghost s0 = machine_view(*old(self), *old(bus));
        let x = (opcode / 0x100) % 16;
        let y = (opcode / 0x10) % 16;
        let n = opcode % 16;
        if self.vblank_wait {
            // Wait out the next 60Hz boundary before drawing; its tick
            // decrements the delay timer exactly once.
            bus.clock.wait_for_vblank();
        }
        let vx = self.v[x];
        let vy = self.v[y];
        let xs = (vx as usize) % WIDTH;
        let ys = (vy as usize) % HEIGHT;
        if self.i <= MEMORY_SIZE - n {
            let ghost cells0 = bus.graphics.spec_cells();
            let ghost fg = bus.graphics.spec_fg();
            let ghost bg = bus.graphics.spec_bg();
            let ghost mem0 = bus.memory@;
            let ghost inp0 = bus.input;
            let ghost clk0 = bus.clock;
            let ghost rows = bus.memory@.subrange(self.i as int, self.i + n);
            let i0 = self.i;
            let mut collision = false;
            let mut k: usize = 0;
            while k < n
                invariant
                    k <= n,
                    n < 16,
                    i0 + n <= MEMORY_SIZE,
                    i0 == self.i,
                    xs < WIDTH,
                    ys < HEIGHT,
                    bus.memory@ == mem0,
                    bus.memory.wf(),
                    bus.input == inp0,
                    bus.clock == clk0,
                    bus.graphics.wf(),
                    bus.graphics.spec_fg() == fg,
                    bus.graphics.spec_bg() == bg,
                    rows == mem0.subrange(i0 as int, i0 + n),
                    bus.graphics.spec_cells() == spec_draw_sprite(
                        cells0,
                        fg,
                        bg,
                        xs as int,
                        ys as int,
                        rows.take(k as int),
                    ).0,
                    collision == spec_draw_sprite(
                        cells0,
                        fg,
                        bg,
                        xs as int,
                        ys as int,
                        rows.take(k as int),
                    ).1,
                decreases n - k,
            {
                let data = bus.memory.read(self.i + k);
                let hit = bus.graphics.draw_byte(xs, ys + k, data);
                proof {
                    assert(rows.take(k + 1).drop_last() =~= rows.take(k as int));
                    assert(rows.take(k + 1).last() == rows[k as int]);
                    assert(data == rows[k as int]);
                }
                collision = collision || hit;
                k += 1;
            }
            let flag: u8 = if collision {
                1
            } else {
                0
            };
            self.v[15] = flag;
            proof {
                assert(rows.take(n as int) =~= rows);
                assert(opcode_effect(
                    *old(self),
                    *old(bus),
                    *self,
                    *bus,
                    opcode,
                    0,
                    PCUpdate::Next,
                )) by {
                    reveal(spec_step);
                    assert(machine_view(*self, *bus) =~= MachineState {
                        pc: s0.pc,
                        ..spec_step(s0, opcode as int, 0)
                    });
                };
            }
            (PCUpdate::Next, "Draw sprite".to_string())
        } else {
            self.v[15] = 0;
            proof {
                assert(opcode_effect(
                    *old(self),
                    *old(bus),
                    *self,
                    *bus,
                    opcode,
                    0,
                    PCUpdate::Next,
                )) by {
                    reveal(spec_step);
                    assert(machine_view(*self, *bus) =~= MachineState {
                        pc: s0.pc,
                        ..spec_step(s0, opcode as int, 0)
                    });
                };
            }
            (PCUpdate::Next, "Draw ignored: sprite outside memory".to_string())
        }
    }

    /// `Ex9E` and `ExA1`: skip the next instruction depending on whether
    /// the key named by `Vx` is pressed. A register value outside the
    /// sixteen key codes never counts as pressed.
    fn exec_skip_key(&mut self, opcode: usize, bus: &mut Bus) -> (r: (PCUpdate, String))
        requires
            old(self).wf(),
            old(bus).wf(),
            op_class(opcode as int) == 0xE,
        ensures
            opcode_effect(*old(self), *old(bus), *final(self), *final(bus), opcode, 0, r.0),
    {
        let ghost s0 = machine_view(*old(self), *old(bus));
        let x = (opcode / 0x100) % 16;
        let n = opcode % 16;
        if n == 0xE || n == 0x1 {
            let vx = self.v[x];
            let pressed = if vx < 16 {
                bus.input.is_key_pressed(vx)
            } else {
                false
            };
            let skip = if n == 0xE {
                pressed
            } else {
                !pressed
            };
            let dir = if skip {
                PCUpdate::SkipNext
            } else {
                PCUpdate::Next
            };
            proof {
                assert(opcode_effect(*old(self), *old(bus), *self, *bus, opcode, 0, dir)) by {
                    reveal(spec_step);
                    assert(machine_view(*self, *bus) =~= MachineState {
                        pc: s0.pc,
                        ..spec_step(s0, opcode as int, 0)
                    });
                };
            }
            if skip {
                (dir, "Skip next instruction: key condition holds".to_string())
            } else {
                (dir, "No skip: key condition does not hold".to_string())
            }
        } else {
            // Invalid.
            proof {
                assert(spec_step(s0, opcode as int, 0) == MachineState {
                    pc: ((s0.pc + 2) as usize),
                    ..s0
                }) by {
                    reveal(spec_step);
                };
                self.lemma_noop_effect(s0, *old(self), *old(bus), *bus, opcode);
            }
            (PCUpdate::Next, "Invalid instruction".to_string())
        }
    }

    /// The `Fx__` family: timers, key waits, index-register arithmetic,
    /// font lookup, binary-coded decimal, and register save/restore.
    #[verifier::rlimit(100)]
    fn exec_misc(&mut self, opcode: usize, bus: &mut Bus) -> (r: (PCUpdate, String))
        requires
            old(self).wf(),
            old(bus).wf(),
            op_class(opcode as int) == 0xF,
        ensures
            opcode_effect(*old(self), *old(bus), *final(self), *final(bus), opcode, 0, r.0),
    {
        let ghost s0 = machine_view(*old(self), *old(bus));
        let x = (opcode / 0x100) % 16;
        let sub = opcode % 256;
        if sub == 0x07 {
            // Fx07
            let d = bus.clock.delay_timer;
            self.v[x] = d;
            proof {
                assert(opcode_effect(
                    *old(self),
                    *old(bus),
                    *self,
                    *bus,
                    opcode,
                    0,
                    PCUpdate::Next,
                )) by {
                    reveal(spec_step);
                    assert(machine_view(*self, *bus) =~= MachineState {
                        pc: s0.pc,
                        ..spec_step(s0, opcode as int, 0)
                    });
                };
            }
            (PCUpdate::Next, "Read delay timer".to_string())
        } else if sub == 0x0A {
            // Fx0A
            bus.input.request_key_press(x);
            proof {
                assert(opcode_effect(
                    *old(self),
                    *old(bus),
                    *self,
                    *bus,
                    opcode,
                    0,
                    PCUpdate::Next,
                )) by {
                    reveal(spec_step);
                    assert(machine_view(*self, *bus) =~= MachineState {
                        pc: s0.pc,
                        ..spec_step(s0, opcode as int, 0)
                    });
                };
            }
            (PCUpdate::Next, "Wait for key press".to_string())
        } else if sub == 0x15 {
            // Fx15
            let vx = self.v[x];
            bus.clock.delay_timer = vx;
            proof {
                assert(opcode_effect(
                    *old(self),
                    *old(bus),
                    *self,
                    *bus,
                    opcode,
                    0,
                    PCUpdate::Next,
                )) by {
                    reveal(spec_step);
                    assert(machine_view(*self, *bus) =~= MachineState {
                        pc: s0.pc,
                        ..spec_step(s0, opcode as int, 0)
                    });
                };
            }
            (PCUpdate::Next, "Set delay timer".to_string())
        } else if sub == 0x18 {
            // Fx18
            let vx = self.v[x];
            bus.clock.set_sound_timer(vx);
            proof {
                assert(opcode_effect(
                    *old(self),
                    *old(bus),
                    *self,
                    *bus,
                    opcode,
                    0,
                    PCUpdate::Next,
                )) by {
                    reveal(spec_step);
                    assert(machine_view(*self, *bus) =~= MachineState {
                        pc: s0.pc,
                        ..spec_step(s0, opcode as int, 0)
                    });
                };
            }
            (PCUpdate::Next, "Set sound timer".to_string())
        } else if sub == 0x1E {
            // Fx1E
            let vx = self.v[x];
            self.i = self.i.wrapping_add(vx as usize);
            proof {
                assert(opcode_effect(
                    *old(self),
                    *old(bus),
                    *self,
                    *bus,
                    opcode,
                    0,
                    PCUpdate::Next,
                )) by {
                    reveal(spec_step);
                    assert(machine_view(*self, *bus) =~= MachineState {
                        pc: s0.pc,
                        ..spec_step(s0, opcode as int, 0)
                    });
                };
            }
            (PCUpdate::Next, "Add to index register".to_string())
        } else if sub == 0x29 {
            // Fx29
            let vx = self.v[x];
            self.i = 5 * (vx as usize);
            proof {
                assert(opcode_effect(
                    *old(self),
                    *old(bus),
                    *self,
                    *bus,
                    opcode,
                    0,
                    PCUpdate::Next,
                )) by {
                    reveal(spec_step);
                    assert(machine_view(*self, *bus) =~= MachineState {
                        pc: s0.pc,
                        ..spec_step(s0, opcode as int, 0)
                    });
                };
            }
            (PCUpdate::Next, "Load font glyph address".to_string())
        } else if sub == 0x33 {
            self.exec_store_bcd(opcode, bus)
        } else if sub == 0x55 {
            self.exec_store_registers(opcode, bus)
        } else if sub == 0x65 {
            self.exec_load_registers(opcode, bus)
        } else {
            // Invalid.
            proof {
                assert(spec_step(s0, opcode as int, 0) == MachineState {
                    pc: ((s0.pc + 2) as usize),
                    ..s0
                }) by {
                    reveal(spec_step);
                };
                self.lemma_noop_effect(s0, *old(self), *old(bus), *bus, opcode);
            }
            (PCUpdate::Next, "Invalid instruction".to_string())
        }
    }

    /// `Fx33`: store the hundreds, tens and ones digits of `Vx` at `I`,
    /// `I + 1` and `I + 2`. With `I` too close to the end of memory the
    /// store is ignored.
    fn exec_store_bcd(&mut self, opcode: usize, bus: &mut Bus) -> (r: (PCUpdate, String))
        requires
            old(self).wf(),
            old(bus).wf(),
            op_class(opcode as int) == 0xF,
            opcode as int % 256 == 0x33,
        ensures
            opcode_effect(*old(self), *old(bus), *final(self), *final(bus), opcode, 0, r.0),
    {
        let ghost s0 = machine_view(*old(self), *old(bus));
        let x = (opcode / 0x100) % 16;
        if self.i <= MEMORY_SIZE - 3 {
            let vx = self.v[x];
            bus.memory.write(self.i, (vx / 100) % 10);
            bus.memory.write(self.i + 1, (vx / 10) % 10);
            bus.memory.write(self.i + 2, vx % 10);
            proof {
                assert(opcode_effect(
                    *old(self),
                    *old(bus),
                    *self,
                    *bus,
                    opcode,
                    0,
                    PCUpdate::Next,
                )) by {
                    reveal(spec_step);
                    assert(machine_view(*self, *bus) =~= MachineState {
                        pc: s0.pc,
                        ..spec_step(s0, opcode as int, 0)
                    });
                };
            }
            (PCUpdate::Next, "Store binary-coded decimal".to_string())
        } else {
            proof {
                assert(spec_step(s0, opcode as int, 0) == MachineState {
                    pc: ((s0.pc + 2) as usize),
                    ..s0
                }) by {
                    reveal(spec_step);
                };
                self.lemma_noop_effect(s0, *old(self), *old(bus), *bus, opcode);
            }
            (PCUpdate::Next, "Store ignored: outside memory".to_string())
        }
    }

    /// `Fx55`: store `V0` through `Vx` to memory starting at `I`, which
    /// advances past the stored bytes. With the range reaching past the
    /// end of memory the store is ignored.
    #[verifier::rlimit(100)]
    fn exec_store_registers(&mut self, opcode: usize, bus: &mut Bus) -> (r: (PCUpdate, String))
        requires
            old(self).wf(),
            old(bus).wf(),
            op_class(opcode as int) == 0xF,
            opcode as int % 256 == 0x55,
        ensures
            opcode_effect(*old(self), *old(bus), *final(self), *final(bus), opcode, 0, r.0),
    {
        let ghost s0 = machine_view(*old(self), *old(bus));
        let x = (opcode / 0x100) % 16;
        if self.i <= MEMORY_SIZE - (x + 1) {
            let ghost mem0 = bus.memory@;
            let ghost regs0 = self.v@;
            let ghost inp0 = bus.input;
            let ghost clk0 = bus.clock;
            let ghost gfx0 = bus.graphics;
            let i0 = self.i;
            let mut k: usize = 0;
            while k < x + 1
                invariant
                    k <= x + 1,
                    x < 16,
                    i0 + x + 1 <= MEMORY_SIZE,
                    self.i == i0 + k,
                    self.v@ == regs0,
                    self.v@.len() == 16,
                    self.pc == old(self).pc,
                    self.sp == old(self).sp,
                    self.sp <= 16,
                    self.stack == old(self).stack,
                    self.stack@.len() == 16,
                    self.shift_quirk_enabled == old(self).shift_quirk_enabled,
                    self.vblank_wait == old(self).vblank_wait,
                    self.display == old(self).display,
                    self.instructions == old(self).instructions,
                    self.instructions@.len() <= INSTRUCTION_BUFFER_LENGTH,
                    bus.input == inp0,
                    bus.clock == clk0,
                    bus.graphics == gfx0,
                    bus.memory.wf(),
                    forall|j: int|
                        0 <= j < MEMORY_SIZE && !(i0 <= j < i0 + k) ==> bus.memory@[j]
                            == mem0[j],
                    forall|j: int| i0 <= j < i0 + k ==> bus.memory@[j] == regs0[j - i0],
                decreases x + 1 - k,
            {
                let val = self.v[k];
                bus.memory.write(self.i, val);
                self.i = self.i + 1;
                k += 1;
            }
            proof {
                assert(opcode_effect(
                    *old(self),
                    *old(bus),
                    *self,
                    *bus,
                    opcode,
                    0,
                    PCUpdate::Next,
                )) by {
                    reveal(spec_step);
                    assert(bus.memory@ =~= Seq::new(
                        MEMORY_SIZE as nat,
                        |j: int|
                            if i0 <= j < i0 + x + 1 {
                                regs0[j - i0]
                            } else {
                                mem0[j]
                            },
                    ));
                    assert(machine_view(*self, *bus) =~= MachineState {
                        pc: s0.pc,
                        ..spec_step(s0, opcode as int, 0)
                    });
                };
            }
            (PCUpdate::Next, "Store registers to memory".to_string())
        } else {
            proof {
                assert(spec_step(s0, opcode as int, 0) == MachineState {
                    pc: ((s0.pc + 2) as usize),
                    ..s0
                }) by {
                    reveal(spec_step);
                };
                self.lemma_noop_effect(s0, *old(self), *old(bus), *bus, opcode);
            }
            (PCUpdate::Next, "Store ignored: outside memory".to_string())
        }
    }

    /// `Fx65`: load `V0` through `Vx` from memory starting at `I`, which
    /// advances past the loaded bytes. With the range reaching past the
    /// end of memory the load is ignored.
    #[verifier::rlimit(100)]
    fn exec_load_registers(&mut self, opcode: usize, bus: &mut Bus) -> (r: (PCUpdate, String))
        requires
            old(self).wf(),
            old(bus).wf(),
            op_class(opcode as int) == 0xF,
            opcode as int % 256 == 0x65,
        ensures
            opcode_effect(*old(self), *old(bus), *final(self), *final(bus), opcode, 0, r.0),
    {
        let ghost s0 = machine_view(*old(self), *old(bus));
        let x = (opcode / 0x100) % 16;
        if self.i <= MEMORY_SIZE - (x + 1) {
            let ghost mem0 = bus.memory@;
            let ghost regs0 = self.v@;
            let ghost inp0 = bus.input;
            let ghost clk0 = bus.clock;
            let ghost gfx0 = bus.graphics;
            let i0 = self.i;
            let mut k: usize = 0;
            while k < x + 1
                invariant
                    k <= x + 1,
                    x < 16,
                    i0 + x + 1 <= MEMORY_SIZE,
                    self.i == i0 + k,
                    self.v@.len() == 16,
                    forall|j: int| k <= j < 16 ==> self.v@[j] == regs0[j],
                    forall|j: int| 0 <= j < k ==> self.v@[j] == mem0[i0 + j],
                    self.pc == old(self).pc,
                    self.sp == old(self).sp,
                    self.sp <= 16,
                    self.stack == old(self).stack,
                    self.stack@.len() == 16,
                    self.shift_quirk_enabled == old(self).shift_quirk_enabled,
                    self.vblank_wait == old(self).vblank_wait,
                    self.display == old(self).display,
                    self.instructions == old(self).instructions,
                    self.instructions@.len() <= INSTRUCTION_BUFFER_LENGTH,
                    bus.input == inp0,
                    bus.clock == clk0,
                    bus.graphics == gfx0,
                    bus.memory@ == mem0,
                    bus.memory.wf(),
                decreases x + 1 - k,
            {
                let val = bus.memory.read(self.i);
                self.v[k] = val;
                self.i = self.i + 1;
                k += 1;
            }
            proof {
                assert(opcode_effect(
                    *old(self),
                    *old(bus),
                    *self,
                    *bus,
                    opcode,
                    0,
                    PCUpdate::Next,
                )) by {
                    reveal(spec_step);
                    assert(self.v@ =~= Seq::new(
                        16,
                        |j: int|
                            if 0 <= j <= x {
                                mem0[i0 + j]
                            } else {
                                regs0[j]
                            },
                    ));
                    assert(machine_view(*self, *bus) =~= MachineState {
                        pc: s0.pc,
                        ..spec_step(s0, opcode as int, 0)
                    });
                };
            }
            (PCUpdate::Next, "Load registers from memory".to_string())
        } else {
            proof {
                assert(spec_step(s0, opcode as int, 0) == MachineState {
                    pc: ((s0.pc + 2) as usize),
                    ..s0
                }) by {
                    reveal(spec_step);
                };
                self.lemma_noop_effect(s0, *old(self), *old(bus), *bus, opcode);
            }
            (PCUpdate::Next, "Load ignored: outside memory".to_string())
        }
    }
}

} // verus!
