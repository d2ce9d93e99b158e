//! A CHIP-8 virtual machine core: memory, timers, input, graphics and the
//! fetch/decode/execute engine, with machine-checked contracts for the
//! instruction semantics.
use vstd::prelude::*;

pub mod clock;
pub mod graphics;
pub mod input;
pub mod laws;
pub mod memory;
pub mod processor;
pub mod semantics;

verus! {

use crate::clock::Clock;
use crate::graphics::GraphicsBuffer;
use crate::input::Input;
use crate::memory::Memory;
use crate::semantics::spec_cycle;

/// Contains all the different components of the CHIP-8 system, excluding
/// the processor: the pieces the processor reads and writes each cycle.
pub struct Bus {
    pub clock: Clock,
    pub graphics: GraphicsBuffer,
    pub input: Input,
    pub memory: Memory,
}

impl Bus {
    /// All components of the bus are well formed.
    pub open spec fn wf(&self) -> bool {
        &&& self.graphics.wf()
        &&& self.input.wf()
        &&& self.memory.wf()
    }

    /// Create a bus with a fresh clock, empty screen, idle input and
    /// memory holding only the font.
    pub fn new() -> (b: Bus)
        ensures
            b.wf(),
            b.clock.delay_timer == 0,
            !b.clock.vblank_interrupt,
            b.graphics.spec_fg() == graphics::spec_default_foreground(),
            b.graphics.spec_bg() == graphics::spec_default_background(),
            b.graphics.spec_cells() == Seq::new(
                graphics::PIXEL_COUNT as nat,
                |p: int| graphics::spec_default_background(),
            ),
            b.input.spec_keys() == Seq::new(input::KEY_COUNT as nat, |k: int| false),
            !b.input.spec_waiting(),
            b.input.spec_request_reg() == 0,
            b.input.spec_response() is None,
            b.memory@ == memory::spec_initial_memory(),
    {
        Bus {
            clock: Clock::new(),
            graphics: GraphicsBuffer::new(),
            input: Input::new(),
            memory: Memory::new(),
        }
    }
}

impl Default for Bus {
    /// Same as [`Bus::new`].
    fn default() -> (b: Bus)
        ensures
            b.wf(),
            !b.input.spec_waiting(),
            b.input.spec_response() is None,
            b.memory@ == memory::spec_initial_memory(),
    {
        Bus::new()
    }
}

/// The main CHIP-8 interpreter state: all the components of the machine
/// and the operations to drive them at a high level.
pub struct Chip8 {
    pub processor: processor::Processor,
    pub bus: Bus,
}

impl Chip8 {
    /// Processor and bus are both well formed.
    pub open spec fn wf(&self) -> bool {
        &&& self.processor.wf()
        &&& self.bus.wf()
    }

    /// Create a new `Chip8` instance: a fresh bus and a processor ready
    /// to run at the starting address.
    pub fn new() -> (c: Chip8)
        ensures
            c.wf(),
            c.processor.pc == processor::STARTING_PC,
            c.processor.sp == 0,
            c.processor.i == 0,
            c.processor.v@ == Seq::new(16, |k: int| 0u8),
            c.processor.stack@ == Seq::new(16, |k: int| 0usize),
            !c.processor.shift_quirk_enabled,
            !c.processor.vblank_wait,
            c.processor.instructions@ == Seq::<processor::Instruction>::empty(),
            c.bus.memory@ == memory::spec_initial_memory(),
            c.bus.input.spec_keys() == Seq::new(input::KEY_COUNT as nat, |k: int| false),
            !c.bus.input.spec_waiting(),
            c.bus.input.spec_response() is None,
            c.bus.clock.delay_timer == 0,
            !c.bus.clock.vblank_interrupt,
            c.bus.graphics.spec_fg() == graphics::spec_default_foreground(),
            c.bus.graphics.spec_bg() == graphics::spec_default_background(),
            c.bus.graphics.spec_cells() == Seq::new(
                graphics::PIXEL_COUNT as nat,
                |p: int| graphics::spec_default_background(),
            ),
    {
        Chip8 { processor: processor::Processor::new(), bus: Bus::new() }
    }

    /// Perform one execution step: update the clock, then cycle the
    /// processor once against the bus.
    ///
    /// The machine snapshot advances by `spec_tick` (the clock, which may
    /// or may not reach a 60Hz boundary) followed by `spec_cycle` (one
    /// instruction, open only in the byte the random-number source drew).
    pub fn step(&mut self)
        requires
            old(self).wf(),
        ensures
            final(self).wf(),
            final(self).processor.shift_quirk_enabled == old(self).processor.shift_quirk_enabled,
            final(self).processor.vblank_wait == old(self).processor.vblank_wait,
            final(self).bus.clock.sound_timer == old(self).bus.clock.sound_timer,
            exists|ticked: bool, rand: u8|
                processor::machine_view(final(self).processor, final(self).bus) == spec_cycle(
                    semantics::spec_tick(
                        processor::machine_view(old(self).processor, old(self).bus),
                        ticked,
                    ),
                    rand,
                ),
            old(self).bus.input.spec_waiting() ==> {
                &&& final(self).processor.pc == old(self).processor.pc
                &&& final(self).processor.v@ == old(self).processor.v@
                &&& final(self).bus.input.spec_waiting()
            },
            !processor::spec_cycle_executes(
                processor::machine_view(old(self).processor, old(self).bus),
            ) ==> final(self).processor.instructions == old(self).processor.instructions,
            processor::spec_cycle_executes(
                processor::machine_view(old(self).processor, old(self).bus),
            ) ==> {
                let h = final(self).processor.instructions@;
                let h0 = old(self).processor.instructions@;
                &&& h.len() == if h0.len() < processor::INSTRUCTION_BUFFER_LENGTH {
                    h0.len() + 1
                } else {
                    processor::INSTRUCTION_BUFFER_LENGTH as nat
                }
                &&& h[0].address == old(self).processor.pc
                &&& h[0].opcode == semantics::spec_fetch(
                    semantics::spec_consume_response(
                        processor::machine_view(old(self).processor, old(self).bus),
                    ),
                )
                &&& h.subrange(1, h.len() as int) == h0.subrange(0, h.len() - 1)
            },
    {
        let ghost s0 = processor::machine_view(self.processor, self.bus);
        self.bus.clock.update();
        let ghost ticked = self.bus.clock.vblank_interrupt;
        proof {
            assert(processor::machine_view(self.processor, self.bus) =~= semantics::spec_tick(
                s0,
                ticked,
            ));
        }
        let ghost s_mid = processor::machine_view(self.processor, self.bus);
        self.processor.cycle(&mut self.bus);
        proof {
            let rand = choose|rand: u8|
                processor::machine_view(self.processor, self.bus) == spec_cycle(s_mid, rand);
            assert(processor::machine_view(self.processor, self.bus) == spec_cycle(
                semantics::spec_tick(s0, ticked),
                rand,
            ));
            // The clock's tick touches only the delay timer and the
            // vblank flag, so whether the cycle executes, and which
            // opcode it fetches, are the same questions asked of the
            // pre-tick snapshot.
            assert(semantics::spec_consume_response(s_mid).pc == semantics::spec_consume_response(
                s0,
            ).pc);
            assert(semantics::spec_consume_response(s_mid).mem
                == semantics::spec_consume_response(s0).mem);
            assert(processor::spec_cycle_executes(s_mid) == processor::spec_cycle_executes(s0));
            if processor::spec_cycle_executes(s0) {
                assert(semantics::spec_fetch(semantics::spec_consume_response(s_mid))
                    == semantics::spec_fetch(semantics::spec_consume_response(s0)));
            }
        }
    }

    /// Load the given ROM data into memory, truncating or zero-padding it
    /// to the program space.
    pub fn load_rom_data(&mut self, data: Vec<u8>)
        requires
            old(self).wf(),
        ensures
            final(self).wf(),
            final(self).bus.memory@ == old(self).bus.memory@.subrange(
                0,
                memory::INTERPRETER_SIZE as int,
            ) + memory::spec_rom_image(data@),
            final(self).processor == old(self).processor,
            final(self).bus.graphics == old(self).bus.graphics,
            final(self).bus.input == old(self).bus.input,
            final(self).bus.clock == old(self).bus.clock,
    {
        self.bus.memory.load_rom(data);
    }

    /// Update the input state for the given key code.
    pub fn update_key_state(&mut self, key_code: u8, pressed: bool)
        requires
            old(self).wf(),
            key_code < input::KEY_COUNT,
        ensures
            final(self).wf(),
            final(self).bus.input.spec_keys() == old(self).bus.input.spec_keys().update(
                key_code as int,
                pressed,
            ),
            if pressed && old(self).bus.input.spec_waiting() {
                &&& !final(self).bus.input.spec_waiting()
                &&& final(self).bus.input.spec_response() == Some(
                    input::KeyRequestResponse {
                        key_code,
                        register: old(self).bus.input.spec_request_reg(),
                    },
                )
            } else {
                &&& final(self).bus.input.spec_waiting() == old(self).bus.input.spec_waiting()
                &&& final(self).bus.input.spec_response() == old(self).bus.input.spec_response()
            },
            final(self).processor == old(self).processor,
            final(self).bus.graphics == old(self).bus.graphics,
            final(self).bus.memory == old(self).bus.memory,
            final(self).bus.clock == old(self).bus.clock,
    {
        self.bus.input.update(key_code, pressed);
    }

    /// Reset the machine: clear the screen, rebuild memory, clock and
    /// input from scratch, and start the processor over — carrying only
    /// the two configuration quirks across, and leaving the screen
    /// colors untouched.
    pub fn reset(&mut self)
        requires
            old(self).wf(),
        ensures
            final(self).wf(),
            final(self).processor.pc == processor::STARTING_PC,
            final(self).processor.sp == 0,
            final(self).processor.i == 0,
            final(self).processor.v@ == Seq::new(16, |k: int| 0u8),
            final(self).processor.stack@ == Seq::new(16, |k: int| 0usize),
            final(self).processor.instructions@ == Seq::<processor::Instruction>::empty(),
            final(self).processor.shift_quirk_enabled == old(self).processor.shift_quirk_enabled,
            final(self).processor.vblank_wait == old(self).processor.vblank_wait,
            final(self).bus.memory@ == memory::spec_initial_memory(),
            final(self).bus.input.spec_keys() == Seq::new(input::KEY_COUNT as nat, |k: int| false),
            !final(self).bus.input.spec_waiting(),
            final(self).bus.input.spec_response() is None,
            final(self).bus.clock.delay_timer == 0,
            !final(self).bus.clock.vblank_interrupt,
            final(self).bus.graphics.spec_fg() == old(self).bus.graphics.spec_fg(),
            final(self).bus.graphics.spec_bg() == old(self).bus.graphics.spec_bg(),
            final(self).bus.graphics.spec_cells() == Seq::new(
                graphics::PIXEL_COUNT as nat,
                |p: int| old(self).bus.graphics.spec_bg(),
            ),
    {
        self.bus.graphics.clear();
        self.bus.clock = Clock::new();
        self.bus.input = Input::new();
        self.bus.memory = Memory::new();
        // Create a new processor with the shift quirk and vertical-blank
        // wait settings retained.
        let shift_quirk_enabled = self.processor.shift_quirk_enabled;
        let vblank_wait = self.processor.vblank_wait;
        self.processor = processor::Processor::new();
        self.processor.shift_quirk_enabled = shift_quirk_enabled;
        self.processor.vblank_wait = vblank_wait;
    }

    /// Convenience method: reset the machine and load the given ROM.
    pub fn reset_and_load(&mut self, data: Vec<u8>)
        requires
            old(self).wf(),
        ensures
            final(self).wf(),
            final(self).processor.pc == processor::STARTING_PC,
            final(self).processor.sp == 0,
            final(self).processor.i == 0,
            final(self).processor.v@ == Seq::new(16, |k: int| 0u8),
            final(self).processor.stack@ == Seq::new(16, |k: int| 0usize),
            final(self).processor.instructions@ == Seq::<processor::Instruction>::empty(),
            final(self).processor.shift_quirk_enabled == old(self).processor.shift_quirk_enabled,
            final(self).processor.vblank_wait == old(self).processor.vblank_wait,
            final(self).bus.memory@ == memory::spec_initial_memory().subrange(
                0,
                memory::INTERPRETER_SIZE as int,
            ) + memory::spec_rom_image(data@),
            final(self).bus.input.spec_keys() == Seq::new(input::KEY_COUNT as nat, |k: int| false),
            !final(self).bus.input.spec_waiting(),
            final(self).bus.input.spec_response() is None,
            final(self).bus.clock.delay_timer == 0,
            !final(self).bus.clock.vblank_interrupt,
            final(self).bus.graphics.spec_fg() == old(self).bus.graphics.spec_fg(),
            final(self).bus.graphics.spec_bg() == old(self).bus.graphics.spec_bg(),
            final(self).bus.graphics.spec_cells() == Seq::new(
                graphics::PIXEL_COUNT as nat,
                |p: int| old(self).bus.graphics.spec_bg(),
            ),
    {
        self.reset();
        self.load_rom_data(data);
    }
}

} // verus!
