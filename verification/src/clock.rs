//! The 60Hz clock of the machine: the delay and sound timers, and the
//! vertical-blank flag used to rate-limit sprite drawing.
//!
//! The sound timer lives in a shared atomic byte so that an audio thread
//! of the host can sample it concurrently; nothing is assumed about the
//! value read back from it.
use vstd::prelude::*;

use std::sync::atomic::{AtomicU8, Ordering};
use std::sync::Arc;
use std::time::Instant;

verus! {

#[verifier::external_type_specification]
#[verifier::external_body]
pub struct ExInstant(Instant);

/// Relies on `std::time::Instant::now` for the current point in time.
#[verifier::external_body]
fn instant_now() -> Instant {
    Instant::now()
}

/// Relies on `std::time::Instant::elapsed`: true when at least a sixtieth
/// of a second has passed since `since`. The result depends on the real
/// time of day, so nothing is promised about it.
#[verifier::external_body]
fn sixtieth_elapsed(since: &Instant) -> bool {
    since.elapsed().as_nanos() >= 16_666_667
}

/// Relies on `std::time::Instant::elapsed`: busy-waits until at least a
/// sixtieth of a second has passed since `since`. Termination rests on
/// the wall clock moving forward, which no verified loop can express.
#[verifier::external_body]
fn wait_sixtieth(since: &Instant) {
    while since.elapsed().as_nanos() < 16_666_667 {
        std::hint::spin_loop();
    }
}

/// A timer value decremented by one, stopping at zero.
pub open spec fn spec_timer_dec(t: u8) -> u8 {
    if t > 0 {
        (t - 1) as u8
    } else {
        0
    }
}

/// Handles the updating of the delay and sound timers. Both are decremented
/// by one at a rate of 60Hz and stop at zero.
pub struct Clock {
    /// The delay timer, read and written by the `Fx07`/`Fx15` instructions.
    pub delay_timer: u8,

    /// The sound timer, written by `Fx18` and sampled by the host's audio
    /// thread; non-zero gates the tone on.
    pub sound_timer: Arc<AtomicU8>,

    /// True exactly on updates where a sixtieth of a second had elapsed.
    pub vblank_interrupt: bool,

    /// When the timers were last decremented.
    pub last_delay: Instant,
}

impl Clock {
    /// Create a new `Clock` with both timers at zero.
    pub fn new() -> (c: Clock)
        ensures
            c.delay_timer == 0,
            !c.vblank_interrupt,
    {
        Clock {
            delay_timer: 0,
            sound_timer: Arc::new(AtomicU8::new(0)),
            vblank_interrupt: false,
            last_delay: instant_now(),
        }
    }

    /// Update the delay and sound timers.
    ///
    /// If a sixtieth of a second has elapsed since the last decrement, both
    /// timers go down by one (stopping at zero) and the vertical-blank flag
    /// is raised; otherwise the timers are left alone and the flag cleared.
    /// Whether the period has elapsed depends on the real time of day, so
    /// the contract relates the two outcomes to the flag instead of picking
    /// one.
    pub fn update(&mut self)
        ensures
            final(self).vblank_interrupt ==> final(self).delay_timer == spec_timer_dec(
                old(self).delay_timer,
            ),
            !final(self).vblank_interrupt ==> final(self).delay_timer == old(self).delay_timer,
            final(self).sound_timer == old(self).sound_timer,
    {
        if sixtieth_elapsed(&self.last_delay) {
            if self.delay_timer > 0 {
                self.delay_timer = self.delay_timer - 1;
            }
            let sound = self.sound_timer.load(Ordering::SeqCst);
            if sound > 0 {
                self.sound_timer.store(sound - 1, Ordering::SeqCst);
            }
            self.vblank_interrupt = true;
            self.last_delay = instant_now();
        } else {
            self.vblank_interrupt = false;
        }
    }

    /// Block until the next 60Hz boundary and perform that boundary's
    /// tick: both timers drop by one (stopping at zero) and the
    /// vertical-blank flag is raised. Used to rate-limit sprite drawing
    /// when the vertical-blank quirk is enabled.
    pub fn wait_for_vblank(&mut self)
        ensures
            final(self).delay_timer == spec_timer_dec(old(self).delay_timer),
            final(self).vblank_interrupt,
            final(self).sound_timer == old(self).sound_timer,
    {
        wait_sixtieth(&self.last_delay);
        if self.delay_timer > 0 {
            self.delay_timer = self.delay_timer - 1;
        }
        let sound = self.sound_timer.load(Ordering::SeqCst);
        if sound > 0 {
            self.sound_timer.store(sound - 1, Ordering::SeqCst);
        }
        self.vblank_interrupt = true;
        self.last_delay = instant_now();
    }

    /// The current value of the sound timer. The byte is shared with the
    /// host's audio thread, so no more is promised than that some byte is
    /// read.
    pub fn sound_timer_value(&self) -> u8 {
        self.sound_timer.load(Ordering::SeqCst)
    }

    /// Set the sound timer to `val`.
    pub fn set_sound_timer(&self, val: u8) {
        self.sound_timer.store(val, Ordering::SeqCst);
    }
}

} // verus!
