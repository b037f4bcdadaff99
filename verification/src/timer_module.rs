//! The two 8-bit countdown timers of the machine: a delay timer and a sound
//! timer, each decremented by an external 60 Hz tick and saturating at zero.

use vstd::prelude::*;

verus! {

/// Delay and sound countdown registers with their derived "active" flags.
///
/// An external clock calls [`TimerModule::update`] at 60 Hz; the CPU reads
/// and writes the registers through the getters and setters.
pub struct TimerModule {
    pub sound_timer: u8,
    pub delay_timer: u8,
    pub sound_flag: bool,
    pub delay_flag: bool,
}

impl TimerModule {
    /// Both timers start at zero with their flags down.
    pub fn new() -> (t: TimerModule)
        ensures
            t.sound_timer == 0,
            t.delay_timer == 0,
            !t.sound_flag,
            !t.delay_flag,
    {
        TimerModule { sound_timer: 0, delay_timer: 0, sound_flag: false, delay_flag: false }
    }

    /// One 60 Hz tick: each register that is above zero is decremented and
    /// its flag raised; a register already at zero stays at zero and its
    /// flag is lowered.  Neither register ever wraps below zero.
    pub fn update(&mut self)
        ensures
            final(self).sound_timer == if old(self).sound_timer > 0 {
                (old(self).sound_timer - 1) as u8
            } else {
                0u8
            },
            final(self).delay_timer == if old(self).delay_timer > 0 {
                (old(self).delay_timer - 1) as u8
            } else {
                0u8
            },
            final(self).sound_flag == (old(self).sound_timer > 0),
            final(self).delay_flag == (old(self).delay_timer > 0),
    {
        if self.sound_timer > 0 {
            self.sound_timer = self.sound_timer - 1;
            self.sound_flag = true;
        } else {
            self.sound_flag = false;
        }
        if self.delay_timer > 0 {
            self.delay_timer = self.delay_timer - 1;
            self.delay_flag = true;
        } else {
            self.delay_flag = false;
        }
    }

    /// Whether the sound timer was active at the last tick; an external
    /// audio driver polls this.
    pub fn get_sound_flag(&self) -> (b: bool)
        ensures
            b == self.sound_flag,
    {
        self.sound_flag
    }

    pub fn get_sound_register(&self) -> (v: u8)
        ensures
            v == self.sound_timer,
    {
        self.sound_timer
    }

    pub fn get_delay_register(&self) -> (v: u8)
        ensures
            v == self.delay_timer,
    {
        self.delay_timer
    }

    /// Sets the sound register; a nonzero value raises the sound flag,
    /// a zero value leaves the flag as it was.
    pub fn set_sound_register(&mut self, new_val: u8)
        ensures
            final(self).sound_timer == new_val,
            final(self).sound_flag == (new_val > 0 || old(self).sound_flag),
            final(self).delay_timer == old(self).delay_timer,
            final(self).delay_flag == old(self).delay_flag,
    {
        self.sound_timer = new_val;
        if self.sound_timer > 0 {
            self.sound_flag = true;
        }
    }

    /// Sets the delay register; a nonzero value raises the delay flag,
    /// a zero value leaves the flag as it was.
    pub fn set_delay_register(&mut self, new_val: u8)
        ensures
            final(self).delay_timer == new_val,
            final(self).delay_flag == (new_val > 0 || old(self).delay_flag),
            final(self).sound_timer == old(self).sound_timer,
            final(self).sound_flag == old(self).sound_flag,
    {
        self.delay_timer = new_val;
        if self.delay_timer > 0 {
            self.delay_flag = true;
        }
    }
}

} // verus!
