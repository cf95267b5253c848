//! A value model of one hardware timer/counter peripheral, holding exactly
//! what the playback logic reads and writes: whether the counter runs, the
//! frequency it was programmed to, whether its periodic interrupt is armed,
//! and whether an interrupt is pending. The real peripheral lives outside
//! this library; the surrounding program mirrors each field change onto it
//! and raises `set_pending` when the hardware interrupt fires.

use vstd::prelude::*;

verus! {

/// One timer/counter peripheral, as the player sees it.
#[derive(Clone, Copy, Debug, PartialEq, Eq, Structural)]
pub struct Timer {
    /// The counter is started and counting.
    pub running: bool,
    /// The periodic interrupt is enabled.
    pub armed: bool,
    /// The frequency, in Hz, the timer was last programmed to.
    pub freq: u32,
    /// An interrupt from this timer awaits acknowledgement.
    pub pending: bool,
}

/// The timer that paces note-to-note advancement.
pub type FrameTimer = Timer;

/// The timer whose interrupt, at the note's frequency, drives the square
/// wave.
pub type SoundTimer = Timer;

impl Timer {
    /// A timer as it comes out of reset: stopped, disarmed, nothing pending.
    pub fn new() -> (t: Timer)
        ensures
            t == (Timer { running: false, armed: false, freq: 0, pending: false }),
    {
        Timer { running: false, armed: false, freq: 0, pending: false }
    }

    /// Programs the target frequency and starts the counter.
    pub fn start(&mut self, freq: u32)
        ensures
            *final(self) == (Timer { running: true, freq, ..*old(self) }),
    {
        self.freq = freq;
        self.running = true;
    }

    /// Enables the periodic interrupt.
    pub fn listen(&mut self)
        ensures
            *final(self) == (Timer { armed: true, ..*old(self) }),
    {
        self.armed = true;
    }

    /// Disables the periodic interrupt.
    pub fn unlisten(&mut self)
        ensures
            *final(self) == (Timer { armed: false, ..*old(self) }),
    {
        self.armed = false;
    }

    /// Stops the counter.
    pub fn pause(&mut self)
        ensures
            *final(self) == (Timer { running: false, ..*old(self) }),
    {
        self.running = false;
    }

    /// Acknowledges a pending interrupt.
    pub fn clear_irq(&mut self)
        ensures
            *final(self) == (Timer { pending: false, ..*old(self) }),
    {
        self.pending = false;
    }

    /// Records that the hardware raised this timer's interrupt.
    pub fn set_pending(&mut self)
        ensures
            *final(self) == (Timer { pending: true, ..*old(self) }),
    {
        self.pending = true;
    }
}

} // verus!
