//! A verified interpreter for compact text-encoded ringtones, together with a
//! model of the interrupt-driven player that performs them.
//!
//! The text format is `"<name>:<header>:<body>"`: a comma-separated header of
//! `key=value` defaults (`d=` duration divisor, `o=` octave, `b=` beats per
//! minute) followed by a comma-separated body of note tokens. The [`r3tl`]
//! module parses that format and drives playback; [`parse`] holds the
//! byte-level text utilities it builds on; [`notes`] holds the fixed pitch
//! table; [`timer`] models the two timer peripherals the player owns;
//! [`sched`] models the priority-ceiling task scheduler that serialises
//! access to the player from interrupt context; [`tones`] is the compiled-in
//! ringtone table; [`device`] binds it all together as the task bodies the
//! scheduler dispatches.

pub mod device;
pub mod notes;
pub mod parse;
pub mod r3tl;
pub mod sched;
pub mod timer;
pub mod tones;
