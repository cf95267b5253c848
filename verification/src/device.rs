//! The device's task bodies: the glue that the scheduler's four tasks
//! execute, binding the player, the output pins and the rotation counter
//! together under the locking discipline of [`crate::sched`]. The
//! surrounding program owns the actual hardware; it mirrors the modeled pin
//! levels and timer fields onto it and calls these bodies when it dispatches
//! the corresponding task.

use vstd::prelude::*;

use crate::r3tl::{
    frame_tick_spec, play_spec, player_wf, silence, sound_tick_spec, wellformed_r3tl, Player,
    PlayerV,
};
use crate::parse::split_on;
use crate::sched::{ResourceId, Sched, TaskId};
use crate::timer::Timer;
use crate::tones::{ringtone_at, ringtone_bytes};

verus! {

/// The modeled output pins: `true` is the high level. The buzzer idles high;
/// the eyes idle low.
#[derive(Clone, Copy, Debug, PartialEq, Eq, Structural)]
pub struct Pins {
    pub left_eye: bool,
    pub right_eye: bool,
    pub buzzer: bool,
}

/// The whole device as the firmware sees it: scheduler state, player, pins,
/// the external-interrupt pending flag and the rotating ringtone index.
pub struct Device {
    pub sched: Sched,
    pub player: Player,
    pub pins: Pins,
    pub exti_pending: bool,
    pub counter: usize,
}

/// The device invariant: player and scheduler are well formed and the
/// rotation counter stays inside the table.
pub open spec fn device_wf(d: Device) -> bool {
    &&& player_wf(d.player@)
    &&& d.sched.wf()
    &&& d.sched.prio_bounded()
    &&& d.counter < 10
}

impl Device {
    /// The device after power-on reset: idle player on stopped timers, eyes
    /// low, buzzer high, counter at zero, no task pending or active.
    pub fn new() -> (d: Device)
        ensures
            device_wf(d),
            d.player@.ringtone is None,
            d.player@ == (PlayerV {
                frame_timer: Timer { running: false, armed: false, freq: 0, pending: false },
                sound_timer: Timer { running: false, armed: false, freq: 0, pending: false },
                ringtone: None,
                frame: 0,
                tone: silence(),
            }),
            d.pins == (Pins { left_eye: false, right_eye: false, buzzer: true }),
            d.counter == 0,
            !d.exti_pending,
            d.sched.stack@.len() == 0,
            forall|t: TaskId| !d.sched.spec_pending(t),
    {
        Device {
            sched: Sched::new(),
            player: Player::new(Timer::new(), Timer::new()),
            pins: Pins { left_eye: false, right_eye: false, buzzer: true },
            exti_pending: false,
            counter: 0,
        }
    }

    /// The `button_click` task body: asks the scheduler to run
    /// `play_ringtone` and clears the pending button edge. Returns `false`
    /// when the spawn queue was already full — a fatal scheduling error the
    /// caller must halt on.
    pub fn button_click(&mut self) -> (ok: bool)
        requires
            device_wf(*old(self)),
            old(self).sched.stack@.len() > 0,
            old(self).sched.stack@.last().task == TaskId::ButtonClick,
        ensures
            device_wf(*final(self)),
            ok == !old(self).sched.spec_pending(TaskId::PlayRingtone),
            final(self).sched.spec_pending(TaskId::PlayRingtone),
            forall|u: TaskId|
                u != TaskId::PlayRingtone ==> final(self).sched.spec_pending(u) == old(
                    self,
                ).sched.spec_pending(u),
            final(self).sched.stack == old(self).sched.stack,
            !final(self).exti_pending,
            final(self).player == old(self).player,
            final(self).pins == old(self).pins,
            final(self).counter == old(self).counter,
    {
        let ok = self.sched.spawn(TaskId::PlayRingtone);
        self.exti_pending = false;
        ok
    }

    /// The `play_ringtone` task body: picks the table entry the rotation
    /// counter selects, starts the player on it inside the player's
    /// critical section, and advances the counter modulo the table length.
    pub fn play_ringtone(&mut self)
        requires
            device_wf(*old(self)),
            old(self).sched.stack@.len() > 0,
            old(self).sched.stack@.last().task == TaskId::PlayRingtone,
        ensures
            device_wf(*final(self)),
            ({
                let bytes = ringtone_bytes(old(self).counter as int);
                if split_on(bytes, 58).len() >= 3 {
                    final(self).player@ == play_spec(old(self).player@, bytes)
                } else {
                    final(self).player@ == old(self).player@
                }
            }),
            final(self).counter == (old(self).counter + 1) % 10,
            final(self).sched.stack_view() == old(self).sched.stack_view(),
            forall|u: TaskId| final(self).sched.spec_pending(u) == old(self).sched.spec_pending(u),
            final(self).pins == old(self).pins,
            final(self).exti_pending == old(self).exti_pending,
    {
        let ghost s0 = self.sched.stack_view();
        let text = ringtone_at(self.counter);
        self.sched.lock(ResourceId::PlayerState);
        let ghost s1 = self.sched.stack_view();
        if wellformed_r3tl(text) {
            self.player.play(text);
        }
        self.sched.unlock();
        self.counter = (self.counter + 1) % 10;
        proof {
            crate::sched::lemma_lock_roundtrip(s0, s1, self.sched.stack_view(), 2);
        }
    }

    /// The `frame_tick` task body: advances the player inside the player's
    /// critical section; when playback has ended it parks the pins — eyes
    /// low, buzzer high — each inside its own critical section.
    pub fn frame_tick(&mut self)
        requires
            device_wf(*old(self)),
            old(self).sched.stack@.len() > 0,
            old(self).sched.stack@.last().task == TaskId::FrameTick,
        ensures
            device_wf(*final(self)),
            final(self).player@ == frame_tick_spec(old(self).player@),
            final(self).pins == if frame_tick_spec(old(self).player@).ringtone is None {
                Pins { left_eye: false, right_eye: false, buzzer: true }
            } else {
                old(self).pins
            },
            final(self).sched.stack_view() == old(self).sched.stack_view(),
            forall|u: TaskId| final(self).sched.spec_pending(u) == old(self).sched.spec_pending(u),
            final(self).exti_pending == old(self).exti_pending,
            final(self).counter == old(self).counter,
    {
        let ghost s0 = self.sched.stack_view();
        self.sched.lock(ResourceId::PlayerState);
        let ghost s1 = self.sched.stack_view();
        self.player.frame_tick();
        if !self.player.is_playing() {
            let ghost sa = self.sched.stack_view();
            self.sched.lock(ResourceId::LeftEye);
            let ghost sb = self.sched.stack_view();
            self.pins.left_eye = false;
            self.sched.unlock();
            proof {
                crate::sched::lemma_lock_roundtrip(sa, sb, self.sched.stack_view(), 2);
            }
            let ghost sc = self.sched.stack_view();
            self.sched.lock(ResourceId::RightEye);
            let ghost sd = self.sched.stack_view();
            self.pins.right_eye = false;
            self.sched.unlock();
            proof {
                crate::sched::lemma_lock_roundtrip(sc, sd, self.sched.stack_view(), 2);
            }
            let ghost se = self.sched.stack_view();
            self.sched.lock(ResourceId::Buzzer);
            let ghost sf = self.sched.stack_view();
            self.pins.buzzer = true;
            self.sched.unlock();
            proof {
                crate::sched::lemma_lock_roundtrip(se, sf, self.sched.stack_view(), 2);
            }
        }
        self.sched.unlock();
        proof {
            crate::sched::lemma_lock_roundtrip(s0, s1, self.sched.stack_view(), 2);
        }
    }

    /// The `sound_tick` task body: toggles both eyes and the buzzer — one
    /// half-period of the square wave — and lets the player acknowledge the
    /// interrupt. It runs at the shared resources' ceiling priority, so it
    /// touches them directly; no lower-priority task can be mid-update here.
    pub fn sound_tick(&mut self)
        requires
            device_wf(*old(self)),
            old(self).sched.stack@.len() > 0,
            old(self).sched.stack@.last().task == TaskId::SoundTick,
        ensures
            device_wf(*final(self)),
            final(self).player@ == sound_tick_spec(old(self).player@),
            final(self).pins == (Pins {
                left_eye: !old(self).pins.left_eye,
                right_eye: !old(self).pins.right_eye,
                buzzer: !old(self).pins.buzzer,
            }),
            final(self).sched == old(self).sched,
            final(self).exti_pending == old(self).exti_pending,
            final(self).counter == old(self).counter,
    {
        self.pins.left_eye = !self.pins.left_eye;
        self.pins.right_eye = !self.pins.right_eye;
        self.pins.buzzer = !self.pins.buzzer;
        self.player.sound_tick();
    }
}

} // verus!
