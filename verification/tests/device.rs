//! The device glue: a button press rotates through the table and starts
//! playback; the tick tasks drive the player and the pins.

use r3tl::device::Device;
use r3tl::sched::TaskId;
use r3tl::tones::{ringtone_at, ringtone_count};

#[test]
fn boot_state_is_parked() {
    let d = Device::new();
    assert!(!d.player.is_playing());
    assert!(!d.pins.left_eye && !d.pins.right_eye && d.pins.buzzer);
    assert_eq!(d.counter, 0);
}

#[test]
fn button_press_plays_the_next_ringtone() {
    let mut d = Device::new();
    // The button edge fires, its task runs and spawns the play task.
    d.sched.interrupt(TaskId::ButtonClick);
    assert!(d.sched.try_start(TaskId::ButtonClick));
    assert!(d.button_click());
    d.sched.finish();
    // The play task runs: the first table entry starts playing.
    assert!(d.sched.try_start(TaskId::PlayRingtone));
    d.play_ringtone();
    d.sched.finish();
    assert!(d.player.is_playing());
    assert_eq!(d.player.frame_timer.freq, 200); // Fur Elise plays at 200 bpm
    assert_eq!(d.counter, 1);
}

#[test]
fn counter_rotates_through_the_whole_table() {
    let mut d = Device::new();
    for press in 0..(ringtone_count() + 2) {
        d.sched.interrupt(TaskId::ButtonClick);
        assert!(d.sched.try_start(TaskId::ButtonClick));
        assert!(d.button_click());
        d.sched.finish();
        assert!(d.sched.try_start(TaskId::PlayRingtone));
        d.play_ringtone();
        d.sched.finish();
        assert_eq!(d.counter, (press + 1) % ringtone_count());
        assert!(d.player.is_playing());
    }
}

#[test]
fn frame_task_parks_the_pins_when_playback_ends() {
    let mut d = Device::new();
    d.sched.interrupt(TaskId::ButtonClick);
    assert!(d.sched.try_start(TaskId::ButtonClick));
    assert!(d.button_click());
    d.sched.finish();
    assert!(d.sched.try_start(TaskId::PlayRingtone));
    d.play_ringtone();
    d.sched.finish();
    // Scribble on the pins as a sound tick would, then run frame ticks until
    // the ringtone ends.
    d.pins.left_eye = true;
    d.pins.buzzer = false;
    let mut guard = 0u32;
    while d.player.is_playing() {
        d.sched.interrupt(TaskId::FrameTick);
        assert!(d.sched.try_start(TaskId::FrameTick));
        d.frame_tick();
        d.sched.finish();
        guard += 1;
        assert!(guard < 100_000);
    }
    assert!(!d.pins.left_eye && !d.pins.right_eye && d.pins.buzzer);
}

#[test]
fn sound_task_toggles_all_three_pins() {
    let mut d = Device::new();
    d.sched.interrupt(TaskId::SoundTick);
    assert!(d.sched.try_start(TaskId::SoundTick));
    d.sound_tick();
    d.sched.finish();
    assert!(d.pins.left_eye && d.pins.right_eye && !d.pins.buzzer);
    d.sched.interrupt(TaskId::SoundTick);
    assert!(d.sched.try_start(TaskId::SoundTick));
    d.sound_tick();
    d.sched.finish();
    assert!(!d.pins.left_eye && !d.pins.right_eye && d.pins.buzzer);
}

#[test]
fn every_table_entry_is_wellformed_and_playable() {
    for i in 0..ringtone_count() {
        let text = ringtone_at(i);
        assert!(r3tl::r3tl::wellformed_r3tl(text), "entry {}", i);
        let rt = r3tl::r3tl::Ringtone::parse(text);
        assert!(rt.duration >= 1 && rt.octave >= 1 && rt.bpm >= 1);
    }
}
