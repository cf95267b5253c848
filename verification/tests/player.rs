//! The playback state machine: play, tick-by-tick progress, exhaustion and
//! stopping.

use r3tl::r3tl::Player;
use r3tl::timer::Timer;

fn fresh_player() -> Player {
    Player::new(Timer::new(), Timer::new())
}

#[test]
fn new_player_is_idle_with_stopped_timers() {
    let p = fresh_player();
    assert!(!p.is_playing());
    assert!(!p.frame_timer.running && !p.frame_timer.armed);
    assert!(!p.sound_timer.running && !p.sound_timer.armed);
    assert_eq!(p.frame, 0);
    assert_eq!(p.tone.freq, 10000);
    assert_eq!(p.tone.frames, 0);
}

#[test]
fn stop_on_idle_player_is_a_no_op() {
    let mut p = fresh_player();
    let frame_before = p.frame_timer;
    let sound_before = p.sound_timer;
    p.stop();
    assert!(!p.is_playing());
    assert_eq!(p.frame_timer, frame_before);
    assert_eq!(p.sound_timer, sound_before);
    assert_eq!(p.frame, 0);
    // And again: stop is idempotent.
    p.stop();
    assert!(!p.is_playing());
    assert_eq!(p.frame_timer, frame_before);
}

#[test]
fn play_arms_the_frame_timer_at_the_bpm_rate() {
    let mut p = fresh_player();
    p.play("x:d=4,o=5,b=120:c6,p");
    assert!(p.is_playing());
    assert!(p.frame_timer.running && p.frame_timer.armed);
    assert_eq!(p.frame_timer.freq, 120);
    assert_eq!(p.frame, 0);
    // No note has been decoded yet: the sound timer stays untouched.
    assert!(!p.sound_timer.running && !p.sound_timer.armed);
}

#[test]
fn stop_disarms_and_pauses_both_timers() {
    let mut p = fresh_player();
    p.play("x:d=4,o=5,b=120:c6,p");
    p.frame_tick();
    assert!(p.sound_timer.running);
    p.stop();
    assert!(!p.is_playing());
    assert!(!p.frame_timer.running && !p.frame_timer.armed);
    assert!(!p.sound_timer.running && !p.sound_timer.armed);
}

#[test]
fn play_supersedes_a_running_session() {
    let mut p = fresh_player();
    p.play("x:d=4,o=5,b=120:c6,p");
    p.frame_tick();
    p.play("x:d=8,o=4,b=90:a");
    assert!(p.is_playing());
    assert_eq!(p.frame_timer.freq, 90);
    assert_eq!(p.frame, 0);
    p.frame_tick();
    assert_eq!(p.sound_timer.freq, 440);
    assert_eq!(p.tone.frames, 15);
}

#[test]
fn end_to_end_two_token_body() {
    // Header d=4,o=5,b=120 with body "c6,p": C in octave 6 for 30 frames,
    // then the silence sentinel for 30 frames, then Idle.
    let mut p = fresh_player();
    p.play("x:d=4,o=5,b=120:c6,p");

    // First cycle: the sound timer is programmed to C6 and armed while the
    // frame counter is within the 30-frame budget.
    p.frame_tick();
    assert_eq!(p.sound_timer.freq, 1046);
    assert_eq!(p.tone.frames, 30);
    assert!(p.sound_timer.running);
    assert!(p.sound_timer.armed);
    for i in 2..=64 {
        p.frame_tick();
        assert!(p.is_playing());
        // Armed exactly while the pre-increment counter was within budget.
        assert_eq!(p.sound_timer.armed, i <= 31, "tick {}", i);
    }
    assert_eq!(p.frame, 0);

    // Second cycle: the rest. The sound timer is programmed to the silence
    // sentinel and never armed.
    p.frame_tick();
    assert_eq!(p.sound_timer.freq, 1);
    assert_eq!(p.tone.frames, 30);
    assert!(!p.sound_timer.armed);
    for _ in 66..=128 {
        p.frame_tick();
        assert!(p.is_playing());
        assert!(!p.sound_timer.armed);
    }
    assert_eq!(p.frame, 0);

    // Exhaustion: the next first-of-cycle tick finds no token and stops.
    p.frame_tick();
    assert!(!p.is_playing());
    assert!(!p.frame_timer.running && !p.frame_timer.armed);
    assert!(!p.sound_timer.running && !p.sound_timer.armed);
}

#[test]
fn exactly_k_advances_before_idle() {
    // Three tokens: exactly three note-advances (one per 64-tick cycle),
    // idle on the tick after the third cycle.
    let mut p = fresh_player();
    p.play("x:d=4,o=5,b=100:c,d,e");
    let mut advances = 0;
    let mut last_freq = 0;
    for _ in 0..(3 * 64) {
        p.frame_tick();
        assert!(p.is_playing());
        if p.sound_timer.freq != last_freq {
            advances += 1;
            last_freq = p.sound_timer.freq;
        }
    }
    assert_eq!(advances, 3);
    assert_eq!(last_freq, 659); // e at octave 5
    p.frame_tick();
    assert!(!p.is_playing());
}

#[test]
fn frame_tick_after_exhaustion_has_no_effect() {
    let mut p = fresh_player();
    p.play("x:d=4,o=5,b=100:c");
    for _ in 0..65 {
        p.frame_tick();
    }
    assert!(!p.is_playing());
    let frame_before = p.frame_timer;
    let sound_before = p.sound_timer;
    let tone_before = p.tone;
    let counter_before = p.frame;
    p.frame_tick();
    assert!(!p.is_playing());
    assert_eq!(p.frame_timer, frame_before);
    assert_eq!(p.sound_timer, sound_before);
    assert_eq!(p.tone, tone_before);
    assert_eq!(p.frame, counter_before);
}

#[test]
fn sound_tick_only_acknowledges_the_interrupt() {
    let mut p = fresh_player();
    p.play("x:d=4,o=5,b=120:c6,p");
    p.frame_tick();
    p.sound_timer.set_pending();
    let tone_before = p.tone;
    let freq_before = p.sound_timer.freq;
    p.sound_tick();
    assert!(!p.sound_timer.pending);
    assert_eq!(p.tone, tone_before);
    assert_eq!(p.sound_timer.freq, freq_before);
    assert!(p.is_playing());
}

#[test]
fn frame_tick_acknowledges_the_frame_interrupt() {
    let mut p = fresh_player();
    p.play("x:d=4,o=5,b=120:c6,p");
    p.frame_timer.set_pending();
    p.frame_tick();
    assert!(!p.frame_timer.pending);
}
