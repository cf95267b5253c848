//! Note-token decoding: durations, dots, octaves, pitches and the tolerant
//! handling of malformed tokens.

use r3tl::notes::note_freq;
use r3tl::r3tl::Ringtone;

#[test]
fn missing_duration_prefix_uses_header_default() {
    let rt8 = Ringtone::parse("x:d=8,o=5,b=100:c");
    assert_eq!(rt8.parse_tone("c").frames, 15); // 120 / 8
    let rt4 = Ringtone::parse("x:d=4,o=5,b=100:c");
    assert_eq!(rt4.parse_tone("c").frames, 30); // 120 / 4, not a constant
}

#[test]
fn frame_budget_formula() {
    let rt = Ringtone::parse("x:d=4,o=5,b=100:c");
    assert_eq!(rt.parse_tone("c").frames, 30); // duration 4
    assert_eq!(rt.parse_tone("c.").frames, 45); // duration 4 dotted
    assert_eq!(rt.parse_tone("16c").frames, 7); // duration 16, truncating
    assert_eq!(rt.parse_tone("3c").frames, 40);
    assert_eq!(rt.parse_tone("3c.").frames, 60);
}

#[test]
fn pitch_a_is_concert_a_in_the_first_table_row() {
    // 440 Hz is the A of the table's lowest octave row.
    let rt = Ringtone::parse("x:d=4,o=4,b=100:a");
    assert_eq!(rt.parse_tone("a").freq, 440);
    assert_eq!(rt.parse_tone("a4").freq, 440);
}

#[test]
fn octave_rows_scale_the_pitch() {
    let rt = Ringtone::parse("x:d=4,o=5,b=100:a");
    assert_eq!(rt.parse_tone("a").freq, 880); // header octave 5
    assert_eq!(rt.parse_tone("a5").freq, 880);
    assert_eq!(rt.parse_tone("a6").freq, 1760);
    assert_eq!(rt.parse_tone("a7").freq, 3520);
}

#[test]
fn rest_is_silent_whatever_the_modifiers() {
    let rt = Ringtone::parse("x:d=4,o=5,b=100:p");
    assert_eq!(rt.parse_tone("p").freq, 1);
    assert_eq!(rt.parse_tone("8p").freq, 1);
    assert_eq!(rt.parse_tone("p.").freq, 1);
    assert_eq!(rt.parse_tone("2p.7").freq, 1);
    // Duration modifiers still shape the frame budget of the pause.
    assert_eq!(rt.parse_tone("8p").frames, 15);
}

#[test]
fn unrecognized_pitch_degrades_to_silence() {
    let rt = Ringtone::parse("x:d=4,o=5,b=100:c");
    let t = rt.parse_tone("h");
    assert_eq!(t.freq, 10000);
    assert_eq!(t.frames, 0);
    let t2 = rt.parse_tone("cp");
    assert_eq!(t2.freq, 10000);
    assert_eq!(t2.frames, 0);
    let t3 = rt.parse_tone("");
    assert_eq!(t3.freq, 10000);
    assert_eq!(t3.frames, 0);
}

#[test]
fn sharps_pick_the_next_column() {
    let rt = Ringtone::parse("x:d=4,o=4,b=100:c#");
    assert_eq!(rt.parse_tone("c").freq, 262);
    assert_eq!(rt.parse_tone("c#").freq, 277);
    assert_eq!(rt.parse_tone("g#").freq, 415);
    assert_eq!(rt.parse_tone("a#").freq, 466);
}

#[test]
fn out_of_range_octaves_clamp_to_the_table() {
    let rt = Ringtone::parse("x:d=4,o=5,b=100:c");
    assert_eq!(rt.parse_tone("c2").freq, 262); // clamped up to row 0
    assert_eq!(rt.parse_tone("c8").freq, 2093); // clamped down to row 3
}

#[test]
fn stray_tail_byte_resets_octave_to_default() {
    let rt = Ringtone::parse("x:d=4,o=5,b=100:c");
    // The octave digit 6 is overridden back to the header default by the
    // unrecognized byte that follows it.
    assert_eq!(rt.parse_tone("c6").freq, 1046);
    assert_eq!(rt.parse_tone("c6x").freq, 523);
}

#[test]
fn zero_duration_prefix_falls_back_to_default() {
    let rt = Ringtone::parse("x:d=4,o=5,b=100:c");
    assert_eq!(rt.parse_tone("0c").frames, 30);
}

#[test]
fn dotted_flag_survives_octave_digit() {
    let rt = Ringtone::parse("x:d=4,o=5,b=100:c");
    assert_eq!(rt.parse_tone("c.6").frames, 45);
    assert_eq!(rt.parse_tone("c.6").freq, 1046);
    assert_eq!(rt.parse_tone("c6.").frames, 45);
}

#[test]
fn pitch_table_spot_checks() {
    assert_eq!(note_freq(0, 0), 262);
    assert_eq!(note_freq(0, 9), 440);
    assert_eq!(note_freq(1, 9), 880);
    assert_eq!(note_freq(2, 0), 1046);
    assert_eq!(note_freq(3, 11), 3951);
    assert_eq!(note_freq(0, 12), 1);
    assert_eq!(note_freq(3, 12), 1);
}
