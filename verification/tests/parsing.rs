//! Header and tokenizer behavior of `Ringtone::parse`.

use r3tl::r3tl::{wellformed_r3tl, Ringtone};

#[test]
fn header_recovers_all_three_fields() {
    let rt = Ringtone::parse("Test:d=8,o=4,b=120:c,d,e");
    assert_eq!(rt.duration, 8);
    assert_eq!(rt.octave, 4);
    assert_eq!(rt.bpm, 120);
}

#[test]
fn header_name_is_recovered() {
    let rt = Ringtone::parse("Some Song:d=4,o=5,b=100:c");
    assert_eq!(rt.name, b"Some Song".to_vec());
}

#[test]
fn empty_header_keeps_compiled_defaults() {
    let rt = Ringtone::parse("x::c");
    assert_eq!(rt.duration, 4);
    assert_eq!(rt.octave, 6);
    assert_eq!(rt.bpm, 65);
}

#[test]
fn omitted_fields_keep_their_defaults() {
    let rt = Ringtone::parse("x:d=8:c");
    assert_eq!(rt.duration, 8);
    assert_eq!(rt.octave, 6);
    assert_eq!(rt.bpm, 65);
}

#[test]
fn unrecognized_keys_are_ignored() {
    let rt = Ringtone::parse("x:q=9,z=1:c");
    assert_eq!(rt.duration, 4);
    assert_eq!(rt.octave, 6);
    assert_eq!(rt.bpm, 65);
}

#[test]
fn malformed_values_fall_back_to_defaults() {
    // Non-numeric, zero, and overflowing values all leave the default alone.
    let rt = Ringtone::parse("x:d=abc,o=0,b=99999999999999:c");
    assert_eq!(rt.duration, 4);
    assert_eq!(rt.octave, 6);
    assert_eq!(rt.bpm, 65);
}

#[test]
fn later_assignment_wins() {
    let rt = Ringtone::parse("x:d=8,d=16:c");
    assert_eq!(rt.duration, 16);
}

#[test]
fn short_and_empty_parameters_are_ignored() {
    let rt = Ringtone::parse("x:,d,b=90:c");
    assert_eq!(rt.duration, 4);
    assert_eq!(rt.bpm, 90);
}

#[test]
fn body_tokens_come_in_order() {
    let mut rt = Ringtone::parse("x:d=4,o=5,b=100:c,p,e6");
    let t1 = rt.next().expect("first token");
    let t2 = rt.next().expect("second token");
    let t3 = rt.next().expect("third token");
    assert_eq!(rt.next(), None);
    assert_eq!(rt.next(), None);
    assert_eq!(t1.freq, 523); // c at header octave 5
    assert_eq!(t2.freq, 1); // the rest sentinel
    assert_eq!(t3.freq, 1319); // e with octave digit 6
}

#[test]
fn empty_body_is_one_silent_token() {
    let mut rt = Ringtone::parse("x::");
    let t = rt.next().expect("the empty token");
    assert_eq!(t.freq, 10000);
    assert_eq!(t.frames, 0);
    assert_eq!(rt.next(), None);
}

#[test]
fn trailing_comma_adds_an_empty_silent_token() {
    // The first compiled-in ringtone ends in a comma; the empty token after
    // it decodes to silence instead of failing.
    let mut rt = Ringtone::parse("x:d=4,o=5,b=100:c,");
    let first = rt.next().expect("the note");
    assert_eq!(first.freq, 523);
    let last = rt.next().expect("the empty token");
    assert_eq!(last.freq, 10000);
    assert_eq!(rt.next(), None);
}

#[test]
fn wellformed_needs_two_colons() {
    assert!(wellformed_r3tl("a:b:c"));
    assert!(wellformed_r3tl("::"));
    assert!(wellformed_r3tl("a:b:c:d"));
    assert!(!wellformed_r3tl("a:b"));
    assert!(!wellformed_r3tl(""));
    assert!(!wellformed_r3tl("abc"));
}
